//! As regras do servidor HTTP.

use vstd::prelude::*;
use vstd::utf8;
use crate::busca;
use crate::cripto;
use crate::fastcgi;
use crate::ordem;
use crate::tabela::Tabela;
use crate::texto;

verus! {

// ---- Respostas --------------------------------------------------------------------------

/// O nome de um codigo de status.
pub open spec fn nome_status(codigo: u16) -> Seq<char> {
    match codigo {
        200 => "OK"@,
        201 => "Created"@,
        202 => "Accepted"@,
        204 => "No Content"@,
        206 => "Partial Content"@,
        301 => "Moved Permanently"@,
        302 => "Found"@,
        304 => "Not Modified"@,
        400 => "Bad Request"@,
        401 => "Unauthorized"@,
        403 => "Forbidden"@,
        404 => "Not Found"@,
        405 => "Method Not Allowed"@,
        409 => "Conflict"@,
        413 => "Payload Too Large"@,
        422 => "Unprocessable Content"@,
        429 => "Too Many Requests"@,
        431 => "Request Header Fields Too Large"@,
        500 => "Internal Server Error"@,
        501 => "Not Implemented"@,
        502 => "Bad Gateway"@,
        503 => "Service Unavailable"@,
        504 => "Gateway Timeout"@,
        _ => "Unknown"@,
    }
}

/// O nome de um codigo de status.
pub fn texto_status(codigo: u16) -> (r: &'static str)
    ensures
        r@ == nome_status(codigo),
{
    match codigo {
        200 => "OK",
        201 => "Created",
        202 => "Accepted",
        204 => "No Content",
        206 => "Partial Content",
        301 => "Moved Permanently",
        302 => "Found",
        304 => "Not Modified",
        400 => "Bad Request",
        401 => "Unauthorized",
        403 => "Forbidden",
        404 => "Not Found",
        405 => "Method Not Allowed",
        409 => "Conflict",
        413 => "Payload Too Large",
        422 => "Unprocessable Content",
        429 => "Too Many Requests",
        431 => "Request Header Fields Too Large",
        500 => "Internal Server Error",
        501 => "Not Implemented",
        502 => "Bad Gateway",
        503 => "Service Unavailable",
        504 => "Gateway Timeout",
        _ => "Unknown",
    }
}

/// O tipo do conteudo de um arquivo, pela extensao.
pub open spec fn mime_de(ext: Seq<char>) -> Seq<char> {
    if ext == "html"@ || ext == "htm"@ {
        "text/html; charset=utf-8"@
    } else if ext == "css"@ {
        "text/css; charset=utf-8"@
    } else if ext == "js"@ {
        "application/javascript; charset=utf-8"@
    } else if ext == "json"@ {
        "application/json; charset=utf-8"@
    } else if ext == "txt"@ {
        "text/plain; charset=utf-8"@
    } else if ext == "xml"@ {
        "application/xml; charset=utf-8"@
    } else if ext == "png"@ {
        "image/png"@
    } else if ext == "jpg"@ || ext == "jpeg"@ {
        "image/jpeg"@
    } else if ext == "gif"@ {
        "image/gif"@
    } else if ext == "svg"@ {
        "image/svg+xml"@
    } else if ext == "ico"@ {
        "image/x-icon"@
    } else if ext == "webp"@ {
        "image/webp"@
    } else if ext == "woff"@ {
        "font/woff"@
    } else if ext == "woff2"@ {
        "font/woff2"@
    } else if ext == "ttf"@ {
        "font/ttf"@
    } else if ext == "pdf"@ {
        "application/pdf"@
    } else {
        "application/octet-stream"@
    }
}

/// O tipo do conteudo de um arquivo, pela extensao.
pub fn detectar_mime(ext: &str) -> (r: &'static str)
    ensures
        r@ == mime_de(ext@),
{
    if ext.eq("html") || ext.eq("htm") {
        "text/html; charset=utf-8"
    } else if ext.eq("css") {
        "text/css; charset=utf-8"
    } else if ext.eq("js") {
        "application/javascript; charset=utf-8"
    } else if ext.eq("json") {
        "application/json; charset=utf-8"
    } else if ext.eq("txt") {
        "text/plain; charset=utf-8"
    } else if ext.eq("xml") {
        "application/xml; charset=utf-8"
    } else if ext.eq("png") {
        "image/png"
    } else if ext.eq("jpg") || ext.eq("jpeg") {
        "image/jpeg"
    } else if ext.eq("gif") {
        "image/gif"
    } else if ext.eq("svg") {
        "image/svg+xml"
    } else if ext.eq("ico") {
        "image/x-icon"
    } else if ext.eq("webp") {
        "image/webp"
    } else if ext.eq("woff") {
        "font/woff"
    } else if ext.eq("woff2") {
        "font/woff2"
    } else if ext.eq("ttf") {
        "font/ttf"
    } else if ext.eq("pdf") {
        "application/pdf"
    } else {
        "application/octet-stream"
    }
}

/// O cabecalho de uma resposta.
pub open spec fn cabecalho_http(codigo: u16, tipo: Seq<char>, tamanho: nat, extras: Seq<(String, String)>) -> Seq<char> {
    "HTTP/1.1 "@ + texto::decimal(codigo as nat) + " "@ + nome_status(codigo) + "\r\nContent-Type: "@ + tipo
        + "\r\nContent-Length: "@ + texto::decimal(tamanho) + "\r\nConnection: close\r\n"@
        + fastcgi::linhas_cabecalho(extras) + "\r\n"@
}

/// Os bytes de uma resposta. Sem o corpo, o tamanho declarado continua a ser o dele.
pub fn escrever_resposta(
    codigo: u16,
    content_type: &str,
    corpo: &[u8],
    extras: &Vec<(String, String)>,
    enviar_corpo: bool,
) -> (r: Vec<u8>)
    ensures
        r@ == utf8::encode_utf8(cabecalho_http(codigo, content_type@, corpo@.len(), extras@)) + if enviar_corpo {
            corpo@
        } else {
            Seq::empty()
        },
{
    let mut s = "HTTP/1.1 ".to_owned();
    let a = texto::natural(codigo as u64);
    s.append(a.as_str());
    s.append(" ");
    s.append(texto_status(codigo));
    s.append("\r\nContent-Type: ");
    s.append(content_type);
    s.append("\r\nContent-Length: ");
    let n = texto::natural(corpo.len() as u64);
    s.append(n.as_str());
    s.append("\r\nConnection: close\r\n");
    fastcgi::acrescentar_cabecalhos(&mut s, extras);
    s.append("\r\n");
    assert(s@ =~= cabecalho_http(codigo, content_type@, corpo@.len(), extras@));
    let mut r: Vec<u8> = Vec::new();
    busca::acrescentar_texto(&mut r, s.as_str());
    let ghost c = utf8::encode_utf8(s@);
    assert(r@ =~= c);
    if enviar_corpo {
        busca::acrescentar_bytes(&mut r, corpo);
    } else {
        assert(r@ =~= c + Seq::<u8>::empty());
    }
    r
}

/// A pagina de um erro HTTP.
pub open spec fn html_erro(codigo: u16, caminho: Seq<char>) -> Seq<char> {
    "<!DOCTYPE html><html lang=\"pt-BR\"><head><meta charset=\"UTF-8\">\n<title>"@ + texto::decimal(codigo as nat) + " "@
        + nome_status(codigo)
        + "</title>\n<style>body{font-family:sans-serif;max-width:600px;margin:80px auto;color:#333}h1{color:#c00}</style>\n</head><body><h1>"@
        + texto::decimal(codigo as nat) + " "@ + nome_status(codigo) + "</h1><p>Nao encontrado: <code>"@ + caminho
        + "</code></p></body></html>"@
}

/// A pagina de um erro HTTP.
pub fn pagina_erro(codigo: u16, caminho: &str) -> (r: String)
    ensures
        r@ == html_erro(codigo, caminho@),
{
    let n = texto::natural(codigo as u64);
    let mut r = "<!DOCTYPE html><html lang=\"pt-BR\"><head><meta charset=\"UTF-8\">\n<title>".to_owned();
    r.append(n.as_str());
    r.append(" ");
    r.append(texto_status(codigo));
    r.append(
        "</title>\n<style>body{font-family:sans-serif;max-width:600px;margin:80px auto;color:#333}h1{color:#c00}</style>\n</head><body><h1>",
    );
    r.append(n.as_str());
    r.append(" ");
    r.append(texto_status(codigo));
    r.append("</h1><p>Nao encontrado: <code>");
    r.append(caminho);
    r.append("</code></p></body></html>");
    r
}

/// O texto com `&`, `<` e `>` escapados.
pub open spec fn html_seguro(s: Seq<char>) -> Seq<char> {
    busca::trocado(busca::trocado(busca::trocado(s, '&', "&amp;"@), '<', "&lt;"@), '>', "&gt;"@)
}

/// A pagina de um erro de execucao.
pub open spec fn html_erro_pep(erro: Seq<char>) -> Seq<char> {
    "<!DOCTYPE html><html lang=\"pt-BR\"><head><meta charset=\"UTF-8\">\n<title>500 - Erro PEP</title>\n<style>body{font-family:sans-serif;max-width:800px;margin:40px auto;color:#333}h1{color:#c00}\npre{background:#fff3f3;border:1px solid #f99;padding:16px;border-radius:4px;white-space:pre-wrap}</style>\n</head><body><h1>Erro ao executar script PEP</h1><pre>"@
        + html_seguro(erro) + "</pre></body></html>"@
}

/// A pagina de um erro de execucao, com a mensagem escapada.
pub fn pagina_erro_pep(erro: &str) -> (r: String)
    ensures
        r@ == html_erro_pep(erro@),
{
    let a = busca::trocar(erro, '&', "&amp;");
    let b = busca::trocar(a.as_str(), '<', "&lt;");
    let c = busca::trocar(b.as_str(), '>', "&gt;");
    let mut r =
        "<!DOCTYPE html><html lang=\"pt-BR\"><head><meta charset=\"UTF-8\">\n<title>500 - Erro PEP</title>\n<style>body{font-family:sans-serif;max-width:800px;margin:40px auto;color:#333}h1{color:#c00}\npre{background:#fff3f3;border:1px solid #f99;padding:16px;border-radius:4px;white-space:pre-wrap}</style>\n</head><body><h1>Erro ao executar script PEP</h1><pre>".to_owned();
    r.append(c.as_str());
    r.append("</pre></body></html>");
    r
}

proof fn lema_trocado_contem(s: Seq<char>, c: char, por: Seq<char>, x: char)
    requires
        x == c || !s.contains(x),
        !por.contains(x),
    ensures
        !busca::trocado(s, c, por).contains(x),
    decreases s.len(),
{
    let r = busca::trocado(s, c, por);
    if s.len() > 0 {
        let a = s.drop_last();
        assert(!a.contains(x) || x == c) by {
            if a.contains(x) && x != c {
                let i = choose|i: int| 0 <= i < a.len() && a[i] == x;
                assert(s[i] == x);
            }
        }
        lema_trocado_contem(a, c, por, x);
        let t = busca::trocado(a, c, por);
        if r.contains(x) {
            let i = choose|i: int| 0 <= i < r.len() && r[i] == x;
            if i < t.len() {
                assert(t[i] == x);
            } else if s.last() == c {
                assert(por[i - t.len()] == x);
            } else {
                assert(s[s.len() - 1] == x);
            }
            assert(false);
        }
    }
}

/// A mensagem escapada nao abre nem fecha marcas.
pub proof fn lei_html_seguro(s: Seq<char>)
    ensures
        !html_seguro(s).contains('<'),
        !html_seguro(s).contains('>'),
{
    reveal_strlit("&amp;");
    reveal_strlit("&lt;");
    reveal_strlit("&gt;");
    let a = busca::trocado(s, '&', "&amp;"@);
    let b = busca::trocado(a, '<', "&lt;"@);
    assert(!"&lt;"@.contains('<')) by {
        assert forall|i: int| 0 <= i < "&lt;"@.len() implies "&lt;"@[i] != '<' by {}
    }
    assert(!"&gt;"@.contains('>')) by {
        assert forall|i: int| 0 <= i < "&gt;"@.len() implies "&gt;"@[i] != '>' by {}
    }
    assert(!"&gt;"@.contains('<')) by {
        assert forall|i: int| 0 <= i < "&gt;"@.len() implies "&gt;"@[i] != '<' by {}
    }
    lema_trocado_contem(a, '<', "&lt;"@, '<');
    lema_trocado_contem(b, '>', "&gt;"@, '<');
    lema_trocado_contem(b, '>', "&gt;"@, '>');
}

// ---- Enderecos --------------------------------------------------------------------------

/// O valor de um algarismo hexadecimal.
pub open spec fn valor_hex(b: u8) -> Option<int> {
    if 48 <= b <= 57 {
        Some(b - 48)
    } else if 65 <= b <= 70 {
        Some(b - 55)
    } else if 97 <= b <= 102 {
        Some(b - 87)
    } else {
        None
    }
}

/// O byte que dois algarismos hexadecimais representam; o primeiro pode ser um `+`.
pub open spec fn byte_hex(a: u8, b: u8) -> Option<u8> {
    match (valor_hex(a), valor_hex(b)) {
        (Some(x), Some(y)) => Some((x * 16 + y) as u8),
        (None, Some(y)) => if a == 43 {
            Some(y as u8)
        } else {
            None
        },
        _ => None,
    }
}

/// O byte da posicao `i`, ou um zero se o texto ja acabou.
pub open spec fn byte_ou_zero(b: Seq<u8>, i: int) -> u8 {
    if 0 <= i < b.len() {
        b[i]
    } else {
        48
    }
}

/// Os bytes de um endereco a partir de `i`, depois dos que ja estao em `acc`: `%` e dois
/// algarismos valem um byte, ou nada se nao forem algarismos, e `+` vale um espaco.
pub open spec fn decodificado(b: Seq<u8>, i: int, acc: Seq<u8>) -> Seq<u8>
    decreases b.len() + 3 - i,
{
    if i < 0 || i >= b.len() {
        acc
    } else if b[i] == 37 {
        decodificado(
            b,
            i + 3,
            match byte_hex(byte_ou_zero(b, i + 1), byte_ou_zero(b, i + 2)) {
                Some(x) => acc.push(x),
                None => acc,
            },
        )
    } else if b[i] == 43 {
        decodificado(b, i + 1, acc.push(32u8))
    } else {
        decodificado(b, i + 1, acc.push(b[i]))
    }
}

/// O texto que um endereco codificado representa.
pub open spec fn url_texto(s: Seq<char>) -> Seq<char> {
    busca::texto_de(decodificado(utf8::encode_utf8(s), 0, Seq::empty()))
}

fn hex_de(b: u8) -> (r: Option<u8>)
    ensures
        match r {
            Some(x) => valor_hex(b) == Some(x as int) && x < 16,
            None => valor_hex(b) is None,
        },
{
    if 48 <= b && b <= 57 {
        Some(b - 48)
    } else if 65 <= b && b <= 70 {
        Some(b - 55)
    } else if 97 <= b && b <= 102 {
        Some(b - 87)
    } else {
        None
    }
}

fn par_hex(a: u8, b: u8) -> (r: Option<u8>)
    ensures
        r == byte_hex(a, b),
{
    match (hex_de(a), hex_de(b)) {
        (Some(x), Some(y)) => Some(x * 16 + y),
        (None, Some(y)) => if a == 43 {
            Some(y)
        } else {
            None
        },
        _ => None,
    }
}

/// Decodifica um endereco.
pub fn url_decodificar(s: &str) -> (r: String)
    ensures
        r@ == url_texto(s@),
        (forall|i: int| 0 <= i < s@.len() ==> #[trigger] s@[i] != '%' && s@[i] != '+') ==> r@ == s@,
{
    let b = s.as_bytes();
    let mut v: Vec<u8> = Vec::new();
    let mut i: usize = 0;
    let n = b.len();
    while i < n
        invariant
            n == b@.len(),
            b@ == utf8::encode_utf8(s@),
            decodificado(b@, 0, Seq::empty()) == decodificado(b@, i as int, v@),
        decreases n - i,
    {
        if b[i] == 37 {
            let h1: u8 = if n - i > 1 {
                b[i + 1]
            } else {
                48
            };
            let h2: u8 = if n - i > 2 {
                b[i + 2]
            } else {
                48
            };
            if let Some(x) = par_hex(h1, h2) {
                v.push(x);
            }
            if n - i > 3 {
                i += 3;
            } else {
                assert(decodificado(b@, i + 3, v@) == v@);
                i = n;
            }
        } else {
            if b[i] == 43 {
                v.push(32);
            } else {
                v.push(b[i]);
            }
            i += 1;
        }
    }
    proof {
        if forall|i: int| 0 <= i < s@.len() ==> #[trigger] s@[i] != '%' && s@[i] != '+' {
            lema_sem_marcas(s@);
            lema_identidade(b@, 0, Seq::empty());
            assert(b@.skip(0) =~= b@);
            assert(v@ =~= b@);
            utf8::encode_utf8_valid_utf8(s@);
            utf8::encode_utf8_decode_utf8(s@);
        }
    }
    busca::de_bytes(&v)
}

proof fn lema_identidade(b: Seq<u8>, i: int, acc: Seq<u8>)
    requires
        0 <= i <= b.len(),
        forall|k: int| 0 <= k < b.len() ==> #[trigger] b[k] != 37 && b[k] != 43,
    ensures
        decodificado(b, i, acc) == acc + b.skip(i),
    decreases b.len() - i,
{
    if i < b.len() {
        lema_identidade(b, i + 1, acc.push(b[i]));
        assert(acc.push(b[i]) + b.skip(i + 1) =~= acc + b.skip(i));
    } else {
        assert(acc + b.skip(i) =~= acc);
    }
}

proof fn lema_sem_marcas(s: Seq<char>)
    requires
        forall|i: int| 0 <= i < s.len() ==> #[trigger] s[i] != '%' && s[i] != '+',
    ensures
        forall|k: int|
            0 <= k < utf8::encode_utf8(s).len() ==> #[trigger] utf8::encode_utf8(s)[k] != 37
                && utf8::encode_utf8(s)[k] != 43,
    decreases s.len(),
{
    if s.len() > 0 {
        let resto = s.drop_first();
        assert forall|i: int| 0 <= i < resto.len() implies #[trigger] resto[i] != '%' && resto[i] != '+' by {
            assert(resto[i] == s[i + 1]);
        }
        lema_sem_marcas(resto);
        let c = s[0];
        lema_escalar(c);
        let e = utf8::encode_scalar(c as u32);
        assert(utf8::encode_utf8(s) == e + utf8::encode_utf8(resto));
        assert forall|k: int| 0 <= k < utf8::encode_utf8(s).len() implies #[trigger] utf8::encode_utf8(s)[k] != 37
            && utf8::encode_utf8(s)[k] != 43 by {
            if k < e.len() {
                assert(e[k] != 37 && e[k] != 43);
            } else {
                assert(utf8::encode_utf8(resto)[k - e.len()] != 37);
            }
        }
    }
}

proof fn lema_escalar(c: char)
    requires
        c != '%',
        c != '+',
    ensures
        forall|k: int|
            0 <= k < utf8::encode_scalar(c as u32).len() ==> #[trigger] utf8::encode_scalar(c as u32)[k] != 37
                && utf8::encode_scalar(c as u32)[k] != 43,
{
    let v = c as u32;
    assert(v < 128 ==> (v & 0x7F) as u8 == v) by (bit_vector);
    assert(0x80u8 | (v & 0x3F) as u8 >= 128) by (bit_vector);
    assert(0x80u8 | ((v >> 6) & 0x3F) as u8 >= 128) by (bit_vector);
    assert(0x80u8 | ((v >> 12) & 0x3F) as u8 >= 128) by (bit_vector);
    assert(0xC0u8 | ((v >> 6) & 0x1F) as u8 >= 128) by (bit_vector);
    assert(0xE0u8 | ((v >> 12) & 0x0F) as u8 >= 128) by (bit_vector);
    assert(0xF0u8 | ((v >> 18) & 0x7) as u8 >= 128) by (bit_vector);
}

/// A query a partir da parte `i`, acrescentada ao que ja havia.
pub open spec fn query_em(ps: Seq<Seq<char>>, i: int, m: Map<Seq<char>, Seq<char>>) -> Map<Seq<char>, Seq<char>>
    decreases ps.len() - i,
{
    if i < 0 || i >= ps.len() {
        m
    } else {
        query_em(
            ps,
            i + 1,
            match busca::duas_partes(ps[i], '=') {
                Some((k, v)) => m.insert(url_texto(k), url_texto(v)),
                None => if ps[i].len() > 0 {
                    m.insert(url_texto(ps[i]), Seq::empty())
                } else {
                    m
                },
            },
        )
    }
}

/// O que uma query diz.
pub open spec fn query_de(s: Seq<char>) -> Map<Seq<char>, Seq<char>> {
    if s.len() == 0 {
        Map::empty()
    } else {
        query_em(busca::partes(s, '&', 0), 0, Map::empty())
    }
}

/// Separa uma query em nomes e valores. Um nome repetido fica com o ultimo valor.
pub fn parsear_query(query: &str) -> (r: Tabela<String>)
    ensures
        fastcgi::mapa_de_textos(r@) == query_de(query@),
{
    let mut m: Tabela<String> = Tabela::nova();
    assert(fastcgi::mapa_de_textos(m@) =~= Map::<Seq<char>, Seq<char>>::empty());
    if query.is_empty() {
        return m;
    }
    let cs = texto::caracteres(query);
    let ps = busca::separar(&cs, '&');
    let ghost t = texto::textos(ps@);
    let mut i: usize = 0;
    while i < ps.len()
        invariant
            i <= ps@.len(),
            t == texto::textos(ps@),
            query_em(t, 0, Map::empty()) == query_em(t, i as int, fastcgi::mapa_de_textos(m@)),
        decreases ps@.len() - i,
    {
        assert(t[i as int] == ps@[i as int]@);
        let ghost antes = m@;
        match busca::partir(ps[i].as_str(), '=') {
            Some((k, v)) => {
                let a = url_decodificar(k.as_str());
                let b = url_decodificar(v.as_str());
                m.inserir(a, b);
                assert(fastcgi::mapa_de_textos(m@) =~= fastcgi::mapa_de_textos(antes).insert(a@, b@));
            },
            None => {
                if !ps[i].as_str().is_empty() {
                    let a = url_decodificar(ps[i].as_str());
                    let vazio = String::new();
                    m.inserir(a, vazio);
                    assert(fastcgi::mapa_de_textos(m@) =~= fastcgi::mapa_de_textos(antes).insert(
                        a@,
                        Seq::empty(),
                    ));
                }
            },
        }
        i += 1;
    }
    assert(t.len() == ps@.len());
    m
}

// ---- Cookies e sessoes ------------------------------------------------------------------

/// O valor do cookie a partir da parte `i`.
pub open spec fn cookie_em(ps: Seq<Seq<char>>, i: int, nome: Seq<char>) -> Option<Seq<char>>
    decreases ps.len() - i,
{
    if i < 0 || i >= ps.len() {
        None
    } else {
        match busca::duas_partes(texto::aparado(ps[i]), '=') {
            Some((k, v)) => if texto::aparado(k) == nome {
                Some(texto::aparado(v))
            } else {
                cookie_em(ps, i + 1, nome)
            },
            None => cookie_em(ps, i + 1, nome),
        }
    }
}

/// O valor de um cookie num cabecalho: o do primeiro com esse nome.
pub open spec fn cookie_de(header: Seq<char>, nome: Seq<char>) -> Option<Seq<char>> {
    cookie_em(busca::partes(header, ';', 0), 0, nome)
}

/// Le um cookie.
pub fn extrair_cookie(header: &str, nome: &str) -> (r: Option<String>)
    ensures
        match r {
            Some(v) => cookie_de(header@, nome@) == Some(v@),
            None => cookie_de(header@, nome@) is None,
        },
{
    let cs = texto::caracteres(header);
    let ps = busca::separar(&cs, ';');
    let ghost t = texto::textos(ps@);
    let mut i: usize = 0;
    while i < ps.len()
        invariant
            i <= ps@.len(),
            t == texto::textos(ps@),
            cookie_de(header@, nome@) == cookie_em(t, i as int, nome@),
        decreases ps@.len() - i,
    {
        assert(t[i as int] == ps@[i as int]@);
        let par = busca::aparar_texto(ps[i].as_str());
        if let Some((k, v)) = busca::partir(par.as_str(), '=') {
            let chave = busca::aparar_texto(k.as_str());
            if chave.as_str().eq(nome) {
                return Some(busca::aparar_texto(v.as_str()));
            }
        }
        i += 1;
    }
    assert(t.len() == ps@.len());
    None
}

/// Se o identificador tem 256 bits em hexadecimal.
pub open spec fn id_valido(s: Seq<char>) -> bool {
    s.len() == 64 && forall|i: int|
        0 <= i < s.len() ==> ({
            let c = #[trigger] s[i];
            '0' <= c <= '9' || 'a' <= c <= 'f' || 'A' <= c <= 'F'
        })
}

/// Se o identificador tem 256 bits em hexadecimal.
pub fn id_sessao_valido(id: &str) -> (r: bool)
    ensures
        r == id_valido(id@),
{
    let v = texto::caracteres(id);
    if v.len() != 64 {
        return false;
    }
    for i in 0..v.len()
        invariant
            v@ == id@,
            v@.len() == 64,
            forall|k: int|
                0 <= k < i ==> ({
                    let c = #[trigger] id@[k];
                    '0' <= c <= '9' || 'a' <= c <= 'f' || 'A' <= c <= 'F'
                }),
    {
        let c = v[i];
        assert(id@[i as int] == c);
        if !(('0' <= c && c <= '9') || ('a' <= c && c <= 'f') || ('A' <= c && c <= 'F')) {
            return false;
        }
    }
    true
}

/// Trinta e dois bytes em hexadecimal sao um identificador valido.
pub proof fn lei_id_novo(b: Seq<u8>)
    requires
        b.len() == 32,
    ensures
        id_valido(cripto::hexadecimal(b)),
{
    let h = cripto::hexadecimal(b);
    assert forall|i: int| 0 <= i < h.len() implies ({
        let c = #[trigger] h[i];
        '0' <= c <= '9' || 'a' <= c <= 'f' || 'A' <= c <= 'F'
    }) by {
        let x = b[i / 2] as int;
        let d = if i % 2 == 0 {
            x / 16
        } else {
            x % 16
        };
        assert(0 <= d < 16);
        assert(h[i] == cripto::hexa(d));
    }
}

/// O identificador que trinta e dois bytes dao.
pub fn id_de_bytes(b: &[u8]) -> (r: String)
    requires
        b@.len() == 32,
    ensures
        r@ == cripto::hexadecimal(b@),
        id_valido(r@),
{
    proof {
        lei_id_novo(b@);
    }
    cripto::hex_de(b)
}

/// Um identificador novo, ao acaso, ou nada se o sistema nao da bytes ao acaso.
pub fn nova_sessao_id() -> (r: Option<String>)
    ensures
        r matches Some(s) ==> id_valido(s@),
{
    match cripto::aleatorios(32) {
        Some(b) => Some(id_de_bytes(&b)),
        None => None,
    }
}

/// O cookie de sessao de uma requisicao, se for valido.
pub open spec fn sessao_do_cookie(cookie: Option<Seq<char>>) -> Option<Seq<char>> {
    match cookie {
        Some(c) => match cookie_de(c, "pep_sessao"@) {
            Some(id) => if id_valido(id) {
                Some(id)
            } else {
                None
            },
            None => None,
        },
        None => None,
    }
}

/// A sessao de uma requisicao: a do cookie, se for valida, ou uma nova. Nada se o sistema
/// nao da bytes ao acaso.
pub fn obter_ou_criar_sessao(cookie: Option<&str>) -> (r: Option<String>)
    ensures
        ({
            let c = match cookie {
                Some(s) => Some(s@),
                None => None,
            };
            match sessao_do_cookie(c) {
                Some(id) => r matches Some(s) && s@ == id,
                None => r matches Some(s) ==> id_valido(s@),
            }
        }),
{
    if let Some(c) = cookie {
        if let Some(id) = extrair_cookie(c, "pep_sessao") {
            if id_sessao_valido(id.as_str()) {
                return Some(id);
            }
        }
    }
    nova_sessao_id()
}

/// Se o cookie de sessao so viaja por HTTPS: pela configuracao ou pelo que diz o proxy.
pub open spec fn cookie_seguro(config: Option<Seq<char>>, proto: Option<Seq<char>>) -> bool {
    (match config {
        Some(v) => v == "1"@ || busca::iguais_sem_caixa(v, "true"@),
        None => false,
    }) || (match proto {
        Some(v) => busca::iguais_sem_caixa(v, "https"@),
        None => false,
    })
}

/// O cabecalho que guarda a sessao.
pub fn cookie_sessao(id: &str, config: Option<&str>, proto: Option<&str>) -> (r: String)
    ensures
        r@ == "pep_sessao="@ + id@ + "; Path=/; HttpOnly; SameSite=Lax"@ + if cookie_seguro(
            match config {
                Some(v) => Some(v@),
                None => None,
            },
            match proto {
                Some(v) => Some(v@),
                None => None,
            },
        ) {
            "; Secure"@
        } else {
            ""@
        },
{
    let seguro = (match config {
        Some(v) => v.eq("1") || busca::igual_sem_caixa(v, "true"),
        None => false,
    }) || (match proto {
        Some(v) => busca::igual_sem_caixa(v, "https"),
        None => false,
    });
    let mut r = "pep_sessao=".to_owned();
    r.append(id);
    r.append("; Path=/; HttpOnly; SameSite=Lax");
    if seguro {
        r.append("; Secure");
    } else {
        r.append("");
    }
    r
}

// ---- Rotas ------------------------------------------------------------------------------

/// Os segmentos de um caminho: o que ha entre as barras.
pub open spec fn segmentos(s: Seq<char>) -> Seq<Seq<char>> {
    busca::nao_vazios(busca::partes(busca::sem_pontas(s, '/'), '/', 0))
}

/// Os segmentos de um caminho.
pub fn separar_caminho(s: &str) -> (r: Vec<String>)
    ensures
        texto::textos(r@) == segmentos(s@),
{
    let cs = texto::caracteres(s);
    let a = busca::aparar_de(&cs, '/');
    busca::sem_vazios(busca::separar(a, '/'))
}

/// Os parametros que os primeiros `n` segmentos dao, se combinam com os do padrao: um
/// segmento que comeca por `:` aceita qualquer valor e da-lhe esse nome.
pub open spec fn combinados(ps: Seq<Seq<char>>, cs: Seq<Seq<char>>, n: int) -> Option<Map<Seq<char>, Seq<char>>>
    decreases n,
{
    if n <= 0 || n > ps.len() || n > cs.len() {
        Some(Map::empty())
    } else {
        match combinados(ps, cs, n - 1) {
            Some(m) => if ps[n - 1].len() > 0 && ps[n - 1][0] == ':' {
                Some(m.insert(ps[n - 1].skip(1), url_texto(cs[n - 1])))
            } else if ps[n - 1] == cs[n - 1] {
                Some(m)
            } else {
                None
            },
            None => None,
        }
    }
}

/// Os parametros de um caminho, se ele combina com um padrao. Um padrao que acaba em `/*`
/// combina com tudo o que comeca pelo que esta antes.
pub open spec fn combinacao(padrao: Seq<char>, caminho: Seq<char>) -> Option<Map<Seq<char>, Seq<char>>> {
    if busca::termina(padrao, "/*"@) {
        if busca::comeca(caminho, padrao.take(padrao.len() - 2)) {
            Some(Map::empty())
        } else {
            None
        }
    } else {
        let ps = segmentos(padrao);
        let cs = segmentos(caminho);
        if ps.len() != cs.len() {
            None
        } else {
            combinados(ps, cs, ps.len() as int)
        }
    }
}

/// Combina um caminho com um padrao.
pub fn combinar_padrao(padrao: &str, caminho: &str) -> (r: Option<Tabela<String>>)
    ensures
        match r {
            Some(t) => combinacao(padrao@, caminho@) == Some(fastcgi::mapa_de_textos(t@)),
            None => combinacao(padrao@, caminho@) is None,
        },
{
    let mut m: Tabela<String> = Tabela::nova();
    assert(fastcgi::mapa_de_textos(m@) =~= Map::<Seq<char>, Seq<char>>::empty());
    let p = texto::caracteres(padrao);
    let c = texto::caracteres(caminho);
    let curinga = texto::caracteres("/*");
    proof {
        reveal_strlit("/*");
    }
    if busca::termina_com(&p, &curinga) {
        let prefixo = vstd::slice::slice_subrange(&p, 0, p.len() - 2);
        assert(prefixo@ =~= padrao@.take(padrao@.len() - 2));
        if busca::comeca_com(&c, prefixo) {
            return Some(m);
        }
        return None;
    }
    let ps = separar_caminho(padrao);
    let cs = separar_caminho(caminho);
    let ghost tp = texto::textos(ps@);
    let ghost tc = texto::textos(cs@);
    assert(tp.len() == ps@.len() && tc.len() == cs@.len());
    if ps.len() != cs.len() {
        return None;
    }
    let mut i: usize = 0;
    while i < ps.len()
        invariant
            i <= ps@.len(),
            tp == texto::textos(ps@),
            tc == texto::textos(cs@),
            ps@.len() == cs@.len(),
            tp.len() == ps@.len(),
            tc.len() == cs@.len(),
            tp == segmentos(padrao@),
            tc == segmentos(caminho@),
            !busca::termina(padrao@, "/*"@),
            combinados(tp, tc, i as int) == Some(fastcgi::mapa_de_textos(m@)),
        decreases ps@.len() - i,
    {
        assert(tp[i as int] == ps@[i as int]@ && tc[i as int] == cs@[i as int]@);
        let parte = texto::caracteres(ps[i].as_str());
        let ghost antes = m@;
        if parte.len() > 0 && parte[0] == ':' {
            let nome = texto::de_caracteres(vstd::slice::slice_subrange(&parte, 1, parte.len()));
            assert(nome@ =~= tp[i as int].skip(1));
            let valor = url_decodificar(cs[i].as_str());
            m.inserir(nome, valor);
            assert(fastcgi::mapa_de_textos(m@) =~= fastcgi::mapa_de_textos(antes).insert(nome@, valor@));
        } else if !ps[i].as_str().eq(cs[i].as_str()) {
            proof {
                lema_combinados_falha(tp, tc, i + 1, tp.len() as int);
            }
            return None;
        }
        i += 1;
    }
    Some(m)
}

proof fn lema_combinados_falha(ps: Seq<Seq<char>>, cs: Seq<Seq<char>>, i: int, n: int)
    requires
        0 < i <= n <= ps.len(),
        ps.len() == cs.len(),
        combinados(ps, cs, i) is None,
    ensures
        combinados(ps, cs, n) is None,
    decreases n,
{
    if i < n {
        lema_combinados_falha(ps, cs, i, n - 1);
    }
}

/// Uma rota: o metodo, o padrao e o que a atende.
pub struct Rota<H> {
    pub metodo: String,
    pub padrao: String,
    pub handler: H,
}

/// Acrescenta uma rota.
pub fn registrar_rota<H>(rotas: &mut Vec<Rota<H>>, metodo: String, padrao: String, handler: H)
    ensures
        final(rotas)@ == old(rotas)@.push(Rota { metodo, padrao, handler }),
{
    rotas.push(Rota { metodo, padrao, handler });
}

/// Se uma rota atende um metodo: o dela, sem diferenca de maiusculas, ou `*`.
pub open spec fn atende<H>(r: Rota<H>, metodo: Seq<char>) -> bool {
    r.metodo@ == "*"@ || busca::iguais_sem_caixa(r.metodo@, metodo)
}

/// A primeira rota, a partir de `i`, que atende o metodo e combina com o caminho.
pub open spec fn rota_em<H>(rs: Seq<Rota<H>>, metodo: Seq<char>, caminho: Seq<char>, i: int) -> Option<int>
    decreases rs.len() - i,
{
    if i < 0 || i >= rs.len() {
        None
    } else if atende(rs[i], metodo) && combinacao(rs[i].padrao@, caminho) is Some {
        Some(i)
    } else {
        rota_em(rs, metodo, caminho, i + 1)
    }
}

/// Encontra a rota de um metodo e caminho: a posicao dela e os parametros.
pub fn encontrar_rota<H>(rotas: &Vec<Rota<H>>, metodo: &str, caminho: &str) -> (r: Option<(usize, Tabela<String>)>)
    ensures
        match r {
            Some((i, t)) => rota_em(rotas@, metodo@, caminho@, 0) == Some(i as int) && i < rotas@.len()
                && combinacao(rotas@[i as int].padrao@, caminho@) == Some(fastcgi::mapa_de_textos(t@)),
            None => rota_em(rotas@, metodo@, caminho@, 0) is None,
        },
{
    let mut i: usize = 0;
    while i < rotas.len()
        invariant
            i <= rotas@.len(),
            rota_em(rotas@, metodo@, caminho@, 0) == rota_em(rotas@, metodo@, caminho@, i as int),
        decreases rotas@.len() - i,
    {
        if rotas[i].metodo.as_str().eq("*") || busca::igual_sem_caixa(rotas[i].metodo.as_str(), metodo) {
            if let Some(t) = combinar_padrao(rotas[i].padrao.as_str(), caminho) {
                return Some((i, t));
            }
        }
        i += 1;
    }
    None
}

/// Os metodos das rotas que combinam com um caminho.
pub open spec fn metodo_da_rota<H>(rs: Seq<Rota<H>>, caminho: Seq<char>, m: Seq<char>) -> bool {
    exists|i: int|
        0 <= i < rs.len() && combinacao((#[trigger] rs[i]).padrao@, caminho) is Some && rs[i].metodo@ == m
}

/// Se um metodo se oferece num caminho: o de alguma rota; `HEAD`, se alguma e de `GET`; e
/// `OPTIONS`, se ha alguma.
pub open spec fn oferecido<H>(rs: Seq<Rota<H>>, caminho: Seq<char>, m: Seq<char>) -> bool {
    ||| metodo_da_rota(rs, caminho, m)
    ||| m == "HEAD"@ && metodo_da_rota(rs, caminho, "GET"@)
    ||| m == "OPTIONS"@ && exists|i: int| 0 <= i < rs.len() && combinacao((#[trigger] rs[i]).padrao@, caminho) is Some
}

/// Insere um texto no seu lugar de uma lista ordenada, se ainda nao esta la.
fn inserir_ordenado(v: &mut Vec<String>, s: String)
    requires
        ordem::ordenada(texto::textos(old(v)@)),
    ensures
        ordem::ordenada(texto::textos(final(v)@)),
        forall|x: Seq<char>|
            #[trigger] texto::textos(final(v)@).contains(x) <==> texto::textos(old(v)@).contains(x) || x == s@,
{
    let ghost t = texto::textos(v@);
    let mut i: usize = 0;
    while i < v.len() && ordem::vem_antes(v[i].as_str(), s.as_str())
        invariant
            i <= v@.len(),
            *v == *old(v),
            t == texto::textos(v@),
            forall|k: int| 0 <= k < i ==> ordem::antes_de(#[trigger] t[k], s@),
        decreases v@.len() - i,
    {
        assert(t[i as int] == v@[i as int]@);
        i += 1;
    }
    if i < v.len() && v[i].as_str().eq(s.as_str()) {
        assert(t[i as int] == s@);
        return;
    }
    v.insert(i, s);
    proof {
        let u = texto::textos(v@);
        assert(u =~= t.insert(i as int, s@));
        if i < t.len() {
            assert(t[i as int] == old(v)@[i as int]@);
            ordem::lema_total(t[i as int], s@);
        }
        assert forall|a: int, b: int| 0 <= a < b < u.len() implies ordem::antes_de(#[trigger] u[a], #[trigger] u[b]) by {
            if b < i {
                assert(ordem::antes_de(t[a], t[b]));
            } else if b == i {
                assert(ordem::antes_de(t[a], s@));
            } else if a < i {
                assert(ordem::antes_de(t[a], t[b - 1]));
            } else if a == i {
                assert(ordem::antes_de(s@, t[i as int]));
                if b - 1 > i {
                    assert(ordem::antes_de(t[i as int], t[b - 1]));
                    ordem::lema_transitiva(s@, t[i as int], t[b - 1]);
                }
            } else {
                assert(ordem::antes_de(t[a - 1], t[b - 1]));
            }
        }
        assert forall|x: Seq<char>| #[trigger] u.contains(x) <==> t.contains(x) || x == s@ by {
            if u.contains(x) {
                let k = choose|k: int| 0 <= k < u.len() && u[k] == x;
                if k < i {
                    assert(t[k] == x);
                } else if k > i {
                    assert(t[k - 1] == x);
                }
            }
            if t.contains(x) {
                let k = choose|k: int| 0 <= k < t.len() && t[k] == x;
                if k < i {
                    assert(u[k] == x);
                } else {
                    assert(u[k + 1] == x);
                }
            }
            assert(u[i as int] == s@);
        }
    }
}

/// Os metodos que um caminho oferece, por ordem e sem repeticoes.
pub fn metodos_rota<H>(rotas: &Vec<Rota<H>>, caminho: &str) -> (r: Vec<String>)
    ensures
        ordem::ordenada(texto::textos(r@)),
        forall|m: Seq<char>| #[trigger] texto::textos(r@).contains(m) <==> oferecido(rotas@, caminho@, m),
{
    let mut v: Vec<String> = Vec::new();
    let mut tem_get = false;
    let mut alguma = false;
    assert(texto::textos(v@) =~= Seq::<Seq<char>>::empty());
    let mut i: usize = 0;
    while i < rotas.len()
        invariant
            i <= rotas@.len(),
            ordem::ordenada(texto::textos(v@)),
            forall|m: Seq<char>|
                #[trigger] texto::textos(v@).contains(m) <==> metodo_da_rota(rotas@.take(i as int), caminho@, m),
            tem_get == metodo_da_rota(rotas@.take(i as int), caminho@, "GET"@),
            alguma == exists|k: int|
                0 <= k < i && combinacao((#[trigger] rotas@[k]).padrao@, caminho@) is Some,
        decreases rotas@.len() - i,
    {
        let ghost a = rotas@.take(i as int);
        let ghost b = rotas@.take(i + 1);
        proof {
            assert forall|m: Seq<char>| #[trigger] metodo_da_rota(b, caminho@, m) <==> metodo_da_rota(a, caminho@, m) || (
            combinacao(rotas@[i as int].padrao@, caminho@) is Some && rotas@[i as int].metodo@ == m) by {
                if metodo_da_rota(b, caminho@, m) {
                    let k = choose|k: int|
                        0 <= k < b.len() && combinacao((#[trigger] b[k]).padrao@, caminho@) is Some && b[k].metodo@
                            == m;
                    if k < i {
                        assert(a[k] == b[k]);
                    }
                }
                if metodo_da_rota(a, caminho@, m) {
                    let k = choose|k: int|
                        0 <= k < a.len() && combinacao((#[trigger] a[k]).padrao@, caminho@) is Some && a[k].metodo@
                            == m;
                    assert(b[k] == a[k]);
                }
                assert(b[i as int] == rotas@[i as int]);
            }
        }
        if combinar_padrao(rotas[i].padrao.as_str(), caminho).is_some() {
            alguma = true;
            if rotas[i].metodo.as_str().eq("GET") {
                tem_get = true;
            }
            inserir_ordenado(&mut v, rotas[i].metodo.clone());
        }
        i += 1;
    }
    assert(rotas@.take(rotas@.len() as int) =~= rotas@);
    if tem_get {
        inserir_ordenado(&mut v, "HEAD".to_owned());
    }
    if alguma {
        inserir_ordenado(&mut v, "OPTIONS".to_owned());
    }
    v
}

} // verus!
