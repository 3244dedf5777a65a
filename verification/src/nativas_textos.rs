//! As funcoes nativas de textos, de enderecos e de datas.

use vstd::prelude::*;
use vstd::utf8;
use crate::aplicar::Feito;
use crate::aplicar;
use crate::busca;
use crate::nativas::dividir;
use crate::nativas;
use crate::nativas_arvore::{dar, falhar, querer, recusar, requerer, Chamado};
use crate::nativas_arvore;
use crate::nativas_valores::{limitar, textos_em_valores};
use crate::nativas_valores;
use crate::servidor;
use crate::texto;
use crate::valor::Valor;
use crate::valor;

verus! {

// ---- Um texto ---------------------------------------------------------------------------

/// O texto com os sinais da marcacao trocados.
pub open spec fn sem_marcas(s: Seq<char>) -> Seq<char> {
    busca::trocado(busca::trocado(busca::trocado(s, '&', "&amp;"@), '<', "&lt;"@), '>', "&gt;"@)
}

/// O texto com os sinais da marcacao e as aspas trocados.
pub open spec fn sem_aspas(s: Seq<char>) -> Seq<char> {
    busca::trocado(busca::trocado(sem_marcas(s), '"', "&quot;"@), '\'', "&#39;"@)
}

fn tirar_marcas(s: &str) -> (r: String)
    ensures
        r@ == sem_marcas(s@),
{
    let a = busca::trocar(s, '&', "&amp;");
    let b = busca::trocar(a.as_str(), '<', "&lt;");
    busca::trocar(b.as_str(), '>', "&gt;")
}

fn tirar_aspas(s: &str) -> (r: String)
    ensures
        r@ == sem_aspas(s@),
{
    let a = tirar_marcas(s);
    let b = busca::trocar(a.as_str(), '"', "&quot;");
    busca::trocar(b.as_str(), '\'', "&#39;")
}

/// Se um byte se escreve como esta num endereco.
pub open spec fn livre(b: u8) -> bool {
    48 <= b <= 57 || 65 <= b <= 90 || 97 <= b <= 122 || b == 45 || b == 95 || b == 46 || b == 126
}

/// O algarismo hexadecimal maiusculo de valor `d`.
pub open spec fn hexa(d: int) -> char {
    if d < 10 {
        ((48 + d) as u8) as char
    } else {
        ((55 + d) as u8) as char
    }
}

/// Como um byte se escreve num endereco.
pub open spec fn byte_codificado(b: u8) -> Seq<char> {
    if livre(b) {
        seq![b as char]
    } else {
        seq!['%', hexa(b as int / 16), hexa(b as int % 16)]
    }
}

/// Como os primeiros `n` bytes se escrevem num endereco.
pub open spec fn codificados(b: Seq<u8>, n: int) -> Seq<char>
    decreases n,
{
    if n <= 0 || n > b.len() {
        Seq::empty()
    } else {
        codificados(b, n - 1) + byte_codificado(b[n - 1])
    }
}

/// Como um texto se escreve num endereco.
pub open spec fn url_codificado(s: Seq<char>) -> Seq<char> {
    codificados(utf8::encode_utf8(s), utf8::encode_utf8(s).len() as int)
}

fn algarismo(d: u8) -> (r: char)
    requires
        d < 16,
    ensures
        r == hexa(d as int),
{
    if d < 10 {
        (48 + d) as char
    } else {
        (55 + d) as char
    }
}

/// Escreve um texto para um endereco.
pub fn url_codificar(s: &str) -> (r: String)
    ensures
        r@ == url_codificado(s@),
{
    let b = s.as_bytes();
    let mut v: Vec<char> = Vec::new();
    let mut i: usize = 0;
    assert(v@ =~= codificados(b@, 0));
    while i < b.len()
        invariant
            i <= b@.len(),
            v@ == codificados(b@, i as int),
        decreases b@.len() - i,
    {
        let x = b[i];
        let ghost antes = v@;
        if (48 <= x && x <= 57) || (65 <= x && x <= 90) || (97 <= x && x <= 122) || x == 45 || x == 95 || x == 46 || x
            == 126 {
            v.push(x as char);
            assert(v@ =~= antes + byte_codificado(x));
        } else {
            v.push('%');
            v.push(algarismo(x / 16));
            v.push(algarismo(x % 16));
            assert(v@ =~= antes + byte_codificado(x));
        }
        i += 1;
    }
    texto::de_caracteres(v.as_slice())
}

proof fn lema_ascii(s: Seq<char>)
    requires
        forall|i: int| 0 <= i < s.len() ==> (#[trigger] s[i]) as u32 <= 127,
    ensures
        utf8::encode_utf8(s).len() == s.len(),
        forall|i: int| 0 <= i < s.len() ==> #[trigger] utf8::encode_utf8(s)[i] == s[i] as u32,
    decreases s.len(),
{
    if s.len() > 0 {
        let resto = s.drop_first();
        assert forall|i: int| 0 <= i < resto.len() implies (#[trigger] resto[i]) as u32 <= 127 by {
            assert(resto[i] == s[i + 1]);
        }
        lema_ascii(resto);
        let v = s[0] as u32;
        assert(v <= 127 ==> (v & 0x7F) as u8 == v) by (bit_vector);
        assert(s[0] as u32 <= 127);
        let e = utf8::encode_scalar(v);
        assert(utf8::encode_utf8(s) == e + utf8::encode_utf8(resto));
        assert(e.len() == 1);
        assert(e[0] == v);
        assert forall|i: int| 0 <= i < s.len() implies #[trigger] utf8::encode_utf8(s)[i] == s[i] as u32 by {
            if i > 0 {
                assert(utf8::encode_utf8(resto)[i - 1] == resto[i - 1] as u32);
            }
        }
    }
}

proof fn lema_hexa(d: int)
    requires
        0 <= d < 16,
    ensures
        hexa(d) as u32 <= 127,
        forall|x: u8| x == hexa(d) as u32 ==> #[trigger] servidor::valor_hex(x) == Some(d),
{
}

proof fn lema_codificados(b: Seq<u8>, n: int)
    requires
        0 <= n <= b.len(),
    ensures
        forall|i: int| 0 <= i < codificados(b, n).len() ==> (#[trigger] codificados(b, n)[i]) as u32 <= 127,
    decreases n,
{
    if n > 0 {
        lema_codificados(b, n - 1);
        lema_hexa(b[n - 1] as int / 16);
        lema_hexa(b[n - 1] as int % 16);
        let c = codificados(b, n);
        let p = codificados(b, n - 1);
        assert forall|i: int| 0 <= i < c.len() implies (#[trigger] c[i]) as u32 <= 127 by {
            if i < p.len() {
                assert(c[i] == p[i]);
            } else {
                assert(c[i] == byte_codificado(b[n - 1])[i - p.len()]);
            }
        }
    }
}

proof fn lema_volta(b: Seq<u8>, n: int, e: Seq<u8>, acc: Seq<u8>)
    requires
        0 <= n <= b.len(),
        e.len() == codificados(b, b.len() as int).len(),
        forall|i: int| 0 <= i < e.len() ==> #[trigger] e[i] == codificados(b, b.len() as int)[i] as u32,
    ensures
        servidor::decodificado(e, codificados(b, n).len() as int, acc) == acc + b.skip(n),
        codificados(b, n).len() <= e.len(),
    decreases b.len() - n,
{
    let c = codificados(b, b.len() as int);
    lema_prefixo(b, n);
    if n < b.len() {
        lema_volta(b, n + 1, e, acc.push(b[n]));
        lema_prefixo(b, n + 1);
        let p = codificados(b, n);
        let k = p.len() as int;
        let q = codificados(b, n + 1);
        assert(q =~= p + byte_codificado(b[n]));
        assert(acc.push(b[n]) + b.skip(n + 1) =~= acc + b.skip(n));
        assert(e[k] == c[k] as u32 && c[k] == q[k] && q[k] == byte_codificado(b[n])[0]);
        if livre(b[n]) {
            assert(e[k] == b[n]);
        } else {
            lema_hexa(b[n] as int / 16);
            lema_hexa(b[n] as int % 16);
            assert(e[k + 1] == c[k + 1] as u32 && c[k + 1] == q[k + 1] && q[k + 1] == byte_codificado(b[n])[1]);
            assert(e[k + 2] == c[k + 2] as u32 && c[k + 2] == q[k + 2] && q[k + 2] == byte_codificado(b[n])[2]);
            assert(e[k] == 37);
            assert(servidor::byte_hex(e[k + 1], e[k + 2]) == Some(b[n]));
        }
    } else {
        assert(acc + b.skip(n) =~= acc);
        assert(codificados(b, n) == c);
    }
}

proof fn lema_prefixo(b: Seq<u8>, n: int)
    requires
        0 <= n <= b.len(),
    ensures
        codificados(b, n).len() <= codificados(b, b.len() as int).len(),
        forall|i: int|
            0 <= i < codificados(b, n).len() ==> #[trigger] codificados(b, b.len() as int)[i] == codificados(b, n)[i],
    decreases b.len() - n,
{
    if n < b.len() {
        lema_prefixo(b, n + 1);
        let p = codificados(b, n);
        let q = codificados(b, n + 1);
        assert(q =~= p + byte_codificado(b[n]));
        assert forall|i: int| 0 <= i < p.len() implies #[trigger] codificados(b, b.len() as int)[i] == p[i] by {
            assert(q[i] == p[i]);
        }
    }
}

/// Um texto escrito para um endereco tem os bytes do texto.
pub proof fn lei_url(s: Seq<char>)
    ensures
        servidor::decodificado(utf8::encode_utf8(url_codificado(s)), 0, Seq::empty()) == utf8::encode_utf8(s),
{
    let b = utf8::encode_utf8(s);
    let c = url_codificado(s);
    lema_codificados(b, b.len() as int);
    lema_ascii(c);
    lema_volta(b, 0, utf8::encode_utf8(c), Seq::empty());
    assert(Seq::<u8>::empty() + b.skip(0) =~= b);
    assert(codificados(b, 0).len() == 0);
}

fn inverter_texto(s: &str) -> (r: String)
    ensures
        r@ == s@.reverse(),
{
    let cs = texto::caracteres(s);
    let mut v: Vec<char> = Vec::new();
    let mut i: usize = cs.len();
    while i > 0
        invariant
            i <= cs@.len(),
            v@.len() == cs@.len() - i,
            forall|k: int| 0 <= k < cs@.len() - i ==> #[trigger] v@[k] == cs@[cs@.len() - 1 - k],
        decreases i,
    {
        v.push(cs[i - 1]);
        i -= 1;
    }
    assert(v@ =~= s@.reverse());
    texto::de_caracteres(v.as_slice())
}

/// O que uma funcao de um texto da.
pub open spec fn de_texto(nome: Seq<char>, s: Seq<char>) -> Seq<char> {
    if nome == "maiusculas"@ {
        busca::maiusculas_de(s)
    } else if nome == "minusculas"@ {
        busca::minusculas_de(s)
    } else if nome == "aparar"@ {
        texto::aparado(s)
    } else if nome == "aparar_esquerda"@ {
        texto::aparado_inicio(s)
    } else if nome == "aparar_direita"@ {
        texto::aparado_fim(s)
    } else if nome == "inverter_texto"@ {
        s.reverse()
    } else if nome == "url_codificar"@ {
        url_codificado(s)
    } else {
        servidor::url_texto(s)
    }
}

fn com_texto(nome: &str, s: &str) -> (r: String)
    ensures
        r@ == de_texto(nome@, s@),
{
    if nome.eq("maiusculas") {
        busca::maiusculas(s)
    } else if nome.eq("minusculas") {
        busca::minusculas(s)
    } else if nome.eq("aparar") {
        busca::aparar_texto(s)
    } else if nome.eq("aparar_esquerda") {
        let v = texto::caracteres(s);
        texto::de_caracteres(texto::aparar_inicio(&v))
    } else if nome.eq("aparar_direita") {
        let v = texto::caracteres(s);
        texto::de_caracteres(texto::aparar_fim(&v))
    } else if nome.eq("inverter_texto") {
        inverter_texto(s)
    } else if nome.eq("url_codificar") {
        url_codificar(s)
    } else {
        servidor::url_decodificar(s)
    }
}

/// Se uma funcao e de um texto.
pub open spec fn quer_texto(nome: Seq<char>) -> bool {
    nome == "maiusculas"@ || nome == "minusculas"@ || nome == "aparar"@ || nome == "aparar_esquerda"@ || nome
        == "aparar_direita"@ || nome == "inverter_texto"@ || nome == "url_codificar"@ || nome
        == "url_decodificar_texto"@
}

fn pede_texto(nome: &str) -> (r: bool)
    ensures
        r == quer_texto(nome@),
{
    nome.eq("maiusculas") || nome.eq("minusculas") || nome.eq("aparar") || nome.eq("aparar_esquerda") || nome.eq(
        "aparar_direita",
    ) || nome.eq("inverter_texto") || nome.eq("url_codificar") || nome.eq("url_decodificar_texto")
}

// ---- Varios textos ----------------------------------------------------------------------

/// Os textos dos itens de uma lista.
pub open spec fn textos_de(l: Seq<valor::Dado>) -> Seq<Seq<char>> {
    l.map_values(|x: valor::Dado| valor::texto_de(x))
}

/// Os textos dos itens de uma lista.
pub fn escrever_itens(v: &Vec<Valor>) -> (r: Vec<String>)
    ensures
        texto::textos(r@) == textos_de(valor::vistos(v@)),
{
    let mut r: Vec<String> = Vec::new();
    let mut i: usize = 0;
    while i < v.len()
        invariant
            i <= v@.len(),
            r@.len() == i,
            forall|k: int| 0 <= k < i ==> (#[trigger] r@[k])@ == valor::texto_de(v@[k]@),
        decreases v@.len() - i,
    {
        r.push(v[i].texto());
        i += 1;
    }
    assert(texto::textos(r@) =~= textos_de(valor::vistos(v@)));
    r
}

/// Um texto com outro trocado por um terceiro: dividir por um e juntar com o outro.
pub open spec fn substituido(t: Seq<char>, de: Seq<char>, para: Seq<char>) -> Seq<char> {
    busca::juntos(nativas::dividido(t, de), para)
}

/// Troca um texto por outro.
pub fn substituir(t: &str, de: &str, para: &str) -> (r: String)
    ensures
        r@ == substituido(t@, de@, para@),
{
    let ps = dividir(t, de);
    busca::juntar(&ps, para)
}

/// As funcoes de dois textos.
pub open spec fn de_dois_textos(nome: Seq<char>, s: Seq<char>, p: Seq<char>) -> valor::Dado {
    if nome == "dividir"@ {
        valor::Dado::Lista(nativas_valores::em_valores(nativas::dividido(s, p)))
    } else if nome == "comeca_com"@ {
        valor::Dado::Booleano(busca::comeca(s, p))
    } else if nome == "termina_com"@ {
        valor::Dado::Booleano(busca::termina(s, p))
    } else if nome == "contem_texto"@ {
        valor::Dado::Booleano(busca::contem(s, p))
    } else {
        valor::Dado::Inteiro(
            match busca::primeira(s, p, 0) {
                Some(i) => i as i64,
                None => -1i64,
            },
        )
    }
}

fn com_dois_textos(nome: &str, s: &str, p: &str) -> (r: Valor)
    ensures
        r@ == de_dois_textos(nome@, s@, p@),
{
    if nome.eq("dividir") {
        return Valor::Lista(textos_em_valores(dividir(s, p)));
    }
    let a = texto::caracteres(s);
    let b = texto::caracteres(p);
    if nome.eq("comeca_com") {
        Valor::Booleano(busca::comeca_com(&a, &b))
    } else if nome.eq("termina_com") {
        Valor::Booleano(busca::termina_com(&a, &b))
    } else if nome.eq("contem_texto") {
        Valor::Booleano(busca::contem_texto(s, p))
    } else {
        match busca::achar_texto(&a, &b, 0) {
            Some(i) => Valor::Inteiro(
                #[verifier::truncate]
                (i as i64),
            ),
            None => Valor::Inteiro(-1),
        }
    }
}

/// Como uma funcao de dois textos se usa.
pub open spec fn uso(nome: Seq<char>) -> Seq<char> {
    if nome == "dividir"@ {
        "dividir(texto, separador)"@
    } else if nome == "comeca_com"@ {
        "comeca_com(texto, prefixo)"@
    } else if nome == "termina_com"@ {
        "termina_com(texto, sufixo)"@
    } else if nome == "contem_texto"@ {
        "contem_texto(texto, substring)"@
    } else {
        "posicao(texto, substring)"@
    }
}

fn dizer_uso(nome: &str) -> (r: &'static str)
    ensures
        r@ == uso(nome@),
{
    if nome.eq("dividir") {
        "dividir(texto, separador)"
    } else if nome.eq("comeca_com") {
        "comeca_com(texto, prefixo)"
    } else if nome.eq("termina_com") {
        "termina_com(texto, sufixo)"
    } else if nome.eq("contem_texto") {
        "contem_texto(texto, substring)"
    } else {
        "posicao(texto, substring)"
    }
}

/// O nome sem cedilha de uma funcao que tem dois.
pub open spec fn nome_comum(nome: Seq<char>) -> Seq<char> {
    if nome == "começa_com"@ {
        "comeca_com"@
    } else {
        nome
    }
}

/// Se uma funcao e de dois textos.
pub open spec fn quer_dois_textos(nome: Seq<char>) -> bool {
    nome == "dividir"@ || nome == "comeca_com"@ || nome == "termina_com"@ || nome == "contem_texto"@ || nome
        == "posicao"@
}

/// Uma parte de um texto.
pub open spec fn parte(a: Seq<valor::Dado>) -> nativas_arvore::ChamadoVisto {
    if a.len() >= 3 && a[0] is Texto && a[1] is Inteiro && a[2] is Inteiro {
        match nativas_valores::fatia(a[0]->Texto_0, a[1]->Inteiro_0, a[2]->Inteiro_0) {
            Some(s) => nativas_arvore::da(valor::Dado::Texto(s)),
            None => nativas_arvore::ChamadoVisto::Feito(aplicar::FeitoVisto::Panico),
        }
    } else if a.len() == 2 && a[0] is Texto && a[1] is Inteiro {
        nativas_arvore::da(
            valor::Dado::Texto(
                a[0]->Texto_0.skip(
                    nativas_valores::limitado(a[1]->Inteiro_0 as usize as int, a[0]->Texto_0.len()),
                ),
            ),
        )
    } else {
        nativas_arvore::falha("sub_texto(texto, inicio) ou sub_texto(texto, inicio, fim)"@)
    }
}

fn tirar_parte(args: &Vec<Valor>) -> (r: Chamado)
    ensures
        r@ == parte(valor::vistos(args@)),
{
    let ghost a = valor::vistos(args@);
    assert(a.len() == args@.len());
    if args.len() >= 2 {
        assert(a[0] == args@[0]@ && a[1] == args@[1]@);
        if let (Valor::Texto(t), Valor::Inteiro(ini)) = (&args[0], &args[1]) {
            let cs = texto::caracteres(t.as_str());
            let i = limitar(*ini, cs.len());
            if args.len() == 2 {
                let p = vstd::slice::slice_subrange(cs.as_slice(), i, cs.len());
                assert(p@ =~= t@.skip(i as int));
                return dar(Valor::Texto(texto::de_caracteres(p)));
            }
            assert(a[2] == args@[2]@);
            if let Valor::Inteiro(fim) = &args[2] {
                let f = limitar(*fim, cs.len());
                if i > f {
                    return Chamado::Feito(Feito::Panico);
                }
                let p = vstd::slice::slice_subrange(cs.as_slice(), i, f);
                return dar(Valor::Texto(texto::de_caracteres(p)));
            }
        }
    }
    falhar("sub_texto(texto, inicio) ou sub_texto(texto, inicio, fim)")
}

// ---- Datas ------------------------------------------------------------------------------

/// Onde acaba a palavra que passa por `i`.
pub open spec fn fim_da_palavra(s: Seq<char>, i: int) -> int
    decreases s.len() - i,
{
    if i < 0 || i >= s.len() || texto::espaco(s[i]) {
        i
    } else {
        fim_da_palavra(s, i + 1)
    }
}

/// A primeira palavra de um texto; o texto todo se ele nao tem palavras.
pub open spec fn primeira_palavra(s: Seq<char>) -> Seq<char> {
    let t = texto::aparado_inicio(s);
    if t.len() == 0 {
        s
    } else {
        t.take(fim_da_palavra(t, 0))
    }
}

/// Quantos bytes um texto tem.
pub open spec fn bytes(s: Seq<char>) -> nat {
    utf8::encode_utf8(s).len()
}

/// Uma data escrita de outra forma; nada se ela nao e `aaaa-mm-dd`.
pub open spec fn data_formatada(data: Seq<char>, formato: Seq<char>) -> Option<Seq<char>> {
    let ps = busca::partes(primeira_palavra(data), '-', 0);
    if ps.len() == 3 && bytes(ps[0]) == 4 && bytes(ps[1]) == 2 && bytes(ps[2]) == 2 {
        Some(substituido(substituido(substituido(formato, "aaaa"@, ps[0]), "mm"@, ps[1]), "dd"@, ps[2]))
    } else {
        None
    }
}

fn achar_palavra(s: &str) -> (r: Vec<char>)
    ensures
        r@ == primeira_palavra(s@),
{
    let v = texto::caracteres(s);
    let t = texto::aparar_inicio(&v);
    let n = t.len();
    let mut r: Vec<char> = Vec::new();
    if n == 0 {
        return v;
    }
    let mut i: usize = 0;
    while i < n && !texto::eh_espaco(t[i])
        invariant
            i <= n,
            n == t@.len(),
            r@ == t@.take(i as int),
            fim_da_palavra(t@, 0) == fim_da_palavra(t@, i as int),
        decreases n - i,
    {
        r.push(t[i]);
        assert(r@ =~= t@.take(i + 1));
        i += 1;
    }
    r
}

/// Escreve uma data de outra forma.
pub fn formatar_data_simples(data: &str, formato: &str) -> (r: Result<String, String>)
    ensures
        match r {
            Ok(t) => data_formatada(data@, formato@) == Some(t@),
            Err(m) => data_formatada(data@, formato@) is None && m@ == "Data invalida; use aaaa-mm-dd"@,
        },
{
    let p = achar_palavra(data);
    let ps = busca::separar(&p, '-');
    let ghost pv = busca::partes(primeira_palavra(data@), '-', 0);
    assert(texto::textos(ps@) == pv);
    assert(pv.len() == ps@.len());
    if ps.len() == 3 {
        assert(pv[0] == ps@[0]@ && pv[1] == ps@[1]@ && pv[2] == ps@[2]@);
        if ps[0].as_str().as_bytes().len() == 4 && ps[1].as_str().as_bytes().len() == 2
            && ps[2].as_str().as_bytes().len() == 2 {
            let a = substituir(formato, "aaaa", ps[0].as_str());
            let b = substituir(a.as_str(), "mm", ps[1].as_str());
            return Ok(substituir(b.as_str(), "dd", ps[2].as_str()));
        }
    }
    Err("Data invalida; use aaaa-mm-dd".to_owned())
}

// ---- Todas ------------------------------------------------------------------------------

/// As funcoes de dois argumentos.
pub open spec fn com_dois(nome: Seq<char>, a: valor::Dado, b: valor::Dado) -> nativas_arvore::ChamadoVisto {
    if quer_dois_textos(nome) {
        if a is Texto && b is Texto {
            nativas_arvore::da(de_dois_textos(nome, a->Texto_0, b->Texto_0))
        } else {
            nativas_arvore::falha(uso(nome))
        }
    } else if nome == "juntar"@ {
        if a is Lista && b is Texto {
            nativas_arvore::da(valor::Dado::Texto(busca::juntos(textos_de(a->Lista_0), b->Texto_0)))
        } else {
            nativas_arvore::falha("juntar(lista, separador)"@)
        }
    } else if nome == "repetir"@ {
        if a is Texto && b is Inteiro {
            nativas_arvore::ChamadoVisto::Feito(
                aplicar::repeticao(
                    a->Texto_0,
                    if b->Inteiro_0 < 0 {
                        0
                    } else {
                        b->Inteiro_0 as usize as int
                    },
                ),
            )
        } else {
            nativas_arvore::falha("repetir(texto, n)"@)
        }
    } else {
        if !(a is Texto) {
            nativas_arvore::recusa("data invalida: "@, a)
        } else if !(b is Texto) {
            nativas_arvore::recusa("formato invalido: "@, b)
        } else {
            match data_formatada(a->Texto_0, b->Texto_0) {
                Some(t) => nativas_arvore::da(valor::Dado::Texto(t)),
                None => nativas_arvore::falha("Data invalida; use aaaa-mm-dd"@),
            }
        }
    }
}

fn fazer_com_dois(nome: &str, a: &Valor, b: &Valor) -> (r: Chamado)
    ensures
        r@ == com_dois(nome@, a@, b@),
{
    if nome.eq("dividir") || nome.eq("comeca_com") || nome.eq("termina_com") || nome.eq("contem_texto") || nome.eq(
        "posicao",
    ) {
        match (a, b) {
            (Valor::Texto(s), Valor::Texto(p)) => dar(com_dois_textos(nome, s.as_str(), p.as_str())),
            _ => falhar(dizer_uso(nome)),
        }
    } else if nome.eq("juntar") {
        match (a, b) {
            (Valor::Lista(l), Valor::Texto(p)) => {
                let ts = escrever_itens(l);
                dar(Valor::Texto(busca::juntar(&ts, p.as_str())))
            },
            _ => falhar("juntar(lista, separador)"),
        }
    } else if nome.eq("repetir") {
        match (a, b) {
            (Valor::Texto(s), Valor::Inteiro(n)) => {
                let k: usize = if *n < 0 {
                    0
                } else {
                    #[verifier::truncate]
                    (*n as usize)
                };
                Chamado::Feito(aplicar::repetir(s.as_str(), k))
            },
            _ => falhar("repetir(texto, n)"),
        }
    } else {
        match (a, b) {
            (Valor::Texto(s), Valor::Texto(f)) => match formatar_data_simples(s.as_str(), f.as_str()) {
                Ok(t) => dar(Valor::Texto(t)),
                Err(m) => Chamado::Feito(Feito::Falha(m)),
            },
            (Valor::Texto(_), _) => recusar("formato invalido: ", b),
            _ => recusar("data invalida: ", a),
        }
    }
}

/// As funcoes deste modulo.
pub open spec fn de_textos(nome: Seq<char>, a: Seq<valor::Dado>) -> Option<nativas_arvore::ChamadoVisto> {
    let n = nome_comum(nome);
    if quer_texto(n) {
        Some(
            if a.len() != 1 {
                nativas_arvore::quer(n, 1, a.len())
            } else {
                match a[0] {
                    valor::Dado::Texto(s) => nativas_arvore::da(valor::Dado::Texto(de_texto(n, s))),
                    v => nativas_arvore::requer(n, "texto"@, v),
                }
            },
        )
    } else if n == "html_escapar"@ {
        Some(
            if a.len() != 1 {
                nativas_arvore::quer(n, 1, a.len())
            } else {
                match a[0] {
                    valor::Dado::Texto(s) => nativas_arvore::da(valor::Dado::Texto(sem_aspas(s))),
                    v => nativas_arvore::da(valor::Dado::Texto(sem_marcas(valor::texto_de(v)))),
                }
            },
        )
    } else if quer_dois_textos(n) || n == "juntar"@ || n == "repetir"@ || n == "formatar_data"@ {
        Some(
            if a.len() != 2 {
                nativas_arvore::quer(n, 2, a.len())
            } else {
                com_dois(n, a[0], a[1])
            },
        )
    } else if n == "substituir"@ {
        Some(
            if a.len() != 3 {
                nativas_arvore::quer(n, 3, a.len())
            } else if a[0] is Texto && a[1] is Texto && a[2] is Texto {
                nativas_arvore::da(valor::Dado::Texto(substituido(a[0]->Texto_0, a[1]->Texto_0, a[2]->Texto_0)))
            } else {
                nativas_arvore::falha("substituir(texto, de, para)"@)
            },
        )
    } else if n == "sub_texto"@ {
        Some(parte(a))
    } else {
        None
    }
}

/// As funcoes deste modulo.
pub fn com_textos(nome: &str, args: &Vec<Valor>) -> (r: Option<Chamado>)
    ensures
        nativas_arvore::talvez(r) == de_textos(nome@, valor::vistos(args@)),
{
    let ghost a = valor::vistos(args@);
    assert(a.len() == args@.len());
    let k = args.len();
    assert(k > 0 ==> a[0] == args@[0]@);
    assert(k > 1 ==> a[1] == args@[1]@);
    assert(k > 2 ==> a[2] == args@[2]@);
    let n: &str = if nome.eq("começa_com") {
        "comeca_com"
    } else {
        nome
    };
    if pede_texto(n) {
        if k != 1 {
            return Some(querer(n, 1, k));
        }
        return Some(
            match &args[0] {
                Valor::Texto(s) => dar(Valor::Texto(com_texto(n, s.as_str()))),
                _ => requerer(n, "texto", &args[0]),
            },
        );
    }
    if n.eq("html_escapar") {
        if k != 1 {
            return Some(querer(n, 1, k));
        }
        return Some(
            match &args[0] {
                Valor::Texto(s) => dar(Valor::Texto(tirar_aspas(s.as_str()))),
                _ => {
                    let t = args[0].texto();
                    dar(Valor::Texto(tirar_marcas(t.as_str())))
                },
            },
        );
    }
    if n.eq("dividir") || n.eq("comeca_com") || n.eq("termina_com") || n.eq("contem_texto") || n.eq("posicao") || n.eq(
        "juntar",
    ) || n.eq("repetir") || n.eq("formatar_data") {
        if k != 2 {
            return Some(querer(n, 2, k));
        }
        return Some(fazer_com_dois(n, &args[0], &args[1]));
    }
    if n.eq("substituir") {
        if k != 3 {
            return Some(querer(n, 3, k));
        }
        return Some(
            match (&args[0], &args[1], &args[2]) {
                (Valor::Texto(t), Valor::Texto(de), Valor::Texto(para)) => dar(
                    Valor::Texto(substituir(t.as_str(), de.as_str(), para.as_str())),
                ),
                _ => falhar("substituir(texto, de, para)"),
            },
        );
    }
    if n.eq("sub_texto") {
        return Some(tirar_parte(args));
    }
    None
}

} // verus!
