//! A resposta HTTP que um programa vai fazendo: o estado, os cabecalhos e o corpo.

use vstd::prelude::*;
use vstd::utf8;
use crate::busca;
use crate::decimal;
use crate::json::valor_para_json;
use crate::json;
use crate::texto;
use crate::valor::{achar_chave, Valor};
use crate::valor;
use crate::vm::frase;

verus! {

// ---- Contexto ---------------------------------------------------------------------------

/// A resposta em que se escreve. Fora do servidor o que se escreve vai para a saida do programa.
#[derive(Debug)]
pub struct ContextoHttp {
    pub modo_servidor: bool,
    pub saida: Vec<u8>,
    pub status: u16,
    pub cabecalhos: Vec<(String, String)>,
}

/// O que um contexto representa.
pub ghost struct Resposta {
    pub servidor: bool,
    pub saida: Seq<u8>,
    pub status: u16,
    pub cabecalhos: Seq<(Seq<char>, Seq<char>)>,
}

/// Os cabecalhos vistos.
pub open spec fn vistos(v: Seq<(String, String)>) -> Seq<(Seq<char>, Seq<char>)> {
    v.map_values(|p: (String, String)| (p.0@, p.1@))
}

impl ContextoHttp {
    pub open spec fn view(&self) -> Resposta {
        Resposta {
            servidor: self.modo_servidor,
            saida: self.saida@,
            status: self.status,
            cabecalhos: vistos(self.cabecalhos@),
        }
    }

    /// Um contexto fora do servidor.
    pub fn novo() -> (r: Self)
        ensures
            r@ == (Resposta { servidor: false, saida: Seq::empty(), status: 200, cabecalhos: Seq::empty() }),
    {
        let r = ContextoHttp { modo_servidor: false, saida: Vec::new(), status: 200, cabecalhos: Vec::new() };
        assert(vistos(r.cabecalhos@) =~= Seq::empty());
        r
    }
}

/// A resposta vazia de um servidor.
pub open spec fn vazia() -> Resposta {
    Resposta { servidor: true, saida: Seq::empty(), status: 200, cabecalhos: Seq::empty() }
}

/// A resposta com mais um cabecalho.
pub open spec fn com_cabecalho(h: Resposta, k: Seq<char>, v: Seq<char>) -> Resposta {
    Resposta { cabecalhos: h.cabecalhos.push((k, v)), ..h }
}

/// Comeca uma resposta.
pub fn iniciar_contexto_servidor(c: &mut ContextoHttp)
    ensures
        final(c)@ == vazia(),
{
    c.modo_servidor = true;
    c.saida = Vec::new();
    c.status = 200;
    c.cabecalhos = Vec::new();
    assert(c@.saida =~= Seq::empty());
    assert(c@.cabecalhos =~= Seq::empty());
}

/// Muda o estado da resposta.
pub fn http_definir_status(c: &mut ContextoHttp, status: u16)
    ensures
        final(c)@ == (Resposta { status, ..old(c)@ }),
{
    c.status = status;
}

/// Acrescenta um cabecalho.
pub fn http_definir_cabecalho(c: &mut ContextoHttp, k: String, v: String)
    ensures
        final(c)@ == com_cabecalho(old(c)@, k@, v@),
{
    let ghost antes = c.cabecalhos@;
    let ghost p = (k@, v@);
    c.cabecalhos.push((k, v));
    assert(vistos(c.cabecalhos@) =~= vistos(antes).push(p));
}

/// Acrescenta bytes ao corpo.
pub fn http_escrever_corpo(c: &mut ContextoHttp, dados: &[u8])
    ensures
        final(c)@ == (Resposta { saida: old(c)@.saida + dados@, ..old(c)@ }),
{
    busca::acrescentar_bytes(&mut c.saida, dados);
}

/// Esvazia o corpo.
pub fn http_limpar_corpo(c: &mut ContextoHttp)
    ensures
        final(c)@ == (Resposta { saida: Seq::empty(), ..old(c)@ }),
{
    c.saida = Vec::new();
    assert(c@.saida =~= Seq::empty());
}

/// Tira a resposta feita e sai do servidor.
pub fn drenar_resposta(c: &mut ContextoHttp) -> (r: (u16, Vec<(String, String)>, Vec<u8>))
    ensures
        r.0 == old(c)@.status,
        vistos(r.1@) == old(c)@.cabecalhos,
        r.2@ == old(c)@.saida,
        final(c)@ == (Resposta {
            servidor: false,
            saida: Seq::empty(),
            status: old(c)@.status,
            cabecalhos: Seq::empty(),
        }),
{
    c.modo_servidor = false;
    let mut hs: Vec<(String, String)> = Vec::new();
    let mut corpo: Vec<u8> = Vec::new();
    std::mem::swap(&mut c.cabecalhos, &mut hs);
    std::mem::swap(&mut c.saida, &mut corpo);
    assert(c@.saida =~= Seq::empty());
    assert(c@.cabecalhos =~= Seq::empty());
    (c.status, hs, corpo)
}

/// Escreve um texto: no corpo, se num servidor; senao da o texto a quem o mostra.
pub fn saida_escrever(c: &mut ContextoHttp, t: String) -> (r: Option<String>)
    ensures
        old(c)@.servidor ==> r is None && final(c)@ == (Resposta {
            saida: old(c)@.saida + utf8::encode_utf8(t@),
            ..old(c)@
        }),
        !old(c)@.servidor ==> final(c)@ == old(c)@ && (r matches Some(x) && x@ == t@),
{
    if c.modo_servidor {
        busca::acrescentar_texto(&mut c.saida, t.as_str());
        None
    } else {
        Some(t)
    }
}

/// Passa a guardar o que se escreve; da o que havia, para quando se deixar de guardar.
pub fn iniciar_captura(c: &mut ContextoHttp) -> (r: (bool, Vec<u8>))
    ensures
        r.0 == old(c)@.servidor,
        r.1@ == old(c)@.saida,
        final(c)@ == (Resposta { servidor: true, saida: Seq::empty(), ..old(c)@ }),
{
    let m = c.modo_servidor;
    let mut antes: Vec<u8> = Vec::new();
    std::mem::swap(&mut c.saida, &mut antes);
    c.modo_servidor = true;
    assert(c@.saida =~= Seq::empty());
    (m, antes)
}

/// Deixa de guardar o que se escreve, e da o que foi guardado.
pub fn terminar_captura(c: &mut ContextoHttp, servidor: bool, saida: Vec<u8>) -> (r: String)
    ensures
        r@ == busca::texto_de(old(c)@.saida),
        final(c)@ == (Resposta { servidor, saida: saida@, ..old(c)@ }),
{
    let r = busca::de_bytes(c.saida.as_slice());
    c.modo_servidor = servidor;
    c.saida = saida;
    r
}

// ---- Funcoes nativas --------------------------------------------------------------------

/// O que uma funcao faz fora da resposta: nada, falhar, ou mostrar um texto.
#[derive(Debug)]
pub enum Efeito {
    Nada,
    Falha(String),
    Mostra(String),
}

/// O que um efeito representa.
pub ghost enum EfeitoVisto {
    Nada,
    Falha(Seq<char>),
    Mostra(Seq<char>),
}

impl Efeito {
    pub open spec fn view(&self) -> EfeitoVisto {
        match self {
            Efeito::Nada => EfeitoVisto::Nada,
            Efeito::Falha(m) => EfeitoVisto::Falha(m@),
            Efeito::Mostra(t) => EfeitoVisto::Mostra(t@),
        }
    }
}

/// Se um texto cabe numa linha.
pub open spec fn de_uma_linha(s: Seq<char>) -> bool {
    !s.contains('\r') && !s.contains('\n')
}

/// Se um nome de cabecalho serve.
pub open spec fn nome_serve(s: Seq<char>) -> bool {
    s.len() > 0 && de_uma_linha(s) && !s.contains(':')
}

/// Se um caractere e de controle.
pub open spec fn controle(c: char) -> bool {
    (c as int) < 32 || 127 <= (c as int) <= 159
}

/// Se um nome de cookie serve.
pub open spec fn nome_de_cookie(s: Seq<char>) -> bool {
    s.len() > 0 && forall|i: int|
        0 <= i < s.len() ==> !controle(#[trigger] s[i]) && s[i] != ' ' && s[i] != ';' && s[i] != ',' && s[i] != '='
}

/// Se um texto serve dentro de um cookie.
pub open spec fn parte_de_cookie(s: Seq<char>) -> bool {
    de_uma_linha(s) && !s.contains(';')
}

/// As opcoes de um cookie.
pub ghost struct OpcoesVistas {
    pub caminho: Seq<char>,
    pub max_idade: Option<i64>,
    pub http_only: bool,
    pub seguro: bool,
    pub same_site: Seq<char>,
}

/// O texto de uma opcao, ou outro.
pub open spec fn texto_ou(m: valor::Escopo, k: Seq<char>, outro: Seq<char>) -> Seq<char> {
    match valor::valor_de(m, k) {
        Some(valor::Dado::Texto(t)) => t,
        _ => outro,
    }
}

/// O valor logico de uma opcao, ou outro.
pub open spec fn logico_ou(m: valor::Escopo, k: Seq<char>, outro: bool) -> bool {
    match valor::valor_de(m, k) {
        Some(valor::Dado::Booleano(b)) => b,
        _ => outro,
    }
}

/// O inteiro de uma opcao.
pub open spec fn inteiro_ou_nada(m: valor::Escopo, k: Seq<char>) -> Option<i64> {
    match valor::valor_de(m, k) {
        Some(valor::Dado::Inteiro(n)) => Some(n),
        Some(valor::Dado::Numero(b, _)) => Some(decimal::inteiro_de(b) as i64),
        _ => None,
    }
}

/// As opcoes que um mapa diz.
pub open spec fn opcoes_de(m: valor::Escopo) -> OpcoesVistas {
    OpcoesVistas {
        caminho: texto_ou(m, "caminho"@, "/"@),
        max_idade: inteiro_ou_nada(m, "max_idade"@),
        http_only: logico_ou(m, "http_only"@, true),
        seguro: logico_ou(m, "seguro"@, false),
        same_site: texto_ou(m, "same_site"@, "Lax"@),
    }
}

/// O texto de um cookie.
pub open spec fn cookie(nome: Seq<char>, v: Seq<char>, o: OpcoesVistas) -> Seq<char> {
    nome + "="@ + v + "; Path="@ + o.caminho + "; SameSite="@ + o.same_site + (match o.max_idade {
        Some(n) => "; Max-Age="@ + texto::decimal_int(n as int),
        None => ""@,
    }) + (if o.http_only {
        "; HttpOnly"@
    } else {
        ""@
    }) + (if o.seguro {
        "; Secure"@
    } else {
        ""@
    })
}

/// O cookie que uma chamada pede, ou a falha.
pub open spec fn cookie_pedido(a: Seq<valor::Dado>) -> Result<Seq<char>, Seq<char>> {
    if a.len() < 2 || a.len() > 3 {
        Err("cookie_definir(nome, valor, opcoes?)"@)
    } else {
        match a[0] {
            valor::Dado::Texto(nome) => {
                let v = valor::texto_de(a[1]);
                let o = opcoes_de(
                    if a.len() == 3 && a[2] is Mapa {
                        a[2]->Mapa_0
                    } else {
                        Seq::empty()
                    },
                );
                if !nome_de_cookie(nome) || !parte_de_cookie(v) {
                    Err("cookie_definir: nome ou valor invalido"@)
                } else if !parte_de_cookie(o.caminho) || !(o.same_site == "Lax"@ || o.same_site == "Strict"@
                    || o.same_site == "None"@) {
                    Err("cookie_definir: opcoes invalidas"@)
                } else {
                    Ok(cookie(nome, v, o))
                }
            },
            v => Err("cookie_definir: nome deve ser texto, recebeu "@ + valor::texto_de(v)),
        }
    }
}

/// A falha de argumentos a mais ou a menos.
pub open spec fn argumentos(nome: Seq<char>, k: nat, n: nat) -> EfeitoVisto {
    EfeitoVisto::Falha(
        "'"@ + nome + "' requer "@ + texto::decimal(k) + (if k == 1 {
            " argumento, recebeu "@
        } else {
            " argumentos, recebeu "@
        }) + texto::decimal(n),
    )
}

/// A falha de um valor que nao serve.
pub open spec fn recusado(inicio: Seq<char>, v: valor::Dado) -> EfeitoVisto {
    EfeitoVisto::Falha(inicio + valor::texto_de(v))
}

/// A linha com que um programa fora do servidor diz um cabecalho.
pub open spec fn linha_de_cabecalho(k: Seq<char>, v: Seq<char>) -> Seq<char> {
    "\u{1e}PEP_HEADER:"@ + k + ": "@ + v + "\n"@
}

/// A linha com que um programa fora do servidor diz o estado.
pub open spec fn linha_de_status(n: int) -> Seq<char> {
    "\u{1e}PEP_STATUS:"@ + texto::decimal_int(n) + "\n"@
}

/// O codigo de estado de um valor.
pub open spec fn codigo_de(v: valor::Dado) -> Option<i64> {
    match v {
        valor::Dado::Inteiro(n) => Some(n),
        valor::Dado::Numero(b, _) => Some(decimal::inteiro_de(b) as i64),
        _ => None,
    }
}

/// O que uma funcao nativa faz a resposta, e o seu efeito.
pub open spec fn feito(h: Resposta, nome: Seq<char>, a: Seq<valor::Dado>) -> Option<(Resposta, EfeitoVisto)> {
    if nome == "cabecalho"@ {
        Some(
            if a.len() != 2 {
                (h, argumentos(nome, 2, a.len()))
            } else {
                match a[0] {
                    valor::Dado::Texto(k) => {
                        let v = valor::texto_de(a[1]);
                        if !nome_serve(k) || !de_uma_linha(v) {
                            (h, EfeitoVisto::Falha("cabecalho: nome ou valor invalido"@))
                        } else if h.servidor {
                            (com_cabecalho(h, k, v), EfeitoVisto::Nada)
                        } else {
                            (h, EfeitoVisto::Mostra(linha_de_cabecalho(k, v)))
                        }
                    },
                    v => (h, recusado("'cabecalho' requer nome em texto, recebeu "@, v)),
                }
            },
        )
    } else if nome == "status"@ {
        Some(
            if a.len() != 1 {
                (h, argumentos(nome, 1, a.len()))
            } else {
                match codigo_de(a[0]) {
                    Some(n) => if !(100 <= n <= 599) {
                        (h, EfeitoVisto::Falha("status: codigo deve estar entre 100 e 599"@))
                    } else if h.servidor {
                        (Resposta { status: n as u16, ..h }, EfeitoVisto::Nada)
                    } else {
                        (h, EfeitoVisto::Mostra(linha_de_status(n as int)))
                    },
                    None => (h, recusado("'status' requer numero, recebeu "@, a[0])),
                }
            },
        )
    } else if nome == "redirecionar"@ {
        Some(
            if a.len() != 1 {
                (h, argumentos(nome, 1, a.len()))
            } else {
                match a[0] {
                    valor::Dado::Texto(u) => if !de_uma_linha(u) {
                        (h, EfeitoVisto::Falha("redirecionar: URL invalida"@))
                    } else if h.servidor {
                        (com_cabecalho(Resposta { status: 302, ..h }, "Location"@, u), EfeitoVisto::Nada)
                    } else {
                        (h, EfeitoVisto::Mostra(linha_de_status(302) + linha_de_cabecalho("Location"@, u)))
                    },
                    v => (h, recusado("'redirecionar' requer texto, recebeu "@, v)),
                }
            },
        )
    } else if nome == "json_responder"@ {
        Some(
            if a.len() != 1 {
                (h, argumentos(nome, 1, a.len()))
            } else {
                let t = json::json_de(a[0]);
                let tipo = "application/json; charset=utf-8"@;
                if h.servidor {
                    let c = com_cabecalho(h, "Content-Type"@, tipo);
                    (Resposta { saida: c.saida + utf8::encode_utf8(t), ..c }, EfeitoVisto::Nada)
                } else {
                    (h, EfeitoVisto::Mostra(linha_de_cabecalho("Content-Type"@, tipo) + t))
                }
            },
        )
    } else if nome == "cookie_definir"@ {
        Some(
            match cookie_pedido(a) {
                Ok(c) => (com_cabecalho(h, "Set-Cookie"@, c), EfeitoVisto::Nada),
                Err(m) => (h, EfeitoVisto::Falha(m)),
            },
        )
    } else {
        None
    }
}

fn tem(s: &Vec<char>, c: char) -> (r: bool)
    ensures
        r == s@.contains(c),
{
    let mut i: usize = 0;
    while i < s.len()
        invariant
            i <= s@.len(),
            forall|k: int| 0 <= k < i ==> #[trigger] s@[k] != c,
        decreases s@.len() - i,
    {
        if s[i] == c {
            assert(s@.contains(c));
            return true;
        }
        i += 1;
    }
    false
}

fn cabe_numa_linha(s: &str) -> (r: bool)
    ensures
        r == de_uma_linha(s@),
{
    let v = texto::caracteres(s);
    !tem(&v, '\r') && !tem(&v, '\n')
}

fn serve_em_cookie(s: &str) -> (r: bool)
    ensures
        r == parte_de_cookie(s@),
{
    let v = texto::caracteres(s);
    !tem(&v, '\r') && !tem(&v, '\n') && !tem(&v, ';')
}

fn eh_controle(c: char) -> (r: bool)
    ensures
        r == controle(c),
{
    let n = c as u32;
    n < 32 || (127 <= n && n <= 159)
}

fn serve_de_nome(s: &str) -> (r: bool)
    ensures
        r == nome_de_cookie(s@),
{
    let v = texto::caracteres(s);
    let mut i: usize = 0;
    while i < v.len()
        invariant
            i <= v@.len(),
            v@ == s@,
            forall|k: int|
                0 <= k < i ==> !controle(#[trigger] v@[k]) && v@[k] != ' ' && v@[k] != ';' && v@[k] != ',' && v@[k]
                    != '=',
        decreases v@.len() - i,
    {
        let c = v[i];
        if eh_controle(c) || c == ' ' || c == ';' || c == ',' || c == '=' {
            assert(!(!controle(s@[i as int]) && s@[i as int] != ' ' && s@[i as int] != ';' && s@[i as int] != ','
                && s@[i as int] != '='));
            return false;
        }
        i += 1;
    }
    v.len() > 0
}

fn ler_texto(m: &Vec<(String, Valor)>, k: &str, outro: &str) -> (r: String)
    ensures
        r@ == texto_ou(valor::pares_vistos(m@), k@, outro@),
{
    if let Some(i) = achar_chave(m, k) {
        assert(valor::pares_vistos(m@)[i as int].1 == m@[i as int].1@);
        if let Valor::Texto(t) = &m[i].1 {
            return t.clone();
        }
    }
    outro.to_owned()
}

fn ler_logico(m: &Vec<(String, Valor)>, k: &str, outro: bool) -> (r: bool)
    ensures
        r == logico_ou(valor::pares_vistos(m@), k@, outro),
{
    if let Some(i) = achar_chave(m, k) {
        assert(valor::pares_vistos(m@)[i as int].1 == m@[i as int].1@);
        if let Valor::Booleano(b) = &m[i].1 {
            return *b;
        }
    }
    outro
}

fn ler_inteiro(m: &Vec<(String, Valor)>, k: &str) -> (r: Option<i64>)
    ensures
        r == inteiro_ou_nada(valor::pares_vistos(m@), k@),
{
    if let Some(i) = achar_chave(m, k) {
        assert(valor::pares_vistos(m@)[i as int].1 == m@[i as int].1@);
        match &m[i].1 {
            Valor::Inteiro(n) => return Some(*n),
            Valor::Numero(d) => return Some(decimal::para_inteiro(d.bits)),
            _ => {},
        }
    }
    None
}

fn escrever_cookie(
    nome: &str,
    v: &str,
    caminho: &str,
    same_site: &str,
    max_idade: Option<i64>,
    http_only: bool,
    seguro: bool,
) -> (r: String)
    ensures
        r@ == cookie(
            nome@,
            v@,
            OpcoesVistas { caminho: caminho@, max_idade, http_only, seguro, same_site: same_site@ },
        ),
{
    proof {
        reveal_strlit("");
    }
    let mut r = frase(nome, "=", v);
    r.append("; Path=");
    r.append(caminho);
    r.append("; SameSite=");
    r.append(same_site);
    if let Some(n) = max_idade {
        r.append("; Max-Age=");
        r.append(texto::inteiro(n).as_str());
    }
    if http_only {
        r.append("; HttpOnly");
    }
    if seguro {
        r.append("; Secure");
    }
    assert(r@ =~= cookie(
        nome@,
        v@,
        OpcoesVistas { caminho: caminho@, max_idade, http_only, seguro, same_site: same_site@ },
    ));
    r
}

fn pedir_cookie(args: &Vec<Valor>) -> (r: Result<String, String>)
    ensures
        match r {
            Ok(c) => cookie_pedido(valor::vistos(args@)) == Ok::<Seq<char>, Seq<char>>(c@),
            Err(m) => cookie_pedido(valor::vistos(args@)) == Err::<Seq<char>, Seq<char>>(m@),
        },
{
    let ghost a = valor::vistos(args@);
    assert(a.len() == args@.len());
    if args.len() < 2 || args.len() > 3 {
        return Err("cookie_definir(nome, valor, opcoes?)".to_owned());
    }
    assert(a[0] == args@[0]@ && a[1] == args@[1]@);
    let nome = match &args[0] {
        Valor::Texto(s) => s,
        _ => {
            let mut m = "cookie_definir: nome deve ser texto, recebeu ".to_owned();
            m.append(args[0].texto().as_str());
            return Err(m);
        },
    };
    let v = args[1].texto();
    if !serve_de_nome(nome.as_str()) || !serve_em_cookie(v.as_str()) {
        return Err("cookie_definir: nome ou valor invalido".to_owned());
    }
    let vazio: Vec<(String, Valor)> = Vec::new();
    assert(valor::pares_vistos(vazio@) =~= Seq::empty());
    let mut o = &vazio;
    if args.len() == 3 {
        assert(a[2] == args@[2]@);
        if let Valor::Mapa(m) = &args[2] {
            o = m;
        }
    }
    let caminho = ler_texto(o, "caminho", "/");
    let same_site = ler_texto(o, "same_site", "Lax");
    let ss = same_site.as_str();
    if !serve_em_cookie(caminho.as_str()) || !(ss.eq("Lax") || ss.eq("Strict") || ss.eq("None")) {
        return Err("cookie_definir: opcoes invalidas".to_owned());
    }
    Ok(
        escrever_cookie(
            nome.as_str(),
            v.as_str(),
            caminho.as_str(),
            ss,
            ler_inteiro(o, "max_idade"),
            ler_logico(o, "http_only", true),
            ler_logico(o, "seguro", false),
        ),
    )
}

fn dizer_argumentos(nome: &str, k: usize, n: usize) -> (r: Efeito)
    ensures
        r@ == argumentos(nome@, k as nat, n as nat),
{
    let mut s = frase("'", nome, "' requer ");
    s.append(texto::natural(k as u64).as_str());
    if k == 1 {
        s.append(" argumento, recebeu ");
    } else {
        s.append(" argumentos, recebeu ");
    }
    s.append(texto::natural(n as u64).as_str());
    Efeito::Falha(s)
}

fn recusar(inicio: &str, v: &Valor) -> (r: Efeito)
    ensures
        r@ == recusado(inicio@, v@),
{
    let mut s = inicio.to_owned();
    s.append(v.texto().as_str());
    Efeito::Falha(s)
}

fn escrever_cabecalho(k: &str, v: &str) -> (r: String)
    ensures
        r@ == linha_de_cabecalho(k@, v@),
{
    let mut s = frase("\u{1e}PEP_HEADER:", k, ": ");
    s.append(v);
    s.append("\n");
    s
}

fn escrever_status(n: i64) -> (r: String)
    ensures
        r@ == linha_de_status(n as int),
{
    let t = texto::inteiro(n);
    frase("\u{1e}PEP_STATUS:", t.as_str(), "\n")
}

fn fazer_cabecalho(c: &mut ContextoHttp, args: &Vec<Valor>) -> (r: Efeito)
    ensures
        feito(old(c)@, "cabecalho"@, valor::vistos(args@)) == Some((final(c)@, r@)),
{
    let ghost a = valor::vistos(args@);
    assert(a.len() == args@.len());
    if args.len() != 2 {
        return dizer_argumentos("cabecalho", 2, args.len());
    }
    assert(a[0] == args@[0]@ && a[1] == args@[1]@);
    match &args[0] {
        Valor::Texto(k) => {
            let v = args[1].texto();
            let ks = texto::caracteres(k.as_str());
            if ks.len() == 0 || !cabe_numa_linha(k.as_str()) || tem(&ks, ':') || !cabe_numa_linha(v.as_str()) {
                return Efeito::Falha("cabecalho: nome ou valor invalido".to_owned());
            }
            if c.modo_servidor {
                http_definir_cabecalho(c, k.clone(), v);
                Efeito::Nada
            } else {
                Efeito::Mostra(escrever_cabecalho(k.as_str(), v.as_str()))
            }
        },
        _ => recusar("'cabecalho' requer nome em texto, recebeu ", &args[0]),
    }
}

proof fn distintos()
    ensures
        "cabecalho"@ != "status"@,
        "redirecionar"@ != "status"@,
        "redirecionar"@ != "cabecalho"@,
        "json_responder"@ != "redirecionar"@,
        "json_responder"@ != "status"@,
        "json_responder"@ != "cabecalho"@,
        "cookie_definir"@ != "json_responder"@,
        "cookie_definir"@ != "redirecionar"@,
        "cookie_definir"@ != "status"@,
        "cookie_definir"@ != "cabecalho"@,
{
    reveal_strlit("cabecalho");
    reveal_strlit("status");
    reveal_strlit("redirecionar");
    reveal_strlit("json_responder");
    reveal_strlit("cookie_definir");
    assert("cabecalho"@.len() == 9 && "status"@.len() == 6 && "redirecionar"@.len() == 12);
    assert("json_responder"@[0] == 'j' && "cookie_definir"@[0] == 'c');
    assert("json_responder"@.len() == 14 && "cookie_definir"@.len() == 14);
}

fn fazer_status(c: &mut ContextoHttp, args: &Vec<Valor>) -> (r: Efeito)
    ensures
        feito(old(c)@, "status"@, valor::vistos(args@)) == Some((final(c)@, r@)),
{
    proof {
        distintos();
    }
    let ghost a = valor::vistos(args@);
    assert(a.len() == args@.len());
    if args.len() != 1 {
        return dizer_argumentos("status", 1, args.len());
    }
    assert(a[0] == args@[0]@);
    let n = match &args[0] {
        Valor::Inteiro(n) => *n,
        Valor::Numero(d) => decimal::para_inteiro(d.bits),
        _ => return recusar("'status' requer numero, recebeu ", &args[0]),
    };
    if n < 100 || n > 599 {
        return Efeito::Falha("status: codigo deve estar entre 100 e 599".to_owned());
    }
    if c.modo_servidor {
        http_definir_status(c, n as u16);
        Efeito::Nada
    } else {
        Efeito::Mostra(escrever_status(n))
    }
}

fn fazer_redirecionar(c: &mut ContextoHttp, args: &Vec<Valor>) -> (r: Efeito)
    ensures
        feito(old(c)@, "redirecionar"@, valor::vistos(args@)) == Some((final(c)@, r@)),
{
    proof {
        distintos();
    }
    let ghost a = valor::vistos(args@);
    assert(a.len() == args@.len());
    if args.len() != 1 {
        return dizer_argumentos("redirecionar", 1, args.len());
    }
    assert(a[0] == args@[0]@);
    match &args[0] {
        Valor::Texto(u) => {
            if !cabe_numa_linha(u.as_str()) {
                return Efeito::Falha("redirecionar: URL invalida".to_owned());
            }
            if c.modo_servidor {
                http_definir_status(c, 302);
                http_definir_cabecalho(c, "Location".to_owned(), u.clone());
                Efeito::Nada
            } else {
                let mut t = escrever_status(302);
                t.append(escrever_cabecalho("Location", u.as_str()).as_str());
                Efeito::Mostra(t)
            }
        },
        _ => recusar("'redirecionar' requer texto, recebeu ", &args[0]),
    }
}

fn fazer_json(c: &mut ContextoHttp, args: &Vec<Valor>) -> (r: Efeito)
    ensures
        feito(old(c)@, "json_responder"@, valor::vistos(args@)) == Some((final(c)@, r@)),
{
    proof {
        distintos();
    }
    let ghost a = valor::vistos(args@);
    assert(a.len() == args@.len());
    if args.len() != 1 {
        return dizer_argumentos("json_responder", 1, args.len());
    }
    assert(a[0] == args@[0]@);
    let t = valor_para_json(&args[0]);
    let tipo = "application/json; charset=utf-8";
    if c.modo_servidor {
        http_definir_cabecalho(c, "Content-Type".to_owned(), tipo.to_owned());
        busca::acrescentar_texto(&mut c.saida, t.as_str());
        Efeito::Nada
    } else {
        let mut s = escrever_cabecalho("Content-Type", tipo);
        s.append(t.as_str());
        Efeito::Mostra(s)
    }
}

/// Faz uma funcao nativa da resposta; nada se o nome nao e de nenhuma.
pub fn fazer(c: &mut ContextoHttp, nome: &str, args: &Vec<Valor>) -> (r: Option<Efeito>)
    ensures
        match r {
            Some(e) => feito(old(c)@, nome@, valor::vistos(args@)) == Some((final(c)@, e@)),
            None => feito(old(c)@, nome@, valor::vistos(args@)) is None && final(c)@ == old(c)@,
        },
{
    proof {
        distintos();
    }
    if nome.eq("cabecalho") {
        Some(fazer_cabecalho(c, args))
    } else if nome.eq("status") {
        Some(fazer_status(c, args))
    } else if nome.eq("redirecionar") {
        Some(fazer_redirecionar(c, args))
    } else if nome.eq("json_responder") {
        Some(fazer_json(c, args))
    } else if nome.eq("cookie_definir") {
        match pedir_cookie(args) {
            Ok(t) => {
                http_definir_cabecalho(c, "Set-Cookie".to_owned(), t);
                Some(Efeito::Nada)
            },
            Err(m) => Some(Efeito::Falha(m)),
        }
    } else {
        None
    }
}

// ---- Leis -------------------------------------------------------------------------------

/// Se todos os cabecalhos cabem numa linha.
pub open spec fn inteiros(h: Resposta) -> bool {
    forall|i: int|
        0 <= i < h.cabecalhos.len() ==> de_uma_linha((#[trigger] h.cabecalhos[i]).0) && de_uma_linha(
            h.cabecalhos[i].1,
        )
}

proof fn lema_juntos(a: Seq<char>, b: Seq<char>)
    requires
        de_uma_linha(a),
        de_uma_linha(b),
    ensures
        de_uma_linha(a + b),
{
    let s = a + b;
    assert forall|c: char| c == '\r' || c == '\n' implies !s.contains(c) by {
        if s.contains(c) {
            let i = choose|i: int| 0 <= i < s.len() && s[i] == c;
            if i < a.len() {
                assert(a.contains(c));
            } else {
                assert(b[i - a.len()] == c);
                assert(b.contains(c));
            }
        }
    }
}

proof fn lema_decimal(n: nat)
    ensures
        de_uma_linha(texto::decimal(n)),
    decreases n,
{
    if n >= 10 {
        lema_decimal(n / 10);
    }
    let d = texto::algarismo((n % 10) as int);
    assert(d != '\r' && d != '\n');
    let s = texto::decimal(n);
    assert forall|i: int| 0 <= i < s.len() implies s[i] != '\r' && s[i] != '\n' by {
        if n >= 10 && i < s.len() - 1 {
            assert(s[i] == texto::decimal(n / 10)[i]);
            assert(texto::decimal(n / 10).contains(s[i]));
        }
    }
}

proof fn lema_cookie(nome: Seq<char>, v: Seq<char>, o: OpcoesVistas)
    requires
        nome_de_cookie(nome),
        parte_de_cookie(v),
        parte_de_cookie(o.caminho),
        o.same_site == "Lax"@ || o.same_site == "Strict"@ || o.same_site == "None"@,
    ensures
        de_uma_linha(cookie(nome, v, o)),
{
    reveal_strlit("=");
    reveal_strlit("; Path=");
    reveal_strlit("; SameSite=");
    reveal_strlit("; Max-Age=");
    reveal_strlit("; HttpOnly");
    reveal_strlit("; Secure");
    reveal_strlit("");
    reveal_strlit("Lax");
    reveal_strlit("Strict");
    reveal_strlit("None");
    reveal_strlit("-");
    assert(de_uma_linha(nome)) by {
        assert forall|i: int| 0 <= i < nome.len() implies nome[i] != '\r' && nome[i] != '\n' by {
            assert(!controle(nome[i]));
        }
    }
    let a = nome + "="@;
    lema_juntos(nome, "="@);
    lema_juntos(a, v);
    lema_juntos(a + v, "; Path="@);
    let b = a + v + "; Path="@;
    lema_juntos(b, o.caminho);
    lema_juntos(b + o.caminho, "; SameSite="@);
    let c = b + o.caminho + "; SameSite="@;
    lema_juntos(c, o.same_site);
    let d = c + o.same_site;
    let m = match o.max_idade {
        Some(n) => "; Max-Age="@ + texto::decimal_int(n as int),
        None => ""@,
    };
    if let Some(n) = o.max_idade {
        if n < 0 {
            lema_decimal((-(n as int)) as nat);
            lema_juntos("-"@, texto::decimal((-(n as int)) as nat));
        } else {
            lema_decimal(n as nat);
        }
        lema_juntos("; Max-Age="@, texto::decimal_int(n as int));
    }
    lema_juntos(d, m);
    let h = if o.http_only {
        "; HttpOnly"@
    } else {
        ""@
    };
    lema_juntos(d + m, h);
    let s = if o.seguro {
        "; Secure"@
    } else {
        ""@
    };
    lema_juntos(d + m + h, s);
}

/// Nenhuma funcao nativa poe na resposta um cabecalho que nao cabe numa linha.
pub proof fn lei_cabecalhos(h: Resposta, nome: Seq<char>, a: Seq<valor::Dado>)
    requires
        inteiros(h),
        feito(h, nome, a) is Some,
    ensures
        inteiros(feito(h, nome, a)->Some_0.0),
{
    reveal_strlit("Location");
    reveal_strlit("Content-Type");
    reveal_strlit("Set-Cookie");
    reveal_strlit("application/json; charset=utf-8");
    if nome == "cookie_definir"@ {
        if let Ok(c) = cookie_pedido(a) {
            let o = opcoes_de(
                if a.len() == 3 && a[2] is Mapa {
                    a[2]->Mapa_0
                } else {
                    Seq::empty()
                },
            );
            lema_cookie(a[0]->Texto_0, valor::texto_de(a[1]), o);
        }
    }
    let r = feito(h, nome, a)->Some_0.0;
    assert forall|i: int| 0 <= i < r.cabecalhos.len() implies de_uma_linha((#[trigger] r.cabecalhos[i]).0)
        && de_uma_linha(r.cabecalhos[i].1) by {
        if i < h.cabecalhos.len() {
            assert(r.cabecalhos[i] == h.cabecalhos[i]);
        }
    }
}

} // verus!
