//! Valores escritos e lidos em JSON.

use vstd::prelude::*;
use crate::busca;
use crate::decimal::Decimal;
use crate::ordem;
use crate::texto;
use crate::valor::{guardar, Valor};
use crate::valor;
use crate::vm::frase;

verus! {

// ---- Escrita ----------------------------------------------------------------------------

/// Como um caractere se escreve dentro de aspas.
pub open spec fn escape(c: char) -> Seq<char> {
    if c == '\\' {
        seq!['\\', '\\']
    } else if c == '"' {
        seq!['\\', '"']
    } else if c == '\n' {
        seq!['\\', 'n']
    } else if c == '\r' {
        seq!['\\', 'r']
    } else if c == '\t' {
        seq!['\\', 't']
    } else {
        seq![c]
    }
}

/// Como uma chave de mapa escreve um caractere.
pub open spec fn escape_da_chave(c: char) -> Seq<char> {
    if c == '\\' {
        seq!['\\', '\\']
    } else if c == '"' {
        seq!['\\', '"']
    } else {
        seq![c]
    }
}

/// Como os primeiros `n` caracteres de um texto se escrevem dentro de aspas.
pub open spec fn escapado(s: Seq<char>, n: int, chave: bool) -> Seq<char>
    decreases n,
{
    if n <= 0 || n > s.len() {
        Seq::empty()
    } else {
        escapado(s, n - 1, chave) + (if chave {
            escape_da_chave(s[n - 1])
        } else {
            escape(s[n - 1])
        })
    }
}

/// Um texto entre aspas.
pub open spec fn entre_aspas(s: Seq<char>, chave: bool) -> Seq<char> {
    seq!['"'] + escapado(s, s.len() as int, chave) + seq!['"']
}

/// Os itens de uma lista em JSON.
pub open spec fn itens_json(l: Seq<valor::Dado>) -> Seq<Seq<char>>
    decreases l,
{
    Seq::new(
        l.len(),
        |i: int|
            if 0 <= i < l.len() {
                json_de(l[i])
            } else {
                Seq::empty()
            },
    )
}

/// Os pares de um mapa em JSON.
pub open spec fn pares_json(m: valor::Escopo) -> Seq<Seq<char>>
    decreases m,
{
    Seq::new(
        m.len(),
        |i: int|
            if 0 <= i < m.len() {
                entre_aspas(m[i].0, true) + ":"@ + json_de(m[i].1)
            } else {
                Seq::empty()
            },
    )
}

/// Um valor em JSON. Os pares de um mapa saem em ordem, e o que JSON nao tem vale `null`.
pub open spec fn json_de(v: valor::Dado) -> Seq<char>
    decreases v,
{
    match v {
        valor::Dado::Booleano(b) => if b {
            "true"@
        } else {
            "false"@
        },
        valor::Dado::Inteiro(n) => texto::decimal_int(n as int),
        valor::Dado::Numero(_, t) => t,
        valor::Dado::Texto(s) => entre_aspas(s, false),
        valor::Dado::Lista(l) => "["@ + busca::juntos(itens_json(l), ","@) + "]"@,
        valor::Dado::Mapa(m) => "{"@ + busca::juntos(ordem::ordenadas(pares_json(m)), ","@) + "}"@,
        _ => "null"@,
    }
}

fn citar(s: &str, chave: bool) -> (r: String)
    ensures
        r@ == entre_aspas(s@, chave),
{
    let cs = texto::caracteres(s);
    let mut v: Vec<char> = Vec::new();
    v.push('"');
    assert(v@ =~= seq!['"'] + escapado(s@, 0, chave));
    let mut i: usize = 0;
    while i < cs.len()
        invariant
            i <= cs@.len(),
            cs@ == s@,
            v@ == seq!['"'] + escapado(s@, i as int, chave),
        decreases cs@.len() - i,
    {
        let c = cs[i];
        let ghost antes = v@;
        if c == '\\' || c == '"' {
            v.push('\\');
            v.push(c);
        } else if !chave && c == '\n' {
            v.push('\\');
            v.push('n');
        } else if !chave && c == '\r' {
            v.push('\\');
            v.push('r');
        } else if !chave && c == '\t' {
            v.push('\\');
            v.push('t');
        } else {
            v.push(c);
        }
        let ghost e = if chave {
            escape_da_chave(c)
        } else {
            escape(c)
        };
        assert(v@ =~= antes + e);
        assert(v@ =~= seq!['"'] + escapado(s@, i + 1, chave));
        i += 1;
    }
    v.push('"');
    assert(v@ =~= entre_aspas(s@, chave));
    texto::de_caracteres(v.as_slice())
}

fn escrever_itens(l: &Vec<Valor>) -> (r: Vec<String>)
    ensures
        texto::textos(r@) == itens_json(valor::vistos(l@)),
    decreases l,
{
    let mut r: Vec<String> = Vec::new();
    let mut i: usize = 0;
    while i < l.len()
        invariant
            i <= l@.len(),
            r@.len() == i,
            forall|k: int| 0 <= k < i ==> (#[trigger] r@[k])@ == json_de(l@[k]@),
        decreases l@.len() - i,
    {
        r.push(valor_para_json(&l[i]));
        i += 1;
    }
    assert(texto::textos(r@) =~= itens_json(valor::vistos(l@)));
    r
}

fn escrever_pares(m: &Vec<(String, Valor)>) -> (r: Vec<String>)
    ensures
        texto::textos(r@) == pares_json(valor::pares_vistos(m@)),
    decreases m,
{
    let mut r: Vec<String> = Vec::new();
    let mut i: usize = 0;
    while i < m.len()
        invariant
            i <= m@.len(),
            r@.len() == i,
            forall|k: int|
                0 <= k < i ==> (#[trigger] r@[k])@ == entre_aspas(m@[k].0@, true) + ":"@ + json_de(m@[k].1@),
        decreases m@.len() - i,
    {
        let mut t = citar(m[i].0.as_str(), true);
        t.append(":");
        t.append(valor_para_json(&m[i].1).as_str());
        r.push(t);
        i += 1;
    }
    assert(texto::textos(r@) =~= pares_json(valor::pares_vistos(m@)));
    r
}

/// Escreve um valor em JSON.
pub fn valor_para_json(v: &Valor) -> (r: String)
    ensures
        r@ == json_de(v@),
    decreases v,
{
    match v {
        Valor::Booleano(b) => if *b {
            "true".to_owned()
        } else {
            "false".to_owned()
        },
        Valor::Inteiro(n) => texto::inteiro(*n),
        Valor::Numero(d) => d.texto.clone(),
        Valor::Texto(s) => citar(s.as_str(), false),
        Valor::Lista(l) => {
            let ts = escrever_itens(l);
            frase("[", busca::juntar(&ts, ",").as_str(), "]")
        },
        Valor::Mapa(m) => {
            let ts = ordem::ordenar(escrever_pares(m));
            frase("{", busca::juntar(&ts, ",").as_str(), "}")
        },
        _ => "null".to_owned(),
    }
}

// ---- Leitura: textos e partes -----------------------------------------------------------

/// O valor de um algarismo hexadecimal.
pub open spec fn valor_hex(c: char) -> Option<int> {
    if '0' <= c && c <= '9' {
        Some(c as int - 48)
    } else if 'A' <= c && c <= 'F' {
        Some(c as int - 55)
    } else if 'a' <= c && c <= 'f' {
        Some(c as int - 87)
    } else {
        None
    }
}

/// O numero de quatro algarismos hexadecimais a partir de `i`; o primeiro pode ser um `+`.
pub open spec fn codigo_em(s: Seq<char>, i: int) -> Option<int> {
    if i < 0 || i + 4 > s.len() {
        None
    } else {
        let a = if s[i] == '+' {
            Some(0int)
        } else {
            valor_hex(s[i])
        };
        match (a, valor_hex(s[i + 1]), valor_hex(s[i + 2]), valor_hex(s[i + 3])) {
            (Some(a), Some(b), Some(c), Some(d)) => Some(a * 4096 + b * 256 + c * 16 + d),
            _ => None,
        }
    }
}

/// O que um `\u` acrescenta: nada se o codigo nao e de um caractere.
pub open spec fn caractere_de(n: Option<int>) -> Seq<char> {
    match n {
        Some(x) => if 0xD800 <= x <= 0xDFFF {
            Seq::empty()
        } else {
            seq![x as char]
        },
        None => Seq::empty(),
    }
}

/// O texto a partir de `i`, depois do que ja esta em `acc`, ate as aspas ou o fim.
pub open spec fn texto_em(s: Seq<char>, i: int, acc: Seq<char>) -> Seq<char>
    decreases s.len() + 6 - i,
{
    if i < 0 || i >= s.len() || s[i] == '"' {
        acc
    } else if s[i] == '\\' {
        if i + 1 >= s.len() {
            acc
        } else {
            let c = s[i + 1];
            if c == '"' || c == '\\' || c == '/' {
                texto_em(s, i + 2, acc.push(c))
            } else if c == 'n' {
                texto_em(s, i + 2, acc.push('\n'))
            } else if c == 'r' {
                texto_em(s, i + 2, acc.push('\r'))
            } else if c == 't' {
                texto_em(s, i + 2, acc.push('\t'))
            } else if c == 'u' {
                texto_em(s, i + 6, acc + caractere_de(codigo_em(s, i + 2)))
            } else {
                texto_em(s, i + 2, acc.push('\\').push(c))
            }
        }
    } else {
        texto_em(s, i + 1, acc.push(s[i]))
    }
}

/// O texto que se le entre aspas; nada se nao comeca por elas.
pub open spec fn texto_lido(s: Seq<char>) -> Option<Seq<char>> {
    if s.len() == 0 || s[0] != '"' {
        None
    } else {
        Some(texto_em(s, 1, Seq::empty()))
    }
}

/// Onde se esta ao percorrer um texto: a profundidade, se dentro de aspas e se depois de uma
/// barra.
pub ghost struct Lugar {
    pub fundo: int,
    pub aspas: bool,
    pub barra: bool,
}

/// O lugar depois de um caractere.
pub open spec fn depois(l: Lugar, c: char) -> Lugar {
    if l.barra {
        Lugar { barra: false, ..l }
    } else if l.aspas {
        if c == '\\' {
            Lugar { barra: true, ..l }
        } else if c == '"' {
            Lugar { aspas: false, ..l }
        } else {
            l
        }
    } else if c == '"' {
        Lugar { aspas: true, ..l }
    } else if c == '{' || c == '[' {
        Lugar { fundo: l.fundo + 1, ..l }
    } else if c == '}' || c == ']' {
        Lugar { fundo: l.fundo - 1, ..l }
    } else {
        l
    }
}

/// Se um caractere separa.
pub open spec fn separa(l: Lugar, c: char) -> bool {
    !l.barra && !l.aspas && l.fundo == 0 && c == ','
}

/// As partes entre as virgulas de fora, a partir de `i`, com uma parte comecada em `de`.
pub open spec fn partes_em(s: Seq<char>, i: int, de: int, l: Lugar) -> Seq<Seq<char>>
    decreases s.len() - i,
{
    if i < 0 || i >= s.len() {
        seq![s.skip(de)]
    } else if separa(l, s[i]) {
        seq![s.subrange(de, i)] + partes_em(s, i + 1, i + 1, l)
    } else {
        partes_em(s, i + 1, de, depois(l, s[i]))
    }
}

/// O lugar em que se comeca.
pub open spec fn comeco() -> Lugar {
    Lugar { fundo: 0, aspas: false, barra: false }
}

/// As partes entre as virgulas de fora.
pub open spec fn partes(s: Seq<char>) -> Seq<Seq<char>> {
    partes_em(s, 0, 0, comeco())
}

proof fn lema_partes_em(s: Seq<char>, i: int, de: int, l: Lugar)
    requires
        0 <= de <= i <= s.len(),
    ensures
        forall|k: int| 0 <= k < partes_em(s, i, de, l).len() ==> (#[trigger] partes_em(s, i, de, l)[k]).len() <= s.len(),
    decreases s.len() - i,
{
    if i < s.len() {
        if separa(l, s[i]) {
            lema_partes_em(s, i + 1, i + 1, l);
            let r = partes_em(s, i + 1, i + 1, l);
            let t = partes_em(s, i, de, l);
            assert(t =~= seq![s.subrange(de, i)] + r);
            assert forall|k: int| 0 <= k < t.len() implies (#[trigger] t[k]).len() <= s.len() by {
                if k > 0 {
                    assert(t[k] == r[k - 1]);
                } else {
                    assert(t[k] == s.subrange(de, i));
                }
            }
        } else {
            lema_partes_em(s, i + 1, de, depois(l, s[i]));
            assert(partes_em(s, i, de, l) == partes_em(s, i + 1, de, depois(l, s[i])));
        }
    } else {
        let t = partes_em(s, i, de, l);
        assert(t =~= seq![s.skip(de)]);
        assert forall|k: int| 0 <= k < t.len() implies (#[trigger] t[k]).len() <= s.len() by {
            assert(t[k] == s.skip(de));
        }
    }
}

/// Nenhuma parte e maior do que o todo.
pub proof fn lema_partes(s: Seq<char>)
    ensures
        forall|k: int| 0 <= k < partes(s).len() ==> (#[trigger] partes(s)[k]).len() <= s.len(),
{
    lema_partes_em(s, 0, 0, comeco());
}

/// A posicao dos dois pontos de fora das aspas.
pub open spec fn dois_pontos(s: Seq<char>, i: int, l: Lugar) -> Option<int>
    decreases s.len() - i,
{
    if i < 0 || i >= s.len() {
        None
    } else if !l.barra && !l.aspas && s[i] == ':' {
        Some(i)
    } else {
        dois_pontos(s, i + 1, depois(l, s[i]))
    }
}

proof fn lema_dois_pontos(s: Seq<char>, i: int, l: Lugar)
    requires
        0 <= i,
    ensures
        dois_pontos(s, i, l) matches Some(p) ==> i <= p < s.len(),
    decreases s.len() - i,
{
    if i < s.len() && !(!l.barra && !l.aspas && s[i] == ':') {
        lema_dois_pontos(s, i + 1, depois(l, s[i]));
    }
}

/// Quantos bytes um caractere ocupa.
pub open spec fn largura(c: char) -> int {
    if (c as int) < 0x80 {
        1
    } else if (c as int) < 0x800 {
        2
    } else if (c as int) < 0x10000 {
        3
    } else {
        4
    }
}

/// Quantos bytes os primeiros `n` caracteres ocupam.
pub open spec fn bytes_ate(s: Seq<char>, n: int) -> int
    decreases n,
{
    if n <= 0 || n > s.len() {
        0
    } else {
        bytes_ate(s, n - 1) + largura(s[n - 1])
    }
}

/// Quantos caracteres, a partir de `n`, sao precisos para ocupar quarenta bytes ou acabar o texto.
pub open spec fn corte(s: Seq<char>, n: int) -> int
    decreases s.len() - n,
{
    if n < 0 || n >= s.len() || bytes_ate(s, n) >= 40 {
        n
    } else {
        corte(s, n + 1)
    }
}

// ---- Leitura: valores -------------------------------------------------------------------

/// O que se leu: um valor, uma falha, nada que caiba, ou um numero com ponto que falta saber.
#[derive(Debug)]
pub enum Lido {
    Pronto(Valor),
    Falha(String),
    Panico,
    Falta(String),
}

/// O que se leu, visto.
pub ghost enum LidoVisto {
    Pronto(valor::Dado),
    Falha(Seq<char>),
    Panico,
    Falta(Seq<char>),
}

impl Lido {
    pub open spec fn view(&self) -> LidoVisto {
        match self {
            Lido::Pronto(v) => LidoVisto::Pronto(v@),
            Lido::Falha(m) => LidoVisto::Falha(m@),
            Lido::Panico => LidoVisto::Panico,
            Lido::Falta(t) => LidoVisto::Falta(t@),
        }
    }
}

/// Os numeros com ponto que ja se sabem; um lexema pode nao ser de numero nenhum.
pub type Numeros = Seq<(Seq<char>, Option<(u64, Seq<char>)>)>;

/// Os numeros que ja se sabem, vistos.
pub open spec fn numeros_vistos(v: Seq<(String, Option<Decimal>)>) -> Numeros {
    v.map_values(
        |p: (String, Option<Decimal>)|
            (
                p.0@,
                match p.1 {
                    Some(d) => Some((d.bits, d.texto@)),
                    None => None,
                },
            ),
    )
}

/// O que se sabe de um lexema a partir da posicao `i`.
pub open spec fn sabido(ns: Numeros, t: Seq<char>, i: int) -> Option<Option<(u64, Seq<char>)>>
    decreases ns.len() - i,
{
    if i < 0 || i >= ns.len() {
        None
    } else if ns[i].0 == t {
        Some(ns[i].1)
    } else {
        sabido(ns, t, i + 1)
    }
}

/// A falha de um texto que nao e JSON: mostra os seus primeiros quarenta bytes.
pub open spec fn invalido(t: Seq<char>) -> LidoVisto {
    let k = corte(t, 0);
    if bytes_ate(t, k) > 40 {
        LidoVisto::Panico
    } else {
        LidoVisto::Falha("JSON invalido: "@ + t.take(k))
    }
}

/// Se um texto tem ponto ou expoente.
pub open spec fn com_ponto(t: Seq<char>) -> bool {
    t.contains('.') || t.contains('e') || t.contains('E')
}

/// O numero de um texto.
pub open spec fn numero_lido(t: Seq<char>, ns: Numeros) -> LidoVisto {
    if com_ponto(t) {
        match sabido(ns, t, 0) {
            None => LidoVisto::Falta(t),
            Some(None) => invalido(t),
            Some(Some(d)) => LidoVisto::Pronto(valor::Dado::Numero(d.0, d.1)),
        }
    } else {
        match busca::lido_inteiro(t) {
            Some(n) => LidoVisto::Pronto(valor::Dado::Inteiro(n as i64)),
            None => invalido(t),
        }
    }
}

/// Se um texto se fecha com um caractere de um byte.
pub open spec fn fechado(t: Seq<char>) -> bool {
    t.len() >= 2 && largura(t.last()) == 1
}

/// O que um texto vale em JSON.
pub open spec fn json_lido(s: Seq<char>, ns: Numeros) -> LidoVisto
    decreases s.len(), 0nat,
{
    let t = texto::aparado(s);
    proof {
        lema_aparado(s);
    }
    if t.len() == 0 {
        LidoVisto::Falha("JSON vazio"@)
    } else if t == "null"@ {
        LidoVisto::Pronto(valor::Dado::Nulo)
    } else if t == "true"@ {
        LidoVisto::Pronto(valor::Dado::Booleano(true))
    } else if t == "false"@ {
        LidoVisto::Pronto(valor::Dado::Booleano(false))
    } else if t[0] == '"' {
        LidoVisto::Pronto(valor::Dado::Texto(texto_em(t, 1, Seq::empty())))
    } else if t[0] == '[' {
        if t == "[]"@ {
            LidoVisto::Pronto(valor::Dado::Lista(Seq::empty()))
        } else if !fechado(t) {
            LidoVisto::Panico
        } else {
            lista_lida(t.subrange(1, t.len() - 1), 0, Seq::empty(), ns)
        }
    } else if t[0] == '{' {
        if t == "{}"@ {
            LidoVisto::Pronto(valor::Dado::Mapa(Seq::empty()))
        } else if !fechado(t) {
            LidoVisto::Panico
        } else {
            mapa_lido(t.subrange(1, t.len() - 1), 0, Seq::empty(), ns)
        }
    } else {
        numero_lido(t, ns)
    }
}

/// A lista das partes de um texto a partir da `i`, depois do que ja esta em `acc`.
pub open spec fn lista_lida(x: Seq<char>, i: int, acc: Seq<valor::Dado>, ns: Numeros) -> LidoVisto
    decreases x.len(), (partes(x).len() - i + 1) as nat,
{
    let ps = partes(x);
    proof {
        lema_partes(x);
    }
    if i < 0 || i >= ps.len() {
        LidoVisto::Pronto(valor::Dado::Lista(acc))
    } else if texto::aparado(ps[i]).len() == 0 {
        lista_lida(x, i + 1, acc, ns)
    } else {
        match json_lido(ps[i], ns) {
            LidoVisto::Pronto(v) => lista_lida(x, i + 1, acc.push(v), ns),
            f => f,
        }
    }
}

/// O mapa das partes de um texto a partir da `i`, depois do que ja esta em `acc`.
pub open spec fn mapa_lido(x: Seq<char>, i: int, acc: valor::Escopo, ns: Numeros) -> LidoVisto
    decreases x.len(), (partes(x).len() - i + 1) as nat,
{
    let ps = partes(x);
    proof {
        lema_partes(x);
    }
    if i < 0 || i >= ps.len() {
        LidoVisto::Pronto(valor::Dado::Mapa(acc))
    } else {
        let par = texto::aparado(ps[i]);
        match dois_pontos(par, 0, comeco()) {
            None => mapa_lido(x, i + 1, acc, ns),
            Some(p) => match texto_lido(texto::aparado(par.take(p))) {
                None => LidoVisto::Falha("String JSON deve comecar com \""@),
                Some(k) => {
                    let v = par.skip(p + 1);
                    proof {
                        lema_menor(ps[i], p);
                    }
                    match json_lido(v, ns) {
                        LidoVisto::Pronto(d) => mapa_lido(x, i + 1, valor::com_valor(acc, k, d), ns),
                        f => f,
                    }
                },
            },
        }
    }
}

/// Um texto aparado nao cresce.
pub proof fn lema_aparado(s: Seq<char>)
    ensures
        texto::aparado(s).len() <= s.len(),
{
    texto::lema_inicio_util(s, 0);
    let t = texto::aparado_inicio(s);
    texto::lema_fim_util(t, t.len() as int);
    texto::lema_fim_util(s, s.len() as int);
}

/// O que vem depois dos dois pontos e menor do que o par.
pub proof fn lema_menor(s: Seq<char>, p: int)
    requires
        dois_pontos(texto::aparado(s), 0, comeco()) == Some(p),
    ensures
        texto::aparado(s).skip(p + 1).len() <= s.len(),
        0 <= p < texto::aparado(s).len(),
{
    lema_aparado(s);
    lema_dois_pontos(texto::aparado(s), 0, comeco());
}

// ---- Leitura: execucao ------------------------------------------------------------------

fn hex_de(c: char) -> (r: Option<u32>)
    ensures
        match r {
            Some(x) => valor_hex(c) == Some(x as int) && x < 16,
            None => valor_hex(c) is None,
        },
{
    let n = c as u32;
    if '0' <= c && c <= '9' {
        Some(n - 48)
    } else if 'A' <= c && c <= 'F' {
        Some(n - 55)
    } else if 'a' <= c && c <= 'f' {
        Some(n - 87)
    } else {
        None
    }
}

fn ler_codigo(s: &[char], i: usize) -> (r: Option<u32>)
    requires
        i <= s@.len(),
    ensures
        match r {
            Some(x) => codigo_em(s@, i as int) == Some(x as int) && x <= 0xFFFF,
            None => codigo_em(s@, i as int) is None,
        },
{
    if s.len() - i < 4 {
        return None;
    }
    let a = if s[i] == '+' {
        Some(0u32)
    } else {
        hex_de(s[i])
    };
    match (a, hex_de(s[i + 1]), hex_de(s[i + 2]), hex_de(s[i + 3])) {
        (Some(a), Some(b), Some(c), Some(d)) => Some(a * 4096 + b * 256 + c * 16 + d),
        _ => None,
    }
}

/// `char::from_u32`: o caractere de um codigo; os codigos de 0xD800 a 0xDFFF e os que passam de
/// 0x10FFFF nao sao de caracteres.
#[verifier::external_body]
fn caractere(n: u32) -> (r: Option<char>)
    ensures
        match r {
            Some(c) => c == (n as int) as char && n <= 0x10FFFF && !(0xD800 <= n <= 0xDFFF),
            None => 0xD800 <= n <= 0xDFFF || n > 0x10FFFF,
        },
{
    char::from_u32(n)
}

fn ler_texto(s: &[char]) -> (r: Vec<char>)
    requires
        s@.len() > 0,
    ensures
        r@ == texto_em(s@, 1, Seq::empty()),
{
    let n = s.len();
    let mut v: Vec<char> = Vec::new();
    let mut i: usize = 1;
    assert(v@ =~= Seq::empty());
    while i < n
        invariant
            i <= n,
            n == s@.len(),
            texto_em(s@, 1, Seq::empty()) == texto_em(s@, i as int, v@),
        decreases n - i,
    {
        let c = s[i];
        if c == '"' {
            return v;
        }
        if c == '\\' {
            if n - i < 2 {
                return v;
            }
            let d = s[i + 1];
            if d == 'u' {
                let k = ler_codigo(s, i + 2);
                let ghost antes = v@;
                if let Some(x) = k {
                    if let Some(y) = caractere(x) {
                        v.push(y);
                    }
                }
                assert(v@ =~= antes + caractere_de(codigo_em(s@, i + 2)));
                if n - i < 6 {
                    assert(texto_em(s@, i + 6, v@) == v@);
                    return v;
                }
                i += 6;
            } else {
                if d == '"' || d == '\\' || d == '/' {
                    v.push(d);
                } else if d == 'n' {
                    v.push('\n');
                } else if d == 'r' {
                    v.push('\r');
                } else if d == 't' {
                    v.push('\t');
                } else {
                    v.push('\\');
                    v.push(d);
                }
                i += 2;
            }
        } else {
            v.push(c);
            i += 1;
        }
    }
    v
}

struct Passeio {
    fundo: i128,
    aspas: bool,
    barra: bool,
}

impl Passeio {
    spec fn view(&self) -> Lugar {
        Lugar { fundo: self.fundo as int, aspas: self.aspas, barra: self.barra }
    }

    fn novo() -> (r: Self)
        ensures
            r@ == comeco(),
    {
        Passeio { fundo: 0, aspas: false, barra: false }
    }

    fn passar(&mut self, c: char)
        requires
            i128::MIN < old(self)@.fundo < i128::MAX,
        ensures
            final(self)@ == depois(old(self)@, c),
            final(self)@.fundo - 1 <= old(self)@.fundo <= final(self)@.fundo + 1,
    {
        if self.barra {
            self.barra = false;
        } else if self.aspas {
            if c == '\\' {
                self.barra = true;
            } else if c == '"' {
                self.aspas = false;
            }
        } else if c == '"' {
            self.aspas = true;
        } else if c == '{' || c == '[' {
            self.fundo = self.fundo + 1;
        } else if c == '}' || c == ']' {
            self.fundo = self.fundo - 1;
        }
    }
}

/// Os limites das partes.
spec fn cortes(s: Seq<char>, v: Seq<(usize, usize)>) -> Seq<Seq<char>> {
    v.map_values(|p: (usize, usize)| s.subrange(p.0 as int, p.1 as int))
}

fn separar(s: &[char]) -> (r: Vec<(usize, usize)>)
    ensures
        cortes(s@, r@) == partes(s@),
        forall|k: int| 0 <= k < r@.len() ==> (#[trigger] r@[k]).0 <= r@[k].1 <= s@.len(),
{
    let n = s.len();
    let mut v: Vec<(usize, usize)> = Vec::new();
    let mut l = Passeio::novo();
    let mut de: usize = 0;
    let mut i: usize = 0;
    assert(cortes(s@, v@) =~= Seq::empty());
    assert(partes(s@) =~= cortes(s@, v@) + partes_em(s@, 0, 0, l@));
    while i < n
        invariant
            de <= i <= n,
            n == s@.len(),
            -(i as int) <= l@.fundo <= i,
            partes(s@) == cortes(s@, v@) + partes_em(s@, i as int, de as int, l@),
            forall|k: int| 0 <= k < v@.len() ==> (#[trigger] v@[k]).0 <= v@[k].1 <= n,
        decreases n - i,
    {
        let c = s[i];
        if !l.barra && !l.aspas && l.fundo == 0 && c == ',' {
            let ghost antes = v@;
            v.push((de, i));
            assert(cortes(s@, v@) =~= cortes(s@, antes).push(s@.subrange(de as int, i as int)));
            assert(cortes(s@, antes) + (seq![s@.subrange(de as int, i as int)] + partes_em(s@, i + 1, i + 1, l@))
                =~= cortes(s@, v@) + partes_em(s@, i + 1, i + 1, l@));
            de = i + 1;
        } else {
            l.passar(c);
        }
        i += 1;
    }
    let ghost antes = v@;
    v.push((de, n));
    assert(s@.subrange(de as int, n as int) =~= s@.skip(de as int));
    assert(cortes(s@, v@) =~= cortes(s@, antes).push(s@.skip(de as int)));
    assert(cortes(s@, v@) =~= partes(s@));
    v
}

fn achar_dois_pontos(s: &[char]) -> (r: Option<usize>)
    ensures
        match r {
            Some(p) => dois_pontos(s@, 0, comeco()) == Some(p as int) && p < s@.len(),
            None => dois_pontos(s@, 0, comeco()) is None,
        },
{
    let n = s.len();
    let mut l = Passeio::novo();
    let mut i: usize = 0;
    while i < n
        invariant
            i <= n,
            n == s@.len(),
            -(i as int) <= l@.fundo <= i,
            dois_pontos(s@, 0, comeco()) == dois_pontos(s@, i as int, l@),
        decreases n - i,
    {
        let c = s[i];
        if !l.barra && !l.aspas && c == ':' {
            return Some(i);
        }
        l.passar(c);
        i += 1;
    }
    None
}

fn largura_de(c: char) -> (r: usize)
    ensures
        r == largura(c),
{
    let n = c as u32;
    if n < 0x80 {
        1
    } else if n < 0x800 {
        2
    } else if n < 0x10000 {
        3
    } else {
        4
    }
}

fn recusar(t: &[char]) -> (r: Lido)
    ensures
        r@ == invalido(t@),
{
    let n = t.len();
    let mut k: usize = 0;
    let mut b: usize = 0;
    while k < n && b < 40
        invariant
            k <= n,
            n == t@.len(),
            b == bytes_ate(t@, k as int),
            b < 44,
            corte(t@, 0) == corte(t@, k as int),
        decreases n - k,
    {
        b = b + largura_de(t[k]);
        k += 1;
    }
    if b > 40 {
        return Lido::Panico;
    }
    let p = vstd::slice::slice_subrange(t, 0, k);
    assert(p@ =~= t@.take(k as int));
    let mut m = "JSON invalido: ".to_owned();
    m.append(texto::de_caracteres(p).as_str());
    Lido::Falha(m)
}

fn tem(s: &[char], c: char) -> (r: bool)
    ensures
        r == s@.contains(c),
{
    let mut i: usize = 0;
    while i < s.len()
        invariant
            i <= s@.len(),
            forall|k: int| 0 <= k < i ==> #[trigger] s@[k] != c,
        decreases s@.len() - i,
    {
        if s[i] == c {
            assert(s@.contains(c));
            return true;
        }
        i += 1;
    }
    false
}

fn consultar(ns: &Vec<(String, Option<Decimal>)>, t: &str) -> (r: Option<usize>)
    ensures
        match r {
            Some(i) => i < ns@.len() && sabido(numeros_vistos(ns@), t@, 0) == Some(
                numeros_vistos(ns@)[i as int].1,
            ),
            None => sabido(numeros_vistos(ns@), t@, 0) is None,
        },
{
    let ghost v = numeros_vistos(ns@);
    let mut i: usize = 0;
    while i < ns.len()
        invariant
            i <= ns@.len(),
            v == numeros_vistos(ns@),
            sabido(v, t@, 0) == sabido(v, t@, i as int),
        decreases ns@.len() - i,
    {
        assert(v[i as int].0 == ns@[i as int].0@);
        if ns[i].0.as_str().eq(t) {
            return Some(i);
        }
        i += 1;
    }
    None
}

fn ler_numero(t: &[char], ns: &Vec<(String, Option<Decimal>)>) -> (r: Lido)
    ensures
        r@ == numero_lido(t@, numeros_vistos(ns@)),
{
    let s = texto::de_caracteres(t);
    if tem(t, '.') || tem(t, 'e') || tem(t, 'E') {
        match consultar(ns, s.as_str()) {
            None => Lido::Falta(s),
            Some(i) => match &ns[i].1 {
                Some(d) => Lido::Pronto(Valor::Numero(d.clone())),
                None => recusar(t),
            },
        }
    } else {
        match busca::ler_inteiro(s.as_str()) {
            Some(n) => Lido::Pronto(Valor::Inteiro(n)),
            None => recusar(t),
        }
    }
}

fn ler_lista(x: &[char], ns: &Vec<(String, Option<Decimal>)>) -> (r: Lido)
    ensures
        r@ == lista_lida(x@, 0, Seq::empty(), numeros_vistos(ns@)),
    decreases x@.len(), 1nat,
{
    proof {
        lema_partes(x@);
    }
    let ghost nv = numeros_vistos(ns@);
    let cs = separar(x);
    let mut v: Vec<Valor> = Vec::new();
    assert(valor::vistos(v@) =~= Seq::empty());
    let mut i: usize = 0;
    while i < cs.len()
        invariant
            i <= cs@.len(),
            nv == numeros_vistos(ns@),
            cortes(x@, cs@) == partes(x@),
            forall|k: int| 0 <= k < cs@.len() ==> (#[trigger] cs@[k]).0 <= cs@[k].1 <= x@.len(),
            forall|k: int| 0 <= k < partes(x@).len() ==> (#[trigger] partes(x@)[k]).len() <= x@.len(),
            lista_lida(x@, 0, Seq::empty(), nv) == lista_lida(x@, i as int, valor::vistos(v@), nv),
        decreases cs@.len() - i,
    {
        let (a, b) = cs[i];
        let p = vstd::slice::slice_subrange(x, a, b);
        assert(p@ == cortes(x@, cs@)[i as int]);
        assert(p@ == partes(x@)[i as int]);
        let t = texto::aparar(p);
        if t.len() > 0 {
            match json_ler(p, ns) {
                Lido::Pronto(d) => {
                    let ghost antes = v@;
                    let ghost dv = d@;
                    v.push(d);
                    assert(valor::vistos(v@) =~= valor::vistos(antes).push(dv));
                },
                f => return f,
            }
        }
        i += 1;
    }
    assert(partes(x@).len() == cs@.len());
    Lido::Pronto(Valor::Lista(v))
}

fn ler_mapa(x: &[char], ns: &Vec<(String, Option<Decimal>)>) -> (r: Lido)
    ensures
        r@ == mapa_lido(x@, 0, Seq::empty(), numeros_vistos(ns@)),
    decreases x@.len(), 1nat,
{
    proof {
        lema_partes(x@);
    }
    let ghost nv = numeros_vistos(ns@);
    let cs = separar(x);
    let mut m: Vec<(String, Valor)> = Vec::new();
    assert(valor::pares_vistos(m@) =~= Seq::empty());
    let mut i: usize = 0;
    while i < cs.len()
        invariant
            i <= cs@.len(),
            nv == numeros_vistos(ns@),
            cortes(x@, cs@) == partes(x@),
            forall|k: int| 0 <= k < cs@.len() ==> (#[trigger] cs@[k]).0 <= cs@[k].1 <= x@.len(),
            forall|k: int| 0 <= k < partes(x@).len() ==> (#[trigger] partes(x@)[k]).len() <= x@.len(),
            mapa_lido(x@, 0, Seq::empty(), nv) == mapa_lido(x@, i as int, valor::pares_vistos(m@), nv),
        decreases cs@.len() - i,
    {
        let (a, b) = cs[i];
        let p = vstd::slice::slice_subrange(x, a, b);
        assert(p@ == cortes(x@, cs@)[i as int]);
        assert(p@ == partes(x@)[i as int]);
        let par = texto::aparar(p);
        if let Some(q) = achar_dois_pontos(par) {
            proof {
                lema_menor(p@, q as int);
            }
            let k0 = vstd::slice::slice_subrange(par, 0, q);
            assert(k0@ =~= par@.take(q as int));
            let k = texto::aparar(k0);
            if k.len() == 0 || k[0] != '"' {
                return Lido::Falha("String JSON deve comecar com \"".to_owned());
            }
            let nome = ler_texto(k);
            let fim = par.len();
            let resto = vstd::slice::slice_subrange(par, q + 1, fim);
            assert(resto@ =~= par@.skip(q + 1));
            match json_ler(resto, ns) {
                Lido::Pronto(d) => {
                    guardar(&mut m, texto::de_caracteres(nome.as_slice()), d);
                },
                f => return f,
            }
        }
        i += 1;
    }
    assert(partes(x@).len() == cs@.len());
    Lido::Pronto(Valor::Mapa(m))
}

/// Le um valor. Um numero com ponto que falta em `ns` e pedido pelo que se escreve dele.
pub fn json_ler(s: &[char], ns: &Vec<(String, Option<Decimal>)>) -> (r: Lido)
    ensures
        r@ == json_lido(s@, numeros_vistos(ns@)),
    decreases s@.len(), 0nat,
{
    proof {
        lema_aparado(s@);
    }
    let t = texto::aparar(s);
    let n = t.len();
    if n == 0 {
        return Lido::Falha("JSON vazio".to_owned());
    }
    let tt = texto::de_caracteres(t);
    let ts = tt.as_str();
    if ts.eq("null") {
        return Lido::Pronto(Valor::Nulo);
    }
    if ts.eq("true") {
        return Lido::Pronto(Valor::Booleano(true));
    }
    if ts.eq("false") {
        return Lido::Pronto(Valor::Booleano(false));
    }
    let c = t[0];
    if c == '"' {
        let v = ler_texto(t);
        return Lido::Pronto(Valor::Texto(texto::de_caracteres(v.as_slice())));
    }
    if c == '[' || c == '{' {
        let vazio = if c == '[' {
            ts.eq("[]")
        } else {
            ts.eq("{}")
        };
        if vazio {
            if c == '[' {
                let v: Vec<Valor> = Vec::new();
                assert(valor::vistos(v@) =~= Seq::empty());
                return Lido::Pronto(Valor::Lista(v));
            }
            let m: Vec<(String, Valor)> = Vec::new();
            assert(valor::pares_vistos(m@) =~= Seq::empty());
            return Lido::Pronto(Valor::Mapa(m));
        }
        if n < 2 || largura_de(t[n - 1]) != 1 {
            return Lido::Panico;
        }
        let x = vstd::slice::slice_subrange(t, 1, n - 1);
        return if c == '[' {
            ler_lista(x, ns)
        } else {
            ler_mapa(x, ns)
        };
    }
    ler_numero(t, ns)
}

/// Le um valor de um texto.
pub fn json_deserializar_val(s: &str, ns: &Vec<(String, Option<Decimal>)>) -> (r: Lido)
    ensures
        r@ == json_lido(s@, numeros_vistos(ns@)),
{
    let v = texto::caracteres(s);
    json_ler(v.as_slice(), ns)
}

// ---- Leis -------------------------------------------------------------------------------

/// Como um caractere se escreve num texto ou numa chave.
pub open spec fn escrito(c: char, chave: bool) -> Seq<char> {
    if chave {
        escape_da_chave(c)
    } else {
        escape(c)
    }
}

/// O que se le do meio de um texto escrito entre aspas e o que falta dele.
pub proof fn lema_volta(s: Seq<char>, n: int, t: Seq<char>, acc: Seq<char>, chave: bool)
    requires
        0 <= n <= s.len(),
        t == entre_aspas(s, chave),
    ensures
        texto_em(t, 1 + escapado(s, n, chave).len() as int, acc) == acc + s.skip(n),
        1 + escapado(s, n, chave).len() < t.len(),
    decreases s.len() - n,
{
    let todo = escapado(s, s.len() as int, chave);
    lema_prefixo(s, n, chave);
    let p = escapado(s, n, chave);
    let k = 1 + p.len() as int;
    if n == s.len() {
        assert(t[k] == '"');
        assert(acc + s.skip(n) =~= acc);
    } else {
        lema_prefixo(s, n + 1, chave);
        let q = escapado(s, n + 1, chave);
        let e = escrito(s[n], chave);
        assert(q == p + e);
        lema_volta(s, n + 1, t, acc.push(s[n]), chave);
        assert(acc.push(s[n]) + s.skip(n + 1) =~= acc + s.skip(n));
        assert(t[k] == todo[k - 1] && todo[k - 1] == q[k - 1] && q[k - 1] == e[0]);
        if e.len() == 2 {
            assert(t[k + 1] == todo[k] && todo[k] == q[k] && q[k] == e[1]);
        }
    }
}

proof fn lema_prefixo(s: Seq<char>, n: int, chave: bool)
    requires
        0 <= n <= s.len(),
    ensures
        escapado(s, n, chave).len() <= escapado(s, s.len() as int, chave).len(),
        forall|i: int|
            0 <= i < escapado(s, n, chave).len() ==> #[trigger] escapado(s, s.len() as int, chave)[i] == escapado(
                s,
                n,
                chave,
            )[i],
    decreases s.len() - n,
{
    if n < s.len() {
        lema_prefixo(s, n + 1, chave);
        let p = escapado(s, n, chave);
        let q = escapado(s, n + 1, chave);
        assert(q == p + escrito(s[n], chave));
        assert forall|i: int| 0 <= i < p.len() implies #[trigger] escapado(s, s.len() as int, chave)[i] == p[i] by {
            assert(q[i] == p[i]);
        }
    }
}

/// Um texto escrito em JSON e lido e o mesmo texto.
pub proof fn lei_json_texto(s: Seq<char>, ns: Numeros)
    ensures
        json_lido(json_de(valor::Dado::Texto(s)), ns) == LidoVisto::Pronto(valor::Dado::Texto(s)),
{
    let t = entre_aspas(s, false);
    assert(t[0] == '"' && t.last() == '"');
    assert(!texto::espaco('"'));
    texto::lema_inicio_util(t, 0);
    assert(texto::inicio_util(t, 0) == 0);
    assert(texto::aparado_inicio(t) =~= t);
    assert(texto::fim_util(t, t.len() as int) == t.len());
    assert(texto::aparado(t) =~= t);
    reveal_strlit("null");
    reveal_strlit("true");
    reveal_strlit("false");
    assert("null"@[0] == 'n' && "true"@[0] == 't' && "false"@[0] == 'f');
    lema_volta(s, 0, t, Seq::empty(), false);
    assert(Seq::<char>::empty() + s.skip(0) =~= s);
    assert(escapado(s, 0, false).len() == 0);
}

} // verus!
