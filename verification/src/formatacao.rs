//! Textos com lacunas preenchidas por um mapa, e numeros escritos com pontos e virgula.

use vstd::prelude::*;
use crate::busca;
use crate::texto;
use crate::valor::{achar_chave, Valor};
use crate::valor;

verus! {

// ---- Lacunas ----------------------------------------------------------------------------

/// Os textos com casas decimais que ja se sabem: o texto, as casas e o que se escreve.
pub type Sabidos = Seq<(Seq<char>, usize, Seq<char>)>;

/// Os textos que ja se sabem, vistos.
pub open spec fn sabidos_vistos(v: Seq<(String, usize, String)>) -> Sabidos {
    v.map_values(|p: (String, usize, String)| (p.0@, p.1, p.2@))
}

/// O que se escreve de um texto com casas decimais.
pub open spec fn sabido(ps: Sabidos, t: Seq<char>, n: usize, i: int) -> Option<Seq<char>>
    decreases ps.len() - i,
{
    if i < 0 || i >= ps.len() {
        None
    } else if ps[i].0 == t && ps[i].1 == n {
        Some(ps[i].2)
    } else {
        sabido(ps, t, n, i + 1)
    }
}

/// O que se escreveu, ou o texto e as casas que falta saber escrever.
#[derive(Debug)]
pub enum Escrito {
    Pronto(String),
    Falta(String, usize),
}

/// O que se escreveu, visto.
pub ghost enum EscritoVisto {
    Pronto(Seq<char>),
    Falta(Seq<char>, usize),
}

impl Escrito {
    pub open spec fn view(&self) -> EscritoVisto {
        match self {
            Escrito::Pronto(s) => EscritoVisto::Pronto(s@),
            Escrito::Falta(s, n) => EscritoVisto::Falta(s@, *n),
        }
    }
}

/// `n` espacos.
pub open spec fn espacos(n: int) -> Seq<char> {
    Seq::new(
        if n > 0 {
            n as nat
        } else {
            0
        },
        |i: int| ' ',
    )
}

/// O natural de um texto, ou outro se ele nao e um.
pub open spec fn natural_ou(s: Seq<char>, outro: usize) -> usize {
    match busca::lido_natural(s, usize::MAX as nat) {
        Some(n) => n as usize,
        None => outro,
    }
}

/// O texto sem os `c` do fim.
pub open spec fn sem_fim(s: Seq<char>, c: char) -> Seq<char>
    decreases s.len(),
{
    if s.len() > 0 && s.last() == c {
        sem_fim(s.drop_last(), c)
    } else {
        s
    }
}

/// Um texto com a forma que uma lacuna pede: `>n` e `<n` dao a largura, e `.n` as casas.
pub open spec fn com_forma(t: Seq<char>, f: Seq<char>, ps: Sabidos) -> EscritoVisto {
    if f.len() > 0 && f[0] == '>' {
        EscritoVisto::Pronto(espacos(natural_ou(f.skip(1), 0) - t.len()) + t)
    } else if f.len() > 0 && f[0] == '<' {
        EscritoVisto::Pronto(t + espacos(natural_ou(f.skip(1), 0) - t.len()))
    } else if f.len() > 0 && f[0] == '.' {
        let n = natural_ou(sem_fim(f.skip(1), 'f'), 2);
        match sabido(ps, t, n, 0) {
            Some(r) => EscritoVisto::Pronto(r),
            None => EscritoVisto::Falta(t, n),
        }
    } else {
        EscritoVisto::Pronto(t)
    }
}

/// O texto do valor de uma chave; o que falta vale nulo.
pub open spec fn texto_da_chave(m: valor::Escopo, k: Seq<char>) -> Seq<char> {
    valor::texto_de(
        match valor::valor_de(m, k) {
            Some(v) => v,
            None => valor::Dado::Nulo,
        },
    )
}

/// O que uma lacuna vale.
pub open spec fn lacuna(x: Seq<char>, m: valor::Escopo, ps: Sabidos) -> EscritoVisto {
    match busca::duas_partes(x, ':') {
        Some((k, f)) => com_forma(texto_da_chave(m, texto::aparado(k)), texto::aparado(f), ps),
        None => EscritoVisto::Pronto(texto_da_chave(m, texto::aparado(x))),
    }
}

/// O padrao preenchido a partir de `i`, depois do que ja esta em `acc`.
pub open spec fn preenchido(p: Seq<char>, i: int, acc: Seq<char>, m: valor::Escopo, ps: Sabidos) -> EscritoVisto
    decreases p.len() + 1 - i,
{
    if i < 0 || i >= p.len() {
        EscritoVisto::Pronto(acc)
    } else if p[i] == '{' {
        if i + 1 < p.len() && p[i + 1] == '{' {
            preenchido(p, i + 2, acc.push('{'), m, ps)
        } else {
            let f = texto::proximo(p, '}', i + 1);
            proof {
                texto::lema_proximo(p, '}', i + 1);
            }
            match lacuna(p.subrange(i + 1, f), m, ps) {
                EscritoVisto::Pronto(t) => preenchido(p, f + 1, acc + t, m, ps),
                e => e,
            }
        }
    } else if p[i] == '}' && i + 1 < p.len() && p[i + 1] == '}' {
        preenchido(p, i + 2, acc.push('}'), m, ps)
    } else {
        preenchido(p, i + 1, acc.push(p[i]), m, ps)
    }
}

fn ler_ou(s: &[char], outro: usize) -> (r: usize)
    ensures
        r == natural_ou(s@, outro),
{
    let t = texto::de_caracteres(s);
    match busca::ler_natural(t.as_str(), usize::MAX as u64) {
        Some(n) => n as usize,
        None => outro,
    }
}

fn tirar_fim(s: &[char], c: char) -> (r: &[char])
    ensures
        r@ == sem_fim(s@, c),
{
    let mut n: usize = s.len();
    assert(s@.take(n as int) =~= s@);
    while n > 0 && s[n - 1] == c
        invariant
            n <= s@.len(),
            sem_fim(s@, c) == sem_fim(s@.take(n as int), c),
        decreases n,
    {
        assert(s@.take(n as int).last() == s@[n - 1]);
        assert(s@.take(n as int).drop_last() =~= s@.take(n - 1));
        n -= 1;
    }
    proof {
        if n > 0 {
            assert(s@.take(n as int).last() == s@[n - 1]);
        }
    }
    let r = vstd::slice::slice_subrange(s, 0, n);
    assert(r@ =~= s@.take(n as int));
    r
}

fn fazer_espacos(total: usize, usado: usize) -> (r: String)
    ensures
        r@ == espacos(total - usado),
{
    let mut v: Vec<char> = Vec::new();
    if total > usado {
        let n = total - usado;
        let mut i: usize = 0;
        while i < n
            invariant
                i <= n,
                v@.len() == i,
                forall|j: int| 0 <= j < i ==> #[trigger] v@[j] == ' ',
            decreases n - i,
        {
            v.push(' ');
            i += 1;
        }
    }
    assert(v@ =~= espacos(total - usado));
    texto::de_caracteres(v.as_slice())
}

fn consultar(ps: &Vec<(String, usize, String)>, t: &str, n: usize) -> (r: Option<String>)
    ensures
        match r {
            Some(x) => sabido(sabidos_vistos(ps@), t@, n, 0) == Some(x@),
            None => sabido(sabidos_vistos(ps@), t@, n, 0) is None,
        },
{
    let ghost v = sabidos_vistos(ps@);
    let mut i: usize = 0;
    while i < ps.len()
        invariant
            i <= ps@.len(),
            v == sabidos_vistos(ps@),
            sabido(v, t@, n, 0) == sabido(v, t@, n, i as int),
        decreases ps@.len() - i,
    {
        assert(v[i as int] == (ps@[i as int].0@, ps@[i as int].1, ps@[i as int].2@));
        if ps[i].0.as_str().eq(t) && ps[i].1 == n {
            return Some(ps[i].2.clone());
        }
        i += 1;
    }
    None
}

fn dar_forma(t: String, f: &[char], ps: &Vec<(String, usize, String)>) -> (r: Escrito)
    ensures
        r@ == com_forma(t@, f@, sabidos_vistos(ps@)),
{
    if f.len() == 0 {
        return Escrito::Pronto(t);
    }
    let c = f[0];
    let resto = vstd::slice::slice_subrange(f, 1, f.len());
    assert(resto@ =~= f@.skip(1));
    if c == '>' || c == '<' {
        let n = ler_ou(resto, 0);
        let cs = texto::caracteres(t.as_str());
        let e = fazer_espacos(n, cs.len());
        let mut r = String::new();
        if c == '>' {
            r.append(e.as_str());
            r.append(t.as_str());
            assert(r@ =~= e@ + t@);
        } else {
            r.append(t.as_str());
            r.append(e.as_str());
            assert(r@ =~= t@ + e@);
        }
        Escrito::Pronto(r)
    } else if c == '.' {
        let n = ler_ou(tirar_fim(resto, 'f'), 2);
        match consultar(ps, t.as_str(), n) {
            Some(x) => Escrito::Pronto(x),
            None => Escrito::Falta(t, n),
        }
    } else {
        Escrito::Pronto(t)
    }
}

fn escrever_chave(m: &Vec<(String, Valor)>, k: &str) -> (r: String)
    ensures
        r@ == texto_da_chave(valor::pares_vistos(m@), k@),
{
    match achar_chave(m, k) {
        Some(i) => {
            assert(valor::pares_vistos(m@)[i as int].1 == m@[i as int].1@);
            m[i].1.texto()
        },
        None => Valor::Nulo.texto(),
    }
}

fn preencher_lacuna(x: &str, m: &Vec<(String, Valor)>, ps: &Vec<(String, usize, String)>) -> (r: Escrito)
    ensures
        r@ == lacuna(x@, valor::pares_vistos(m@), sabidos_vistos(ps@)),
{
    match busca::partir(x, ':') {
        Some((k, f)) => {
            let nome = busca::aparar_texto(k.as_str());
            let t = escrever_chave(m, nome.as_str());
            let fs = texto::caracteres(f.as_str());
            dar_forma(t, texto::aparar(&fs), ps)
        },
        None => {
            let nome = busca::aparar_texto(x);
            Escrito::Pronto(escrever_chave(m, nome.as_str()))
        },
    }
}

/// Preenche as lacunas de um padrao.
pub fn formatar_padrao(
    padrao: &str,
    mapa: &Vec<(String, Valor)>,
    ps: &Vec<(String, usize, String)>,
) -> (r: Escrito)
    ensures
        r@ == preenchido(padrao@, 0, Seq::empty(), valor::pares_vistos(mapa@), sabidos_vistos(ps@)),
{
    let ghost mv = valor::pares_vistos(mapa@);
    let ghost sv = sabidos_vistos(ps@);
    let p = texto::caracteres(padrao);
    let n = p.len();
    let mut v = String::new();
    let mut i: usize = 0;
    assert(v@ =~= Seq::empty());
    while i < n
        invariant
            i <= n,
            n == p@.len(),
            p@ == padrao@,
            mv == valor::pares_vistos(mapa@),
            sv == sabidos_vistos(ps@),
            preenchido(p@, 0, Seq::empty(), mv, sv) == preenchido(p@, i as int, v@, mv, sv),
        decreases n - i,
    {
        let c = p[i];
        let dobrado = n - i > 1 && p[i + 1] == c;
        let ghost antes = v@;
        if (c == '{' || c == '}') && dobrado {
            v.append(crate::operacoes::uma_letra(c).as_str());
            assert(v@ =~= antes.push(c));
            i += 2;
        } else if c == '{' {
            proof {
                texto::lema_proximo(p@, '}', i + 1);
            }
            let f = texto::achar(&p, '}', i + 1);
            let x = texto::de_caracteres(vstd::slice::slice_subrange(p.as_slice(), i + 1, f));
            assert(x@ == p@.subrange(i + 1, f as int));
            match preencher_lacuna(x.as_str(), mapa, ps) {
                Escrito::Pronto(t) => {
                    v.append(t.as_str());
                    assert(v@ =~= antes + t@);
                },
                e => return e,
            }
            if f < n {
                i = f + 1;
            } else {
                assert(preenchido(p@, f + 1, v@, mv, sv) == EscritoVisto::Pronto(v@));
                i = n;
            }
        } else {
            v.append(crate::operacoes::uma_letra(c).as_str());
            assert(v@ =~= antes.push(c));
            i += 1;
        }
    }
    Escrito::Pronto(v)
}

// ---- Numeros ----------------------------------------------------------------------------

/// Os algarismos com um ponto a cada tres, a contar do fim.
pub open spec fn agrupado(s: Seq<char>) -> Seq<char>
    decreases s.len(),
{
    if s.len() <= 3 {
        s
    } else {
        agrupado(s.take(s.len() - 3)) + seq!['.'] + s.skip(s.len() - 3)
    }
}

/// Um numero como se escreve: um sinal, os algarismos agrupados, e as casas depois da virgula.
pub open spec fn numero_br(base: Seq<char>, negativo: bool, casas: nat) -> Seq<char> {
    let (inteiro, resto) = match busca::duas_partes(base, '.') {
        Some(p) => p,
        None => (base, Seq::empty()),
    };
    (if negativo {
        "-"@
    } else {
        ""@
    }) + agrupado(inteiro) + (if casas == 0 {
        ""@
    } else {
        ","@ + resto
    })
}

fn agrupar(s: &[char]) -> (r: Vec<char>)
    ensures
        r@ == agrupado(s@),
    decreases s@.len(),
{
    let n = s.len();
    if n <= 3 {
        let mut v: Vec<char> = Vec::new();
        let mut i: usize = 0;
        while i < n
            invariant
                i <= n,
                n == s@.len(),
                v@ == s@.take(i as int),
            decreases n - i,
        {
            v.push(s[i]);
            assert(v@ =~= s@.take(i + 1));
            i += 1;
        }
        assert(v@ =~= s@);
        return v;
    }
    let a = vstd::slice::slice_subrange(s, 0, n - 3);
    assert(a@ =~= s@.take(n - 3));
    let mut v = agrupar(a);
    let ghost g = v@;
    v.push('.');
    v.push(s[n - 3]);
    v.push(s[n - 2]);
    v.push(s[n - 1]);
    assert(v@ =~= g + seq!['.'] + s@.skip(n - 3));
    v
}

/// Escreve um numero a partir dos seus algarismos, sem sinal e com ponto.
pub fn formatar_numero_br(base: &str, negativo: bool, casas: usize) -> (r: String)
    ensures
        r@ == numero_br(base@, negativo, casas as nat),
{
    let (inteiro, resto) = match busca::partir(base, '.') {
        Some(p) => p,
        None => {
            let vazio = String::new();
            assert(vazio@ =~= Seq::empty());
            (base.to_owned(), vazio)
        },
    };
    let mut r = String::new();
    proof {
        reveal_strlit("");
    }
    if negativo {
        r.append("-");
    }
    let cs = texto::caracteres(inteiro.as_str());
    let g = agrupar(cs.as_slice());
    r.append(texto::de_caracteres(g.as_slice()).as_str());
    if casas != 0 {
        r.append(",");
        r.append(resto.as_str());
    }
    assert(r@ =~= numero_br(base@, negativo, casas as nat));
    r
}

} // verus!
