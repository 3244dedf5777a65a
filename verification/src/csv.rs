//! Tabelas em texto: campos separados por virgulas, uma linha por linha da tabela.

use vstd::prelude::*;
use crate::busca;
use crate::nativas_textos::escrever_itens;
use crate::nativas_textos;
use crate::nativas_valores::textos_em_valores;
use crate::nativas_valores;
use crate::texto;
use crate::valor::Valor;
use crate::valor;

verus! {

// ---- Leitura ----------------------------------------------------------------------------

/// Se um caractere acaba uma linha.
pub open spec fn quebra(c: char) -> bool {
    c == '\n' || c == '\r'
}

/// O que ha entre aspas a partir de `i`, depois do que ja esta em `acc`, e onde se fica; duas
/// aspas valem uma.
pub open spec fn entre_aspas(s: Seq<char>, i: int, acc: Seq<char>) -> (Seq<char>, int)
    decreases s.len() - i,
{
    if i < 0 || i >= s.len() {
        (acc, i)
    } else if s[i] == '"' {
        if i + 1 < s.len() && s[i + 1] == '"' {
            entre_aspas(s, i + 2, acc.push('"'))
        } else {
            (acc, i + 1)
        }
    } else {
        entre_aspas(s, i + 1, acc.push(s[i]))
    }
}

/// Onde acaba um campo sem aspas.
pub open spec fn fim_do_campo(s: Seq<char>, i: int) -> int
    decreases s.len() - i,
{
    if i < 0 || i >= s.len() || s[i] == ',' || quebra(s[i]) {
        i
    } else {
        fim_do_campo(s, i + 1)
    }
}

/// O campo da posicao `i`, e onde se fica.
pub open spec fn campo_em(s: Seq<char>, i: int) -> (Seq<char>, int) {
    if 0 <= i < s.len() && s[i] == '"' {
        entre_aspas(s, i + 1, Seq::empty())
    } else {
        (s.subrange(i, fim_do_campo(s, i)), fim_do_campo(s, i))
    }
}

proof fn lema_entre_aspas(s: Seq<char>, i: int, acc: Seq<char>)
    requires
        0 <= i <= s.len(),
    ensures
        i <= entre_aspas(s, i, acc).1 <= s.len(),
    decreases s.len() - i,
{
    if i < s.len() {
        if s[i] == '"' {
            if i + 1 < s.len() && s[i + 1] == '"' {
                lema_entre_aspas(s, i + 2, acc.push('"'));
            }
        } else {
            lema_entre_aspas(s, i + 1, acc.push(s[i]));
        }
    }
}

proof fn lema_fim_do_campo(s: Seq<char>, i: int)
    requires
        0 <= i <= s.len(),
    ensures
        i <= fim_do_campo(s, i) <= s.len(),
    decreases s.len() - i,
{
    if i < s.len() && s[i] != ',' && !quebra(s[i]) {
        lema_fim_do_campo(s, i + 1);
    }
}

/// Um campo nao acaba antes de comecar.
pub proof fn lema_campo(s: Seq<char>, i: int)
    requires
        0 <= i <= s.len(),
    ensures
        i <= campo_em(s, i).1 <= s.len(),
{
    if i < s.len() && s[i] == '"' {
        lema_entre_aspas(s, i + 1, Seq::empty());
    } else {
        lema_fim_do_campo(s, i);
    }
}

/// Os campos da linha que passa por `i`, depois dos que ja estao em `acc`, e onde se fica.
pub open spec fn linha_em(s: Seq<char>, i: int, acc: Seq<Seq<char>>) -> (Seq<Seq<char>>, int)
    decreases s.len() + 1 - i,
{
    if i < 0 || i > s.len() {
        (acc, i)
    } else {
        proof {
            lema_campo(s, i);
        }
        let (f, p) = campo_em(s, i);
        if p >= s.len() || quebra(s[p]) {
            (acc.push(f), p)
        } else {
            linha_em(s, p + 1, acc.push(f))
        }
    }
}

/// Uma linha nao acaba antes de comecar, e acaba no fim ou numa quebra.
pub proof fn lema_linha(s: Seq<char>, i: int, acc: Seq<Seq<char>>)
    requires
        0 <= i <= s.len(),
    ensures
        i <= linha_em(s, i, acc).1 <= s.len(),
        linha_em(s, i, acc).1 < s.len() ==> quebra(s[linha_em(s, i, acc).1]),
        linha_em(s, i, acc).0.len() > acc.len(),
    decreases s.len() + 1 - i,
{
    lema_campo(s, i);
    let (f, p) = campo_em(s, i);
    if p < s.len() && !quebra(s[p]) {
        lema_linha(s, p + 1, acc.push(f));
    }
}

/// Onde comeca a linha seguinte.
pub open spec fn depois_da_quebra(s: Seq<char>, p: int) -> int {
    let q = if 0 <= p < s.len() && s[p] == '\r' {
        p + 1
    } else {
        p
    };
    if 0 <= q < s.len() && s[q] == '\n' {
        q + 1
    } else {
        q
    }
}

/// As linhas a partir de `i`, depois das que ja estao em `acc`. A ultima nao conta se e um campo
/// vazio.
pub open spec fn linhas_em(s: Seq<char>, i: int, acc: Seq<Seq<Seq<char>>>) -> Seq<Seq<Seq<char>>>
    decreases s.len() + 1 - i,
{
    if i < 0 || i > s.len() {
        acc
    } else {
        proof {
            lema_linha(s, i, Seq::empty());
        }
        let (l, p) = linha_em(s, i, Seq::empty());
        let q = depois_da_quebra(s, p);
        if q >= s.len() {
            if l.len() == 1 && l[0].len() == 0 {
                acc
            } else {
                acc.push(l)
            }
        } else {
            linhas_em(s, q, acc.push(l))
        }
    }
}

/// O texto sem a marca de ordem dos bytes.
pub open spec fn sem_marca(s: Seq<char>) -> Seq<char> {
    if s.len() > 0 && s[0] == '\u{FEFF}' {
        s.skip(1)
    } else {
        s
    }
}

/// As linhas de uma tabela.
pub open spec fn tabela(s: Seq<char>) -> Seq<Seq<Seq<char>>> {
    linhas_em(sem_marca(s), 0, Seq::empty())
}

/// As linhas de uma tabela, como listas.
pub open spec fn em_listas(t: Seq<Seq<Seq<char>>>) -> Seq<valor::Dado> {
    t.map_values(|l: Seq<Seq<char>>| valor::Dado::Lista(nativas_valores::em_valores(l)))
}

fn ler_campo(s: &[char], i: usize) -> (r: (Vec<char>, usize))
    requires
        i <= s@.len(),
    ensures
        (r.0@, r.1 as int) == campo_em(s@, i as int),
        i <= r.1 <= s@.len(),
{
    let n = s.len();
    let mut v: Vec<char> = Vec::new();
    proof {
        lema_campo(s@, i as int);
    }
    if i < n && s[i] == '"' {
        let ghost tudo = entre_aspas(s@, i + 1, Seq::empty());
        let mut p: usize = i + 1;
        assert(v@ =~= Seq::empty());
        while p < n
            invariant
                i < p <= n,
                n == s@.len(),
                tudo == entre_aspas(s@, p as int, v@),
                tudo.1 <= n,
                tudo == campo_em(s@, i as int),
            decreases n - p,
        {
            if s[p] == '"' {
                if n - p > 1 && s[p + 1] == '"' {
                    v.push('"');
                    p += 2;
                } else {
                    return (v, p + 1);
                }
            } else {
                v.push(s[p]);
                p += 1;
            }
        }
        (v, p)
    } else {
        let mut p: usize = i;
        assert(v@ =~= s@.subrange(i as int, i as int));
        while p < n && s[p] != ',' && s[p] != '\n' && s[p] != '\r'
            invariant
                i <= p <= n,
                n == s@.len(),
                v@ == s@.subrange(i as int, p as int),
                fim_do_campo(s@, i as int) == fim_do_campo(s@, p as int),
            decreases n - p,
        {
            v.push(s[p]);
            assert(v@ =~= s@.subrange(i as int, p + 1));
            p += 1;
        }
        (v, p)
    }
}

fn ler_linha(s: &[char], i: usize) -> (r: (Vec<String>, usize))
    requires
        i <= s@.len(),
    ensures
        (texto::textos(r.0@), r.1 as int) == linha_em(s@, i as int, Seq::empty()),
        i <= r.1 <= s@.len(),
        r.1 < s@.len() ==> quebra(s@[r.1 as int]),
{
    proof {
        lema_linha(s@, i as int, Seq::empty());
    }
    let ghost tudo = linha_em(s@, i as int, Seq::empty());
    let n = s.len();
    let mut v: Vec<String> = Vec::new();
    let mut p: usize = i;
    assert(texto::textos(v@) =~= Seq::empty());
    loop
        invariant
            i <= p <= n,
            n == s@.len(),
            tudo == linha_em(s@, p as int, texto::textos(v@)),
            tudo == linha_em(s@, i as int, Seq::empty()),
            i <= tudo.1 <= n,
            tudo.1 < n ==> quebra(s@[tudo.1]),
        decreases n + 1 - p,
    {
        let (f, q) = ler_campo(s, p);
        let ghost antes = v@;
        v.push(texto::de_caracteres(f.as_slice()));
        assert(texto::textos(v@) =~= texto::textos(antes).push(f@));
        if q >= n || s[q] == '\n' || s[q] == '\r' {
            return (v, q);
        }
        p = q + 1;
    }
}

/// Le as linhas de uma tabela.
pub fn ler_tabela(texto_csv: &str) -> (r: Vec<Vec<String>>)
    ensures
        r@.map_values(|l: Vec<String>| texto::textos(l@)) == tabela(texto_csv@),
{
    let tudo = texto::caracteres(texto_csv);
    let de: usize = if tudo.len() > 0 && tudo[0] == '\u{FEFF}' {
        1
    } else {
        0
    };
    let s = vstd::slice::slice_subrange(tudo.as_slice(), de, tudo.len());
    assert(s@ =~= sem_marca(texto_csv@));
    let n = s.len();
    let mut v: Vec<Vec<String>> = Vec::new();
    let ghost f = |l: Vec<String>| texto::textos(l@);
    assert(v@.map_values(f) =~= Seq::empty());
    let mut p: usize = 0;
    loop
        invariant
            p <= n,
            n == s@.len(),
            f == (|l: Vec<String>| texto::textos(l@)),
            linhas_em(s@, 0, Seq::empty()) == linhas_em(s@, p as int, v@.map_values(f)),
            s@ == sem_marca(texto_csv@),
        decreases n + 1 - p,
    {
        let (l, mut q) = ler_linha(s, p);
        let ghost lv = texto::textos(l@);
        let ghost p1 = q as int;
        if q < n && s[q] == '\r' {
            q += 1;
        }
        if q < n && s[q] == '\n' {
            q += 1;
        }
        assert(q == depois_da_quebra(s@, p1));
        assert(lv.len() == l@.len());
        let ghost antes = v@;
        if q >= n {
            if l.len() == 1 {
                assert(lv[0] == l@[0]@);
                let cs = texto::caracteres(l[0].as_str());
                if cs.len() == 0 {
                    return v;
                }
            }
            v.push(l);
            assert(v@.map_values(f) =~= antes.map_values(f).push(lv));
            return v;
        }
        v.push(l);
        assert(v@.map_values(f) =~= antes.map_values(f).push(lv));
        p = q;
    }
}

/// Le uma tabela, cada linha uma lista de textos.
pub fn csv_parsear_texto(s: &str) -> (r: Vec<Valor>)
    ensures
        valor::vistos(r@) == em_listas(tabela(s@)),
{
    let t = ler_tabela(s);
    let ghost f = |l: Vec<String>| texto::textos(l@);
    let ghost tv = t@.map_values(f);
    let mut t = t;
    let mut r: Vec<Valor> = Vec::new();
    let mut i: usize = 0;
    while i < t.len()
        invariant
            i <= t@.len(),
            tv == tabela(s@),
            tv.len() == t@.len(),
            r@.len() == i,
            forall|k: int| i <= k < t@.len() ==> texto::textos((#[trigger] t@[k])@) == tv[k],
            forall|k: int|
                0 <= k < i ==> (#[trigger] r@[k])@ == valor::Dado::Lista(nativas_valores::em_valores(tv[k])),
        decreases t@.len() - i,
    {
        let mut l: Vec<String> = Vec::new();
        assert(texto::textos(t@[i as int]@) == tv[i as int]);
        std::mem::swap(&mut t[i], &mut l);
        r.push(Valor::Lista(textos_em_valores(l)));
        i += 1;
    }
    assert(valor::vistos(r@) =~= em_listas(tabela(s@)));
    r
}

// ---- Escrita ----------------------------------------------------------------------------

/// Se um campo so cabe entre aspas.
pub open spec fn quer_aspas(s: Seq<char>) -> bool {
    s.contains(',') || s.contains('"') || s.contains('\n') || s.contains('\r')
}

/// Um campo escrito.
pub open spec fn campo_escrito(s: Seq<char>) -> Seq<char> {
    if quer_aspas(s) {
        seq!['"'] + busca::trocado(s, '"', "\"\""@) + seq!['"']
    } else {
        s
    }
}

/// Os campos escritos.
pub open spec fn campos_escritos(l: Seq<Seq<char>>) -> Seq<Seq<char>> {
    l.map_values(|s: Seq<char>| campo_escrito(s))
}

/// Uma linha escrita; um valor que nao e lista vale um campo.
pub open spec fn linha_escrita(v: valor::Dado) -> Seq<char> {
    match v {
        valor::Dado::Lista(l) => busca::juntos(campos_escritos(nativas_textos::textos_de(l)), ","@),
        _ => campo_escrito(valor::texto_de(v)),
    }
}

/// As primeiras `n` linhas escritas.
pub open spec fn tabela_escrita(l: Seq<valor::Dado>, n: int) -> Seq<char>
    decreases n,
{
    if n <= 0 || n > l.len() {
        Seq::empty()
    } else {
        tabela_escrita(l, n - 1) + linha_escrita(l[n - 1]) + "\n"@
    }
}

fn tem(s: &Vec<char>, c: char) -> (r: bool)
    ensures
        r == s@.contains(c),
{
    let mut i: usize = 0;
    while i < s.len()
        invariant
            i <= s@.len(),
            forall|k: int| 0 <= k < i ==> #[trigger] s@[k] != c,
        decreases s@.len() - i,
    {
        if s[i] == c {
            assert(s@.contains(c));
            return true;
        }
        i += 1;
    }
    false
}

/// Escreve um campo.
pub fn csv_campo_serializar(s: &str) -> (r: String)
    ensures
        r@ == campo_escrito(s@),
{
    let v = texto::caracteres(s);
    if tem(&v, ',') || tem(&v, '"') || tem(&v, '\n') || tem(&v, '\r') {
        let mut r = String::new();
        r.append("\"");
        let t = busca::trocar(s, '"', "\"\"");
        r.append(t.as_str());
        r.append("\"");
        proof {
            reveal_strlit("\"");
            assert("\""@ =~= seq!['"']);
        }
        assert(r@ =~= campo_escrito(s@));
        r
    } else {
        s.to_owned()
    }
}

fn escrever_campos(v: &Vec<String>) -> (r: Vec<String>)
    ensures
        texto::textos(r@) == campos_escritos(texto::textos(v@)),
{
    let mut r: Vec<String> = Vec::new();
    let mut i: usize = 0;
    while i < v.len()
        invariant
            i <= v@.len(),
            r@.len() == i,
            forall|k: int| 0 <= k < i ==> (#[trigger] r@[k])@ == campo_escrito(v@[k]@),
        decreases v@.len() - i,
    {
        r.push(csv_campo_serializar(v[i].as_str()));
        i += 1;
    }
    assert(texto::textos(r@) =~= campos_escritos(texto::textos(v@)));
    r
}

/// Escreve uma tabela.
pub fn csv_serializar_linhas(linhas: &Vec<Valor>) -> (r: String)
    ensures
        r@ == tabela_escrita(valor::vistos(linhas@), linhas@.len() as int),
{
    let ghost l = valor::vistos(linhas@);
    let mut r = String::new();
    assert(r@ =~= tabela_escrita(l, 0));
    let mut i: usize = 0;
    while i < linhas.len()
        invariant
            i <= linhas@.len(),
            l == valor::vistos(linhas@),
            r@ == tabela_escrita(l, i as int),
        decreases linhas@.len() - i,
    {
        assert(l[i as int] == linhas@[i as int]@);
        let t = match &linhas[i] {
            Valor::Lista(cols) => {
                let ts = escrever_itens(cols);
                let cs = escrever_campos(&ts);
                busca::juntar(&cs, ",")
            },
            _ => {
                let t = linhas[i].texto();
                csv_campo_serializar(t.as_str())
            },
        };
        r.append(t.as_str());
        r.append("\n");
        i += 1;
    }
    r
}

/// Uma linha com os nomes das colunas; o que falta numa linha vale um texto vazio.
pub open spec fn com_nomes(nomes: Seq<Seq<char>>, l: Seq<Seq<char>>, n: int) -> valor::Escopo
    decreases n,
{
    if n <= 0 || n > nomes.len() {
        Seq::empty()
    } else {
        valor::com_valor(
            com_nomes(nomes, l, n - 1),
            nomes[n - 1],
            valor::Dado::Texto(
                if n - 1 < l.len() {
                    l[n - 1]
                } else {
                    Seq::empty()
                },
            ),
        )
    }
}

/// As linhas de uma tabela como mapas, com os nomes da primeira.
pub open spec fn em_mapas(t: Seq<Seq<Seq<char>>>) -> Seq<valor::Dado> {
    if t.len() == 0 {
        Seq::empty()
    } else {
        Seq::new(
            (t.len() - 1) as nat,
            |i: int| valor::Dado::Mapa(com_nomes(t[0], t[i + 1], t[0].len() as int)),
        )
    }
}

fn nomear(nomes: &Vec<String>, l: &Vec<String>) -> (r: Vec<(String, Valor)>)
    ensures
        valor::pares_vistos(r@) == com_nomes(texto::textos(nomes@), texto::textos(l@), nomes@.len() as int),
{
    let ghost ns = texto::textos(nomes@);
    let ghost lv = texto::textos(l@);
    let mut r: Vec<(String, Valor)> = Vec::new();
    assert(valor::pares_vistos(r@) =~= Seq::empty());
    let mut i: usize = 0;
    while i < nomes.len()
        invariant
            i <= nomes@.len(),
            ns == texto::textos(nomes@),
            lv == texto::textos(l@),
            valor::pares_vistos(r@) == com_nomes(ns, lv, i as int),
        decreases nomes@.len() - i,
    {
        assert(ns[i as int] == nomes@[i as int]@);
        assert(lv.len() == l@.len());
        let t = if i < l.len() {
            assert(lv[i as int] == l@[i as int]@);
            l[i].clone()
        } else {
            let t = String::new();
            assert(t@ =~= Seq::empty());
            t
        };
        valor::guardar(&mut r, nomes[i].clone(), Valor::Texto(t));
        i += 1;
    }
    r
}

/// Le uma tabela, cada linha um mapa com os nomes da primeira.
pub fn csv_ler_mapas(s: &str) -> (r: Vec<Valor>)
    ensures
        valor::vistos(r@) == em_mapas(tabela(s@)),
{
    let t = ler_tabela(s);
    let ghost f = |l: Vec<String>| texto::textos(l@);
    let ghost tv = t@.map_values(f);
    let mut r: Vec<Valor> = Vec::new();
    if t.len() == 0 {
        assert(valor::vistos(r@) =~= Seq::empty());
        return r;
    }
    let mut i: usize = 1;
    while i < t.len()
        invariant
            1 <= i <= t@.len(),
            f == (|l: Vec<String>| texto::textos(l@)),
            tv == t@.map_values(f),
            tv == tabela(s@),
            r@.len() == i - 1,
            forall|k: int|
                0 <= k < i - 1 ==> (#[trigger] r@[k])@ == valor::Dado::Mapa(
                    com_nomes(tv[0], tv[k + 1], tv[0].len() as int),
                ),
        decreases t@.len() - i,
    {
        assert(tv[0] == texto::textos(t@[0]@));
        assert(tv[i as int] == texto::textos(t@[i as int]@));
        r.push(Valor::Mapa(nomear(&t[0], &t[i])));
        i += 1;
    }
    assert(valor::vistos(r@) =~= em_mapas(tabela(s@)));
    r
}

} // verus!
