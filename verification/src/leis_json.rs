//! O que se le de um valor escrito em JSON e o valor.

use vstd::prelude::*;
use crate::busca;
use crate::json;
use crate::ordem;
use crate::texto;
use crate::valor;

verus! {

/// Se um valor e feito so do que se escreve em JSON sem perda: nada, logicos, inteiros, textos, e
/// listas e mapas deles. Um mapa nao tem chaves repetidas.
pub open spec fn so_json(v: valor::Dado) -> bool
    decreases v,
{
    match v {
        valor::Dado::Nulo => true,
        valor::Dado::Booleano(_) => true,
        valor::Dado::Inteiro(_) => true,
        valor::Dado::Texto(_) => true,
        valor::Dado::Lista(l) => forall|i: int| 0 <= i < l.len() ==> so_json(#[trigger] l[i]),
        valor::Dado::Mapa(m) => valor::distintas(m) && forall|i: int|
            0 <= i < m.len() ==> so_json((#[trigger] m[i]).1),
        _ => false,
    }
}

/// Se dois valores sao o mesmo, sem contar a ordem em que as chaves de um mapa entraram.
pub open spec fn equivalentes(a: valor::Dado, b: valor::Dado) -> bool
    decreases a, 0int,
{
    match (a, b) {
        (valor::Dado::Lista(x), valor::Dado::Lista(y)) => x.len() == y.len() && forall|i: int|
            0 <= i < x.len() ==> equivalentes(#[trigger] x[i], y[i]),
        (valor::Dado::Mapa(x), valor::Dado::Mapa(y)) => x.len() == y.len() && valor::distintas(y) && forall|i: int|
            0 <= i < x.len() ==> par_em((#[trigger] x[i]).0, x[i].1, y),
        _ => a == b,
    }
}

/// Se um mapa tem uma chave com um valor equivalente.
pub open spec fn par_em(k: Seq<char>, v: valor::Dado, y: valor::Escopo) -> bool
    decreases v, 1int,
{
    exists|j: int| 0 <= j < y.len() && (#[trigger] y[j]).0 == k && equivalentes(v, y[j].1)
}

// ---- Onde se esta ao percorrer um texto ---------------------------------------------------

/// O lugar depois de um texto.
spec fn ao_fim(l: json::Lugar, t: Seq<char>) -> json::Lugar
    decreases t.len(),
{
    if t.len() == 0 {
        l
    } else {
        json::depois(ao_fim(l, t.drop_last()), t.last())
    }
}

/// Se nada num texto separa, lido a partir de um lugar.
spec fn calado(l: json::Lugar, t: Seq<char>) -> bool
    decreases t.len(),
{
    t.len() == 0 || (calado(l, t.drop_last()) && !json::separa(ao_fim(l, t.drop_last()), t.last()))
}

/// Se um texto nao separa e deixa o lugar como estava.
spec fn neutro(l: json::Lugar, t: Seq<char>) -> bool {
    calado(l, t) && ao_fim(l, t) == l
}

/// Fora de aspas.
spec fn livre(l: json::Lugar) -> bool {
    !l.aspas && !l.barra && l.fundo >= 0
}

proof fn lema_ao_fim(l: json::Lugar, a: Seq<char>, b: Seq<char>)
    ensures
        ao_fim(l, a + b) == ao_fim(ao_fim(l, a), b),
        calado(l, a) && calado(ao_fim(l, a), b) ==> calado(l, a + b),
    decreases b.len(),
{
    if b.len() == 0 {
        assert(a + b =~= a);
    } else {
        lema_ao_fim(l, a, b.drop_last());
        assert((a + b).drop_last() =~= a + b.drop_last());
        assert((a + b).last() == b.last());
    }
}

proof fn lema_um(l: json::Lugar, c: char)
    ensures
        ao_fim(l, seq![c]) == json::depois(l, c),
        calado(l, seq![c]) == !json::separa(l, c),
{
    let t = seq![c];
    assert(t.drop_last() =~= Seq::<char>::empty());
    assert(ao_fim(l, t.drop_last()) == l);
    assert(calado(l, t.drop_last()));
}

proof fn lema_escapado(l: json::Lugar, s: Seq<char>, n: int, chave: bool)
    requires
        l.aspas,
        !l.barra,
        0 <= n <= s.len(),
    ensures
        neutro(l, json::escapado(s, n, chave)),
    decreases n,
{
    if n > 0 {
        lema_escapado(l, s, n - 1, chave);
        let p = json::escapado(s, n - 1, chave);
        let e = json::escrito(s[n - 1], chave);
        assert(json::escapado(s, n, chave) == p + e);
        lema_ao_fim(l, p, e);
        if e.len() == 1 {
            assert(e =~= seq![e[0]]);
            lema_um(l, e[0]);
        } else {
            assert(e =~= seq![e[0]] + seq![e[1]]);
            lema_um(l, e[0]);
            lema_um(json::depois(l, e[0]), e[1]);
            lema_ao_fim(l, seq![e[0]], seq![e[1]]);
        }
    }
}

proof fn lema_aspas(l: json::Lugar, s: Seq<char>, chave: bool)
    requires
        livre(l),
    ensures
        neutro(l, json::entre_aspas(s, chave)),
{
    let e = json::escapado(s, s.len() as int, chave);
    let d = json::Lugar { aspas: true, ..l };
    lema_um(l, '"');
    lema_escapado(d, s, s.len() as int, chave);
    lema_um(d, '"');
    lema_ao_fim(l, seq!['"'], e);
    lema_ao_fim(l, seq!['"'] + e, seq!['"']);
}

proof fn lema_letras(l: json::Lugar, t: Seq<char>)
    requires
        livre(l),
        forall|i: int|
            0 <= i < t.len() ==> #[trigger] t[i] != ',' && t[i] != '"' && t[i] != '[' && t[i] != ']' && t[i] != '{'
                && t[i] != '}',
    ensures
        neutro(l, t),
    decreases t.len(),
{
    if t.len() > 0 {
        let d = t.drop_last();
        assert forall|i: int| 0 <= i < d.len() implies #[trigger] d[i] != ',' && d[i] != '"' && d[i] != '[' && d[i]
            != ']' && d[i] != '{' && d[i] != '}' by {
            assert(d[i] == t[i]);
        }
        lema_letras(l, d);
        assert(t.last() == t[t.len() - 1]);
    }
}

proof fn lema_juntos_neutros(l: json::Lugar, c: Seq<Seq<char>>)
    requires
        livre(l),
        l.fundo > 0,
        forall|i: int| 0 <= i < c.len() ==> neutro(l, #[trigger] c[i]),
    ensures
        neutro(l, busca::juntos(c, ","@)),
    decreases c.len(),
{
    reveal_strlit(",");
    if c.len() == 0 {
    } else if c.len() == 1 {
        assert(neutro(l, c[0]));
    } else {
        let d = c.drop_last();
        assert forall|i: int| 0 <= i < d.len() implies neutro(l, #[trigger] d[i]) by {
            assert(d[i] == c[i]);
        }
        lema_juntos_neutros(l, d);
        let j = busca::juntos(d, ","@);
        assert(","@ =~= seq![',']);
        lema_um(l, ',');
        lema_ao_fim(l, j, ","@);
        lema_ao_fim(l, j + ","@, c.last());
        assert(neutro(l, c[c.len() - 1]));
    }
}

proof fn lema_cercado(l: json::Lugar, abre: char, t: Seq<char>, fecha: char)
    requires
        livre(l),
        (abre == '[' && fecha == ']') || (abre == '{' && fecha == '}'),
        neutro(json::Lugar { fundo: l.fundo + 1, ..l }, t),
    ensures
        neutro(l, seq![abre] + t + seq![fecha]),
{
    let d = json::Lugar { fundo: l.fundo + 1, ..l };
    lema_um(l, abre);
    lema_um(d, fecha);
    lema_ao_fim(l, seq![abre], t);
    lema_ao_fim(l, seq![abre] + t, seq![fecha]);
}

// ---- O que se escreve ---------------------------------------------------------------------

/// Se um texto nao tem espacos nas pontas.
spec fn firme(t: Seq<char>) -> bool {
    t.len() > 0 && !texto::espaco(t[0]) && !texto::espaco(t.last())
}

proof fn lema_firme(t: Seq<char>)
    requires
        firme(t),
    ensures
        texto::aparado(t) == t,
{
    texto::lema_aparado_recuado(t, 0);
    assert(t.skip(0) =~= t);
}

/// Um par de um mapa escrito.
spec fn par_escrito(k: Seq<char>, v: valor::Dado) -> Seq<char> {
    json::entre_aspas(k, true) + ":"@ + json::json_de(v)
}

proof fn lema_lista_escrita(l: Seq<valor::Dado>)
    ensures
        json::json_de(valor::Dado::Lista(l)) == seq!['['] + busca::juntos(json::itens_json(l), ","@) + seq![']'],
{
    reveal_strlit("[");
    reveal_strlit("]");
    assert("["@ =~= seq!['[']);
    assert("]"@ =~= seq![']']);
}

proof fn lema_mapa_escrito(m: valor::Escopo)
    ensures
        json::json_de(valor::Dado::Mapa(m)) == seq!['{'] + busca::juntos(
            ordem::ordenadas(json::pares_json(m)),
            ","@,
        ) + seq!['}'],
{
    reveal_strlit("{");
    reveal_strlit("}");
    assert("{"@ =~= seq!['{']);
    assert("}"@ =~= seq!['}']);
}

/// O que se escreve nao tem espacos nas pontas, e nao separa.
proof fn lema_escrito(l: json::Lugar, v: valor::Dado)
    requires
        livre(l),
        so_json(v),
    ensures
        firme(json::json_de(v)),
        neutro(l, json::json_de(v)),
    decreases v,
{
    let t = json::json_de(v);
    reveal_strlit("null");
    reveal_strlit("true");
    reveal_strlit("false");
    match v {
        valor::Dado::Nulo => {
            lema_letras(l, t);
        },
        valor::Dado::Booleano(b) => {
            lema_letras(l, t);
        },
        valor::Dado::Inteiro(n) => {
            lema_inteiro(n);
            lema_letras(l, t);
        },
        valor::Dado::Texto(s) => {
            lema_aspas(l, s, false);
        },
        valor::Dado::Lista(x) => {
            let d = json::Lugar { fundo: l.fundo + 1, ..l };
            let c = json::itens_json(x);
            assert forall|i: int| 0 <= i < c.len() implies neutro(d, #[trigger] c[i]) by {
                assert(so_json(x[i]));
                lema_escrito(d, x[i]);
            }
            lema_juntos_neutros(d, c);
            lema_lista_escrita(x);
            lema_cercado(l, '[', busca::juntos(c, ","@), ']');
        },
        valor::Dado::Mapa(m) => {
            let d = json::Lugar { fundo: l.fundo + 1, ..l };
            let c = ordem::ordenadas(json::pares_json(m));
            assert forall|i: int| 0 <= i < c.len() implies neutro(d, #[trigger] c[i]) by {
                let a = lema_origem(m, i);
                assert(so_json(m[a].1));
                lema_escrito(d, m[a].1);
                lema_par(d, m[a].0, m[a].1);
            }
            lema_juntos_neutros(d, c);
            lema_mapa_escrito(m);
            lema_cercado(l, '{', busca::juntos(c, ","@), '}');
        },
        _ => {},
    }
}

proof fn lema_inteiro(n: i64)
    ensures
        ({
            let t = texto::decimal_int(n as int);
            &&& t.len() > 0
            &&& forall|i: int| 0 <= i < t.len() ==> ('0' <= #[trigger] t[i] <= '9' || (t[i] == '-' && i == 0 && n < 0))
            &&& '0' <= t.last() <= '9'
            &&& firme(t)
        }),
{
    let t = texto::decimal_int(n as int);
    if n < 0 {
        let d = texto::decimal((-n) as nat);
        texto::lema_decimal_algarismos((-n) as nat);
        assert(t.last() == d.last());
        assert(d.last() == d[d.len() - 1]);
        assert forall|i: int| 0 <= i < t.len() implies ('0' <= #[trigger] t[i] <= '9' || (t[i] == '-' && i == 0 && n
            < 0)) by {
            if i > 0 {
                assert(t[i] == d[i - 1]);
            }
        }
    } else {
        texto::lema_decimal_algarismos(n as nat);
        assert(t.last() == t[t.len() - 1]);
    }
}

proof fn lema_par(l: json::Lugar, k: Seq<char>, v: valor::Dado)
    requires
        livre(l),
        neutro(l, json::json_de(v)),
    ensures
        neutro(l, par_escrito(k, v)),
{
    reveal_strlit(":");
    assert(":"@ =~= seq![':']);
    lema_aspas(l, k, true);
    lema_um(l, ':');
    lema_ao_fim(l, json::entre_aspas(k, true), ":"@);
    lema_ao_fim(l, json::entre_aspas(k, true) + ":"@, json::json_de(v));
}

/// De que par do mapa e o par escrito `i`.
proof fn lema_origem(m: valor::Escopo, i: int) -> (a: int)
    requires
        0 <= i < ordem::ordenadas(json::pares_json(m)).len(),
    ensures
        0 <= a < m.len(),
        ordem::ordenadas(json::pares_json(m))[i] == par_escrito(m[a].0, m[a].1),
        json::pares_json(m)[a] == par_escrito(m[a].0, m[a].1),
{
    broadcast use vstd::seq_lib::group_to_multiset_ensures;

    let p = json::pares_json(m);
    let c = ordem::ordenadas(p);
    ordem::lei_ordenadas(p);
    assert(c.contains(c[i]));
    assert(c.to_multiset().count(c[i]) > 0);
    assert(p.to_multiset().count(c[i]) > 0);
    assert(p.contains(c[i]));
    let a = choose|a: int| 0 <= a < p.len() && p[a] == c[i];
    a
}

/// Onde se escreve um par do mapa.
proof fn lema_destino(m: valor::Escopo, a: int) -> (i: int)
    requires
        0 <= a < m.len(),
    ensures
        0 <= i < ordem::ordenadas(json::pares_json(m)).len(),
        ordem::ordenadas(json::pares_json(m))[i] == par_escrito(m[a].0, m[a].1),
{
    broadcast use vstd::seq_lib::group_to_multiset_ensures;

    let p = json::pares_json(m);
    let c = ordem::ordenadas(p);
    ordem::lei_ordenadas(p);
    assert(p[a] == par_escrito(m[a].0, m[a].1));
    assert(p.contains(p[a]));
    assert(p.to_multiset().count(p[a]) > 0);
    assert(c.to_multiset().count(p[a]) > 0);
    assert(c.contains(p[a]));
    let i = choose|i: int| 0 <= i < c.len() && c[i] == p[a];
    i
}

// ---- O que se le --------------------------------------------------------------------------

proof fn lema_anda(x: Seq<char>, i: int, de: int, l: json::Lugar, t: Seq<char>)
    requires
        busca::esta_em(x, i, t),
        calado(l, t),
    ensures
        json::partes_em(x, i, de, l) == json::partes_em(x, i + t.len(), de, ao_fim(l, t)),
    decreases t.len(),
{
    if t.len() > 0 {
        let d = t.drop_last();
        assert forall|k: int| 0 <= k < d.len() implies x[i + k] == #[trigger] d[k] by {
            assert(x[i + k] == t[k]);
        }
        lema_anda(x, i, de, l, d);
        assert(x[i + d.len()] == t[t.len() - 1]);
    }
}

/// As partes dos textos juntos sao eles.
proof fn lema_partes(c: Seq<Seq<char>>, n: int)
    requires
        0 <= n < c.len(),
        forall|i: int| 0 <= i < c.len() ==> neutro(json::comeco(), #[trigger] c[i]),
    ensures
        json::partes_em(
            busca::juntos(c, ","@),
            busca::inicio_de(c, ","@, n),
            busca::inicio_de(c, ","@, n),
            json::comeco(),
        ) == c.skip(n),
    decreases c.len() - n,
{
    let x = busca::juntos(c, ","@);
    let p = busca::inicio_de(c, ","@, n);
    busca::lema_juntos(c, ","@, n);
    assert(neutro(json::comeco(), c[n]));
    lema_anda(x, p, p, json::comeco(), c[n]);
    let q = p + c[n].len();
    reveal_strlit(",");
    assert(x.subrange(p, q) =~= c[n]) by {
        assert forall|k: int| 0 <= k < c[n].len() implies x[p + k] == #[trigger] c[n][k] by {}
    }
    if n + 1 < c.len() {
        assert(x[q + 0] == ","@[0]);
        lema_partes(c, n + 1);
        assert(seq![c[n]] + c.skip(n + 1) =~= c.skip(n));
    } else {
        assert(x.skip(p) =~= x.subrange(p, q));
        assert(seq![c[n]] =~= c.skip(n));
    }
}

/// O que se le de um valor escrito.
spec fn relido(v: valor::Dado, ns: json::Numeros) -> valor::Dado {
    json::json_lido(json::json_de(v), ns)->Pronto_0
}

/// Se um valor escrito se le bem.
spec fn volta(v: valor::Dado, ns: json::Numeros) -> bool {
    json::json_lido(json::json_de(v), ns) is Pronto && equivalentes(v, relido(v, ns))
}

proof fn lema_lista(l: Seq<valor::Dado>, x: Seq<char>, i: int, acc: Seq<valor::Dado>, ns: json::Numeros)
    requires
        json::partes(x) == json::itens_json(l),
        0 <= i <= l.len(),
        forall|k: int|
            0 <= k < l.len() ==> firme(json::json_de(#[trigger] l[k])) && json::json_lido(json::json_de(l[k]), ns)
                is Pronto,
    ensures
        json::lista_lida(x, i, acc, ns) == json::LidoVisto::Pronto(
            valor::Dado::Lista(acc + Seq::new((l.len() - i) as nat, |k: int| relido(l[i + k], ns))),
        ),
    decreases l.len() - i,
{
    let r = Seq::new((l.len() - i) as nat, |k: int| relido(l[i + k], ns));
    if i == l.len() {
        assert(acc + r =~= acc);
    } else {
        assert(json::partes(x)[i] == json::json_de(l[i]));
        lema_firme(json::json_de(l[i]));
        lema_lista(l, x, i + 1, acc.push(relido(l[i], ns)), ns);
        assert(acc.push(relido(l[i], ns)) + Seq::new((l.len() - (i + 1)) as nat, |k: int| relido(l[i + 1 + k], ns))
            =~= acc + r);
    }
}

proof fn lema_dois_pontos(s: Seq<char>, i: int, l: json::Lugar, t: Seq<char>)
    requires
        busca::esta_em(s, i, t),
        forall|k: int|
            0 <= k < t.len() ==> !(!ao_fim(l, #[trigger] t.take(k)).barra && !ao_fim(l, t.take(k)).aspas && t[k]
                == ':'),
    ensures
        json::dois_pontos(s, i, l) == json::dois_pontos(s, i + t.len(), ao_fim(l, t)),
    decreases t.len(),
{
    if t.len() > 0 {
        let d = t.drop_last();
        assert forall|k: int| 0 <= k < d.len() implies x_igual(s, i, d, k) by {
            assert(s[i + k] == t[k]);
        }
        assert forall|k: int| 0 <= k < d.len() implies s[i + k] == #[trigger] d[k] by {
            assert(x_igual(s, i, d, k));
        }
        assert forall|k: int| 0 <= k < d.len() implies !(!ao_fim(l, #[trigger] d.take(k)).barra && !ao_fim(
            l,
            d.take(k),
        ).aspas && d[k] == ':') by {
            assert(d.take(k) =~= t.take(k));
            assert(d[k] == t[k]);
        }
        lema_dois_pontos(s, i, l, d);
        assert(t.take(t.len() - 1) =~= d);
        assert(s[i + d.len()] == t[t.len() - 1]);
    }
}

spec fn x_igual(s: Seq<char>, i: int, d: Seq<char>, k: int) -> bool {
    s[i + k] == d[k]
}

proof fn lema_dentro_das_aspas(l: json::Lugar, s: Seq<char>, n: int, chave: bool, k: int)
    requires
        l.aspas,
        !l.barra,
        0 <= n <= s.len(),
        0 <= k <= json::escapado(s, n, chave).len(),
    ensures
        ao_fim(l, json::escapado(s, n, chave).take(k)).aspas,
    decreases n,
{
    let t = json::escapado(s, n, chave);
    if n == 0 {
        assert(t.take(k) =~= Seq::<char>::empty());
    } else {
        let p = json::escapado(s, n - 1, chave);
        let e = json::escrito(s[n - 1], chave);
        assert(t == p + e);
        if k <= p.len() {
            assert(t.take(k) =~= p.take(k));
            lema_dentro_das_aspas(l, s, n - 1, chave, k);
        } else {
            lema_escapado(l, s, n - 1, chave);
            lema_escapado(l, s, n, chave);
            if k == t.len() {
                assert(t.take(k) =~= t);
            } else {
                assert(t.take(k) =~= p + seq![e[0]]);
                lema_ao_fim(l, p, seq![e[0]]);
                lema_um(l, e[0]);
            }
        }
    }
}

/// De um par escrito le-se a chave, e o valor escrito vem depois dos dois pontos.
proof fn lema_par_lido(k: Seq<char>, v: valor::Dado)
    requires
        firme(json::json_de(v)),
    ensures
        ({
            let p = par_escrito(k, v);
            let n = json::entre_aspas(k, true).len() as int;
            &&& texto::aparado(p) == p
            &&& json::dois_pontos(p, 0, json::comeco()) == Some(n)
            &&& json::texto_lido(texto::aparado(p.take(n))) == Some(k)
            &&& p.skip(n + 1) == json::json_de(v)
        }),
{
    let p = par_escrito(k, v);
    let q = json::entre_aspas(k, true);
    let n = q.len() as int;
    let j = json::json_de(v);
    reveal_strlit(":");
    assert(!texto::espaco('"'));
    assert(q[0] == '"' && q.last() == '"');
    assert(p[0] == q[0]);
    assert(p.last() == j.last());
    lema_firme(p);
    assert(p.take(n) =~= q);
    lema_firme(q);
    json::lema_volta(k, 0, q, Seq::empty(), true);
    assert(json::escapado(k, 0, true).len() == 0);
    assert(Seq::<char>::empty() + k.skip(0) =~= k);
    assert(p.skip(n + 1) =~= j);
    let l = json::comeco();
    let d = json::Lugar { aspas: true, ..l };
    let e = json::escapado(k, k.len() as int, true);
    lema_aspas(l, k, true);
    lema_um(l, '"');
    assert forall|i: int| 0 <= i < q.len() implies !(!ao_fim(l, #[trigger] q.take(i)).barra && !ao_fim(
        l,
        q.take(i),
    ).aspas && q[i] == ':') by {
        if i > 0 {
            assert(q.take(i) =~= seq!['"'] + e.take(i - 1));
            lema_ao_fim(l, seq!['"'], e.take(i - 1));
            lema_dentro_das_aspas(d, k, k.len() as int, true, i - 1);
        }
    }
    assert forall|i: int| 0 <= i < q.len() implies p[0 + i] == #[trigger] q[i] by {
        assert((q + ":"@)[i] == q[i]);
    }
    lema_dois_pontos(p, 0, l, q);
    assert(p[n] == ':');
}

/// O par `j` de um mapa relido.
spec fn par_relido(m: valor::Escopo, j: int, ns: json::Numeros) -> (Seq<char>, valor::Dado) {
    let a = choose|a: int|
        0 <= a < m.len() && ordem::ordenadas(json::pares_json(m))[j] == par_escrito((#[trigger] m[a]).0, m[a].1);
    (m[a].0, relido(m[a].1, ns))
}

/// O mapa relido.
spec fn mapa_relido(m: valor::Escopo, ns: json::Numeros) -> valor::Escopo {
    Seq::new(m.len(), |j: int| par_relido(m, j, ns))
}

/// Se os valores de um mapa se leem bem.
spec fn valores_voltam(m: valor::Escopo, ns: json::Numeros) -> bool {
    forall|i: int|
        0 <= i < m.len() ==> firme(json::json_de((#[trigger] m[i]).1)) && volta(m[i].1, ns)
}

/// De que par do mapa e o par relido `j`; os pares escritos dizem a chave.
proof fn lema_par_relido(m: valor::Escopo, j: int, ns: json::Numeros) -> (a: int)
    requires
        valor::distintas(m),
        valores_voltam(m, ns),
        0 <= j < ordem::ordenadas(json::pares_json(m)).len(),
    ensures
        0 <= a < m.len(),
        ordem::ordenadas(json::pares_json(m))[j] == par_escrito(m[a].0, m[a].1),
        par_relido(m, j, ns) == (m[a].0, relido(m[a].1, ns)),
        forall|b: int|
            0 <= b < m.len() && ordem::ordenadas(json::pares_json(m))[j] == par_escrito(
                (#[trigger] m[b]).0,
                m[b].1,
            ) ==> b == a,
{
    let t = ordem::ordenadas(json::pares_json(m))[j];
    let o = lema_origem(m, j);
    assert(t == par_escrito(m[o].0, m[o].1));
    let a = choose|a: int| 0 <= a < m.len() && t == par_escrito((#[trigger] m[a]).0, m[a].1);
    assert forall|b: int| 0 <= b < m.len() && t == par_escrito((#[trigger] m[b]).0, m[b].1) implies b == a by {
        assert(firme(json::json_de(m[a].1)) && firme(json::json_de(m[b].1)));
        lema_par_lido(m[a].0, m[a].1);
        lema_par_lido(m[b].0, m[b].1);
        assert(m[a].0 == m[b].0);
    }
    a
}

/// As chaves de um mapa relido nao se repetem, e todos os pares estao nele.
proof fn lema_mapa_relido(m: valor::Escopo, ns: json::Numeros)
    requires
        valor::distintas(m),
        valores_voltam(m, ns),
    ensures
        ordem::ordenadas(json::pares_json(m)).len() == m.len(),
        valor::distintas(mapa_relido(m, ns)),
        equivalentes(valor::Dado::Mapa(m), valor::Dado::Mapa(mapa_relido(m, ns))),
{
    broadcast use vstd::seq_lib::group_to_multiset_ensures;

    let p = json::pares_json(m);
    let c = ordem::ordenadas(p);
    let r = mapa_relido(m, ns);
    ordem::lei_ordenadas(p);
    assert forall|a: int, b: int| 0 <= a < p.len() && 0 <= b < p.len() && a != b implies p[a] != p[b] by {
        if p[a] == p[b] {
            assert(p[a] == par_escrito(m[a].0, m[a].1) && p[b] == par_escrito(m[b].0, m[b].1));
            assert(firme(json::json_de(m[a].1)) && firme(json::json_de(m[b].1)));
            lema_par_lido(m[a].0, m[a].1);
            lema_par_lido(m[b].0, m[b].1);
            assert(m[a].0 == m[b].0);
            if a < b {
                assert(m[a].0 != m[b].0);
            } else {
                assert(m[b].0 != m[a].0);
            }
        }
    }
    assert(p.no_duplicates());
    p.lemma_multiset_has_no_duplicates();
    assert forall|x: Seq<char>| c.to_multiset().contains(x) implies c.to_multiset().count(x) == 1 by {
        assert(p.to_multiset().contains(x));
    }
    c.lemma_multiset_has_no_duplicates_conv();
    assert forall|i: int, j: int| 0 <= i < j < r.len() implies (#[trigger] r[i]).0 != (#[trigger] r[j]).0 by {
        let a = lema_par_relido(m, i, ns);
        let b = lema_par_relido(m, j, ns);
        assert(c[i] != c[j]);
        if a == b {
            assert(c[i] == c[j]);
        } else if a < b {
            assert(m[a].0 != m[b].0);
        } else {
            assert(m[b].0 != m[a].0);
        }
    }
    assert forall|a: int| 0 <= a < m.len() implies par_em((#[trigger] m[a]).0, m[a].1, r) by {
        let j = lema_destino(m, a);
        let b = lema_par_relido(m, j, ns);
        assert(b == a);
        assert(volta(m[a].1, ns));
        assert(r[j].0 == m[a].0 && equivalentes(m[a].1, r[j].1));
    }
}

proof fn lema_mapa(m: valor::Escopo, x: Seq<char>, i: int, ns: json::Numeros)
    requires
        valor::distintas(m),
        valores_voltam(m, ns),
        ordem::ordenadas(json::pares_json(m)).len() == m.len(),
        valor::distintas(mapa_relido(m, ns)),
        json::partes(x) == ordem::ordenadas(json::pares_json(m)),
        0 <= i <= m.len(),
    ensures
        json::mapa_lido(x, i, mapa_relido(m, ns).take(i), ns) == json::LidoVisto::Pronto(
            valor::Dado::Mapa(mapa_relido(m, ns)),
        ),
    decreases m.len() - i,
{
    let r = mapa_relido(m, ns);
    let acc = r.take(i);
    if i == m.len() {
        assert(acc =~= r);
    } else {
        let a = lema_par_relido(m, i, ns);
        let t = json::partes(x)[i];
        assert(t == par_escrito(m[a].0, m[a].1));
        assert(firme(json::json_de(m[a].1)) && volta(m[a].1, ns));
        lema_par_lido(m[a].0, m[a].1);
        assert(r[i] == (m[a].0, relido(m[a].1, ns)));
        valor::lema_lugar(acc, m[a].0, 0);
        match valor::lugar(acc, m[a].0, 0) {
            Some(j) => {
                assert(acc[j] == r[j]);
                assert(r[j].0 != r[i].0);
            },
            None => {},
        }
        assert(acc.push(r[i]) =~= r.take(i + 1));
        lema_mapa(m, x, i + 1, ns);
    }
}

// ---- A lei --------------------------------------------------------------------------------

proof fn lema_primeiro(t: Seq<char>)
    requires
        t.len() > 0,
        t[0] != 'n',
        t[0] != 't',
        t[0] != 'f',
    ensures
        t != "null"@,
        t != "true"@,
        t != "false"@,
{
    reveal_strlit("null");
    reveal_strlit("true");
    reveal_strlit("false");
    assert("null"@[0] == 'n' && "true"@[0] == 't' && "false"@[0] == 'f');
}

proof fn lema_lida_lista(x: Seq<char>, ns: json::Numeros)
    requires
        x.len() > 0,
    ensures
        json::json_lido(seq!['['] + x + seq![']'], ns) == json::lista_lida(x, 0, Seq::empty(), ns),
{
    let t = seq!['['] + x + seq![']'];
    assert(t[0] == '[' && t.last() == ']');
    lema_firme(t);
    lema_primeiro(t);
    reveal_strlit("[]");
    assert(t.subrange(1, t.len() - 1) =~= x);
    assert(t.len() > 2);
    assert(t != "[]"@);
    assert(json::fechado(t));
}

proof fn lema_lido_mapa(x: Seq<char>, ns: json::Numeros)
    requires
        x.len() > 0,
    ensures
        json::json_lido(seq!['{'] + x + seq!['}'], ns) == json::mapa_lido(x, 0, Seq::empty(), ns),
{
    let t = seq!['{'] + x + seq!['}'];
    assert(t[0] == '{' && t.last() == '}');
    lema_firme(t);
    lema_primeiro(t);
    reveal_strlit("{}");
    assert(t.subrange(1, t.len() - 1) =~= x);
    assert(t.len() > 2);
    assert(t != "{}"@);
    assert(json::fechado(t));
}

proof fn lema_lei_lista(l: Seq<valor::Dado>, ns: json::Numeros)
    requires
        forall|i: int|
            0 <= i < l.len() ==> firme(json::json_de(#[trigger] l[i])) && volta(l[i], ns) && neutro(
                json::comeco(),
                json::json_de(l[i]),
            ),
    ensures
        volta(valor::Dado::Lista(l), ns),
{
    let v = valor::Dado::Lista(l);
    let t = json::json_de(v);
    lema_lista_escrita(l);
    let c = json::itens_json(l);
    let x = busca::juntos(c, ","@);
    if l.len() == 0 {
        reveal_strlit("[]");
        assert(x =~= Seq::<char>::empty());
        assert(t =~= "[]"@);
        lema_firme(t);
        lema_primeiro(t);
    } else {
        assert forall|i: int| 0 <= i < c.len() implies neutro(json::comeco(), #[trigger] c[i]) by {
            assert(c[i] == json::json_de(l[i]));
        }
        lema_partes(c, 0);
        assert(c.skip(0) =~= c);
        busca::lema_juntos(c, ","@, 0);
        assert(c[0] == json::json_de(l[0]));
        lema_lida_lista(x, ns);
        lema_lista(l, x, 0, Seq::empty(), ns);
        let r = Seq::new(l.len(), |k: int| relido(l[0 + k], ns));
        assert(Seq::<valor::Dado>::empty() + r =~= r);
        assert(json::json_lido(t, ns) == json::LidoVisto::Pronto(valor::Dado::Lista(r)));
        assert forall|i: int| 0 <= i < l.len() implies equivalentes(#[trigger] l[i], r[i]) by {
            assert(volta(l[i], ns));
        }
    }
}

proof fn lema_lei_mapa(m: valor::Escopo, ns: json::Numeros)
    requires
        valor::distintas(m),
        valores_voltam(m, ns),
        forall|i: int| 0 <= i < m.len() ==> neutro(json::comeco(), json::json_de((#[trigger] m[i]).1)),
    ensures
        volta(valor::Dado::Mapa(m), ns),
{
    let v = valor::Dado::Mapa(m);
    let t = json::json_de(v);
    lema_mapa_escrito(m);
    let c = ordem::ordenadas(json::pares_json(m));
    let x = busca::juntos(c, ","@);
    lema_mapa_relido(m, ns);
    if m.len() == 0 {
        reveal_strlit("{}");
        assert(x =~= Seq::<char>::empty());
        assert(t =~= "{}"@);
        lema_firme(t);
        lema_primeiro(t);
        assert(mapa_relido(m, ns) =~= Seq::empty());
    } else {
        assert forall|i: int| 0 <= i < c.len() implies neutro(json::comeco(), #[trigger] c[i]) by {
            let a = lema_origem(m, i);
            assert(neutro(json::comeco(), json::json_de(m[a].1)));
            lema_par(json::comeco(), m[a].0, m[a].1);
        }
        lema_partes(c, 0);
        assert(c.skip(0) =~= c);
        busca::lema_juntos(c, ","@, 0);
        let a = lema_origem(m, 0);
        assert(c[0].len() > 0);
        lema_lido_mapa(x, ns);
        lema_mapa(m, x, 0, ns);
        assert(mapa_relido(m, ns).take(0) =~= Seq::empty());
    }
}

/// O que se le de um valor escrito em JSON e o valor; a ordem das chaves de um mapa e a dos pares
/// escritos.
pub proof fn lei_json(v: valor::Dado, ns: json::Numeros)
    requires
        so_json(v),
    ensures
        json::json_lido(json::json_de(v), ns) matches json::LidoVisto::Pronto(w) && equivalentes(v, w),
    decreases v,
{
    match v {
        valor::Dado::Nulo => {
            lema_escrito(json::comeco(), v);
            lema_firme(json::json_de(v));
        },
        valor::Dado::Booleano(b) => {
            lema_escrito(json::comeco(), v);
            lema_firme(json::json_de(v));
            reveal_strlit("null");
            reveal_strlit("true");
            reveal_strlit("false");
            assert("null"@[0] == 'n' && "true"@[0] == 't' && "false"@[0] == 'f');
        },
        valor::Dado::Inteiro(n) => {
            let t = json::json_de(v);
            lema_inteiro(n);
            lema_firme(t);
            lema_primeiro(t);
            busca::lema_lido_inteiro(n);
            assert(!json::com_ponto(t));
        },
        valor::Dado::Texto(s) => {
            json::lei_json_texto(s, ns);
        },
        valor::Dado::Lista(l) => {
            assert forall|i: int| 0 <= i < l.len() implies firme(json::json_de(#[trigger] l[i])) && volta(
                l[i],
                ns,
            ) && neutro(json::comeco(), json::json_de(l[i])) by {
                lema_escrito(json::comeco(), l[i]);
                lei_json(l[i], ns);
            }
            lema_lei_lista(l, ns);
        },
        valor::Dado::Mapa(m) => {
            assert forall|i: int| 0 <= i < m.len() implies firme(json::json_de((#[trigger] m[i]).1)) && volta(
                m[i].1,
                ns,
            ) && neutro(json::comeco(), json::json_de(m[i].1)) by {
                lema_escrito(json::comeco(), m[i].1);
                lei_json(m[i].1, ns);
            }
            lema_lei_mapa(m, ns);
        },
        _ => {},
    }
}

} // verus!
