//! A ordem dos textos.

use vstd::prelude::*;
use crate::texto;

verus! {

/// Se `a` vem antes de `b` na ordem dos caracteres.
pub open spec fn antes_de(a: Seq<char>, b: Seq<char>) -> bool
    decreases a.len(),
{
    if b.len() == 0 {
        false
    } else if a.len() == 0 {
        true
    } else if a[0] != b[0] {
        a[0] < b[0]
    } else {
        antes_de(a.skip(1), b.skip(1))
    }
}

/// Compara dois textos.
pub fn vem_antes(a: &str, b: &str) -> (r: bool)
    ensures
        r == antes_de(a@, b@),
{
    let x = texto::caracteres(a);
    let y = texto::caracteres(b);
    let mut i: usize = 0;
    assert(x@.skip(0) =~= x@ && y@.skip(0) =~= y@);
    while i < x.len() && i < y.len() && x[i] == y[i]
        invariant
            i <= x@.len(),
            i <= y@.len(),
            x@ == a@,
            y@ == b@,
            antes_de(a@, b@) == antes_de(x@.skip(i as int), y@.skip(i as int)),
        decreases x@.len() - i,
    {
        assert(x@.skip(i as int).skip(1) =~= x@.skip(i + 1));
        assert(y@.skip(i as int).skip(1) =~= y@.skip(i + 1));
        i += 1;
    }
    if i >= y.len() {
        false
    } else if i >= x.len() {
        true
    } else {
        x[i] < y[i]
    }
}

/// A ordem dos caracteres e total.
pub proof fn lema_total(a: Seq<char>, b: Seq<char>)
    ensures
        a =~= b || antes_de(a, b) || antes_de(b, a),
        a != b ==> antes_de(a, b) || antes_de(b, a),
        !(antes_de(a, b) && antes_de(b, a)),
        a == b ==> !antes_de(a, b),
    decreases a.len(),
{
    if a.len() > 0 && b.len() > 0 && a[0] == b[0] {
        lema_total(a.skip(1), b.skip(1));
        if a.skip(1) == b.skip(1) {
            assert(a =~= seq![a[0]] + a.skip(1));
            assert(b =~= seq![b[0]] + b.skip(1));
        }
    } else if a.len() == 0 && b.len() == 0 {
        assert(a =~= b);
    }
}

/// A ordem dos caracteres e transitiva.
pub proof fn lema_transitiva(a: Seq<char>, b: Seq<char>, c: Seq<char>)
    requires
        antes_de(a, b),
        antes_de(b, c),
    ensures
        antes_de(a, c),
    decreases a.len(),
{
    if a.len() > 0 && b.len() > 0 && c.len() > 0 && a[0] == b[0] && b[0] == c[0] {
        lema_transitiva(a.skip(1), b.skip(1), c.skip(1));
    }
}

/// Se a lista esta por ordem, sem repeticoes.
pub open spec fn ordenada(v: Seq<Seq<char>>) -> bool {
    forall|i: int, j: int| 0 <= i < j < v.len() ==> antes_de(#[trigger] v[i], #[trigger] v[j])
}

/// A lista com mais um texto, antes do primeiro que vem depois dele.
pub open spec fn inserida(v: Seq<Seq<char>>, x: Seq<char>) -> Seq<Seq<char>>
    decreases v.len(),
{
    if v.len() == 0 || !antes_de(x, v.last()) {
        v.push(x)
    } else {
        inserida(v.drop_last(), x).push(v.last())
    }
}

/// A lista por ordem.
pub open spec fn ordenadas(v: Seq<Seq<char>>) -> Seq<Seq<char>>
    decreases v.len(),
{
    if v.len() == 0 {
        Seq::empty()
    } else {
        inserida(ordenadas(v.drop_last()), v.last())
    }
}

/// Se nenhum texto vem antes do anterior.
pub open spec fn crescente(v: Seq<Seq<char>>) -> bool {
    forall|i: int, j: int| 0 <= i < j < v.len() ==> !antes_de(#[trigger] v[j], #[trigger] v[i])
}

proof fn lema_inserida(v: Seq<Seq<char>>, x: Seq<char>)
    requires
        crescente(v),
    ensures
        crescente(inserida(v, x)),
        inserida(v, x).len() == v.len() + 1,
        inserida(v, x).to_multiset() =~= v.to_multiset().insert(x),
    decreases v.len(),
{
    broadcast use vstd::seq_lib::group_to_multiset_ensures;

    if v.len() == 0 {
    } else if !antes_de(x, v.last()) {
        let u = v.push(x);
        assert forall|i: int, j: int| 0 <= i < j < u.len() implies !antes_de(#[trigger] u[j], #[trigger] u[i]) by {
            if j == v.len() && i < v.len() - 1 {
                assert(!antes_de(v[v.len() - 1], v[i]));
                if antes_de(x, v[i]) {
                    lema_total(v[i], v.last());
                    if antes_de(v[i], v.last()) {
                        lema_transitiva(x, v[i], v.last());
                    }
                }
            }
        }
    } else {
        let w = v.drop_last();
        let y = v.last();
        lema_inserida(w, x);
        let iw = inserida(w, x);
        let u = iw.push(y);
        assert(v =~= w.push(y));
        assert forall|i: int, j: int| 0 <= i < j < u.len() implies !antes_de(#[trigger] u[j], #[trigger] u[i]) by {
            if j == iw.len() {
                assert(iw.contains(iw[i]));
                assert(iw.to_multiset().contains(iw[i]));
                if iw[i] == x {
                    lema_total(x, y);
                } else {
                    assert(w.to_multiset().contains(iw[i]));
                    assert(w.contains(iw[i]));
                    let k = choose|k: int| 0 <= k < w.len() && w[k] == iw[i];
                    assert(v[k] == w[k]);
                    assert(!antes_de(v[v.len() - 1], v[k]));
                }
            }
        }
        assert(v.to_multiset() =~= w.to_multiset().insert(y));
        assert(u.to_multiset() =~= iw.to_multiset().insert(y));
    }
}

/// Ordenar deixa a lista por ordem e com os mesmos textos.
pub proof fn lei_ordenadas(v: Seq<Seq<char>>)
    ensures
        crescente(ordenadas(v)),
        ordenadas(v).len() == v.len(),
        ordenadas(v).to_multiset() =~= v.to_multiset(),
    decreases v.len(),
{
    broadcast use vstd::seq_lib::group_to_multiset_ensures;

    if v.len() > 0 {
        lei_ordenadas(v.drop_last());
        lema_inserida(ordenadas(v.drop_last()), v.last());
        assert(v =~= v.drop_last().push(v.last()));
    } else {
        assert(v =~= Seq::empty());
    }
}

/// Poe um texto no seu lugar.
fn inserir_em_ordem(v: &mut Vec<String>, x: String)
    ensures
        texto::textos(final(v)@) == inserida(texto::textos(old(v)@), x@),
{
    let ghost t = texto::textos(v@);
    let mut i: usize = v.len();
    assert(t.take(i as int) =~= t);
    assert(t.skip(i as int) =~= Seq::<Seq<char>>::empty());
    assert(inserida(t, x@) =~= inserida(t.take(i as int), x@) + t.skip(i as int));
    while i > 0 && vem_antes(x.as_str(), v[i - 1].as_str())
        invariant
            i <= v@.len(),
            t == texto::textos(v@),
            inserida(t, x@) == inserida(t.take(i as int), x@) + t.skip(i as int),
        decreases i,
    {
        let ghost w = t.take(i as int);
        assert(w.last() == v@[i - 1]@);
        assert(w.drop_last() =~= t.take(i - 1));
        assert(inserida(w, x@) == inserida(t.take(i - 1), x@).push(w.last()));
        assert(inserida(w, x@) + t.skip(i as int) =~= inserida(t.take(i - 1), x@) + t.skip(i - 1));
        i -= 1;
    }
    proof {
        let w = t.take(i as int);
        if i > 0 {
            assert(w.last() == v@[i - 1]@);
        }
        assert(inserida(w, x@) == w.push(x@));
    }
    let ghost xs = x@;
    v.insert(i, x);
    assert(texto::textos(v@) =~= t.take(i as int).push(xs) + t.skip(i as int));
}

/// Ordena uma lista de textos.
pub fn ordenar(v: Vec<String>) -> (r: Vec<String>)
    ensures
        texto::textos(r@) == ordenadas(texto::textos(v@)),
{
    let mut r: Vec<String> = Vec::new();
    let ghost t = texto::textos(v@);
    assert(texto::textos(r@) =~= Seq::<Seq<char>>::empty());
    let mut i: usize = 0;
    while i < v.len()
        invariant
            i <= v@.len(),
            t == texto::textos(v@),
            texto::textos(r@) == ordenadas(t.take(i as int)),
        decreases v@.len() - i,
    {
        assert(t.take(i + 1).drop_last() =~= t.take(i as int));
        assert(t.take(i + 1).last() == v@[i as int]@);
        inserir_em_ordem(&mut r, v[i].clone());
        i += 1;
    }
    assert(t.take(i as int) =~= t);
    r
}

} // verus!
