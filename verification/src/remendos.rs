//! O que acontece ao codigo quando ele cresce e os saltos se remendam.

use vstd::prelude::*;
use crate::ast::{ArvoreExpr, ArvoreInstr};
use crate::bytecode::Comando;
use crate::codigo;

verus! {

pub(crate) proof fn lema_trecho(
    antes: Seq<Comando>,
    depois: Seq<Comando>,
    q0: Seq<usize>,
    q1: Seq<usize>,
    b: int,
    f: int,
)
    requires
        codigo::cresceu(antes, depois, q0, q1),
        0 <= b <= antes.len(),
    ensures
        codigo::trecho(depois, q1, b, f) == codigo::trecho(antes, q0, b, f) + codigo::trecho(
            depois,
            q1,
            antes.len() as int,
            f,
        ),
        codigo::trecho(antes, q0, b, f).len() == antes.len() - b,
        codigo::trecho(depois, q1, antes.len() as int, f).len() == depois.len() - antes.len(),
{
    reveal(codigo::trecho);
    reveal(codigo::emitiu);
    let x = codigo::trecho(depois, q1, b, f);
    let y = codigo::trecho(antes, q0, b, f) + codigo::trecho(depois, q1, antes.len() as int, f);
    assert(x.len() == y.len());
    assert forall|k: int| 0 <= k < x.len() implies x[k] == y[k] by {
        let p = b + k;
        assert(codigo::tem(q0, p) ==> codigo::tem(q1, p));
        assert(codigo::tem(q1, p) ==> codigo::tem(q0, p) || antes.len() <= p < depois.len());
        if p < antes.len() {
            assert(depois[p] == antes[p]);
        }
    }
    assert(x =~= y);
}

/// Um trecho sem posicoes remendadas e o proprio codigo.
pub(crate) proof fn lema_trecho_limpo(s: Seq<Comando>, qs: Seq<usize>, b: int, f: int)
    requires
        0 <= b <= s.len(),
        forall|k: int| #[trigger] codigo::tem(qs, k) ==> k < b,
    ensures
        codigo::trecho(s, qs, b, f) == s.subrange(b, s.len() as int),
{
    reveal(codigo::trecho);
    reveal(codigo::emitiu);
    let x = codigo::trecho(s, qs, b, f);
    assert forall|k: int| 0 <= k < x.len() implies x[k] == s[b + k] by {
        assert(!codigo::tem(qs, b + k));
    }
    assert(x =~= s.subrange(b, s.len() as int));
}

pub(crate) proof fn lema_tem_push(qs: Seq<usize>, x: usize)
    ensures
        forall|k: int| #[trigger] codigo::tem(qs.push(x), k) <==> codigo::tem(qs, k) || k == x,
{
    assert forall|k: int| #[trigger] codigo::tem(qs.push(x), k) <==> codigo::tem(qs, k) || k == x by {
        if codigo::tem(qs, k) {
            let i = choose|i: int| 0 <= i < qs.len() && qs[i] == k;
            assert(qs.push(x)[i] == k);
        }
        if k == x {
            assert(qs.push(x)[qs.len() as int] == k);
        }
        if codigo::tem(qs.push(x), k) {
            let i = choose|i: int| 0 <= i < qs.push(x).len() && qs.push(x)[i] == k;
            if i < qs.len() {
                assert(qs[i] == k);
            }
        }
    }
}

pub(crate) proof fn lema_emitiu(
    a: Seq<Comando>,
    b: Seq<Comando>,
    c: Seq<Comando>,
    qa: Seq<usize>,
    qb: Seq<usize>,
    qc: Seq<usize>,
)
    requires
        codigo::emitiu(a, b, qa, qb),
        codigo::emitiu(b, c, qb, qc),
    ensures
        codigo::emitiu(a, c, qa, qc),
{
    reveal(codigo::trecho);
    reveal(codigo::emitiu);
    assert forall|k: int| 0 <= k < a.len() implies #[trigger] c[k] == a[k] by {
        assert(c[k] == b[k]);
        assert(b[k] == a[k]);
    }
    assert forall|k: int| #[trigger] codigo::tem(qa, k) implies codigo::tem(qc, k) by {
        assert(codigo::tem(qb, k));
    }
    assert forall|k: int| #[trigger] codigo::tem(qc, k) implies codigo::tem(qa, k) || a.len() <= k < c.len() by {
        if codigo::tem(qb, k) {
            assert(codigo::tem(qa, k) || a.len() <= k < b.len());
        }
    }
    assert forall|k: int| #[trigger] codigo::tem(qc, k) && k >= a.len() implies c[k] == Comando::Jump(0) by {
        if k < b.len() {
            assert(codigo::tem(qb, k));
            assert(c[k] == b[k]);
        }
    }
}

/// Emitir codigo sem posicoes novas.
pub(crate) proof fn lema_solto(a: Seq<Comando>, b: Seq<Comando>, q: Seq<usize>)
    requires
        codigo::anteriores(q, a.len() as int),
        a.len() <= b.len(),
        b.subrange(0, a.len() as int) == a,
    ensures
        codigo::emitiu(a, b, q, q),
{
    reveal(codigo::trecho);
    reveal(codigo::emitiu);
    assert forall|k: int| 0 <= k < a.len() implies #[trigger] b[k] == a[k] by {
        assert(b.subrange(0, a.len() as int)[k] == b[k]);
    }
}

pub(crate) proof fn lema_emitiu_troca(a: Seq<Comando>, s: Seq<Comando>, qa: Seq<usize>, qs: Seq<usize>, i: int, c: Comando)
    requires
        codigo::emitiu(a, s, qa, qs),
        a.len() <= i < s.len(),
        !codigo::tem(qs, i),
    ensures
        codigo::emitiu(a, s.update(i, c), qa, qs),
{
    reveal(codigo::trecho);
    reveal(codigo::emitiu);
}

pub(crate) proof fn lema_emitiu_mais(a: Seq<Comando>, s: Seq<Comando>, qa: Seq<usize>, qs: Seq<usize>, c: Comando)
    requires
        codigo::emitiu(a, s, qa, qs),
    ensures
        codigo::emitiu(a, s.push(c), qa, qs),
{
    reveal(codigo::trecho);
    reveal(codigo::emitiu);
}

/// O que se sabe de um codigo que cresceu.
pub(crate) proof fn lema_emitiu_vale(a: Seq<Comando>, s: Seq<Comando>, qa: Seq<usize>, qs: Seq<usize>)
    requires
        codigo::emitiu(a, s, qa, qs),
    ensures
        a.len() <= s.len(),
        codigo::anteriores(qs, s.len() as int),
        codigo::cresceu(a, s, qa, qs),
{
    reveal(codigo::emitiu);
}

/// Uma posicao da parte antiga que nao estava na lista continua fora dela.
pub(crate) proof fn lema_emitiu_fora(a: Seq<Comando>, s: Seq<Comando>, qa: Seq<usize>, qs: Seq<usize>, i: int)
    requires
        codigo::emitiu(a, s, qa, qs),
        0 <= i < a.len(),
        !codigo::tem(qa, i),
    ensures
        !codigo::tem(qs, i),
        s[i] == a[i],
        a.len() <= s.len(),
{
    reveal(codigo::emitiu);
}

pub(crate) proof fn lema_trecho_len(s: Seq<Comando>, qs: Seq<usize>, b: int, f: int)
    requires
        0 <= b <= s.len(),
    ensures
        codigo::trecho(s, qs, b, f).len() == s.len() - b,
{
    reveal(codigo::trecho);
}

/// Trocar uma instrucao fora das posicoes remendadas.
pub(crate) proof fn lema_troca(s: Seq<Comando>, qs: Seq<usize>, i: int, c: Comando, b: int, f: int)
    requires
        0 <= b <= i < s.len(),
        !codigo::tem(qs, i),
    ensures
        codigo::trecho(s.update(i, c), qs, b, f) == codigo::trecho(s, qs, b, f).update(i - b, c),
{
    reveal(codigo::trecho);
    reveal(codigo::emitiu);
    assert(codigo::trecho(s.update(i, c), qs, b, f) =~= codigo::trecho(s, qs, b, f).update(i - b, c));
}

/// Emitir uma instrucao.
pub(crate) proof fn lema_mais_um(s: Seq<Comando>, qs: Seq<usize>, c: Comando, b: int, f: int)
    requires
        0 <= b <= s.len(),
        codigo::anteriores(qs, s.len() as int),
    ensures
        codigo::trecho(s.push(c), qs, b, f) == codigo::trecho(s, qs, b, f).push(c),
{
    reveal(codigo::trecho);
    reveal(codigo::emitiu);
    assert(!codigo::tem(qs, s.len() as int));
    assert(codigo::trecho(s.push(c), qs, b, f) =~= codigo::trecho(s, qs, b, f).push(c));
}

pub(crate) proof fn lema_bloco_falha(v: Seq<ArvoreInstr>, i: int, n: int, b: int, ini: Option<int>, f: int)
    requires
        0 <= i < n <= v.len(),
        codigo::codigo_bloco(v, i + 1, b, ini, f) is None,
    ensures
        codigo::codigo_bloco(v, n, b, ini, f) is None,
    decreases n,
{
    if n > i + 1 {
        lema_bloco_falha(v, i, n - 1, b, ini, f);
    }
}

pub(crate) proof fn lema_exprs_falha(v: Seq<ArvoreExpr>, i: int, n: int, b: int)
    requires
        0 <= i < n <= v.len(),
        codigo::codigo_exprs(v, i + 1, b) is None,
    ensures
        codigo::codigo_exprs(v, n, b) is None,
    decreases n,
{
    if n > i + 1 {
        lema_exprs_falha(v, i, n - 1, b);
    }
}

pub(crate) proof fn lema_pares_falha(v: Seq<(Seq<char>, ArvoreExpr)>, i: int, n: int, b: int)
    requires
        0 <= i < n <= v.len(),
        codigo::codigo_pares(v, i + 1, b) is None,
    ensures
        codigo::codigo_pares(v, n, b) is None,
    decreases n,
{
    if n > i + 1 {
        lema_pares_falha(v, i, n - 1, b);
    }
}

} // verus!
