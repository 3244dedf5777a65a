//! O codigo dos casos de um `escolher`, a partir dos trechos de que e feito.

use vstd::prelude::*;
use crate::ast::{ArvoreExpr, ArvoreInstr};
use crate::bytecode::Comando;
use crate::codigo;
use crate::remendos;

verus! {

pub(crate) proof fn lema_testes_falha(v: Seq<ArvoreExpr>, i: int, n: int, g: Seq<char>, b: int, alvo: int)
    requires
        0 <= i < n <= v.len(),
        codigo::codigo_testes(v, i + 1, g, b, alvo) is None,
    ensures
        codigo::codigo_testes(v, n, g, b, alvo) is None,
    decreases n,
{
    if n > i + 1 {
        lema_testes_falha(v, i, n - 1, g, b, alvo);
    }
}

pub(crate) proof fn lema_casos_falha(
    v: Seq<(Seq<ArvoreExpr>, Seq<ArvoreInstr>)>,
    i: int,
    n: int,
    g: Seq<char>,
    b: int,
    ini: Option<int>,
    f: int,
    d: int,
)
    requires
        0 <= i < n <= v.len(),
        codigo::codigo_casos(v, i + 1, g, b, ini, f, d) is None,
    ensures
        codigo::codigo_casos(v, n, g, b, ini, f, d) is None,
    decreases n,
{
    if n > i + 1 {
        lema_casos_falha(v, i, n - 1, g, b, ini, f, d);
    }
}

pub(crate) proof fn lema_teste_cresce(c: Seq<Comando>, c1: Seq<Comando>, c2: Seq<Comando>, vai: Seq<usize>, p: usize)
    requires
        codigo::cresceu(c, c1, Seq::empty(), vai),
        codigo::anteriores(vai, c1.len() as int),
        c1.len() <= p,
        p == c2.len() - 1,
        forall|k: int| 0 <= k < c1.len() ==> #[trigger] c2[k] == c1[k],
    ensures
        codigo::cresceu(c, c2, Seq::empty(), vai.push(p)),
        codigo::anteriores(vai.push(p), c2.len() as int),
{
    remendos::lema_tem_push(vai, p);
    assert forall|k: int| 0 <= k < c.len() implies #[trigger] c2[k] == c[k] by {
        assert(c2[k] == c1[k]);
        assert(c1[k] == c[k]);
    }
}

pub(crate) proof fn lema_teste(
    c1: Seq<Comando>,
    c2: Seq<Comando>,
    vai: Seq<usize>,
    p: usize,
    y: Seq<Comando>,
    g: Seq<char>,
    b: int,
    alvo: int,
)
    requires
        0 <= b <= c1.len(),
        codigo::anteriores(vai, c1.len() as int),
        c2 == c1.push(Comando::Load(g)) + y + seq![Comando::Eq, Comando::JumpTrue(0)],
        p == c2.len() - 1,
    ensures
        codigo::trecho(c2, vai.push(p), b, alvo) == codigo::trecho(c1, vai, b, alvo).push(Comando::Load(g)) + y + seq![
            Comando::Eq,
            Comando::JumpTrue(alvo),
        ],
{
    reveal(codigo::trecho);
    remendos::lema_tem_push(vai, p);
    let x = codigo::trecho(c2, vai.push(p), b, alvo);
    let z = codigo::trecho(c1, vai, b, alvo).push(Comando::Load(g)) + y + seq![Comando::Eq, Comando::JumpTrue(alvo)];
    assert(x.len() == z.len());
    assert forall|k: int| 0 <= k < x.len() implies x[k] == z[k] by {
        assert(codigo::tem(vai.push(p), b + k) <==> codigo::tem(vai, b + k) || b + k == p);
        if b + k >= c1.len() {
            assert(!codigo::tem(vai, b + k));
        }
    }
    assert(x =~= z);
}

pub(crate) proof fn lema_testado(c: Seq<Comando>, ct: Seq<Comando>, vai: Seq<usize>, q: Seq<usize>)
    requires
        codigo::anteriores(q, c.len() as int),
        codigo::cresceu(c, ct, Seq::empty(), vai),
        codigo::anteriores(vai, ct.len() as int),
    ensures
        codigo::emitiu(c, codigo::testado(ct, vai), q, q),
        codigo::testado(ct, vai).len() == ct.len() + 1,
        codigo::testado(ct, vai)[ct.len() as int] == Comando::Jump(0),
        codigo::testado(ct, vai).subrange(c.len() as int, (ct.len() + 1) as int) == codigo::trecho(
            ct,
            vai,
            c.len() as int,
            (ct.len() + 1) as int,
        ).push(Comando::Jump(0)),
{
    reveal(codigo::trecho);
    let s = codigo::testado(ct, vai);
    assert(!codigo::tem(vai, ct.len() as int));
    assert forall|k: int| 0 <= k < c.len() implies s[k] == c[k] by {
        assert(!codigo::tem(Seq::<usize>::empty(), k));
        assert(!codigo::tem(vai, k));
        assert(ct[k] == c[k]);
    }
    assert(s.subrange(0, c.len() as int) =~= c);
    remendos::lema_solto(c, s, q);
    assert(s.subrange(c.len() as int, (ct.len() + 1) as int) =~= codigo::trecho(
        ct,
        vai,
        c.len() as int,
        (ct.len() + 1) as int,
    ).push(Comando::Jump(0)));
}

pub(crate) proof fn lema_caso_falha(
    a: (Seq<ArvoreExpr>, Seq<ArvoreInstr>),
    g: Seq<char>,
    b: int,
    ini: Option<int>,
    ct: Seq<Comando>,
    vai: Seq<usize>,
)
    requires
        0 <= b <= ct.len(),
        forall|alvo: int| #[trigger] codigo::codigo_testes(a.0, a.0.len() as int, g, b, alvo) == Some(
            codigo::trecho(ct, vai, b, alvo),
        ),
        forall|f: int| (#[trigger] codigo::codigo_todo(a.1, (ct.len() + 1) as int, ini, f)) is None,
    ensures
        forall|f: int| (#[trigger] codigo::codigo_caso(a, g, b, ini, f, 0)) is None,
{
    assert forall|f: int| (#[trigger] codigo::codigo_caso(a, g, b, ini, f, 0)) is None by {
        assert(codigo::codigo_testes(a.0, a.0.len() as int, g, b, 0) == Some(codigo::trecho(ct, vai, b, 0)));
        remendos::lema_trecho_len(ct, vai, b, 0);
        assert(codigo::codigo_todo(a.1, (ct.len() + 1) as int, ini, f) is None);
    }
}

pub(crate) proof fn lema_caso_pontas(
    c: Seq<Comando>,
    ct: Seq<Comando>,
    vai: Seq<usize>,
    d: Seq<Comando>,
    q: Seq<usize>,
    q1: Seq<usize>,
)
    requires
        codigo::anteriores(q, c.len() as int),
        codigo::cresceu(c, ct, Seq::empty(), vai),
        codigo::anteriores(vai, ct.len() as int),
        codigo::emitiu(codigo::testado(ct, vai), d, q, q1),
    ensures
        ct.len() < d.len(),
        d[ct.len() as int] == Comando::Jump(0),
{
    lema_testado(c, ct, vai, q);
    assert(!codigo::tem(q, ct.len() as int));
    remendos::lema_emitiu_fora(codigo::testado(ct, vai), d, q, q1, ct.len() as int);
}

/// O codigo de um caso, dados os dos testes e o do bloco.
pub(crate) proof fn lema_caso_valor(
    a: (Seq<ArvoreExpr>, Seq<ArvoreInstr>),
    g: Seq<char>,
    b: int,
    ini: Option<int>,
    f: int,
    t0: Seq<Comando>,
    t: Seq<Comando>,
    x: Seq<Comando>,
)
    requires
        codigo::codigo_testes(a.0, a.0.len() as int, g, b, 0) == Some(t0),
        codigo::codigo_testes(a.0, a.0.len() as int, g, b, b + t0.len() + 1) == Some(t),
        codigo::codigo_todo(a.1, b + t0.len() + 1, ini, f) == Some(x),
    ensures
        codigo::codigo_caso(a, g, b, ini, f, 0) == Some(
            t.push(Comando::Jump(b + t0.len() + 1 + x.len() + 1)) + x.push(Comando::Jump(0)),
        ),
{
}

/// O codigo de um caso com o desvio remendado. `c1` e o codigo com os testes.
pub(crate) proof fn lema_caso_trecho(
    c1: Seq<Comando>,
    d: Seq<Comando>,
    q: Seq<usize>,
    q1: Seq<usize>,
    t: Seq<Comando>,
    b: int,
    salto: Comando,
    f: int,
)
    requires
        0 <= b < c1.len(),
        codigo::anteriores(q, b),
        codigo::emitiu(c1, d, q, q1),
        c1.subrange(b, c1.len() as int) == t.push(Comando::Jump(0)),
    ensures
        codigo::trecho(d.push(Comando::Jump(0)).update(c1.len() - 1, salto), q1, b, f) == t.push(salto) + codigo::trecho(
            d,
            q1,
            c1.len() as int,
            f,
        ).push(Comando::Jump(0)),
        codigo::trecho(d, q1, c1.len() as int, f).len() == d.len() - c1.len(),
{
    let n = c1.len() - 1;
    let x = codigo::trecho(d, q1, c1.len() as int, f);
    assert(!codigo::tem(q, n));
    remendos::lema_emitiu_vale(c1, d, q, q1);
    remendos::lema_emitiu_fora(c1, d, q, q1, n);
    remendos::lema_trecho_limpo(c1, q, b, f);
    remendos::lema_trecho(c1, d, q, q1, b, f);
    remendos::lema_mais_um(d, q1, Comando::Jump(0), b, f);
    remendos::lema_troca(d.push(Comando::Jump(0)), q1, n, salto, b, f);
    assert(c1.subrange(b, c1.len() as int).len() == c1.len() - b);
    assert(t.len() == n - b);
    lema_troca_no_meio(t, x, salto);
}

proof fn lema_troca_no_meio(t: Seq<Comando>, x: Seq<Comando>, salto: Comando)
    ensures
        (t.push(Comando::Jump(0)) + x).push(Comando::Jump(0)).update(t.len() as int, salto) == t.push(salto) + x.push(
            Comando::Jump(0),
        ),
{
    assert((t.push(Comando::Jump(0)) + x).push(Comando::Jump(0)).update(t.len() as int, salto) =~= t.push(salto)
        + x.push(Comando::Jump(0)));
}

proof fn lema_caso_em(
    a: (Seq<ArvoreExpr>, Seq<ArvoreInstr>),
    g: Seq<char>,
    ini: Option<int>,
    c1: Seq<Comando>,
    ct: Seq<Comando>,
    vai: Seq<usize>,
    d: Seq<Comando>,
    q: Seq<usize>,
    q1: Seq<usize>,
    b: int,
    f: int,
)
    requires
        0 <= b <= ct.len(),
        c1.len() == ct.len() + 1,
        codigo::anteriores(q, b),
        codigo::emitiu(c1, d, q, q1),
        c1.subrange(b, c1.len() as int) == codigo::trecho(ct, vai, b, (ct.len() + 1) as int).push(Comando::Jump(0)),
        codigo::codigo_testes(a.0, a.0.len() as int, g, b, 0) == Some(codigo::trecho(ct, vai, b, 0)),
        codigo::codigo_testes(a.0, a.0.len() as int, g, b, (ct.len() + 1) as int) == Some(
            codigo::trecho(ct, vai, b, (ct.len() + 1) as int),
        ),
        codigo::codigo_todo(a.1, (ct.len() + 1) as int, ini, f) == Some(
            codigo::trecho(d, q1, (ct.len() + 1) as int, f),
        ),
    ensures
        codigo::codigo_caso(a, g, b, ini, f, 0) == Some(
            codigo::trecho(
                d.push(Comando::Jump(0)).update(ct.len() as int, Comando::Jump((d.len() + 1) as int)),
                q1,
                b,
                f,
            ),
        ),
{
    let n = ct.len() as int;
    let t0 = codigo::trecho(ct, vai, b, 0);
    let t = codigo::trecho(ct, vai, b, n + 1);
    let x = codigo::trecho(d, q1, n + 1, f);
    remendos::lema_trecho_len(ct, vai, b, 0);
    lema_caso_trecho(c1, d, q, q1, t, b, Comando::Jump((d.len() + 1) as int), f);
    assert(b + t0.len() + 1 == n + 1);
    lema_caso_valor(a, g, b, ini, f, t0, t, x);
}

/// O codigo de um caso compilado por inteiro.
pub(crate) proof fn lema_caso_todo(
    a: (Seq<ArvoreExpr>, Seq<ArvoreInstr>),
    g: Seq<char>,
    ini: Option<int>,
    c: Seq<Comando>,
    ct: Seq<Comando>,
    vai: Seq<usize>,
    d: Seq<Comando>,
    q: Seq<usize>,
    q1: Seq<usize>,
)
    requires
        codigo::anteriores(q, c.len() as int),
        codigo::cresceu(c, ct, Seq::empty(), vai),
        codigo::anteriores(vai, ct.len() as int),
        codigo::emitiu(codigo::testado(ct, vai), d, q, q1),
        forall|alvo: int| #[trigger] codigo::codigo_testes(a.0, a.0.len() as int, g, c.len() as int, alvo) == Some(
            codigo::trecho(ct, vai, c.len() as int, alvo),
        ),
        forall|f: int| #[trigger] codigo::codigo_todo(a.1, (ct.len() + 1) as int, ini, f) == Some(
            codigo::trecho(d, q1, (ct.len() + 1) as int, f),
        ),
    ensures
        ({
            let e = d.push(Comando::Jump(0)).update(ct.len() as int, Comando::Jump((d.len() + 1) as int));
            &&& codigo::emitiu(c, e, q, q1)
            &&& e.len() > c.len()
            &&& e.last() == Comando::Jump(0)
            &&& !codigo::tem(q1, e.len() - 1)
            &&& forall|f: int| #[trigger] codigo::codigo_caso(a, g, c.len() as int, ini, f, 0) == Some(
                codigo::trecho(e, q1, c.len() as int, f),
            )
        }),
{
    let b = c.len() as int;
    let n = ct.len() as int;
    let c1 = codigo::testado(ct, vai);
    let salto = Comando::Jump((d.len() + 1) as int);
    let e = d.push(Comando::Jump(0)).update(n, salto);
    lema_testado(c, ct, vai, q);
    lema_caso_cresce(c, c1, d, q, q1, salto);
    assert forall|f: int| #[trigger] codigo::codigo_caso(a, g, b, ini, f, 0) == Some(codigo::trecho(e, q1, b, f)) by {
        assert(codigo::codigo_testes(a.0, a.0.len() as int, g, b, 0) == Some(codigo::trecho(ct, vai, b, 0)));
        assert(codigo::codigo_testes(a.0, a.0.len() as int, g, b, n + 1) == Some(codigo::trecho(ct, vai, b, n + 1)));
        assert(codigo::codigo_todo(a.1, n + 1, ini, f) == Some(codigo::trecho(d, q1, n + 1, f)));
        lema_caso_em(a, g, ini, c1, ct, vai, d, q, q1, b, f);
    }
}

proof fn lema_caso_cresce(
    c: Seq<Comando>,
    c1: Seq<Comando>,
    d: Seq<Comando>,
    q: Seq<usize>,
    q1: Seq<usize>,
    salto: Comando,
)
    requires
        c.len() < c1.len(),
        codigo::anteriores(q, c.len() as int),
        codigo::emitiu(c, c1, q, q),
        codigo::emitiu(c1, d, q, q1),
    ensures
        ({
            let e = d.push(Comando::Jump(0)).update(c1.len() - 1, salto);
            &&& codigo::emitiu(c, e, q, q1)
            &&& e.len() > c.len()
            &&& e.last() == Comando::Jump(0)
            &&& !codigo::tem(q1, e.len() - 1)
        }),
{
    let n = c1.len() - 1;
    remendos::lema_emitiu_vale(c1, d, q, q1);
    assert(!codigo::tem(q, n));
    remendos::lema_emitiu_fora(c1, d, q, q1, n);
    remendos::lema_emitiu(c, c1, d, q, q, q1);
    remendos::lema_emitiu_mais(c, d, q, q1, Comando::Jump(0));
    remendos::lema_emitiu_troca(c, d.push(Comando::Jump(0)), q, q1, n, salto);
    assert(!codigo::tem(q1, d.len() as int));
}

/// O salto do fim de um caso e o unico que depende de onde os casos acabam.
pub(crate) proof fn lema_caso_depois(
    a: (Seq<ArvoreExpr>, Seq<ArvoreInstr>),
    g: Seq<char>,
    b: int,
    ini: Option<int>,
    f: int,
    d: int,
)
    ensures
        codigo::codigo_caso(a, g, b, ini, f, d) == match codigo::codigo_caso(a, g, b, ini, f, 0) {
            Some(y) => Some(y.update(y.len() - 1, Comando::Jump(d))),
            None => None,
        },
{
    let x = codigo::codigo_caso(a, g, b, ini, f, d);
    if x is Some {
        let y = codigo::codigo_caso(a, g, b, ini, f, 0)->Some_0;
        assert(x->Some_0 =~= y.update(y.len() - 1, Comando::Jump(d)));
    }
}

pub(crate) proof fn lema_casos_quebra(
    t: Seq<(Seq<ArvoreExpr>, Seq<ArvoreInstr>)>,
    i: int,
    g: Seq<char>,
    b: int,
    ini: Option<int>,
    c1: Seq<Comando>,
    q1: Seq<usize>,
    fins: Seq<usize>,
)
    requires
        0 <= i < t.len(),
        0 <= b <= c1.len(),
        forall|f: int, d: int| #[trigger] codigo::codigo_casos(t, i, g, b, ini, f, d) == Some(
            codigo::trecho(codigo::remendo(c1, fins, d), q1, b, f),
        ),
        forall|f: int| (#[trigger] codigo::codigo_caso(t[i], g, c1.len() as int, ini, f, 0)) is None,
    ensures
        forall|f: int, d: int| (#[trigger] codigo::codigo_casos(t, t.len() as int, g, b, ini, f, d)) is None,
{
    assert forall|f: int, d: int| (#[trigger] codigo::codigo_casos(t, t.len() as int, g, b, ini, f, d)) is None by {
        assert(codigo::codigo_casos(t, i, g, b, ini, f, d) == Some(codigo::trecho(codigo::remendo(c1, fins, d), q1, b, f)));
        remendos::lema_trecho_len(codigo::remendo(c1, fins, d), q1, b, f);
        assert(codigo::codigo_caso(t[i], g, c1.len() as int, ini, f, 0) is None);
        lema_caso_depois(t[i], g, c1.len() as int, ini, f, d);
        lema_casos_falha(t, i, t.len() as int, g, b, ini, f, d);
    }
}

/// Mais um caso.
pub(crate) proof fn lema_casos_passo(
    t: Seq<(Seq<ArvoreExpr>, Seq<ArvoreInstr>)>,
    i: int,
    g: Seq<char>,
    b: int,
    ini: Option<int>,
    c1: Seq<Comando>,
    c2: Seq<Comando>,
    q1: Seq<usize>,
    q2: Seq<usize>,
    fins: Seq<usize>,
    p: usize,
)
    requires
        0 <= i < t.len(),
        0 <= b <= c1.len(),
        forall|f: int, d: int| #[trigger] codigo::codigo_casos(t, i, g, b, ini, f, d) == Some(
            codigo::trecho(codigo::remendo(c1, fins, d), q1, b, f),
        ),
        forall|f: int| #[trigger] codigo::codigo_caso(t[i], g, c1.len() as int, ini, f, 0) == Some(
            codigo::trecho(c2, q2, c1.len() as int, f),
        ),
        codigo::emitiu(c1, c2, q1, q2),
        codigo::separados(fins, q1, b, c1.len() as int),
        c1.len() <= p,
        p == c2.len() - 1,
        !codigo::tem(q2, p as int),
        c2[p as int] == Comando::Jump(0),
    ensures
        codigo::separados(fins.push(p), q2, b, c2.len() as int),
        forall|f: int, d: int| #[trigger] codigo::codigo_casos(t, i + 1, g, b, ini, f, d) == Some(
            codigo::trecho(codigo::remendo(c2, fins.push(p), d), q2, b, f),
        ),
{
    remendos::lema_tem_push(fins, p);
    remendos::lema_emitiu_vale(c1, c2, q1, q2);
    assert forall|k: int| #[trigger] codigo::tem(fins.push(p), k) implies b <= k < c2.len() && !codigo::tem(q2, k) by {
        if codigo::tem(fins, k) {
            remendos::lema_emitiu_fora(c1, c2, q1, q2, k);
        }
    }
    assert forall|f: int, d: int| #[trigger] codigo::codigo_casos(t, i + 1, g, b, ini, f, d) == Some(
        codigo::trecho(codigo::remendo(c2, fins.push(p), d), q2, b, f),
    ) by {
        assert(codigo::codigo_casos(t, i, g, b, ini, f, d) == Some(codigo::trecho(codigo::remendo(c1, fins, d), q1, b, f)));
        remendos::lema_trecho_len(codigo::remendo(c1, fins, d), q1, b, f);
        assert(codigo::codigo_caso(t[i], g, c1.len() as int, ini, f, 0) == Some(codigo::trecho(c2, q2, c1.len() as int, f)));
        remendos::lema_trecho_len(c2, q2, c1.len() as int, f);
        lema_caso_depois(t[i], g, c1.len() as int, ini, f, d);
        lema_junta(c1, c2, q1, q2, fins, p, b, f, d);
    }
}

pub(crate) proof fn lema_junta(
    c1: Seq<Comando>,
    c2: Seq<Comando>,
    q1: Seq<usize>,
    q2: Seq<usize>,
    fins: Seq<usize>,
    p: usize,
    b: int,
    f: int,
    d: int,
)
    requires
        0 <= b <= c1.len(),
        codigo::cresceu(c1, c2, q1, q2),
        codigo::separados(fins, q1, b, c1.len() as int),
        c1.len() <= p,
        p == c2.len() - 1,
        !codigo::tem(q2, p as int),
        c2[p as int] == Comando::Jump(0),
    ensures
        codigo::trecho(codigo::remendo(c2, fins.push(p), d), q2, b, f) == codigo::trecho(codigo::remendo(c1, fins, d), q1, b, f) + codigo::trecho(
            c2,
            q2,
            c1.len() as int,
            f,
        ).update(c2.len() - 1 - c1.len(), Comando::Jump(d)),
{
    let s1 = codigo::remendo(c1, fins, d);
    let s2 = codigo::remendo(c2, fins.push(p), d);
    let n = c1.len() as int;
    remendos::lema_tem_push(fins, p);
    assert forall|k: int| 0 <= k < s1.len() implies #[trigger] s2[k] == s1[k] by {
        assert(c2[k] == c1[k]);
        assert(codigo::tem(fins.push(p), k) <==> codigo::tem(fins, k) || k == p);
    }
    assert(codigo::cresceu(s1, s2, q1, q2));
    remendos::lema_trecho(s1, s2, q1, q2, b, f);
    remendos::lema_troca(c2, q2, p as int, Comando::Jump(d), n, f);
    assert(codigo::trecho(s2, q2, n, f) =~= codigo::trecho(c2.update(p as int, Comando::Jump(d)), q2, n, f)) by {
        reveal(codigo::trecho);
        let s3 = c2.update(p as int, Comando::Jump(d));
        assert forall|k: int| n <= k < c2.len() implies s2[k] == s3[k] by {
            assert(codigo::tem(fins.push(p), k) <==> codigo::tem(fins, k) || k == p);
            assert(!codigo::tem(fins, k));
        }
        assert forall|k: int| 0 <= k < c2.len() - n implies codigo::trecho(s2, q2, n, f)[k] == codigo::trecho(s3, q2, n, f)[k] by {
            assert(s2[n + k] == s3[n + k]);
        }
    }
}

/// Levar os saltos do fim dos casos para depois de todos nao mexe nos saltos de `pare`.
pub(crate) proof fn lema_escolha(
    c: Seq<Comando>,
    c1: Seq<Comando>,
    d1: Seq<Comando>,
    d2: Seq<Comando>,
    q: Seq<usize>,
    q1: Seq<usize>,
    q2: Seq<usize>,
    fins: Seq<usize>,
)
    requires
        codigo::anteriores(q, c.len() as int),
        c.len() <= c1.len(),
        c1.subrange(0, c.len() as int) == c,
        codigo::emitiu(c1, d1, q, q1),
        codigo::emitiu(d1, d2, q1, q2),
        codigo::separados(fins, q1, c1.len() as int, d1.len() as int),
    ensures
        codigo::emitiu(c1, codigo::remendo(d1, fins, d2.len() as int), q, q1),
        codigo::emitiu(codigo::remendo(d1, fins, d2.len() as int), codigo::remendo(d2, fins, d2.len() as int), q1, q2),
        codigo::emitiu(c, codigo::remendo(d2, fins, d2.len() as int), q, q2),
        codigo::emitiu(c, c1, q, q),
{
    let fim = d2.len() as int;
    let s1 = codigo::remendo(d1, fins, fim);
    let s2 = codigo::remendo(d2, fins, fim);
    remendos::lema_emitiu_vale(c1, d1, q, q1);
    remendos::lema_emitiu_vale(d1, d2, q1, q2);
    assert(codigo::emitiu(c1, s1, q, q1)) by {
        reveal(codigo::emitiu);
        assert forall|k: int| 0 <= k < c1.len() implies #[trigger] s1[k] == c1[k] by {
            assert(!codigo::tem(fins, k));
            assert(d1[k] == c1[k]);
        }
        assert forall|k: int| #[trigger] codigo::tem(q1, k) && k >= c1.len() implies s1[k] == Comando::Jump(0) by {
            assert(!codigo::tem(fins, k));
        }
    }
    assert(codigo::emitiu(s1, s2, q1, q2)) by {
        reveal(codigo::emitiu);
        assert forall|k: int| 0 <= k < s1.len() implies #[trigger] s2[k] == s1[k] by {
            assert(d2[k] == d1[k]);
        }
        assert forall|k: int| #[trigger] codigo::tem(q2, k) && k >= s1.len() implies s2[k] == Comando::Jump(0) by {
            assert(!codigo::tem(fins, k));
        }
    }
    remendos::lema_solto(c, c1, q);
    remendos::lema_emitiu(c, c1, s1, q, q, q1);
    remendos::lema_emitiu(c, s1, s2, q, q1, q2);
}

pub(crate) proof fn lema_escolha_trecho(
    c: Seq<Comando>,
    c1: Seq<Comando>,
    d1: Seq<Comando>,
    d2: Seq<Comando>,
    q: Seq<usize>,
    q1: Seq<usize>,
    q2: Seq<usize>,
    fins: Seq<usize>,
    f: int,
)
    requires
        codigo::anteriores(q, c.len() as int),
        c.len() <= c1.len(),
        c1.subrange(0, c.len() as int) == c,
        codigo::emitiu(c1, d1, q, q1),
        codigo::emitiu(d1, d2, q1, q2),
        codigo::separados(fins, q1, c1.len() as int, d1.len() as int),
    ensures
        codigo::trecho(codigo::remendo(d2, fins, d2.len() as int), q2, c.len() as int, f) == c1.subrange(
            c.len() as int,
            c1.len() as int,
        ) + (codigo::trecho(codigo::remendo(d1, fins, d2.len() as int), q1, c1.len() as int, f) + codigo::trecho(
            d2,
            q2,
            d1.len() as int,
            f,
        )),
{
    let b = c.len() as int;
    let fim = d2.len() as int;
    let s1 = codigo::remendo(d1, fins, fim);
    let s2 = codigo::remendo(d2, fins, fim);
    let n = d1.len() as int;
    remendos::lema_emitiu_vale(c1, d1, q, q1);
    remendos::lema_emitiu_vale(d1, d2, q1, q2);
    lema_escolha(c, c1, d1, d2, q, q1, q2, fins);
    remendos::lema_emitiu_vale(c1, s1, q, q1);
    remendos::lema_emitiu_vale(s1, s2, q1, q2);
    remendos::lema_trecho_limpo(c1, q, b, f);
    remendos::lema_trecho(c1, s1, q, q1, b, f);
    remendos::lema_trecho(s1, s2, q1, q2, b, f);
    assert(codigo::trecho(s2, q2, n, f) =~= codigo::trecho(d2, q2, n, f)) by {
        reveal(codigo::trecho);
        assert forall|k: int| n <= k < d2.len() implies s2[k] == d2[k] by {
            assert(!codigo::tem(fins, k));
        }
        assert forall|k: int| 0 <= k < d2.len() - n implies codigo::trecho(s2, q2, n, f)[k] == codigo::trecho(d2, q2, n, f)[k] by {
            assert(s2[n + k] == d2[n + k]);
        }
    }
    let x = c1.subrange(b, c1.len() as int);
    let y = codigo::trecho(s1, q1, c1.len() as int, f);
    let z = codigo::trecho(d2, q2, n, f);
    assert((x + y) + z =~= x + (y + z));
}

} // verus!
