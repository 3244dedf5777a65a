//! O codigo das instrucoes, a partir dos trechos de que e feito.

use vstd::prelude::*;
use crate::ast::{ArvoreInstr};
use crate::bytecode::Comando;
use crate::codigo;
use crate::remendos;

verus! {

/// Fora de laco, `pare` salta para o endereco zero: o codigo emitido ja tem esse alvo.
pub(crate) proof fn lema_saltos_soltos(v: Seq<ArvoreInstr>, c: Seq<Comando>, qs: Seq<usize>)
    requires
        codigo::codigo_todo(v, 0, None, 0) == Some(codigo::trecho(c, qs, 0, 0)),
        forall|k: int| #[trigger] codigo::tem(qs, k) ==> 0 <= k < c.len() && c[k] == Comando::Jump(0),
    ensures
        codigo::codigo_todo(v, 0, None, 0) == Some(c),
{
    reveal(codigo::trecho);
    reveal(codigo::emitiu);
    assert(codigo::trecho(c, qs, 0, 0) =~= c);
}

/// O codigo de um laco depois de remendado: `pre`, a saida, `meio`, o corpo e a volta.
pub(crate) proof fn lema_laco(
    pre: Seq<Comando>,
    s0: Comando,
    meio: Seq<Comando>,
    d: Seq<Comando>,
    qs: Seq<usize>,
    saida: Comando,
    volta: Seq<Comando>,
    fim: int,
)
    requires
        codigo::emitiu(pre.push(s0) + meio, d, Seq::empty(), qs),
    ensures
        codigo::remendo((d + volta).update(pre.len() as int, saida), qs, fim) == pre.push(saida) + meio + codigo::trecho(
            d,
            qs,
            (pre.len() + 1 + meio.len()) as int,
            fim,
        ) + volta,
{
    reveal(codigo::trecho);
    reveal(codigo::emitiu);
    let b = pre.len() + 1 + meio.len();
    let c1 = pre.push(s0) + meio;
    let x = codigo::remendo((d + volta).update(pre.len() as int, saida), qs, fim);
    let y = pre.push(saida) + meio + codigo::trecho(d, qs, b as int, fim) + volta;
    assert(x.len() == y.len());
    assert forall|k: int| 0 <= k < x.len() implies x[k] == y[k] by {
        assert(!codigo::tem(Seq::<usize>::empty(), k));
        if k < b {
            assert(!codigo::tem(qs, k));
            assert(d[k] == c1[k]);
        } else if k >= d.len() {
            assert(!codigo::tem(qs, k));
        }
    }
    assert(x =~= y);
}

/// O codigo de uma instrucao, parte por parte.
pub(crate) proof fn lema_partes(a: ArvoreInstr, b: int, ini: Option<int>)
    ensures
        forall|f: int| #[trigger] codigo::codigo_instr(a, b, ini, f) == codigo::codigo_partes(a, b, ini, f),
{
    assert forall|f: int| #[trigger] codigo::codigo_instr(a, b, ini, f) == codigo::codigo_partes(a, b, ini, f) by {
        lema_parte(a, b, ini, f);
    }
}

pub(crate) proof fn lema_parte(a: ArvoreInstr, b: int, ini: Option<int>, f: int)
    ensures
        codigo::codigo_instr(a, b, ini, f) == codigo::codigo_partes(a, b, ini, f),
{
    match a {
        ArvoreInstr::Se { .. } => lema_parte_se(a, b, ini, f),
        ArvoreInstr::Enquanto { .. } => lema_parte_enquanto(a, b, ini, f),
        ArvoreInstr::Para { .. } => lema_parte_para(a, b, ini, f),
        ArvoreInstr::ParaIntervalo { .. } => lema_parte_intervalo(a, b, ini, f),
        ArvoreInstr::Escolher { .. } => lema_parte_escolher(a, b, ini, f),
        ArvoreInstr::Tentar { .. } => lema_parte_tentar(a, b, ini, f),
        _ => lema_parte_simples(a, b, ini, f),
    }
}

pub(crate) proof fn lema_parte_se(a: ArvoreInstr, b: int, ini: Option<int>, f: int)
    requires
        a is Se,
    ensures
        codigo::codigo_instr(a, b, ini, f) == codigo::codigo_se(a, b, ini, f),
{
}

pub(crate) proof fn lema_parte_enquanto(a: ArvoreInstr, b: int, ini: Option<int>, f: int)
    requires
        a is Enquanto,
    ensures
        codigo::codigo_instr(a, b, ini, f) == codigo::codigo_enquanto(a, b),
{
}

pub(crate) proof fn lema_parte_para(a: ArvoreInstr, b: int, ini: Option<int>, f: int)
    requires
        a is Para,
    ensures
        codigo::codigo_instr(a, b, ini, f) == codigo::codigo_para(a, b),
{
}

pub(crate) proof fn lema_parte_intervalo(a: ArvoreInstr, b: int, ini: Option<int>, f: int)
    requires
        a is ParaIntervalo,
    ensures
        codigo::codigo_instr(a, b, ini, f) == codigo::codigo_intervalo(a, b),
{
}

pub(crate) proof fn lema_parte_escolher(a: ArvoreInstr, b: int, ini: Option<int>, f: int)
    requires
        a is Escolher,
    ensures
        codigo::codigo_instr(a, b, ini, f) == codigo::codigo_escolher(a, b, ini, f),
{
}

pub(crate) proof fn lema_parte_tentar(a: ArvoreInstr, b: int, ini: Option<int>, f: int)
    requires
        a is Tentar,
    ensures
        codigo::codigo_instr(a, b, ini, f) == codigo::codigo_tentar(a, b, ini, f),
{
}

pub(crate) proof fn lema_parte_simples(a: ArvoreInstr, b: int, ini: Option<int>, f: int)
    requires
        a !is Se,
        a !is Enquanto,
        a !is Para,
        a !is ParaIntervalo,
        a !is Escolher,
        a !is Tentar,
    ensures
        codigo::codigo_instr(a, b, ini, f) == match a {
            ArvoreInstr::Localizada { instrucao, .. } => codigo::codigo_instr(*instrucao, b, ini, f),
            ArvoreInstr::Pare => Some(seq![Comando::Jump(f)]),
            _ => codigo::codigo_simples(a, b, ini),
        },
{
}

/// O codigo de uma instrucao que nao deixa saltos por remendar.
pub(crate) proof fn lema_inteira(
    a: ArvoreInstr,
    ini: Option<int>,
    antes: Seq<Comando>,
    depois: Seq<Comando>,
    q: Seq<usize>,
    x: Seq<Comando>,
)
    requires
        forall|f: int| #[trigger] codigo::codigo_instr(a, antes.len() as int, ini, f) == Some(x),
        depois == antes + x,
        codigo::anteriores(q, antes.len() as int),
    ensures
        codigo::emitiu(antes, depois, q, q),
        forall|f: int| #[trigger] codigo::codigo_instr(a, antes.len() as int, ini, f) == Some(
            codigo::trecho(depois, q, antes.len() as int, f),
        ),
{
    reveal(codigo::trecho);
    reveal(codigo::emitiu);
    let b = antes.len() as int;
    assert(depois.subrange(0, b) =~= antes);
    remendos::lema_solto(antes, depois, q);
    assert(depois.subrange(b, depois.len() as int) =~= x);
    assert forall|f: int| #[trigger] codigo::codigo_instr(a, b, ini, f) == Some(codigo::trecho(depois, q, b, f)) by {
        remendos::lema_trecho_limpo(depois, q, b, f);
    }
}

/// O codigo de um `para ... de` depois de remendado. `pre` acaba em `IterStart`.
pub(crate) proof fn lema_contagem(
    pre: Seq<Comando>,
    c1: Seq<Comando>,
    d: Seq<Comando>,
    qs: Seq<usize>,
    ultimo: Comando,
)
    requires
        c1 == pre + seq![
            Comando::JumpFalse(0),
            Comando::Jump((pre.len() + 3) as int),
            Comando::Jump(0),
        ],
        codigo::emitiu(c1, d, Seq::empty(), qs),
    ensures
        codigo::remendo(
            d.push(ultimo).update((pre.len() + 2) as int, Comando::Jump(d.len() as int)).update(
                pre.len() as int,
                Comando::JumpFalse((d.len() + 1) as int),
            ),
            qs,
            (d.len() + 1) as int,
        ) == pre + seq![
            Comando::JumpFalse((d.len() + 1) as int),
            Comando::Jump((pre.len() + 3) as int),
            Comando::Jump(d.len() as int),
        ] + codigo::trecho(d, qs, (pre.len() + 3) as int, (d.len() + 1) as int).push(ultimo),
{
    reveal(codigo::trecho);
    reveal(codigo::emitiu);
    let n = pre.len() as int;
    let f = (d.len() + 1) as int;
    let e = d.push(ultimo).update(n + 2, Comando::Jump(d.len() as int)).update(n, Comando::JumpFalse(f));
    let x = codigo::remendo(e, qs, f);
    let y = pre + seq![
        Comando::JumpFalse(f),
        Comando::Jump(n + 3),
        Comando::Jump(d.len() as int),
    ] + codigo::trecho(d, qs, n + 3, f).push(ultimo);
    assert(x.len() == y.len());
    assert forall|k: int| 0 <= k < x.len() implies x[k] == y[k] by {
        assert(!codigo::tem(Seq::<usize>::empty(), k));
        if k < n + 3 {
            assert(!codigo::tem(qs, k));
            assert(d[k] == c1[k]);
        } else if k >= d.len() {
            assert(!codigo::tem(qs, k));
        }
    }
    assert(x =~= y);
}

pub(crate) proof fn lema_com_teste(c: Seq<Comando>, x: Seq<Comando>, q: Seq<usize>)
    requires
        codigo::anteriores(q, c.len() as int),
    ensures
        codigo::emitiu(c, codigo::com_teste(c, x), q, q),
        codigo::anteriores(q, codigo::com_teste(c, x).len() as int),
        !codigo::tem(q, (c.len() + x.len()) as int),
        codigo::com_teste(c, x).len() == c.len() + x.len() + 1,
        codigo::com_teste(c, x)[(c.len() + x.len()) as int] == Comando::JumpFalse(0),
        forall|f: int| #[trigger] codigo::trecho(codigo::com_teste(c, x), q, c.len() as int, f) == x.push(Comando::JumpFalse(0)),
{
    let d = codigo::com_teste(c, x);
    let b = c.len() as int;
    assert(d.subrange(0, b) =~= c);
    remendos::lema_solto(c, d, q);
    assert forall|f: int| #[trigger] codigo::trecho(d, q, b, f) == x.push(Comando::JumpFalse(0)) by {
        remendos::lema_trecho_limpo(d, q, b, f);
        assert(d.subrange(b, d.len() as int) =~= x.push(Comando::JumpFalse(0)));
    }
}

pub(crate) proof fn lema_se_sem_condicao(a: ArvoreInstr, b: int, ini: Option<int>)
    requires
        a is Se,
        codigo::codigo_expr(a->Se_condicao, b) is None,
    ensures
        forall|f: int| (#[trigger] codigo::codigo_se(a, b, ini, f)) is None,
{
}

pub(crate) proof fn lema_se_falha(a: ArvoreInstr, b: int, ini: Option<int>, x: Seq<Comando>)
    requires
        a is Se,
        codigo::codigo_expr(a->Se_condicao, b) == Some(x),
        forall|f: int| (#[trigger] codigo::codigo_todo(a->entao, b + x.len() + 1, ini, f)) is None,
    ensures
        forall|f: int| (#[trigger] codigo::codigo_se(a, b, ini, f)) is None,
{
    assert forall|f: int| (#[trigger] codigo::codigo_se(a, b, ini, f)) is None by {
        assert(codigo::codigo_todo(a->entao, b + x.len() + 1, ini, f) is None);
    }
}

pub(crate) proof fn lema_se_falha_senao(
    a: ArvoreInstr,
    b: int,
    ini: Option<int>,
    x: Seq<Comando>,
    d1: Seq<Comando>,
    q1: Seq<usize>,
)
    requires
        a is Se,
        a->senao is Some,
        0 <= b,
        b + x.len() + 1 <= d1.len(),
        codigo::codigo_expr(a->Se_condicao, b) == Some(x),
        forall|f: int| #[trigger] codigo::codigo_todo(a->entao, b + x.len() + 1, ini, f) == Some(
            codigo::trecho(d1, q1, b + x.len() + 1, f),
        ),
        forall|f: int| (#[trigger] codigo::codigo_todo(a->senao->Some_0, (d1.len() + 1) as int, ini, f)) is None,
    ensures
        forall|f: int| (#[trigger] codigo::codigo_se(a, b, ini, f)) is None,
{
    assert forall|f: int| (#[trigger] codigo::codigo_se(a, b, ini, f)) is None by {
        assert(codigo::codigo_todo(a->entao, b + x.len() + 1, ini, f) == Some(codigo::trecho(d1, q1, b + x.len() + 1, f)));
        remendos::lema_trecho_len(d1, q1, b + x.len() + 1, f);
        assert(codigo::codigo_todo(a->senao->Some_0, (d1.len() + 1) as int, ini, f) is None);
    }
}

/// O trecho de um `se` com o primeiro bloco compilado e o salto da condicao levado ao alvo.
pub(crate) proof fn lema_se_trecho(
    c: Seq<Comando>,
    x: Seq<Comando>,
    d1: Seq<Comando>,
    q: Seq<usize>,
    q1: Seq<usize>,
    alvo: int,
    f: int,
)
    requires
        codigo::anteriores(q, c.len() as int),
        codigo::emitiu(codigo::com_teste(c, x), d1, q, q1),
    ensures
        codigo::trecho(d1.update((c.len() + x.len()) as int, Comando::JumpFalse(alvo)), q1, c.len() as int, f) == x.push(
            Comando::JumpFalse(alvo),
        ) + codigo::trecho(d1, q1, (c.len() + x.len() + 1) as int, f),
        codigo::trecho(d1, q1, (c.len() + x.len() + 1) as int, f).len() == d1.len() - c.len() - x.len() - 1,
{
    let c1 = codigo::com_teste(c, x);
    let b = c.len() as int;
    let jf = b + x.len();
    lema_com_teste(c, x, q);
    remendos::lema_emitiu_vale(c1, d1, q, q1);
    remendos::lema_emitiu_fora(c1, d1, q, q1, jf);
    remendos::lema_trecho(c1, d1, q, q1, b, f);
    remendos::lema_troca(d1, q1, jf, Comando::JumpFalse(alvo), b, f);
    assert(codigo::trecho(c1, q, b, f) == x.push(Comando::JumpFalse(0)));
    assert(codigo::trecho(d1, q1, b, f).update(jf - b, Comando::JumpFalse(alvo)) =~= x.push(Comando::JumpFalse(alvo))
        + codigo::trecho(d1, q1, c1.len() as int, f));
}

/// O codigo de um `se` sem `senao`.
pub(crate) proof fn lema_se_sem_senao(
    a: ArvoreInstr,
    ini: Option<int>,
    c: Seq<Comando>,
    x: Seq<Comando>,
    d1: Seq<Comando>,
    q: Seq<usize>,
    q1: Seq<usize>,
)
    requires
        a is Se,
        a->senao is None,
        codigo::anteriores(q, c.len() as int),
        codigo::codigo_expr(a->Se_condicao, c.len() as int) == Some(x),
        codigo::emitiu(codigo::com_teste(c, x), d1, q, q1),
        forall|f: int| #[trigger] codigo::codigo_todo(a->entao, (c.len() + x.len() + 1) as int, ini, f) == Some(
            codigo::trecho(d1, q1, (c.len() + x.len() + 1) as int, f),
        ),
    ensures
        codigo::emitiu(c, d1.update((c.len() + x.len()) as int, Comando::JumpFalse(d1.len() as int)), q, q1),
        forall|f: int| #[trigger] codigo::codigo_se(a, c.len() as int, ini, f) == Some(
            codigo::trecho(
                d1.update((c.len() + x.len()) as int, Comando::JumpFalse(d1.len() as int)),
                q1,
                c.len() as int,
                f,
            ),
        ),
{
    let c1 = codigo::com_teste(c, x);
    let b = c.len() as int;
    let jf = b + x.len();
    let e = d1.update(jf, Comando::JumpFalse(d1.len() as int));
    lema_com_teste(c, x, q);
    remendos::lema_emitiu_fora(c1, d1, q, q1, jf);
    remendos::lema_emitiu(c, c1, d1, q, q, q1);
    remendos::lema_emitiu_troca(c, d1, q, q1, jf, Comando::JumpFalse(d1.len() as int));
    assert forall|f: int| #[trigger] codigo::codigo_se(a, b, ini, f) == Some(codigo::trecho(e, q1, b, f)) by {
        assert(codigo::codigo_todo(a->entao, jf + 1, ini, f) == Some(codigo::trecho(d1, q1, jf + 1, f)));
        lema_se_trecho(c, x, d1, q, q1, d1.len() as int, f);
    }
}

/// O codigo de um `se` com `senao`.
pub(crate) proof fn lema_se_com_senao(
    a: ArvoreInstr,
    ini: Option<int>,
    c: Seq<Comando>,
    x: Seq<Comando>,
    d1: Seq<Comando>,
    d2: Seq<Comando>,
    q: Seq<usize>,
    q1: Seq<usize>,
    q2: Seq<usize>,
)
    requires
        a is Se,
        a->senao is Some,
        codigo::anteriores(q, c.len() as int),
        codigo::codigo_expr(a->Se_condicao, c.len() as int) == Some(x),
        codigo::emitiu(codigo::com_teste(c, x), d1, q, q1),
        codigo::emitiu(codigo::com_desvio(d1, (c.len() + x.len()) as int), d2, q1, q2),
        forall|f: int| #[trigger] codigo::codigo_todo(a->entao, (c.len() + x.len() + 1) as int, ini, f) == Some(
            codigo::trecho(d1, q1, (c.len() + x.len() + 1) as int, f),
        ),
        forall|f: int| #[trigger] codigo::codigo_todo(a->senao->Some_0, (d1.len() + 1) as int, ini, f) == Some(
            codigo::trecho(d2, q2, (d1.len() + 1) as int, f),
        ),
    ensures
        codigo::emitiu(c, d2.update(d1.len() as int, Comando::Jump(d2.len() as int)), q, q2),
        forall|f: int| #[trigger] codigo::codigo_se(a, c.len() as int, ini, f) == Some(
            codigo::trecho(d2.update(d1.len() as int, Comando::Jump(d2.len() as int)), q2, c.len() as int, f),
        ),
{
    let c1 = codigo::com_teste(c, x);
    let b = c.len() as int;
    let jf = b + x.len();
    let j = d1.len() as int;
    let salto = Comando::JumpFalse(j + 1);
    let e1 = d1.update(jf, salto);
    let c2 = codigo::com_desvio(d1, jf);
    let e = d2.update(j, Comando::Jump(d2.len() as int));
    lema_com_teste(c, x, q);
    remendos::lema_emitiu_vale(c1, d1, q, q1);
    remendos::lema_emitiu_fora(c1, d1, q, q1, jf);
    remendos::lema_emitiu(c, c1, d1, q, q, q1);
    remendos::lema_emitiu_troca(c, d1, q, q1, jf, salto);
    assert(c2 =~= e1.push(Comando::Jump(0)));
    remendos::lema_emitiu_mais(c, e1, q, q1, Comando::Jump(0));
    remendos::lema_emitiu(c, c2, d2, q, q1, q2);
    remendos::lema_emitiu_vale(c2, d2, q1, q2);
    assert(!codigo::tem(q1, j));
    remendos::lema_emitiu_fora(c2, d2, q1, q2, j);
    remendos::lema_emitiu_troca(c, d2, q, q2, j, Comando::Jump(d2.len() as int));
    assert forall|f: int| #[trigger] codigo::codigo_se(a, b, ini, f) == Some(codigo::trecho(e, q2, b, f)) by {
        let t = codigo::trecho(d1, q1, jf + 1, f);
        let s = codigo::trecho(d2, q2, j + 1, f);
        assert(codigo::codigo_todo(a->entao, jf + 1, ini, f) == Some(t));
        assert(codigo::codigo_todo(a->senao->Some_0, j + 1, ini, f) == Some(s));
        lema_se_trecho(c, x, d1, q, q1, j + 1, f);
        remendos::lema_mais_um(e1, q1, Comando::Jump(0), b, f);
        remendos::lema_trecho(c2, d2, q1, q2, b, f);
        remendos::lema_troca(d2, q2, j, Comando::Jump(d2.len() as int), b, f);
        assert(codigo::trecho(e, q2, b, f) =~= x.push(salto) + t.push(Comando::Jump(d2.len() as int)) + s);
    }
}

/// O codigo de um `para ... de` compilado por inteiro.
pub(crate) proof fn lema_contagem_toda(
    variavel: Seq<char>,
    t: Seq<ArvoreInstr>,
    c: Seq<Comando>,
    c1: Seq<Comando>,
    d: Seq<Comando>,
    qs: Seq<usize>,
)
    requires
        c1 == c.push(Comando::IterStart { var: variavel }) + seq![
            Comando::JumpFalse(0),
            Comando::Jump((c.len() + 4) as int),
            Comando::Jump(0),
        ],
        codigo::emitiu(c1, d, Seq::empty(), qs),
        forall|f: int| #[trigger] codigo::codigo_todo(t, (c.len() + 4) as int, Some((c.len() + 3) as int), f) == Some(
            codigo::trecho(d, qs, (c.len() + 4) as int, f),
        ),
    ensures
        codigo::codigo_contagem(Seq::empty(), variavel, t, c.len() as int) is Some,
        codigo::remendo(
            d.push(Comando::IterNext { var: variavel, loop_ini: (c.len() + 4) as int }).update(
                (c.len() + 3) as int,
                Comando::Jump(d.len() as int),
            ).update((c.len() + 1) as int, Comando::JumpFalse((d.len() + 1) as int)),
            qs,
            (d.len() + 1) as int,
        ) == c + codigo::codigo_contagem(Seq::empty(), variavel, t, c.len() as int)->Some_0,
{
    let q = c.len() as int;
    let pre = c.push(Comando::IterStart { var: variavel });
    let ultimo = Comando::IterNext { var: variavel, loop_ini: q + 4 };
    let f = (d.len() + 1) as int;
    remendos::lema_emitiu_vale(c1, d, Seq::empty(), qs);
    remendos::lema_trecho_len(d, qs, q + 4, 0);
    lema_contagem(pre, c1, d, qs, ultimo);
    let y = codigo::trecho(d, qs, q + 4, f);
    assert(codigo::codigo_todo(t, q + 4, Some(q + 3), 0) == Some(codigo::trecho(d, qs, q + 4, 0)));
    assert(codigo::codigo_todo(t, q + 4, Some(q + 3), f) == Some(y));
    let s = seq![Comando::JumpFalse(f), Comando::Jump(q + 4), Comando::Jump(d.len() as int)];
    let z = codigo::codigo_contagem(Seq::empty(), variavel, t, q)->Some_0;
    assert(c + z =~= pre + s + y.push(ultimo));
}

/// O codigo de um `tentar`, a partir dos trechos de que foi feito.
pub(crate) proof fn lema_tentar(
    c: Seq<Comando>,
    c1: Seq<Comando>,
    d1: Seq<Comando>,
    d2: Seq<Comando>,
    d3: Seq<Comando>,
    q: Seq<usize>,
    q1: Seq<usize>,
    q2: Seq<usize>,
    q3: Seq<usize>,
    f: int,
)
    requires
        c1 == c.push(Comando::TryCatch(0)),
        codigo::anteriores(q, c.len() as int),
        codigo::emitiu(c1, d1, q, q1),
        codigo::emitiu(
            d1.push(Comando::EndTry).push(Comando::Jump(0)).update(
                c.len() as int,
                Comando::TryCatch((d1.len() + 2) as int),
            ),
            d2,
            q1,
            q2,
        ),
        codigo::emitiu(d2.update((d1.len() + 1) as int, Comando::Jump(d2.len() as int)), d3, q2, q3),
    ensures
        codigo::trecho(d3, q3, c.len() as int, f) == seq![Comando::TryCatch((d1.len() + 2) as int)] + codigo::trecho(
            d1,
            q1,
            c1.len() as int,
            f,
        ) + seq![Comando::EndTry, Comando::Jump(d2.len() as int)] + codigo::trecho(
            d2,
            q2,
            (d1.len() + 2) as int,
            f,
        ) + codigo::trecho(d3, q3, d2.len() as int, f),
{
    let b = c.len() as int;
    let e1 = d1.push(Comando::EndTry);
    let e2 = e1.push(Comando::Jump(0));
    let c2 = e2.update(b, Comando::TryCatch((d1.len() + 2) as int));
    let j = (d1.len() + 1) as int;
    let c3 = d2.update(j, Comando::Jump(d2.len() as int));
    assert(!codigo::tem(q, b));
    remendos::lema_emitiu_fora(c1, d1, q, q1, b);
    remendos::lema_emitiu_vale(c1, d1, q, q1);
    assert(!codigo::tem(q1, j));
    remendos::lema_emitiu_fora(c2, d2, q1, q2, j);
    remendos::lema_emitiu_vale(c2, d2, q1, q2);
    remendos::lema_emitiu_vale(c3, d3, q2, q3);
    remendos::lema_trecho_limpo(c1, q, b, f);
    assert(c1.subrange(b, c1.len() as int) =~= seq![Comando::TryCatch(0)]);
    remendos::lema_trecho(c1, d1, q, q1, b, f);
    remendos::lema_mais_um(d1, q1, Comando::EndTry, b, f);
    remendos::lema_mais_um(e1, q1, Comando::Jump(0), b, f);
    remendos::lema_troca(e2, q1, b, Comando::TryCatch((d1.len() + 2) as int), b, f);
    remendos::lema_trecho(c2, d2, q1, q2, b, f);
    remendos::lema_troca(d2, q2, j, Comando::Jump(d2.len() as int), b, f);
    remendos::lema_trecho(c3, d3, q2, q3, b, f);
    let x = codigo::trecho(d1, q1, c1.len() as int, f);
    let k = codigo::trecho(d2, q2, c2.len() as int, f);
    let z = codigo::trecho(d3, q3, c3.len() as int, f);
    assert(codigo::trecho(c2, q1, b, f) =~= seq![Comando::TryCatch((d1.len() + 2) as int)] + x + seq![
        Comando::EndTry,
        Comando::Jump(0),
    ]);
    assert(codigo::trecho(c3, q2, b, f) =~= seq![Comando::TryCatch((d1.len() + 2) as int)] + x + seq![
        Comando::EndTry,
        Comando::Jump(d2.len() as int),
    ] + k);
    assert(codigo::trecho(d3, q3, b, f) == codigo::trecho(c3, q2, b, f) + z);
}

pub(crate) proof fn lema_tentar_falha_corpo(a: ArvoreInstr, b: int, ini: Option<int>)
    requires
        a is Tentar,
        forall|f: int| (#[trigger] codigo::codigo_todo(a->Tentar_corpo, b + 1, ini, f)) is None,
    ensures
        forall|f: int| (#[trigger] codigo::codigo_tentar(a, b, ini, f)) is None,
{
    assert forall|f: int| (#[trigger] codigo::codigo_tentar(a, b, ini, f)) is None by {
        assert(codigo::codigo_todo(a->Tentar_corpo, b + 1, ini, f) is None);
    }
}

pub(crate) proof fn lema_tentar_falha_captura(
    a: ArvoreInstr,
    b: int,
    ini: Option<int>,
    d1: Seq<Comando>,
    q1: Seq<usize>,
)
    requires
        a is Tentar,
        0 <= b < d1.len(),
        forall|f: int| #[trigger] codigo::codigo_todo(a->Tentar_corpo, b + 1, ini, f) == Some(
            codigo::trecho(d1, q1, b + 1, f),
        ),
        forall|f: int| (#[trigger] codigo::codigo_captura(a->capturar, (d1.len() + 2) as int, ini, f)) is None,
    ensures
        forall|f: int| (#[trigger] codigo::codigo_tentar(a, b, ini, f)) is None,
{
    assert forall|f: int| (#[trigger] codigo::codigo_tentar(a, b, ini, f)) is None by {
        assert(codigo::codigo_todo(a->Tentar_corpo, b + 1, ini, f) == Some(codigo::trecho(d1, q1, b + 1, f)));
        remendos::lema_trecho_len(d1, q1, b + 1, f);
        assert(codigo::codigo_captura(a->capturar, (d1.len() + 2) as int, ini, f) is None);
    }
}

pub(crate) proof fn lema_tentar_falha_fim(
    a: ArvoreInstr,
    b: int,
    ini: Option<int>,
    d1: Seq<Comando>,
    q1: Seq<usize>,
    d2: Seq<Comando>,
    q2: Seq<usize>,
)
    requires
        a is Tentar,
        0 <= b < d1.len(),
        d1.len() + 2 <= d2.len(),
        forall|f: int| #[trigger] codigo::codigo_todo(a->Tentar_corpo, b + 1, ini, f) == Some(
            codigo::trecho(d1, q1, b + 1, f),
        ),
        forall|f: int| #[trigger] codigo::codigo_captura(a->capturar, (d1.len() + 2) as int, ini, f) == Some(
            codigo::trecho(d2, q2, (d1.len() + 2) as int, f),
        ),
        forall|f: int| (#[trigger] codigo::codigo_opcional(a->finalmente, d2.len() as int, ini, f)) is None,
    ensures
        forall|f: int| (#[trigger] codigo::codigo_tentar(a, b, ini, f)) is None,
{
    assert forall|f: int| (#[trigger] codigo::codigo_tentar(a, b, ini, f)) is None by {
        assert(codigo::codigo_todo(a->Tentar_corpo, b + 1, ini, f) == Some(codigo::trecho(d1, q1, b + 1, f)));
        remendos::lema_trecho_len(d1, q1, b + 1, f);
        assert(codigo::codigo_captura(a->capturar, (d1.len() + 2) as int, ini, f) == Some(codigo::trecho(d2, q2, (d1.len() + 2) as int, f)));
        remendos::lema_trecho_len(d2, q2, (d1.len() + 2) as int, f);
        assert(codigo::codigo_opcional(a->finalmente, d2.len() as int, ini, f) is None);
    }
}

/// O codigo de um `tentar` compilado por inteiro.
pub(crate) proof fn lema_tentar_todo(
    a: ArvoreInstr,
    ini: Option<int>,
    c: Seq<Comando>,
    d1: Seq<Comando>,
    d2: Seq<Comando>,
    d3: Seq<Comando>,
    q: Seq<usize>,
    q1: Seq<usize>,
    q2: Seq<usize>,
    q3: Seq<usize>,
)
    requires
        a is Tentar,
        codigo::anteriores(q, c.len() as int),
        codigo::emitiu(c.push(Comando::TryCatch(0)), d1, q, q1),
        codigo::emitiu(codigo::preparado(d1, c.len() as int), d2, q1, q2),
        codigo::emitiu(d2.update((d1.len() + 1) as int, Comando::Jump(d2.len() as int)), d3, q2, q3),
        forall|f: int| #[trigger] codigo::codigo_todo(a->Tentar_corpo, (c.len() + 1) as int, ini, f) == Some(
            codigo::trecho(d1, q1, (c.len() + 1) as int, f),
        ),
        forall|f: int| #[trigger] codigo::codigo_captura(a->capturar, (d1.len() + 2) as int, ini, f) == Some(
            codigo::trecho(d2, q2, (d1.len() + 2) as int, f),
        ),
        forall|f: int| #[trigger] codigo::codigo_opcional(a->finalmente, d2.len() as int, ini, f) == Some(
            codigo::trecho(d3, q3, d2.len() as int, f),
        ),
    ensures
        codigo::emitiu(c, d3, q, q3),
        forall|f: int| #[trigger] codigo::codigo_tentar(a, c.len() as int, ini, f) == Some(
            codigo::trecho(d3, q3, c.len() as int, f),
        ),
{
    let b = c.len() as int;
    let c1 = c.push(Comando::TryCatch(0));
    let c2 = codigo::preparado(d1, b);
    let j = (d1.len() + 1) as int;
    let c3 = d2.update(j, Comando::Jump(d2.len() as int));
    remendos::lema_emitiu_vale(c1, d1, q, q1);
    remendos::lema_emitiu_vale(c2, d2, q1, q2);
    assert(c1.subrange(0, b) =~= c);
    remendos::lema_solto(c, c1, q);
    remendos::lema_emitiu(c, c1, d1, q, q, q1);
    assert(!codigo::tem(q, b));
    remendos::lema_emitiu_fora(c1, d1, q, q1, b);
    remendos::lema_emitiu_mais(c, d1, q, q1, Comando::EndTry);
    remendos::lema_emitiu_mais(c, d1.push(Comando::EndTry), q, q1, Comando::Jump(0));
    remendos::lema_emitiu_troca(
        c,
        d1.push(Comando::EndTry).push(Comando::Jump(0)),
        q,
        q1,
        b,
        Comando::TryCatch((d1.len() + 2) as int),
    );
    remendos::lema_emitiu(c, c2, d2, q, q1, q2);
    assert(!codigo::tem(q1, j));
    remendos::lema_emitiu_fora(c2, d2, q1, q2, j);
    remendos::lema_emitiu_troca(c, d2, q, q2, j, Comando::Jump(d2.len() as int));
    remendos::lema_emitiu(c, c3, d3, q, q2, q3);
    assert forall|f: int| #[trigger] codigo::codigo_tentar(a, b, ini, f) == Some(codigo::trecho(d3, q3, b, f)) by {
        assert(codigo::codigo_todo(a->Tentar_corpo, b + 1, ini, f) == Some(codigo::trecho(d1, q1, b + 1, f)));
        remendos::lema_trecho_len(d1, q1, b + 1, f);
        assert(codigo::codigo_captura(a->capturar, (d1.len() + 2) as int, ini, f) == Some(codigo::trecho(d2, q2, (d1.len() + 2) as int, f)));
        remendos::lema_trecho_len(d2, q2, (d1.len() + 2) as int, f);
        assert(codigo::codigo_opcional(a->finalmente, d2.len() as int, ini, f) == Some(
            codigo::trecho(d3, q3, d2.len() as int, f),
        ));
        lema_tentar(c, c1, d1, d2, d3, q, q1, q2, q3, f);
    }
}

/// A preparacao e o teste vem antes de todo o resto.
pub(crate) proof fn lema_percurso(
    c: Seq<Comando>,
    teste: Seq<Comando>,
    item: Seq<Comando>,
    corpo: Seq<ArvoreInstr>,
    inicio: int,
    volta: Seq<Comando>,
)
    ensures
        match codigo::codigo_percurso(Seq::empty(), item, corpo, inicio, volta) {
            Some(x) => codigo::codigo_percurso(teste, item, corpo, inicio, volta) == Some(teste + x) && c + (teste
                + x) == (c + teste) + x,
            None => codigo::codigo_percurso(teste, item, corpo, inicio, volta) is None,
        },
{
    let v = codigo::codigo_percurso(Seq::empty(), item, corpo, inicio, volta);
    if v is Some {
        let x = v->Some_0;
        let y = codigo::codigo_percurso(teste, item, corpo, inicio, volta)->Some_0;
        assert(y =~= teste + x);
        assert(c + (teste + x) =~= (c + teste) + x);
    }
}

/// Os limites vem antes de todo o resto.
pub(crate) proof fn lema_limites(c: Seq<Comando>, limites: Seq<Comando>, variavel: Seq<char>, corpo: Seq<ArvoreInstr>, q: int)
    ensures
        match codigo::codigo_contagem(Seq::empty(), variavel, corpo, q) {
            Some(x) => codigo::codigo_contagem(limites, variavel, corpo, q) == Some(limites + x) && c + (limites + x)
                == (c + limites) + x,
            None => codigo::codigo_contagem(limites, variavel, corpo, q) is None,
        },
{
    let v = codigo::codigo_contagem(Seq::empty(), variavel, corpo, q);
    if v is Some {
        let x = v->Some_0;
        let y = codigo::codigo_contagem(limites, variavel, corpo, q)->Some_0;
        assert(y =~= limites + x);
        assert(c + (limites + x) =~= (c + limites) + x);
    }
}

} // verus!
