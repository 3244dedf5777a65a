//! Leis do codigo compilado dos lacos contados, de `escolher` e de `tentar`: que voltas se dao, que caso
//! corre, e a que se chega com um erro lancado.

use vstd::prelude::*;
use crate::ast::{ArvoreExpr, ArvoreInstr};
use crate::bytecode::Comando;
use crate::codigo;
use crate::decimal;
use crate::leis_codigo;
use crate::leis_codigo::{Fora, Rumo, acaba, chega, da, da_em, destino, em, esta, faz, faz_em, fazem, fazem_em, um};
use crate::maquina;
use crate::maquina::Contador;
use crate::operacoes;
use crate::saltos;
use crate::texto;
use crate::vm;

verus! {

// ---- Contar -----------------------------------------------------------------------------

/// Se um contador ainda nao passou do fim, conforme o lado para que anda.
pub open spec fn cabe(atual: int, fim: int, passo: int) -> bool {
    if passo > 0 {
        atual <= fim
    } else if passo < 0 {
        fim <= atual
    } else {
        true
    }
}

/// O quadro com o contador de cima e a variavel a valer `n`.
pub open spec fn contado(q: maquina::QuadroVisto, var: Seq<char>, n: i64, fim: i64, passo: i64) -> maquina::QuadroVisto {
    maquina::QuadroVisto {
        contadores: q.contadores.drop_last().push(Contador::Inteiro(n, fim, passo)),
        vars: vm::com_valor(q.vars, var, vm::Visto::Int(n)),
        ..q
    }
}

/// As voltas de um laco contado: a volta `k` comeca em `ys[k]`, com a variavel a valer `ns[k]`, e acaba em
/// `zs[k]` pelo rumo `rs[k]`; a seguinte comeca com mais um passo, se ele ainda cabe. So a ultima pode
/// acabar num `pare`.
pub open spec fn voltas(
    x: Fora,
    var: Seq<char>,
    corpo: Seq<ArvoreInstr>,
    fim: i64,
    passo: i64,
    ns: Seq<i64>,
    ys: Seq<maquina::QuadroVisto>,
    rs: Seq<Rumo>,
    zs: Seq<maquina::QuadroVisto>,
) -> bool {
    &&& ns.len() > 0
    &&& ys.len() == ns.len()
    &&& rs.len() == ns.len()
    &&& zs.len() == ns.len()
    &&& forall|k: int| 0 <= k < ns.len() ==> fazem(x, #[trigger] ys[k], corpo, corpo.len() as int, rs[k], zs[k])
    &&& forall|k: int| 0 <= k < ns.len() && !(rs[k] is Pare) ==> #[trigger] zs[k].contadores == ys[k].contadores
    &&& forall|k: int|
        0 < k < ns.len() ==> {
            &&& !(rs[k - 1] is Pare)
            &&& #[trigger] ns[k] == ns[k - 1] + passo
            &&& cabe(ns[k] as int, fim as int, passo as int)
            &&& ys[k] == contado(zs[k - 1], var, ns[k], fim, passo)
        }
}

/// Como um laco contado acaba: num `pare`, como ele o deixou; senao, quando o passo seguinte ja nao cabe, e
/// sem o contador.
pub open spec fn ultima(
    z: maquina::QuadroVisto,
    fim: i64,
    passo: i64,
    ns: Seq<i64>,
    rs: Seq<Rumo>,
    zs: Seq<maquina::QuadroVisto>,
) -> bool {
    if rs.last() is Pare {
        z == zs.last()
    } else {
        &&& !cabe(ns.last() + passo, fim as int, passo as int)
        &&& z == (maquina::QuadroVisto { contadores: zs.last().contadores.drop_last(), ..zs.last() })
    }
}

proof fn lema_inicio(
    q: maquina::QuadroVisto,
    cod: Seq<Comando>,
    ip: int,
    ps: Seq<vm::Visto>,
    var: Seq<char>,
    n: i64,
    fim: i64,
    v: vm::Visto,
    passo: i64,
    x: Fora,
)
    requires
        0 <= ip < cod.len(),
        cod[ip] == (Comando::IterStart { var }),
        maquina::passo_inteiro(v) == Some(passo),
    ensures
        ({
            let c = q.contadores.push(Contador::Inteiro(n, fim, passo));
            um(em(q, cod, ip, ps.push(vm::Visto::Int(n)).push(vm::Visto::Int(fim)).push(v)), x) == Some(
                if cabe(n as int, fim as int, passo as int) {
                    em(
                        maquina::QuadroVisto {
                            contadores: c,
                            vars: vm::com_valor(q.vars, var, vm::Visto::Int(n)),
                            ..q
                        },
                        cod,
                        ip + 1,
                        ps.push(vm::Visto::Bool(true)),
                    )
                } else {
                    em(maquina::QuadroVisto { contadores: c, ..q }, cod, ip + 1, ps.push(vm::Visto::Bool(false)))
                },
            )
        }),
{
    reveal(maquina::passo);
    assert(ps.push(vm::Visto::Int(n)).push(vm::Visto::Int(fim)).push(v).take(ps.len() as int) =~= ps);
}

proof fn lema_avanco(
    q: maquina::QuadroVisto,
    cod: Seq<Comando>,
    ip: int,
    ps: Seq<vm::Visto>,
    var: Seq<char>,
    alvo: int,
    n: i64,
    fim: i64,
    passo: i64,
    x: Fora,
)
    requires
        0 <= ip < cod.len(),
        cod[ip] == (Comando::IterNext { var, loop_ini: alvo }),
        q.contadores.len() > 0,
        q.contadores.last() == Contador::Inteiro(n, fim, passo),
    ensures
        um(em(q, cod, ip, ps), x) == Some(
            if cabe(n + passo, fim as int, passo as int) {
                em(contado(q, var, (n + passo) as i64, fim, passo), cod, alvo, ps)
            } else {
                em(maquina::QuadroVisto { contadores: q.contadores.drop_last(), ..q }, cod, ip + 1, ps)
            },
        ),
{
    reveal(maquina::passo);
    let m = (n + passo) as i64;
    assert(q.contadores.update(q.contadores.len() - 1, Contador::Inteiro(m, fim, passo)) =~= q.contadores.drop_last().push(
        Contador::Inteiro(m, fim, passo),
    ));
}

proof fn lema_voltas(
    x: Fora,
    var: Seq<char>,
    corpo: Seq<ArvoreInstr>,
    fim: i64,
    passo: i64,
    ns: Seq<i64>,
    ys: Seq<maquina::QuadroVisto>,
    rs: Seq<Rumo>,
    zs: Seq<maquina::QuadroVisto>,
    z: maquina::QuadroVisto,
    k: int,
    cod: Seq<Comando>,
    p: int,
    t: Seq<Comando>,
    ps: Seq<vm::Visto>,
)
    requires
        voltas(x, var, corpo, fim, passo, ns, ys, rs, zs),
        ultima(z, fim, passo, ns, rs, zs),
        0 <= k < ns.len(),
        ys[k].contadores.len() > 0,
        ys[k].contadores.last() == Contador::Inteiro(ns[k], fim, passo),
        0 <= p,
        codigo::codigo_todo(corpo, p + 4, Some(p + 3), p + 5 + t.len()) == Some(t),
        esta(cod, p + 4, t),
        p + 4 + t.len() < cod.len(),
        cod[p + 3] == Comando::Jump(p + 4 + t.len()),
        cod[p + 4 + t.len()] == (Comando::IterNext { var, loop_ini: p + 4 }),
    ensures
        acaba(x, ys[k], z, cod, p + 4, p + 5 + t.len(), ps),
    decreases ns.len() - k,
{
    let av = p + 4 + t.len();
    let y = ys[k];
    let w = zs[k];
    let r = rs[k];
    assert(fazem(x, ys[k], corpo, corpo.len() as int, rs[k], zs[k]));
    assert(fazem_em(x, y, corpo, corpo.len() as int, r, w, cod, p + 4, Some(p + 3), av + 1, ps));
    assert(codigo::codigo_bloco(corpo, corpo.len() as int, p + 4, Some(p + 3), av + 1) == Some(t));
    let d = destino(r, av, Some(p + 3), av + 1);
    assert(acaba(x, y, w, cod, p + 4, d, ps));
    if k + 1 < ns.len() {
        assert(ns[k + 1] == ns[k] + passo);
    }
    if !(r is Pare) {
        assert(zs[k].contadores == ys[k].contadores);
        assert forall|us: Seq<vm::Visto>| acaba(x, w, z, cod, d, av + 1, #[trigger] (ps + us)) by {
            let s = ps + us;
            if r is Segue {
                leis_codigo::lema_zero(em(w, cod, d, s), x);
            } else {
                leis_codigo::lema_jump(w, cod, d, s, av, x);
                leis_codigo::lema_um(em(w, cod, d, s), em(w, cod, av, s), x);
            }
            lema_avanco(w, cod, av, s, var, p + 4, ns[k], fim, passo, x);
            if k + 1 < ns.len() {
                let y2 = ys[k + 1];
                assert(y2 == contado(w, var, ns[k + 1], fim, passo));
                leis_codigo::lema_um(em(w, cod, av, s), em(y2, cod, p + 4, s), x);
                leis_codigo::lema_junta(em(w, cod, d, s), em(w, cod, av, s), em(y2, cod, p + 4, s), x);
                lema_voltas(x, var, corpo, fim, passo, ns, ys, rs, zs, z, k + 1, cod, p, t, s);
                leis_codigo::lema_comeca(x, w, y2, z, cod, d, p + 4, av + 1, s);
            } else {
                leis_codigo::lema_um(em(w, cod, av, s), em(z, cod, av + 1, s), x);
                leis_codigo::lema_junta(em(w, cod, d, s), em(w, cod, av, s), em(z, cod, av + 1, s), x);
                leis_codigo::lema_acaba(x, w, z, cod, d, av + 1, s);
            }
        }
        leis_codigo::lema_encadeia(x, y, w, z, cod, p + 4, d, av + 1, ps);
    }
}

/// O que um laco contado deixa: sem nenhuma volta, so o contador; senao, o que as voltas deixam.
pub open spec fn conta(
    x: Fora,
    q: maquina::QuadroVisto,
    var: Seq<char>,
    corpo: Seq<ArvoreInstr>,
    n: i64,
    fim: i64,
    passo: i64,
    ns: Seq<i64>,
    ys: Seq<maquina::QuadroVisto>,
    rs: Seq<Rumo>,
    zs: Seq<maquina::QuadroVisto>,
    z: maquina::QuadroVisto,
) -> bool {
    let c = maquina::QuadroVisto { contadores: q.contadores.push(Contador::Inteiro(n, fim, passo)), ..q };
    if cabe(n as int, fim as int, passo as int) {
        &&& voltas(x, var, corpo, fim, passo, ns, ys, rs, zs)
        &&& ultima(z, fim, passo, ns, rs, zs)
        &&& ns[0] == n
        &&& ys[0] == (maquina::QuadroVisto { vars: vm::com_valor(q.vars, var, vm::Visto::Int(n)), ..c })
    } else {
        z == c
    }
}

proof fn lema_contagem(
    x: Fora,
    q: maquina::QuadroVisto,
    y: maquina::QuadroVisto,
    var: Seq<char>,
    corpo: Seq<ArvoreInstr>,
    n: i64,
    fim: i64,
    v: vm::Visto,
    passo: i64,
    ns: Seq<i64>,
    ys: Seq<maquina::QuadroVisto>,
    rs: Seq<Rumo>,
    zs: Seq<maquina::QuadroVisto>,
    z: maquina::QuadroVisto,
    limites: Seq<Comando>,
    c: Seq<Comando>,
    cod: Seq<Comando>,
    b: int,
    ps: Seq<vm::Visto>,
)
    requires
        0 <= b,
        maquina::passo_inteiro(v) == Some(passo),
        conta(x, y, var, corpo, n, fim, passo, ns, ys, rs, zs, z),
        codigo::codigo_contagem(limites, var, corpo, b + limites.len()) == Some(c),
        esta(cod, b, c),
        chega(
            em(q, cod, b, ps),
            em(y, cod, b + limites.len(), ps.push(vm::Visto::Int(n)).push(vm::Visto::Int(fim)).push(v)),
            x,
        ),
    ensures
        acaba(x, q, z, cod, b, b + c.len(), ps),
{
    let p = b + limites.len();
    let t0 = codigo::codigo_todo(corpo, p + 4, Some(p + 3), 0)->Some_0;
    let av = p + 4 + t0.len();
    let t = codigo::codigo_todo(corpo, p + 4, Some(p + 3), av + 1)->Some_0;
    saltos::lema_tam_todo(corpo, p + 4, Some(p + 3), 0, av + 1);
    let quatro = seq![
        Comando::IterStart { var },
        Comando::JumpFalse(av + 1),
        Comando::Jump(p + 4),
        Comando::Jump(av),
    ];
    let volta = t.push(Comando::IterNext { var, loop_ini: p + 4 });
    assert(c == limites + quatro + volta);
    leis_codigo::lema_esta(cod, b, limites + quatro, volta);
    leis_codigo::lema_esta(cod, b, limites, quatro);
    leis_codigo::lema_esta_push(cod, p + 4, t, Comando::IterNext { var, loop_ini: p + 4 });
    assert(cod[p + 0] == quatro[0]);
    assert(cod[p + 1] == quatro[1]);
    assert(cod[p + 2] == quatro[2]);
    assert(cod[p + 3] == quatro[3]);
    assert(b + c.len() == av + 1);
    let tres = ps.push(vm::Visto::Int(n)).push(vm::Visto::Int(fim)).push(v);
    lema_inicio(y, cod, p, ps, var, n, fim, v, passo, x);
    let cc = maquina::QuadroVisto { contadores: y.contadores.push(Contador::Inteiro(n, fim, passo)), ..y };
    if cabe(n as int, fim as int, passo as int) {
        let y0 = ys[0];
        assert(y0 == (maquina::QuadroVisto { vars: vm::com_valor(y.vars, var, vm::Visto::Int(n)), ..cc }));
        let sim = vm::Visto::Bool(true);
        leis_codigo::lema_jump_false(y0, cod, p + 1, ps, sim, av + 1, x);
        leis_codigo::lema_jump(y0, cod, p + 2, ps, p + 4, x);
        leis_codigo::lema_um(em(y0, cod, p + 2, ps), em(y0, cod, p + 4, ps), x);
        leis_codigo::lema_segue(em(y0, cod, p + 1, ps.push(sim)), em(y0, cod, p + 2, ps), em(y0, cod, p + 4, ps), x);
        leis_codigo::lema_segue(em(y, cod, p, tres), em(y0, cod, p + 1, ps.push(sim)), em(y0, cod, p + 4, ps), x);
        leis_codigo::lema_junta(em(q, cod, b, ps), em(y, cod, p, tres), em(y0, cod, p + 4, ps), x);
        lema_voltas(x, var, corpo, fim, passo, ns, ys, rs, zs, z, 0, cod, p, t, ps);
        leis_codigo::lema_comeca(x, q, y0, z, cod, b, p + 4, av + 1, ps);
    } else {
        let nao = vm::Visto::Bool(false);
        leis_codigo::lema_jump_false(cc, cod, p + 1, ps, nao, av + 1, x);
        leis_codigo::lema_um(em(cc, cod, p + 1, ps.push(nao)), em(cc, cod, av + 1, ps), x);
        leis_codigo::lema_segue(em(y, cod, p, tres), em(cc, cod, p + 1, ps.push(nao)), em(cc, cod, av + 1, ps), x);
        leis_codigo::lema_junta(em(q, cod, b, ps), em(y, cod, p, tres), em(cc, cod, av + 1, ps), x);
        leis_codigo::lema_acaba(x, q, z, cod, b, av + 1, ps);
    }
}

/// `para v de i ate f passo p { corpo }`, entre inteiros: o corpo corre com `v` a valer `i`, `i + p`,
/// `i + 2p`, e assim enquanto nao passa de `f`, ou ate um `pare`; um `continue` so acaba a volta.
pub proof fn lei_contagem(
    x: Fora,
    q: maquina::QuadroVisto,
    q1: maquina::QuadroVisto,
    q2: maquina::QuadroVisto,
    q3: maquina::QuadroVisto,
    variavel: Seq<char>,
    inicio: ArvoreExpr,
    ate: ArvoreExpr,
    passo: ArvoreExpr,
    corpo: Seq<ArvoreInstr>,
    n: i64,
    f: i64,
    p: i64,
    ns: Seq<i64>,
    ys: Seq<maquina::QuadroVisto>,
    rs: Seq<Rumo>,
    zs: Seq<maquina::QuadroVisto>,
    z: maquina::QuadroVisto,
)
    requires
        da(x, q, inicio, vm::Visto::Int(n), q1),
        da(x, q1, ate, vm::Visto::Int(f), q2),
        da(x, q2, passo, vm::Visto::Int(p), q3),
        conta(x, q3, variavel, corpo, n, f, p, ns, ys, rs, zs, z),
    ensures
        faz(
            x,
            q,
            ArvoreInstr::ParaIntervalo { variavel, inicio, fim: ate, passo: Some(passo), corpo },
            Rumo::Segue,
            z,
        ),
{
    let a = ArvoreInstr::ParaIntervalo { variavel, inicio, fim: ate, passo: Some(passo), corpo };
    assert forall|cod: Seq<Comando>, b: int, ini: Option<int>, fim: int, ps: Seq<vm::Visto>| #[trigger]
        faz_em(x, q, a, Rumo::Segue, z, cod, b, ini, fim, ps) by {
        if let Some(c) = codigo::codigo_instr(a, b, ini, fim) {
            if esta(cod, b, c) {
                let c1 = codigo::codigo_expr(inicio, b)->Some_0;
                let c2 = codigo::codigo_expr(ate, b + c1.len())->Some_0;
                let c3 = codigo::codigo_expr(passo, b + c1.len() + c2.len())->Some_0;
                let limites = c1 + c2 + c3;
                let pos = b + limites.len();
                assert(codigo::codigo_contagem(limites, variavel, corpo, pos) == Some(c));
                lema_parte(limites, variavel, corpo, pos, c, cod, b);
                leis_codigo::lema_esta(cod, b, c1 + c2, c3);
                leis_codigo::lema_esta(cod, b, c1, c2);
                let p1 = ps.push(vm::Visto::Int(n));
                let p2 = p1.push(vm::Visto::Int(f));
                let p3 = p2.push(vm::Visto::Int(p));
                assert(da_em(x, q, inicio, vm::Visto::Int(n), q1, cod, b, ps));
                assert(da_em(x, q1, ate, vm::Visto::Int(f), q2, cod, b + c1.len(), p1));
                assert(da_em(x, q2, passo, vm::Visto::Int(p), q3, cod, b + c1.len() + c2.len(), p2));
                leis_codigo::lema_junta(
                    em(q, cod, b, ps),
                    em(q1, cod, b + c1.len(), p1),
                    em(q2, cod, b + c1.len() + c2.len(), p2),
                    x,
                );
                leis_codigo::lema_junta(
                    em(q, cod, b, ps),
                    em(q2, cod, b + c1.len() + c2.len(), p2),
                    em(q3, cod, pos, p3),
                    x,
                );
                lema_contagem(
                    x,
                    q,
                    q3,
                    variavel,
                    corpo,
                    n,
                    f,
                    vm::Visto::Int(p),
                    p,
                    ns,
                    ys,
                    rs,
                    zs,
                    z,
                    limites,
                    c,
                    cod,
                    b,
                    ps,
                );
            }
        }
    }
}

proof fn lema_parte(
    limites: Seq<Comando>,
    var: Seq<char>,
    corpo: Seq<ArvoreInstr>,
    p: int,
    c: Seq<Comando>,
    cod: Seq<Comando>,
    b: int,
)
    requires
        codigo::codigo_contagem(limites, var, corpo, p) == Some(c),
        esta(cod, b, c),
    ensures
        esta(cod, b, limites),
{
    let r = c.skip(limites.len() as int);
    assert(c.len() >= limites.len());
    assert(c =~= limites + r);
    leis_codigo::lema_esta(cod, b, limites, r);
}

/// Sem passo dito, conta-se de um em um.
pub proof fn lei_contagem_de_um(
    x: Fora,
    q: maquina::QuadroVisto,
    q1: maquina::QuadroVisto,
    q2: maquina::QuadroVisto,
    variavel: Seq<char>,
    inicio: ArvoreExpr,
    ate: ArvoreExpr,
    corpo: Seq<ArvoreInstr>,
    n: i64,
    f: i64,
    s: Seq<char>,
    ns: Seq<i64>,
    ys: Seq<maquina::QuadroVisto>,
    rs: Seq<Rumo>,
    zs: Seq<maquina::QuadroVisto>,
    z: maquina::QuadroVisto,
)
    requires
        da(x, q, inicio, vm::Visto::Int(n), q1),
        da(x, q1, ate, vm::Visto::Int(f), q2),
        (x.respostas)(operacoes::PedidoVisto::Numero("1.0"@)) == maquina::RespostaVista::Numero(0x3FF0000000000000, s),
        conta(x, q2, variavel, corpo, n, f, 1, ns, ys, rs, zs, z),
    ensures
        faz(x, q, ArvoreInstr::ParaIntervalo { variavel, inicio, fim: ate, passo: None, corpo }, Rumo::Segue, z),
{
    let a = ArvoreInstr::ParaIntervalo { variavel, inicio, fim: ate, passo: None, corpo };
    let v = vm::Visto::Num(0x3FF0000000000000, s);
    decimal::lema_um();
    assert(maquina::passo_inteiro(v) == Some(1i64));
    assert forall|cod: Seq<Comando>, b: int, ini: Option<int>, fim: int, ps: Seq<vm::Visto>| #[trigger]
        faz_em(x, q, a, Rumo::Segue, z, cod, b, ini, fim, ps) by {
        if let Some(c) = codigo::codigo_instr(a, b, ini, fim) {
            if esta(cod, b, c) {
                let c1 = codigo::codigo_expr(inicio, b)->Some_0;
                let c2 = codigo::codigo_expr(ate, b + c1.len())->Some_0;
                let limites = (c1 + c2).push(Comando::PushNum("1.0"@));
                let pos = b + limites.len();
                let m = b + c1.len() + c2.len();
                assert(codigo::codigo_contagem(limites, variavel, corpo, pos) == Some(c));
                lema_parte(limites, variavel, corpo, pos, c, cod, b);
                leis_codigo::lema_esta_push(cod, b, c1 + c2, Comando::PushNum("1.0"@));
                leis_codigo::lema_esta(cod, b, c1, c2);
                let p1 = ps.push(vm::Visto::Int(n));
                let p2 = p1.push(vm::Visto::Int(f));
                assert(da_em(x, q, inicio, vm::Visto::Int(n), q1, cod, b, ps));
                assert(da_em(x, q1, ate, vm::Visto::Int(f), q2, cod, b + c1.len(), p1));
                leis_codigo::lema_junta(em(q, cod, b, ps), em(q1, cod, b + c1.len(), p1), em(q2, cod, m, p2), x);
                assert(um(em(q2, cod, m, p2), x) == Some(em(q2, cod, m + 1, p2.push(v)))) by {
                    reveal(maquina::passo);
                }
                leis_codigo::lema_um(em(q2, cod, m, p2), em(q2, cod, m + 1, p2.push(v)), x);
                leis_codigo::lema_junta(em(q, cod, b, ps), em(q2, cod, m, p2), em(q2, cod, m + 1, p2.push(v)), x);
                lema_contagem(x, q, q2, variavel, corpo, n, f, v, 1, ns, ys, rs, zs, z, limites, c, cod, b, ps);
            }
        }
    }
}

// ---- Escolher ---------------------------------------------------------------------------

/// Os primeiros `n` valores de um caso, um depois do outro, e nenhum igual a `v`; o quadro acaba em `z`.
pub open spec fn nenhum(
    x: Fora,
    q: maquina::QuadroVisto,
    g: Seq<char>,
    v: vm::Visto,
    es: Seq<ArvoreExpr>,
    n: int,
    z: maquina::QuadroVisto,
) -> bool
    decreases n,
{
    if n <= 0 {
        z == q
    } else {
        exists|y: maquina::QuadroVisto, u: vm::Visto|
            nenhum(x, q, g, v, es, n - 1, y) && vm::valor_de(y.vars, g) == Some(v) && #[trigger] da(
                x,
                y,
                es[n - 1],
                u,
                z,
            ) && !vm::iguais(v, u)
    }
}

/// Os primeiros `n` casos, sem nenhum valor igual a `v`; o quadro acaba em `z`.
pub open spec fn nenhum_caso(
    x: Fora,
    q: maquina::QuadroVisto,
    g: Seq<char>,
    v: vm::Visto,
    casos: Seq<(Seq<ArvoreExpr>, Seq<ArvoreInstr>)>,
    n: int,
    z: maquina::QuadroVisto,
) -> bool
    decreases n,
{
    if n <= 0 {
        z == q
    } else {
        exists|y: maquina::QuadroVisto|
            nenhum_caso(x, q, g, v, casos, n - 1, y) && #[trigger] nenhum(
                x,
                y,
                g,
                v,
                casos[n - 1].0,
                casos[n - 1].0.len() as int,
                z,
            )
    }
}

proof fn lema_teste(
    x: Fora,
    y: maquina::QuadroVisto,
    g: Seq<char>,
    v: vm::Visto,
    e: ArvoreExpr,
    u: vm::Visto,
    z: maquina::QuadroVisto,
    cod: Seq<Comando>,
    m: int,
    c: Seq<Comando>,
    alvo: int,
    ps: Seq<vm::Visto>,
)
    requires
        vm::valor_de(y.vars, g) == Some(v),
        da(x, y, e, u, z),
        0 <= m,
        m + 1 + c.len() + 2 <= cod.len(),
        codigo::codigo_expr(e, m + 1) == Some(c),
        cod[m] == Comando::Load(g),
        esta(cod, m + 1, c),
        cod[m + 1 + c.len()] == Comando::Eq,
        cod[m + 2 + c.len()] == Comando::JumpTrue(alvo),
    ensures
        chega(
            em(y, cod, m, ps),
            em(
                z,
                cod,
                if vm::iguais(v, u) {
                    alvo
                } else {
                    m + 3 + c.len()
                },
                ps,
            ),
            x,
        ),
{
    let i = m + 1 + c.len();
    let r = vm::Visto::Bool(vm::iguais(v, u));
    let d = if vm::iguais(v, u) {
        alvo
    } else {
        m + 3 + c.len()
    };
    leis_codigo::lema_load(y, cod, m, ps, v, g, x);
    assert(da_em(x, y, e, u, z, cod, m + 1, ps.push(v)));
    leis_codigo::lema_segue(em(y, cod, m, ps), em(y, cod, m + 1, ps.push(v)), em(z, cod, i, ps.push(v).push(u)), x);
    leis_codigo::lema_dois(z, cod, i, ps, v, u, r, x);
    leis_codigo::lema_jump_true(z, cod, i + 1, ps, r, alvo, x);
    leis_codigo::lema_um(em(z, cod, i + 1, ps.push(r)), em(z, cod, d, ps), x);
    leis_codigo::lema_segue(
        em(z, cod, i, ps.push(v).push(u)),
        em(z, cod, i + 1, ps.push(r)),
        em(z, cod, d, ps),
        x,
    );
    leis_codigo::lema_junta(em(y, cod, m, ps), em(z, cod, i, ps.push(v).push(u)), em(z, cod, d, ps), x);
}

proof fn lema_parte_teste(
    es: Seq<ArvoreExpr>,
    n: int,
    g: Seq<char>,
    b: int,
    alvo: int,
    cod: Seq<Comando>,
    c: Seq<Comando>,
)
    requires
        0 < n <= es.len(),
        codigo::codigo_testes(es, n, g, b, alvo) == Some(c),
        esta(cod, b, c),
    ensures
        codigo::codigo_testes(es, n - 1, g, b, alvo) matches Some(a) && esta(cod, b, a) && {
            let m = b + a.len();
            codigo::codigo_expr(es[n - 1], m + 1) matches Some(d) && {
                &&& c.len() == a.len() + d.len() + 3
                &&& cod[m] == Comando::Load(g)
                &&& esta(cod, m + 1, d)
                &&& cod[m + 1 + d.len()] == Comando::Eq
                &&& cod[m + 2 + d.len()] == Comando::JumpTrue(alvo)
            }
        },
{
    let a = codigo::codigo_testes(es, n - 1, g, b, alvo)->Some_0;
    let m = b + a.len();
    let d = codigo::codigo_expr(es[n - 1], m + 1)->Some_0;
    let dois = seq![Comando::Eq, Comando::JumpTrue(alvo)];
    leis_codigo::lema_esta(cod, b, a.push(Comando::Load(g)) + d, dois);
    leis_codigo::lema_esta(cod, b, a.push(Comando::Load(g)), d);
    leis_codigo::lema_esta_push(cod, b, a, Comando::Load(g));
    assert(cod[m + 1 + d.len() + 0] == dois[0]);
    assert(cod[m + 1 + d.len() + 1] == dois[1]);
}

proof fn lema_nenhum(
    x: Fora,
    q: maquina::QuadroVisto,
    g: Seq<char>,
    v: vm::Visto,
    es: Seq<ArvoreExpr>,
    n: int,
    z: maquina::QuadroVisto,
    cod: Seq<Comando>,
    b: int,
    c: Seq<Comando>,
    alvo: int,
    ps: Seq<vm::Visto>,
)
    requires
        0 <= n <= es.len(),
        nenhum(x, q, g, v, es, n, z),
        codigo::codigo_testes(es, n, g, b, alvo) == Some(c),
        esta(cod, b, c),
    ensures
        chega(em(q, cod, b, ps), em(z, cod, b + c.len(), ps), x),
    decreases n,
{
    if n == 0 {
        leis_codigo::lema_zero(em(q, cod, b, ps), x);
    } else {
        let (y, u) = choose|y: maquina::QuadroVisto, u: vm::Visto|
            nenhum(x, q, g, v, es, n - 1, y) && vm::valor_de(y.vars, g) == Some(v) && #[trigger] da(
                x,
                y,
                es[n - 1],
                u,
                z,
            ) && !vm::iguais(v, u);
        lema_parte_teste(es, n, g, b, alvo, cod, c);
        let a = codigo::codigo_testes(es, n - 1, g, b, alvo)->Some_0;
        let d = codigo::codigo_expr(es[n - 1], b + a.len() + 1)->Some_0;
        lema_nenhum(x, q, g, v, es, n - 1, y, cod, b, a, alvo, ps);
        lema_teste(x, y, g, v, es[n - 1], u, z, cod, b + a.len(), d, alvo, ps);
        leis_codigo::lema_junta(em(q, cod, b, ps), em(y, cod, b + a.len(), ps), em(z, cod, b + c.len(), ps), x);
    }
}

proof fn lema_achado(
    x: Fora,
    q: maquina::QuadroVisto,
    g: Seq<char>,
    v: vm::Visto,
    es: Seq<ArvoreExpr>,
    n: int,
    j: int,
    y: maquina::QuadroVisto,
    u: vm::Visto,
    z: maquina::QuadroVisto,
    cod: Seq<Comando>,
    b: int,
    c: Seq<Comando>,
    alvo: int,
    ps: Seq<vm::Visto>,
)
    requires
        0 <= j < n <= es.len(),
        nenhum(x, q, g, v, es, j, y),
        vm::valor_de(y.vars, g) == Some(v),
        da(x, y, es[j], u, z),
        vm::iguais(v, u),
        codigo::codigo_testes(es, n, g, b, alvo) == Some(c),
        esta(cod, b, c),
    ensures
        chega(em(q, cod, b, ps), em(z, cod, alvo, ps), x),
    decreases n,
{
    lema_parte_teste(es, n, g, b, alvo, cod, c);
    let a = codigo::codigo_testes(es, n - 1, g, b, alvo)->Some_0;
    if j < n - 1 {
        lema_achado(x, q, g, v, es, n - 1, j, y, u, z, cod, b, a, alvo, ps);
    } else {
        let d = codigo::codigo_expr(es[n - 1], b + a.len() + 1)->Some_0;
        lema_nenhum(x, q, g, v, es, n - 1, y, cod, b, a, alvo, ps);
        lema_teste(x, y, g, v, es[n - 1], u, z, cod, b + a.len(), d, alvo, ps);
        leis_codigo::lema_junta(em(q, cod, b, ps), em(y, cod, b + a.len(), ps), em(z, cod, alvo, ps), x);
    }
}

proof fn lema_nenhum_caso(
    x: Fora,
    q: maquina::QuadroVisto,
    g: Seq<char>,
    v: vm::Visto,
    casos: Seq<(Seq<ArvoreExpr>, Seq<ArvoreInstr>)>,
    n: int,
    z: maquina::QuadroVisto,
    cod: Seq<Comando>,
    b: int,
    ini: Option<int>,
    fim: int,
    depois: int,
    c: Seq<Comando>,
    ps: Seq<vm::Visto>,
)
    requires
        0 <= n <= casos.len(),
        nenhum_caso(x, q, g, v, casos, n, z),
        codigo::codigo_casos(casos, n, g, b, ini, fim, depois) == Some(c),
        esta(cod, b, c),
    ensures
        chega(em(q, cod, b, ps), em(z, cod, b + c.len(), ps), x),
    decreases n,
{
    if n == 0 {
        leis_codigo::lema_zero(em(q, cod, b, ps), x);
    } else {
        let y = choose|y: maquina::QuadroVisto|
            nenhum_caso(x, q, g, v, casos, n - 1, y) && #[trigger] nenhum(
                x,
                y,
                g,
                v,
                casos[n - 1].0,
                casos[n - 1].0.len() as int,
                z,
            );
        let a = codigo::codigo_casos(casos, n - 1, g, b, ini, fim, depois)->Some_0;
        let m = b + a.len();
        let d = codigo::codigo_caso(casos[n - 1], g, m, ini, fim, depois)->Some_0;
        leis_codigo::lema_esta(cod, b, a, d);
        lema_nenhum_caso(x, q, g, v, casos, n - 1, y, cod, b, ini, fim, depois, a, ps);
        lema_um_caso(x, y, g, v, casos[n - 1], z, cod, m, ini, fim, depois, d, ps);
        leis_codigo::lema_junta(em(q, cod, b, ps), em(y, cod, m, ps), em(z, cod, b + c.len(), ps), x);
    }
}

proof fn lema_um_caso(
    x: Fora,
    y: maquina::QuadroVisto,
    g: Seq<char>,
    v: vm::Visto,
    caso: (Seq<ArvoreExpr>, Seq<ArvoreInstr>),
    z: maquina::QuadroVisto,
    cod: Seq<Comando>,
    m: int,
    ini: Option<int>,
    fim: int,
    depois: int,
    d: Seq<Comando>,
    ps: Seq<vm::Visto>,
)
    requires
        nenhum(x, y, g, v, caso.0, caso.0.len() as int, z),
        codigo::codigo_caso(caso, g, m, ini, fim, depois) == Some(d),
        esta(cod, m, d),
    ensures
        chega(em(y, cod, m, ps), em(z, cod, m + d.len(), ps), x),
{
    let es = caso.0;
    lema_partes_caso(caso, g, m, ini, fim, depois, cod, d);
    let t0 = codigo::codigo_testes(es, es.len() as int, g, m, 0)->Some_0;
    let inicio = m + t0.len() + 1;
    let t = codigo::codigo_testes(es, es.len() as int, g, m, inicio)->Some_0;
    lema_nenhum(x, y, g, v, es, es.len() as int, z, cod, m, t, inicio, ps);
    leis_codigo::lema_jump(z, cod, m + t.len(), ps, m + d.len(), x);
    leis_codigo::lema_um(em(z, cod, m + t.len(), ps), em(z, cod, m + d.len(), ps), x);
    leis_codigo::lema_junta(em(y, cod, m, ps), em(z, cod, m + t.len(), ps), em(z, cod, m + d.len(), ps), x);
}

proof fn lema_partes_caso(
    caso: (Seq<ArvoreExpr>, Seq<ArvoreInstr>),
    g: Seq<char>,
    m: int,
    ini: Option<int>,
    fim: int,
    depois: int,
    cod: Seq<Comando>,
    d: Seq<Comando>,
)
    requires
        codigo::codigo_caso(caso, g, m, ini, fim, depois) == Some(d),
        esta(cod, m, d),
    ensures
        codigo::codigo_testes(caso.0, caso.0.len() as int, g, m, 0) matches Some(t0) && {
            let inicio = m + t0.len() + 1;
            codigo::codigo_testes(caso.0, caso.0.len() as int, g, m, inicio) matches Some(t) && {
                &&& t.len() == t0.len()
                &&& esta(cod, m, t)
                &&& inicio < cod.len()
                &&& cod[m + t.len()] == Comando::Jump(m + d.len())
                &&& codigo::codigo_todo(caso.1, inicio, ini, fim) matches Some(k) && {
                    &&& esta(cod, inicio, k)
                    &&& d.len() == t.len() + k.len() + 2
                    &&& inicio + k.len() < cod.len()
                    &&& cod[inicio + k.len()] == Comando::Jump(depois)
                }
            }
        },
{
    let es = caso.0;
    let t0 = codigo::codigo_testes(es, es.len() as int, g, m, 0)->Some_0;
    let inicio = m + t0.len() + 1;
    saltos::lema_tam_testes(es, es.len() as int, g, m, 0, inicio);
    let t = codigo::codigo_testes(es, es.len() as int, g, m, inicio)->Some_0;
    let k = codigo::codigo_todo(caso.1, inicio, ini, fim)->Some_0;
    let j1 = Comando::Jump(inicio + k.len() + 1);
    leis_codigo::lema_esta(cod, m, t.push(j1), k.push(Comando::Jump(depois)));
    leis_codigo::lema_esta_push(cod, m, t, j1);
    leis_codigo::lema_esta_push(cod, inicio, k, Comando::Jump(depois));
}

proof fn lema_prefixo_casos(
    casos: Seq<(Seq<ArvoreExpr>, Seq<ArvoreInstr>)>,
    k: int,
    n: int,
    g: Seq<char>,
    b: int,
    ini: Option<int>,
    fim: int,
    depois: int,
    cod: Seq<Comando>,
    c: Seq<Comando>,
)
    requires
        0 <= k <= n <= casos.len(),
        codigo::codigo_casos(casos, n, g, b, ini, fim, depois) == Some(c),
        esta(cod, b, c),
    ensures
        codigo::codigo_casos(casos, k, g, b, ini, fim, depois) matches Some(a) && esta(cod, b, a),
    decreases n,
{
    if k < n {
        let a = codigo::codigo_casos(casos, n - 1, g, b, ini, fim, depois)->Some_0;
        let d = codigo::codigo_caso(casos[n - 1], g, b + a.len(), ini, fim, depois)->Some_0;
        leis_codigo::lema_esta(cod, b, a, d);
        lema_prefixo_casos(casos, k, n - 1, g, b, ini, fim, depois, cod, a);
    }
}

/// O nome em que `escolher`, no endereco `b`, guarda o valor.
pub open spec fn guarda(b: int) -> Seq<char> {
    "__sw_"@ + texto::decimal(b as nat)
}

proof fn lema_casos(
    expr: ArvoreExpr,
    casos: Seq<(Seq<ArvoreExpr>, Seq<ArvoreInstr>)>,
    padrao: Option<Seq<ArvoreInstr>>,
    cod: Seq<Comando>,
    b: int,
    ini: Option<int>,
    fim: int,
    c: Seq<Comando>,
)
    requires
        codigo::codigo_instr(ArvoreInstr::Escolher { expr, casos, padrao }, b, ini, fim) == Some(c),
        esta(cod, b, c),
    ensures
        codigo::codigo_expr(expr, b) matches Some(e) && {
            let m = b + e.len() + 1;
            let g = guarda(b);
            let d = b + c.len();
            &&& esta(cod, b, e)
            &&& m <= cod.len()
            &&& cod[m - 1] == Comando::Store(g)
            &&& codigo::codigo_casos(casos, casos.len() as int, g, m, ini, fim, d) matches Some(y) && {
                &&& esta(cod, m, y)
                &&& codigo::codigo_opcional(padrao, m + y.len(), ini, fim) matches Some(p) && esta(cod, m + y.len(), p) && d == m
                    + y.len() + p.len()
            }
        },
{
    let e = codigo::codigo_expr(expr, b)->Some_0;
    let g = guarda(b);
    let m = b + e.len() + 1;
    let y0 = codigo::codigo_casos(casos, casos.len() as int, g, m, ini, fim, 0)->Some_0;
    let p = codigo::codigo_opcional(padrao, m + y0.len(), ini, fim)->Some_0;
    let d = m + y0.len() + p.len();
    let y = codigo::codigo_casos(casos, casos.len() as int, g, m, ini, fim, d)->Some_0;
    saltos::lema_tam_casos(casos, casos.len() as int, g, m, ini, fim, fim, 0, d);
    assert(c == e.push(Comando::Store(g)) + y + p);
    leis_codigo::lema_esta(cod, b, e.push(Comando::Store(g)) + y, p);
    leis_codigo::lema_esta(cod, b, e.push(Comando::Store(g)), y);
    leis_codigo::lema_esta_push(cod, b, e, Comando::Store(g));
}

/// `escolher` com um valor igual: depois de testados, por ordem, os valores que vem antes, corre o bloco do
/// caso em que ele esta, e so esse.
pub proof fn lei_escolher_caso(
    x: Fora,
    q: maquina::QuadroVisto,
    expr: ArvoreExpr,
    casos: Seq<(Seq<ArvoreExpr>, Seq<ArvoreInstr>)>,
    padrao: Option<Seq<ArvoreInstr>>,
    v: vm::Visto,
    y: maquina::QuadroVisto,
    k: int,
    j: int,
    w: maquina::QuadroVisto,
    s: maquina::QuadroVisto,
    u: vm::Visto,
    t: maquina::QuadroVisto,
    r: Rumo,
    z: maquina::QuadroVisto,
    cod: Seq<Comando>,
    b: int,
    ini: Option<int>,
    fim: int,
    ps: Seq<vm::Visto>,
)
    requires
        da(x, q, expr, v, y),
        0 <= k < casos.len(),
        0 <= j < casos[k].0.len(),
        nenhum_caso(
            x,
            maquina::QuadroVisto { vars: vm::com_valor(y.vars, guarda(b), v), ..y },
            guarda(b),
            v,
            casos,
            k,
            w,
        ),
        nenhum(x, w, guarda(b), v, casos[k].0, j, s),
        vm::valor_de(s.vars, guarda(b)) == Some(v),
        da(x, s, casos[k].0[j], u, t),
        vm::iguais(v, u),
        fazem(x, t, casos[k].1, casos[k].1.len() as int, r, z),
    ensures
        faz_em(x, q, ArvoreInstr::Escolher { expr, casos, padrao }, r, z, cod, b, ini, fim, ps),
{
    if let Some(c) = codigo::codigo_instr(ArvoreInstr::Escolher { expr, casos, padrao }, b, ini, fim) {
        if esta(cod, b, c) {
            lema_casos(expr, casos, padrao, cod, b, ini, fim, c);
            let e = codigo::codigo_expr(expr, b)->Some_0;
            let g = guarda(b);
            let m = b + e.len() + 1;
            let d = b + c.len();
            let all = codigo::codigo_casos(casos, casos.len() as int, g, m, ini, fim, d)->Some_0;
            let y1 = maquina::QuadroVisto { vars: vm::com_valor(y.vars, g, v), ..y };
            assert(da_em(x, q, expr, v, y, cod, b, ps));
            leis_codigo::lema_store(y, cod, m - 1, ps, v, g, x);
            leis_codigo::lema_um(em(y, cod, m - 1, ps.push(v)), em(y1, cod, m, ps), x);
            leis_codigo::lema_junta(em(q, cod, b, ps), em(y, cod, m - 1, ps.push(v)), em(y1, cod, m, ps), x);
            lema_prefixo_casos(casos, k + 1, casos.len() as int, g, m, ini, fim, d, cod, all);
            let ate = codigo::codigo_casos(casos, k + 1, g, m, ini, fim, d)->Some_0;
            let a = codigo::codigo_casos(casos, k, g, m, ini, fim, d)->Some_0;
            let i = m + a.len();
            let este = codigo::codigo_caso(casos[k], g, i, ini, fim, d)->Some_0;
            assert(ate == a + este);
            leis_codigo::lema_esta(cod, m, a, este);
            lema_nenhum_caso(x, y1, g, v, casos, k, w, cod, m, ini, fim, d, a, ps);
            leis_codigo::lema_junta(em(q, cod, b, ps), em(y1, cod, m, ps), em(w, cod, i, ps), x);
            lema_partes_caso(casos[k], g, i, ini, fim, d, cod, este);
            let es = casos[k].0;
            let bl = casos[k].1;
            let t0 = codigo::codigo_testes(es, es.len() as int, g, i, 0)->Some_0;
            let comeco = i + t0.len() + 1;
            let ts = codigo::codigo_testes(es, es.len() as int, g, i, comeco)->Some_0;
            lema_achado(x, w, g, v, es, es.len() as int, j, s, u, t, cod, i, ts, comeco, ps);
            leis_codigo::lema_junta(em(q, cod, b, ps), em(w, cod, i, ps), em(t, cod, comeco, ps), x);
            let kb = codigo::codigo_todo(bl, comeco, ini, fim)->Some_0;
            assert(fazem_em(x, t, bl, bl.len() as int, r, z, cod, comeco, ini, fim, ps));
            assert(codigo::codigo_bloco(bl, bl.len() as int, comeco, ini, fim) == Some(kb));
            let f = comeco + kb.len();
            if r is Segue {
                assert forall|us: Seq<vm::Visto>| acaba(x, z, z, cod, f, d, #[trigger] (ps + us)) by {
                    leis_codigo::lema_jump(z, cod, f, ps + us, d, x);
                    leis_codigo::lema_um(em(z, cod, f, ps + us), em(z, cod, d, ps + us), x);
                    leis_codigo::lema_acaba(x, z, z, cod, f, d, ps + us);
                }
                leis_codigo::lema_encadeia(x, t, z, z, cod, comeco, f, d, ps);
            }
            leis_codigo::lema_comeca(x, q, t, z, cod, b, comeco, destino(r, d, ini, fim), ps);
        }
    }
}

/// `escolher` sem nenhum valor igual: testados todos, corre o bloco `padrao`, se o ha, e nenhum outro.
pub proof fn lei_escolher_padrao(
    x: Fora,
    q: maquina::QuadroVisto,
    expr: ArvoreExpr,
    casos: Seq<(Seq<ArvoreExpr>, Seq<ArvoreInstr>)>,
    padrao: Option<Seq<ArvoreInstr>>,
    v: vm::Visto,
    y: maquina::QuadroVisto,
    w: maquina::QuadroVisto,
    r: Rumo,
    z: maquina::QuadroVisto,
    cod: Seq<Comando>,
    b: int,
    ini: Option<int>,
    fim: int,
    ps: Seq<vm::Visto>,
)
    requires
        da(x, q, expr, v, y),
        nenhum_caso(
            x,
            maquina::QuadroVisto { vars: vm::com_valor(y.vars, guarda(b), v), ..y },
            guarda(b),
            v,
            casos,
            casos.len() as int,
            w,
        ),
        match padrao {
            Some(p) => fazem(x, w, p, p.len() as int, r, z),
            None => r is Segue && z == w,
        },
    ensures
        faz_em(x, q, ArvoreInstr::Escolher { expr, casos, padrao }, r, z, cod, b, ini, fim, ps),
{
    if let Some(c) = codigo::codigo_instr(ArvoreInstr::Escolher { expr, casos, padrao }, b, ini, fim) {
        if esta(cod, b, c) {
            lema_casos(expr, casos, padrao, cod, b, ini, fim, c);
            let e = codigo::codigo_expr(expr, b)->Some_0;
            let g = guarda(b);
            let m = b + e.len() + 1;
            let d = b + c.len();
            let all = codigo::codigo_casos(casos, casos.len() as int, g, m, ini, fim, d)->Some_0;
            let i = m + all.len();
            let y1 = maquina::QuadroVisto { vars: vm::com_valor(y.vars, g, v), ..y };
            assert(da_em(x, q, expr, v, y, cod, b, ps));
            leis_codigo::lema_store(y, cod, m - 1, ps, v, g, x);
            leis_codigo::lema_um(em(y, cod, m - 1, ps.push(v)), em(y1, cod, m, ps), x);
            leis_codigo::lema_junta(em(q, cod, b, ps), em(y, cod, m - 1, ps.push(v)), em(y1, cod, m, ps), x);
            lema_nenhum_caso(x, y1, g, v, casos, casos.len() as int, w, cod, m, ini, fim, d, all, ps);
            leis_codigo::lema_junta(em(q, cod, b, ps), em(y1, cod, m, ps), em(w, cod, i, ps), x);
            if let Some(p) = padrao {
                let cp = codigo::codigo_opcional(padrao, i, ini, fim)->Some_0;
                assert(codigo::codigo_bloco(p, p.len() as int, i, ini, fim) == Some(cp));
                assert(fazem_em(x, w, p, p.len() as int, r, z, cod, i, ini, fim, ps));
                leis_codigo::lema_comeca(x, q, w, z, cod, b, i, destino(r, d, ini, fim), ps);
            } else {
                leis_codigo::lema_acaba(x, q, z, cod, b, d, ps);
            }
        }
    }
}

// ---- Tentar -----------------------------------------------------------------------------

proof fn lema_prefixo_bloco(
    v: Seq<ArvoreInstr>,
    k: int,
    n: int,
    b: int,
    ini: Option<int>,
    fim: int,
    cod: Seq<Comando>,
    c: Seq<Comando>,
)
    requires
        0 <= k <= n <= v.len(),
        codigo::codigo_bloco(v, n, b, ini, fim) == Some(c),
        esta(cod, b, c),
    ensures
        codigo::codigo_bloco(v, k, b, ini, fim) matches Some(a) && esta(cod, b, a),
    decreases n,
{
    if k < n {
        let a = codigo::codigo_bloco(v, n - 1, b, ini, fim)->Some_0;
        let d = codigo::codigo_instr(v[n - 1], b + a.len(), ini, fim)->Some_0;
        leis_codigo::lema_esta(cod, b, a, d);
        lema_prefixo_bloco(v, k, n - 1, b, ini, fim, cod, a);
    }
}

/// O quadro com mais um endereco para onde vao os erros.
pub open spec fn protegido(q: maquina::QuadroVisto, a: usize) -> maquina::QuadroVisto {
    maquina::QuadroVisto { capturas: q.capturas.push(a), ..q }
}

/// O quadro sem o ultimo endereco para onde vao os erros.
pub open spec fn desprotegido(q: maquina::QuadroVisto) -> maquina::QuadroVisto {
    maquina::QuadroVisto { capturas: q.capturas.drop_last(), ..q }
}

/// O endereco do `capturar` de um `tentar` que esta em `b`: logo a seguir ao codigo do corpo.
pub open spec fn captura_em(corpo: Seq<ArvoreInstr>, b: int, ini: Option<int>, fim: int) -> int {
    b + codigo::codigo_todo(corpo, b + 1, ini, fim)->Some_0.len() + 3
}

/// O que um `finalmente`, se o ha, faz do quadro.
pub open spec fn remata(
    x: Fora,
    q: maquina::QuadroVisto,
    finalmente: Option<Seq<ArvoreInstr>>,
    r: Rumo,
    z: maquina::QuadroVisto,
) -> bool {
    match finalmente {
        Some(f) => fazem(x, q, f, f.len() as int, r, z),
        None => r is Segue && z == q,
    }
}

proof fn lema_remata(
    x: Fora,
    q: maquina::QuadroVisto,
    finalmente: Option<Seq<ArvoreInstr>>,
    r: Rumo,
    z: maquina::QuadroVisto,
    cod: Seq<Comando>,
    g: int,
    ini: Option<int>,
    fim: int,
    f: Seq<Comando>,
    ps: Seq<vm::Visto>,
)
    requires
        remata(x, q, finalmente, r, z),
        codigo::codigo_opcional(finalmente, g, ini, fim) == Some(f),
        esta(cod, g, f),
    ensures
        acaba(x, q, z, cod, g, destino(r, g + f.len(), ini, fim), ps),
{
    match finalmente {
        Some(v) => {
            assert(codigo::codigo_bloco(v, v.len() as int, g, ini, fim) == Some(f));
            assert(fazem_em(x, q, v, v.len() as int, r, z, cod, g, ini, fim, ps));
        },
        None => {
            leis_codigo::lema_zero(em(q, cod, g, ps), x);
            leis_codigo::lema_acaba(x, q, q, cod, g, g, ps);
        },
    }
}

proof fn lema_partes_tentar(
    corpo: Seq<ArvoreInstr>,
    capturar: Option<(Seq<char>, Seq<ArvoreInstr>)>,
    finalmente: Option<Seq<ArvoreInstr>>,
    cod: Seq<Comando>,
    b: int,
    ini: Option<int>,
    fim: int,
    c: Seq<Comando>,
)
    requires
        codigo::codigo_instr(ArvoreInstr::Tentar { corpo, capturar, finalmente }, b, ini, fim) == Some(c),
        esta(cod, b, c),
    ensures
        0 <= b < cod.len(),
        codigo::codigo_todo(corpo, b + 1, ini, fim) matches Some(t) && {
            let m = b + t.len() + 3;
            &&& cod[b] == Comando::TryCatch(m)
            &&& esta(cod, b + 1, t)
            &&& cod[m - 2] == Comando::EndTry
            &&& m <= cod.len()
            &&& codigo::codigo_captura(capturar, m, ini, fim) matches Some(k) && {
                let g = m + k.len();
                &&& cod[m - 1] == Comando::Jump(g)
                &&& esta(cod, m, k)
                &&& codigo::codigo_opcional(finalmente, g, ini, fim) matches Some(f) && esta(cod, g, f) && b + c.len() == g + f.len()
            }
        },
{
    let t = codigo::codigo_todo(corpo, b + 1, ini, fim)->Some_0;
    let m = b + t.len() + 3;
    let k = codigo::codigo_captura(capturar, m, ini, fim)->Some_0;
    let g = m + k.len();
    let f = codigo::codigo_opcional(finalmente, g, ini, fim)->Some_0;
    let um1 = seq![Comando::TryCatch(m)];
    let dois = seq![Comando::EndTry, Comando::Jump(g)];
    assert(c == um1 + t + dois + k + f);
    leis_codigo::lema_esta(cod, b, um1 + t + dois + k, f);
    leis_codigo::lema_esta(cod, b, um1 + t + dois, k);
    leis_codigo::lema_esta(cod, b, um1 + t, dois);
    leis_codigo::lema_esta(cod, b, um1, t);
    assert(cod[b + 0] == um1[0]);
    assert(cod[b + 1 + t.len() + 0] == dois[0]);
    assert(cod[b + 1 + t.len() + 1] == dois[1]);
}

proof fn lema_try(q: maquina::QuadroVisto, cod: Seq<Comando>, ip: int, ps: Seq<vm::Visto>, a: usize, x: Fora)
    requires
        0 <= ip < cod.len(),
        cod[ip] == Comando::TryCatch(a as int),
    ensures
        um(em(q, cod, ip, ps), x) == Some(em(protegido(q, a), cod, ip + 1, ps)),
{
    reveal(maquina::passo);
}

proof fn lema_end_try(q: maquina::QuadroVisto, cod: Seq<Comando>, ip: int, ps: Seq<vm::Visto>, x: Fora)
    requires
        0 <= ip < cod.len(),
        cod[ip] == Comando::EndTry,
        q.capturas.len() > 0,
    ensures
        um(em(q, cod, ip, ps), x) == Some(em(desprotegido(q), cod, ip + 1, ps)),
{
    reveal(maquina::passo);
}

proof fn lema_throw(q: maquina::QuadroVisto, cod: Seq<Comando>, ip: int, ps: Seq<vm::Visto>, v: vm::Visto, x: Fora)
    requires
        0 <= ip < cod.len(),
        cod[ip] == Comando::Throw,
        q.capturas.len() > 0,
    ensures
        um(em(q, cod, ip, ps.push(v)), x) == Some(em(desprotegido(q), cod, q.capturas.last() as int, ps.push(v))),
{
    reveal(maquina::passo);
}

/// `tentar` sem erro: corre o corpo, o bloco de `capturar` nao corre, e corre o `finalmente`.
pub proof fn lei_tentar(
    x: Fora,
    q: maquina::QuadroVisto,
    corpo: Seq<ArvoreInstr>,
    capturar: Option<(Seq<char>, Seq<ArvoreInstr>)>,
    finalmente: Option<Seq<ArvoreInstr>>,
    a: usize,
    y: maquina::QuadroVisto,
    r: Rumo,
    z: maquina::QuadroVisto,
    cod: Seq<Comando>,
    b: int,
    ini: Option<int>,
    fim: int,
    ps: Seq<vm::Visto>,
)
    requires
        a == captura_em(corpo, b, ini, fim),
        fazem(x, protegido(q, a), corpo, corpo.len() as int, Rumo::Segue, y),
        y.capturas.len() > 0,
        remata(x, desprotegido(y), finalmente, r, z),
    ensures
        faz_em(x, q, ArvoreInstr::Tentar { corpo, capturar, finalmente }, r, z, cod, b, ini, fim, ps),
{
    if let Some(c) = codigo::codigo_instr(ArvoreInstr::Tentar { corpo, capturar, finalmente }, b, ini, fim) {
        if esta(cod, b, c) {
            lema_partes_tentar(corpo, capturar, finalmente, cod, b, ini, fim, c);
            let t = codigo::codigo_todo(corpo, b + 1, ini, fim)->Some_0;
            let m = a as int;
            let k = codigo::codigo_captura(capturar, m, ini, fim)->Some_0;
            let g = m + k.len();
            let f = codigo::codigo_opcional(finalmente, g, ini, fim)->Some_0;
            let d = destino(r, b + c.len(), ini, fim);
            let q1 = protegido(q, a);
            let y1 = desprotegido(y);
            lema_try(q, cod, b, ps, a, x);
            leis_codigo::lema_um(em(q, cod, b, ps), em(q1, cod, b + 1, ps), x);
            assert(codigo::codigo_bloco(corpo, corpo.len() as int, b + 1, ini, fim) == Some(t));
            assert(fazem_em(x, q1, corpo, corpo.len() as int, Rumo::Segue, y, cod, b + 1, ini, fim, ps));
            assert forall|us: Seq<vm::Visto>| acaba(x, y, z, cod, m - 2, d, #[trigger] (ps + us)) by {
                let s = ps + us;
                lema_end_try(y, cod, m - 2, s, x);
                leis_codigo::lema_jump(y1, cod, m - 1, s, g, x);
                leis_codigo::lema_um(em(y1, cod, m - 1, s), em(y1, cod, g, s), x);
                leis_codigo::lema_segue(em(y, cod, m - 2, s), em(y1, cod, m - 1, s), em(y1, cod, g, s), x);
                lema_remata(x, y1, finalmente, r, z, cod, g, ini, fim, f, s);
                leis_codigo::lema_comeca(x, y, y1, z, cod, m - 2, g, d, s);
            }
            leis_codigo::lema_encadeia(x, q1, y, z, cod, b + 1, m - 2, d, ps);
            leis_codigo::lema_comeca(x, q, q1, z, cod, b, b + 1, d, ps);
        }
    }
}

/// `tentar` com um erro lancado no corpo: o que vem depois do `lancar` nao corre; o nome de `capturar` fica
/// com o que se lancou, correm o bloco dele e o `finalmente`. Sem `capturar`, o erro perde-se.
pub proof fn lei_tentar_erro(
    x: Fora,
    q: maquina::QuadroVisto,
    corpo: Seq<ArvoreInstr>,
    capturar: Option<(Seq<char>, Seq<ArvoreInstr>)>,
    finalmente: Option<Seq<ArvoreInstr>>,
    a: usize,
    i: int,
    y: maquina::QuadroVisto,
    e: ArvoreExpr,
    v: vm::Visto,
    w: maquina::QuadroVisto,
    t: maquina::QuadroVisto,
    r: Rumo,
    z: maquina::QuadroVisto,
    cod: Seq<Comando>,
    b: int,
    ini: Option<int>,
    fim: int,
    ps: Seq<vm::Visto>,
)
    requires
        a == captura_em(corpo, b, ini, fim),
        0 <= i < corpo.len(),
        corpo[i] == ArvoreInstr::Lancar(e),
        fazem(x, protegido(q, a), corpo, i, Rumo::Segue, y),
        da(x, y, e, v, w),
        w.capturas.len() > 0,
        w.capturas.last() == a,
        match capturar {
            Some((nome, bloco)) => fazem(
                x,
                maquina::QuadroVisto { vars: vm::com_valor(w.vars, nome, v), ..desprotegido(w) },
                bloco,
                bloco.len() as int,
                Rumo::Segue,
                t,
            ),
            None => t == desprotegido(w),
        },
        remata(x, t, finalmente, r, z),
    ensures
        faz_em(x, q, ArvoreInstr::Tentar { corpo, capturar, finalmente }, r, z, cod, b, ini, fim, ps),
{
    if let Some(c) = codigo::codigo_instr(ArvoreInstr::Tentar { corpo, capturar, finalmente }, b, ini, fim) {
        if esta(cod, b, c) {
            lema_partes_tentar(corpo, capturar, finalmente, cod, b, ini, fim, c);
            let tt = codigo::codigo_todo(corpo, b + 1, ini, fim)->Some_0;
            let m = a as int;
            let k = codigo::codigo_captura(capturar, m, ini, fim)->Some_0;
            let g = m + k.len();
            let f = codigo::codigo_opcional(finalmente, g, ini, fim)->Some_0;
            let d = destino(r, b + c.len(), ini, fim);
            let q1 = protegido(q, a);
            let w1 = desprotegido(w);
            lema_try(q, cod, b, ps, a, x);
            leis_codigo::lema_um(em(q, cod, b, ps), em(q1, cod, b + 1, ps), x);
            lema_prefixo_bloco(corpo, i + 1, corpo.len() as int, b + 1, ini, fim, cod, tt);
            let ate = codigo::codigo_bloco(corpo, i + 1, b + 1, ini, fim)->Some_0;
            let antes = codigo::codigo_bloco(corpo, i, b + 1, ini, fim)->Some_0;
            let j = b + 1 + antes.len();
            let ci = codigo::codigo_instr(corpo[i], j, ini, fim)->Some_0;
            assert(ate == antes + ci);
            leis_codigo::lema_esta(cod, b + 1, antes, ci);
            let ce = codigo::codigo_expr(e, j)->Some_0;
            leis_codigo::lema_esta_push(cod, j, ce, Comando::Throw);
            assert(fazem_em(x, q1, corpo, i, Rumo::Segue, y, cod, b + 1, ini, fim, ps));
            assert forall|us: Seq<vm::Visto>| acaba(x, y, z, cod, j, d, #[trigger] (ps + us)) by {
                let s = ps + us;
                let l = j + ce.len();
                assert(da_em(x, y, e, v, w, cod, j, s));
                lema_throw(w, cod, l, s, v, x);
                leis_codigo::lema_um(em(w, cod, l, s.push(v)), em(w1, cod, m, s.push(v)), x);
                leis_codigo::lema_junta(em(y, cod, j, s), em(w, cod, l, s.push(v)), em(w1, cod, m, s.push(v)), x);
                lema_capturado(x, w1, capturar, v, t, finalmente, r, z, cod, m, ini, fim, k, f, s);
                let vs = choose|vs: Seq<vm::Visto>|
                    chega(em(w1, cod, m, s.push(v)), #[trigger] em(z, cod, d, s + vs), x);
                leis_codigo::lema_junta(em(y, cod, j, s), em(w1, cod, m, s.push(v)), em(z, cod, d, s + vs), x);
            }
            leis_codigo::lema_encadeia(x, q1, y, z, cod, b + 1, j, d, ps);
            leis_codigo::lema_comeca(x, q, q1, z, cod, b, b + 1, d, ps);
        }
    }
}

proof fn lema_capturado(
    x: Fora,
    w: maquina::QuadroVisto,
    capturar: Option<(Seq<char>, Seq<ArvoreInstr>)>,
    v: vm::Visto,
    t: maquina::QuadroVisto,
    finalmente: Option<Seq<ArvoreInstr>>,
    r: Rumo,
    z: maquina::QuadroVisto,
    cod: Seq<Comando>,
    m: int,
    ini: Option<int>,
    fim: int,
    k: Seq<Comando>,
    f: Seq<Comando>,
    s: Seq<vm::Visto>,
)
    requires
        match capturar {
            Some((nome, bloco)) => fazem(
                x,
                maquina::QuadroVisto { vars: vm::com_valor(w.vars, nome, v), ..w },
                bloco,
                bloco.len() as int,
                Rumo::Segue,
                t,
            ),
            None => t == w,
        },
        remata(x, t, finalmente, r, z),
        codigo::codigo_captura(capturar, m, ini, fim) == Some(k),
        esta(cod, m, k),
        codigo::codigo_opcional(finalmente, m + k.len(), ini, fim) == Some(f),
        esta(cod, m + k.len(), f),
    ensures
        exists|vs: Seq<vm::Visto>|
            chega(
                em(w, cod, m, s.push(v)),
                #[trigger] em(z, cod, destino(r, m + k.len() + f.len(), ini, fim), s + vs),
                x,
            ),
{
    let g = m + k.len();
    let d = destino(r, g + f.len(), ini, fim);
    match capturar {
        Some((nome, bloco)) => {
            let w1 = maquina::QuadroVisto { vars: vm::com_valor(w.vars, nome, v), ..w };
            let kb = codigo::codigo_todo(bloco, m + 1, ini, fim)->Some_0;
            assert(k == seq![Comando::Store(nome)] + kb);
            leis_codigo::lema_esta(cod, m, seq![Comando::Store(nome)], kb);
            assert(cod[m + 0] == seq![Comando::Store(nome)][0]);
            leis_codigo::lema_store(w, cod, m, s, v, nome, x);
            leis_codigo::lema_um(em(w, cod, m, s.push(v)), em(w1, cod, m + 1, s), x);
            assert(codigo::codigo_bloco(bloco, bloco.len() as int, m + 1, ini, fim) == Some(kb));
            assert(fazem_em(x, w1, bloco, bloco.len() as int, Rumo::Segue, t, cod, m + 1, ini, fim, s));
            assert forall|us: Seq<vm::Visto>| acaba(x, t, z, cod, g, d, #[trigger] (s + us)) by {
                lema_remata(x, t, finalmente, r, z, cod, g, ini, fim, f, s + us);
            }
            leis_codigo::lema_encadeia(x, w1, t, z, cod, m + 1, g, d, s);
            let vs = choose|vs: Seq<vm::Visto>| chega(em(w1, cod, m + 1, s), #[trigger] em(z, cod, d, s + vs), x);
            leis_codigo::lema_junta(em(w, cod, m, s.push(v)), em(w1, cod, m + 1, s), em(z, cod, d, s + vs), x);
        },
        None => {
            assert(cod[m + 0] == k[0]);
            leis_codigo::lema_pop(w, cod, m, s, v, x);
            leis_codigo::lema_um(em(w, cod, m, s.push(v)), em(w, cod, g, s), x);
            lema_remata(x, t, finalmente, r, z, cod, g, ini, fim, f, s);
            let vs = choose|vs: Seq<vm::Visto>| chega(em(w, cod, g, s), #[trigger] em(z, cod, d, s + vs), x);
            leis_codigo::lema_junta(em(w, cod, m, s.push(v)), em(w, cod, g, s), em(z, cod, d, s + vs), x);
        },
    }
}

} // verus!
