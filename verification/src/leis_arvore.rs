//! Leis do interpretador da arvore: o que cada construcao da linguagem faz, dito do que fazem as
//! partes dela.

use vstd::prelude::*;
use crate::ambiente;
use crate::aplicar;
use crate::ast;
use crate::ast::{OpBinario, OpUnario};
use crate::interpretador;
use crate::tarefa;
use crate::valor;

verus! {

// ---- Correr -----------------------------------------------------------------------------

/// O estado com estas tarefas por fazer e estes valores ja dados.
pub open spec fn leva(
    s: interpretador::Estado,
    ts: Seq<tarefa::TarefaVista>,
    vs: Seq<valor::Dado>,
) -> interpretador::Estado {
    interpretador::Estado { tarefas: ts, valores: vs, ..s }
}

/// Do primeiro estado chega-se ao segundo em `n` passos.
pub open spec fn chega_em(a: interpretador::Estado, b: interpretador::Estado, n: nat) -> bool {
    interpretador::corre(a, n as int) == interpretador::andou(b)
}

/// Do primeiro estado chega-se ao segundo sem nada que venha de fora.
pub open spec fn chega(a: interpretador::Estado, b: interpretador::Estado) -> bool {
    exists|n: nat| #[trigger] chega_em(a, b, n)
}

/// O interpretador esta a andar.
pub open spec fn pronto(s: interpretador::Estado) -> bool {
    s.modo is Anda && s.ambientes.len() > 0
}

/// A expressao, avaliada a partir de `s`, da `v` e deixa o estado `z`, quaisquer que sejam as tarefas
/// que esperam e os valores ja dados.
pub open spec fn da(
    s: interpretador::Estado,
    e: ast::ArvoreExpr,
    v: valor::Dado,
    z: interpretador::Estado,
) -> bool {
    pronto(z) && forall|ts: Seq<tarefa::TarefaVista>, vs: Seq<valor::Dado>| #[trigger]
        chega(leva(s, ts.push(tarefa::TarefaVista::Avaliar(e)), vs), leva(z, ts, vs.push(v)))
}

/// A tarefa, feita a partir de `s`, deixa o estado `z`, quaisquer que sejam as tarefas que esperam e
/// os valores ja dados.
pub open spec fn faz(s: interpretador::Estado, t: tarefa::TarefaVista, z: interpretador::Estado) -> bool {
    z.ambientes.len() > 0 && forall|ts: Seq<tarefa::TarefaVista>, vs: Seq<valor::Dado>| #[trigger]
        chega(leva(s, ts.push(t), vs), leva(z, ts, vs))
}

/// A instrucao, executada a partir de `s`, deixa o estado `z`.
pub open spec fn executa(s: interpretador::Estado, x: ast::ArvoreInstr, z: interpretador::Estado) -> bool {
    faz(s, tarefa::TarefaVista::Executar(x), z)
}

/// As instrucoes a partir da `i`, executadas a partir de `s`, deixam o estado `z`.
pub open spec fn executa_desde(
    s: interpretador::Estado,
    b: Seq<ast::ArvoreInstr>,
    i: int,
    z: interpretador::Estado,
) -> bool {
    faz(s, tarefa::TarefaVista::Bloco(b, i), z)
}

proof fn lema_zero(a: interpretador::Estado)
    ensures
        chega(a, a),
{
    assert(chega_em(a, a, 0));
}

proof fn lema_segue(a: interpretador::Estado, b: interpretador::Estado, c: interpretador::Estado)
    requires
        interpretador::anda(a) == interpretador::andou(b),
        chega(b, c),
    ensures
        chega(a, c),
{
    let n = choose|n: nat| #[trigger] chega_em(b, c, n);
    assert(chega_em(a, c, n + 1));
}

proof fn lema_junta(a: interpretador::Estado, b: interpretador::Estado, c: interpretador::Estado)
    requires
        chega(a, b),
        chega(b, c),
    ensures
        chega(a, c),
{
    let n = choose|n: nat| #[trigger] chega_em(a, b, n);
    let m = choose|m: nat| #[trigger] chega_em(b, c, m);
    interpretador::lei_correr(a, n, m);
    assert(chega_em(a, c, n + m));
}

proof fn lema_tira(a: interpretador::Estado, b: interpretador::Estado, c: interpretador::Estado)
    requires
        interpretador::anda(a) == interpretador::andou(b),
        chega(a, c),
        a.tarefas.len() != c.tarefas.len(),
    ensures
        chega(b, c),
{
    let n = choose|n: nat| #[trigger] chega_em(a, c, n);
    assert(n > 0);
    assert(chega_em(b, c, (n - 1) as nat));
}

proof fn lema_anda(s: interpretador::Estado, ts: Seq<tarefa::TarefaVista>, t: tarefa::TarefaVista, vs: Seq<valor::Dado>)
    requires
        s.ambientes.len() > 0,
    ensures
        interpretador::anda(leva(s, ts.push(t), vs)) == (match s.modo {
            tarefa::ModoVisto::Anda => interpretador::continua(leva(s, ts, vs), t),
            tarefa::ModoVisto::Sinal(x) => interpretador::com_sinal(leva(s, ts, vs), t, x),
            tarefa::ModoVisto::Falha(m) => interpretador::com_falha(leva(s, ts, vs), t, m),
        }),
{
    reveal(interpretador::anda);
    assert(ts.push(t).drop_last() =~= ts);
}

proof fn lema_sem(s: interpretador::Estado, ts: Seq<tarefa::TarefaVista>, vs: Seq<valor::Dado>, v: valor::Dado)
    ensures
        interpretador::sem(leva(s, ts, vs.push(v)), 1) == leva(s, ts, vs),
        interpretador::com(leva(s, ts, vs), v) == leva(s, ts, vs.push(v)),
{
    assert(vs.push(v).take(vs.len() as int) =~= vs);
}

proof fn lema_sem_dois(
    s: interpretador::Estado,
    ts: Seq<tarefa::TarefaVista>,
    vs: Seq<valor::Dado>,
    a: valor::Dado,
    b: valor::Dado,
)
    ensures
        interpretador::sem(leva(s, ts, vs.push(a).push(b)), 2) == leva(s, ts, vs),
{
    assert(vs.push(a).push(b).take(vs.len() as int) =~= vs);
}

// ---- Decisoes ---------------------------------------------------------------------------

/// `se c { A } senao { B }`: se o valor de `c` conta como verdadeiro faz-se `A` e nada de `B`, senao
/// faz-se `B`, se o ha, e nada de `A`.
pub proof fn lei_se(
    s: interpretador::Estado,
    condicao: ast::ArvoreExpr,
    entao: Seq<ast::ArvoreInstr>,
    senao: Option<Seq<ast::ArvoreInstr>>,
    v: valor::Dado,
    y: interpretador::Estado,
    z: interpretador::Estado,
)
    requires
        pronto(s),
        da(s, condicao, v, y),
        if aplicar::verdadeiro(v) {
            executa_desde(y, entao, 0, z)
        } else {
            match senao {
                Some(b) => executa_desde(y, b, 0, z),
                None => z == y,
            }
        },
    ensures
        executa(s, ast::ArvoreInstr::Se { condicao, entao, senao }, z),
{
    let x = ast::ArvoreInstr::Se { condicao, entao, senao };
    let t = tarefa::TarefaVista::Executar(x);
    let d = tarefa::TarefaVista::Decide(entao, senao);
    assert forall|ts: Seq<tarefa::TarefaVista>, vs: Seq<valor::Dado>| #[trigger]
        chega(leva(s, ts.push(t), vs), leva(z, ts, vs)) by {
        reveal(interpretador::executa);
        reveal(interpretador::continua_instr);
        lema_anda(s, ts, t, vs);
        let a = leva(s, ts.push(t), vs);
        let b = leva(s, ts.push(d).push(tarefa::TarefaVista::Avaliar(condicao)), vs);
        assert(interpretador::anda(a) == interpretador::andou(b));
        let c = leva(y, ts.push(d), vs.push(v));
        assert(chega(b, c));
        lema_anda(y, ts, d, vs.push(v));
        lema_sem(y, ts, vs, v);
        let f = leva(z, ts, vs);
        if aplicar::verdadeiro(v) {
            let g = leva(y, ts.push(tarefa::TarefaVista::Bloco(entao, 0)), vs);
            assert(interpretador::anda(c) == interpretador::andou(g));
            assert(chega(g, f));
            lema_segue(c, g, f);
        } else {
            match senao {
                Some(bl) => {
                    let g = leva(y, ts.push(tarefa::TarefaVista::Bloco(bl, 0)), vs);
                    assert(interpretador::anda(c) == interpretador::andou(g));
                    assert(chega(g, f));
                    lema_segue(c, g, f);
                },
                None => {
                    assert(interpretador::anda(c) == interpretador::andou(f));
                    lema_zero(f);
                    lema_segue(c, f, f);
                },
            }
        }
        lema_junta(b, c, f);
        lema_segue(a, b, f);
    }
}

/// Dado o valor da condicao de um `se`, a instrucao que se executa a seguir e a primeira do bloco que
/// ele escolhe.
pub proof fn lei_primeira_instrucao(
    s: interpretador::Estado,
    entao: Seq<ast::ArvoreInstr>,
    senao: Seq<ast::ArvoreInstr>,
    v: valor::Dado,
    ts: Seq<tarefa::TarefaVista>,
    vs: Seq<valor::Dado>,
    condicao: ast::ArvoreExpr,
)
    requires
        pronto(s),
        entao.len() > 0,
        senao.len() > 0,
    ensures
        exists|t: tarefa::TarefaVista|
            interpretador::anda(
                leva(
                    s,
                    ts.push(
                        tarefa::TarefaVista::Executar(ast::ArvoreInstr::Se { condicao, entao, senao: Some(senao) }),
                    ),
                    vs,
                ),
            ) == interpretador::andou(
                leva(s, #[trigger] ts.push(t).push(tarefa::TarefaVista::Avaliar(condicao)), vs),
            ) && ({
                let r = interpretador::corre(leva(s, ts.push(t), vs.push(v)), 2);
                r.1 is Andou && r.0.tarefas.last() == tarefa::TarefaVista::Executar(
                    if aplicar::verdadeiro(v) {
                        entao[0]
                    } else {
                        senao[0]
                    },
                ) && r.0.valores == vs
            }),
{
    reveal(interpretador::executa);
    reveal(interpretador::continua_instr);
    let x = ast::ArvoreInstr::Se { condicao, entao, senao: Some(senao) };
    let d = tarefa::TarefaVista::Decide(entao, Some(senao));
    lema_anda(s, ts, tarefa::TarefaVista::Executar(x), vs);
    lema_anda(s, ts, d, vs.push(v));
    lema_sem(s, ts, vs, v);
    let b = if aplicar::verdadeiro(v) {
        entao
    } else {
        senao
    };
    lema_anda(s, ts, tarefa::TarefaVista::Bloco(b, 0), vs);
    reveal_with_fuel(interpretador::corre, 3);
    assert(interpretador::anda(leva(s, ts.push(d), vs.push(v))) == interpretador::andou(
        leva(s, ts.push(tarefa::TarefaVista::Bloco(b, 0)), vs),
    ));
    assert(interpretador::anda(
        leva(s, ts.push(tarefa::TarefaVista::Executar(x)), vs),
    ) == interpretador::andou(leva(s, ts.push(d).push(tarefa::TarefaVista::Avaliar(condicao)), vs)));
}

// ---- Blocos -----------------------------------------------------------------------------

/// Um bloco acabado nao faz nada; senao, executa-se a instrucao em que ele vai e, se ela nao deixa
/// nada a subir, as seguintes; se deixa um sinal, o resto do bloco nao se executa.
pub proof fn lei_bloco(
    s: interpretador::Estado,
    b: Seq<ast::ArvoreInstr>,
    i: int,
    y: interpretador::Estado,
    z: interpretador::Estado,
)
    requires
        pronto(s),
        0 <= i <= b.len(),
        i < b.len() ==> executa(s, b[i], y),
        i == b.len() ==> z == s,
        i < b.len() && y.modo is Anda ==> executa_desde(y, b, i + 1, z),
        i < b.len() && !(y.modo is Anda) ==> y.modo is Sinal && z == y,
    ensures
        executa_desde(s, b, i, z),
{
    let t = tarefa::TarefaVista::Bloco(b, i);
    assert forall|ts: Seq<tarefa::TarefaVista>, vs: Seq<valor::Dado>| #[trigger]
        chega(leva(s, ts.push(t), vs), leva(z, ts, vs)) by {
        reveal(interpretador::continua_instr);
        lema_anda(s, ts, t, vs);
        let a = leva(s, ts.push(t), vs);
        let f = leva(z, ts, vs);
        if i < b.len() {
            let n = tarefa::TarefaVista::Bloco(b, i + 1);
            let g = leva(s, ts.push(n).push(tarefa::TarefaVista::Executar(b[i])), vs);
            let h = leva(y, ts.push(n), vs);
            assert(interpretador::anda(a) == interpretador::andou(g));
            assert(chega(g, h));
            if y.modo is Anda {
                assert(chega(h, f));
            } else {
                lema_anda(y, ts, n, vs);
                assert(interpretador::anda(h) == interpretador::andou(f));
                lema_zero(f);
                lema_segue(h, f, f);
            }
            lema_junta(g, h, f);
            lema_segue(a, g, f);
        } else {
            assert(interpretador::anda(a) == interpretador::andou(f));
            lema_zero(f);
            lema_segue(a, f, f);
        }
    }
}

/// Uma instrucao com a linha dela faz o mesmo que a instrucao, e a linha em que se vai passa a ser a
/// dela.
pub proof fn lei_localizada(
    s: interpretador::Estado,
    linha: usize,
    contexto: Seq<char>,
    x: ast::ArvoreInstr,
    z: interpretador::Estado,
)
    requires
        pronto(s),
        executa(interpretador::Estado { linha, ..s }, x, z),
        !(z.modo is Falha),
    ensures
        executa(s, ast::ArvoreInstr::Localizada { linha, contexto, instrucao: Box::new(x) }, z),
{
    let l = ast::ArvoreInstr::Localizada { linha, contexto, instrucao: Box::new(x) };
    let t = tarefa::TarefaVista::Executar(l);
    let p = interpretador::Estado { linha, ..s };
    let w = tarefa::TarefaVista::FimLinha { linha, contexto };
    assert forall|ts: Seq<tarefa::TarefaVista>, vs: Seq<valor::Dado>| #[trigger]
        chega(leva(s, ts.push(t), vs), leva(z, ts, vs)) by {
        reveal(interpretador::executa);
        reveal(interpretador::continua_instr);
        lema_anda(s, ts, t, vs);
        let a = leva(s, ts.push(t), vs);
        let g = leva(p, ts.push(w).push(tarefa::TarefaVista::Executar(x)), vs);
        let h = leva(z, ts.push(w), vs);
        let f = leva(z, ts, vs);
        assert(interpretador::anda(a) == interpretador::andou(g));
        assert(chega(g, h));
        lema_anda(z, ts, w, vs);
        assert(interpretador::anda(h) == interpretador::andou(f));
        lema_zero(f);
        lema_segue(h, f, f);
        lema_junta(g, h, f);
        lema_segue(a, g, f);
    }
}

proof fn lema_com_valor(
    s: interpretador::Estado,
    t: tarefa::TarefaVista,
    d: tarefa::TarefaVista,
    e: ast::ArvoreExpr,
    v: valor::Dado,
    y: interpretador::Estado,
    z: interpretador::Estado,
)
    requires
        pronto(s),
        z.ambientes.len() > 0,
        da(s, e, v, y),
        forall|ts: Seq<tarefa::TarefaVista>, vs: Seq<valor::Dado>|
            interpretador::anda(#[trigger] leva(s, ts.push(t), vs)) == interpretador::andou(
                leva(s, ts.push(d).push(tarefa::TarefaVista::Avaliar(e)), vs),
            ),
        forall|ts: Seq<tarefa::TarefaVista>, vs: Seq<valor::Dado>|
            interpretador::anda(#[trigger] leva(y, ts.push(d), vs.push(v))) == interpretador::andou(leva(z, ts, vs)),
    ensures
        faz(s, t, z),
{
    assert forall|ts: Seq<tarefa::TarefaVista>, vs: Seq<valor::Dado>| #[trigger]
        chega(leva(s, ts.push(t), vs), leva(z, ts, vs)) by {
        let a = leva(s, ts.push(t), vs);
        let g = leva(s, ts.push(d).push(tarefa::TarefaVista::Avaliar(e)), vs);
        let h = leva(y, ts.push(d), vs.push(v));
        let f = leva(z, ts, vs);
        assert(chega(g, h));
        lema_zero(f);
        lema_segue(h, f, f);
        lema_junta(g, h, f);
        lema_segue(a, g, f);
    }
}

/// `var nome = e` define o nome, no escopo de dentro, com o valor de `e`; sem valor, com `nulo`. Uma
/// expressao como instrucao so deixa o que ela mudou. `retornar e` deixa a subir o valor de `e`, `pare`
/// e `continue` os seus sinais.
pub proof fn lei_instrucoes(
    s: interpretador::Estado,
    nome: Seq<char>,
    e: ast::ArvoreExpr,
    v: valor::Dado,
    y: interpretador::Estado,
)
    requires
        pronto(s),
        da(s, e, v, y),
    ensures
        executa(s, ast::ArvoreInstr::DeclararVar { nome, valor: Some(e) }, interpretador::define(y, nome, v)),
        executa(s, ast::ArvoreInstr::DeclararVar { nome, valor: None }, interpretador::define(s, nome, valor::Dado::Nulo)),
        executa(s, ast::ArvoreInstr::Expressao(e), y),
        executa(
            s,
            ast::ArvoreInstr::Retornar(Some(e)),
            interpretador::Estado {
                modo: tarefa::ModoVisto::Sinal(tarefa::SinalVisto::Retornar(v)),
                ..y
            },
        ),
        executa(
            s,
            ast::ArvoreInstr::Retornar(None),
            interpretador::Estado {
                modo: tarefa::ModoVisto::Sinal(tarefa::SinalVisto::Retornar(valor::Dado::Nulo)),
                ..s
            },
        ),
        executa(
            s,
            ast::ArvoreInstr::Pare,
            interpretador::Estado { modo: tarefa::ModoVisto::Sinal(tarefa::SinalVisto::Pare), ..s },
        ),
        executa(
            s,
            ast::ArvoreInstr::Continue,
            interpretador::Estado { modo: tarefa::ModoVisto::Sinal(tarefa::SinalVisto::Continue), ..s },
        ),
{
    let declara = ast::ArvoreInstr::DeclararVar { nome, valor: Some(e) };
    let expressao = ast::ArvoreInstr::Expressao(e);
    let retorna = ast::ArvoreInstr::Retornar(Some(e));
    let retornado = interpretador::Estado {
        modo: tarefa::ModoVisto::Sinal(tarefa::SinalVisto::Retornar(v)),
        ..y
    };
    assert forall|x: ast::ArvoreInstr, ts: Seq<tarefa::TarefaVista>, vs: Seq<valor::Dado>|
        interpretador::anda(#[trigger] leva(s, ts.push(tarefa::TarefaVista::Executar(x)), vs))
            == interpretador::executa(leva(s, ts, vs), x) by {
        lema_anda(s, ts, tarefa::TarefaVista::Executar(x), vs);
    }
    assert forall|t: tarefa::TarefaVista, ts: Seq<tarefa::TarefaVista>, vs: Seq<valor::Dado>|
        (t is Declara || t is Descarta || t is Devolve) implies interpretador::anda(
            #[trigger] leva(y, ts.push(t), vs.push(v)),
        ) == interpretador::continua_instr(leva(y, ts, vs.push(v)), t) && interpretador::sem(
            leva(y, ts, vs.push(v)),
            1,
        ) == leva(y, ts, vs) by {
        lema_anda(y, ts, t, vs.push(v));
        lema_sem(y, ts, vs, v);
    }
    reveal(interpretador::executa);
    reveal(interpretador::continua_instr);
    lema_com_valor(
        s,
        tarefa::TarefaVista::Executar(declara),
        tarefa::TarefaVista::Declara(nome),
        e,
        v,
        y,
        interpretador::define(y, nome, v),
    );
    lema_com_valor(s, tarefa::TarefaVista::Executar(expressao), tarefa::TarefaVista::Descarta, e, v, y, y);
    lema_com_valor(s, tarefa::TarefaVista::Executar(retorna), tarefa::TarefaVista::Devolve, e, v, y, retornado);
    lema_num_passo(s, ast::ArvoreInstr::DeclararVar { nome, valor: None }, interpretador::define(s, nome, valor::Dado::Nulo));
    lema_num_passo(
        s,
        ast::ArvoreInstr::Retornar(None),
        interpretador::Estado {
            modo: tarefa::ModoVisto::Sinal(tarefa::SinalVisto::Retornar(valor::Dado::Nulo)),
            ..s
        },
    );
    lema_num_passo(
        s,
        ast::ArvoreInstr::Pare,
        interpretador::Estado { modo: tarefa::ModoVisto::Sinal(tarefa::SinalVisto::Pare), ..s },
    );
    lema_num_passo(
        s,
        ast::ArvoreInstr::Continue,
        interpretador::Estado { modo: tarefa::ModoVisto::Sinal(tarefa::SinalVisto::Continue), ..s },
    );
}

proof fn lema_num_passo(s: interpretador::Estado, x: ast::ArvoreInstr, z: interpretador::Estado)
    requires
        z.ambientes.len() > 0,
        forall|ts: Seq<tarefa::TarefaVista>, vs: Seq<valor::Dado>|
            interpretador::anda(#[trigger] leva(s, ts.push(tarefa::TarefaVista::Executar(x)), vs))
                == interpretador::andou(leva(z, ts, vs)),
    ensures
        executa(s, x, z),
{
    assert forall|ts: Seq<tarefa::TarefaVista>, vs: Seq<valor::Dado>| #[trigger]
        chega(leva(s, ts.push(tarefa::TarefaVista::Executar(x)), vs), leva(z, ts, vs)) by {
        let f = leva(z, ts, vs);
        lema_zero(f);
        lema_segue(leva(s, ts.push(tarefa::TarefaVista::Executar(x)), vs), f, f);
    }
}

// ---- Lacos ------------------------------------------------------------------------------

/// O estado depois de contada mais uma volta.
pub open spec fn contada(s: interpretador::Estado) -> interpretador::Estado {
    interpretador::Estado { ops: (s.ops + 1) as u64, ..s }
}

/// Ainda se pode dar mais uma volta: nao ha limite, ou ele nao foi atingido.
pub open spec fn pode_contar(s: interpretador::Estado) -> bool {
    s.ops < u64::MAX && (s.limite == 0 || s.ops < s.limite)
}

/// O que fica depois do corpo de um laco: com `pare` o laco acaba, com `continue` segue para a volta
/// seguinte, e um `retornar` sobe por ele.
pub open spec fn depois_do_corpo(w: interpretador::Estado, z: interpretador::Estado, segue: bool) -> bool {
    match w.modo {
        tarefa::ModoVisto::Anda => segue,
        tarefa::ModoVisto::Sinal(tarefa::SinalVisto::Continue) => segue,
        tarefa::ModoVisto::Sinal(tarefa::SinalVisto::Pare) => z == (interpretador::Estado {
            modo: tarefa::ModoVisto::Anda,
            ..w
        }),
        tarefa::ModoVisto::Sinal(tarefa::SinalVisto::Retornar(_)) => z == w,
        tarefa::ModoVisto::Falha(_) => false,
    }
}

/// O que um laco faz depois do corpo, com a tarefa dele por baixo.
proof fn lema_volta(
    w: interpretador::Estado,
    t: tarefa::TarefaVista,
    z: interpretador::Estado,
    ts: Seq<tarefa::TarefaVista>,
    vs: Seq<valor::Dado>,
)
    requires
        w.ambientes.len() > 0,
        t is Enquanto || t is Para || t is Intervalo,
        depois_do_corpo(w, z, chega(leva(interpretador::normal(w), ts.push(t), vs), leva(z, ts, vs))),
    ensures
        chega(leva(w, ts.push(t), vs), leva(z, ts, vs)),
{
    let a = leva(w, ts.push(t), vs);
    let f = leva(z, ts, vs);
    lema_anda(w, ts, t, vs);
    match w.modo {
        tarefa::ModoVisto::Anda => {
            assert(interpretador::normal(w) == w);
        },
        tarefa::ModoVisto::Sinal(x) => match x {
            tarefa::SinalVisto::Continue => {
                let g = leva(interpretador::normal(w), ts.push(t), vs);
                assert(interpretador::anda(a) == interpretador::andou(g));
                lema_segue(a, g, f);
            },
            _ => {
                assert(interpretador::anda(a) == interpretador::andou(f));
                lema_zero(f);
                lema_segue(a, f, f);
            },
        },
        _ => {},
    }
}

/// `enquanto c { corpo }`: avalia-se `c`; se o valor nao conta como verdadeiro o laco acabou, senao
/// faz-se o corpo e volta-se ao comeco. Com `pare` no corpo o laco acaba, com `continue` volta-se ao
/// comeco, e um `retornar` sobe por ele.
pub proof fn lei_enquanto(
    s: interpretador::Estado,
    condicao: ast::ArvoreExpr,
    corpo: Seq<ast::ArvoreInstr>,
    v: valor::Dado,
    y: interpretador::Estado,
    w: interpretador::Estado,
    z: interpretador::Estado,
)
    requires
        pronto(s),
        z.ambientes.len() > 0,
        pode_contar(s),
        da(contada(s), condicao, v, y),
        !aplicar::verdadeiro(v) ==> z == y,
        aplicar::verdadeiro(v) ==> executa_desde(y, corpo, 0, w) && depois_do_corpo(
            w,
            z,
            executa(interpretador::normal(w), ast::ArvoreInstr::Enquanto { condicao, corpo }, z),
        ),
    ensures
        executa(s, ast::ArvoreInstr::Enquanto { condicao, corpo }, z),
{
    let x = ast::ArvoreInstr::Enquanto { condicao, corpo };
    let t = tarefa::TarefaVista::Executar(x);
    let l = tarefa::TarefaVista::Enquanto(condicao, corpo);
    let d = tarefa::TarefaVista::Testa(condicao, corpo);
    assert forall|ts: Seq<tarefa::TarefaVista>, vs: Seq<valor::Dado>| #[trigger]
        chega(leva(s, ts.push(t), vs), leva(z, ts, vs)) by {
        reveal(interpretador::executa);
        reveal(interpretador::continua_instr);
        let a = leva(s, ts.push(t), vs);
        let b = leva(s, ts.push(l), vs);
        let c = leva(contada(s), ts.push(d).push(tarefa::TarefaVista::Avaliar(condicao)), vs);
        let h = leva(y, ts.push(d), vs.push(v));
        let f = leva(z, ts, vs);
        lema_anda(s, ts, t, vs);
        assert(interpretador::anda(a) == interpretador::andou(b));
        lema_anda(s, ts, l, vs);
        assert(interpretador::anda(b) == interpretador::andou(c));
        assert(chega(c, h));
        lema_anda(y, ts, d, vs.push(v));
        lema_sem(y, ts, vs, v);
        if aplicar::verdadeiro(v) {
            let k = leva(y, ts.push(l).push(tarefa::TarefaVista::Bloco(corpo, 0)), vs);
            assert(interpretador::anda(h) == interpretador::andou(k));
            let m = leva(w, ts.push(l), vs);
            assert(chega(k, m));
            let n = interpretador::normal(w);
            if executa(n, x, z) {
                lema_anda(n, ts, t, vs);
                assert(interpretador::anda(leva(n, ts.push(t), vs)) == interpretador::andou(leva(n, ts.push(l), vs)));
                assert(chega(leva(n, ts.push(t), vs), f));
                lema_tira(leva(n, ts.push(t), vs), leva(n, ts.push(l), vs), f);
            }
            lema_volta(w, l, z, ts, vs);
            lema_junta(k, m, f);
            lema_segue(h, k, f);
        } else {
            assert(interpretador::anda(h) == interpretador::andou(f));
            lema_zero(f);
            lema_segue(h, f, f);
        }
        lema_junta(c, h, f);
        lema_segue(b, c, f);
        lema_segue(a, b, f);
    }
}

/// Os itens que faltam de um percurso, feitos a partir de `s`, deixam o estado `z`: sem itens, nada;
/// senao, o primeiro fica na variavel, faz-se o corpo e seguem-se os outros.
pub open spec fn percorre(
    s: interpretador::Estado,
    variavel: Seq<char>,
    itens: Seq<valor::Dado>,
    i: int,
    corpo: Seq<ast::ArvoreInstr>,
    z: interpretador::Estado,
) -> bool {
    faz(s, tarefa::TarefaVista::Para { variavel, itens, i, corpo }, z)
}

/// Um percurso: sem itens por fazer, nada; senao, o item `i` fica na variavel, faz-se o corpo e
/// seguem-se os outros, com `pare`, `continue` e `retornar` como em qualquer laco.
pub proof fn lei_percurso(
    s: interpretador::Estado,
    variavel: Seq<char>,
    itens: Seq<valor::Dado>,
    i: int,
    corpo: Seq<ast::ArvoreInstr>,
    w: interpretador::Estado,
    z: interpretador::Estado,
)
    requires
        pronto(s),
        z.ambientes.len() > 0,
        0 <= i <= itens.len(),
        i == itens.len() ==> z == s,
        i < itens.len() ==> executa_desde(interpretador::define(s, variavel, itens[i]), corpo, 0, w)
            && depois_do_corpo(w, z, percorre(interpretador::normal(w), variavel, itens, i + 1, corpo, z)),
    ensures
        percorre(s, variavel, itens, i, corpo, z),
{
    let t = tarefa::TarefaVista::Para { variavel, itens, i, corpo };
    let n = tarefa::TarefaVista::Para { variavel, itens, i: i + 1, corpo };
    assert forall|ts: Seq<tarefa::TarefaVista>, vs: Seq<valor::Dado>| #[trigger]
        chega(leva(s, ts.push(t), vs), leva(z, ts, vs)) by {
        reveal(interpretador::continua_instr);
        let a = leva(s, ts.push(t), vs);
        let f = leva(z, ts, vs);
        lema_anda(s, ts, t, vs);
        if i < itens.len() {
            let p = interpretador::define(s, variavel, itens[i]);
            let b = leva(p, ts.push(n).push(tarefa::TarefaVista::Bloco(corpo, 0)), vs);
            let m = leva(w, ts.push(n), vs);
            assert(interpretador::anda(a) == interpretador::andou(b));
            assert(chega(b, m));
            if percorre(interpretador::normal(w), variavel, itens, i + 1, corpo, z) {
                assert(chega(leva(interpretador::normal(w), ts.push(n), vs), f));
            }
            lema_volta(w, n, z, ts, vs);
            lema_junta(b, m, f);
            lema_segue(a, b, f);
        } else {
            assert(interpretador::anda(a) == interpretador::andou(f));
            lema_zero(f);
            lema_segue(a, f, f);
        }
    }
}

/// `para v em e { corpo }` percorre, do primeiro ao ultimo, os itens da lista que `e` da, ou cada
/// caractere do texto que ela da.
pub proof fn lei_para(
    s: interpretador::Estado,
    variavel: Seq<char>,
    e: ast::ArvoreExpr,
    corpo: Seq<ast::ArvoreInstr>,
    v: valor::Dado,
    itens: Seq<valor::Dado>,
    y: interpretador::Estado,
    z: interpretador::Estado,
)
    requires
        pronto(s),
        da(s, e, v, y),
        v == valor::Dado::Lista(itens) || (v is Texto && itens.len() == v->Texto_0.len() && forall|i: int|
            0 <= i < itens.len() ==> #[trigger] itens[i] == valor::Dado::Texto(seq![v->Texto_0[i]])),
        percorre(y, variavel, itens, 0, corpo, z),
    ensures
        executa(s, ast::ArvoreInstr::Para { variavel, iteravel: e, corpo }, z),
{
    let x = ast::ArvoreInstr::Para { variavel, iteravel: e, corpo };
    let t = tarefa::TarefaVista::Executar(x);
    let d = tarefa::TarefaVista::PreparaPara(variavel, corpo);
    let p = tarefa::TarefaVista::Para { variavel, itens, i: 0, corpo };
    if let valor::Dado::Texto(c) = v {
        assert(c.map_values(|c: char| valor::Dado::Texto(seq![c])) =~= itens);
    }
    assert(interpretador::itens_de(v) == Some(itens));
    assert forall|ts: Seq<tarefa::TarefaVista>, vs: Seq<valor::Dado>| #[trigger]
        chega(leva(s, ts.push(t), vs), leva(z, ts, vs)) by {
        reveal(interpretador::executa);
        reveal(interpretador::continua_instr);
        let a = leva(s, ts.push(t), vs);
        let b = leva(s, ts.push(d).push(tarefa::TarefaVista::Avaliar(e)), vs);
        let h = leva(y, ts.push(d), vs.push(v));
        let k = leva(y, ts.push(p), vs);
        let f = leva(z, ts, vs);
        lema_anda(s, ts, t, vs);
        assert(interpretador::anda(a) == interpretador::andou(b));
        assert(chega(b, h));
        lema_anda(y, ts, d, vs.push(v));
        lema_sem(y, ts, vs, v);
        assert(interpretador::anda(h) == interpretador::andou(k));
        assert(chega(k, f));
        lema_segue(h, k, f);
        lema_junta(b, h, f);
        lema_segue(a, b, f);
    }
}

/// A contagem de `atual` ate `fim`, feita a partir de `s`, deixa o estado `z`.
pub open spec fn conta(
    s: interpretador::Estado,
    variavel: Seq<char>,
    atual: i64,
    fim: i64,
    passo: i64,
    corpo: Seq<ast::ArvoreInstr>,
    z: interpretador::Estado,
) -> bool {
    faz(s, tarefa::TarefaVista::Intervalo { variavel, atual, fim, passo, corpo }, z)
}

/// Uma contagem: com um passo positivo segue enquanto o numero nao passa do fim, com um negativo
/// enquanto nao fica abaixo dele, os dois limites incluidos; em cada volta o numero fica na variavel,
/// faz-se o corpo e soma-se o passo.
pub proof fn lei_contagem(
    s: interpretador::Estado,
    variavel: Seq<char>,
    atual: i64,
    fim: i64,
    passo: i64,
    corpo: Seq<ast::ArvoreInstr>,
    w: interpretador::Estado,
    z: interpretador::Estado,
)
    requires
        pronto(s),
        z.ambientes.len() > 0,
        pode_contar(s),
        passo != 0,
        ({
            let acabou = if passo > 0 {
                atual > fim
            } else {
                atual < fim
            };
            if acabou {
                z == contada(s)
            } else {
                &&& executa_desde(interpretador::define(contada(s), variavel, valor::Dado::Inteiro(atual)), corpo, 0, w)
                &&& i64::MIN <= atual + passo <= i64::MAX
                &&& depois_do_corpo(
                    w,
                    z,
                    conta(interpretador::normal(w), variavel, (atual + passo) as i64, fim, passo, corpo, z),
                )
            }
        }),
    ensures
        conta(s, variavel, atual, fim, passo, corpo, z),
{
    let t = tarefa::TarefaVista::Intervalo { variavel, atual, fim, passo, corpo };
    let dentro = (passo > 0 && atual <= fim) || (passo < 0 && atual >= fim);
    let n = tarefa::TarefaVista::Intervalo { variavel, atual: (atual + passo) as i64, fim, passo, corpo };
    assert forall|ts: Seq<tarefa::TarefaVista>, vs: Seq<valor::Dado>| #[trigger]
        chega(leva(s, ts.push(t), vs), leva(z, ts, vs)) by {
        reveal(interpretador::continua_instr);
        let a = leva(s, ts.push(t), vs);
        let f = leva(z, ts, vs);
        lema_anda(s, ts, t, vs);
        if dentro {
            let p = interpretador::define(contada(s), variavel, valor::Dado::Inteiro(atual));
            let b = leva(p, ts.push(n).push(tarefa::TarefaVista::Bloco(corpo, 0)), vs);
            let m = leva(w, ts.push(n), vs);
            assert(interpretador::soma_limitada(atual, passo) == atual + passo);
            assert(interpretador::anda(a) == interpretador::andou(b));
            assert(chega(b, m));
            if conta(interpretador::normal(w), variavel, (atual + passo) as i64, fim, passo, corpo, z) {
                assert(chega(leva(interpretador::normal(w), ts.push(n), vs), f));
            }
            lema_volta(w, n, z, ts, vs);
            lema_junta(b, m, f);
            lema_segue(a, b, f);
        } else {
            assert(interpretador::anda(a) == interpretador::andou(f));
            lema_zero(f);
            lema_segue(a, f, f);
        }
    }
}

/// `para v de a ate b passo c { corpo }` avalia `a`, `b` e `c`, por esta ordem, e conta de `a` ate `b`
/// de `c` em `c`; sem passo, de um em um.
pub proof fn lei_intervalo(
    s: interpretador::Estado,
    variavel: Seq<char>,
    inicio: ast::ArvoreExpr,
    fim: ast::ArvoreExpr,
    passo: Option<ast::ArvoreExpr>,
    corpo: Seq<ast::ArvoreInstr>,
    a: i64,
    b: i64,
    c: i64,
    s1: interpretador::Estado,
    s2: interpretador::Estado,
    s3: interpretador::Estado,
    z: interpretador::Estado,
)
    requires
        pronto(s),
        da(s, inicio, valor::Dado::Inteiro(a), s1),
        da(s1, fim, valor::Dado::Inteiro(b), s2),
        match passo {
            Some(e) => da(s2, e, valor::Dado::Inteiro(c), s3),
            None => c == 1 && s3 == s2,
        },
        c != 0,
        conta(s3, variavel, a, b, c, corpo, z),
    ensures
        executa(s, ast::ArvoreInstr::ParaIntervalo { variavel, inicio, fim, passo, corpo }, z),
{
    let x = ast::ArvoreInstr::ParaIntervalo { variavel, inicio, fim, passo, corpo };
    let t = tarefa::TarefaVista::Executar(x);
    let d = tarefa::TarefaVista::PreparaIntervalo(variavel, passo is Some, corpo);
    let p = tarefa::TarefaVista::Intervalo { variavel, atual: a, fim: b, passo: c, corpo };
    let va = valor::Dado::Inteiro(a);
    let vb = valor::Dado::Inteiro(b);
    let vc = valor::Dado::Inteiro(c);
    assert forall|ts: Seq<tarefa::TarefaVista>, vs: Seq<valor::Dado>| #[trigger]
        chega(leva(s, ts.push(t), vs), leva(z, ts, vs)) by {
        reveal(interpretador::executa);
        reveal(interpretador::continua_instr);
        let q = ts.push(d);
        let r = match passo {
            Some(e) => q.push(tarefa::TarefaVista::Avaliar(e)),
            None => q,
        };
        let e0 = leva(s, ts.push(t), vs);
        let e1 = leva(s, r.push(tarefa::TarefaVista::Avaliar(fim)).push(tarefa::TarefaVista::Avaliar(inicio)), vs);
        let e2 = leva(s1, r.push(tarefa::TarefaVista::Avaliar(fim)), vs.push(va));
        let e3 = leva(s2, r, vs.push(va).push(vb));
        let f = leva(z, ts, vs);
        lema_anda(s, ts, t, vs);
        assert(interpretador::anda(e0) == interpretador::andou(e1));
        assert(chega(e1, e2));
        assert(chega(e2, e3));
        let k = leva(s3, ts.push(p), vs);
        assert(chega(k, f));
        match passo {
            Some(e) => {
                let e4 = leva(s3, q, vs.push(va).push(vb).push(vc));
                assert(chega(e3, e4));
                lema_anda(s3, ts, d, vs.push(va).push(vb).push(vc));
                assert(vs.push(va).push(vb).push(vc).take(vs.len() as int) =~= vs);
                assert(interpretador::anda(e4) == interpretador::andou(k));
                lema_segue(e4, k, f);
                lema_junta(e3, e4, f);
            },
            None => {
                lema_anda(s2, ts, d, vs.push(va).push(vb));
                lema_sem_dois(s2, ts, vs, va, vb);
                assert(interpretador::anda(e3) == interpretador::andou(k));
                lema_segue(e3, k, f);
            },
        }
        lema_junta(e2, e3, f);
        lema_junta(e1, e2, f);
        lema_segue(e0, e1, f);
    }
}

// ---- Escolhas ---------------------------------------------------------------------------

/// A escolha para o valor `v`, a partir do item `item` do caso `caso`, deixa o estado `z`.
pub open spec fn escolhe(
    s: interpretador::Estado,
    v: valor::Dado,
    casos: Seq<(Seq<ast::ArvoreExpr>, Seq<ast::ArvoreInstr>)>,
    padrao: Option<Seq<ast::ArvoreInstr>>,
    caso: int,
    item: int,
    z: interpretador::Estado,
) -> bool {
    z.ambientes.len() > 0 && forall|ts: Seq<tarefa::TarefaVista>, vs: Seq<valor::Dado>| #[trigger]
        chega(
            leva(
                s,
                ts.push(tarefa::TarefaVista::Escolhe(tarefa::EscolhaVista { casos, padrao, caso, item })),
                vs.push(v),
            ),
            leva(z, ts, vs),
        )
}

/// Numa escolha compara-se o valor com os de cada caso, pela ordem: faz-se o bloco do primeiro caso com
/// um valor igual e nenhum outro; sem nenhum igual, faz-se o padrao, se o ha.
pub proof fn lei_caso(
    s: interpretador::Estado,
    v: valor::Dado,
    casos: Seq<(Seq<ast::ArvoreExpr>, Seq<ast::ArvoreInstr>)>,
    padrao: Option<Seq<ast::ArvoreInstr>>,
    caso: int,
    item: int,
    u: valor::Dado,
    y: interpretador::Estado,
    z: interpretador::Estado,
)
    requires
        pronto(s),
        0 <= caso <= casos.len(),
        0 <= item,
        if caso == casos.len() {
            match padrao {
                Some(b) => executa_desde(s, b, 0, z),
                None => z == s,
            }
        } else if item >= casos[caso].0.len() {
            escolhe(s, v, casos, padrao, caso + 1, 0, z)
        } else {
            da(s, casos[caso].0[item], u, y) && if valor::iguais(v, u) {
                executa_desde(y, casos[caso].1, 0, z)
            } else {
                escolhe(y, v, casos, padrao, caso, item + 1, z)
            }
        },
    ensures
        escolhe(s, v, casos, padrao, caso, item, z),
{
    let ev = tarefa::EscolhaVista { casos, padrao, caso, item };
    let t = tarefa::TarefaVista::Escolhe(ev);
    assert forall|ts: Seq<tarefa::TarefaVista>, vs: Seq<valor::Dado>| #[trigger]
        chega(leva(s, ts.push(t), vs.push(v)), leva(z, ts, vs)) by {
        reveal(interpretador::continua_instr);
        let a = leva(s, ts.push(t), vs.push(v));
        let f = leva(z, ts, vs);
        lema_anda(s, ts, t, vs.push(v));
        lema_sem(s, ts, vs, v);
        if caso == casos.len() {
            match padrao {
                Some(b) => {
                    let g = leva(s, ts.push(tarefa::TarefaVista::Bloco(b, 0)), vs);
                    assert(interpretador::anda(a) == interpretador::andou(g));
                    assert(chega(g, f));
                    lema_segue(a, g, f);
                },
                None => {
                    assert(interpretador::anda(a) == interpretador::andou(f));
                    lema_zero(f);
                    lema_segue(a, f, f);
                },
            }
        } else if item >= casos[caso].0.len() {
            let nt = tarefa::TarefaVista::Escolhe(tarefa::EscolhaVista { casos, padrao, caso: caso + 1, item: 0 });
            let g = leva(s, ts.push(nt), vs.push(v));
            assert(interpretador::anda(a) == interpretador::andou(g));
            assert(chega(g, f));
            lema_segue(a, g, f);
        } else {
            let d = tarefa::TarefaVista::Compara(ev);
            let e = casos[caso].0[item];
            let g = leva(s, ts.push(d).push(tarefa::TarefaVista::Avaliar(e)), vs.push(v));
            let h = leva(y, ts.push(d), vs.push(v).push(u));
            assert(interpretador::anda(a) == interpretador::andou(g));
            assert(chega(g, h));
            lema_anda(y, ts, d, vs.push(v).push(u));
            lema_sem_dois(y, ts, vs, v, u);
            lema_sem(y, ts, vs.push(v), u);
            if valor::iguais(v, u) {
                let k = leva(y, ts.push(tarefa::TarefaVista::Bloco(casos[caso].1, 0)), vs);
                assert(interpretador::anda(h) == interpretador::andou(k));
                assert(chega(k, f));
                lema_segue(h, k, f);
            } else {
                let nt = tarefa::TarefaVista::Escolhe(tarefa::EscolhaVista { casos, padrao, caso, item: item + 1 });
                let k = leva(y, ts.push(nt), vs.push(v));
                assert(interpretador::anda(h) == interpretador::andou(k));
                assert(chega(k, f));
                lema_segue(h, k, f);
            }
            lema_junta(g, h, f);
            lema_segue(a, g, f);
        }
    }
}

/// `escolher e { ... }` avalia `e` uma vez e comeca pelo primeiro valor do primeiro caso.
pub proof fn lei_escolher(
    s: interpretador::Estado,
    e: ast::ArvoreExpr,
    casos: Seq<(Seq<ast::ArvoreExpr>, Seq<ast::ArvoreInstr>)>,
    padrao: Option<Seq<ast::ArvoreInstr>>,
    v: valor::Dado,
    y: interpretador::Estado,
    z: interpretador::Estado,
)
    requires
        pronto(s),
        da(s, e, v, y),
        escolhe(y, v, casos, padrao, 0, 0, z),
    ensures
        executa(s, ast::ArvoreInstr::Escolher { expr: e, casos, padrao }, z),
{
    let x = ast::ArvoreInstr::Escolher { expr: e, casos, padrao };
    let t = tarefa::TarefaVista::Executar(x);
    let d = tarefa::TarefaVista::Escolhe(tarefa::EscolhaVista { casos, padrao, caso: 0, item: 0 });
    assert forall|ts: Seq<tarefa::TarefaVista>, vs: Seq<valor::Dado>| #[trigger]
        chega(leva(s, ts.push(t), vs), leva(z, ts, vs)) by {
        reveal(interpretador::executa);
        let a = leva(s, ts.push(t), vs);
        let b = leva(s, ts.push(d).push(tarefa::TarefaVista::Avaliar(e)), vs);
        let h = leva(y, ts.push(d), vs.push(v));
        let f = leva(z, ts, vs);
        lema_anda(s, ts, t, vs);
        assert(interpretador::anda(a) == interpretador::andou(b));
        assert(chega(b, h));
        assert(chega(h, f));
        lema_junta(b, h, f);
        lema_segue(a, b, f);
    }
}

// ---- Blocos protegidos ------------------------------------------------------------------

/// A tarefa, feita a partir de `s`, falha com `m` e deixa o estado `z`; podem ficar por cima valores de
/// expressoes que iam a meio.
pub open spec fn falha(s: interpretador::Estado, t: tarefa::TarefaVista, m: Seq<char>, z: interpretador::Estado) -> bool {
    z.ambientes.len() > 0 && z.modo == tarefa::ModoVisto::Falha(m) && forall|
        ts: Seq<tarefa::TarefaVista>,
        vs: Seq<valor::Dado>,
    |
        exists|us: Seq<valor::Dado>|
            chega(#[trigger] leva(s, ts.push(t), vs), #[trigger] leva(z, ts, vs + us))
}

/// O bloco `finalmente`, se o ha, faz-se a partir de `w` a andar, e o que subia em `w` volta a subir
/// depois dele.
pub open spec fn finaliza(w: interpretador::Estado, fin: Option<Seq<ast::ArvoreInstr>>, z: interpretador::Estado) -> bool {
    match fin {
        Some(b) => exists|k: interpretador::Estado|
            #[trigger] executa_desde(interpretador::normal(w), b, 0, k) && z == (interpretador::Estado {
                modo: w.modo,
                ..k
            }),
        None => z == w,
    }
}

proof fn lema_finaliza(
    w: interpretador::Estado,
    fin: Option<Seq<ast::ArvoreInstr>>,
    z: interpretador::Estado,
    ts: Seq<tarefa::TarefaVista>,
    vs: Seq<valor::Dado>,
)
    requires
        w.ambientes.len() > 0,
        finaliza(w, fin, z),
    ensures
        chega(interpretador::finaliza(leva(w, ts, vs), fin, vs.len() as int), leva(z, ts, vs)),
        z.ambientes.len() > 0,
{
    let f = leva(z, ts, vs);
    match fin {
        Some(b) => {
            let k = choose|k: interpretador::Estado|
                #[trigger] executa_desde(interpretador::normal(w), b, 0, k) && z == (interpretador::Estado {
                    modo: w.modo,
                    ..k
                });
            let r = tarefa::TarefaVista::Restaura { modo: w.modo, altura: vs.len() as int };
            let a = leva(interpretador::normal(w), ts.push(r).push(tarefa::TarefaVista::Bloco(b, 0)), vs);
            assert(interpretador::finaliza(leva(w, ts, vs), fin, vs.len() as int) == a);
            let c = leva(k, ts.push(r), vs);
            assert(chega(a, c));
            reveal(interpretador::continua_instr);
            lema_anda(k, ts, r, vs);
            assert(vs.take(vs.len() as int) =~= vs);
            assert(interpretador::anda(c) == interpretador::andou(f));
            lema_zero(f);
            lema_segue(c, f, f);
            lema_junta(a, c, f);
        },
        None => {
            lema_zero(f);
        },
    }
}

/// `tentar { corpo } capturar (nome) { ... } finalmente { ... }` em que o corpo nao falha: o `capturar`
/// nao se faz, e o `finalmente` faz-se, acabe o corpo ou deixe um sinal.
pub proof fn lei_tentar(
    s: interpretador::Estado,
    corpo: Seq<ast::ArvoreInstr>,
    capturar: Option<(Seq<char>, Seq<ast::ArvoreInstr>)>,
    fin: Option<Seq<ast::ArvoreInstr>>,
    w: interpretador::Estado,
    z: interpretador::Estado,
)
    requires
        pronto(s),
        executa_desde(s, corpo, 0, w),
        !(w.modo is Falha),
        finaliza(interpretador::Estado { erro: None, ..w }, fin, z),
    ensures
        executa(s, ast::ArvoreInstr::Tentar { corpo, capturar, finalmente: fin }, z),
{
    let x = ast::ArvoreInstr::Tentar { corpo, capturar, finalmente: fin };
    let t = tarefa::TarefaVista::Executar(x);
    lema_finaliza(interpretador::Estado { erro: None, ..w }, fin, z, Seq::empty(), Seq::empty());
    assert forall|ts: Seq<tarefa::TarefaVista>, vs: Seq<valor::Dado>| #[trigger]
        chega(leva(s, ts.push(t), vs), leva(z, ts, vs)) by {
        reveal(interpretador::executa);
        reveal(interpretador::continua_instr);
        let d = tarefa::TarefaVista::FimTentar { capturar, finalmente: fin, altura: vs.len() as int };
        let a = leva(s, ts.push(t), vs);
        let b = leva(s, ts.push(d).push(tarefa::TarefaVista::Bloco(corpo, 0)), vs);
        let c = leva(w, ts.push(d), vs);
        let f = leva(z, ts, vs);
        lema_anda(s, ts, t, vs);
        assert(interpretador::anda(a) == interpretador::andou(b));
        assert(chega(b, c));
        lema_anda(w, ts, d, vs);
        let w0 = interpretador::Estado { erro: None, ..w };
        lema_finaliza(w0, fin, z, ts, vs);
        let g = interpretador::finaliza(leva(w0, ts, vs), fin, vs.len() as int);
        assert(interpretador::anda(c) == interpretador::andou(g));
        lema_segue(c, g, f);
        lema_junta(b, c, f);
        lema_segue(a, b, f);
    }
}

/// Se o corpo de um `tentar` falha, faz-se o `capturar` com o erro no nome dele, e o `finalmente`
/// depois; a falha nao sobe.
pub proof fn lei_tentar_falha(
    s: interpretador::Estado,
    corpo: Seq<ast::ArvoreInstr>,
    nome: Seq<char>,
    captura: Seq<ast::ArvoreInstr>,
    fin: Option<Seq<ast::ArvoreInstr>>,
    m: Seq<char>,
    w: interpretador::Estado,
    k: interpretador::Estado,
    z: interpretador::Estado,
)
    requires
        pronto(s),
        falha(s, tarefa::TarefaVista::Bloco(corpo, 0), m, w),
        executa_desde(
            interpretador::define(
                interpretador::Estado { erro: None, modo: tarefa::ModoVisto::Anda, ..w },
                nome,
                match w.erro {
                    Some(e) => e,
                    None => interpretador::erro_da_falha(m, w.linha),
                },
            ),
            captura,
            0,
            k,
        ),
        !(k.modo is Falha),
        finaliza(k, fin, z),
    ensures
        executa(s, ast::ArvoreInstr::Tentar { corpo, capturar: Some((nome, captura)), finalmente: fin }, z),
{
    let capturar = Some((nome, captura));
    let x = ast::ArvoreInstr::Tentar { corpo, capturar, finalmente: fin };
    let t = tarefa::TarefaVista::Executar(x);
    let e = match w.erro {
        Some(e) => e,
        None => interpretador::erro_da_falha(m, w.linha),
    };
    let n = interpretador::Estado { erro: None, modo: tarefa::ModoVisto::Anda, ..w };
    lema_finaliza(k, fin, z, Seq::empty(), Seq::empty());
    assert forall|ts: Seq<tarefa::TarefaVista>, vs: Seq<valor::Dado>| #[trigger]
        chega(leva(s, ts.push(t), vs), leva(z, ts, vs)) by {
        reveal(interpretador::executa);
        reveal(interpretador::continua_instr);
        let d = tarefa::TarefaVista::FimTentar { capturar, finalmente: fin, altura: vs.len() as int };
        let d2 = tarefa::TarefaVista::FimCaptura { finalmente: fin, altura: vs.len() as int };
        let a = leva(s, ts.push(t), vs);
        let b = leva(s, ts.push(d).push(tarefa::TarefaVista::Bloco(corpo, 0)), vs);
        let f = leva(z, ts, vs);
        lema_anda(s, ts, t, vs);
        assert(interpretador::anda(a) == interpretador::andou(b));
        assert(leva(s, ts.push(d).push(tarefa::TarefaVista::Bloco(corpo, 0)), vs) == b);
        let us = choose|us: Seq<valor::Dado>| chega(b, #[trigger] leva(w, ts.push(d), vs + us));
        let c = leva(w, ts.push(d), vs + us);
        assert(chega(b, c));
        lema_anda(w, ts, d, vs + us);
        assert((vs + us).take(vs.len() as int) =~= vs);
        let g = leva(interpretador::define(n, nome, e), ts.push(d2).push(tarefa::TarefaVista::Bloco(captura, 0)), vs);
        assert(interpretador::anda(c) == interpretador::andou(g));
        let h = leva(k, ts.push(d2), vs);
        assert(chega(g, h));
        lema_anda(k, ts, d2, vs);
        lema_finaliza(k, fin, z, ts, vs);
        let r = interpretador::finaliza(leva(k, ts, vs), fin, vs.len() as int);
        assert(interpretador::anda(h) == interpretador::andou(r));
        lema_segue(h, r, f);
        lema_junta(g, h, f);
        lema_segue(c, g, f);
        lema_junta(b, c, f);
        lema_segue(a, b, f);
    }
}

// ---- Expressoes -------------------------------------------------------------------------

proof fn lema_da_num_passo(s: interpretador::Estado, e: ast::ArvoreExpr, v: valor::Dado)
    requires
        pronto(s),
        forall|ts: Seq<tarefa::TarefaVista>, vs: Seq<valor::Dado>|
            #[trigger] interpretador::avalia(leva(s, ts, vs), e) == interpretador::andou(leva(s, ts, vs.push(v))),
    ensures
        da(s, e, v, s),
{
    assert forall|ts: Seq<tarefa::TarefaVista>, vs: Seq<valor::Dado>| #[trigger]
        chega(leva(s, ts.push(tarefa::TarefaVista::Avaliar(e)), vs), leva(s, ts, vs.push(v))) by {
        let a = leva(s, ts.push(tarefa::TarefaVista::Avaliar(e)), vs);
        let f = leva(s, ts, vs.push(v));
        lema_anda(s, ts, tarefa::TarefaVista::Avaliar(e), vs);
        assert(interpretador::avalia(leva(s, ts, vs), e) == interpretador::andou(f));
        lema_zero(f);
        lema_segue(a, f, f);
    }
}

/// Um literal da o seu valor e uma variavel o valor do nome; nada muda.
pub proof fn lei_literais(s: interpretador::Estado, n: i64, t: Seq<char>, b: bool, nome: Seq<char>, v: valor::Dado)
    requires
        pronto(s),
    ensures
        da(s, ast::ArvoreExpr::Inteiro(n), valor::Dado::Inteiro(n), s),
        da(s, ast::ArvoreExpr::Texto(t), valor::Dado::Texto(t), s),
        da(s, ast::ArvoreExpr::Booleano(b), valor::Dado::Booleano(b), s),
        da(s, ast::ArvoreExpr::Nulo, valor::Dado::Nulo, s),
        ambiente::obtido(interpretador::aqui(s), nome) == Some(v) ==> da(s, ast::ArvoreExpr::Variavel(nome), v, s),
{
    reveal(interpretador::avalia);
    lema_da_num_passo(s, ast::ArvoreExpr::Inteiro(n), valor::Dado::Inteiro(n));
    lema_da_num_passo(s, ast::ArvoreExpr::Texto(t), valor::Dado::Texto(t));
    lema_da_num_passo(s, ast::ArvoreExpr::Booleano(b), valor::Dado::Booleano(b));
    lema_da_num_passo(s, ast::ArvoreExpr::Nulo, valor::Dado::Nulo);
    if ambiente::obtido(interpretador::aqui(s), nome) == Some(v) {
        lema_da_num_passo(s, ast::ArvoreExpr::Variavel(nome), v);
    }
}

/// `a op b` avalia `a` e depois `b`, e da a operacao com o valor de `a` primeiro e o de `b` depois.
pub proof fn lei_binaria(
    s: interpretador::Estado,
    a: ast::ArvoreExpr,
    op: OpBinario,
    b: ast::ArvoreExpr,
    x: valor::Dado,
    y: valor::Dado,
    v: valor::Dado,
    s1: interpretador::Estado,
    s2: interpretador::Estado,
)
    requires
        pronto(s),
        op != OpBinario::E && op != OpBinario::Ou,
        da(s, a, x, s1),
        da(s1, b, y, s2),
        aplicar::aplicado(op, x, y) == aplicar::FeitoVisto::Valor(v),
    ensures
        da(s, ast::ArvoreExpr::BinOp { esq: Box::new(a), op, dir: Box::new(b) }, v, s2),
{
    let e = ast::ArvoreExpr::BinOp { esq: Box::new(a), op, dir: Box::new(b) };
    let t = tarefa::TarefaVista::Avaliar(e);
    let d = tarefa::TarefaVista::Binaria(op);
    assert forall|ts: Seq<tarefa::TarefaVista>, vs: Seq<valor::Dado>| #[trigger]
        chega(leva(s, ts.push(t), vs), leva(s2, ts, vs.push(v))) by {
        reveal(interpretador::avalia);
        reveal(interpretador::continua_expr);
        let e0 = leva(s, ts.push(t), vs);
        let e1 = leva(s, ts.push(d).push(tarefa::TarefaVista::Avaliar(b)).push(tarefa::TarefaVista::Avaliar(a)), vs);
        let e2 = leva(s1, ts.push(d).push(tarefa::TarefaVista::Avaliar(b)), vs.push(x));
        let e3 = leva(s2, ts.push(d), vs.push(x).push(y));
        let f = leva(s2, ts, vs.push(v));
        lema_anda(s, ts, t, vs);
        assert(interpretador::anda(e0) == interpretador::andou(e1));
        assert(chega(e1, e2));
        assert(chega(e2, e3));
        lema_anda(s2, ts, d, vs.push(x).push(y));
        lema_sem_dois(s2, ts, vs, x, y);
        assert(interpretador::anda(e3) == interpretador::andou(f));
        lema_zero(f);
        lema_segue(e3, f, f);
        lema_junta(e2, e3, f);
        lema_junta(e1, e2, f);
        lema_segue(e0, e1, f);
    }
}

proof fn lema_todos_sem(s: interpretador::Estado)
    ensures
        forall|ts: Seq<tarefa::TarefaVista>, vs: Seq<valor::Dado>, v: valor::Dado|
            interpretador::sem(#[trigger] leva(s, ts, vs.push(v)), 1) == leva(s, ts, vs),
{
    assert forall|ts: Seq<tarefa::TarefaVista>, vs: Seq<valor::Dado>, v: valor::Dado|
        interpretador::sem(#[trigger] leva(s, ts, vs.push(v)), 1) == leva(s, ts, vs) by {
        lema_sem(s, ts, vs, v);
    }
}

/// Uma expressao que avalia outra e faz com o valor dela uma tarefa, que deixa um valor.
proof fn lema_depois(
    s: interpretador::Estado,
    e: ast::ArvoreExpr,
    d: tarefa::TarefaVista,
    a: ast::ArvoreExpr,
    x: valor::Dado,
    s1: interpretador::Estado,
    v: valor::Dado,
    z: interpretador::Estado,
)
    requires
        pronto(s),
        pronto(z),
        da(s, a, x, s1),
        interpretador::de_expressao(d),
        forall|ts: Seq<tarefa::TarefaVista>, vs: Seq<valor::Dado>|
            #[trigger] interpretador::avalia(leva(s, ts, vs), e) == interpretador::andou(
                leva(s, ts.push(d).push(tarefa::TarefaVista::Avaliar(a)), vs),
            ),
        forall|ts: Seq<tarefa::TarefaVista>, vs: Seq<valor::Dado>|
            #[trigger] interpretador::continua_expr(leva(s1, ts, vs.push(x)), d) == interpretador::andou(
                leva(z, ts, vs.push(v)),
            ),
    ensures
        da(s, e, v, z),
{
    let t = tarefa::TarefaVista::Avaliar(e);
    assert forall|ts: Seq<tarefa::TarefaVista>, vs: Seq<valor::Dado>| #[trigger]
        chega(leva(s, ts.push(t), vs), leva(z, ts, vs.push(v))) by {
        let e0 = leva(s, ts.push(t), vs);
        let e1 = leva(s, ts.push(d).push(tarefa::TarefaVista::Avaliar(a)), vs);
        let e2 = leva(s1, ts.push(d), vs.push(x));
        let f = leva(z, ts, vs.push(v));
        lema_anda(s, ts, t, vs);
        assert(interpretador::avalia(leva(s, ts, vs), e) == interpretador::andou(e1));
        assert(chega(e1, e2));
        lema_anda(s1, ts, d, vs.push(x));
        assert(interpretador::continua_expr(leva(s1, ts, vs.push(x)), d) == interpretador::andou(f));
        lema_zero(f);
        lema_segue(e2, f, f);
        lema_junta(e1, e2, f);
        lema_segue(e0, e1, f);
    }
}

/// `-a` da o simetrico do valor de `a`, e `nao a` diz se ele nao conta como verdadeiro.
pub proof fn lei_unaria(
    s: interpretador::Estado,
    a: ast::ArvoreExpr,
    x: valor::Dado,
    n: i64,
    s1: interpretador::Estado,
)
    requires
        pronto(s),
        da(s, a, x, s1),
    ensures
        x == valor::Dado::Inteiro(n) && n != i64::MIN ==> da(
            s,
            ast::ArvoreExpr::UnOp { op: OpUnario::Negativo, expr: Box::new(a) },
            valor::Dado::Inteiro((0 - n) as i64),
            s1,
        ),
        da(
            s,
            ast::ArvoreExpr::UnOp { op: OpUnario::Nao, expr: Box::new(a) },
            valor::Dado::Booleano(!aplicar::verdadeiro(x)),
            s1,
        ),
{
    let nao = ast::ArvoreExpr::UnOp { op: OpUnario::Nao, expr: Box::new(a) };
    let neg = ast::ArvoreExpr::UnOp { op: OpUnario::Negativo, expr: Box::new(a) };
    reveal(interpretador::avalia);
    reveal(interpretador::continua_expr);
    lema_todos_sem(s1);
    lema_depois(
        s,
        nao,
        tarefa::TarefaVista::Unaria(OpUnario::Nao),
        a,
        x,
        s1,
        valor::Dado::Booleano(!aplicar::verdadeiro(x)),
        s1,
    );
    if x == valor::Dado::Inteiro(n) && n != i64::MIN {
        lema_depois(
            s,
            neg,
            tarefa::TarefaVista::Unaria(OpUnario::Negativo),
            a,
            x,
            s1,
            valor::Dado::Inteiro((0 - n) as i64),
            s1,
        );
    }
}

/// `a e b` e `a ou b`: se o valor de `a` ja decide, `b` nao se avalia; senao, o resultado e se o valor
/// de `b` conta como verdadeiro.
pub proof fn lei_curto_circuito(
    s: interpretador::Estado,
    a: ast::ArvoreExpr,
    b: ast::ArvoreExpr,
    x: valor::Dado,
    y: valor::Dado,
    s1: interpretador::Estado,
    s2: interpretador::Estado,
)
    requires
        pronto(s),
        da(s, a, x, s1),
        da(s1, b, y, s2),
    ensures
        ({
            let e = ast::ArvoreExpr::BinOp { esq: Box::new(a), op: OpBinario::E, dir: Box::new(b) };
            if aplicar::verdadeiro(x) {
                da(s, e, valor::Dado::Booleano(aplicar::verdadeiro(y)), s2)
            } else {
                da(s, e, valor::Dado::Booleano(false), s1)
            }
        }),
        ({
            let e = ast::ArvoreExpr::BinOp { esq: Box::new(a), op: OpBinario::Ou, dir: Box::new(b) };
            if aplicar::verdadeiro(x) {
                da(s, e, valor::Dado::Booleano(true), s1)
            } else {
                da(s, e, valor::Dado::Booleano(aplicar::verdadeiro(y)), s2)
            }
        }),
{
    let e = ast::ArvoreExpr::BinOp { esq: Box::new(a), op: OpBinario::E, dir: Box::new(b) };
    let ou = ast::ArvoreExpr::BinOp { esq: Box::new(a), op: OpBinario::Ou, dir: Box::new(b) };
    let de = tarefa::TarefaVista::CurtoE(b);
    let dou = tarefa::TarefaVista::CurtoOu(b);
    reveal(interpretador::avalia);
    reveal(interpretador::continua_expr);
    lema_todos_sem(s1);
    if aplicar::verdadeiro(x) {
        lema_depois(s, ou, dou, a, x, s1, valor::Dado::Booleano(true), s1);
        lema_direita(s, e, de, a, b, x, y, s1, s2);
    } else {
        lema_depois(s, e, de, a, x, s1, valor::Dado::Booleano(false), s1);
        lema_direita(s, ou, dou, a, b, x, y, s1, s2);
    }
}

proof fn lema_direita(
    s: interpretador::Estado,
    e: ast::ArvoreExpr,
    d: tarefa::TarefaVista,
    a: ast::ArvoreExpr,
    b: ast::ArvoreExpr,
    x: valor::Dado,
    y: valor::Dado,
    s1: interpretador::Estado,
    s2: interpretador::Estado,
)
    requires
        pronto(s),
        da(s, a, x, s1),
        da(s1, b, y, s2),
        interpretador::de_expressao(d),
        forall|ts: Seq<tarefa::TarefaVista>, vs: Seq<valor::Dado>|
            #[trigger] interpretador::avalia(leva(s, ts, vs), e) == interpretador::andou(
                leva(s, ts.push(d).push(tarefa::TarefaVista::Avaliar(a)), vs),
            ),
        forall|ts: Seq<tarefa::TarefaVista>, vs: Seq<valor::Dado>|
            #[trigger] interpretador::continua_expr(leva(s1, ts, vs.push(x)), d) == interpretador::andou(
                leva(s1, ts.push(tarefa::TarefaVista::EmBooleano).push(tarefa::TarefaVista::Avaliar(b)), vs),
            ),
    ensures
        da(s, e, valor::Dado::Booleano(aplicar::verdadeiro(y)), s2),
{
    let t = tarefa::TarefaVista::Avaliar(e);
    let v = valor::Dado::Booleano(aplicar::verdadeiro(y));
    let m = tarefa::TarefaVista::EmBooleano;
    assert forall|ts: Seq<tarefa::TarefaVista>, vs: Seq<valor::Dado>| #[trigger]
        chega(leva(s, ts.push(t), vs), leva(s2, ts, vs.push(v))) by {
        let e0 = leva(s, ts.push(t), vs);
        let e1 = leva(s, ts.push(d).push(tarefa::TarefaVista::Avaliar(a)), vs);
        let e2 = leva(s1, ts.push(d), vs.push(x));
        let e3 = leva(s1, ts.push(m).push(tarefa::TarefaVista::Avaliar(b)), vs);
        let e4 = leva(s2, ts.push(m), vs.push(y));
        let f = leva(s2, ts, vs.push(v));
        lema_anda(s, ts, t, vs);
        assert(interpretador::avalia(leva(s, ts, vs), e) == interpretador::andou(e1));
        assert(chega(e1, e2));
        lema_anda(s1, ts, d, vs.push(x));
        assert(interpretador::continua_expr(leva(s1, ts, vs.push(x)), d) == interpretador::andou(e3));
        assert(chega(e3, e4));
        reveal(interpretador::continua_expr);
        lema_anda(s2, ts, m, vs.push(y));
        lema_sem(s2, ts, vs, y);
        assert(interpretador::anda(e4) == interpretador::andou(f));
        lema_zero(f);
        lema_segue(e4, f, f);
        lema_junta(e3, e4, f);
        lema_segue(e2, e3, f);
        lema_junta(e1, e2, f);
        lema_segue(e0, e1, f);
    }
}

/// `a ?? b` da o valor de `a`, e `b` nao se avalia, a nao ser que ele seja `nulo`: entao da o de `b`.
pub proof fn lei_coalescente(
    s: interpretador::Estado,
    a: ast::ArvoreExpr,
    b: ast::ArvoreExpr,
    x: valor::Dado,
    y: valor::Dado,
    s1: interpretador::Estado,
    s2: interpretador::Estado,
)
    requires
        pronto(s),
        da(s, a, x, s1),
        x is Nulo ==> da(s1, b, y, s2),
    ensures
        ({
            let e = ast::ArvoreExpr::NullCoalescente { esq: Box::new(a), dir: Box::new(b) };
            if x is Nulo {
                da(s, e, y, s2)
            } else {
                da(s, e, x, s1)
            }
        }),
{
    let e = ast::ArvoreExpr::NullCoalescente { esq: Box::new(a), dir: Box::new(b) };
    let d = tarefa::TarefaVista::Coalesce(b);
    let t = tarefa::TarefaVista::Avaliar(e);
    reveal(interpretador::avalia);
    reveal(interpretador::continua_expr);
    lema_todos_sem(s1);
    if x is Nulo {
        assert forall|ts: Seq<tarefa::TarefaVista>, vs: Seq<valor::Dado>| #[trigger]
            chega(leva(s, ts.push(t), vs), leva(s2, ts, vs.push(y))) by {
            let e0 = leva(s, ts.push(t), vs);
            let e1 = leva(s, ts.push(d).push(tarefa::TarefaVista::Avaliar(a)), vs);
            let e2 = leva(s1, ts.push(d), vs.push(x));
            let e3 = leva(s1, ts.push(tarefa::TarefaVista::Avaliar(b)), vs);
            let f = leva(s2, ts, vs.push(y));
            lema_anda(s, ts, t, vs);
            assert(interpretador::anda(e0) == interpretador::andou(e1));
            assert(chega(e1, e2));
            lema_anda(s1, ts, d, vs.push(x));
            lema_sem(s1, ts, vs, x);
            assert(interpretador::anda(e2) == interpretador::andou(e3));
            assert(chega(e3, f));
            lema_segue(e2, e3, f);
            lema_junta(e1, e2, f);
            lema_segue(e0, e1, f);
        }
    } else {
        lema_depois(s, e, d, a, x, s1, x, s1);
    }
}

/// `nome = e` da o valor de `e` e troca-o no escopo mais de dentro que tem o nome.
pub proof fn lei_atribuicao(
    s: interpretador::Estado,
    nome: Seq<char>,
    a: ast::ArvoreExpr,
    x: valor::Dado,
    s1: interpretador::Estado,
    amb: Seq<valor::Escopo>,
)
    requires
        pronto(s),
        da(s, a, x, s1),
        ambiente::atribuido(interpretador::aqui(s1), nome, x) == Some(amb),
    ensures
        da(s, ast::ArvoreExpr::Atribuicao { nome, valor: Box::new(a) }, x, interpretador::em(s1, amb)),
{
    let e = ast::ArvoreExpr::Atribuicao { nome, valor: Box::new(a) };
    reveal(interpretador::avalia);
    reveal(interpretador::continua_expr);
    lema_depois(s, e, tarefa::TarefaVista::Atribui(nome), a, x, s1, x, interpretador::em(s1, amb));
}

/// `o[i]` avalia `o` e depois `i`: de uma lista da o item do indice, de um mapa o valor da chave.
pub proof fn lei_acesso(
    s: interpretador::Estado,
    o: ast::ArvoreExpr,
    i: ast::ArvoreExpr,
    x: valor::Dado,
    y: valor::Dado,
    v: valor::Dado,
    s1: interpretador::Estado,
    s2: interpretador::Estado,
)
    requires
        pronto(s),
        da(s, o, x, s1),
        da(s1, i, y, s2),
        aplicar::acessado(x, y) == aplicar::FeitoVisto::Valor(v),
    ensures
        da(s, ast::ArvoreExpr::Acesso { objeto: Box::new(o), indice: Box::new(i) }, v, s2),
{
    let e = ast::ArvoreExpr::Acesso { objeto: Box::new(o), indice: Box::new(i) };
    let t = tarefa::TarefaVista::Avaliar(e);
    let d = tarefa::TarefaVista::Acessa;
    assert forall|ts: Seq<tarefa::TarefaVista>, vs: Seq<valor::Dado>| #[trigger]
        chega(leva(s, ts.push(t), vs), leva(s2, ts, vs.push(v))) by {
        reveal(interpretador::avalia);
        reveal(interpretador::continua_expr);
        let e0 = leva(s, ts.push(t), vs);
        let e1 = leva(s, ts.push(d).push(tarefa::TarefaVista::Avaliar(i)).push(tarefa::TarefaVista::Avaliar(o)), vs);
        let e2 = leva(s1, ts.push(d).push(tarefa::TarefaVista::Avaliar(i)), vs.push(x));
        let e3 = leva(s2, ts.push(d), vs.push(x).push(y));
        let f = leva(s2, ts, vs.push(v));
        lema_anda(s, ts, t, vs);
        assert(interpretador::anda(e0) == interpretador::andou(e1));
        assert(chega(e1, e2));
        assert(chega(e2, e3));
        lema_anda(s2, ts, d, vs.push(x).push(y));
        lema_sem_dois(s2, ts, vs, x, y);
        assert(interpretador::anda(e3) == interpretador::andou(f));
        lema_zero(f);
        lema_segue(e3, f, f);
        lema_junta(e2, e3, f);
        lema_junta(e1, e2, f);
        lema_segue(e0, e1, f);
    }
}

/// As expressoes, avaliadas pela ordem, dao os valores: `ss[k]` e o estado antes da `k`.
pub open spec fn dao(
    ss: Seq<interpretador::Estado>,
    es: Seq<ast::ArvoreExpr>,
    xs: Seq<valor::Dado>,
) -> bool {
    &&& ss.len() == es.len() + 1
    &&& xs.len() == es.len()
    &&& forall|k: int| 0 <= k < es.len() ==> da(ss[k], #[trigger] es[k], xs[k], ss[k + 1])
}

proof fn lema_dao(
    ss: Seq<interpretador::Estado>,
    es: Seq<ast::ArvoreExpr>,
    xs: Seq<valor::Dado>,
    k: int,
    ts: Seq<tarefa::TarefaVista>,
    vs: Seq<valor::Dado>,
)
    requires
        dao(ss, es, xs),
        0 <= k <= es.len(),
    ensures
        chega(leva(ss[k], interpretador::avaliacoes(ts, es, k), vs), leva(ss.last(), ts, vs + xs.skip(k))),
    decreases es.len() - k,
{
    let a = leva(ss[k], interpretador::avaliacoes(ts, es, k), vs);
    let f = leva(ss.last(), ts, vs + xs.skip(k));
    if k < es.len() {
        let r = interpretador::avaliacoes(ts, es, k + 1);
        lema_dao(ss, es, xs, k + 1, ts, vs.push(xs[k]));
        assert(da(ss[k], es[k], xs[k], ss[k + 1]));
        let b = leva(ss[k + 1], r, vs.push(xs[k]));
        assert(chega(leva(ss[k], r.push(tarefa::TarefaVista::Avaliar(es[k])), vs), b));
        assert(vs.push(xs[k]) + xs.skip(k + 1) =~= vs + xs.skip(k));
        lema_junta(a, b, f);
    } else {
        assert(vs + xs.skip(k) =~= vs);
        lema_zero(f);
    }
}

/// Uma lista avalia os itens pela ordem e da a lista dos valores deles pela mesma ordem.
pub proof fn lei_lista(ss: Seq<interpretador::Estado>, es: Seq<ast::ArvoreExpr>, xs: Seq<valor::Dado>)
    requires
        dao(ss, es, xs),
        pronto(ss[0]),
        pronto(ss.last()),
    ensures
        da(ss[0], ast::ArvoreExpr::Lista(es), valor::Dado::Lista(xs), ss.last()),
{
    let s = ss[0];
    let z = ss.last();
    let e = ast::ArvoreExpr::Lista(es);
    let t = tarefa::TarefaVista::Avaliar(e);
    let d = tarefa::TarefaVista::FazLista(es.len() as int);
    assert forall|ts: Seq<tarefa::TarefaVista>, vs: Seq<valor::Dado>| #[trigger]
        chega(leva(s, ts.push(t), vs), leva(z, ts, vs.push(valor::Dado::Lista(xs)))) by {
        reveal(interpretador::avalia);
        reveal(interpretador::continua_expr);
        let e0 = leva(s, ts.push(t), vs);
        let e1 = leva(s, interpretador::avaliacoes(ts.push(d), es, 0), vs);
        let e2 = leva(z, ts.push(d), vs + xs.skip(0));
        let f = leva(z, ts, vs.push(valor::Dado::Lista(xs)));
        lema_anda(s, ts, t, vs);
        assert(interpretador::anda(e0) == interpretador::andou(e1));
        lema_dao(ss, es, xs, 0, ts.push(d), vs);
        assert(xs.skip(0) =~= xs);
        lema_anda(z, ts, d, vs + xs);
        assert((vs + xs).take(vs.len() as int) =~= vs);
        assert((vs + xs).skip(vs.len() as int) =~= xs);
        assert(interpretador::anda(e2) == interpretador::andou(f));
        lema_zero(f);
        lema_segue(e2, f, f);
        lema_junta(e1, e2, f);
        lema_segue(e0, e1, f);
    }
}

// ---- Chamadas ---------------------------------------------------------------------------

/// Os parametros sem padrao nenhum e sem nenhum que receba o resto.
pub open spec fn simples(ps: Seq<ast::ArvoreParam>) -> bool {
    forall|i: int| 0 <= i < ps.len() ==> (#[trigger] ps[i]).padrao is None && !ps[i].variadic
}

/// O ambiente com os primeiros `n` parametros ligados aos argumentos dos mesmos lugares.
pub open spec fn com_parametros(
    e: Seq<valor::Escopo>,
    ps: Seq<ast::ArvoreParam>,
    xs: Seq<valor::Dado>,
    n: int,
) -> Seq<valor::Escopo>
    decreases n,
{
    if n <= 0 || n > ps.len() || n > xs.len() {
        e
    } else {
        ambiente::definido(com_parametros(e, ps, xs, n - 1), ps[n - 1].nome, xs[n - 1])
    }
}

proof fn lema_minimo(ps: Seq<ast::ArvoreParam>, n: int)
    requires
        simples(ps),
        0 <= n <= ps.len(),
    ensures
        interpretador::minimo(ps, n) == n,
    decreases n,
{
    if n > 0 {
        lema_minimo(ps, n - 1);
    }
}

proof fn lema_liga(
    s: interpretador::Estado,
    l: tarefa::LigacaoVista,
    e: Seq<valor::Escopo>,
    ts: Seq<tarefa::TarefaVista>,
    vs: Seq<valor::Dado>,
)
    requires
        pronto(s),
        simples(l.parametros),
        l.parametros.len() == l.args.len(),
        0 <= l.i <= l.args.len(),
        l.ambiente == com_parametros(e, l.parametros, l.args, l.i),
    ensures
        chega(
            leva(s, ts.push(tarefa::TarefaVista::Liga(l)), vs),
            interpretador::comeca(
                leva(s, ts, vs),
                l.nome,
                l.corpo,
                com_parametros(e, l.parametros, l.args, l.args.len() as int),
            ),
        ),
    decreases l.args.len() - l.i,
{
    reveal(interpretador::continua_expr);
    let t = tarefa::TarefaVista::Liga(l);
    let a = leva(s, ts.push(t), vs);
    let f = interpretador::comeca(
        leva(s, ts, vs),
        l.nome,
        l.corpo,
        com_parametros(e, l.parametros, l.args, l.args.len() as int),
    );
    lema_anda(s, ts, t, vs);
    if l.i < l.args.len() {
        assert(l.parametros[l.i].padrao is None && !l.parametros[l.i].variadic);
        let n = interpretador::ligado(l, l.args[l.i]);
        let b = leva(s, ts.push(tarefa::TarefaVista::Liga(n)), vs);
        assert(interpretador::anda(a) == interpretador::andou(b));
        lema_liga(s, n, e, ts, vs);
        lema_segue(a, b, f);
    } else {
        assert(interpretador::anda(a) == interpretador::andou(f));
        lema_zero(f);
        lema_segue(a, f, f);
    }
}

/// O estado em que comeca o corpo de uma funcao chamada: um ambiente novo por dentro do da funcao, com
/// cada parametro ligado ao argumento do mesmo lugar.
pub open spec fn dentro(
    s: interpretador::Estado,
    nome: Seq<char>,
    f: valor::Dado,
    ps: Seq<ast::ArvoreParam>,
    amb: Seq<valor::Escopo>,
    xs: Seq<valor::Dado>,
) -> interpretador::Estado {
    interpretador::Estado {
        chamadas: s.chamadas.push((nome, s.linha)),
        ambientes: s.ambientes.push(
            com_parametros(
                interpretador::ambiente_da_chamada(interpretador::aqui(s), nome, f, amb),
                ps,
                xs,
                xs.len() as int,
            ),
        ),
        ..s
    }
}

/// `nome(a, b, ...)`: avaliam-se os argumentos pela ordem, faz-se o corpo da funcao com os parametros
/// ligados a eles, e o resultado e o que ele devolve, ou `nulo` se acaba sem devolver; o ambiente de
/// quem chama volta a ser o que era.
pub proof fn lei_funcao(
    ss: Seq<interpretador::Estado>,
    nome: Seq<char>,
    ps: Seq<ast::ArvoreParam>,
    corpo: Seq<ast::ArvoreInstr>,
    amb: Seq<valor::Escopo>,
    es: Seq<ast::ArvoreExpr>,
    xs: Seq<valor::Dado>,
    w: interpretador::Estado,
    v: valor::Dado,
)
    requires
        ({
            let f = valor::Dado::Funcao { parametros: ps, corpo, ambiente: amb };
            let s = ss[0];
            let d = dentro(ss.last(), nome, f, ps, amb, xs);
            &&& pronto(s)
            &&& pronto(ss.last())
            &&& dao(ss, es, xs)
            &&& simples(ps)
            &&& ps.len() == es.len()
            &&& ambiente::obtido(interpretador::aqui(s), nome) == Some(f)
            &&& executa_desde(d, corpo, 0, w)
            &&& w.ambientes.len() >= 2
            &&& w.chamadas.len() >= 1
            &&& match w.modo {
                tarefa::ModoVisto::Anda => v == valor::Dado::Nulo,
                tarefa::ModoVisto::Sinal(tarefa::SinalVisto::Retornar(r)) => v == r,
                tarefa::ModoVisto::Sinal(_) => v == valor::Dado::Nulo,
                tarefa::ModoVisto::Falha(_) => false,
            }
        }),
    ensures
        da(
            ss[0],
            ast::ArvoreExpr::ChamadaFuncao { nome, args: es },
            v,
            interpretador::Estado {
                modo: tarefa::ModoVisto::Anda,
                ambientes: w.ambientes.drop_last(),
                chamadas: w.chamadas.drop_last(),
                ..w
            },
        ),
{
    let f = valor::Dado::Funcao { parametros: ps, corpo, ambiente: amb };
    let s = ss[0];
    let y = ss.last();
    let n = es.len() as int;
    let e = ast::ArvoreExpr::ChamadaFuncao { nome, args: es };
    let t = tarefa::TarefaVista::Avaliar(e);
    let d = tarefa::TarefaVista::Chama(nome, n);
    let z = interpretador::Estado {
        modo: tarefa::ModoVisto::Anda,
        ambientes: w.ambientes.drop_last(),
        chamadas: w.chamadas.drop_last(),
        ..w
    };
    let l = tarefa::LigacaoVista {
        nome,
        parametros: ps,
        corpo,
        args: xs,
        i: 0,
        ambiente: interpretador::ambiente_da_chamada(interpretador::aqui(y), nome, f, amb),
    };
    lema_minimo(ps, ps.len() as int);
    assert(!interpretador::recebe_resto(ps)) by {
        if ps.len() > 0 {
            assert(!ps[ps.len() - 1].variadic);
        }
    }
    assert forall|ts: Seq<tarefa::TarefaVista>, vs: Seq<valor::Dado>| #[trigger]
        chega(leva(s, ts.push(t), vs), leva(z, ts, vs.push(v))) by {
        reveal(interpretador::avalia);
        reveal(interpretador::continua_expr);
        reveal(interpretador::continua_instr);
        let e0 = leva(s, ts.push(t), vs);
        let e1 = leva(s, interpretador::avaliacoes(ts.push(d), es, 0), vs.push(f));
        let e2 = leva(y, ts.push(d), vs.push(f) + xs.skip(0));
        let e3 = leva(y, ts.push(tarefa::TarefaVista::Liga(l)), vs);
        let fc = tarefa::TarefaVista::FimChamada;
        let k = dentro(y, nome, f, ps, amb, xs);
        let e4 = leva(k, ts.push(fc).push(tarefa::TarefaVista::Bloco(corpo, 0)), vs);
        let e5 = leva(w, ts.push(fc), vs);
        let fim = leva(z, ts, vs.push(v));
        lema_anda(s, ts, t, vs);
        assert(interpretador::anda(e0) == interpretador::andou(e1));
        lema_dao(ss, es, xs, 0, ts.push(d), vs.push(f));
        assert(chega(e1, e2));
        assert(xs.skip(0) =~= xs);
        let us = vs.push(f) + xs;
        assert(us[us.len() - n - 1] == f);
        assert(us.take(us.len() - (n + 1)) =~= vs);
        assert(us.skip(us.len() - n) =~= xs);
        lema_anda(y, ts, d, us);
        assert(interpretador::anda(e2) == interpretador::andou(e3));
        lema_liga(y, l, l.ambiente, ts, vs);
        assert(chega(e3, e4));
        assert(chega(e4, e5));
        lema_anda(w, ts, fc, vs);
        assert(interpretador::anda(e5) == interpretador::andou(fim));
        lema_zero(fim);
        lema_segue(e5, fim, fim);
        lema_junta(e4, e5, fim);
        lema_junta(e3, e4, fim);
        lema_segue(e2, e3, fim);
        lema_junta(e1, e2, fim);
        lema_segue(e0, e1, fim);
    }
}

proof fn lema_escopos(e: Seq<valor::Escopo>, ps: Seq<ast::ArvoreParam>, xs: Seq<valor::Dado>, n: int)
    requires
        e.len() > 0,
    ensures
        com_parametros(e, ps, xs, n).len() == e.len(),
    decreases n,
{
    if 0 < n <= ps.len() && n <= xs.len() {
        lema_escopos(e, ps, xs, n - 1);
    }
}

/// Um parametro vale, dentro da funcao, o argumento do mesmo lugar, se nao ha depois dele outro do
/// mesmo nome.
pub proof fn lei_parametros(
    e: Seq<valor::Escopo>,
    ps: Seq<ast::ArvoreParam>,
    xs: Seq<valor::Dado>,
    n: int,
    i: int,
)
    requires
        e.len() > 0,
        0 <= i < n <= ps.len(),
        ps.len() == xs.len(),
        forall|j: int| i < j < n ==> (#[trigger] ps[j]).nome != ps[i].nome,
    ensures
        ambiente::obtido(com_parametros(e, ps, xs, n), ps[i].nome) == Some(xs[i]),
    decreases n,
{
    let a = com_parametros(e, ps, xs, n - 1);
    lema_escopos(e, ps, xs, n - 1);
    ambiente::lei_definir(a, ps[n - 1].nome, xs[n - 1], ps[i].nome);
    if i < n - 1 {
        lei_parametros(e, ps, xs, n - 1, i);
    }
}

/// Definir uma funcao guarda no nome dela a funcao, com o ambiente em que foi definida.
pub proof fn lei_definir_funcao(
    s: interpretador::Estado,
    nome: Seq<char>,
    ps: Seq<ast::ArvoreParam>,
    corpo: Seq<ast::ArvoreInstr>,
)
    requires
        pronto(s),
    ensures
        executa(
            s,
            ast::ArvoreInstr::Funcao { nome, parametros: ps, corpo },
            interpretador::define(
                s,
                nome,
                valor::Dado::Funcao { parametros: ps, corpo, ambiente: s.ambientes.last() },
            ),
        ),
        da(
            s,
            ast::ArvoreExpr::FuncaoAnonima { parametros: ps, corpo },
            valor::Dado::Funcao { parametros: ps, corpo, ambiente: s.ambientes.last() },
            s,
        ),
{
    let x = ast::ArvoreInstr::Funcao { nome, parametros: ps, corpo };
    let f = valor::Dado::Funcao { parametros: ps, corpo, ambiente: s.ambientes.last() };
    reveal(interpretador::executa);
    reveal(interpretador::avalia);
    assert forall|ts: Seq<tarefa::TarefaVista>, vs: Seq<valor::Dado>|
        interpretador::anda(#[trigger] leva(s, ts.push(tarefa::TarefaVista::Executar(x)), vs)) == interpretador::andou(
            leva(interpretador::define(s, nome, f), ts, vs),
        ) by {
        lema_anda(s, ts, tarefa::TarefaVista::Executar(x), vs);
    }
    lema_num_passo(s, x, interpretador::define(s, nome, f));
    lema_da_num_passo(s, ast::ArvoreExpr::FuncaoAnonima { parametros: ps, corpo }, f);
}

// ---- Percursos com uma funcao -----------------------------------------------------------

/// Chamar `f` com `x`, a partir de `s`, da `y` e deixa o estado `z`.
pub open spec fn aplica(
    s: interpretador::Estado,
    f: valor::Dado,
    x: valor::Dado,
    y: valor::Dado,
    z: interpretador::Estado,
) -> bool {
    pronto(z) && forall|ts: Seq<tarefa::TarefaVista>, vs: Seq<valor::Dado>| #[trigger]
        chega(
            leva(s, ts.push(tarefa::TarefaVista::Chama("<expressao>"@, 1)), vs.push(f).push(x)),
            leva(z, ts, vs.push(y)),
        )
}

/// Chamar `f` com cada item, pela ordem, da os valores `ys`: `ss[k]` e o estado antes do item `k`.
pub open spec fn aplicam(
    ss: Seq<interpretador::Estado>,
    f: valor::Dado,
    xs: Seq<valor::Dado>,
    ys: Seq<valor::Dado>,
) -> bool {
    &&& ss.len() == xs.len() + 1
    &&& ys.len() == xs.len()
    &&& pronto(ss[0])
    &&& forall|k: int| 0 <= k < xs.len() ==> aplica(ss[k], f, #[trigger] xs[k], ys[k], ss[k + 1])
}

/// Os primeiros `n` itens a que a funcao deu um valor que conta como verdadeiro.
pub open spec fn escolhidos(xs: Seq<valor::Dado>, ys: Seq<valor::Dado>, n: int) -> Seq<valor::Dado>
    decreases n,
{
    if n <= 0 {
        Seq::empty()
    } else if aplicar::verdadeiro(ys[n - 1]) {
        escolhidos(xs, ys, n - 1).push(xs[n - 1])
    } else {
        escolhidos(xs, ys, n - 1)
    }
}

spec fn percurso_em(
    f: valor::Dado,
    xs: Seq<valor::Dado>,
    ys: Seq<valor::Dado>,
    k: int,
    filtra: bool,
) -> tarefa::TarefaVista {
    let p = tarefa::PercursoVisto {
        funcao: f,
        itens: xs,
        i: k,
        feitos: if filtra {
            escolhidos(xs, ys, k - 1)
        } else if k > 0 {
            ys.take(k - 1)
        } else {
            Seq::empty()
        },
    };
    if filtra {
        tarefa::TarefaVista::Filtra(p)
    } else {
        tarefa::TarefaVista::Mapeia(p)
    }
}

proof fn lema_percurso(
    ss: Seq<interpretador::Estado>,
    f: valor::Dado,
    xs: Seq<valor::Dado>,
    ys: Seq<valor::Dado>,
    k: int,
    filtra: bool,
    ts: Seq<tarefa::TarefaVista>,
    vs: Seq<valor::Dado>,
)
    requires
        aplicam(ss, f, xs, ys),
        0 <= k <= xs.len(),
        pronto(ss[k]),
    ensures
        chega(
            leva(
                ss[k],
                ts.push(percurso_em(f, xs, ys, k, filtra)),
                if k > 0 {
                    vs.push(ys[k - 1])
                } else {
                    vs
                },
            ),
            leva(
                ss.last(),
                ts,
                vs.push(
                    valor::Dado::Lista(
                        if filtra {
                            escolhidos(xs, ys, xs.len() as int)
                        } else {
                            ys
                        },
                    ),
                ),
            ),
        ),
    decreases xs.len() - k,
{
    reveal(interpretador::continua_expr);
    let t = percurso_em(f, xs, ys, k, filtra);
    let ws = if k > 0 {
        vs.push(ys[k - 1])
    } else {
        vs
    };
    let a = leva(ss[k], ts.push(t), ws);
    let fim = leva(
        ss.last(),
        ts,
        vs.push(
            valor::Dado::Lista(
                if filtra {
                    escolhidos(xs, ys, xs.len() as int)
                } else {
                    ys
                },
            ),
        ),
    );
    lema_anda(ss[k], ts, t, ws);
    if k > 0 {
        lema_sem(ss[k], ts, vs, ys[k - 1]);
        if !filtra {
            assert(ys.take(k - 1).push(ys[k - 1]) =~= ys.take(k));
        }
    }
    if k < xs.len() {
        let n = percurso_em(f, xs, ys, k + 1, filtra);
        if !filtra && k == 0 {
            assert(ys.take(0) =~= Seq::empty());
        }
        let ch = tarefa::TarefaVista::Chama("<expressao>"@, 1);
        let b = leva(ss[k], ts.push(n).push(ch), vs.push(f).push(xs[k]));
        assert(interpretador::anda(a) == interpretador::andou(b));
        assert(aplica(ss[k], f, xs[k], ys[k], ss[k + 1]));
        let c = leva(ss[k + 1], ts.push(n), vs.push(ys[k]));
        assert(chega(b, c));
        lema_percurso(ss, f, xs, ys, k + 1, filtra, ts, vs);
        lema_junta(b, c, fim);
        lema_segue(a, b, fim);
    } else {
        if !filtra {
            if k > 0 {
                assert(ys.take(k) =~= ys);
            } else {
                assert(ys =~= Seq::empty());
            }
        }
        assert(interpretador::anda(a) == interpretador::andou(fim));
        lema_zero(fim);
        lema_segue(a, fim, fim);
    }
}

/// `mapear(lista, f)` chama `f` com cada item, pela ordem, e da a lista do que ela deu, pela mesma ordem;
/// `filtrar(lista, f)` da os itens a que ela deu um valor que conta como verdadeiro, pela ordem deles.
pub proof fn lei_mapear_e_filtrar(
    ss: Seq<interpretador::Estado>,
    f: valor::Dado,
    xs: Seq<valor::Dado>,
    ys: Seq<valor::Dado>,
    ts: Seq<tarefa::TarefaVista>,
    vs: Seq<valor::Dado>,
)
    requires
        aplicam(ss, f, xs, ys),
    ensures
        chega(
            leva(ss[0], ts.push(tarefa::TarefaVista::Mapeia(interpretador::percurso(f, xs))), vs),
            leva(ss.last(), ts, vs.push(valor::Dado::Lista(ys))),
        ),
        chega(
            leva(ss[0], ts.push(tarefa::TarefaVista::Filtra(interpretador::percurso(f, xs))), vs),
            leva(ss.last(), ts, vs.push(valor::Dado::Lista(escolhidos(xs, ys, xs.len() as int)))),
        ),
{
    lema_percurso(ss, f, xs, ys, 0, false, ts, vs);
    lema_percurso(ss, f, xs, ys, 0, true, ts, vs);
}

/// Chamar `f` com `acc` e `x`, por esta ordem, a partir de `s`, da `y` e deixa o estado `z`.
pub open spec fn aplica_dois(
    s: interpretador::Estado,
    f: valor::Dado,
    acc: valor::Dado,
    x: valor::Dado,
    y: valor::Dado,
    z: interpretador::Estado,
) -> bool {
    pronto(z) && forall|ts: Seq<tarefa::TarefaVista>, vs: Seq<valor::Dado>| #[trigger]
        chega(
            leva(s, ts.push(tarefa::TarefaVista::Chama("<expressao>"@, 2)), vs.push(f).push(acc).push(x)),
            leva(z, ts, vs.push(y)),
        )
}

/// `reduzir` chama `f` com o acumulado e cada item, pela ordem, e o que ela da e o acumulado seguinte; o
/// ultimo e o resultado.
pub proof fn lei_reduzir(
    ss: Seq<interpretador::Estado>,
    f: valor::Dado,
    xs: Seq<valor::Dado>,
    accs: Seq<valor::Dado>,
    k: int,
    ts: Seq<tarefa::TarefaVista>,
    vs: Seq<valor::Dado>,
)
    requires
        ss.len() == xs.len() + 1,
        accs.len() == xs.len() + 1,
        0 <= k <= xs.len(),
        pronto(ss[k]),
        forall|j: int|
            0 <= j < xs.len() ==> aplica_dois(ss[j], f, accs[j], #[trigger] xs[j], accs[j + 1], ss[j + 1]),
    ensures
        chega(
            leva(
                ss[k],
                ts.push(
                    tarefa::TarefaVista::Reduz(
                        tarefa::PercursoVisto { funcao: f, itens: xs, i: k, feitos: Seq::empty() },
                    ),
                ),
                vs.push(accs[k]),
            ),
            leva(ss.last(), ts, vs.push(accs.last())),
        ),
    decreases xs.len() - k,
{
    reveal(interpretador::continua_expr);
    let p = tarefa::PercursoVisto { funcao: f, itens: xs, i: k, feitos: Seq::empty() };
    let t = tarefa::TarefaVista::Reduz(p);
    let a = leva(ss[k], ts.push(t), vs.push(accs[k]));
    let fim = leva(ss.last(), ts, vs.push(accs.last()));
    lema_anda(ss[k], ts, t, vs.push(accs[k]));
    lema_sem(ss[k], ts, vs, accs[k]);
    if k < xs.len() {
        let n = tarefa::TarefaVista::Reduz(tarefa::PercursoVisto { i: k + 1, ..p });
        let ch = tarefa::TarefaVista::Chama("<expressao>"@, 2);
        let b = leva(ss[k], ts.push(n).push(ch), vs.push(f).push(accs[k]).push(xs[k]));
        assert(interpretador::anda(a) == interpretador::andou(b));
        assert(aplica_dois(ss[k], f, accs[k], xs[k], accs[k + 1], ss[k + 1]));
        let c = leva(ss[k + 1], ts.push(n), vs.push(accs[k + 1]));
        assert(chega(b, c));
        lei_reduzir(ss, f, xs, accs, k + 1, ts, vs);
        lema_junta(b, c, fim);
        lema_segue(a, b, fim);
    } else {
        assert(interpretador::anda(a) == interpretador::andou(fim));
        lema_zero(fim);
        lema_segue(a, fim, fim);
    }
}

} // verus!
