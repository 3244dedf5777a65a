//! Para onde o codigo salta: de dentro de um programa nunca se salta para fora dele.

use vstd::prelude::*;
use crate::ast::{ArvoreExpr, ArvoreInstr, OpBinario};
use crate::bytecode::Comando;
use crate::codigo;
use crate::construcoes;
use crate::fonte::FalhaFonte;
use crate::fonte;
use crate::texto;

verus! {

/// Se um comando nao salta para fora do intervalo nem para a maquina; o corpo de uma funcao nao salta
/// para fora de si, nem a para.
pub open spec fn bom(c: Comando, lo: int, hi: int) -> bool
    decreases c,
{
    match c {
        Comando::Jump(a) => lo <= a <= hi,
        Comando::JumpFalse(a) => lo <= a <= hi,
        Comando::JumpTrue(a) => lo <= a <= hi,
        Comando::TryCatch(a) => lo <= a <= hi,
        Comando::IterNext { loop_ini, .. } => lo <= loop_ini <= hi,
        Comando::DefFunc { corpo, .. } => dentro(corpo, 0, corpo.len() as int),
        Comando::Halt => false,
        _ => true,
    }
}

/// Se nenhum comando salta para fora do intervalo nem para a maquina.
pub open spec fn dentro(c: Seq<Comando>, lo: int, hi: int) -> bool
    decreases c,
{
    forall|k: int| 0 <= k < c.len() ==> bom(#[trigger] c[k], lo, hi)
}

proof fn lema_soma(a: Seq<Comando>, b: Seq<Comando>, lo: int, hi: int)
    requires
        dentro(a, lo, hi),
        dentro(b, lo, hi),
    ensures
        dentro(a + b, lo, hi),
{
    assert forall|k: int| 0 <= k < (a + b).len() implies bom(#[trigger] (a + b)[k], lo, hi) by {
        if k < a.len() {
            assert(bom(a[k], lo, hi));
        } else {
            assert(bom(b[k - a.len()], lo, hi));
        }
    }
}

proof fn lema_mais(a: Seq<Comando>, c: Comando, lo: int, hi: int)
    requires
        dentro(a, lo, hi),
        bom(c, lo, hi),
    ensures
        dentro(a.push(c), lo, hi),
{
    assert forall|k: int| 0 <= k < a.push(c).len() implies bom(#[trigger] a.push(c)[k], lo, hi) by {
        if k < a.len() {
            assert(bom(a[k], lo, hi));
        }
    }
}

// ---- O tamanho do codigo nao depende de onde ele salta ------------------------------------

/// Se dois codigos faltam ambos, ou tem o mesmo tamanho.
pub open spec fn mesmo(x: codigo::Codigo, y: codigo::Codigo) -> bool {
    match (x, y) {
        (Some(a), Some(b)) => a.len() == b.len(),
        (None, None) => true,
        _ => false,
    }
}

proof fn lema_tam_bloco(v: Seq<ArvoreInstr>, n: int, b: int, ini: Option<int>, f: int, g: int)
    ensures
        mesmo(codigo::codigo_bloco(v, n, b, ini, f), codigo::codigo_bloco(v, n, b, ini, g)),
    decreases v, n,
{
    if 0 < n <= v.len() {
        lema_tam_bloco(v, n - 1, b, ini, f, g);
        if let Some(x) = codigo::codigo_bloco(v, n - 1, b, ini, f) {
            lema_tam_instr(v[n - 1], b + x.len(), ini, f, g);
        }
    }
}

pub(crate) proof fn lema_tam_todo(v: Seq<ArvoreInstr>, b: int, ini: Option<int>, f: int, g: int)
    ensures
        mesmo(codigo::codigo_todo(v, b, ini, f), codigo::codigo_todo(v, b, ini, g)),
    decreases v, v.len() + 1,
{
    lema_tam_bloco(v, v.len() as int, b, ini, f, g);
}

proof fn lema_tam_opcional(v: Option<Seq<ArvoreInstr>>, b: int, ini: Option<int>, f: int, g: int)
    ensures
        mesmo(codigo::codigo_opcional(v, b, ini, f), codigo::codigo_opcional(v, b, ini, g)),
    decreases v, 0int,
{
    if let Some(x) = v {
        lema_tam_todo(x, b, ini, f, g);
    }
}

proof fn lema_tam_captura(c: Option<(Seq<char>, Seq<ArvoreInstr>)>, b: int, ini: Option<int>, f: int, g: int)
    ensures
        mesmo(codigo::codigo_captura(c, b, ini, f), codigo::codigo_captura(c, b, ini, g)),
    decreases c, 0int,
{
    if let Some((nome, bloco)) = c {
        lema_tam_todo(bloco, b + 1, ini, f, g);
    }
}

pub(crate) proof fn lema_tam_testes(v: Seq<ArvoreExpr>, n: int, w: Seq<char>, b: int, f: int, g: int)
    ensures
        mesmo(codigo::codigo_testes(v, n, w, b, f), codigo::codigo_testes(v, n, w, b, g)),
    decreases n,
{
    if 0 < n <= v.len() {
        lema_tam_testes(v, n - 1, w, b, f, g);
    }
}

proof fn lema_tam_caso(
    c: (Seq<ArvoreExpr>, Seq<ArvoreInstr>),
    w: Seq<char>,
    b: int,
    ini: Option<int>,
    f: int,
    g: int,
    d: int,
    e: int,
)
    ensures
        mesmo(codigo::codigo_caso(c, w, b, ini, f, d), codigo::codigo_caso(c, w, b, ini, g, e)),
    decreases c, 0int,
{
    if let Some(t) = codigo::codigo_testes(c.0, c.0.len() as int, w, b, 0) {
        lema_tam_todo(c.1, b + t.len() + 1, ini, f, g);
    }
}

pub(crate) proof fn lema_tam_casos(
    v: Seq<(Seq<ArvoreExpr>, Seq<ArvoreInstr>)>,
    n: int,
    w: Seq<char>,
    b: int,
    ini: Option<int>,
    f: int,
    g: int,
    d: int,
    e: int,
)
    ensures
        mesmo(codigo::codigo_casos(v, n, w, b, ini, f, d), codigo::codigo_casos(v, n, w, b, ini, g, e)),
    decreases v, n,
{
    if 0 < n <= v.len() {
        lema_tam_casos(v, n - 1, w, b, ini, f, g, d, e);
        if let Some(x) = codigo::codigo_casos(v, n - 1, w, b, ini, f, d) {
            lema_tam_caso(v[n - 1], w, b + x.len(), ini, f, g, d, e);
        }
    }
}

proof fn lema_tam_se(a: ArvoreInstr, b: int, ini: Option<int>, f: int, g: int)
    requires
        a is Se,
    ensures
        mesmo(codigo::codigo_se(a, b, ini, f), codigo::codigo_se(a, b, ini, g)),
    decreases a, 2int,
{
    if let ArvoreInstr::Se { condicao, entao, senao } = a {
        if let Some(c) = codigo::codigo_expr(condicao, b) {
            lema_tam_todo(entao, b + c.len() + 1, ini, f, g);
            if let Some(t) = codigo::codigo_todo(entao, b + c.len() + 1, ini, f) {
                if let Some(s) = senao {
                    lema_tam_todo(s, b + c.len() + 1 + t.len() + 1, ini, f, g);
                }
            }
        }
    }
}

proof fn lema_tam_escolher(a: ArvoreInstr, b: int, ini: Option<int>, f: int, g: int)
    requires
        a is Escolher,
    ensures
        mesmo(codigo::codigo_escolher(a, b, ini, f), codigo::codigo_escolher(a, b, ini, g)),
    decreases a, 2int,
{
    if let ArvoreInstr::Escolher { expr, casos, padrao } = a {
        if let Some(x) = codigo::codigo_expr(expr, b) {
            let w = "__sw_"@ + texto::decimal(b as nat);
            let c = b + x.len() + 1;
            let n = casos.len() as int;
            lema_tam_casos(casos, n, w, c, ini, f, g, 0, 0);
            if let Some(y) = codigo::codigo_casos(casos, n, w, c, ini, f, 0) {
                lema_tam_opcional(padrao, c + y.len(), ini, f, g);
                if let Some(p) = codigo::codigo_opcional(padrao, c + y.len(), ini, f) {
                    let d = c + y.len() + p.len();
                    lema_tam_casos(casos, n, w, c, ini, f, g, d, d);
                }
            }
        }
    }
}

proof fn lema_tam_tentar(a: ArvoreInstr, b: int, ini: Option<int>, f: int, g: int)
    requires
        a is Tentar,
    ensures
        mesmo(codigo::codigo_tentar(a, b, ini, f), codigo::codigo_tentar(a, b, ini, g)),
    decreases a, 2int,
{
    if let ArvoreInstr::Tentar { corpo, capturar, finalmente } = a {
        lema_tam_todo(corpo, b + 1, ini, f, g);
        if let Some(c) = codigo::codigo_todo(corpo, b + 1, ini, f) {
            let k = b + c.len() + 3;
            lema_tam_captura(capturar, k, ini, f, g);
            if let Some(x) = codigo::codigo_captura(capturar, k, ini, f) {
                lema_tam_opcional(finalmente, k + x.len(), ini, f, g);
            }
        }
    }
}

proof fn lema_tam_instr(a: ArvoreInstr, b: int, ini: Option<int>, f: int, g: int)
    ensures
        mesmo(codigo::codigo_instr(a, b, ini, f), codigo::codigo_instr(a, b, ini, g)),
    decreases a, 3int,
{
    construcoes::lema_parte(a, b, ini, f);
    construcoes::lema_parte(a, b, ini, g);
    match a {
        ArvoreInstr::Localizada { instrucao, .. } => {
            lema_tam_instr(*instrucao, b, ini, f, g);
        },
        ArvoreInstr::Se { .. } => {
            lema_tam_se(a, b, ini, f, g);
        },
        ArvoreInstr::Escolher { .. } => {
            lema_tam_escolher(a, b, ini, f, g);
        },
        ArvoreInstr::Tentar { .. } => {
            lema_tam_tentar(a, b, ini, f, g);
        },
        _ => {},
    }
}

// ---- Nenhuma parte salta para fora ----------------------------------------------------------

/// Se um codigo que comeca em `b` cabe no intervalo, com os lugares para onde os seus lacos saltam.
spec fn cabe(c: Seq<Comando>, b: int, ini: Option<int>, fim: int, lo: int, hi: int) -> bool {
    &&& lo <= b
    &&& b + c.len() <= hi
    &&& lo <= fim <= hi
    &&& ini matches Some(i) ==> lo <= i <= hi
}

proof fn lema_exprs(v: Seq<ArvoreExpr>, n: int, b: int, lo: int, hi: int)
    requires
        codigo::codigo_exprs(v, n, b) matches Some(c) && lo <= b && b + c.len() <= hi,
    ensures
        dentro(codigo::codigo_exprs(v, n, b)->Some_0, lo, hi),
    decreases v, n,
{
    if 0 < n <= v.len() {
        let x = codigo::codigo_exprs(v, n - 1, b)->Some_0;
        lema_exprs(v, n - 1, b, lo, hi);
        let y = codigo::codigo_expr(v[n - 1], b + x.len())->Some_0;
        lema_expr(v[n - 1], b + x.len(), lo, hi);
        lema_soma(x, y, lo, hi);
    }
}

proof fn lema_pares(v: Seq<(Seq<char>, ArvoreExpr)>, n: int, b: int, lo: int, hi: int)
    requires
        codigo::codigo_pares(v, n, b) matches Some(c) && lo <= b && b + c.len() <= hi,
    ensures
        dentro(codigo::codigo_pares(v, n, b)->Some_0, lo, hi),
    decreases v, n,
{
    if 0 < n <= v.len() {
        let x = codigo::codigo_pares(v, n - 1, b)->Some_0;
        lema_pares(v, n - 1, b, lo, hi);
        let y = codigo::codigo_expr(v[n - 1].1, b + x.len())->Some_0;
        lema_expr(v[n - 1].1, b + x.len(), lo, hi);
        lema_soma(x, y, lo, hi);
    }
}

proof fn lema_corpo(corpo: Seq<ArvoreInstr>)
    requires
        codigo::codigo_corpo(corpo) is Some,
    ensures
        dentro(codigo::codigo_corpo(corpo)->Some_0, 0, codigo::codigo_corpo(corpo)->Some_0.len() as int),
    decreases corpo, corpo.len() + 2,
{
    let c = codigo::codigo_todo(corpo, 0, None, 0)->Some_0;
    lema_todo(corpo, 0, None, 0, 0, (c.len() + 1) as int);
    lema_mais(c, Comando::ReturnNull, 0, (c.len() + 1) as int);
}

proof fn lema_expr(e: ArvoreExpr, b: int, lo: int, hi: int)
    requires
        codigo::codigo_expr(e, b) matches Some(c) && lo <= b && b + c.len() <= hi,
    ensures
        dentro(codigo::codigo_expr(e, b)->Some_0, lo, hi),
    decreases e, 1int,
{
    match e {
        ArvoreExpr::FuncaoAnonima { parametros, corpo } => {
            lema_corpo(corpo);
        },
        ArvoreExpr::Lista(v) => {
            lema_exprs(v, v.len() as int, b, lo, hi);
            let c = codigo::codigo_exprs(v, v.len() as int, b)->Some_0;
            lema_mais(c, Comando::MakeList(v.len() as int), lo, hi);
        },
        ArvoreExpr::Mapa(ps) => {
            lema_pares(ps, ps.len() as int, b, lo, hi);
            let c = codigo::codigo_pares(ps, ps.len() as int, b)->Some_0;
            lema_mais(c, Comando::MakeMap(codigo::chaves(ps)), lo, hi);
        },
        ArvoreExpr::Atribuicao { nome, valor } => {
            lema_expr(*valor, b, lo, hi);
            let c = codigo::codigo_expr(*valor, b)->Some_0;
            lema_soma(c, seq![Comando::Dup, Comando::Store(nome)], lo, hi);
        },
        ArvoreExpr::AtribuicaoIndexada { objeto, indice, valor } => {
            let o = codigo::codigo_expr(*objeto, b)->Some_0;
            let i = codigo::codigo_expr(*indice, b + o.len())->Some_0;
            let v = codigo::codigo_expr(*valor, b + o.len() + i.len())->Some_0;
            lema_expr(*objeto, b, lo, hi);
            lema_expr(*indice, b + o.len(), lo, hi);
            lema_expr(*valor, b + o.len() + i.len(), lo, hi);
            lema_soma(o, i, lo, hi);
            lema_soma(o + i, v, lo, hi);
            let s = match *objeto {
                ArvoreExpr::Variavel(nome) => seq![Comando::SetIndex, Comando::Store(nome)],
                _ => seq![Comando::SetIndex],
            };
            lema_soma(o + i + v, s, lo, hi);
        },
        ArvoreExpr::UnOp { op, expr } => {
            lema_expr(*expr, b, lo, hi);
        },
        ArvoreExpr::BinOp { esq, op, dir } => {
            let x = codigo::codigo_expr(*esq, b)->Some_0;
            lema_expr(*esq, b, lo, hi);
            if op == OpBinario::E || op == OpBinario::Ou {
                let y = codigo::codigo_expr(*dir, b + x.len() + 3)->Some_0;
                let fim = b + x.len() + 3 + y.len();
                let salto = if op == OpBinario::E {
                    Comando::JumpFalse(fim)
                } else {
                    Comando::JumpTrue(fim)
                };
                let m = seq![Comando::Dup, salto, Comando::Pop];
                lema_expr(*dir, b + x.len() + 3, lo, hi);
                lema_soma(x, m, lo, hi);
                lema_soma(x + m, y, lo, hi);
            } else {
                let y = codigo::codigo_expr(*dir, b + x.len())->Some_0;
                lema_expr(*dir, b + x.len(), lo, hi);
                lema_soma(x, y, lo, hi);
                lema_mais(x + y, codigo::comando_binario(op), lo, hi);
            }
        },
        ArvoreExpr::ChamadaFuncao { nome, args } => {
            lema_exprs(args, args.len() as int, b, lo, hi);
            let c = codigo::codigo_exprs(args, args.len() as int, b)->Some_0;
            lema_mais(c, codigo::comando_chamada(nome, args.len() as int), lo, hi);
        },
        ArvoreExpr::Chamada { funcao, args } => {
            let f = codigo::codigo_expr(*funcao, b)->Some_0;
            let c = codigo::codigo_exprs(args, args.len() as int, b + f.len())->Some_0;
            lema_expr(*funcao, b, lo, hi);
            lema_exprs(args, args.len() as int, b + f.len(), lo, hi);
            lema_soma(f, c, lo, hi);
            lema_mais(f + c, Comando::Call(args.len() as int), lo, hi);
        },
        ArvoreExpr::Acesso { objeto, indice } => {
            let o = codigo::codigo_expr(*objeto, b)->Some_0;
            let i = codigo::codigo_expr(*indice, b + o.len())->Some_0;
            lema_expr(*objeto, b, lo, hi);
            lema_expr(*indice, b + o.len(), lo, hi);
            lema_soma(o, i, lo, hi);
            lema_mais(o + i, Comando::GetIndex, lo, hi);
        },
        ArvoreExpr::NullCoalescente { esq, dir } => {
            let x = codigo::codigo_expr(*esq, b)->Some_0;
            let y = codigo::codigo_expr(*dir, b + x.len() + 5)->Some_0;
            let m = seq![
                Comando::Dup,
                Comando::PushNull,
                Comando::Eq,
                Comando::JumpFalse(b + x.len() + 5 + y.len()),
                Comando::Pop,
            ];
            lema_expr(*esq, b, lo, hi);
            lema_expr(*dir, b + x.len() + 5, lo, hi);
            lema_soma(x, m, lo, hi);
            lema_soma(x + m, y, lo, hi);
        },
        ArvoreExpr::AcessoOpcional { objeto, chave } => {
            let x = codigo::codigo_expr(*objeto, b)->Some_0;
            lema_expr(*objeto, b, lo, hi);
            lema_soma(
                x,
                seq![
                    Comando::Dup,
                    Comando::PushNull,
                    Comando::Eq,
                    Comando::JumpFalse(b + x.len() + 5),
                    Comando::Jump(b + x.len() + 7),
                    Comando::PushStr(chave),
                    Comando::GetIndex,
                ],
                lo,
                hi,
            );
        },
        ArvoreExpr::FuncaoSeta { parametros, corpo } => {
            let c = codigo::codigo_expr(*corpo, 0)->Some_0;
            lema_expr(*corpo, 0, 0, (c.len() + 1) as int);
            lema_mais(c, Comando::Return, 0, (c.len() + 1) as int);
        },
        _ => {},
    }
}

// ---- Os blocos e as instrucoes --------------------------------------------------------------

proof fn lema_bloco(v: Seq<ArvoreInstr>, n: int, b: int, ini: Option<int>, fim: int, lo: int, hi: int)
    requires
        codigo::codigo_bloco(v, n, b, ini, fim) matches Some(c) && cabe(c, b, ini, fim, lo, hi),
    ensures
        dentro(codigo::codigo_bloco(v, n, b, ini, fim)->Some_0, lo, hi),
    decreases v, n,
{
    if 0 < n <= v.len() {
        let x = codigo::codigo_bloco(v, n - 1, b, ini, fim)->Some_0;
        lema_bloco(v, n - 1, b, ini, fim, lo, hi);
        let y = codigo::codigo_instr(v[n - 1], b + x.len(), ini, fim)->Some_0;
        lema_instr(v[n - 1], b + x.len(), ini, fim, lo, hi);
        lema_soma(x, y, lo, hi);
    }
}

proof fn lema_todo(v: Seq<ArvoreInstr>, b: int, ini: Option<int>, fim: int, lo: int, hi: int)
    requires
        codigo::codigo_todo(v, b, ini, fim) matches Some(c) && cabe(c, b, ini, fim, lo, hi),
    ensures
        dentro(codigo::codigo_todo(v, b, ini, fim)->Some_0, lo, hi),
    decreases v, v.len() + 1,
{
    lema_bloco(v, v.len() as int, b, ini, fim, lo, hi);
}

proof fn lema_opcional(v: Option<Seq<ArvoreInstr>>, b: int, ini: Option<int>, fim: int, lo: int, hi: int)
    requires
        codigo::codigo_opcional(v, b, ini, fim) matches Some(c) && cabe(c, b, ini, fim, lo, hi),
    ensures
        dentro(codigo::codigo_opcional(v, b, ini, fim)->Some_0, lo, hi),
    decreases v, 0int,
{
    if let Some(x) = v {
        lema_todo(x, b, ini, fim, lo, hi);
    }
}

proof fn lema_captura(
    c: Option<(Seq<char>, Seq<ArvoreInstr>)>,
    b: int,
    ini: Option<int>,
    fim: int,
    lo: int,
    hi: int,
)
    requires
        codigo::codigo_captura(c, b, ini, fim) matches Some(x) && cabe(x, b, ini, fim, lo, hi),
    ensures
        dentro(codigo::codigo_captura(c, b, ini, fim)->Some_0, lo, hi),
    decreases c, 0int,
{
    if let Some((nome, bloco)) = c {
        let x = codigo::codigo_todo(bloco, b + 1, ini, fim)->Some_0;
        lema_todo(bloco, b + 1, ini, fim, lo, hi);
        lema_soma(seq![Comando::Store(nome)], x, lo, hi);
    }
}

proof fn lema_testes(v: Seq<ArvoreExpr>, n: int, w: Seq<char>, b: int, alvo: int, lo: int, hi: int)
    requires
        codigo::codigo_testes(v, n, w, b, alvo) matches Some(c) && lo <= b && b + c.len() <= hi,
        lo <= alvo <= hi,
    ensures
        dentro(codigo::codigo_testes(v, n, w, b, alvo)->Some_0, lo, hi),
    decreases v, n,
{
    if 0 < n <= v.len() {
        let x = codigo::codigo_testes(v, n - 1, w, b, alvo)->Some_0;
        lema_testes(v, n - 1, w, b, alvo, lo, hi);
        let y = codigo::codigo_expr(v[n - 1], b + x.len() + 1)->Some_0;
        lema_expr(v[n - 1], b + x.len() + 1, lo, hi);
        lema_mais(x, Comando::Load(w), lo, hi);
        lema_soma(x.push(Comando::Load(w)), y, lo, hi);
        lema_soma(x.push(Comando::Load(w)) + y, seq![Comando::Eq, Comando::JumpTrue(alvo)], lo, hi);
    }
}

proof fn lema_caso(
    c: (Seq<ArvoreExpr>, Seq<ArvoreInstr>),
    w: Seq<char>,
    b: int,
    ini: Option<int>,
    fim: int,
    depois: int,
    lo: int,
    hi: int,
)
    requires
        codigo::codigo_caso(c, w, b, ini, fim, depois) matches Some(x) && cabe(x, b, ini, fim, lo, hi),
        lo <= depois <= hi,
    ensures
        dentro(codigo::codigo_caso(c, w, b, ini, fim, depois)->Some_0, lo, hi),
    decreases c, 0int,
{
    let n = c.0.len() as int;
    let t0 = codigo::codigo_testes(c.0, n, w, b, 0)->Some_0;
    let inicio = b + t0.len() + 1;
    let t = codigo::codigo_testes(c.0, n, w, b, inicio)->Some_0;
    lema_tam_testes(c.0, n, w, b, 0, inicio);
    let x = codigo::codigo_todo(c.1, inicio, ini, fim)->Some_0;
    lema_testes(c.0, n, w, b, inicio, lo, hi);
    lema_todo(c.1, inicio, ini, fim, lo, hi);
    let salto = Comando::Jump(inicio + x.len() + 1);
    lema_mais(t, salto, lo, hi);
    lema_mais(x, Comando::Jump(depois), lo, hi);
    lema_soma(t.push(salto), x.push(Comando::Jump(depois)), lo, hi);
}

proof fn lema_casos(
    v: Seq<(Seq<ArvoreExpr>, Seq<ArvoreInstr>)>,
    n: int,
    w: Seq<char>,
    b: int,
    ini: Option<int>,
    fim: int,
    depois: int,
    lo: int,
    hi: int,
)
    requires
        codigo::codigo_casos(v, n, w, b, ini, fim, depois) matches Some(x) && cabe(x, b, ini, fim, lo, hi),
        lo <= depois <= hi,
    ensures
        dentro(codigo::codigo_casos(v, n, w, b, ini, fim, depois)->Some_0, lo, hi),
    decreases v, n,
{
    if 0 < n <= v.len() {
        let x = codigo::codigo_casos(v, n - 1, w, b, ini, fim, depois)->Some_0;
        lema_casos(v, n - 1, w, b, ini, fim, depois, lo, hi);
        let y = codigo::codigo_caso(v[n - 1], w, b + x.len(), ini, fim, depois)->Some_0;
        lema_caso(v[n - 1], w, b + x.len(), ini, fim, depois, lo, hi);
        lema_soma(x, y, lo, hi);
    }
}

proof fn lema_laco(cond: Seq<Comando>, corpo: Seq<ArvoreInstr>, ini: int, lo: int, hi: int)
    requires
        codigo::codigo_laco(cond, corpo, ini) matches Some(c) && lo <= ini && ini + c.len() <= hi,
        dentro(cond, lo, hi),
    ensures
        dentro(codigo::codigo_laco(cond, corpo, ini)->Some_0, lo, hi),
    decreases corpo, corpo.len() + 2,
{
    let b = ini + cond.len() + 1;
    let x = codigo::codigo_todo(corpo, b, Some(ini), 0)->Some_0;
    let fim = b + x.len() + 1;
    lema_tam_todo(corpo, b, Some(ini), 0, fim);
    let y = codigo::codigo_todo(corpo, b, Some(ini), fim)->Some_0;
    lema_todo(corpo, b, Some(ini), fim, lo, hi);
    lema_mais(cond, Comando::JumpFalse(fim), lo, hi);
    lema_mais(y, Comando::Jump(ini), lo, hi);
    lema_soma(cond.push(Comando::JumpFalse(fim)), y.push(Comando::Jump(ini)), lo, hi);
}

proof fn lema_percurso(
    teste: Seq<Comando>,
    item: Seq<Comando>,
    corpo: Seq<ArvoreInstr>,
    inicio: int,
    volta: Seq<Comando>,
    lo: int,
    hi: int,
)
    requires
        codigo::codigo_percurso(teste, item, corpo, inicio, volta) matches Some(c) && inicio + 9 + c.len() - teste.len()
            - 1 - item.len() <= hi,
        lo <= inicio <= hi,
        dentro(teste, lo, hi),
        dentro(item, lo, hi),
        dentro(volta, lo, hi),
    ensures
        dentro(codigo::codigo_percurso(teste, item, corpo, inicio, volta)->Some_0, lo, hi),
    decreases corpo, corpo.len() + 2,
{
    let b = inicio + 9;
    let x = codigo::codigo_todo(corpo, b, Some(inicio), 0)->Some_0;
    let fim = b + x.len() + volta.len();
    lema_tam_todo(corpo, b, Some(inicio), 0, fim);
    let y = codigo::codigo_todo(corpo, b, Some(inicio), fim)->Some_0;
    lema_todo(corpo, b, Some(inicio), fim, lo, hi);
    let t = teste.push(Comando::JumpTrue(fim));
    lema_mais(teste, Comando::JumpTrue(fim), lo, hi);
    lema_soma(t, item, lo, hi);
    lema_soma(t + item, y, lo, hi);
    lema_soma(t + item + y, volta, lo, hi);
}

proof fn lema_contagem(limites: Seq<Comando>, variavel: Seq<char>, corpo: Seq<ArvoreInstr>, q: int, lo: int, hi: int)
    requires
        codigo::codigo_contagem(limites, variavel, corpo, q) matches Some(c) && q + c.len() - limites.len() <= hi,
        lo <= q,
        dentro(limites, lo, hi),
    ensures
        dentro(codigo::codigo_contagem(limites, variavel, corpo, q)->Some_0, lo, hi),
    decreases corpo, corpo.len() + 2,
{
    let x = codigo::codigo_todo(corpo, q + 4, Some(q + 3), 0)->Some_0;
    let avanco = q + 4 + x.len();
    lema_tam_todo(corpo, q + 4, Some(q + 3), 0, avanco + 1);
    let y = codigo::codigo_todo(corpo, q + 4, Some(q + 3), avanco + 1)->Some_0;
    lema_todo(corpo, q + 4, Some(q + 3), avanco + 1, lo, hi);
    let m = seq![
        Comando::IterStart { var: variavel },
        Comando::JumpFalse(avanco + 1),
        Comando::Jump(q + 4),
        Comando::Jump(avanco),
    ];
    let u = Comando::IterNext { var: variavel, loop_ini: q + 4 };
    lema_soma(limites, m, lo, hi);
    lema_mais(y, u, lo, hi);
    lema_soma(limites + m, y.push(u), lo, hi);
}

proof fn lema_se(a: ArvoreInstr, b: int, ini: Option<int>, fim: int, lo: int, hi: int)
    requires
        a is Se,
        codigo::codigo_instr(a, b, ini, fim) matches Some(c) && cabe(c, b, ini, fim, lo, hi),
    ensures
        dentro(codigo::codigo_instr(a, b, ini, fim)->Some_0, lo, hi),
    decreases a, 2int,
{
    if let ArvoreInstr::Se { condicao, entao, senao } = a {
        let c = codigo::codigo_expr(condicao, b)->Some_0;
        let t = codigo::codigo_todo(entao, b + c.len() + 1, ini, fim)->Some_0;
        let alvo = b + c.len() + 1 + t.len();
        lema_expr(condicao, b, lo, hi);
        lema_todo(entao, b + c.len() + 1, ini, fim, lo, hi);
        match senao {
            Some(s) => {
                let z = codigo::codigo_todo(s, alvo + 1, ini, fim)->Some_0;
                lema_todo(s, alvo + 1, ini, fim, lo, hi);
                let j = Comando::Jump(alvo + 1 + z.len());
                lema_mais(c, Comando::JumpFalse(alvo + 1), lo, hi);
                lema_mais(t, j, lo, hi);
                lema_soma(c.push(Comando::JumpFalse(alvo + 1)), t.push(j), lo, hi);
                lema_soma(c.push(Comando::JumpFalse(alvo + 1)) + t.push(j), z, lo, hi);
            },
            None => {
                lema_mais(c, Comando::JumpFalse(alvo), lo, hi);
                lema_soma(c.push(Comando::JumpFalse(alvo)), t, lo, hi);
            },
        }
    }
}

proof fn lema_para(a: ArvoreInstr, b: int, lo: int, hi: int)
    requires
        a is Para,
        codigo::codigo_para(a, b) matches Some(c) && lo <= b && b + c.len() <= hi,
    ensures
        dentro(codigo::codigo_para(a, b)->Some_0, lo, hi),
    decreases a, 2int,
{
    if let ArvoreInstr::Para { variavel, iteravel, corpo } = a {
        let x = codigo::codigo_expr(iteravel, b)->Some_0;
        let itens = "__iter_"@ + texto::decimal(b as nat);
        let indice = "__idx_"@ + texto::decimal(b as nat);
        let inicio = b + x.len() + 3;
        let pre = seq![
            Comando::Store(itens),
            Comando::PushNum("0.0"@),
            Comando::Store(indice),
            Comando::Load(itens),
            Comando::CallNative("tamanho"@, 1),
            Comando::Load(indice),
            Comando::Le,
        ];
        let item = seq![Comando::Load(itens), Comando::Load(indice), Comando::GetIndex, Comando::Store(variavel)];
        let volta = seq![
            Comando::Load(indice),
            Comando::PushNum("1.0"@),
            Comando::Add,
            Comando::Store(indice),
            Comando::Jump(inicio),
        ];
        let z = codigo::codigo_percurso(x + pre, item, corpo, inicio, volta);
        assert(z == codigo::codigo_para(a, b));
        lema_tam_percurso(x + pre, item, corpo, inicio, volta);
        lema_expr(iteravel, b, lo, hi);
        lema_soma(x, pre, lo, hi);
        lema_percurso(x + pre, item, corpo, inicio, volta, lo, hi);
    }
}

proof fn lema_tam_percurso(
    teste: Seq<Comando>,
    item: Seq<Comando>,
    corpo: Seq<ArvoreInstr>,
    inicio: int,
    volta: Seq<Comando>,
)
    ensures
        codigo::codigo_percurso(teste, item, corpo, inicio, volta) matches Some(c) ==> c.len() >= teste.len() + 1
            + item.len() + volta.len(),
{
}

proof fn lema_limites(a: ArvoreInstr, b: int, lo: int, hi: int)
    requires
        a is ParaIntervalo,
        codigo::codigo_limites(a, b) matches Some(c) && lo <= b && b + c.len() <= hi,
    ensures
        dentro(codigo::codigo_limites(a, b)->Some_0, lo, hi),
    decreases a, 1int,
{
    if let ArvoreInstr::ParaIntervalo { inicio, fim: ate, passo, .. } = a {
        let i = codigo::codigo_expr(inicio, b)->Some_0;
        let f = codigo::codigo_expr(ate, b + i.len())->Some_0;
        lema_expr(inicio, b, lo, hi);
        lema_expr(ate, b + i.len(), lo, hi);
        lema_soma(i, f, lo, hi);
        match passo {
            Some(p) => {
                let z = codigo::codigo_expr(p, b + i.len() + f.len())->Some_0;
                lema_expr(p, b + i.len() + f.len(), lo, hi);
                lema_soma(i + f, z, lo, hi);
            },
            None => {
                lema_mais(i + f, Comando::PushNum("1.0"@), lo, hi);
            },
        }
    }
}

proof fn lema_intervalo(a: ArvoreInstr, b: int, lo: int, hi: int)
    requires
        a is ParaIntervalo,
        codigo::codigo_intervalo(a, b) matches Some(c) && lo <= b && b + c.len() <= hi,
    ensures
        dentro(codigo::codigo_intervalo(a, b)->Some_0, lo, hi),
    decreases a, 2int,
{
    if let ArvoreInstr::ParaIntervalo { variavel, corpo, .. } = a {
        let x = codigo::codigo_limites(a, b)->Some_0;
        lema_tam_contagem(x, variavel, corpo, b + x.len());
        lema_limites(a, b, lo, hi);
        lema_contagem(x, variavel, corpo, b + x.len(), lo, hi);
    }
}

proof fn lema_tam_contagem(limites: Seq<Comando>, variavel: Seq<char>, corpo: Seq<ArvoreInstr>, q: int)
    ensures
        codigo::codigo_contagem(limites, variavel, corpo, q) matches Some(c) ==> c.len() >= limites.len() + 4,
{
}

proof fn lema_escolher(a: ArvoreInstr, b: int, ini: Option<int>, fim: int, lo: int, hi: int)
    requires
        a is Escolher,
        codigo::codigo_instr(a, b, ini, fim) matches Some(c) && cabe(c, b, ini, fim, lo, hi),
    ensures
        dentro(codigo::codigo_instr(a, b, ini, fim)->Some_0, lo, hi),
    decreases a, 2int,
{
    if let ArvoreInstr::Escolher { expr, casos, padrao } = a {
        let x = codigo::codigo_expr(expr, b)->Some_0;
        let w = "__sw_"@ + texto::decimal(b as nat);
        let c = b + x.len() + 1;
        let n = casos.len() as int;
        let y0 = codigo::codigo_casos(casos, n, w, c, ini, fim, 0)->Some_0;
        let p = codigo::codigo_opcional(padrao, c + y0.len(), ini, fim)->Some_0;
        let d = c + y0.len() + p.len();
        lema_tam_casos(casos, n, w, c, ini, fim, fim, 0, d);
        let y = codigo::codigo_casos(casos, n, w, c, ini, fim, d)->Some_0;
        lema_expr(expr, b, lo, hi);
        lema_casos(casos, n, w, c, ini, fim, d, lo, hi);
        lema_opcional(padrao, c + y0.len(), ini, fim, lo, hi);
        let s = x.push(Comando::Store(w));
        lema_mais(x, Comando::Store(w), lo, hi);
        lema_soma(s, y, lo, hi);
        lema_soma(s + y, p, lo, hi);
    }
}

proof fn lema_tentar(a: ArvoreInstr, b: int, ini: Option<int>, fim: int, lo: int, hi: int)
    requires
        a is Tentar,
        codigo::codigo_instr(a, b, ini, fim) matches Some(c) && cabe(c, b, ini, fim, lo, hi),
    ensures
        dentro(codigo::codigo_instr(a, b, ini, fim)->Some_0, lo, hi),
    decreases a, 2int,
{
    if let ArvoreInstr::Tentar { corpo, capturar, finalmente } = a {
        let c = codigo::codigo_todo(corpo, b + 1, ini, fim)->Some_0;
        let captura = b + c.len() + 3;
        let k = codigo::codigo_captura(capturar, captura, ini, fim)->Some_0;
        let f = codigo::codigo_opcional(finalmente, captura + k.len(), ini, fim)->Some_0;
        lema_todo(corpo, b + 1, ini, fim, lo, hi);
        lema_captura(capturar, captura, ini, fim, lo, hi);
        lema_opcional(finalmente, captura + k.len(), ini, fim, lo, hi);
        let t = seq![Comando::TryCatch(captura)];
        let m = seq![Comando::EndTry, Comando::Jump(captura + k.len())];
        lema_soma(t, c, lo, hi);
        lema_soma(t + c, m, lo, hi);
        lema_soma(t + c + m, k, lo, hi);
        lema_soma(t + c + m + k, f, lo, hi);
    }
}

proof fn lema_com_final(e: ArvoreExpr, b: int, u: Comando, lo: int, hi: int)
    requires
        codigo::codigo_expr(e, b) matches Some(c) && lo <= b && b + c.len() < hi,
        bom(u, lo, hi),
    ensures
        dentro(codigo::codigo_expr(e, b)->Some_0.push(u), lo, hi),
    decreases e, 2int,
{
    lema_expr(e, b, lo, hi);
    lema_mais(codigo::codigo_expr(e, b)->Some_0, u, lo, hi);
}

proof fn lema_instr(a: ArvoreInstr, b: int, ini: Option<int>, fim: int, lo: int, hi: int)
    requires
        codigo::codigo_instr(a, b, ini, fim) matches Some(c) && cabe(c, b, ini, fim, lo, hi),
    ensures
        dentro(codigo::codigo_instr(a, b, ini, fim)->Some_0, lo, hi),
    decreases a, 3int,
{
    match a {
        ArvoreInstr::Localizada { instrucao, .. } => {
            lema_instr(*instrucao, b, ini, fim, lo, hi);
        },
        ArvoreInstr::Expressao(e) => {
            lema_com_final(e, b, Comando::Pop, lo, hi);
        },
        ArvoreInstr::DeclararVar { nome, valor } => {
            if let Some(e) = valor {
                lema_com_final(e, b, Comando::Store(nome), lo, hi);
            }
        },
        ArvoreInstr::Imprimir(args) => {
            lema_exprs(args, args.len() as int, b, lo, hi);
            let c = codigo::codigo_exprs(args, args.len() as int, b)->Some_0;
            lema_mais(c, Comando::Print(args.len() as int), lo, hi);
        },
        ArvoreInstr::Funcao { nome, parametros, corpo } => {
            lema_corpo(corpo);
        },
        ArvoreInstr::Retornar(v) => {
            if let Some(e) = v {
                lema_com_final(e, b, Comando::Return, lo, hi);
            }
        },
        ArvoreInstr::Lancar(e) => {
            lema_com_final(e, b, Comando::Throw, lo, hi);
        },
        ArvoreInstr::Se { .. } => {
            lema_se(a, b, ini, fim, lo, hi);
        },
        ArvoreInstr::Enquanto { condicao, corpo } => {
            let c = codigo::codigo_expr(condicao, b)->Some_0;
            assert(codigo::codigo_laco(c, corpo, b) == codigo::codigo_instr(a, b, ini, fim));
            lema_expr(condicao, b, lo, hi);
            lema_laco(c, corpo, b, lo, hi);
        },
        ArvoreInstr::Para { .. } => {
            construcoes::lema_parte_para(a, b, ini, fim);
            lema_para(a, b, lo, hi);
        },
        ArvoreInstr::ParaIntervalo { .. } => {
            construcoes::lema_parte_intervalo(a, b, ini, fim);
            lema_intervalo(a, b, lo, hi);
        },
        ArvoreInstr::Escolher { .. } => {
            lema_escolher(a, b, ini, fim, lo, hi);
        },
        ArvoreInstr::Tentar { .. } => {
            lema_tentar(a, b, ini, fim, lo, hi);
        },
        _ => {},
    }
}

/// O codigo de um programa, com o das funcoes dele, so salta para dentro de si: nenhum salto leva
/// a um endereco negativo nem a um que passe do fim. E nao para a maquina: o `Halt` com que se
/// executa vem depois dele, e nunca no corpo de uma funcao.
pub proof fn lei_saltos(programa: Seq<ArvoreInstr>)
    requires
        codigo::codigo_todo(programa, 0, None, 0) is Some,
    ensures
        ({
            let c = codigo::codigo_todo(programa, 0, None, 0)->Some_0;
            &&& dentro(c, 0, c.len() as int)
            &&& fonte::codigo_de(programa) == Ok::<_, FalhaFonte>(c.push(Comando::Halt))
        }),
{
    let c = codigo::codigo_todo(programa, 0, None, 0)->Some_0;
    lema_todo(programa, 0, None, 0, 0, c.len() as int);
}

} // verus!
