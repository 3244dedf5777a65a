//! Leis da gramatica das instrucoes e das expressoes compostas: que arvore dao os tokens de cada uma,
//! dito das arvores das partes dela.

use vstd::prelude::*;
use crate::ast::{ArvoreExpr, ArvoreInstr, ArvoreParam, OpBinario, OpUnario};
use crate::leis_sintaxe;
use crate::sintaxe;
use crate::sintaxe::Simbolo;
use crate::token::{TokenDe, TokenSituado};

verus! {

/// Leu-se `x`, e o que se segue esta em `j`.
pub open spec fn lida<T>(x: T, j: int) -> sintaxe::Lido<T> {
    Ok((x, j))
}

// ---- Expressoes -------------------------------------------------------------------------

/// `-` e `nao` antes de uma expressao elementar aplicam-se a ela com as chamadas e os acessos que a
/// seguem, e a mais nada.
pub proof fn lei_unario(ts: Seq<TokenSituado>, i: int, e: ArvoreExpr, j: int)
    requires
        sintaxe::chamada_em(ts, i + 1) == lida(e, j),
    ensures
        sintaxe::tok(ts, i) is Menos ==> sintaxe::unario_em(ts, i) == lida(
            ArvoreExpr::UnOp { op: OpUnario::Negativo, expr: Box::new(e) },
            j,
        ),
        sintaxe::tok(ts, i) is Nao ==> sintaxe::unario_em(ts, i) == lida(
            ArvoreExpr::UnOp { op: OpUnario::Nao, expr: Box::new(e) },
            j,
        ),
{
}

/// Uma expressao entre parenteses e ela mesma, por fracos que sejam os operadores dentro deles.
pub proof fn lei_parenteses(ts: Seq<TokenSituado>, i: int, e: ArvoreExpr, j: int)
    requires
        0 <= i < ts.len(),
        ts[i].token is ParenEsq,
        !(sintaxe::tok(ts, i + 1) is ParenDir),
        sintaxe::tok(ts, i + 1) is Identificador ==> !(sintaxe::tok(ts, i + 2) is Virgula) && !(sintaxe::tok(ts, i + 2) is ParenDir
            && sintaxe::tok(ts, i + 3) is Seta),
        sintaxe::expr_em(ts, i + 1) == lida(e, j),
        i + 1 < j < ts.len(),
        ts[j].token is ParenDir,
        leis_sintaxe::separa(ts, j + 1),
    ensures
        sintaxe::primario_em(ts, i) == lida(e, j + 1),
        sintaxe::unario_em(ts, i) == lida(e, j + 1),
{
    assert(sintaxe::params_seta(ts, i + 1, Seq::empty()) is None);
    assert(sintaxe::primario_em(ts, i) == lida(e, j + 1));
    leis_sintaxe::lema_sem_sufixo(ts, j + 1, e);
    assert(sintaxe::chamada_em(ts, i) == lida(e, j + 1));
}

/// Depois de uma expressao elementar, `[x]` da o acesso pelo valor de `x`, `.nome` o acesso pelo texto do
/// nome, e `?.nome` o acesso que pode faltar; o que vem a seguir aplica-se ao resultado.
pub proof fn lei_acessos(ts: Seq<TokenSituado>, i: int, e: ArvoreExpr, x: ArvoreExpr, j: int, nome: Seq<char>)
    requires
        0 <= i < ts.len(),
    ensures
        sintaxe::tok(ts, i) is ColcheteEsq && sintaxe::expr_em(ts, i + 1) == lida(x, j) && sintaxe::tok(ts, j) is ColcheteDir
            && i < j < ts.len() ==> sintaxe::resto_chamada(ts, i, e) == sintaxe::resto_chamada(
            ts,
            j + 1,
            ArvoreExpr::Acesso { objeto: Box::new(e), indice: Box::new(x) },
        ),
        sintaxe::tok(ts, i) is Ponto && sintaxe::tok(ts, i + 1) == TokenDe::Identificador(nome)
            ==> sintaxe::resto_chamada(ts, i, e) == sintaxe::resto_chamada(
            ts,
            i + 2,
            ArvoreExpr::Acesso { objeto: Box::new(e), indice: Box::new(ArvoreExpr::Texto(nome)) },
        ),
        sintaxe::tok(ts, i) is PontoOpcional && sintaxe::tok(ts, i + 1) == TokenDe::Identificador(nome)
            ==> sintaxe::resto_chamada(ts, i, e) == sintaxe::resto_chamada(
            ts,
            i + 2,
            ArvoreExpr::AcessoOpcional { objeto: Box::new(e), chave: nome },
        ),
{
    if sintaxe::tok(ts, i) is ColcheteEsq && sintaxe::expr_em(ts, i + 1) == lida(x, j) && sintaxe::tok(ts, j) is ColcheteDir {
        let a = ArvoreExpr::Acesso { objeto: Box::new(e), indice: Box::new(x) };
        assert(sintaxe::sufixo_em(ts, i, e) == lida(Some(a), j + 1));
    }
    if sintaxe::tok(ts, i) is Ponto && sintaxe::tok(ts, i + 1) == TokenDe::Identificador(nome) {
        let a = ArvoreExpr::Acesso { objeto: Box::new(e), indice: Box::new(ArvoreExpr::Texto(nome)) };
        assert(sintaxe::sufixo_em(ts, i, e) == lida(Some(a), i + 2));
    }
    if sintaxe::tok(ts, i) is PontoOpcional && sintaxe::tok(ts, i + 1) == TokenDe::Identificador(nome) {
        let a = ArvoreExpr::AcessoOpcional { objeto: Box::new(e), chave: nome };
        assert(sintaxe::sufixo_em(ts, i, e) == lida(Some(a), i + 2));
    }
}

/// As expressoes separadas por virgulas: `es[k]` esta entre `ps[k]` e a virgula, ou o fim, em `ps[k + 1] - 1`.
pub open spec fn separadas(ts: Seq<TokenSituado>, ps: Seq<int>, es: Seq<ArvoreExpr>) -> bool {
    &&& es.len() > 0
    &&& ps.len() == es.len() + 1
    &&& forall|k: int|
        0 <= k < es.len() ==> {
            &&& sintaxe::expr_em(ts, ps[k]) == lida(#[trigger] es[k], ps[k + 1] - 1)
            &&& 0 <= ps[k]
            &&& ps[k] < ps[k + 1] - 1 < ts.len()
            &&& k + 1 < es.len() ==> sintaxe::tok(ts, ps[k + 1] - 1) is Virgula && !(sintaxe::tok(ts, ps[k + 1]) is NovaLinha)
        }
}

proof fn lema_lista(
    ts: Seq<TokenSituado>,
    ps: Seq<int>,
    es: Seq<ArvoreExpr>,
    k: int,
    acc: Seq<ArvoreExpr>,
    fim: Simbolo,
)
    requires
        separadas(ts, ps, es),
        0 <= k <= es.len(),
        fim == Simbolo::ParenDir || fim == Simbolo::ColcheteDir,
        sintaxe::tok(ts, ps.last() - 1) == sintaxe::token_do(fim),
    ensures
        k < es.len() ==> sintaxe::lista_em(ts, ps[k], acc, fim) == lida(acc + es.skip(k), ps.last()),
        k == es.len() ==> sintaxe::lista_em(ts, ps[k] - 1, acc, fim) == lida(acc, ps.last()),
    decreases es.len() - k,
{
    if k < es.len() {
        lema_lista(ts, ps, es, k + 1, acc.push(es[k]), fim);
        let j = ps[k + 1] - 1;
        assert(sintaxe::expr_em(ts, ps[k]) == lida(es[k], j));
        lema_nao_fecha(ts, ps[k], es[k], j);
        assert(acc.push(es[k]) + es.skip(k + 1) =~= acc + es.skip(k));
        if k + 1 < es.len() {
            assert(sintaxe::sem_quebras(ts, j) == j);
            assert(sintaxe::sem_quebras(ts, j + 1) == j + 1);
            assert(sintaxe::depois_do_item(ts, j) == ps[k + 1]);
        } else {
            assert(sintaxe::sem_quebras(ts, j) == j);
            assert(sintaxe::depois_do_item(ts, j) == j);
            assert(acc.push(es[k]) =~= acc + es.skip(k));
        }
    }
}

proof fn lema_nao_fecha(ts: Seq<TokenSituado>, i: int, e: ArvoreExpr, j: int)
    requires
        sintaxe::expr_em(ts, i) == lida(e, j),
    ensures
        !(sintaxe::tok(ts, i) is ParenDir),
        !(sintaxe::tok(ts, i) is ColcheteDir),
        !(sintaxe::tok(ts, i) is ChaveDir),
        !(sintaxe::tok(ts, i) is FimDeArquivo),
        !(sintaxe::tok(ts, i) is NovaLinha),
        !(sintaxe::tok(ts, i) is PontoEVirgula),
{
    if sintaxe::tok(ts, i) is ParenDir || sintaxe::tok(ts, i) is ColcheteDir || sintaxe::tok(ts, i) is ChaveDir
        || sintaxe::tok(ts, i) is FimDeArquivo || sintaxe::tok(ts, i) is NovaLinha || sintaxe::tok(ts, i) is PontoEVirgula {
        assert(sintaxe::primario_em(ts, i) is Err);
        assert(sintaxe::chamada_em(ts, i) is Err);
        assert(sintaxe::unario_em(ts, i) is Err);
        assert(sintaxe::binario_em(ts, i, 6) is Err);
        assert(sintaxe::binario_em(ts, i, 5) is Err);
        assert(sintaxe::binario_em(ts, i, 4) is Err);
        assert(sintaxe::binario_em(ts, i, 3) is Err);
        assert(sintaxe::binario_em(ts, i, 2) is Err);
        assert(sintaxe::binario_em(ts, i, 1) is Err);
        assert(sintaxe::binario_em(ts, i, 0) is Err);
        assert(sintaxe::expr_em(ts, i) is Err);
    }
}

/// `f(a, b, ...)` da a chamada com os argumentos pela ordem: a da funcao de um nome, se `f` e um nome, ou
/// a do valor de `f`. `f()` da a chamada sem argumentos.
pub proof fn lei_chamada(
    ts: Seq<TokenSituado>,
    i: int,
    f: ArvoreExpr,
    nome: Seq<char>,
    ps: Seq<int>,
    es: Seq<ArvoreExpr>,
)
    requires
        0 <= i < ts.len(),
        ts[i].token is ParenEsq,
    ensures
        separadas(ts, ps, es) && ps[0] == i + 1 && sintaxe::tok(ts, ps.last() - 1) is ParenDir ==> {
            &&& sintaxe::resto_chamada(ts, i, ArvoreExpr::Variavel(nome)) == sintaxe::resto_chamada(
                ts,
                ps.last(),
                ArvoreExpr::ChamadaFuncao { nome, args: es },
            )
            &&& !(f is Variavel) ==> sintaxe::resto_chamada(ts, i, f) == sintaxe::resto_chamada(
                ts,
                ps.last(),
                ArvoreExpr::Chamada { funcao: Box::new(f), args: es },
            )
        },
        sintaxe::tok(ts, i + 1) is ParenDir ==> sintaxe::resto_chamada(ts, i, ArvoreExpr::Variavel(nome))
            == sintaxe::resto_chamada(ts, i + 2, ArvoreExpr::ChamadaFuncao { nome, args: Seq::empty() }),
{
    let v = ArvoreExpr::Variavel(nome);
    if separadas(ts, ps, es) && ps[0] == i + 1 && sintaxe::tok(ts, ps.last() - 1) is ParenDir {
        lema_lista(ts, ps, es, 0, Seq::empty(), Simbolo::ParenDir);
        assert(Seq::<ArvoreExpr>::empty() + es.skip(0) =~= es);
        assert(es[0] == es[0]);
        lema_nao_fecha(ts, ps[0], es[0], ps[1] - 1);
        assert(sintaxe::sem_quebras(ts, i + 1) == i + 1);
        lema_ordem(ts, ps, es, 0);
        assert(sintaxe::sufixo_em(ts, i, v) == lida(
            Some(ArvoreExpr::ChamadaFuncao { nome, args: es }),
            ps.last(),
        ));
        if !(f is Variavel) {
            assert(sintaxe::sufixo_em(ts, i, f) == lida(
                Some(ArvoreExpr::Chamada { funcao: Box::new(f), args: es }),
                ps.last(),
            ));
        }
    }
    if sintaxe::tok(ts, i + 1) is ParenDir {
        assert(sintaxe::sem_quebras(ts, i + 1) == i + 1);
        assert(sintaxe::lista_em(ts, i + 1, Seq::empty(), Simbolo::ParenDir) == lida(Seq::<ArvoreExpr>::empty(), i + 2));
        assert(sintaxe::sufixo_em(ts, i, v) == lida(
            Some(ArvoreExpr::ChamadaFuncao { nome, args: Seq::empty() }),
            i + 2,
        ));
    }
}

proof fn lema_ordem(ts: Seq<TokenSituado>, ps: Seq<int>, es: Seq<ArvoreExpr>, k: int)
    requires
        separadas(ts, ps, es),
        0 <= k < es.len(),
    ensures
        ps[k] < ps.last() <= ts.len(),
    decreases es.len() - k,
{
    assert(sintaxe::expr_em(ts, ps[k]) == lida(es[k], ps[k + 1] - 1));
    if k + 1 < es.len() {
        lema_ordem(ts, ps, es, k + 1);
    } else {
        assert(ps.last() == ps[k + 1]);
    }
}

/// `[a, b, ...]` da a lista dos itens pela ordem.
pub proof fn lei_lista(ts: Seq<TokenSituado>, i: int, ps: Seq<int>, es: Seq<ArvoreExpr>)
    requires
        0 <= i < ts.len(),
        ts[i].token is ColcheteEsq,
        separadas(ts, ps, es),
        ps[0] == i + 1,
        sintaxe::tok(ts, ps.last() - 1) is ColcheteDir,
    ensures
        sintaxe::primario_em(ts, i) == lida(ArvoreExpr::Lista(es), ps.last()),
{
    lema_lista(ts, ps, es, 0, Seq::empty(), Simbolo::ColcheteDir);
    assert(Seq::<ArvoreExpr>::empty() + es.skip(0) =~= es);
    assert(es[0] == es[0]);
    lema_nao_fecha(ts, ps[0], es[0], ps[1] - 1);
    assert(sintaxe::sem_quebras(ts, i + 1) == i + 1);
}

/// `alvo = e` da a atribuicao do valor de `e` ao nome, ou ao indice do objeto; `alvo += e` a do valor de
/// `alvo + e`, e o mesmo com `-=`, `*=`, `/=` e `%=`.
pub proof fn lei_atribuicao(
    ts: Seq<TokenSituado>,
    i: int,
    alvo: ArvoreExpr,
    j: int,
    e: ArvoreExpr,
    k: int,
    nome: Seq<char>,
    o: ArvoreExpr,
    x: ArvoreExpr,
)
    requires
        0 <= i < j < ts.len(),
        sintaxe::binario_em(ts, i, 0) == lida(alvo, j),
        sintaxe::expr_em(ts, j + 1) == lida(e, k),
        alvo == ArvoreExpr::Variavel(nome) || alvo == (ArvoreExpr::Acesso { objeto: Box::new(o), indice: Box::new(x) }),
    ensures
        ({
            let guarda = |v: ArvoreExpr|
                match alvo {
                    ArvoreExpr::Variavel(_) => ArvoreExpr::Atribuicao { nome, valor: Box::new(v) },
                    _ => ArvoreExpr::AtribuicaoIndexada {
                        objeto: Box::new(o),
                        indice: Box::new(x),
                        valor: Box::new(v),
                    },
                };
            let conta = |op: OpBinario| ArvoreExpr::BinOp { esq: Box::new(alvo), op, dir: Box::new(e) };
            &&& ts[j].token is Atribuicao ==> sintaxe::expr_em(ts, i) == lida(guarda(e), k)
            &&& ts[j].token is MaisIgual ==> sintaxe::expr_em(ts, i) == lida(guarda(conta(OpBinario::Soma)), k)
            &&& ts[j].token is MenosIgual ==> sintaxe::expr_em(ts, i) == lida(guarda(conta(OpBinario::Subtracao)), k)
            &&& ts[j].token is EstrelaIgual ==> sintaxe::expr_em(ts, i) == lida(
                guarda(conta(OpBinario::Multiplicacao)),
                k,
            )
            &&& ts[j].token is BarraIgual ==> sintaxe::expr_em(ts, i) == lida(guarda(conta(OpBinario::Divisao)), k)
            &&& ts[j].token is PercentualIgual ==> sintaxe::expr_em(ts, i) == lida(guarda(conta(OpBinario::Modulo)), k)
        }),
{
}

// ---- Instrucoes -------------------------------------------------------------------------

/// O que separa instrucoes sao quebras de linha e pontos e virgulas; as quebras de linha sao tambem o que
/// se salta dentro de uma instrucao.
pub proof fn lei_separadores(ts: Seq<TokenSituado>, i: int)
    requires
        0 <= i <= ts.len(),
    ensures
        ({
            let j = sintaxe::sem_terminadores(ts, i);
            &&& i <= j <= ts.len()
            &&& forall|k: int| i <= k < j ==> (#[trigger] ts[k]).token is NovaLinha || ts[k].token is PontoEVirgula
            &&& !(sintaxe::tok(ts, j) is NovaLinha) && !(sintaxe::tok(ts, j) is PontoEVirgula)
        }),
        ({
            let j = sintaxe::sem_quebras(ts, i);
            &&& i <= j <= ts.len()
            &&& forall|k: int| i <= k < j ==> (#[trigger] ts[k]).token is NovaLinha
            &&& !(sintaxe::tok(ts, j) is NovaLinha)
        }),
    decreases ts.len() - i,
{
    if i < ts.len() {
        lei_separadores(ts, i + 1);
    }
}

/// A instrucao lida em `i` fica com a linha e o texto do token que a comeca.
pub proof fn lei_localizada(ts: Seq<TokenSituado>, i: int, a: ArvoreInstr, j: int)
    requires
        0 <= i < ts.len(),
        sintaxe::instr_nua(ts, i) == lida(a, j),
    ensures
        sintaxe::instr_em(ts, i) == lida(
            ArvoreInstr::Localizada {
                linha: ts[i].linha as usize,
                contexto: ts[i].contexto,
                instrucao: Box::new(a),
            },
            j,
        ),
{
}

/// As instrucoes uma depois da outra: a `k` comeca em `ps[k]`, e a seguinte depois dos separadores.
pub open spec fn seguidas(ts: Seq<TokenSituado>, ps: Seq<int>, xs: Seq<ArvoreInstr>) -> bool {
    &&& ps.len() == xs.len() + 1
    &&& forall|k: int|
        0 <= k < xs.len() ==> {
            &&& 0 <= ps[k] < ts.len()
            &&& !(ts[ps[k]].token is ChaveDir)
            &&& !(ts[ps[k]].token is FimDeArquivo)
            &&& exists|j: int|
                #![trigger sintaxe::sem_terminadores(ts, j)]
                ps[k] < j <= ts.len() && sintaxe::instr_em(ts, ps[k]) == lida(#[trigger] xs[k], j)
                    && sintaxe::sem_terminadores(ts, j) == ps[k + 1]
        }
}

proof fn lema_instrs(ts: Seq<TokenSituado>, ps: Seq<int>, xs: Seq<ArvoreInstr>, k: int, acc: Seq<ArvoreInstr>)
    requires
        seguidas(ts, ps, xs),
        0 <= k <= xs.len(),
    ensures
        sintaxe::tok(ts, ps.last()) is ChaveDir ==> sintaxe::instrs_em(ts, ps[k], acc) == lida(
            acc + xs.skip(k),
            ps.last() + 1,
        ),
        sintaxe::tok(ts, ps.last()) is FimDeArquivo ==> sintaxe::programa_em(ts, ps[k], acc) == Ok::<
            Seq<ArvoreInstr>,
            sintaxe::Falha,
        >(acc + xs.skip(k)),
    decreases xs.len() - k,
{
    if k < xs.len() {
        assert(xs[k] == xs[k]);
        lema_instrs(ts, ps, xs, k + 1, acc.push(xs[k]));
        assert(acc.push(xs[k]) + xs.skip(k + 1) =~= acc + xs.skip(k));
        let j = choose|j: int|
            #![trigger sintaxe::sem_terminadores(ts, j)]
            ps[k] < j <= ts.len() && sintaxe::instr_em(ts, ps[k]) == lida(xs[k], j) && sintaxe::sem_terminadores(ts, j)
                == ps[k + 1];
        assert(sintaxe::instr_em(ts, ps[k]) == lida(xs[k], j));
    } else {
        assert(acc + xs.skip(k) =~= acc);
    }
}

/// Um bloco tem as instrucoes que estao entre as suas chaves, pela ordem.
pub proof fn lei_bloco(ts: Seq<TokenSituado>, i: int, ps: Seq<int>, xs: Seq<ArvoreInstr>)
    requires
        0 <= i < ts.len(),
        ts[i].token is ChaveEsq,
        seguidas(ts, ps, xs),
        ps[0] == sintaxe::sem_terminadores(ts, i + 1),
        sintaxe::tok(ts, ps.last()) is ChaveDir,
    ensures
        sintaxe::bloco_em(ts, i) == lida(xs, ps.last() + 1),
{
    lema_instrs(ts, ps, xs, 0, Seq::empty());
    assert(Seq::<ArvoreInstr>::empty() + xs.skip(0) =~= xs);
}

/// Um programa tem as instrucoes que estao ate o fim dos tokens, pela ordem.
pub proof fn lei_programa(ts: Seq<TokenSituado>, ps: Seq<int>, xs: Seq<ArvoreInstr>)
    requires
        seguidas(ts, ps, xs),
        ps[0] == sintaxe::sem_quebras(ts, 0),
        sintaxe::tok(ts, ps.last()) is FimDeArquivo,
    ensures
        sintaxe::programa(ts) == Ok::<Seq<ArvoreInstr>, sintaxe::Falha>(xs),
{
    reveal(sintaxe::programa_desde);
    lema_instrs(ts, ps, xs, 0, Seq::empty());
    assert(Seq::<ArvoreInstr>::empty() + xs.skip(0) =~= xs);
}

/// `se c { A }` tem a condicao `c` e o bloco `A`; com `senao { B }` depois dele tem tambem o bloco `B`, e
/// com `senao se ...` o bloco que so tem o outro `se`.
pub proof fn lei_se(
    ts: Seq<TokenSituado>,
    i: int,
    c: ArvoreExpr,
    j: int,
    entao: Seq<ArvoreInstr>,
    k: int,
    senao: Seq<ArvoreInstr>,
    outro: ArvoreInstr,
    f: int,
)
    requires
        0 <= i < j <= ts.len(),
        sintaxe::expr_em(ts, i) == lida(c, j),
        sintaxe::bloco_em(ts, sintaxe::sem_quebras(ts, j)) == lida(entao, k),
        i < k <= ts.len(),
    ensures
        ({
            let m = sintaxe::sem_terminadores(ts, k);
            let n = sintaxe::sem_quebras(ts, m + 1);
            &&& !(sintaxe::tok(ts, m) is Senao) ==> sintaxe::se_em(ts, i) == lida(
                ArvoreInstr::Se { condicao: c, entao, senao: None },
                m,
            )
            &&& sintaxe::tok(ts, m) is Senao && sintaxe::tok(ts, n) is Se && sintaxe::se_em(ts, n + 1) == lida(outro, f)
                ==> sintaxe::se_em(ts, i) == lida(ArvoreInstr::Se { condicao: c, entao, senao: Some(seq![outro]) }, f)
            &&& sintaxe::tok(ts, m) is Senao && !(sintaxe::tok(ts, n) is Se) && sintaxe::bloco_em(ts, n) == lida(senao, f)
                ==> sintaxe::se_em(ts, i) == lida(ArvoreInstr::Se { condicao: c, entao, senao: Some(senao) }, f)
        }),
        i > 0 && sintaxe::tok(ts, i - 1) is Se ==> sintaxe::instr_nua(ts, i - 1) == sintaxe::se_em(ts, i),
{
    assert(sintaxe::guardado_em(ts, i) == lida((c, entao), k));
}

/// `enquanto c { corpo }` tem a condicao `c` e o corpo; `para v em e { corpo }` tem a variavel, o que se
/// percorre e o corpo.
pub proof fn lei_lacos(
    ts: Seq<TokenSituado>,
    i: int,
    c: ArvoreExpr,
    j: int,
    corpo: Seq<ArvoreInstr>,
    k: int,
    v: Seq<char>,
)
    requires
        3 <= i < j <= ts.len(),
        sintaxe::expr_em(ts, i) == lida(c, j),
        sintaxe::bloco_em(ts, sintaxe::sem_quebras(ts, j)) == lida(corpo, k),
    ensures
        ts[i - 1].token is Enquanto ==> sintaxe::instr_nua(ts, i - 1) == lida(
            ArvoreInstr::Enquanto { condicao: c, corpo },
            k,
        ),
        ts[i - 3].token is Para && ts[i - 2].token == TokenDe::Identificador(v) && ts[i - 1].token is Em
            ==> sintaxe::instr_nua(ts, i - 3) == lida(ArvoreInstr::Para { variavel: v, iteravel: c, corpo }, k),
{
    assert(sintaxe::guardado_em(ts, i) == lida((c, corpo), k));
    if ts[i - 1].token is Enquanto {
        assert(sintaxe::enquanto_em(ts, i) == lida(ArvoreInstr::Enquanto { condicao: c, corpo }, k));
    }
    if ts[i - 3].token is Para && ts[i - 2].token == TokenDe::Identificador(v) && ts[i - 1].token is Em {
        assert(sintaxe::para_em(ts, i - 2) == lida(ArvoreInstr::Para { variavel: v, iteravel: c, corpo }, k));
    }
}

/// `para v de a ate b passo c { corpo }` tem a variavel, o inicio `a`, o fim `b`, o passo `c` e o corpo;
/// sem `passo`, nao tem passo.
pub proof fn lei_intervalo(
    ts: Seq<TokenSituado>,
    i: int,
    v: Seq<char>,
    a: ArvoreExpr,
    j: int,
    b: ArvoreExpr,
    m: int,
    c: ArvoreExpr,
    n: int,
    corpo: Seq<ArvoreInstr>,
    f: int,
)
    requires
        0 <= i,
        i + 3 < j < ts.len(),
        ts[i].token is Para,
        ts[i + 1].token == TokenDe::Identificador(v),
        ts[i + 2].token is De,
        sintaxe::expr_em(ts, i + 3) == lida(a, j),
        ts[j].token is Ate,
        j + 1 < m < ts.len(),
        sintaxe::expr_em(ts, j + 1) == lida(b, m),
    ensures
        ts[m].token is Passo && sintaxe::expr_em(ts, m + 1) == lida(c, n) && m + 1 < n <= ts.len() && sintaxe::bloco_em(
            ts,
            sintaxe::sem_quebras(ts, n),
        ) == lida(corpo, f) ==> sintaxe::instr_nua(ts, i) == lida(
            ArvoreInstr::ParaIntervalo { variavel: v, inicio: a, fim: b, passo: Some(c), corpo },
            f,
        ),
        !(ts[m].token is Passo) && sintaxe::bloco_em(ts, sintaxe::sem_quebras(ts, m)) == lida(corpo, f)
            ==> sintaxe::instr_nua(ts, i) == lida(
            ArvoreInstr::ParaIntervalo { variavel: v, inicio: a, fim: b, passo: None, corpo },
            f,
        ),
{
    let p: TokenDe<Seq<char>> = TokenDe::Passo;
    if ts[m].token is Passo && sintaxe::expr_em(ts, m + 1) == lida(c, n) && m + 1 < n <= ts.len() && sintaxe::bloco_em(
        ts,
        sintaxe::sem_quebras(ts, n),
    ) == lida(corpo, f) {
        assert(sintaxe::opcional_em(ts, m, p) == lida(Some(c), n));
        let x = ArvoreInstr::ParaIntervalo { variavel: v, inicio: a, fim: b, passo: Some(c), corpo };
        assert(sintaxe::intervalo_em(ts, i + 3, v) == lida(x, f));
        assert(sintaxe::para_em(ts, i + 1) == lida(x, f));
    }
    if !(ts[m].token is Passo) && sintaxe::bloco_em(ts, sintaxe::sem_quebras(ts, m)) == lida(corpo, f) {
        assert(sintaxe::opcional_em(ts, m, p) == lida(None::<ArvoreExpr>, m));
        let x = ArvoreInstr::ParaIntervalo { variavel: v, inicio: a, fim: b, passo: None, corpo };
        assert(sintaxe::intervalo_em(ts, i + 3, v) == lida(x, f));
        assert(sintaxe::para_em(ts, i + 1) == lida(x, f));
    }
}

/// `var nome = e`, `retornar e`, `lancar e` e uma expressao sozinha tem a expressao `e`; `var nome` e
/// `retornar` sem expressao nao tem nenhuma; `pare` e `continue` sao so eles.
pub proof fn lei_simples(ts: Seq<TokenSituado>, i: int, nome: Seq<char>, e: ArvoreExpr, j: int)
    requires
        0 <= i,
        i + 3 < ts.len(),
    ensures
        ts[i].token is Var && ts[i + 1].token == TokenDe::Identificador(nome) && ts[i + 2].token is Atribuicao
            && sintaxe::expr_em(ts, i + 3) == lida(e, j) ==> sintaxe::instr_nua(ts, i) == lida(
            ArvoreInstr::DeclararVar { nome, valor: Some(e) },
            j,
        ),
        ts[i].token is Var && ts[i + 1].token == TokenDe::Identificador(nome) && !(ts[i + 2].token is Atribuicao)
            ==> sintaxe::instr_nua(ts, i) == lida(ArvoreInstr::DeclararVar { nome, valor: None }, i + 2),
        ts[i].token is Retornar && sintaxe::expr_em(ts, i + 1) == lida(e, j) ==> sintaxe::instr_nua(ts, i) == lida(
            ArvoreInstr::Retornar(Some(e)),
            j,
        ),
        ts[i].token is Retornar && (ts[i + 1].token is NovaLinha || ts[i + 1].token is PontoEVirgula
            || ts[i + 1].token is ChaveDir) ==> sintaxe::instr_nua(ts, i) == lida(ArvoreInstr::Retornar(None), i + 1),
        ts[i].token is Lancar && sintaxe::expr_em(ts, i + 1) == lida(e, j) ==> sintaxe::instr_nua(ts, i) == lida(
            ArvoreInstr::Lancar(e),
            j,
        ),
        ts[i].token is Pare ==> sintaxe::instr_nua(ts, i) == lida(ArvoreInstr::Pare, i + 1),
        ts[i].token is Continue ==> sintaxe::instr_nua(ts, i) == lida(ArvoreInstr::Continue, i + 1),
        (ts[i].token is Identificador || ts[i].token is ParenEsq) && sintaxe::expr_em(ts, i) == lida(e, j)
            ==> sintaxe::instr_nua(ts, i) == lida(ArvoreInstr::Expressao(e), j),
{
    let p: TokenDe<Seq<char>> = TokenDe::Atribuicao;
    if ts[i].token is Var && ts[i + 1].token == TokenDe::Identificador(nome) {
        if ts[i + 2].token is Atribuicao && sintaxe::expr_em(ts, i + 3) == lida(e, j) {
            assert(sintaxe::opcional_em(ts, i + 2, p) == lida(Some(e), j));
            assert(sintaxe::var_em(ts, i + 1) == lida(ArvoreInstr::DeclararVar { nome, valor: Some(e) }, j));
        }
        if !(ts[i + 2].token is Atribuicao) {
            assert(sintaxe::opcional_em(ts, i + 2, p) == lida(None::<ArvoreExpr>, i + 2));
            assert(sintaxe::var_em(ts, i + 1) == lida(ArvoreInstr::DeclararVar { nome, valor: None }, i + 2));
        }
    }
    if ts[i].token is Retornar {
        if sintaxe::expr_em(ts, i + 1) == lida(e, j) {
            lema_nao_fecha(ts, i + 1, e, j);
            assert(sintaxe::retornar_em(ts, i + 1) == lida(ArvoreInstr::Retornar(Some(e)), j));
        } else if ts[i + 1].token is NovaLinha || ts[i + 1].token is PontoEVirgula || ts[i + 1].token is ChaveDir {
            assert(sintaxe::retornar_em(ts, i + 1) == lida(ArvoreInstr::Retornar(None), i + 1));
        }
    }
}

/// `tentar { corpo } capturar (nome) { captura }` tem o corpo, o nome do erro e o bloco dele; com
/// `finalmente { fim }` depois, tem tambem esse bloco.
pub proof fn lei_tentar(
    ts: Seq<TokenSituado>,
    i: int,
    corpo: Seq<ArvoreInstr>,
    j: int,
    m: int,
    nome: Seq<char>,
    captura: Seq<ArvoreInstr>,
    k: int,
    n: int,
    fim: Seq<ArvoreInstr>,
    f: int,
)
    requires
        0 <= i < j <= ts.len(),
        ts[i].token is Tentar,
        sintaxe::bloco_em(ts, sintaxe::sem_quebras(ts, i + 1)) == lida(corpo, j),
        i + 1 < j,
        m == sintaxe::sem_terminadores(ts, j),
        sintaxe::tok(ts, m) is Capturar,
        sintaxe::tok(ts, m + 1) is ParenEsq,
        sintaxe::tok(ts, m + 2) == TokenDe::Identificador(nome),
        sintaxe::tok(ts, m + 3) is ParenDir,
        sintaxe::bloco_em(ts, sintaxe::sem_quebras(ts, m + 4)) == lida(captura, k),
        i + 1 < k <= ts.len(),
        n == sintaxe::sem_terminadores(ts, k),
        sintaxe::tok(ts, n) is Finalmente ==> sintaxe::bloco_em(ts, sintaxe::sem_quebras(ts, n + 1)) == lida(fim, f),
    ensures
        sintaxe::instr_nua(ts, i) == if sintaxe::tok(ts, n) is Finalmente {
            lida(ArvoreInstr::Tentar { corpo, capturar: Some((nome, captura)), finalmente: Some(fim) }, f)
        } else {
            lida(ArvoreInstr::Tentar { corpo, capturar: Some((nome, captura)), finalmente: None }, n)
        },
{
    let c = Some((nome, captura));
    assert(sintaxe::capturar_em(ts, m) == lida(c, k)) by {
        assert(sintaxe::exigido(ts, m + 1, Simbolo::ParenEsq) == Ok::<int, sintaxe::Falha>(m + 2));
        assert(sintaxe::nome_em(ts, m + 2) == lida(nome, m + 3));
        assert(sintaxe::exigido(ts, m + 3, Simbolo::ParenDir) == Ok::<int, sintaxe::Falha>(m + 4));
    }
    if sintaxe::tok(ts, n) is Finalmente {
        lema_tentar(ts, i + 1, corpo, j, c, k, Some(fim), f);
    } else {
        lema_tentar(ts, i + 1, corpo, j, c, k, None, n);
    }
}

/// Um `tentar` sem `capturar` tem so o corpo e o bloco de `finalmente`.
pub proof fn lei_tentar_finalmente(
    ts: Seq<TokenSituado>,
    i: int,
    corpo: Seq<ArvoreInstr>,
    j: int,
    m: int,
    fim: Seq<ArvoreInstr>,
    f: int,
)
    requires
        0 <= i < j <= ts.len(),
        ts[i].token is Tentar,
        sintaxe::bloco_em(ts, sintaxe::sem_quebras(ts, i + 1)) == lida(corpo, j),
        i + 1 < j,
        m == sintaxe::sem_terminadores(ts, j),
        sintaxe::tok(ts, m) is Finalmente,
        sintaxe::bloco_em(ts, sintaxe::sem_quebras(ts, m + 1)) == lida(fim, f),
    ensures
        sintaxe::instr_nua(ts, i) == lida(ArvoreInstr::Tentar { corpo, capturar: None, finalmente: Some(fim) }, f),
{
    lei_separadores(ts, j);
    assert(sintaxe::capturar_em(ts, m) == lida(None::<(Seq<char>, Seq<ArvoreInstr>)>, m));
    assert(sintaxe::sem_terminadores(ts, m) == m);
    lema_tentar(ts, i + 1, corpo, j, None, m, Some(fim), f);
}

proof fn lema_tentar(
    ts: Seq<TokenSituado>,
    i: int,
    corpo: Seq<ArvoreInstr>,
    j: int,
    c: Option<(Seq<char>, Seq<ArvoreInstr>)>,
    k: int,
    fim: Option<Seq<ArvoreInstr>>,
    f: int,
)
    requires
        0 < i < j <= ts.len(),
        ts[i - 1].token is Tentar,
        sintaxe::bloco_em(ts, sintaxe::sem_quebras(ts, i)) == lida(corpo, j),
        sintaxe::capturar_em(ts, sintaxe::sem_terminadores(ts, j)) == lida(c, k),
        i < k <= ts.len(),
        ({
            let n = sintaxe::sem_terminadores(ts, k);
            match fim {
                Some(b) => sintaxe::tok(ts, n) is Finalmente && sintaxe::bloco_em(ts, sintaxe::sem_quebras(ts, n + 1))
                    == lida(b, f),
                None => !(sintaxe::tok(ts, n) is Finalmente) && f == n,
            }
        }),
    ensures
        sintaxe::instr_nua(ts, i - 1) == lida(ArvoreInstr::Tentar { corpo, capturar: c, finalmente: fim }, f),
{
    let n = sintaxe::sem_terminadores(ts, k);
    assert(sintaxe::finalmente_em(ts, n) == lida(fim, f));
    assert(sintaxe::tentar_em(ts, i) == lida(ArvoreInstr::Tentar { corpo, capturar: c, finalmente: fim }, f));
}

/// Os nomes separados por virgulas entre `i` e o parentese em `i + 2 * n - 1`, sem padroes.
pub open spec fn nomes_em(ts: Seq<TokenSituado>, i: int, ns: Seq<Seq<char>>) -> bool {
    &&& ns.len() > 0
    &&& 0 <= i
    &&& i + 2 * ns.len() <= ts.len()
    &&& forall|k: int| 0 <= k < ns.len() ==> sintaxe::tok(ts, i + 2 * k) == TokenDe::Identificador(#[trigger] ns[k])
    &&& forall|k: int| 0 <= k < ns.len() - 1 ==> (#[trigger] sintaxe::tok(ts, i + 2 * k + 1)) is Virgula
    &&& sintaxe::tok(ts, i + 2 * ns.len() - 1) is ParenDir
}

/// Um parametro so com nome.
pub open spec fn so_nome(n: Seq<char>) -> ArvoreParam {
    ArvoreParam { nome: n, padrao: None, variadic: false }
}

proof fn lema_params(ts: Seq<TokenSituado>, i: int, ns: Seq<Seq<char>>, k: int, acc: Seq<ArvoreParam>)
    requires
        nomes_em(ts, i, ns),
        0 <= k <= ns.len(),
        acc == ns.take(k).map_values(|n: Seq<char>| so_nome(n)),
    ensures
        sintaxe::params_em(
            ts,
            if k < ns.len() {
                i + 2 * k
            } else {
                i + 2 * ns.len() - 1
            },
            acc,
            false,
        ) == lida(ns.map_values(|n: Seq<char>| so_nome(n)), i + 2 * ns.len() - 1),
    decreases ns.len() - k,
{
    let p: TokenDe<Seq<char>> = TokenDe::Atribuicao;
    if k < ns.len() {
        let a = i + 2 * k;
        assert(sintaxe::tok(ts, a) == TokenDe::Identificador(ns[k]));
        assert(sintaxe::nome_em(ts, a) == lida(ns[k], a + 1));
        if k < ns.len() - 1 {
            assert(sintaxe::tok(ts, i + 2 * k + 1) is Virgula);
        }
        assert(sintaxe::opcional_em(ts, a + 1, p) == lida(None::<ArvoreExpr>, a + 1));
        let b = acc.push(so_nome(ns[k]));
        assert(b =~= ns.take(k + 1).map_values(|n: Seq<char>| so_nome(n)));
        lema_params(ts, i, ns, k + 1, b);
    } else {
        assert(ns.take(k) =~= ns);
    }
}

proof fn lema_assinatura(ts: Seq<TokenSituado>, i: int, ns: Seq<Seq<char>>, corpo: Seq<ArvoreInstr>, f: int)
    requires
        0 < i < ts.len(),
        ts[i].token is ParenEsq,
        nomes_em(ts, i + 1, ns),
        sintaxe::bloco_em(ts, sintaxe::sem_quebras(ts, i + 1 + 2 * ns.len())) == lida(corpo, f),
    ensures
        sintaxe::assinatura_em(ts, i) == lida((ns.map_values(|n: Seq<char>| so_nome(n)), corpo), f),
{
    let ps = ns.map_values(|n: Seq<char>| so_nome(n));
    let k = i + 1 + 2 * ns.len() - 1;
    assert(sintaxe::params_em(ts, i + 1, Seq::empty(), false) == lida(ps, k)) by {
        assert(ns.take(0).map_values(|n: Seq<char>| so_nome(n)) =~= Seq::empty());
        lema_params(ts, i + 1, ns, 0, Seq::empty());
    }
    assert(sintaxe::exigido(ts, i, Simbolo::ParenEsq) == Ok::<int, sintaxe::Falha>(i + 1));
    assert(sintaxe::exigido(ts, k, Simbolo::ParenDir) == Ok::<int, sintaxe::Falha>(k + 1));
}

/// `funcao nome(a, b, ...) { corpo }` tem o nome, os parametros pela ordem e o corpo; sem nome, e a
/// expressao com os mesmos parametros e corpo.
pub proof fn lei_funcao(
    ts: Seq<TokenSituado>,
    i: int,
    nome: Seq<char>,
    ns: Seq<Seq<char>>,
    corpo: Seq<ArvoreInstr>,
    f: int,
)
    requires
        0 < i < ts.len(),
        ts[i].token is ParenEsq,
        nomes_em(ts, i + 1, ns),
        sintaxe::bloco_em(ts, sintaxe::sem_quebras(ts, i + 1 + 2 * ns.len())) == lida(corpo, f),
    ensures
        i > 1 && ts[i - 2].token is Funcao && ts[i - 1].token == TokenDe::Identificador(nome) ==> sintaxe::instr_nua(ts, i - 2)
            == lida(
            ArvoreInstr::Funcao { nome, parametros: ns.map_values(|n: Seq<char>| so_nome(n)), corpo },
            f,
        ),
        ts[i - 1].token is Funcao ==> sintaxe::primario_em(ts, i - 1) == lida(
            ArvoreExpr::FuncaoAnonima { parametros: ns.map_values(|n: Seq<char>| so_nome(n)), corpo },
            f,
        ),
{
    let ps = ns.map_values(|n: Seq<char>| so_nome(n));
    lema_assinatura(ts, i, ns, corpo, f);
    if i > 1 && ts[i - 2].token is Funcao && ts[i - 1].token == TokenDe::Identificador(nome) {
        assert(sintaxe::funcao_em(ts, i - 1) == lida(ArvoreInstr::Funcao { nome, parametros: ps, corpo }, f));
    }
}

/// Um `escolher` junta, pela ordem, cada `caso` com os seus valores e o seu bloco, e guarda o bloco de
/// `padrao`.
pub proof fn lei_casos(
    ts: Seq<TokenSituado>,
    i: int,
    e: ArvoreExpr,
    casos: Seq<(Seq<ArvoreExpr>, Seq<ArvoreInstr>)>,
    padrao: Option<Seq<ArvoreInstr>>,
    v: ArvoreExpr,
    j: int,
    b: Seq<ArvoreInstr>,
    k: int,
)
    requires
        0 <= i < ts.len(),
    ensures
        ts[i].token is Caso && sintaxe::expr_em(ts, i + 1) == lida(v, j) && i + 1 < j < ts.len() && !(ts[j].token is Virgula)
            && sintaxe::bloco_em(ts, sintaxe::sem_quebras(ts, j)) == lida(b, k) && i < k <= ts.len() ==> sintaxe::casos_em(
            ts,
            i,
            e,
            casos,
            padrao,
        ) == sintaxe::casos_em(ts, sintaxe::sem_terminadores(ts, k), e, casos.push((seq![v], b)), padrao),
        ts[i].token is Padrao && sintaxe::bloco_em(ts, sintaxe::sem_quebras(ts, i + 1)) == lida(b, k) && i < k <= ts.len()
            ==> sintaxe::casos_em(ts, i, e, casos, padrao) == sintaxe::casos_em(
            ts,
            sintaxe::sem_terminadores(ts, k),
            e,
            casos,
            Some(b),
        ),
        ts[i].token is ChaveDir ==> sintaxe::casos_em(ts, i, e, casos, padrao) == lida(
            ArvoreInstr::Escolher { expr: e, casos, padrao },
            i + 1,
        ),
        i > 0 && ts[i - 1].token is Escolher && sintaxe::expr_em(ts, i) == lida(e, j) && i < j < ts.len() && sintaxe::tok(
            ts,
            sintaxe::sem_quebras(ts, j),
        ) is ChaveEsq ==> sintaxe::instr_nua(ts, i - 1) == sintaxe::casos_em(
            ts,
            sintaxe::sem_terminadores(ts, sintaxe::sem_quebras(ts, j) + 1),
            e,
            Seq::empty(),
            None,
        ),
{
    if ts[i].token is Caso && sintaxe::expr_em(ts, i + 1) == lida(v, j) && i + 1 < j < ts.len() && !(ts[j].token is Virgula) {
        assert(sintaxe::valores_em(ts, i + 1, Seq::empty()) == lida(seq![v], j)) by {
            assert(Seq::<ArvoreExpr>::empty().push(v) =~= seq![v]);
        }
    }
    if i > 0 && ts[i - 1].token is Escolher && sintaxe::expr_em(ts, i) == lida(e, j) && i < j < ts.len() && sintaxe::tok(
        ts,
        sintaxe::sem_quebras(ts, j),
    ) is ChaveEsq {
        lei_separadores(ts, j);
        assert(sintaxe::instr_nua(ts, i - 1) == sintaxe::escolher_em(ts, i));
    }
}

} // verus!
