//! O codigo que cada parte de um programa da, e os saltos por remendar.

use vstd::prelude::*;
use crate::ast;
use crate::ast::{ArvoreExpr, ArvoreInstr, ArvoreParam, Expressao, Instrucao, OpBinario, OpUnario};
use crate::bytecode::Comando;
use crate::texto;

verus! {


/// O codigo de um trecho do programa; `None` quando nele ha um `continue` fora de laco.
pub type Codigo = Option<Seq<Comando>>;

/// Os nomes dos parametros.
pub open spec fn nomes(ps: Seq<ArvoreParam>) -> Seq<Seq<char>> {
    ps.map(|i: int, p: ArvoreParam| p.nome)
}

/// As chaves de um mapa.
pub open spec fn chaves(ps: Seq<(Seq<char>, ArvoreExpr)>) -> Seq<Seq<char>> {
    ps.map(|i: int, p: (Seq<char>, ArvoreExpr)| p.0)
}

/// A instrucao que executa a chamada da funcao de nome `nome` com `n` argumentos: uma das
/// instrucoes de tensor, ou a chamada pelo nome.
pub open spec fn comando_chamada(nome: Seq<char>, n: int) -> Comando {
    if nome == "tensor_matmul"@ && n == 2 {
        Comando::TensorMatMul
    } else if nome == "mat_mul"@ && n == 2 {
        Comando::TensorMatMul
    } else if nome == "tensor_transpor"@ && n == 1 {
        Comando::TensorTranspor
    } else if nome == "mat_transpor"@ && n == 1 {
        Comando::TensorTranspor
    } else if nome == "tensor_relu"@ && n == 1 {
        Comando::TensorReLU
    } else if nome == "tensor_sigmoid"@ && n == 1 {
        Comando::TensorSigmoid
    } else if nome == "tensor_softmax"@ && n == 1 {
        Comando::TensorSoftmax
    } else if nome == "tensor_tanh"@ && n == 1 {
        Comando::TensorTanh
    } else if nome == "tensor_add"@ && n == 2 {
        Comando::TensorAdd
    } else if nome == "tensor_soma"@ && n == 2 {
        Comando::TensorAdd
    } else if nome == "tensor_sub"@ && n == 2 {
        Comando::TensorSub
    } else if nome == "tensor_mul"@ && n == 2 {
        Comando::TensorMulElem
    } else if nome == "tensor_div"@ && n == 2 {
        Comando::TensorDivElem
    } else if nome == "tensor_potencia"@ && n == 2 {
        Comando::TensorPow
    } else if nome == "tensor_neg"@ && n == 1 {
        Comando::TensorNeg
    } else if nome == "tensor_exp"@ && n == 1 {
        Comando::TensorExp
    } else if nome == "tensor_log"@ && n == 1 {
        Comando::TensorLog
    } else if nome == "tensor_raiz"@ && n == 1 {
        Comando::TensorSqrt
    } else if nome == "tensor_soma_total"@ && n == 1 {
        Comando::TensorSomaTotal
    } else if nome == "tensor_media"@ && n == 1 {
        Comando::TensorMediaTotal
    } else if nome == "tensor_max"@ && n == 1 {
        Comando::TensorMaxTotal
    } else if nome == "tensor_min"@ && n == 1 {
        Comando::TensorMinTotal
    } else if nome == "tensor_soma_eixo"@ && n == 2 {
        Comando::TensorSomaEixo
    } else if nome == "tensor_media_eixo"@ && n == 2 {
        Comando::TensorMediaEixo
    } else if nome == "tensor_max_eixo"@ && n == 2 {
        Comando::TensorMaxEixo
    } else if nome == "tensor_min_eixo"@ && n == 2 {
        Comando::TensorMinEixo
    } else if nome == "tensor_concatenar"@ && n == 2 {
        Comando::TensorConcatenar
    } else if nome == "tensor_empilhar"@ && n == 2 {
        Comando::TensorEmpilhar
    } else {
        Comando::CallNative(nome, n)
    }
}

/// A instrucao de um operador binario que avalia os dois lados.
pub open spec fn comando_binario(op: OpBinario) -> Comando {
    match op {
        OpBinario::Soma => Comando::Add,
        OpBinario::Subtracao => Comando::Sub,
        OpBinario::Multiplicacao => Comando::Mul,
        OpBinario::Divisao => Comando::Div,
        OpBinario::DivisaoInteira => Comando::IntDiv,
        OpBinario::Modulo => Comando::Mod,
        OpBinario::Igual => Comando::Eq,
        OpBinario::DiferenteDe => Comando::Ne,
        OpBinario::MenorQue => Comando::Lt,
        OpBinario::MaiorQue => Comando::Gt,
        OpBinario::MenorOuIgual => Comando::Le,
        OpBinario::MaiorOuIgual => Comando::Ge,
        OpBinario::Em => Comando::Em,
        OpBinario::NaoEm => Comando::NaoEm,
        OpBinario::E => Comando::And,
        OpBinario::Ou => Comando::Or,
    }
}

/// O codigo do corpo de uma funcao, que comeca no endereco zero e acaba por devolver nulo.
pub open spec fn codigo_corpo(corpo: Seq<ArvoreInstr>) -> Codigo
    decreases corpo, corpo.len() + 2,
{
    match codigo_todo(corpo, 0, None, 0) {
        Some(c) => Some(c.push(Comando::ReturnNull)),
        None => None,
    }
}

/// O codigo da expressao no endereco `b`. Ele deixa o valor dela no topo da pilha.
pub open spec fn codigo_expr(e: ArvoreExpr, b: int) -> Codigo
    decreases e, 0int,
{
    match e {
        ArvoreExpr::Inteiro(n) => Some(seq![Comando::PushInt(n)]),
        ArvoreExpr::Numero(t) => Some(seq![Comando::PushNum(t)]),
        ArvoreExpr::Texto(t) => Some(seq![Comando::PushStr(t)]),
        ArvoreExpr::Booleano(v) => Some(seq![Comando::PushBool(v)]),
        ArvoreExpr::Nulo => Some(seq![Comando::PushNull]),
        ArvoreExpr::FuncaoAnonima { parametros, corpo } => match codigo_corpo(corpo) {
            Some(c) => Some(
                seq![Comando::DefFunc { nome: Seq::empty(), params: nomes(parametros), corpo: c }],
            ),
            None => None,
        },
        ArvoreExpr::Lista(v) => match codigo_exprs(v, v.len() as int, b) {
            Some(c) => Some(c.push(Comando::MakeList(v.len() as int))),
            None => None,
        },
        ArvoreExpr::Mapa(ps) => match codigo_pares(ps, ps.len() as int, b) {
            Some(c) => Some(c.push(Comando::MakeMap(chaves(ps)))),
            None => None,
        },
        ArvoreExpr::Variavel(nome) => Some(seq![Comando::Load(nome)]),
        ArvoreExpr::Atribuicao { nome, valor } => match codigo_expr(*valor, b) {
            Some(c) => Some(c + seq![Comando::Dup, Comando::Store(nome)]),
            None => None,
        },
        ArvoreExpr::AtribuicaoIndexada { objeto, indice, valor } => match codigo_expr(*objeto, b) {
            Some(o) => match codigo_expr(*indice, b + o.len()) {
                Some(i) => match codigo_expr(*valor, b + o.len() + i.len()) {
                    Some(v) => Some(
                        o + i + v + match *objeto {
                            ArvoreExpr::Variavel(nome) => seq![
                                Comando::SetIndex,
                                Comando::Store(nome),
                            ],
                            _ => seq![Comando::SetIndex],
                        },
                    ),
                    None => None,
                },
                None => None,
            },
            None => None,
        },
        ArvoreExpr::UnOp { op, expr } => match codigo_expr(*expr, b) {
            Some(c) => Some(
                c.push(
                    match op {
                        OpUnario::Negativo => Comando::Neg,
                        OpUnario::Nao => Comando::Not,
                    },
                ),
            ),
            None => None,
        },
        ArvoreExpr::BinOp { esq, op, dir } => match codigo_expr(*esq, b) {
            Some(x) => match op {
                OpBinario::E | OpBinario::Ou => match codigo_expr(*dir, b + x.len() + 3) {
                    Some(y) => {
                        let fim = b + x.len() + 3 + y.len();
                        let salto = if op == OpBinario::E {
                            Comando::JumpFalse(fim)
                        } else {
                            Comando::JumpTrue(fim)
                        };
                        Some(x + seq![Comando::Dup, salto, Comando::Pop] + y)
                    },
                    None => None,
                },
                _ => match codigo_expr(*dir, b + x.len()) {
                    Some(y) => Some((x + y).push(comando_binario(op))),
                    None => None,
                },
            },
            None => None,
        },
        ArvoreExpr::ChamadaFuncao { nome, args } => match codigo_exprs(args, args.len() as int, b) {
            Some(c) => Some(c.push(comando_chamada(nome, args.len() as int))),
            None => None,
        },
        ArvoreExpr::Chamada { funcao, args } => match codigo_expr(*funcao, b) {
            Some(f) => match codigo_exprs(args, args.len() as int, b + f.len()) {
                Some(c) => Some((f + c).push(Comando::Call(args.len() as int))),
                None => None,
            },
            None => None,
        },
        ArvoreExpr::Acesso { objeto, indice } => match codigo_expr(*objeto, b) {
            Some(o) => match codigo_expr(*indice, b + o.len()) {
                Some(i) => Some((o + i).push(Comando::GetIndex)),
                None => None,
            },
            None => None,
        },
        ArvoreExpr::NullCoalescente { esq, dir } => match codigo_expr(*esq, b) {
            Some(x) => match codigo_expr(*dir, b + x.len() + 5) {
                Some(y) => Some(
                    x + seq![
                        Comando::Dup,
                        Comando::PushNull,
                        Comando::Eq,
                        Comando::JumpFalse(b + x.len() + 5 + y.len()),
                        Comando::Pop,
                    ] + y,
                ),
                None => None,
            },
            None => None,
        },
        ArvoreExpr::AcessoOpcional { objeto, chave } => match codigo_expr(*objeto, b) {
            Some(x) => Some(
                x + seq![
                    Comando::Dup,
                    Comando::PushNull,
                    Comando::Eq,
                    Comando::JumpFalse(b + x.len() + 5),
                    Comando::Jump(b + x.len() + 7),
                    Comando::PushStr(chave),
                    Comando::GetIndex,
                ],
            ),
            None => None,
        },
        ArvoreExpr::FuncaoSeta { parametros, corpo } => match codigo_expr(*corpo, 0) {
            Some(c) => Some(
                seq![
                    Comando::DefFunc {
                        nome: Seq::empty(),
                        params: parametros,
                        corpo: c.push(Comando::Return),
                    },
                ],
            ),
            None => None,
        },
    }
}

/// O codigo das primeiras `n` expressoes, uma depois da outra.
pub open spec fn codigo_exprs(v: Seq<ArvoreExpr>, n: int, b: int) -> Codigo
    decreases v, n,
{
    if n <= 0 || n > v.len() {
        Some(Seq::empty())
    } else {
        match codigo_exprs(v, n - 1, b) {
            Some(x) => match codigo_expr(v[n - 1], b + x.len()) {
                Some(y) => Some(x + y),
                None => None,
            },
            None => None,
        }
    }
}

/// O codigo dos valores dos primeiros `n` pares de um mapa.
pub open spec fn codigo_pares(v: Seq<(Seq<char>, ArvoreExpr)>, n: int, b: int) -> Codigo
    decreases v, n,
{
    if n <= 0 || n > v.len() {
        Some(Seq::empty())
    } else {
        match codigo_pares(v, n - 1, b) {
            Some(x) => match codigo_expr(v[n - 1].1, b + x.len()) {
                Some(y) => Some(x + y),
                None => None,
            },
            None => None,
        }
    }
}

/// O codigo das primeiras `n` instrucoes de um bloco no endereco `b`. `continue` salta para
/// `ini` e `pare` para `fim`.
pub open spec fn codigo_bloco(v: Seq<ArvoreInstr>, n: int, b: int, ini: Option<int>, fim: int) -> Codigo
    decreases v, n,
{
    if n <= 0 || n > v.len() {
        Some(Seq::empty())
    } else {
        match codigo_bloco(v, n - 1, b, ini, fim) {
            Some(x) => match codigo_instr(v[n - 1], b + x.len(), ini, fim) {
                Some(y) => Some(x + y),
                None => None,
            },
            None => None,
        }
    }
}

/// O codigo de um bloco inteiro.
pub open spec fn codigo_todo(v: Seq<ArvoreInstr>, b: int, ini: Option<int>, fim: int) -> Codigo
    decreases v, v.len() + 1,
{
    codigo_bloco(v, v.len() as int, b, ini, fim)
}

/// O codigo de um bloco que pode faltar.
pub open spec fn codigo_opcional(v: Option<Seq<ArvoreInstr>>, b: int, ini: Option<int>, fim: int) -> Codigo
    decreases v, 0int,
{
    match v {
        Some(x) => codigo_todo(x, b, ini, fim),
        None => Some(Seq::empty()),
    }
}

/// O codigo de uma instrucao no endereco `b`, dentro de um laco cujo `continue` salta para
/// `ini` e cujo `pare` salta para `fim`.
pub open spec fn codigo_instr(a: ArvoreInstr, b: int, ini: Option<int>, fim: int) -> Codigo
    decreases a, 3int,
{
    match a {
        ArvoreInstr::Localizada { instrucao, .. } => codigo_instr(*instrucao, b, ini, fim),
        ArvoreInstr::Pare => Some(seq![Comando::Jump(fim)]),
        ArvoreInstr::Expressao(e) => match codigo_expr(e, b) {
            Some(c) => Some(c.push(Comando::Pop)),
            None => None,
        },
        ArvoreInstr::DeclararVar { nome, valor } => match valor {
            Some(e) => match codigo_expr(e, b) {
                Some(c) => Some(c.push(Comando::Store(nome))),
                None => None,
            },
            None => Some(seq![Comando::PushNull, Comando::Store(nome)]),
        },
        ArvoreInstr::Imprimir(args) => match codigo_exprs(args, args.len() as int, b) {
            Some(c) => Some(c.push(Comando::Print(args.len() as int))),
            None => None,
        },
        ArvoreInstr::Funcao { nome, parametros, corpo } => match codigo_corpo(corpo) {
            Some(c) => Some(
                seq![
                    Comando::DefFunc { nome, params: nomes(parametros), corpo: c },
                    Comando::Store(nome),
                ],
            ),
            None => None,
        },
        ArvoreInstr::Retornar(e) => match e {
            Some(e) => match codigo_expr(e, b) {
                Some(c) => Some(c.push(Comando::Return)),
                None => None,
            },
            None => Some(seq![Comando::ReturnNull]),
        },
        ArvoreInstr::Continue => match ini {
            Some(i) => Some(seq![Comando::Jump(i)]),
            None => None,
        },
        ArvoreInstr::Lancar(e) => match codigo_expr(e, b) {
            Some(c) => Some(c.push(Comando::Throw)),
            None => None,
        },
        ArvoreInstr::Importar { caminho, alias } => Some(seq![Comando::Import { caminho, alias }]),
        ArvoreInstr::Incluir { caminho, obrigatorio } => Some(
            seq![Comando::Include { caminho, obrigatorio }],
        ),
        ArvoreInstr::Se { condicao, entao, senao } => match codigo_expr(condicao, b) {
            Some(c) => match codigo_todo(entao, b + c.len() + 1, ini, fim) {
                Some(t) => {
                    let alvo = b + c.len() + 1 + t.len();
                    match senao {
                        Some(s) => match codigo_todo(s, alvo + 1, ini, fim) {
                            Some(s) => Some(
                                c.push(Comando::JumpFalse(alvo + 1)) + t.push(
                                    Comando::Jump(alvo + 1 + s.len()),
                                ) + s,
                            ),
                            None => None,
                        },
                        None => Some(c.push(Comando::JumpFalse(alvo)) + t),
                    }
                },
                None => None,
            },
            None => None,
        },
        ArvoreInstr::Enquanto { condicao, corpo } => match codigo_expr(condicao, b) {
            Some(c) => codigo_laco(c, corpo, b),
            None => None,
        },
        ArvoreInstr::Para { variavel, iteravel, corpo } => match codigo_expr(iteravel, b) {
            Some(x) => {
                let itens = "__iter_"@ + texto::decimal(b as nat);
                let indice = "__idx_"@ + texto::decimal(b as nat);
                let inicio = b + x.len() + 3;
                codigo_percurso(
                    x + seq![
                        Comando::Store(itens),
                        Comando::PushNum("0.0"@),
                        Comando::Store(indice),
                        Comando::Load(itens),
                        Comando::CallNative("tamanho"@, 1),
                        Comando::Load(indice),
                        Comando::Le,
                    ],
                    seq![
                        Comando::Load(itens),
                        Comando::Load(indice),
                        Comando::GetIndex,
                        Comando::Store(variavel),
                    ],
                    corpo,
                    inicio,
                    seq![
                        Comando::Load(indice),
                        Comando::PushNum("1.0"@),
                        Comando::Add,
                        Comando::Store(indice),
                        Comando::Jump(inicio),
                    ],
                )
            },
            None => None,
        },
        ArvoreInstr::ParaIntervalo { variavel, inicio, fim: ate, passo, corpo } => match codigo_expr(inicio, b) {
            Some(i) => match codigo_expr(ate, b + i.len()) {
                Some(f) => match passo {
                    Some(p) => match codigo_expr(p, b + i.len() + f.len()) {
                        Some(p) => codigo_contagem(
                            i + f + p,
                            variavel,
                            corpo,
                            b + i.len() + f.len() + p.len(),
                        ),
                        None => None,
                    },
                    None => codigo_contagem(
                        (i + f).push(Comando::PushNum("1.0"@)),
                        variavel,
                        corpo,
                        b + i.len() + f.len() + 1,
                    ),
                },
                None => None,
            },
            None => None,
        },
        ArvoreInstr::Escolher { expr, casos, padrao } => match codigo_expr(expr, b) {
            Some(x) => {
                let guardado = "__sw_"@ + texto::decimal(b as nat);
                let c = b + x.len() + 1;
                match codigo_casos(casos, casos.len() as int, guardado, c, ini, fim, 0) {
                    Some(y) => match codigo_opcional(padrao, c + y.len(), ini, fim) {
                        Some(p) => match codigo_casos(
                            casos,
                            casos.len() as int,
                            guardado,
                            c,
                            ini,
                            fim,
                            c + y.len() + p.len(),
                        ) {
                            Some(y) => Some(x.push(Comando::Store(guardado)) + y + p),
                            None => None,
                        },
                        None => None,
                    },
                    None => None,
                }
            },
            None => None,
        },
        ArvoreInstr::Tentar { corpo, capturar, finalmente } => match codigo_todo(
            corpo,
            b + 1,
            ini,
            fim,
        ) {
            Some(c) => {
                let captura = b + c.len() + 3;
                match codigo_captura(capturar, captura, ini, fim) {
                    Some(k) => match codigo_opcional(finalmente, captura + k.len(), ini, fim) {
                        Some(f) => Some(
                            seq![Comando::TryCatch(captura)] + c + seq![
                                Comando::EndTry,
                                Comando::Jump(captura + k.len()),
                            ] + k + f,
                        ),
                        None => None,
                    },
                    None => None,
                }
            },
            None => None,
        },
    }
}

/// O codigo de um `enquanto` em `ini`: a condicao, a saida, o corpo e a volta ao inicio.
pub open spec fn codigo_laco(cond: Seq<Comando>, corpo: Seq<ArvoreInstr>, ini: int) -> Codigo
    decreases corpo, corpo.len() + 2,
{
    let b = ini + cond.len() + 1;
    match codigo_todo(corpo, b, Some(ini), 0) {
        Some(x) => {
            let fim = b + x.len() + 1;
            match codigo_todo(corpo, b, Some(ini), fim) {
                Some(y) => Some(cond.push(Comando::JumpFalse(fim)) + y.push(Comando::Jump(ini))),
                None => None,
            }
        },
        None => None,
    }
}

/// O codigo de um `para ... em`: a preparacao e o teste, a saida, a leitura do item, o
/// corpo e o avanco. `continue` volta ao teste, em `inicio`.
pub open spec fn codigo_percurso(
    teste: Seq<Comando>,
    item: Seq<Comando>,
    corpo: Seq<ArvoreInstr>,
    inicio: int,
    volta: Seq<Comando>,
) -> Codigo
    decreases corpo, corpo.len() + 2,
{
    let b = inicio + 9;
    match codigo_todo(corpo, b, Some(inicio), 0) {
        Some(x) => {
            let fim = b + x.len() + volta.len();
            match codigo_todo(corpo, b, Some(inicio), fim) {
                Some(y) => Some(teste.push(Comando::JumpTrue(fim)) + item + y + volta),
                None => None,
            }
        },
        None => None,
    }
}

/// O codigo de um `para ... de` cujo contador comeca em `q`. `continue` salta para um desvio
/// que leva ao avanco do contador.
pub open spec fn codigo_contagem(
    limites: Seq<Comando>,
    variavel: Seq<char>,
    corpo: Seq<ArvoreInstr>,
    q: int,
) -> Codigo
    decreases corpo, corpo.len() + 2,
{
    match codigo_todo(corpo, q + 4, Some(q + 3), 0) {
        Some(x) => {
            let avanco = q + 4 + x.len();
            match codigo_todo(corpo, q + 4, Some(q + 3), avanco + 1) {
                Some(y) => Some(
                    limites + seq![
                        Comando::IterStart { var: variavel },
                        Comando::JumpFalse(avanco + 1),
                        Comando::Jump(q + 4),
                        Comando::Jump(avanco),
                    ] + y.push(Comando::IterNext { var: variavel, loop_ini: q + 4 }),
                ),
                None => None,
            }
        },
        None => None,
    }
}

/// O codigo dos primeiros `n` casos, em que cada um salta no fim para `depois`.
pub open spec fn codigo_casos(
    casos: Seq<(Seq<ArvoreExpr>, Seq<ArvoreInstr>)>,
    n: int,
    guardado: Seq<char>,
    b: int,
    ini: Option<int>,
    fim: int,
    depois: int,
) -> Codigo
    decreases casos, n,
{
    if n <= 0 || n > casos.len() {
        Some(Seq::empty())
    } else {
        match codigo_casos(casos, n - 1, guardado, b, ini, fim, depois) {
            Some(x) => match codigo_caso(
                casos[n - 1],
                guardado,
                b + x.len(),
                ini,
                fim,
                depois,
            ) {
                Some(y) => Some(x + y),
                None => None,
            },
            None => None,
        }
    }
}

/// O codigo de um caso: os testes dos valores, que saltam para o bloco, o desvio de quando
/// nenhum e igual, o bloco e o salto para `depois`.
pub open spec fn codigo_caso(
    caso: (Seq<ArvoreExpr>, Seq<ArvoreInstr>),
    guardado: Seq<char>,
    b: int,
    ini: Option<int>,
    fim: int,
    depois: int,
) -> Codigo
    decreases caso, 0int,
{
    let valores = caso.0;
    let bloco = caso.1;
    match codigo_testes(valores, valores.len() as int, guardado, b, 0) {
        Some(t) => {
            let inicio = b + t.len() + 1;
            match codigo_testes(valores, valores.len() as int, guardado, b, inicio) {
                Some(t) => match codigo_todo(bloco, inicio, ini, fim) {
                    Some(c) => Some(
                        t.push(Comando::Jump(inicio + c.len() + 1)) + c.push(Comando::Jump(depois)),
                    ),
                    None => None,
                },
                None => None,
            }
        },
        None => None,
    }
}

/// O codigo dos testes dos primeiros `n` valores de um caso, que saltam para `alvo`.
pub open spec fn codigo_testes(
    valores: Seq<ArvoreExpr>,
    n: int,
    guardado: Seq<char>,
    b: int,
    alvo: int,
) -> Codigo
    decreases valores, n,
{
    if n <= 0 || n > valores.len() {
        Some(Seq::empty())
    } else {
        match codigo_testes(valores, n - 1, guardado, b, alvo) {
            Some(x) => match codigo_expr(valores[n - 1], b + x.len() + 1) {
                Some(y) => Some(
                    x.push(Comando::Load(guardado)) + y + seq![Comando::Eq, Comando::JumpTrue(alvo)],
                ),
                None => None,
            },
            None => None,
        }
    }
}

/// O codigo de um `capturar` no endereco `b`; sem ele, o erro e descartado.
pub open spec fn codigo_captura(
    c: Option<(Seq<char>, Seq<ArvoreInstr>)>,
    b: int,
    ini: Option<int>,
    fim: int,
) -> Codigo
    decreases c, 0int,
{
    match c {
        Some((nome, bloco)) => match codigo_todo(bloco, b + 1, ini, fim) {
            Some(x) => Some(seq![Comando::Store(nome)] + x),
            None => None,
        },
        None => Some(seq![Comando::Pop]),
    }
}

/// O codigo de uma instrucao sem blocos.
pub open spec fn codigo_simples(a: ArvoreInstr, b: int, ini: Option<int>) -> Codigo
{
    match a {
        ArvoreInstr::Expressao(e) => match codigo_expr(e, b) {
            Some(c) => Some(c.push(Comando::Pop)),
            None => None,
        },
        ArvoreInstr::DeclararVar { nome, valor } => match valor {
            Some(e) => match codigo_expr(e, b) {
                Some(c) => Some(c.push(Comando::Store(nome))),
                None => None,
            },
            None => Some(seq![Comando::PushNull, Comando::Store(nome)]),
        },
        ArvoreInstr::Imprimir(args) => match codigo_exprs(args, args.len() as int, b) {
            Some(c) => Some(c.push(Comando::Print(args.len() as int))),
            None => None,
        },
        ArvoreInstr::Funcao { nome, parametros, corpo } => match codigo_corpo(corpo) {
            Some(c) => Some(
                seq![
                    Comando::DefFunc { nome, params: nomes(parametros), corpo: c },
                    Comando::Store(nome),
                ],
            ),
            None => None,
        },
        ArvoreInstr::Retornar(e) => match e {
            Some(e) => match codigo_expr(e, b) {
                Some(c) => Some(c.push(Comando::Return)),
                None => None,
            },
            None => Some(seq![Comando::ReturnNull]),
        },
        ArvoreInstr::Continue => match ini {
            Some(i) => Some(seq![Comando::Jump(i)]),
            None => None,
        },
        ArvoreInstr::Lancar(e) => match codigo_expr(e, b) {
            Some(c) => Some(c.push(Comando::Throw)),
            None => None,
        },
        ArvoreInstr::Importar { caminho, alias } => Some(seq![Comando::Import { caminho, alias }]),
        ArvoreInstr::Incluir { caminho, obrigatorio } => Some(
            seq![Comando::Include { caminho, obrigatorio }],
        ),
        _ => None,
    }
}

/// O codigo de um `se`.
pub open spec fn codigo_se(a: ArvoreInstr, b: int, ini: Option<int>, fim: int) -> Codigo
{
    match a {
        ArvoreInstr::Se { condicao, entao, senao } => match codigo_expr(condicao, b) {
            Some(c) => match codigo_todo(entao, b + c.len() + 1, ini, fim) {
                Some(t) => {
                    let alvo = b + c.len() + 1 + t.len();
                    match senao {
                        Some(s) => match codigo_todo(s, alvo + 1, ini, fim) {
                            Some(s) => Some(
                                c.push(Comando::JumpFalse(alvo + 1)) + t.push(
                                    Comando::Jump(alvo + 1 + s.len()),
                                ) + s,
                            ),
                            None => None,
                        },
                        None => Some(c.push(Comando::JumpFalse(alvo)) + t),
                    }
                },
                None => None,
            },
            None => None,
        },
        _ => None,
    }
}

/// O codigo de um `enquanto`.
pub open spec fn codigo_enquanto(a: ArvoreInstr, b: int) -> Codigo
{
    match a {
        ArvoreInstr::Enquanto { condicao, corpo } => match codigo_expr(condicao, b) {
            Some(c) => codigo_laco(c, corpo, b),
            None => None,
        },
        _ => None,
    }
}

/// O codigo de um `para ... em`: a lista e o indice ficam em variaveis internas, e
/// `continue` volta ao teste sem avancar o indice.
pub open spec fn codigo_para(a: ArvoreInstr, b: int) -> Codigo
{
    match a {
        ArvoreInstr::Para { variavel, iteravel, corpo } => match codigo_expr(iteravel, b) {
            Some(x) => {
                let itens = "__iter_"@ + texto::decimal(b as nat);
                let indice = "__idx_"@ + texto::decimal(b as nat);
                let inicio = b + x.len() + 3;
                codigo_percurso(
                    x + seq![
                        Comando::Store(itens),
                        Comando::PushNum("0.0"@),
                        Comando::Store(indice),
                        Comando::Load(itens),
                        Comando::CallNative("tamanho"@, 1),
                        Comando::Load(indice),
                        Comando::Le,
                    ],
                    seq![
                        Comando::Load(itens),
                        Comando::Load(indice),
                        Comando::GetIndex,
                        Comando::Store(variavel),
                    ],
                    corpo,
                    inicio,
                    seq![
                        Comando::Load(indice),
                        Comando::PushNum("1.0"@),
                        Comando::Add,
                        Comando::Store(indice),
                        Comando::Jump(inicio),
                    ],
                )
            },
            None => None,
        },
        _ => None,
    }
}

/// O codigo de um `para ... de`.
pub open spec fn codigo_intervalo(a: ArvoreInstr, b: int) -> Codigo
{
    match a {
        ArvoreInstr::ParaIntervalo { variavel, corpo, .. } => match codigo_limites(a, b) {
            Some(x) => codigo_contagem(x, variavel, corpo, b + x.len()),
            None => None,
        },
        _ => None,
    }
}

/// O codigo de um `escolher`, que guarda o valor numa variavel interna.
pub open spec fn codigo_escolher(a: ArvoreInstr, b: int, ini: Option<int>, fim: int) -> Codigo
{
    match a {
        ArvoreInstr::Escolher { expr, .. } => match codigo_expr(expr, b) {
            Some(x) => {
                let guardado = "__sw_"@ + texto::decimal(b as nat);
                match codigo_escolha(a, guardado, b + x.len() + 1, ini, fim) {
                    Some(y) => Some(x.push(Comando::Store(guardado)) + y),
                    None => None,
                }
            },
            None => None,
        },
        _ => None,
    }
}

/// O codigo de um `tentar`.
pub open spec fn codigo_tentar(a: ArvoreInstr, b: int, ini: Option<int>, fim: int) -> Codigo
{
    match a {
        ArvoreInstr::Tentar { corpo, capturar, finalmente } => match codigo_todo(
            corpo,
            b + 1,
            ini,
            fim,
        ) {
            Some(c) => {
                let captura = b + c.len() + 3;
                match codigo_captura(capturar, captura, ini, fim) {
                    Some(k) => match codigo_opcional(finalmente, captura + k.len(), ini, fim) {
                        Some(f) => Some(
                            seq![Comando::TryCatch(captura)] + c + seq![
                                Comando::EndTry,
                                Comando::Jump(captura + k.len()),
                            ] + k + f,
                        ),
                        None => None,
                    },
                    None => None,
                }
            },
            None => None,
        },
        _ => None,
    }
}

/// O codigo dos limites e do passo de um `para ... de`; sem passo, ele e um.
pub open spec fn codigo_limites(a: ArvoreInstr, b: int) -> Codigo
{
    match a {
        ArvoreInstr::ParaIntervalo { inicio, fim, passo, .. } => match codigo_expr(inicio, b) {
            Some(i) => match codigo_expr(fim, b + i.len()) {
                Some(f) => match passo {
                    Some(p) => match codigo_expr(p, b + i.len() + f.len()) {
                        Some(p) => Some(i + f + p),
                        None => None,
                    },
                    None => Some((i + f).push(Comando::PushNum("1.0"@))),
                },
                None => None,
            },
            None => None,
        },
        _ => None,
    }
}

/// O codigo dos casos de um `escolher`, que comecam em `b`. Cada caso salta, no fim, para
/// depois de todos.
pub open spec fn codigo_escolha(
    a: ArvoreInstr,
    guardado: Seq<char>,
    b: int,
    ini: Option<int>,
    fim: int,
) -> Codigo
{
    match a {
        ArvoreInstr::Escolher { casos, padrao, .. } => match codigo_casos(
            casos,
            casos.len() as int,
            guardado,
            b,
            ini,
            fim,
            0,
        ) {
            Some(x) => match codigo_opcional(padrao, b + x.len(), ini, fim) {
                Some(p) => match codigo_casos(
                    casos,
                    casos.len() as int,
                    guardado,
                    b,
                    ini,
                    fim,
                    b + x.len() + p.len(),
                ) {
                    Some(y) => Some(y + p),
                    None => None,
                },
                None => None,
            },
            None => None,
        },
        _ => None,
    }
}

/// O codigo de uma instrucao, pelo da parte de que ela e feita.
pub open spec fn codigo_partes(a: ArvoreInstr, b: int, ini: Option<int>, fim: int) -> Codigo {
    match a {
        ArvoreInstr::Localizada { instrucao, .. } => codigo_instr(*instrucao, b, ini, fim),
        ArvoreInstr::Se { .. } => codigo_se(a, b, ini, fim),
        ArvoreInstr::Enquanto { .. } => codigo_enquanto(a, b),
        ArvoreInstr::Para { .. } => codigo_para(a, b),
        ArvoreInstr::ParaIntervalo { .. } => codigo_intervalo(a, b),
        ArvoreInstr::Escolher { .. } => codigo_escolher(a, b, ini, fim),
        ArvoreInstr::Tentar { .. } => codigo_tentar(a, b, ini, fim),
        ArvoreInstr::Pare => Some(seq![Comando::Jump(fim)]),
        _ => codigo_simples(a, b, ini),
    }
}

// ---- Remendos ---------------------------------------------------------------------------

/// O salto com outro alvo; o que nao e salto fica como esta.
pub open spec fn com_alvo(c: Comando, alvo: int) -> Comando {
    match c {
        Comando::Jump(_) => Comando::Jump(alvo),
        Comando::JumpFalse(_) => Comando::JumpFalse(alvo),
        Comando::JumpTrue(_) => Comando::JumpTrue(alvo),
        Comando::TryCatch(_) => Comando::TryCatch(alvo),
        _ => c,
    }
}

/// A posicao `k` esta na lista.
pub open spec fn tem(qs: Seq<usize>, k: int) -> bool {
    exists|i: int| 0 <= i < qs.len() && qs[i] == k
}

/// O codigo com o alvo dos saltos das posicoes dadas trocado.
pub open spec fn remendo(s: Seq<Comando>, qs: Seq<usize>, alvo: int) -> Seq<Comando> {
    Seq::new(
        s.len(),
        |k: int|
            if tem(qs, k) {
                com_alvo(s[k], alvo)
            } else {
                s[k]
            },
    )
}

/// O trecho do codigo a partir de `b`, com os saltos das posicoes dadas levados a `fim`.
#[verifier::opaque]
pub open spec fn trecho(s: Seq<Comando>, qs: Seq<usize>, b: int, fim: int) -> Seq<Comando> {
    remendo(s, qs, fim).subrange(b, s.len() as int)
}

/// Todas as posicoes da lista sao anteriores a `n`.
pub open spec fn anteriores(qs: Seq<usize>, n: int) -> bool {
    forall|k: int| #[trigger] tem(qs, k) ==> 0 <= k < n
}

/// O codigo so cresceu, e as posicoes novas estao na parte nova.
pub open spec fn cresceu(
    antes: Seq<Comando>,
    depois: Seq<Comando>,
    q0: Seq<usize>,
    q1: Seq<usize>,
) -> bool {
    &&& antes.len() <= depois.len()
    &&& forall|k: int| 0 <= k < antes.len() ==> #[trigger] depois[k] == antes[k]
    &&& forall|k: int| #[trigger] tem(q0, k) ==> tem(q1, k)
    &&& forall|k: int| #[trigger] tem(q1, k) ==> tem(q0, k) || antes.len() <= k < depois.len()
}

/// O alvo de `continue`.
pub open spec fn inicio_de(ini: Option<usize>) -> Option<int> {
    match ini {
        Some(i) => Some(i as int),
        None => None,
    }
}

/// O que um bloco opcional representa.
pub open spec fn bloco_opcional(v: Option<Vec<Instrucao>>) -> Option<Seq<ArvoreInstr>> {
    match v {
        Some(b) => Some(ast::instrs(b@)),
        None => None,
    }
}

/// A mensagem do unico erro da compilacao.
pub open spec fn erro_continue() -> Seq<char> {
    "'continue' fora de um laco"@
}

/// A instrucao tem blocos que `pare` e `continue` alcancam, ou e um laco.
pub open spec fn com_bloco(a: Instrucao) -> bool {
    a is Localizada || a is Se || a is Escolher || a is Tentar || a is Pare || a is Enquanto
        || a is Para || a is ParaIntervalo
}

/// O codigo so cresceu, as posicoes novas estao na parte nova e nelas ha saltos por remendar.
#[verifier::opaque]
pub open spec fn emitiu(antes: Seq<Comando>, depois: Seq<Comando>, q0: Seq<usize>, q1: Seq<usize>) -> bool {
    &&& cresceu(antes, depois, q0, q1)
    &&& anteriores(q1, depois.len() as int)
    &&& forall|k: int| #[trigger] tem(q1, k) && k >= antes.len() ==> depois[k] == Comando::Jump(0)
}

/// O codigo com a condicao de um `se` e o salto que a segue.
pub open spec fn com_teste(c: Seq<Comando>, x: Seq<Comando>) -> Seq<Comando> {
    (c + x).push(Comando::JumpFalse(0))
}

/// O codigo com o primeiro bloco de um `se` compilado, pronto para o segundo.
pub open spec fn com_desvio(d1: Seq<Comando>, jf: int) -> Seq<Comando> {
    d1.push(Comando::Jump(0)).update(jf, Comando::JumpFalse((d1.len() + 1) as int))
}

/// O que um `capturar` representa.
pub open spec fn captura_de(c: Option<(String, Vec<Instrucao>)>) -> Option<(Seq<char>, Seq<ArvoreInstr>)> {
    match c {
        Some(p) => Some((p.0@, ast::instrs(p.1@))),
        None => None,
    }
}

/// O codigo de um `tentar` com o corpo compilado, pronto para o que recebe o erro.
pub open spec fn preparado(d1: Seq<Comando>, b: int) -> Seq<Comando> {
    d1.push(Comando::EndTry).push(Comando::Jump(0)).update(b, Comando::TryCatch((d1.len() + 2) as int))
}

/// O que um caso representa.
pub open spec fn caso_de(c: (Vec<Expressao>, Vec<Instrucao>)) -> (Seq<ArvoreExpr>, Seq<ArvoreInstr>) {
    (ast::exprs(c.0@), ast::instrs(c.1@))
}

/// Duas listas de posicoes sem nada em comum; a primeira esta toda entre `b` e `n`.
pub open spec fn separados(fs: Seq<usize>, qs: Seq<usize>, b: int, n: int) -> bool {
    forall|k: int| #[trigger] tem(fs, k) ==> b <= k < n && !tem(qs, k)
}

/// O codigo dos testes de um caso e do desvio que os segue, com os saltos remendados.
pub open spec fn testado(ct: Seq<Comando>, vai: Seq<usize>) -> Seq<Comando> {
    remendo(ct.push(Comando::Jump(0)), vai, (ct.len() + 1) as int)
}

/// A leitura do item de um `para ... em`.
pub open spec fn leitura(itens: Seq<char>, indice: Seq<char>, variavel: Seq<char>) -> Seq<Comando> {
    seq![
        Comando::Load(itens),
        Comando::Load(indice),
        Comando::GetIndex,
        Comando::Store(variavel),
    ]
}

/// O avanco do indice de um `para ... em` e a volta ao teste.
pub open spec fn avanco(indice: Seq<char>, inicio: int) -> Seq<Comando> {
    seq![
        Comando::Load(indice),
        Comando::PushNum("1.0"@),
        Comando::Add,
        Comando::Store(indice),
        Comando::Jump(inicio),
    ]
}

} // verus!
