//! A gramatica da linguagem: que arvore cada sequencia de tokens representa, ou por que
//! nao representa nenhuma.

use vstd::prelude::*;
use crate::ast::{ArvoreExpr, ArvoreInstr, ArvoreParam, OpBinario, OpUnario};
use crate::lexer;
use crate::lexer::ErroLexico;
use crate::token::{TokenDe, TokenSituado};

verus! {

/// Um sinal que a gramatica exige em certos lugares.
#[derive(Debug, Clone, Copy, PartialEq, Eq, Structural)]
pub enum Simbolo {
    ParenEsq,
    ParenDir,
    ChaveEsq,
    ChaveDir,
    ColcheteDir,
    Ate,
    DoisPontos,
    Seta,
}

/// Por que uma sequencia de tokens nao e um programa, com os textos representados por `T`.
#[derive(Debug)]
pub enum ErroSintaxeDe<T> {
    /// Uma expressao dentro de um texto nao se divide em tokens.
    Lexico(ErroLexico),
    /// Falta um sinal exigido.
    Esperava { linha: usize, esperado: Simbolo, encontrado: TokenDe<T> },
    /// Falta um nome.
    EsperavaNome { linha: usize, encontrado: TokenDe<T> },
    /// `para` sem `em` nem `de`.
    ParaSemFonte { linha: usize },
    /// Ha um parametro depois do variadico.
    VariadicoNaoUltimo { linha: usize },
    /// Em `escolher`, algo que nao e `caso` nem `padrao`.
    CasoInvalido { linha: usize, encontrado: TokenDe<T> },
    /// `importar` sem o caminho.
    ImportarSemTexto { linha: usize },
    /// `incluir` ou `requerer` sem o caminho.
    IncluirSemTexto { linha: usize },
    /// O lado esquerdo de um operador composto nao pode receber valor.
    CompostoInvalido { linha: usize },
    /// O lado esquerdo de `=` nao pode receber valor.
    AtribuicaoInvalida { linha: usize },
    /// A chave de um mapa nao e texto nem nome.
    ChaveInvalida { linha: usize, encontrado: TokenDe<T> },
    /// Um token que nao comeca expressao nenhuma.
    ExpressaoInesperada { linha: usize, encontrado: TokenDe<T> },
}

/// O erro que a analise sintatica devolve.
pub type ErroSintaxe = ErroSintaxeDe<String>;

impl ErroSintaxeDe<String> {
    pub open spec fn view(&self) -> ErroSintaxeDe<Seq<char>> {
        match self {
            ErroSintaxeDe::Lexico(e) => ErroSintaxeDe::Lexico(*e),
            ErroSintaxeDe::Esperava { linha, esperado, encontrado } => ErroSintaxeDe::Esperava {
                linha: *linha,
                esperado: *esperado,
                encontrado: encontrado@,
            },
            ErroSintaxeDe::EsperavaNome { linha, encontrado } => ErroSintaxeDe::EsperavaNome {
                linha: *linha,
                encontrado: encontrado@,
            },
            ErroSintaxeDe::ParaSemFonte { linha } => ErroSintaxeDe::ParaSemFonte { linha: *linha },
            ErroSintaxeDe::VariadicoNaoUltimo { linha } => ErroSintaxeDe::VariadicoNaoUltimo {
                linha: *linha,
            },
            ErroSintaxeDe::CasoInvalido { linha, encontrado } => ErroSintaxeDe::CasoInvalido {
                linha: *linha,
                encontrado: encontrado@,
            },
            ErroSintaxeDe::ImportarSemTexto { linha } => ErroSintaxeDe::ImportarSemTexto {
                linha: *linha,
            },
            ErroSintaxeDe::IncluirSemTexto { linha } => ErroSintaxeDe::IncluirSemTexto {
                linha: *linha,
            },
            ErroSintaxeDe::CompostoInvalido { linha } => ErroSintaxeDe::CompostoInvalido {
                linha: *linha,
            },
            ErroSintaxeDe::AtribuicaoInvalida { linha } => ErroSintaxeDe::AtribuicaoInvalida {
                linha: *linha,
            },
            ErroSintaxeDe::ChaveInvalida { linha, encontrado } => ErroSintaxeDe::ChaveInvalida {
                linha: *linha,
                encontrado: encontrado@,
            },
            ErroSintaxeDe::ExpressaoInesperada { linha, encontrado } => ErroSintaxeDe::ExpressaoInesperada {
                linha: *linha,
                encontrado: encontrado@,
            },
        }
    }
}

/// O erro com os textos como sequencias de caracteres.
pub type Falha = ErroSintaxeDe<Seq<char>>;

/// O que se leu a partir de uma posicao, com a posicao seguinte.
pub type Lido<T> = Result<(T, int), Falha>;

// ---- Tokens ---------------------------------------------------------------------------

/// O token da posicao `i`; depois do ultimo, `FimDeArquivo`.
pub open spec fn tok(ts: Seq<TokenSituado>, i: int) -> TokenDe<Seq<char>> {
    if 0 <= i < ts.len() {
        ts[i].token
    } else {
        TokenDe::FimDeArquivo
    }
}

/// A linha do token da posicao `i`.
pub open spec fn lin(ts: Seq<TokenSituado>, i: int) -> usize {
    ts[i].linha as usize
}

/// `j` vem depois de `i` e nao passa do fim.
pub open spec fn passou(ts: Seq<TokenSituado>, i: int, j: int) -> bool {
    i < j <= ts.len()
}

/// O comprimento do maior texto entre os tokens.
pub open spec fn maior_texto(ts: Seq<TokenSituado>) -> int
    decreases ts.len(),
{
    if ts.len() == 0 {
        0
    } else {
        let m = maior_texto(ts.drop_last());
        match ts.last().token {
            TokenDe::Texto(t) if t.len() > m => t.len() as int,
            _ => m,
        }
    }
}

/// A sequencia acaba em `FimDeArquivo` e os seus textos cabem na memoria.
pub open spec fn terminada(ts: Seq<TokenSituado>) -> bool {
    &&& ts.len() > 0
    &&& ts.last().token is FimDeArquivo
    &&& 4 * maior_texto(ts) < usize::MAX
}

pub proof fn lema_maior_texto(ts: Seq<TokenSituado>, i: int)
    requires
        0 <= i < ts.len(),
    ensures
        maior_texto(ts) >= 0,
        ts[i].token matches TokenDe::Texto(t) ==> t.len() <= maior_texto(ts),
    decreases ts.len(),
{
    if i < ts.len() - 1 {
        lema_maior_texto(ts.drop_last(), i);
        assert(ts.drop_last()[i] == ts[i]);
    } else {
        lema_maior_nao_negativo(ts.drop_last());
    }
}

pub proof fn lema_maior_nao_negativo(ts: Seq<TokenSituado>)
    ensures
        maior_texto(ts) >= 0,
    decreases ts.len(),
{
    if ts.len() > 0 {
        lema_maior_nao_negativo(ts.drop_last());
    }
}

/// Os textos dos tokens de um codigo sao mais curtos do que ele, e o ultimo token e
/// `FimDeArquivo`.
pub proof fn lema_textos_menores(s: Seq<char>, p: int, acc: Seq<TokenSituado>)
    requires
        0 <= p <= s.len(),
        maior_texto(acc) == 0 || maior_texto(acc) + 2 <= s.len(),
    ensures
        match lexer::tokens_em(s, p, acc) {
            Ok(ts) => {
                &&& ts.len() > acc.len()
                &&& ts.last().token is FimDeArquivo
                &&& maior_texto(ts) == 0 || maior_texto(ts) + 2 <= s.len()
            },
            Err(_) => true,
        },
    decreases s.len() - p,
{
    lexer::lema_fim_espacos(s, p);
    let i = lexer::fim_espacos(s, p);
    if i >= s.len() {
        let t = lexer::situado(s, TokenDe::FimDeArquivo, i);
        assert(acc.push(t).drop_last() == acc);
    } else if s[i] == '#' {
        crate::texto::lema_proximo(s, '\n', i);
        lema_textos_menores(s, crate::texto::proximo(s, '\n', i), acc);
    } else {
        lexer::lema_token_avanca(s, i);
        match lexer::token_em(s, i) {
            Ok((t, q)) => {
                let novo = acc.push(lexer::situado(s, t, i));
                assert(novo.drop_last() == acc);
                lema_textos_menores(s, q, novo);
            },
            Err(_) => {},
        }
    }
}

/// O sinal como token.
pub open spec fn token_do(s: Simbolo) -> TokenDe<Seq<char>> {
    match s {
        Simbolo::ParenEsq => TokenDe::ParenEsq,
        Simbolo::ParenDir => TokenDe::ParenDir,
        Simbolo::ChaveEsq => TokenDe::ChaveEsq,
        Simbolo::ChaveDir => TokenDe::ChaveDir,
        Simbolo::ColcheteDir => TokenDe::ColcheteDir,
        Simbolo::Ate => TokenDe::Ate,
        Simbolo::DoisPontos => TokenDe::DoisPontos,
        Simbolo::Seta => TokenDe::Seta,
    }
}

/// A posicao seguinte ao sinal exigido em `i`.
pub open spec fn exigido(ts: Seq<TokenSituado>, i: int, s: Simbolo) -> Result<int, Falha> {
    if tok(ts, i) == token_do(s) {
        Ok(i + 1)
    } else {
        Err(ErroSintaxeDe::Esperava { linha: lin(ts, i), esperado: s, encontrado: tok(ts, i) })
    }
}

/// O nome em `i`: um identificador, ou `e`, `ou` e `em`.
pub open spec fn nome_em(ts: Seq<TokenSituado>, i: int) -> Lido<Seq<char>> {
    match tok(ts, i) {
        TokenDe::Identificador(n) => Ok((n, i + 1)),
        TokenDe::E => Ok(("e"@, i + 1)),
        TokenDe::Ou => Ok(("ou"@, i + 1)),
        TokenDe::Em => Ok(("em"@, i + 1)),
        t => Err(ErroSintaxeDe::EsperavaNome { linha: lin(ts, i), encontrado: t }),
    }
}

/// A primeira posicao a partir de `i` que nao e quebra de linha.
pub open spec fn sem_quebras(ts: Seq<TokenSituado>, i: int) -> int
    decreases ts.len() - i,
{
    if tok(ts, i) is NovaLinha {
        sem_quebras(ts, i + 1)
    } else {
        i
    }
}

/// A primeira posicao a partir de `i` que nao e quebra de linha nem ponto e virgula.
pub open spec fn sem_terminadores(ts: Seq<TokenSituado>, i: int) -> int
    decreases ts.len() - i,
{
    if tok(ts, i) is NovaLinha || tok(ts, i) is PontoEVirgula {
        sem_terminadores(ts, i + 1)
    } else {
        i
    }
}

pub proof fn lema_saltos(ts: Seq<TokenSituado>, i: int)
    ensures
        i <= sem_quebras(ts, i),
        i <= sem_terminadores(ts, i),
        i <= ts.len() ==> sem_quebras(ts, i) <= ts.len() && sem_terminadores(ts, i) <= ts.len(),
    decreases ts.len() - i,
{
    if 0 <= i < ts.len() {
        lema_saltos(ts, i + 1);
    }
}

// ---- Programas e instrucoes -------------------------------------------------------------

/// O programa que os tokens representam.
pub open spec fn programa(ts: Seq<TokenSituado>) -> Result<Seq<ArvoreInstr>, Falha> {
    programa_desde(ts, 0)
}

/// O programa que vai de `i` ao fim.
#[verifier::opaque]
pub open spec fn programa_desde(ts: Seq<TokenSituado>, i: int) -> Result<Seq<ArvoreInstr>, Falha> {
    programa_em(ts, sem_quebras(ts, i), Seq::empty())
}

/// As instrucoes ate o fim do arquivo, depois das que ja estao em `acc`.
pub open spec fn programa_em(ts: Seq<TokenSituado>, i: int, acc: Seq<ArvoreInstr>) -> Result<
    Seq<ArvoreInstr>,
    Falha,
>
    decreases ts.len() - i,
{
    if tok(ts, i) is FimDeArquivo {
        Ok(acc)
    } else {
        match instr_em(ts, i) {
            Ok((a, j)) => {
                proof {
                    lema_saltos(ts, j);
                }
                if passou(ts, i, j) {
                    programa_em(ts, sem_terminadores(ts, j), acc.push(a))
                } else {
                    arbitrary()
                }
            },
            Err(e) => Err(e),
        }
    }
}

/// O bloco entre chaves que comeca em `i`.
pub open spec fn bloco_em(ts: Seq<TokenSituado>, i: int) -> Lido<Seq<ArvoreInstr>>
    decreases maior_texto(ts), ts.len() - i, 27int,
{
    match exigido(ts, i, Simbolo::ChaveEsq) {
        Ok(j) => {
            proof {
                lema_saltos(ts, j);
            }
            instrs_em(ts, sem_terminadores(ts, j), Seq::empty())
        },
        Err(e) => Err(e),
    }
}

/// As instrucoes de um bloco ate a chave que o fecha.
pub open spec fn instrs_em(ts: Seq<TokenSituado>, i: int, acc: Seq<ArvoreInstr>) -> Lido<
    Seq<ArvoreInstr>,
>
    decreases maior_texto(ts), ts.len() - i, 31int,
{
    if tok(ts, i) is ChaveDir || tok(ts, i) is FimDeArquivo {
        match exigido(ts, i, Simbolo::ChaveDir) {
            Ok(j) => Ok((acc, j)),
            Err(e) => Err(e),
        }
    } else {
        match instr_em(ts, i) {
            Ok((a, j)) => {
                proof {
                    lema_saltos(ts, j);
                }
                if passou(ts, i, j) {
                    instrs_em(ts, sem_terminadores(ts, j), acc.push(a))
                } else {
                    arbitrary()
                }
            },
            Err(e) => Err(e),
        }
    }
}

/// A instrucao que comeca em `i`, com a sua linha e o texto dela.
pub open spec fn instr_em(ts: Seq<TokenSituado>, i: int) -> Lido<ArvoreInstr>
    decreases maior_texto(ts), ts.len() - i, 30int,
{
    match instr_nua(ts, i) {
        Ok((a, j)) => Ok(
            (
                ArvoreInstr::Localizada {
                    linha: lin(ts, i),
                    contexto: ts[i].contexto,
                    instrucao: Box::new(a),
                },
                j,
            ),
        ),
        Err(e) => Err(e),
    }
}

/// A instrucao que comeca em `i`.
pub open spec fn instr_nua(ts: Seq<TokenSituado>, i: int) -> Lido<ArvoreInstr>
    decreases maior_texto(ts), ts.len() - i, 29int,
{
    match tok(ts, i) {
        TokenDe::Var => var_em(ts, i + 1),
        TokenDe::Se => se_em(ts, i + 1),
        TokenDe::Enquanto => enquanto_em(ts, i + 1),
        TokenDe::Para => para_em(ts, i + 1),
        TokenDe::Escolher => escolher_em(ts, i + 1),
        TokenDe::Funcao => funcao_em(ts, i + 1),
        TokenDe::Retornar => retornar_em(ts, i + 1),
        TokenDe::Imprimir => imprimir_em(ts, i + 1),
        TokenDe::Tentar => tentar_em(ts, i + 1),
        TokenDe::Lancar => match expr_em(ts, i + 1) {
            Ok((e, j)) => Ok((ArvoreInstr::Lancar(e), j)),
            Err(e) => Err(e),
        },
        TokenDe::Importar => importar_em(ts, i + 1),
        TokenDe::Incluir => incluir_em(ts, i + 1, false),
        TokenDe::Requerer => incluir_em(ts, i + 1, true),
        TokenDe::Pare => Ok((ArvoreInstr::Pare, i + 1)),
        TokenDe::Continue => Ok((ArvoreInstr::Continue, i + 1)),
        _ => match expr_em(ts, i) {
            Ok((e, j)) => Ok((ArvoreInstr::Expressao(e), j)),
            Err(e) => Err(e),
        },
    }
}

/// Uma expressao opcional: em `i` esta o token `t`, e depois dele a expressao.
pub open spec fn opcional_em(ts: Seq<TokenSituado>, i: int, t: TokenDe<Seq<char>>) -> Lido<
    Option<ArvoreExpr>,
>
    decreases maior_texto(ts), ts.len() - i, 28int,
{
    if tok(ts, i) == t && !(t is FimDeArquivo) {
        match expr_em(ts, i + 1) {
            Ok((e, j)) => Ok((Some(e), j)),
            Err(e) => Err(e),
        }
    } else {
        Ok((None, i))
    }
}

/// A declaracao cujo nome esta em `i`.
pub open spec fn var_em(ts: Seq<TokenSituado>, i: int) -> Lido<ArvoreInstr>
    decreases maior_texto(ts), ts.len() - i, 28int,
{
    match nome_em(ts, i) {
        Ok((nome, j)) => match opcional_em(ts, j, TokenDe::Atribuicao) {
            Ok((valor, k)) => Ok((ArvoreInstr::DeclararVar { nome, valor }, k)),
            Err(e) => Err(e),
        },
        Err(e) => Err(e),
    }
}

/// Uma condicao em `i` e o bloco depois dela.
pub open spec fn guardado_em(ts: Seq<TokenSituado>, i: int) -> Lido<(ArvoreExpr, Seq<ArvoreInstr>)>
    decreases maior_texto(ts), ts.len() - i, 28int,
{
    match expr_em(ts, i) {
        Ok((c, j)) => {
            proof {
                lema_saltos(ts, j);
            }
            if passou(ts, i, j) {
                match bloco_em(ts, sem_quebras(ts, j)) {
                    Ok((b, k)) => Ok(((c, b), k)),
                    Err(e) => Err(e),
                }
            } else {
                arbitrary()
            }
        },
        Err(e) => Err(e),
    }
}

/// O `se` cuja condicao esta em `i`.
pub open spec fn se_em(ts: Seq<TokenSituado>, i: int) -> Lido<ArvoreInstr>
    decreases maior_texto(ts), ts.len() - i, 29int,
{
    match guardado_em(ts, i) {
        Ok(((condicao, entao), k)) => {
            proof {
                lema_saltos(ts, k);
            }
            let m = sem_terminadores(ts, k);
            if tok(ts, m) is Senao {
                proof {
                    lema_saltos(ts, m + 1);
                }
                let n = sem_quebras(ts, m + 1);
                if !passou(ts, i, k) {
                    arbitrary()
                } else if tok(ts, n) is Se {
                    match se_em(ts, n + 1) {
                        Ok((a, f)) => Ok(
                            (ArvoreInstr::Se { condicao, entao, senao: Some(seq![a]) }, f),
                        ),
                        Err(e) => Err(e),
                    }
                } else {
                    match bloco_em(ts, n) {
                        Ok((b, f)) => Ok((ArvoreInstr::Se { condicao, entao, senao: Some(b) }, f)),
                        Err(e) => Err(e),
                    }
                }
            } else {
                Ok((ArvoreInstr::Se { condicao, entao, senao: None }, m))
            }
        },
        Err(e) => Err(e),
    }
}

/// O `enquanto` cuja condicao esta em `i`.
pub open spec fn enquanto_em(ts: Seq<TokenSituado>, i: int) -> Lido<ArvoreInstr>
    decreases maior_texto(ts), ts.len() - i, 29int,
{
    match guardado_em(ts, i) {
        Ok(((condicao, corpo), k)) => Ok((ArvoreInstr::Enquanto { condicao, corpo }, k)),
        Err(e) => Err(e),
    }
}

/// O `para` cuja variavel esta em `i`.
pub open spec fn para_em(ts: Seq<TokenSituado>, i: int) -> Lido<ArvoreInstr>
    decreases maior_texto(ts), ts.len() - i, 29int,
{
    match nome_em(ts, i) {
        Ok((variavel, j)) => if tok(ts, j) is Em {
            match guardado_em(ts, j + 1) {
                Ok(((iteravel, corpo), k)) => Ok(
                    (ArvoreInstr::Para { variavel, iteravel, corpo }, k),
                ),
                Err(e) => Err(e),
            }
        } else if tok(ts, j) is De {
            intervalo_em(ts, j + 1, variavel)
        } else {
            Err(ErroSintaxeDe::ParaSemFonte { linha: lin(ts, j) })
        },
        Err(e) => Err(e),
    }
}

/// O `para ... de` cujo inicio esta em `i`.
pub open spec fn intervalo_em(ts: Seq<TokenSituado>, i: int, variavel: Seq<char>) -> Lido<ArvoreInstr>
    decreases maior_texto(ts), ts.len() - i, 29int,
{
    match expr_em(ts, i) {
        Ok((inicio, j)) => match exigido(ts, j, Simbolo::Ate) {
            Ok(k) => if !passou(ts, i, k) {
                arbitrary()
            } else {
                match expr_em(ts, k) {
                    Ok((fim, m)) => if !passou(ts, i, m) {
                        arbitrary()
                    } else {
                        match opcional_em(ts, m, TokenDe::Passo) {
                            Ok((passo, n)) => {
                                proof {
                                    lema_saltos(ts, n);
                                }
                                if !passou(ts, i, n) {
                                    arbitrary()
                                } else {
                                    match bloco_em(ts, sem_quebras(ts, n)) {
                                        Ok((corpo, f)) => Ok(
                                            (
                                                ArvoreInstr::ParaIntervalo {
                                                    variavel,
                                                    inicio,
                                                    fim,
                                                    passo,
                                                    corpo,
                                                },
                                                f,
                                            ),
                                        ),
                                        Err(e) => Err(e),
                                    }
                                }
                            },
                            Err(e) => Err(e),
                        }
                    },
                    Err(e) => Err(e),
                }
            },
            Err(e) => Err(e),
        },
        Err(e) => Err(e),
    }
}

/// Os parametros a partir de `i`, depois dos que ja estao em `acc`, ate o parentese.
pub open spec fn params_em(
    ts: Seq<TokenSituado>,
    i: int,
    acc: Seq<ArvoreParam>,
    teve_variadic: bool,
) -> Lido<Seq<ArvoreParam>>
    decreases maior_texto(ts), ts.len() - i, 28int,
{
    if tok(ts, i) is ParenDir {
        Ok((acc, i))
    } else if teve_variadic {
        Err(ErroSintaxeDe::VariadicoNaoUltimo { linha: lin(ts, i) })
    } else {
        let variadic = tok(ts, i) is PontoPontoPonto;
        let i1 = if variadic {
            i + 1
        } else {
            i
        };
        match nome_em(ts, i1) {
            Ok((nome, j)) => {
                let lido = if variadic {
                    Ok((None, j))
                } else {
                    opcional_em(ts, j, TokenDe::Atribuicao)
                };
                match lido {
                    Ok((padrao, k)) => {
                        let f = if tok(ts, k) is Virgula {
                            k + 1
                        } else {
                            k
                        };
                        if passou(ts, i, f) {
                            params_em(
                                ts,
                                f,
                                acc.push(ArvoreParam { nome, padrao, variadic }),
                                variadic,
                            )
                        } else {
                            arbitrary()
                        }
                    },
                    Err(e) => Err(e),
                }
            },
            Err(e) => Err(e),
        }
    }
}

/// A lista de parametros entre parenteses em `i` e o corpo depois dela.
pub open spec fn assinatura_em(ts: Seq<TokenSituado>, i: int) -> Lido<
    (Seq<ArvoreParam>, Seq<ArvoreInstr>),
>
    decreases maior_texto(ts), ts.len() - i, 29int,
{
    match exigido(ts, i, Simbolo::ParenEsq) {
        Ok(j) => match params_em(ts, j, Seq::empty(), false) {
            Ok((ps, k)) => match exigido(ts, k, Simbolo::ParenDir) {
                Ok(m) => {
                    proof {
                        lema_saltos(ts, m);
                    }
                    if passou(ts, i, m) {
                        match bloco_em(ts, sem_quebras(ts, m)) {
                            Ok((b, f)) => Ok(((ps, b), f)),
                            Err(e) => Err(e),
                        }
                    } else {
                        arbitrary()
                    }
                },
                Err(e) => Err(e),
            },
            Err(e) => Err(e),
        },
        Err(e) => Err(e),
    }
}

/// A funcao cujo nome esta em `i`.
pub open spec fn funcao_em(ts: Seq<TokenSituado>, i: int) -> Lido<ArvoreInstr>
    decreases maior_texto(ts), ts.len() - i, 29int,
{
    match nome_em(ts, i) {
        Ok((nome, j)) => match assinatura_em(ts, j) {
            Ok(((parametros, corpo), k)) => Ok((ArvoreInstr::Funcao { nome, parametros, corpo }, k)),
            Err(e) => Err(e),
        },
        Err(e) => Err(e),
    }
}

/// O `escolher` cuja expressao esta em `i`.
pub open spec fn escolher_em(ts: Seq<TokenSituado>, i: int) -> Lido<ArvoreInstr>
    decreases maior_texto(ts), ts.len() - i, 29int,
{
    match expr_em(ts, i) {
        Ok((expr, j)) => {
            proof {
                lema_saltos(ts, j);
            }
            match exigido(ts, sem_quebras(ts, j), Simbolo::ChaveEsq) {
                Ok(k) => {
                    proof {
                        lema_saltos(ts, k);
                    }
                    if passou(ts, i, k) {
                        casos_em(ts, sem_terminadores(ts, k), expr, Seq::empty(), None)
                    } else {
                        arbitrary()
                    }
                },
                Err(e) => Err(e),
            }
        },
        Err(e) => Err(e),
    }
}

/// Os casos de um `escolher` a partir de `i`, ate a chave que o fecha.
pub open spec fn casos_em(
    ts: Seq<TokenSituado>,
    i: int,
    expr: ArvoreExpr,
    casos: Seq<(Seq<ArvoreExpr>, Seq<ArvoreInstr>)>,
    padrao: Option<Seq<ArvoreInstr>>,
) -> Lido<ArvoreInstr>
    decreases maior_texto(ts), ts.len() - i, 29int,
{
    match tok(ts, i) {
        TokenDe::Caso => match valores_em(ts, i + 1, Seq::empty()) {
            Ok((valores, j)) => {
                proof {
                    lema_saltos(ts, j);
                }
                if !passou(ts, i, j) {
                    arbitrary()
                } else {
                    match bloco_em(ts, sem_quebras(ts, j)) {
                        Ok((bloco, k)) => {
                            proof {
                                lema_saltos(ts, k);
                            }
                            if passou(ts, i, k) {
                                casos_em(
                                    ts,
                                    sem_terminadores(ts, k),
                                    expr,
                                    casos.push((valores, bloco)),
                                    padrao,
                                )
                            } else {
                                arbitrary()
                            }
                        },
                        Err(e) => Err(e),
                    }
                }
            },
            Err(e) => Err(e),
        },
        TokenDe::Padrao => {
            proof {
                lema_saltos(ts, i + 1);
            }
            match bloco_em(ts, sem_quebras(ts, i + 1)) {
                Ok((bloco, k)) => {
                    proof {
                        lema_saltos(ts, k);
                    }
                    if passou(ts, i, k) {
                        casos_em(ts, sem_terminadores(ts, k), expr, casos, Some(bloco))
                    } else {
                        arbitrary()
                    }
                },
                Err(e) => Err(e),
            }
        },
        TokenDe::ChaveDir | TokenDe::FimDeArquivo => match exigido(ts, i, Simbolo::ChaveDir) {
            Ok(j) => Ok((ArvoreInstr::Escolher { expr, casos, padrao }, j)),
            Err(e) => Err(e),
        },
        t => Err(ErroSintaxeDe::CasoInvalido { linha: lin(ts, i), encontrado: t }),
    }
}

/// Os valores de um `caso`, separados por virgulas.
pub open spec fn valores_em(ts: Seq<TokenSituado>, i: int, acc: Seq<ArvoreExpr>) -> Lido<
    Seq<ArvoreExpr>,
>
    decreases maior_texto(ts), ts.len() - i, 28int,
{
    match expr_em(ts, i) {
        Ok((e, j)) => if tok(ts, j) is Virgula {
            if passou(ts, i, j) {
                valores_em(ts, j + 1, acc.push(e))
            } else {
                arbitrary()
            }
        } else {
            Ok((acc.push(e), j))
        },
        Err(e) => Err(e),
    }
}

/// O `retornar` cujo valor, se ha, esta em `i`.
pub open spec fn retornar_em(ts: Seq<TokenSituado>, i: int) -> Lido<ArvoreInstr>
    decreases maior_texto(ts), ts.len() - i, 29int,
{
    match tok(ts, i) {
        TokenDe::NovaLinha
        | TokenDe::PontoEVirgula
        | TokenDe::FimDeArquivo
        | TokenDe::ChaveDir => Ok((ArvoreInstr::Retornar(None), i)),
        _ => match expr_em(ts, i) {
            Ok((e, j)) => Ok((ArvoreInstr::Retornar(Some(e)), j)),
            Err(e) => Err(e),
        },
    }
}

/// O `imprimir` cujo parentese esta em `i`.
pub open spec fn imprimir_em(ts: Seq<TokenSituado>, i: int) -> Lido<ArvoreInstr>
    decreases maior_texto(ts), ts.len() - i, 29int,
{
    match exigido(ts, i, Simbolo::ParenEsq) {
        Ok(j) => match impressos_em(ts, j, Seq::empty()) {
            Ok((args, k)) => Ok((ArvoreInstr::Imprimir(args), k)),
            Err(e) => Err(e),
        },
        Err(e) => Err(e),
    }
}

/// Os argumentos de `imprimir` a partir de `i`, ate o parentese que os fecha.
pub open spec fn impressos_em(ts: Seq<TokenSituado>, i: int, acc: Seq<ArvoreExpr>) -> Lido<
    Seq<ArvoreExpr>,
>
    decreases maior_texto(ts), ts.len() - i, 28int,
{
    if tok(ts, i) is ParenDir {
        Ok((acc, i + 1))
    } else {
        match expr_em(ts, i) {
            Ok((e, j)) => {
                let k = if tok(ts, j) is Virgula {
                    j + 1
                } else {
                    j
                };
                if passou(ts, i, k) {
                    impressos_em(ts, k, acc.push(e))
                } else {
                    arbitrary()
                }
            },
            Err(e) => Err(e),
        }
    }
}

/// O `tentar` cujo corpo vem depois de `i`.
pub open spec fn tentar_em(ts: Seq<TokenSituado>, i: int) -> Lido<ArvoreInstr>
    decreases maior_texto(ts), ts.len() - i, 29int,
{
    proof {
        lema_saltos(ts, i);
    }
    match bloco_em(ts, sem_quebras(ts, i)) {
        Ok((corpo, j)) => {
            proof {
                lema_saltos(ts, j);
            }
            if !passou(ts, i, j) {
                arbitrary()
            } else {
                match capturar_em(ts, sem_terminadores(ts, j)) {
                    Ok((capturar, k)) => {
                        proof {
                            lema_saltos(ts, k);
                        }
                        if !passou(ts, i, k) {
                            arbitrary()
                        } else {
                            match finalmente_em(ts, sem_terminadores(ts, k)) {
                                Ok((finalmente, f)) => Ok(
                                    (ArvoreInstr::Tentar { corpo, capturar, finalmente }, f),
                                ),
                                Err(e) => Err(e),
                            }
                        }
                    },
                    Err(e) => Err(e),
                }
            }
        },
        Err(e) => Err(e),
    }
}

/// O `capturar` opcional em `i`.
pub open spec fn capturar_em(ts: Seq<TokenSituado>, i: int) -> Lido<
    Option<(Seq<char>, Seq<ArvoreInstr>)>,
>
    decreases maior_texto(ts), ts.len() - i, 28int,
{
    if tok(ts, i) is Capturar {
        match exigido(ts, i + 1, Simbolo::ParenEsq) {
            Ok(j) => match nome_em(ts, j) {
                Ok((nome, k)) => match exigido(ts, k, Simbolo::ParenDir) {
                    Ok(m) => {
                        proof {
                            lema_saltos(ts, m);
                        }
                        match bloco_em(ts, sem_quebras(ts, m)) {
                            Ok((b, f)) => Ok((Some((nome, b)), f)),
                            Err(e) => Err(e),
                        }
                    },
                    Err(e) => Err(e),
                },
                Err(e) => Err(e),
            },
            Err(e) => Err(e),
        }
    } else {
        Ok((None, i))
    }
}

/// O `finalmente` opcional em `i`.
pub open spec fn finalmente_em(ts: Seq<TokenSituado>, i: int) -> Lido<Option<Seq<ArvoreInstr>>>
    decreases maior_texto(ts), ts.len() - i, 28int,
{
    if tok(ts, i) is Finalmente {
        proof {
            lema_saltos(ts, i + 1);
        }
        match bloco_em(ts, sem_quebras(ts, i + 1)) {
            Ok((b, f)) => Ok((Some(b), f)),
            Err(e) => Err(e),
        }
    } else {
        Ok((None, i))
    }
}

/// O `importar` cujo caminho esta em `i`.
pub open spec fn importar_em(ts: Seq<TokenSituado>, i: int) -> Lido<ArvoreInstr> {
    match tok(ts, i) {
        TokenDe::Texto(caminho) => if tok(ts, i + 1) is Como {
            match nome_em(ts, i + 2) {
                Ok((a, j)) => Ok((ArvoreInstr::Importar { caminho, alias: Some(a) }, j)),
                Err(e) => Err(e),
            }
        } else {
            Ok((ArvoreInstr::Importar { caminho, alias: None }, i + 1))
        },
        _ => Err(ErroSintaxeDe::ImportarSemTexto { linha: lin(ts, i) }),
    }
}

/// O `incluir` ou `requerer` cujo caminho esta em `i`.
pub open spec fn incluir_em(ts: Seq<TokenSituado>, i: int, obrigatorio: bool) -> Lido<ArvoreInstr> {
    match tok(ts, i) {
        TokenDe::Texto(caminho) => Ok((ArvoreInstr::Incluir { caminho, obrigatorio }, i + 1)),
        _ => Err(ErroSintaxeDe::IncluirSemTexto { linha: lin(ts, i) }),
    }
}

// ---- Expressoes ---------------------------------------------------------------------------

/// O operador que um operador composto aplica antes de atribuir.
pub open spec fn composto(t: TokenDe<Seq<char>>) -> Option<OpBinario> {
    match t {
        TokenDe::MaisIgual => Some(OpBinario::Soma),
        TokenDe::MenosIgual => Some(OpBinario::Subtracao),
        TokenDe::EstrelaIgual => Some(OpBinario::Multiplicacao),
        TokenDe::BarraIgual => Some(OpBinario::Divisao),
        TokenDe::PercentualIgual => Some(OpBinario::Modulo),
        _ => None,
    }
}

/// A expressao que comeca em `i`.
pub open spec fn expr_em(ts: Seq<TokenSituado>, i: int) -> Lido<ArvoreExpr>
    decreases maior_texto(ts), ts.len() - i, 25int,
{
    match binario_em(ts, i, 0) {
        Ok((alvo, j)) => match composto(tok(ts, j)) {
            Some(op) => if passou(ts, i, j) {
                match expr_em(ts, j + 1) {
                    Ok((valor, k)) => match composta(alvo, op, valor) {
                        Some(a) => Ok((a, k)),
                        None => Err(ErroSintaxeDe::CompostoInvalido { linha: lin(ts, k) }),
                    },
                    Err(e) => Err(e),
                }
            } else {
                arbitrary()
            },
            None => if tok(ts, j) is Atribuicao {
                if passou(ts, i, j) {
                    match expr_em(ts, j + 1) {
                        Ok((valor, k)) => match atribuida(alvo, valor) {
                            Some(a) => Ok((a, k)),
                            None => Err(ErroSintaxeDe::AtribuicaoInvalida { linha: lin(ts, k) }),
                        },
                        Err(e) => Err(e),
                    }
                } else {
                    arbitrary()
                }
            } else {
                Ok((alvo, j))
            },
        },
        Err(e) => Err(e),
    }
}

/// A atribuicao de `valor` a `alvo`, que so pode ser uma variavel ou um acesso.
pub open spec fn atribuida(alvo: ArvoreExpr, valor: ArvoreExpr) -> Option<ArvoreExpr> {
    match alvo {
        ArvoreExpr::Variavel(nome) => Some(
            ArvoreExpr::Atribuicao { nome, valor: Box::new(valor) },
        ),
        ArvoreExpr::Acesso { objeto, indice } => Some(
            ArvoreExpr::AtribuicaoIndexada { objeto, indice, valor: Box::new(valor) },
        ),
        _ => None,
    }
}

/// A atribuicao a `alvo` de `alvo op valor`.
pub open spec fn composta(alvo: ArvoreExpr, op: OpBinario, valor: ArvoreExpr) -> Option<ArvoreExpr> {
    atribuida(alvo, ArvoreExpr::BinOp { esq: Box::new(alvo), op, dir: Box::new(valor) })
}

/// Um operador entre expressoes: binario, ou a coalescencia nula.
#[derive(Debug, Clone, Copy, PartialEq, Eq, Structural)]
pub enum Conector {
    Binario(OpBinario),
    Coalescente,
}

/// O operador da precedencia `n` em `i`, com quantos tokens ele tem. As precedencias vao
/// de zero, a mais fraca, a cinco.
pub open spec fn operador(ts: Seq<TokenSituado>, i: int, n: int) -> Option<(Conector, int)> {
    let t = tok(ts, i);
    if n == 0 {
        match t {
            TokenDe::Ou => Some((Conector::Binario(OpBinario::Ou), 1)),
            TokenDe::NullCoalescente => Some((Conector::Coalescente, 1)),
            _ => None,
        }
    } else if n == 1 {
        match t {
            TokenDe::E => Some((Conector::Binario(OpBinario::E), 1)),
            _ => None,
        }
    } else if n == 2 {
        match t {
            TokenDe::Igual => Some((Conector::Binario(OpBinario::Igual), 1)),
            TokenDe::DiferenteDe => Some((Conector::Binario(OpBinario::DiferenteDe), 1)),
            TokenDe::Em => Some((Conector::Binario(OpBinario::Em), 1)),
            TokenDe::Nao => if tok(ts, i + 1) is Em {
                Some((Conector::Binario(OpBinario::NaoEm), 2))
            } else {
                None
            },
            _ => None,
        }
    } else if n == 3 {
        match t {
            TokenDe::MenorQue => Some((Conector::Binario(OpBinario::MenorQue), 1)),
            TokenDe::MaiorQue => Some((Conector::Binario(OpBinario::MaiorQue), 1)),
            TokenDe::MenorOuIgual => Some((Conector::Binario(OpBinario::MenorOuIgual), 1)),
            TokenDe::MaiorOuIgual => Some((Conector::Binario(OpBinario::MaiorOuIgual), 1)),
            _ => None,
        }
    } else if n == 4 {
        match t {
            TokenDe::Mais => Some((Conector::Binario(OpBinario::Soma), 1)),
            TokenDe::Menos => Some((Conector::Binario(OpBinario::Subtracao), 1)),
            _ => None,
        }
    } else {
        match t {
            TokenDe::Estrela => Some((Conector::Binario(OpBinario::Multiplicacao), 1)),
            TokenDe::Barra => Some((Conector::Binario(OpBinario::Divisao), 1)),
            TokenDe::BarraBarra => Some((Conector::Binario(OpBinario::DivisaoInteira), 1)),
            TokenDe::Percentual => Some((Conector::Binario(OpBinario::Modulo), 1)),
            _ => None,
        }
    }
}

/// A expressao que liga `esq` e `dir`.
pub open spec fn ligada(c: Conector, esq: ArvoreExpr, dir: ArvoreExpr) -> ArvoreExpr {
    match c {
        Conector::Binario(op) => ArvoreExpr::BinOp { esq: Box::new(esq), op, dir: Box::new(dir) },
        Conector::Coalescente => ArvoreExpr::NullCoalescente {
            esq: Box::new(esq),
            dir: Box::new(dir),
        },
    }
}

/// A expressao em `i` cujos operadores tem precedencia `n` ou mais forte; todos associam
/// a esquerda.
pub open spec fn binario_em(ts: Seq<TokenSituado>, i: int, n: int) -> Lido<ArvoreExpr>
    decreases
        maior_texto(ts),
        ts.len() - i,
        if 0 <= n < 6 {
            24 - n
        } else {
            18
        },
{
    if n < 0 || n >= 6 {
        unario_em(ts, i)
    } else {
        match binario_em(ts, i, n + 1) {
            Ok((e, j)) => if passou(ts, i, j) {
                resto_binario(ts, j, n, e)
            } else {
                arbitrary()
            },
            Err(e) => Err(e),
        }
    }
}

/// O resto de uma expressao de precedencia `n` depois de lido `esq`.
pub open spec fn resto_binario(ts: Seq<TokenSituado>, i: int, n: int, esq: ArvoreExpr) -> Lido<
    ArvoreExpr,
>
    decreases maior_texto(ts), ts.len() - i, 26int,
{
    match operador(ts, i, n) {
        Some((c, k)) => if i + k > ts.len() {
            arbitrary()
        } else {
            match binario_em(ts, i + k, n + 1) {
                Ok((dir, j)) => if passou(ts, i, j) {
                    resto_binario(ts, j, n, ligada(c, esq, dir))
                } else {
                    arbitrary()
                },
                Err(e) => Err(e),
            }
        },
        None => Ok((esq, i)),
    }
}

/// A expressao em `i`, com um sinal ou uma negacao antes dela se houver.
pub open spec fn unario_em(ts: Seq<TokenSituado>, i: int) -> Lido<ArvoreExpr>
    decreases maior_texto(ts), ts.len() - i, 17int,
{
    match tok(ts, i) {
        TokenDe::Menos => match chamada_em(ts, i + 1) {
            Ok((e, j)) => Ok((ArvoreExpr::UnOp { op: OpUnario::Negativo, expr: Box::new(e) }, j)),
            Err(e) => Err(e),
        },
        TokenDe::Nao => match chamada_em(ts, i + 1) {
            Ok((e, j)) => Ok((ArvoreExpr::UnOp { op: OpUnario::Nao, expr: Box::new(e) }, j)),
            Err(e) => Err(e),
        },
        _ => chamada_em(ts, i),
    }
}

/// A expressao em `i`, com as chamadas e os acessos que a seguem.
pub open spec fn chamada_em(ts: Seq<TokenSituado>, i: int) -> Lido<ArvoreExpr>
    decreases maior_texto(ts), ts.len() - i, 16int,
{
    match primario_em(ts, i) {
        Ok((e, j)) => if passou(ts, i, j) {
            resto_chamada(ts, j, e)
        } else {
            arbitrary()
        },
        Err(e) => Err(e),
    }
}

/// A chamada de `e` com os argumentos.
pub open spec fn chamada_de(e: ArvoreExpr, args: Seq<ArvoreExpr>) -> ArvoreExpr {
    match e {
        ArvoreExpr::Variavel(nome) => ArvoreExpr::ChamadaFuncao { nome, args },
        _ => ArvoreExpr::Chamada { funcao: Box::new(e), args },
    }
}

/// As chamadas e os acessos em `i`, aplicados a `e`.
pub open spec fn resto_chamada(ts: Seq<TokenSituado>, i: int, e: ArvoreExpr) -> Lido<ArvoreExpr>
    decreases maior_texto(ts), ts.len() - i, 27int,
{
    match sufixo_em(ts, i, e) {
        Ok((Some(a), j)) => if passou(ts, i, j) {
            resto_chamada(ts, j, a)
        } else {
            arbitrary()
        },
        Ok((None, _)) => Ok((e, i)),
        Err(e) => Err(e),
    }
}

/// `e` com a chamada ou o acesso que comeca em `i`, se houver.
pub open spec fn sufixo_em(ts: Seq<TokenSituado>, i: int, e: ArvoreExpr) -> Lido<Option<ArvoreExpr>>
    decreases maior_texto(ts), ts.len() - i, 26int,
{
    match tok(ts, i) {
        TokenDe::ParenEsq => {
            proof {
                lema_saltos(ts, i + 1);
            }
            match lista_em(ts, sem_quebras(ts, i + 1), Seq::empty(), Simbolo::ParenDir) {
                Ok((args, j)) => Ok((Some(chamada_de(e, args)), j)),
                Err(e) => Err(e),
            }
        },
        TokenDe::ColcheteEsq => match expr_em(ts, i + 1) {
            Ok((indice, j)) => match exigido(ts, j, Simbolo::ColcheteDir) {
                Ok(k) => Ok(
                    (
                        Some(ArvoreExpr::Acesso { objeto: Box::new(e), indice: Box::new(indice) }),
                        k,
                    ),
                ),
                Err(e) => Err(e),
            },
            Err(e) => Err(e),
        },
        TokenDe::Ponto => match nome_em(ts, i + 1) {
            Ok((campo, j)) => Ok(
                (
                    Some(
                        ArvoreExpr::Acesso {
                            objeto: Box::new(e),
                            indice: Box::new(ArvoreExpr::Texto(campo)),
                        },
                    ),
                    j,
                ),
            ),
            Err(e) => Err(e),
        },
        TokenDe::PontoOpcional => match nome_em(ts, i + 1) {
            Ok((campo, j)) => Ok(
                (Some(ArvoreExpr::AcessoOpcional { objeto: Box::new(e), chave: campo }), j),
            ),
            Err(e) => Err(e),
        },
        _ => Ok((None, i)),
    }
}

/// As expressoes a partir de `i`, com virgulas opcionais entre elas e quebras de linha em
/// volta, ate o sinal `fim`, que tambem se le.
pub open spec fn lista_em(
    ts: Seq<TokenSituado>,
    i: int,
    acc: Seq<ArvoreExpr>,
    fim: Simbolo,
) -> Lido<Seq<ArvoreExpr>>
    decreases maior_texto(ts), ts.len() - i, 28int,
{
    if tok(ts, i) == token_do(fim) {
        Ok((acc, i + 1))
    } else {
        match expr_em(ts, i) {
            Ok((e, j)) => {
                let f = depois_do_item(ts, j);
                proof {
                    lema_saltos(ts, j);
                    lema_saltos(ts, sem_quebras(ts, j) + 1);
                }
                if passou(ts, i, f) {
                    lista_em(ts, f, acc.push(e), fim)
                } else {
                    arbitrary()
                }
            },
            Err(e) => Err(e),
        }
    }
}

/// A posicao depois das quebras de linha e da virgula opcional que seguem um item.
pub open spec fn depois_do_item(ts: Seq<TokenSituado>, j: int) -> int {
    let k = sem_quebras(ts, j);
    if tok(ts, k) is Virgula {
        sem_quebras(ts, k + 1)
    } else {
        k
    }
}

/// Os pares de um mapa a partir de `i`, ate a chave que o fecha.
pub open spec fn mapa_em(ts: Seq<TokenSituado>, i: int, acc: Seq<(Seq<char>, ArvoreExpr)>) -> Lido<
    ArvoreExpr,
>
    decreases maior_texto(ts), ts.len() - i, 28int,
{
    match tok(ts, i) {
        TokenDe::ChaveDir | TokenDe::FimDeArquivo => match exigido(ts, i, Simbolo::ChaveDir) {
            Ok(j) => Ok((ArvoreExpr::Mapa(acc), j)),
            Err(e) => Err(e),
        },
        TokenDe::Texto(chave) | TokenDe::Identificador(chave) => match exigido(
            ts,
            i + 1,
            Simbolo::DoisPontos,
        ) {
            Ok(j) => match expr_em(ts, j) {
                Ok((valor, k)) => {
                    let f = depois_do_item(ts, k);
                    if passou(ts, i, f) {
                        mapa_em(ts, f, acc.push((chave, valor)))
                    } else {
                        arbitrary()
                    }
                },
                Err(e) => Err(e),
            },
            Err(e) => Err(e),
        },
        t => Err(ErroSintaxeDe::ChaveInvalida { linha: lin(ts, i), encontrado: t }),
    }
}

/// Os parametros de uma funcao seta entre parenteses cujo conteudo continua em `i`, com a
/// posicao da seta; `None` se o que ha nao e isso.
pub open spec fn params_seta(ts: Seq<TokenSituado>, i: int, acc: Seq<Seq<char>>) -> Option<
    (Seq<Seq<char>>, int),
>
    decreases ts.len() - i,
{
    match tok(ts, i) {
        TokenDe::ParenDir => if tok(ts, i + 1) is Seta {
            Some((acc, i + 1))
        } else {
            None
        },
        TokenDe::Identificador(n) => if tok(ts, i + 1) is Virgula {
            params_seta(ts, i + 2, acc.push(n))
        } else if tok(ts, i + 1) is ParenDir && tok(ts, i + 2) is Seta {
            Some((acc.push(n), i + 2))
        } else {
            None
        },
        _ => None,
    }
}

pub proof fn lema_params_seta(ts: Seq<TokenSituado>, i: int, acc: Seq<Seq<char>>)
    requires
        0 <= i,
    ensures
        params_seta(ts, i, acc) matches Some((ps, j)) ==> i < j < ts.len() && tok(ts, j) is Seta,
    decreases ts.len() - i,
{
    if tok(ts, i) is Identificador && tok(ts, i + 1) is Virgula {
        lema_params_seta(ts, i + 2, acc.push(tok(ts, i)->Identificador_0));
    }
}

/// O corpo de uma funcao seta em `i`.
pub open spec fn seta_em(ts: Seq<TokenSituado>, i: int, parametros: Seq<Seq<char>>) -> Lido<ArvoreExpr>
    decreases maior_texto(ts), ts.len() - i, 26int,
{
    match expr_em(ts, i) {
        Ok((corpo, j)) => Ok((ArvoreExpr::FuncaoSeta { parametros, corpo: Box::new(corpo) }, j)),
        Err(e) => Err(e),
    }
}

/// A expressao elementar em `i`.
pub open spec fn primario_em(ts: Seq<TokenSituado>, i: int) -> Lido<ArvoreExpr>
    decreases maior_texto(ts), ts.len() - i, 15int,
{
    match tok(ts, i) {
        TokenDe::Inteiro(n) => Ok((ArvoreExpr::Inteiro(n), i + 1)),
        TokenDe::Numero(t) => Ok((ArvoreExpr::Numero(t), i + 1)),
        TokenDe::Texto(s) => if s.contains('{') {
            proof {
                lema_maior_texto(ts, i);
            }
            match interpolada(s) {
                Ok(e) => Ok((e, i + 1)),
                Err(e) => Err(e),
            }
        } else {
            Ok((ArvoreExpr::Texto(s), i + 1))
        },
        TokenDe::Verdadeiro => Ok((ArvoreExpr::Booleano(true), i + 1)),
        TokenDe::Falso => Ok((ArvoreExpr::Booleano(false), i + 1)),
        TokenDe::Nulo => Ok((ArvoreExpr::Nulo, i + 1)),
        TokenDe::Funcao => match assinatura_em(ts, i + 1) {
            Ok(((parametros, corpo), j)) => Ok((ArvoreExpr::FuncaoAnonima { parametros, corpo }, j)),
            Err(e) => Err(e),
        },
        TokenDe::Identificador(nome) => if tok(ts, i + 1) is Seta {
            seta_em(ts, i + 2, seq![nome])
        } else {
            Ok((ArvoreExpr::Variavel(nome), i + 1))
        },
        TokenDe::E => Ok((ArvoreExpr::Variavel("e"@), i + 1)),
        TokenDe::Ou => Ok((ArvoreExpr::Variavel("ou"@), i + 1)),
        TokenDe::ParenEsq => {
            proof {
                lema_params_seta(ts, i + 1, Seq::empty());
            }
            match params_seta(ts, i + 1, Seq::empty()) {
                Some((ps, j)) => seta_em(ts, j + 1, ps),
                None => match expr_em(ts, i + 1) {
                    Ok((e, j)) => match exigido(ts, j, Simbolo::ParenDir) {
                        Ok(k) => Ok((e, k)),
                        Err(e) => Err(e),
                    },
                    Err(e) => Err(e),
                },
            }
        },
        TokenDe::ColcheteEsq => {
            proof {
                lema_saltos(ts, i + 1);
            }
            match lista_em(ts, sem_quebras(ts, i + 1), Seq::empty(), Simbolo::ColcheteDir) {
                Ok((v, j)) => Ok((ArvoreExpr::Lista(v), j)),
                Err(e) => Err(e),
            }
        },
        TokenDe::ChaveEsq => {
            proof {
                lema_saltos(ts, i + 1);
            }
            mapa_em(ts, sem_quebras(ts, i + 1), Seq::empty())
        },
        t => Err(ErroSintaxeDe::ExpressaoInesperada { linha: lin(ts, i), encontrado: t }),
    }
}

// ---- Interpolacao ---------------------------------------------------------------------------

/// A chave que fecha a expressao que continua em `k`, com `d` chaves abertas; o
/// comprimento, se nenhuma a fecha.
pub open spec fn fim_chave(s: Seq<char>, k: int, d: int) -> int
    decreases s.len() - k,
{
    if k < 0 || k >= s.len() {
        s.len() as int
    } else if s[k] == '{' {
        fim_chave(s, k + 1, d + 1)
    } else if s[k] == '}' {
        if d <= 1 {
            k
        } else {
            fim_chave(s, k + 1, d - 1)
        }
    } else {
        fim_chave(s, k + 1, d)
    }
}

pub proof fn lema_fim_chave(s: Seq<char>, k: int, d: int)
    requires
        0 <= k <= s.len(),
    ensures
        k <= fim_chave(s, k, d) <= s.len(),
    decreases s.len() - k,
{
    if k < s.len() && !(s[k] == '}' && d <= 1) {
        let d2 = if s[k] == '{' {
            d + 1
        } else if s[k] == '}' {
            d - 1
        } else {
            d
        };
        lema_fim_chave(s, k + 1, d2);
    }
}

/// As partes com o texto pendente, se houver, no fim.
pub open spec fn com_texto(partes: Seq<ArvoreExpr>, texto: Seq<char>) -> Seq<ArvoreExpr> {
    if texto.len() > 0 {
        partes.push(ArvoreExpr::Texto(texto))
    } else {
        partes
    }
}

/// A chamada de `texto` sobre uma expressao.
pub open spec fn em_texto(e: ArvoreExpr) -> ArvoreExpr {
    ArvoreExpr::ChamadaFuncao { nome: "texto"@, args: seq![e] }
}

/// As partes de um texto com expressoes entre chaves, a partir de `k`.
pub open spec fn partes_em(
    s: Seq<char>,
    k: int,
    partes: Seq<ArvoreExpr>,
    texto: Seq<char>,
) -> Result<Seq<ArvoreExpr>, Falha>
    decreases s.len(), 0int, s.len() - k,
{
    if k < 0 || k >= s.len() {
        Ok(com_texto(partes, texto))
    } else if s[k] == '{' && lexer::ha(s, k + 1, '{') {
        partes_em(s, k + 2, partes, texto.push('{'))
    } else if s[k] == '{' {
        proof {
            lema_fim_chave(s, k + 1, 1);
            let e = s.subrange(k + 1, fim_chave(s, k + 1, 1));
            lema_textos_menores(e, 0, Seq::empty());
            if let Ok(ts) = lexer::tokens_de(e) {
                lema_maior_nao_negativo(ts);
            }
        }
        let f = fim_chave(s, k + 1, 1);
        match lexer::tokens_de(s.subrange(k + 1, f)) {
            Ok(ts) => match expr_em(ts, 0) {
                Ok((e, _)) => partes_em(
                    s,
                    if f < s.len() {
                        f + 1
                    } else {
                        f
                    },
                    com_texto(partes, texto).push(em_texto(e)),
                    Seq::empty(),
                ),
                Err(e) => Err(e),
            },
            Err(e) => Err(ErroSintaxeDe::Lexico(e)),
        }
    } else if s[k] == '}' && lexer::ha(s, k + 1, '}') {
        partes_em(s, k + 2, partes, texto.push('}'))
    } else {
        partes_em(s, k + 1, partes, texto.push(s[k]))
    }
}

/// A soma das primeiras `n` partes, da esquerda para a direita; sem partes, o texto vazio.
pub open spec fn somadas(partes: Seq<ArvoreExpr>, n: int) -> ArvoreExpr
    decreases n,
{
    if n <= 0 {
        ArvoreExpr::Texto(Seq::empty())
    } else if n == 1 {
        partes[0]
    } else {
        ArvoreExpr::BinOp {
            esq: Box::new(somadas(partes, n - 1)),
            op: OpBinario::Soma,
            dir: Box::new(partes[n - 1]),
        }
    }
}

/// A expressao que um texto com chaves representa.
pub open spec fn interpolada(s: Seq<char>) -> Result<ArvoreExpr, Falha>
    decreases s.len(), 0int, s.len() + 1,
{
    match partes_em(s, 0, Seq::empty(), Seq::empty()) {
        Ok(ps) => Ok(somadas(ps, ps.len() as int)),
        Err(e) => Err(e),
    }
}

} // verus!
