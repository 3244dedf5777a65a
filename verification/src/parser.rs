//! Analise sintatica: dos tokens a arvore.

use vstd::prelude::*;
use crate::ast;
use crate::ast::{ArvoreExpr, ArvoreInstr, ArvoreParam, Expressao, Instrucao, OpBinario, OpUnario, Parametro, Programa};
use crate::lexer;
use crate::lexer::Lexer;
use crate::sintaxe;
use crate::sintaxe::{Conector, ErroSintaxe, ErroSintaxeDe, Falha, Lido, Simbolo};
use crate::texto;
use crate::token;
use crate::token::{Token, TokenComPosicao, TokenDe, TokenSituado};

verus! {

/// O analisador sintatico: os tokens e a posicao corrente.
pub struct Parser {
    tokens: Vec<TokenComPosicao>,
    pos: usize,
}

// ---- Resultados ---------------------------------------------------------------------------

/// O que um resultado representa, com a posicao seguinte.
pub open spec fn lido_expr(r: Result<Expressao, ErroSintaxe>, pos: int) -> Lido<ArvoreExpr> {
    match r {
        Ok(e) => Ok((e@, pos)),
        Err(e) => Err(e@),
    }
}

pub open spec fn lido_instr(r: Result<Instrucao, ErroSintaxe>, pos: int) -> Lido<ArvoreInstr> {
    match r {
        Ok(e) => Ok((e@, pos)),
        Err(e) => Err(e@),
    }
}

pub open spec fn lido_instrs(r: Result<Vec<Instrucao>, ErroSintaxe>, pos: int) -> Lido<Seq<ArvoreInstr>> {
    match r {
        Ok(v) => Ok((ast::instrs(v@), pos)),
        Err(e) => Err(e@),
    }
}

pub open spec fn lido_exprs(r: Result<Vec<Expressao>, ErroSintaxe>, pos: int) -> Lido<Seq<ArvoreExpr>> {
    match r {
        Ok(v) => Ok((ast::exprs(v@), pos)),
        Err(e) => Err(e@),
    }
}

pub open spec fn lido_params(r: Result<Vec<Parametro>, ErroSintaxe>, pos: int) -> Lido<Seq<ArvoreParam>> {
    match r {
        Ok(v) => Ok((ast::params(v@), pos)),
        Err(e) => Err(e@),
    }
}

pub open spec fn lido_nome(r: Result<String, ErroSintaxe>, pos: int) -> Lido<Seq<char>> {
    match r {
        Ok(t) => Ok((t@, pos)),
        Err(e) => Err(e@),
    }
}

pub open spec fn lido_sinal(r: Result<(), ErroSintaxe>, pos: int) -> Result<int, Falha> {
    match r {
        Ok(_) => Ok(pos),
        Err(e) => Err(e@),
    }
}

pub open spec fn lido_opcao(r: Result<Option<Expressao>, ErroSintaxe>, pos: int) -> Lido<Option<ArvoreExpr>> {
    match r {
        Ok(Some(e)) => Ok((Some(e@), pos)),
        Ok(None) => Ok((None, pos)),
        Err(e) => Err(e@),
    }
}

pub open spec fn lido_guardado(
    r: Result<(Expressao, Vec<Instrucao>), ErroSintaxe>,
    pos: int,
) -> Lido<(ArvoreExpr, Seq<ArvoreInstr>)> {
    match r {
        Ok((e, b)) => Ok(((e@, ast::instrs(b@)), pos)),
        Err(e) => Err(e@),
    }
}

pub open spec fn lida_assinatura(
    r: Result<(Vec<Parametro>, Vec<Instrucao>), ErroSintaxe>,
    pos: int,
) -> Lido<(Seq<ArvoreParam>, Seq<ArvoreInstr>)> {
    match r {
        Ok((p, b)) => Ok(((ast::params(p@), ast::instrs(b@)), pos)),
        Err(e) => Err(e@),
    }
}

pub open spec fn lido_capturar(
    r: Result<Option<(String, Vec<Instrucao>)>, ErroSintaxe>,
    pos: int,
) -> Lido<Option<(Seq<char>, Seq<ArvoreInstr>)>> {
    match r {
        Ok(Some((n, b))) => Ok((Some((n@, ast::instrs(b@))), pos)),
        Ok(None) => Ok((None, pos)),
        Err(e) => Err(e@),
    }
}

pub open spec fn lido_bloco_opcional(
    r: Result<Option<Vec<Instrucao>>, ErroSintaxe>,
    pos: int,
) -> Lido<Option<Seq<ArvoreInstr>>> {
    match r {
        Ok(Some(b)) => Ok((Some(ast::instrs(b@)), pos)),
        Ok(None) => Ok((None, pos)),
        Err(e) => Err(e@),
    }
}

/// O que um programa lido representa.
pub open spec fn lido_programa(r: Result<Programa, ErroSintaxe>) -> Result<Seq<ArvoreInstr>, Falha> {
    match r {
        Ok(v) => Ok(ast::instrs(v@)),
        Err(e) => Err(e@),
    }
}

/// O token e o sinal dado.
fn eh_simbolo(t: &Token, s: Simbolo) -> (r: bool)
    ensures
        r == (t@ == sintaxe::token_do(s)),
{
    match s {
        Simbolo::ParenEsq => matches!(t, TokenDe::ParenEsq),
        Simbolo::ParenDir => matches!(t, TokenDe::ParenDir),
        Simbolo::ChaveEsq => matches!(t, TokenDe::ChaveEsq),
        Simbolo::ChaveDir => matches!(t, TokenDe::ChaveDir),
        Simbolo::ColcheteDir => matches!(t, TokenDe::ColcheteDir),
        Simbolo::Ate => matches!(t, TokenDe::Ate),
        Simbolo::DoisPontos => matches!(t, TokenDe::DoisPontos),
        Simbolo::Seta => matches!(t, TokenDe::Seta),
    }
}

impl Parser {
    /// Os tokens que o analisador le.
    pub closed spec fn ts(&self) -> Seq<TokenSituado> {
        token::situados(self.tokens@)
    }

    /// A posicao corrente.
    pub closed spec fn posicao(&self) -> int {
        self.pos as int
    }

    /// Os tokens acabam em `FimDeArquivo` e a posicao e a de um deles.
    pub closed spec fn valido(&self) -> bool {
        &&& self.pos < self.tokens@.len()
        &&& sintaxe::terminada(self.ts())
    }

    /// Um analisador no primeiro token.
    pub fn novo(tokens: Vec<TokenComPosicao>) -> (r: Self)
        requires
            sintaxe::terminada(token::situados(tokens@)),
        ensures
            r.valido(),
            r.ts() == token::situados(tokens@),
            r.posicao() == 0,
    {
        Parser { tokens, pos: 0 }
    }

    /// Quantos tokens faltam.
    spec fn faltam(&self) -> int {
        self.tokens@.len() - self.pos
    }

    spec fn tok(&self) -> TokenDe<Seq<char>> {
        sintaxe::tok(self.ts(), self.pos as int)
    }

    fn atual(&self) -> (r: &Token)
        requires
            self.valido(),
        ensures
            r@ == self.tok(),
            r@ == sintaxe::tok(self.ts(), self.pos as int),
    {
        &self.tokens[self.pos].token
    }

    fn linha_atual(&self) -> (r: usize)
        requires
            self.valido(),
        ensures
            r == sintaxe::lin(self.ts(), self.pos as int),
    {
        self.tokens[self.pos].linha
    }

    fn contexto_atual(&self) -> (r: String)
        requires
            self.valido(),
        ensures
            r@ == self.ts()[self.pos as int].contexto,
    {
        self.tokens[self.pos].contexto.clone()
    }

    /// O token seguinte.
    fn proximo_token(&self) -> (r: &Token)
        requires
            self.valido(),
            !(self.tok() is FimDeArquivo),
        ensures
            r@ == sintaxe::tok(self.ts(), self.pos + 1),
    {
        proof {
            assert(self.ts()[self.pos as int].token == self.tok());
            assert(self.pos != self.ts().len() - 1);
            assert(self.tokens.len() == self.tokens@.len());
        }
        &self.tokens[self.pos + 1].token
    }

    fn avancar(&mut self)
        requires
            old(self).valido(),
            !(old(self).tok() is FimDeArquivo),
        ensures
            final(self).valido(),
            final(self).tokens@ == old(self).tokens@,
            final(self).pos == old(self).pos + 1,
    {
        proof {
            assert(self.ts()[self.pos as int].token == self.tok());
            assert(self.pos != self.ts().len() - 1);
            assert(self.tokens.len() == self.tokens@.len());
        }
        self.pos += 1;
    }

    fn pular_novas_linhas(&mut self)
        requires
            old(self).valido(),
        ensures
            final(self).valido(),
            final(self).tokens@ == old(self).tokens@,
            final(self).pos == sintaxe::sem_quebras(old(self).ts(), old(self).pos as int),
            final(self).pos >= old(self).pos,
    {
        let ghost ts = self.ts();
        let ghost p = self.pos as int;
        while matches!(self.atual(), TokenDe::NovaLinha)
            invariant
                self.valido(),
                self.tokens@ == old(self).tokens@,
                ts == self.ts(),
                ts == old(self).ts(),
                p == old(self).pos,
                p <= self.pos,
                sintaxe::sem_quebras(ts, p) == sintaxe::sem_quebras(ts, self.pos as int),
            decreases self.tokens@.len() - self.pos,
        {
            self.avancar();
        }
    }

    fn pular_terminadores(&mut self)
        requires
            old(self).valido(),
        ensures
            final(self).valido(),
            final(self).tokens@ == old(self).tokens@,
            final(self).pos == sintaxe::sem_terminadores(old(self).ts(), old(self).pos as int),
            final(self).pos >= old(self).pos,
    {
        let ghost ts = self.ts();
        let ghost p = self.pos as int;
        while matches!(self.atual(), TokenDe::NovaLinha | TokenDe::PontoEVirgula)
            invariant
                self.valido(),
                self.tokens@ == old(self).tokens@,
                ts == self.ts(),
                ts == old(self).ts(),
                p == old(self).pos,
                p <= self.pos,
                sintaxe::sem_terminadores(ts, p) == sintaxe::sem_terminadores(ts, self.pos as int),
            decreases self.tokens@.len() - self.pos,
        {
            self.avancar();
        }
    }

    fn consumir(&mut self, esperado: Simbolo) -> (r: Result<(), ErroSintaxe>)
        requires
            old(self).valido(),
        ensures
            final(self).valido(),
            final(self).tokens@ == old(self).tokens@,
            final(self).pos >= old(self).pos,
            r is Ok ==> final(self).pos > old(self).pos,
            sintaxe::exigido(old(self).ts(), old(self).pos as int, esperado) == lido_sinal(
                r,
                final(self).pos as int,
            ),
    {
        if eh_simbolo(self.atual(), esperado) {
            self.avancar();
            Ok(())
        } else {
            Err(
                ErroSintaxeDe::Esperava {
                    linha: self.linha_atual(),
                    esperado,
                    encontrado: self.atual().clone(),
                },
            )
        }
    }

    fn consumir_identificador(&mut self) -> (r: Result<String, ErroSintaxe>)
        requires
            old(self).valido(),
        ensures
            final(self).valido(),
            final(self).tokens@ == old(self).tokens@,
            final(self).pos >= old(self).pos,
            r is Ok ==> final(self).pos > old(self).pos,
            sintaxe::nome_em(old(self).ts(), old(self).pos as int) == lido_nome(
                r,
                final(self).pos as int,
            ),
    {
        let nome: String = match self.atual() {
            TokenDe::Identificador(nome) => nome.clone(),
            TokenDe::E => "e".to_owned(),
            TokenDe::Ou => "ou".to_owned(),
            TokenDe::Em => "em".to_owned(),
            t => {
                return Err(
                    ErroSintaxeDe::EsperavaNome { linha: self.linha_atual(), encontrado: t.clone() },
                );
            },
        };
        self.avancar();
        Ok(nome)
    }

    // ---- Programas e instrucoes ---------------------------------------------------------

    /// Le o programa que vai da posicao corrente ao fim.
    pub fn parsear(&mut self) -> (r: Result<Programa, ErroSintaxe>)
        requires
            old(self).valido(),
        ensures
            final(self).valido(),
            final(self).ts() == old(self).ts(),
            sintaxe::programa_desde(old(self).ts(), old(self).posicao()) == lido_programa(r),
    {
        let ghost ts = self.ts();
        let ghost lido = sintaxe::programa_desde(ts, self.pos as int);
        proof {
            reveal(sintaxe::programa_desde);
        }
        let mut instrucoes: Vec<Instrucao> = Vec::new();
        self.pular_novas_linhas();
        assert(ast::instrs(instrucoes@) == Seq::<ArvoreInstr>::empty());
        while !matches!(self.atual(), TokenDe::FimDeArquivo)
            invariant
                self.valido(),
                ts == self.ts(),
                ts == old(self).ts(),
                lido == sintaxe::programa_desde(old(self).ts(), old(self).posicao()),
                lido == sintaxe::programa_em(
                    ts,
                    self.pos as int,
                    ast::instrs(instrucoes@),
                ),
            decreases self.tokens@.len() - self.pos,
        {
            let ghost antes = instrucoes@;
            let instr = match self.parsear_instrucao() {
                Ok(v) => v,
                Err(e) => {
                    return Err(e);
                },
            };
            instrucoes.push(instr);
            assert(ast::instrs(instrucoes@) == ast::instrs(antes).push(instr@));
            self.pular_terminadores();
        }
        Ok(instrucoes)
    }

    fn parsear_bloco(&mut self) -> (r: Result<Vec<Instrucao>, ErroSintaxe>)
        requires
            old(self).valido(),
        ensures
            final(self).valido(),
            final(self).tokens@ == old(self).tokens@,
            final(self).pos >= old(self).pos,
            r is Ok ==> final(self).pos > old(self).pos,
            sintaxe::bloco_em(old(self).ts(), old(self).pos as int) == lido_instrs(
                r,
                final(self).pos as int,
            ),
        decreases sintaxe::maior_texto(old(self).ts()), old(self).faltam(), 27int,
    {
        let ghost ts = self.ts();
        let ghost p = self.pos as int;
        match self.consumir(Simbolo::ChaveEsq) {
            Ok(v) => v,
            Err(e) => {
                return Err(e);
            },
        };
        self.pular_terminadores();
        let mut instrucoes: Vec<Instrucao> = Vec::new();
        assert(ast::instrs(instrucoes@) == Seq::<ArvoreInstr>::empty());
        while !matches!(self.atual(), TokenDe::ChaveDir | TokenDe::FimDeArquivo)
            invariant
                self.valido(),
                self.tokens@ == old(self).tokens@,
                ts == self.ts(),
                ts == old(self).ts(),
                p == old(self).pos,
                p < self.pos,
                sintaxe::bloco_em(ts, p) == sintaxe::instrs_em(
                    ts,
                    self.pos as int,
                    ast::instrs(instrucoes@),
                ),
            decreases self.tokens@.len() - self.pos,
        {
            let ghost antes = instrucoes@;
            let instr = match self.parsear_instrucao() {
                Ok(v) => v,
                Err(e) => {
                    return Err(e);
                },
            };
            instrucoes.push(instr);
            assert(ast::instrs(instrucoes@) == ast::instrs(antes).push(instr@));
            self.pular_terminadores();
        }
        match self.consumir(Simbolo::ChaveDir) {
            Ok(v) => v,
            Err(e) => {
                return Err(e);
            },
        };
        Ok(instrucoes)
    }

    fn parsear_instrucao(&mut self) -> (r: Result<Instrucao, ErroSintaxe>)
        requires
            old(self).valido(),
        ensures
            final(self).valido(),
            final(self).tokens@ == old(self).tokens@,
            final(self).pos >= old(self).pos,
            r is Ok ==> final(self).pos > old(self).pos,
            sintaxe::instr_em(old(self).ts(), old(self).pos as int) == lido_instr(
                r,
                final(self).pos as int,
            ),
        decreases sintaxe::maior_texto(old(self).ts()), old(self).faltam(), 30int,
    {
        let linha = self.linha_atual();
        let contexto = self.contexto_atual();
        let instrucao = match self.parsear_instrucao_sem_posicao() {
            Ok(v) => v,
            Err(e) => {
                return Err(e);
            },
        };
        Ok(Instrucao::Localizada { linha, contexto, instrucao: Box::new(instrucao) })
    }

    fn parsear_instrucao_sem_posicao(&mut self) -> (r: Result<Instrucao, ErroSintaxe>)
        requires
            old(self).valido(),
        ensures
            final(self).valido(),
            final(self).tokens@ == old(self).tokens@,
            final(self).pos >= old(self).pos,
            r is Ok ==> final(self).pos > old(self).pos,
            sintaxe::instr_nua(old(self).ts(), old(self).pos as int) == lido_instr(
                r,
                final(self).pos as int,
            ),
        decreases sintaxe::maior_texto(old(self).ts()), old(self).faltam(), 29int,
    {
        match self.atual() {
            TokenDe::Var => self.parsear_declaracao_var(),
            TokenDe::Se => self.parsear_se(),
            TokenDe::Enquanto => self.parsear_enquanto(),
            TokenDe::Para => self.parsear_para(),
            TokenDe::Escolher => self.parsear_escolher(),
            TokenDe::Funcao => self.parsear_funcao(),
            TokenDe::Retornar => self.parsear_retornar(),
            TokenDe::Imprimir => self.parsear_imprimir(),
            TokenDe::Tentar => self.parsear_tentar(),
            TokenDe::Lancar => self.parsear_lancar(),
            TokenDe::Importar => self.parsear_importar(),
            TokenDe::Incluir => self.parsear_incluir(false),
            TokenDe::Requerer => self.parsear_incluir(true),
            TokenDe::Pare => {
                self.avancar();
                Ok(Instrucao::Pare)
            },
            TokenDe::Continue => {
                self.avancar();
                Ok(Instrucao::Continue)
            },
            _ => {
                let expr = match self.parsear_expressao() {
                    Ok(v) => v,
                    Err(e) => {
                        return Err(e);
                    },
                };
                Ok(Instrucao::Expressao(expr))
            },
        }
    }

    /// Le a expressao que segue `=`, se `atribuicao`, ou `passo`, se nao, quando esse
    /// token esta na posicao corrente.
    fn parsear_opcional(&mut self, atribuicao: bool) -> (r: Result<Option<Expressao>, ErroSintaxe>)
        requires
            old(self).valido(),
        ensures
            final(self).valido(),
            final(self).tokens@ == old(self).tokens@,
            final(self).pos >= old(self).pos,
            sintaxe::opcional_em(
                old(self).ts(),
                old(self).pos as int,
                if atribuicao {
                    TokenDe::Atribuicao
                } else {
                    TokenDe::Passo
                },
            ) == lido_opcao(r, final(self).pos as int),
        decreases sintaxe::maior_texto(old(self).ts()), old(self).faltam(), 26int,
    {
        let presente = if atribuicao {
            matches!(self.atual(), TokenDe::Atribuicao)
        } else {
            matches!(self.atual(), TokenDe::Passo)
        };
        if presente {
            self.avancar();
            let e = match self.parsear_expressao() {
                Ok(v) => v,
                Err(e) => {
                    return Err(e);
                },
            };
            Ok(Some(e))
        } else {
            Ok(None)
        }
    }

    fn parsear_declaracao_var(&mut self) -> (r: Result<Instrucao, ErroSintaxe>)
        requires
            old(self).valido(),
            old(self).tok() is Var,
        ensures
            final(self).valido(),
            final(self).tokens@ == old(self).tokens@,
            final(self).pos >= old(self).pos,
            r is Ok ==> final(self).pos > old(self).pos,
            sintaxe::var_em(old(self).ts(), old(self).pos + 1) == lido_instr(
                r,
                final(self).pos as int,
            ),
        decreases sintaxe::maior_texto(old(self).ts()), old(self).faltam(), 28int,
    {
        self.avancar();
        let nome = match self.consumir_identificador() {
            Ok(v) => v,
            Err(e) => {
                return Err(e);
            },
        };
        let valor = match self.parsear_opcional(true) {
            Ok(v) => v,
            Err(e) => {
                return Err(e);
            },
        };
        Ok(Instrucao::DeclararVar { nome, valor })
    }

    /// Le uma expressao e o bloco depois dela.
    fn parsear_guardado(&mut self) -> (r: Result<(Expressao, Vec<Instrucao>), ErroSintaxe>)
        requires
            old(self).valido(),
        ensures
            final(self).valido(),
            final(self).tokens@ == old(self).tokens@,
            final(self).pos >= old(self).pos,
            r is Ok ==> final(self).pos > old(self).pos,
            sintaxe::guardado_em(old(self).ts(), old(self).pos as int) == lido_guardado(
                r,
                final(self).pos as int,
            ),
        decreases sintaxe::maior_texto(old(self).ts()), old(self).faltam(), 28int,
    {
        let condicao = match self.parsear_expressao() {
            Ok(v) => v,
            Err(e) => {
                return Err(e);
            },
        };
        self.pular_novas_linhas();
        let bloco = match self.parsear_bloco() {
            Ok(v) => v,
            Err(e) => {
                return Err(e);
            },
        };
        Ok((condicao, bloco))
    }

    fn parsear_se(&mut self) -> (r: Result<Instrucao, ErroSintaxe>)
        requires
            old(self).valido(),
            old(self).tok() is Se,
        ensures
            final(self).valido(),
            final(self).tokens@ == old(self).tokens@,
            final(self).pos >= old(self).pos,
            r is Ok ==> final(self).pos > old(self).pos,
            sintaxe::se_em(old(self).ts(), old(self).pos + 1) == lido_instr(
                r,
                final(self).pos as int,
            ),
        decreases sintaxe::maior_texto(old(self).ts()), old(self).faltam(), 28int,
    {
        self.avancar();
        let (condicao, entao) = match self.parsear_guardado() {
            Ok(v) => v,
            Err(e) => {
                return Err(e);
            },
        };
        self.pular_terminadores();
        let senao = if matches!(self.atual(), TokenDe::Senao) {
            self.avancar();
            self.pular_novas_linhas();
            if matches!(self.atual(), TokenDe::Se) {
                let a = match self.parsear_se() {
                    Ok(v) => v,
                    Err(e) => {
                        return Err(e);
                    },
                };
                let mut v: Vec<Instrucao> = Vec::new();
                v.push(a);
                assert(ast::instrs(v@) == seq![a@]);
                Some(v)
            } else {
                let b = match self.parsear_bloco() {
                    Ok(v) => v,
                    Err(e) => {
                        return Err(e);
                    },
                };
                Some(b)
            }
        } else {
            None
        };
        Ok(Instrucao::Se { condicao, entao, senao })
    }

    fn parsear_enquanto(&mut self) -> (r: Result<Instrucao, ErroSintaxe>)
        requires
            old(self).valido(),
            old(self).tok() is Enquanto,
        ensures
            final(self).valido(),
            final(self).tokens@ == old(self).tokens@,
            final(self).pos >= old(self).pos,
            r is Ok ==> final(self).pos > old(self).pos,
            sintaxe::enquanto_em(old(self).ts(), old(self).pos + 1) == lido_instr(
                r,
                final(self).pos as int,
            ),
        decreases sintaxe::maior_texto(old(self).ts()), old(self).faltam(), 28int,
    {
        self.avancar();
        let (condicao, corpo) = match self.parsear_guardado() {
            Ok(v) => v,
            Err(e) => {
                return Err(e);
            },
        };
        Ok(Instrucao::Enquanto { condicao, corpo })
    }

    fn parsear_para(&mut self) -> (r: Result<Instrucao, ErroSintaxe>)
        requires
            old(self).valido(),
            old(self).tok() is Para,
        ensures
            final(self).valido(),
            final(self).tokens@ == old(self).tokens@,
            final(self).pos >= old(self).pos,
            r is Ok ==> final(self).pos > old(self).pos,
            sintaxe::para_em(old(self).ts(), old(self).pos + 1) == lido_instr(
                r,
                final(self).pos as int,
            ),
        decreases sintaxe::maior_texto(old(self).ts()), old(self).faltam(), 28int,
    {
        self.avancar();
        let variavel = match self.consumir_identificador() {
            Ok(v) => v,
            Err(e) => {
                return Err(e);
            },
        };
        if matches!(self.atual(), TokenDe::Em) {
            self.avancar();
            let (iteravel, corpo) = match self.parsear_guardado() {
                Ok(v) => v,
                Err(e) => {
                    return Err(e);
                },
            };
            return Ok(Instrucao::Para { variavel, iteravel, corpo });
        }
        if matches!(self.atual(), TokenDe::De) {
            self.avancar();
            return self.parsear_intervalo(variavel);
        }
        Err(ErroSintaxeDe::ParaSemFonte { linha: self.linha_atual() })
    }

    /// Le o resto de `para ... de`.
    fn parsear_intervalo(&mut self, variavel: String) -> (r: Result<Instrucao, ErroSintaxe>)
        requires
            old(self).valido(),
        ensures
            final(self).valido(),
            final(self).tokens@ == old(self).tokens@,
            final(self).pos >= old(self).pos,
            r is Ok ==> final(self).pos > old(self).pos,
            sintaxe::intervalo_em(old(self).ts(), old(self).pos as int, variavel@) == lido_instr(
                r,
                final(self).pos as int,
            ),
        decreases sintaxe::maior_texto(old(self).ts()), old(self).faltam(), 28int,
    {
        let inicio = match self.parsear_expressao() {
            Ok(v) => v,
            Err(e) => {
                return Err(e);
            },
        };
        match self.consumir(Simbolo::Ate) {
            Ok(v) => v,
            Err(e) => {
                return Err(e);
            },
        };
        let fim = match self.parsear_expressao() {
            Ok(v) => v,
            Err(e) => {
                return Err(e);
            },
        };
        let passo = match self.parsear_opcional(false) {
            Ok(v) => v,
            Err(e) => {
                return Err(e);
            },
        };
        self.pular_novas_linhas();
        let corpo = match self.parsear_bloco() {
            Ok(v) => v,
            Err(e) => {
                return Err(e);
            },
        };
        Ok(Instrucao::ParaIntervalo { variavel, inicio, fim, passo, corpo })
    }

    fn parsear_parametros(&mut self) -> (r: Result<Vec<Parametro>, ErroSintaxe>)
        requires
            old(self).valido(),
        ensures
            final(self).valido(),
            final(self).tokens@ == old(self).tokens@,
            final(self).pos >= old(self).pos,
            sintaxe::params_em(old(self).ts(), old(self).pos as int, Seq::empty(), false)
                == lido_params(r, final(self).pos as int),
        decreases sintaxe::maior_texto(old(self).ts()), old(self).faltam(), 28int,
    {
        let ghost ts = self.ts();
        let ghost p = self.pos as int;
        let mut parametros: Vec<Parametro> = Vec::new();
        let mut teve_variadic = false;
        assert(ast::params(parametros@) == Seq::<ArvoreParam>::empty());
        while !matches!(self.atual(), TokenDe::ParenDir)
            invariant
                self.valido(),
                self.tokens@ == old(self).tokens@,
                ts == self.ts(),
                ts == old(self).ts(),
                p == old(self).pos,
                p <= self.pos,
                sintaxe::params_em(ts, p, Seq::empty(), false) == sintaxe::params_em(
                    ts,
                    self.pos as int,
                    ast::params(parametros@),
                    teve_variadic,
                ),
            decreases self.tokens@.len() - self.pos,
        {
            if teve_variadic {
                return Err(ErroSintaxeDe::VariadicoNaoUltimo { linha: self.linha_atual() });
            }
            let ghost antes = parametros@;
            let variadic = matches!(self.atual(), TokenDe::PontoPontoPonto);
            if variadic {
                self.avancar();
                teve_variadic = true;
            }
            let nome = match self.consumir_identificador() {
                Ok(v) => v,
                Err(e) => {
                    return Err(e);
                },
            };
            let padrao = if !variadic {
                match self.parsear_opcional(true) {
                    Ok(v) => v,
                    Err(e) => {
                        return Err(e);
                    },
                }
            } else {
                None
            };
            let novo = Parametro { nome, padrao, variadic };
            parametros.push(novo);
            assert(ast::params(parametros@) == ast::params(antes).push(novo@));
            if matches!(self.atual(), TokenDe::Virgula) {
                self.avancar();
            }
        }
        Ok(parametros)
    }

    /// Le uma lista de parametros entre parenteses e o corpo depois dela.
    fn parsear_assinatura(&mut self) -> (r: Result<(Vec<Parametro>, Vec<Instrucao>), ErroSintaxe>)
        requires
            old(self).valido(),
        ensures
            final(self).valido(),
            final(self).tokens@ == old(self).tokens@,
            final(self).pos >= old(self).pos,
            r is Ok ==> final(self).pos > old(self).pos,
            sintaxe::assinatura_em(old(self).ts(), old(self).pos as int) == lida_assinatura(
                r,
                final(self).pos as int,
            ),
        decreases sintaxe::maior_texto(old(self).ts()), old(self).faltam(), 28int,
    {
        match self.consumir(Simbolo::ParenEsq) {
            Ok(v) => v,
            Err(e) => {
                return Err(e);
            },
        };
        let parametros = match self.parsear_parametros() {
            Ok(v) => v,
            Err(e) => {
                return Err(e);
            },
        };
        match self.consumir(Simbolo::ParenDir) {
            Ok(v) => v,
            Err(e) => {
                return Err(e);
            },
        };
        self.pular_novas_linhas();
        let corpo = match self.parsear_bloco() {
            Ok(v) => v,
            Err(e) => {
                return Err(e);
            },
        };
        Ok((parametros, corpo))
    }

    fn parsear_funcao(&mut self) -> (r: Result<Instrucao, ErroSintaxe>)
        requires
            old(self).valido(),
            old(self).tok() is Funcao,
        ensures
            final(self).valido(),
            final(self).tokens@ == old(self).tokens@,
            final(self).pos >= old(self).pos,
            r is Ok ==> final(self).pos > old(self).pos,
            sintaxe::funcao_em(old(self).ts(), old(self).pos + 1) == lido_instr(
                r,
                final(self).pos as int,
            ),
        decreases sintaxe::maior_texto(old(self).ts()), old(self).faltam(), 28int,
    {
        self.avancar();
        let nome = match self.consumir_identificador() {
            Ok(v) => v,
            Err(e) => {
                return Err(e);
            },
        };
        let (parametros, corpo) = match self.parsear_assinatura() {
            Ok(v) => v,
            Err(e) => {
                return Err(e);
            },
        };
        Ok(Instrucao::Funcao { nome, parametros, corpo })
    }

    fn parsear_escolher(&mut self) -> (r: Result<Instrucao, ErroSintaxe>)
        requires
            old(self).valido(),
            old(self).tok() is Escolher,
        ensures
            final(self).valido(),
            final(self).tokens@ == old(self).tokens@,
            final(self).pos >= old(self).pos,
            r is Ok ==> final(self).pos > old(self).pos,
            sintaxe::escolher_em(old(self).ts(), old(self).pos + 1) == lido_instr(
                r,
                final(self).pos as int,
            ),
        decreases sintaxe::maior_texto(old(self).ts()), old(self).faltam(), 28int,
    {
        let ghost ts = self.ts();
        let ghost p = self.pos as int;
        self.avancar();
        let expr = match self.parsear_expressao() {
            Ok(v) => v,
            Err(e) => {
                return Err(e);
            },
        };
        self.pular_novas_linhas();
        match self.consumir(Simbolo::ChaveEsq) {
            Ok(v) => v,
            Err(e) => {
                return Err(e);
            },
        };
        self.pular_terminadores();
        let mut casos: Vec<(Vec<Expressao>, Vec<Instrucao>)> = Vec::new();
        let mut padrao: Option<Vec<Instrucao>> = None;
        assert(ast::casos_de(casos@) == Seq::<(Seq<ArvoreExpr>, Seq<ArvoreInstr>)>::empty());
        while !matches!(self.atual(), TokenDe::ChaveDir | TokenDe::FimDeArquivo)
            invariant
                self.valido(),
                self.tokens@ == old(self).tokens@,
                ts == self.ts(),
                ts == old(self).ts(),
                p == old(self).pos,
                p < self.pos,
                sintaxe::escolher_em(ts, p + 1) == sintaxe::casos_em(
                    ts,
                    self.pos as int,
                    expr@,
                    ast::casos_de(casos@),
                    match padrao {
                        Some(b) => Some(ast::instrs(b@)),
                        None => None,
                    },
                ),
            decreases self.tokens@.len() - self.pos,
        {
            let ghost antes = casos@;
            match self.atual() {
                TokenDe::Caso => {
                    self.avancar();
                    let valores = match self.parsear_valores() {
                        Ok(v) => v,
                        Err(e) => {
                            return Err(e);
                        },
                    };
                    self.pular_novas_linhas();
                    let bloco = match self.parsear_bloco() {
                        Ok(v) => v,
                        Err(e) => {
                            return Err(e);
                        },
                    };
                    casos.push((valores, bloco));
                    assert(ast::casos_de(casos@) == ast::casos_de(antes).push(
                        (ast::exprs(valores@), ast::instrs(bloco@)),
                    ));
                },
                TokenDe::Padrao => {
                    self.avancar();
                    self.pular_novas_linhas();
                    let bloco = match self.parsear_bloco() {
                        Ok(v) => v,
                        Err(e) => {
                            return Err(e);
                        },
                    };
                    padrao = Some(bloco);
                },
                t => {
                    return Err(
                        ErroSintaxeDe::CasoInvalido {
                            linha: self.linha_atual(),
                            encontrado: t.clone(),
                        },
                    );
                },
            }
            self.pular_terminadores();
        }
        match self.consumir(Simbolo::ChaveDir) {
            Ok(v) => v,
            Err(e) => {
                return Err(e);
            },
        };
        Ok(Instrucao::Escolher { expr, casos, padrao })
    }

    /// Le os valores de um `caso`.
    fn parsear_valores(&mut self) -> (r: Result<Vec<Expressao>, ErroSintaxe>)
        requires
            old(self).valido(),
        ensures
            final(self).valido(),
            final(self).tokens@ == old(self).tokens@,
            final(self).pos >= old(self).pos,
            r is Ok ==> final(self).pos > old(self).pos,
            sintaxe::valores_em(old(self).ts(), old(self).pos as int, Seq::empty()) == lido_exprs(
                r,
                final(self).pos as int,
            ),
        decreases sintaxe::maior_texto(old(self).ts()), old(self).faltam(), 28int,
    {
        let ghost ts = self.ts();
        let ghost p = self.pos as int;
        let mut valores: Vec<Expressao> = Vec::new();
        assert(ast::exprs(valores@) == Seq::<ArvoreExpr>::empty());
        loop
            invariant
                self.valido(),
                self.tokens@ == old(self).tokens@,
                ts == self.ts(),
                ts == old(self).ts(),
                p == old(self).pos,
                p <= self.pos,
                sintaxe::valores_em(ts, p, Seq::empty()) == sintaxe::valores_em(
                    ts,
                    self.pos as int,
                    ast::exprs(valores@),
                ),
            decreases self.tokens@.len() - self.pos,
        {
            let ghost antes = valores@;
            let e = match self.parsear_expressao() {
                Ok(v) => v,
                Err(e) => {
                    return Err(e);
                },
            };
            valores.push(e);
            assert(ast::exprs(valores@) == ast::exprs(antes).push(e@));
            if matches!(self.atual(), TokenDe::Virgula) {
                self.avancar();
            } else {
                return Ok(valores);
            }
        }
    }

    fn parsear_retornar(&mut self) -> (r: Result<Instrucao, ErroSintaxe>)
        requires
            old(self).valido(),
            old(self).tok() is Retornar,
        ensures
            final(self).valido(),
            final(self).tokens@ == old(self).tokens@,
            final(self).pos >= old(self).pos,
            r is Ok ==> final(self).pos > old(self).pos,
            sintaxe::retornar_em(old(self).ts(), old(self).pos + 1) == lido_instr(
                r,
                final(self).pos as int,
            ),
        decreases sintaxe::maior_texto(old(self).ts()), old(self).faltam(), 28int,
    {
        self.avancar();
        match self.atual() {
            TokenDe::NovaLinha
            | TokenDe::PontoEVirgula
            | TokenDe::FimDeArquivo
            | TokenDe::ChaveDir => Ok(Instrucao::Retornar(None)),
            _ => {
                let e = match self.parsear_expressao() {
                    Ok(v) => v,
                    Err(e) => {
                        return Err(e);
                    },
                };
                Ok(Instrucao::Retornar(Some(e)))
            },
        }
    }

    fn parsear_imprimir(&mut self) -> (r: Result<Instrucao, ErroSintaxe>)
        requires
            old(self).valido(),
            old(self).tok() is Imprimir,
        ensures
            final(self).valido(),
            final(self).tokens@ == old(self).tokens@,
            final(self).pos >= old(self).pos,
            r is Ok ==> final(self).pos > old(self).pos,
            sintaxe::imprimir_em(old(self).ts(), old(self).pos + 1) == lido_instr(
                r,
                final(self).pos as int,
            ),
        decreases sintaxe::maior_texto(old(self).ts()), old(self).faltam(), 28int,
    {
        let ghost ts = self.ts();
        let ghost p = self.pos as int;
        self.avancar();
        match self.consumir(Simbolo::ParenEsq) {
            Ok(v) => v,
            Err(e) => {
                return Err(e);
            },
        };
        let ghost q = self.pos as int;
        let mut args: Vec<Expressao> = Vec::new();
        assert(ast::exprs(args@) == Seq::<ArvoreExpr>::empty());
        while !matches!(self.atual(), TokenDe::ParenDir)
            invariant
                self.valido(),
                self.tokens@ == old(self).tokens@,
                ts == self.ts(),
                ts == old(self).ts(),
                p == old(self).pos,
                p < self.pos,
                sintaxe::exigido(ts, p + 1, Simbolo::ParenEsq) == Ok::<int, Falha>(q),
                sintaxe::impressos_em(ts, q, Seq::empty()) == sintaxe::impressos_em(
                    ts,
                    self.pos as int,
                    ast::exprs(args@),
                ),
            decreases self.tokens@.len() - self.pos,
        {
            let ghost antes = args@;
            let e = match self.parsear_expressao() {
                Ok(v) => v,
                Err(e) => {
                    return Err(e);
                },
            };
            args.push(e);
            assert(ast::exprs(args@) == ast::exprs(antes).push(e@));
            if matches!(self.atual(), TokenDe::Virgula) {
                self.avancar();
            }
        }
        match self.consumir(Simbolo::ParenDir) {
            Ok(v) => v,
            Err(e) => {
                return Err(e);
            },
        };
        Ok(Instrucao::Imprimir(args))
    }

    fn parsear_tentar(&mut self) -> (r: Result<Instrucao, ErroSintaxe>)
        requires
            old(self).valido(),
            old(self).tok() is Tentar,
        ensures
            final(self).valido(),
            final(self).tokens@ == old(self).tokens@,
            final(self).pos >= old(self).pos,
            r is Ok ==> final(self).pos > old(self).pos,
            sintaxe::tentar_em(old(self).ts(), old(self).pos + 1) == lido_instr(
                r,
                final(self).pos as int,
            ),
        decreases sintaxe::maior_texto(old(self).ts()), old(self).faltam(), 28int,
    {
        self.avancar();
        self.pular_novas_linhas();
        let corpo = match self.parsear_bloco() {
            Ok(v) => v,
            Err(e) => {
                return Err(e);
            },
        };
        self.pular_terminadores();
        let capturar = match self.parsear_capturar() {
            Ok(v) => v,
            Err(e) => {
                return Err(e);
            },
        };
        self.pular_terminadores();
        let finalmente = match self.parsear_finalmente() {
            Ok(v) => v,
            Err(e) => {
                return Err(e);
            },
        };
        Ok(Instrucao::Tentar { corpo, capturar, finalmente })
    }

    /// Le `capturar (nome) { ... }`, se houver.
    fn parsear_capturar(&mut self) -> (r: Result<Option<(String, Vec<Instrucao>)>, ErroSintaxe>)
        requires
            old(self).valido(),
        ensures
            final(self).valido(),
            final(self).tokens@ == old(self).tokens@,
            final(self).pos >= old(self).pos,
            sintaxe::capturar_em(old(self).ts(), old(self).pos as int) == lido_capturar(
                r,
                final(self).pos as int,
            ),
        decreases sintaxe::maior_texto(old(self).ts()), old(self).faltam(), 28int,
    {
        if matches!(self.atual(), TokenDe::Capturar) {
            self.avancar();
            match self.consumir(Simbolo::ParenEsq) {
                Ok(v) => v,
                Err(e) => {
                    return Err(e);
                },
            };
            let nome = match self.consumir_identificador() {
                Ok(v) => v,
                Err(e) => {
                    return Err(e);
                },
            };
            match self.consumir(Simbolo::ParenDir) {
                Ok(v) => v,
                Err(e) => {
                    return Err(e);
                },
            };
            self.pular_novas_linhas();
            let bloco = match self.parsear_bloco() {
                Ok(v) => v,
                Err(e) => {
                    return Err(e);
                },
            };
            Ok(Some((nome, bloco)))
        } else {
            Ok(None)
        }
    }

    /// Le `finalmente { ... }`, se houver.
    fn parsear_finalmente(&mut self) -> (r: Result<Option<Vec<Instrucao>>, ErroSintaxe>)
        requires
            old(self).valido(),
        ensures
            final(self).valido(),
            final(self).tokens@ == old(self).tokens@,
            final(self).pos >= old(self).pos,
            sintaxe::finalmente_em(old(self).ts(), old(self).pos as int) == lido_bloco_opcional(
                r,
                final(self).pos as int,
            ),
        decreases sintaxe::maior_texto(old(self).ts()), old(self).faltam(), 28int,
    {
        if matches!(self.atual(), TokenDe::Finalmente) {
            self.avancar();
            self.pular_novas_linhas();
            let bloco = match self.parsear_bloco() {
                Ok(v) => v,
                Err(e) => {
                    return Err(e);
                },
            };
            Ok(Some(bloco))
        } else {
            Ok(None)
        }
    }

    fn parsear_lancar(&mut self) -> (r: Result<Instrucao, ErroSintaxe>)
        requires
            old(self).valido(),
            old(self).tok() is Lancar,
        ensures
            final(self).valido(),
            final(self).tokens@ == old(self).tokens@,
            final(self).pos >= old(self).pos,
            r is Ok ==> final(self).pos > old(self).pos,
            sintaxe::instr_nua(old(self).ts(), old(self).pos as int) == lido_instr(
                r,
                final(self).pos as int,
            ),
        decreases sintaxe::maior_texto(old(self).ts()), old(self).faltam(), 28int,
    {
        self.avancar();
        let expr = match self.parsear_expressao() {
            Ok(v) => v,
            Err(e) => {
                return Err(e);
            },
        };
        Ok(Instrucao::Lancar(expr))
    }

    fn parsear_importar(&mut self) -> (r: Result<Instrucao, ErroSintaxe>)
        requires
            old(self).valido(),
            old(self).tok() is Importar,
        ensures
            final(self).valido(),
            final(self).tokens@ == old(self).tokens@,
            final(self).pos >= old(self).pos,
            r is Ok ==> final(self).pos > old(self).pos,
            sintaxe::importar_em(old(self).ts(), old(self).pos + 1) == lido_instr(
                r,
                final(self).pos as int,
            ),
    {
        self.avancar();
        let caminho = match self.atual() {
            TokenDe::Texto(caminho) => caminho.clone(),
            _ => {
                return Err(ErroSintaxeDe::ImportarSemTexto { linha: self.linha_atual() });
            },
        };
        self.avancar();
        let alias = if matches!(self.atual(), TokenDe::Como) {
            self.avancar();
            let a = match self.consumir_identificador() {
                Ok(v) => v,
                Err(e) => {
                    return Err(e);
                },
            };
            Some(a)
        } else {
            None
        };
        Ok(Instrucao::Importar { caminho, alias })
    }

    fn parsear_incluir(&mut self, obrigatorio: bool) -> (r: Result<Instrucao, ErroSintaxe>)
        requires
            old(self).valido(),
            !(old(self).tok() is FimDeArquivo),
        ensures
            final(self).valido(),
            final(self).tokens@ == old(self).tokens@,
            final(self).pos >= old(self).pos,
            r is Ok ==> final(self).pos > old(self).pos,
            sintaxe::incluir_em(old(self).ts(), old(self).pos + 1, obrigatorio) == lido_instr(
                r,
                final(self).pos as int,
            ),
    {
        self.avancar();
        let caminho = match self.atual() {
            TokenDe::Texto(caminho) => caminho.clone(),
            _ => {
                return Err(ErroSintaxeDe::IncluirSemTexto { linha: self.linha_atual() });
            },
        };
        self.avancar();
        Ok(Instrucao::Incluir { caminho, obrigatorio })
    }

    // ---- Expressoes ---------------------------------------------------------------------

    /// Le uma expressao, com a atribuicao se houver.
    fn parsear_expressao(&mut self) -> (r: Result<Expressao, ErroSintaxe>)
        requires
            old(self).valido(),
        ensures
            final(self).valido(),
            final(self).tokens@ == old(self).tokens@,
            final(self).pos >= old(self).pos,
            r is Ok ==> final(self).pos > old(self).pos,
            sintaxe::expr_em(old(self).ts(), old(self).pos as int) == lido_expr(
                r,
                final(self).pos as int,
            ),
        decreases sintaxe::maior_texto(old(self).ts()), old(self).faltam(), 25int,
    {
        let alvo = match self.parsear_binario(0) {
            Ok(v) => v,
            Err(e) => {
                return Err(e);
            },
        };
        let op_composto: Option<OpBinario> = match self.atual() {
            TokenDe::MaisIgual => Some(OpBinario::Soma),
            TokenDe::MenosIgual => Some(OpBinario::Subtracao),
            TokenDe::EstrelaIgual => Some(OpBinario::Multiplicacao),
            TokenDe::BarraIgual => Some(OpBinario::Divisao),
            TokenDe::PercentualIgual => Some(OpBinario::Modulo),
            _ => None,
        };
        if let Some(op) = op_composto {
            self.avancar();
            let valor = match self.parsear_expressao() {
                Ok(v) => v,
                Err(e) => {
                    return Err(e);
                },
            };
            let copia = alvo.clone();
            let soma = Expressao::BinOp { esq: Box::new(copia), op, dir: Box::new(valor) };
            return match atribuir(alvo, soma) {
                Some(e) => Ok(e),
                None => Err(ErroSintaxeDe::CompostoInvalido { linha: self.linha_atual() }),
            };
        }
        if matches!(self.atual(), TokenDe::Atribuicao) {
            self.avancar();
            let valor = match self.parsear_expressao() {
                Ok(v) => v,
                Err(e) => {
                    return Err(e);
                },
            };
            return match atribuir(alvo, valor) {
                Some(e) => Ok(e),
                None => Err(ErroSintaxeDe::AtribuicaoInvalida { linha: self.linha_atual() }),
            };
        }
        Ok(alvo)
    }

    /// O operador da precedencia dada na posicao corrente, com quantos tokens ele tem.
    fn operador(&self, nivel: usize) -> (r: Option<(Conector, usize)>)
        requires
            self.valido(),
            nivel < 6,
        ensures
            match r {
                Some((c, k)) => {
                    &&& sintaxe::operador(self.ts(), self.pos as int, nivel as int) == Some(
                        (c, k as int),
                    )
                    &&& (k == 1 || k == 2 && !(sintaxe::tok(self.ts(), self.pos + 1) is FimDeArquivo))
                    &&& !(self.tok() is FimDeArquivo)
                },
                None => sintaxe::operador(self.ts(), self.pos as int, nivel as int) is None,
            },
    {
        let t = self.atual();
        match nivel {
            0 => match t {
                TokenDe::Ou => Some((Conector::Binario(OpBinario::Ou), 1)),
                TokenDe::NullCoalescente => Some((Conector::Coalescente, 1)),
                _ => None,
            },
            1 => match t {
                TokenDe::E => Some((Conector::Binario(OpBinario::E), 1)),
                _ => None,
            },
            2 => match t {
                TokenDe::Igual => Some((Conector::Binario(OpBinario::Igual), 1)),
                TokenDe::DiferenteDe => Some((Conector::Binario(OpBinario::DiferenteDe), 1)),
                TokenDe::Em => Some((Conector::Binario(OpBinario::Em), 1)),
                TokenDe::Nao => if matches!(self.proximo_token(), TokenDe::Em) {
                    Some((Conector::Binario(OpBinario::NaoEm), 2))
                } else {
                    None
                },
                _ => None,
            },
            3 => match t {
                TokenDe::MenorQue => Some((Conector::Binario(OpBinario::MenorQue), 1)),
                TokenDe::MaiorQue => Some((Conector::Binario(OpBinario::MaiorQue), 1)),
                TokenDe::MenorOuIgual => Some((Conector::Binario(OpBinario::MenorOuIgual), 1)),
                TokenDe::MaiorOuIgual => Some((Conector::Binario(OpBinario::MaiorOuIgual), 1)),
                _ => None,
            },
            4 => match t {
                TokenDe::Mais => Some((Conector::Binario(OpBinario::Soma), 1)),
                TokenDe::Menos => Some((Conector::Binario(OpBinario::Subtracao), 1)),
                _ => None,
            },
            _ => match t {
                TokenDe::Estrela => Some((Conector::Binario(OpBinario::Multiplicacao), 1)),
                TokenDe::Barra => Some((Conector::Binario(OpBinario::Divisao), 1)),
                TokenDe::BarraBarra => Some((Conector::Binario(OpBinario::DivisaoInteira), 1)),
                TokenDe::Percentual => Some((Conector::Binario(OpBinario::Modulo), 1)),
                _ => None,
            },
        }
    }

    /// Le uma expressao cujos operadores tem a precedencia dada ou mais forte: zero para
    /// `ou` e `??`, um para `e`, dois para as igualdades, tres para as comparacoes, quatro
    /// para as somas, cinco para as multiplicacoes, seis para os operandos.
    fn parsear_binario(&mut self, nivel: usize) -> (r: Result<Expressao, ErroSintaxe>)
        requires
            old(self).valido(),
            nivel <= 6,
        ensures
            final(self).valido(),
            final(self).tokens@ == old(self).tokens@,
            final(self).pos >= old(self).pos,
            r is Ok ==> final(self).pos > old(self).pos,
            sintaxe::binario_em(old(self).ts(), old(self).pos as int, nivel as int) == lido_expr(
                r,
                final(self).pos as int,
            ),
        decreases sintaxe::maior_texto(old(self).ts()), old(self).faltam(), 24 - nivel,
    {
        if nivel >= 6 {
            return self.parsear_unario();
        }
        let ghost ts = self.ts();
        let ghost p = self.pos as int;
        let mut esq = match self.parsear_binario(nivel + 1) {
            Ok(v) => v,
            Err(e) => {
                return Err(e);
            },
        };
        loop
            invariant
                self.valido(),
                self.tokens@ == old(self).tokens@,
                ts == self.ts(),
                ts == old(self).ts(),
                p == old(self).pos,
                p < self.pos,
                nivel < 6,
                sintaxe::binario_em(ts, p, nivel as int) == sintaxe::resto_binario(
                    ts,
                    self.pos as int,
                    nivel as int,
                    esq@,
                ),
            decreases self.tokens@.len() - self.pos,
        {
            match self.operador(nivel) {
                Some((c, k)) => {
                    self.avancar();
                    if k == 2 {
                        self.avancar();
                    }
                    let dir = match self.parsear_binario(nivel + 1) {
                        Ok(v) => v,
                        Err(e) => {
                            return Err(e);
                        },
                    };
                    esq = match c {
                        Conector::Binario(op) => Expressao::BinOp {
                            esq: Box::new(esq),
                            op,
                            dir: Box::new(dir),
                        },
                        Conector::Coalescente => Expressao::NullCoalescente {
                            esq: Box::new(esq),
                            dir: Box::new(dir),
                        },
                    };
                },
                None => {
                    return Ok(esq);
                },
            }
        }
    }

    fn parsear_unario(&mut self) -> (r: Result<Expressao, ErroSintaxe>)
        requires
            old(self).valido(),
        ensures
            final(self).valido(),
            final(self).tokens@ == old(self).tokens@,
            final(self).pos >= old(self).pos,
            r is Ok ==> final(self).pos > old(self).pos,
            sintaxe::unario_em(old(self).ts(), old(self).pos as int) == lido_expr(
                r,
                final(self).pos as int,
            ),
        decreases sintaxe::maior_texto(old(self).ts()), old(self).faltam(), 17int,
    {
        let op = match self.atual() {
            TokenDe::Menos => OpUnario::Negativo,
            TokenDe::Nao => OpUnario::Nao,
            _ => {
                return self.parsear_chamada();
            },
        };
        self.avancar();
        let expr = match self.parsear_chamada() {
            Ok(v) => v,
            Err(e) => {
                return Err(e);
            },
        };
        Ok(Expressao::UnOp { op, expr: Box::new(expr) })
    }

    fn parsear_chamada(&mut self) -> (r: Result<Expressao, ErroSintaxe>)
        requires
            old(self).valido(),
        ensures
            final(self).valido(),
            final(self).tokens@ == old(self).tokens@,
            final(self).pos >= old(self).pos,
            r is Ok ==> final(self).pos > old(self).pos,
            sintaxe::chamada_em(old(self).ts(), old(self).pos as int) == lido_expr(
                r,
                final(self).pos as int,
            ),
        decreases sintaxe::maior_texto(old(self).ts()), old(self).faltam(), 16int,
    {
        let ghost ts = self.ts();
        let ghost p = self.pos as int;
        let mut expr = match self.parsear_primario() {
            Ok(v) => v,
            Err(e) => {
                return Err(e);
            },
        };
        loop
            invariant
                self.valido(),
                self.tokens@ == old(self).tokens@,
                ts == self.ts(),
                ts == old(self).ts(),
                p == old(self).pos,
                p < self.pos,
                sintaxe::chamada_em(ts, p) == sintaxe::resto_chamada(ts, self.pos as int, expr@),
            decreases self.tokens@.len() - self.pos,
        {
            if !matches!(
                self.atual(),
                TokenDe::ParenEsq | TokenDe::ColcheteEsq | TokenDe::Ponto | TokenDe::PontoOpcional
            ) {
                assert(sintaxe::sufixo_em(ts, self.pos as int, expr@) == Ok::<
                    (Option<ArvoreExpr>, int),
                    Falha,
                >((None, self.pos as int)));
                return Ok(expr);
            }
            expr = match self.parsear_sufixo(expr) {
                Ok(v) => v,
                Err(e) => {
                    return Err(e);
                },
            };
        }
    }

    /// Le a chamada ou o acesso da posicao corrente e aplica-o a expressao.
    fn parsear_sufixo(&mut self, expr: Expressao) -> (r: Result<Expressao, ErroSintaxe>)
        requires
            old(self).valido(),
            old(self).tok() is ParenEsq || old(self).tok() is ColcheteEsq || old(self).tok() is Ponto
                || old(self).tok() is PontoOpcional,
        ensures
            final(self).valido(),
            final(self).tokens@ == old(self).tokens@,
            final(self).pos >= old(self).pos,
            r is Ok ==> final(self).pos > old(self).pos,
            match r {
                Ok(e) => sintaxe::sufixo_em(old(self).ts(), old(self).pos as int, expr@) == Ok::<
                    (Option<ArvoreExpr>, int),
                    Falha,
                >((Some(e@), final(self).pos as int)),
                Err(e) => sintaxe::sufixo_em(old(self).ts(), old(self).pos as int, expr@) == Err::<
                    (Option<ArvoreExpr>, int),
                    Falha,
                >(e@),
            },
        decreases sintaxe::maior_texto(old(self).ts()), old(self).faltam(), 26int,
    {
        match self.atual() {
            TokenDe::ParenEsq => {
                self.avancar();
                self.pular_novas_linhas();
                let args = match self.parsear_lista(Simbolo::ParenDir) {
                    Ok(v) => v,
                    Err(e) => {
                        return Err(e);
                    },
                };
                Ok(chamar(expr, args))
            },
            TokenDe::ColcheteEsq => {
                self.avancar();
                let indice = match self.parsear_expressao() {
                    Ok(v) => v,
                    Err(e) => {
                        return Err(e);
                    },
                };
                match self.consumir(Simbolo::ColcheteDir) {
                    Ok(v) => v,
                    Err(e) => {
                        return Err(e);
                    },
                };
                Ok(Expressao::Acesso { objeto: Box::new(expr), indice: Box::new(indice) })
            },
            TokenDe::Ponto => {
                self.avancar();
                let campo = match self.consumir_identificador() {
                    Ok(v) => v,
                    Err(e) => {
                        return Err(e);
                    },
                };
                let ghost c = campo@;
                let indice = Expressao::Texto(campo);
                assert(indice@ == ArvoreExpr::Texto(c));
                Ok(Expressao::Acesso { objeto: Box::new(expr), indice: Box::new(indice) })
            },
            _ => {
                self.avancar();
                let campo = match self.consumir_identificador() {
                    Ok(v) => v,
                    Err(e) => {
                        return Err(e);
                    },
                };
                Ok(Expressao::AcessoOpcional { objeto: Box::new(expr), chave: campo })
            },
        }
    }

    /// Pula as quebras de linha e a virgula opcional depois de um item.
    fn depois_do_item(&mut self)
        requires
            old(self).valido(),
        ensures
            final(self).valido(),
            final(self).tokens@ == old(self).tokens@,
            final(self).pos == sintaxe::depois_do_item(old(self).ts(), old(self).pos as int),
            final(self).pos >= old(self).pos,
    {
        self.pular_novas_linhas();
        if matches!(self.atual(), TokenDe::Virgula) {
            self.avancar();
            self.pular_novas_linhas();
        }
    }

    /// Le expressoes ate o sinal `fim`, e o sinal.
    fn parsear_lista(&mut self, fim: Simbolo) -> (r: Result<Vec<Expressao>, ErroSintaxe>)
        requires
            old(self).valido(),
        ensures
            final(self).valido(),
            final(self).tokens@ == old(self).tokens@,
            final(self).pos >= old(self).pos,
            r is Ok ==> final(self).pos > old(self).pos,
            sintaxe::lista_em(old(self).ts(), old(self).pos as int, Seq::empty(), fim) == lido_exprs(
                r,
                final(self).pos as int,
            ),
        decreases sintaxe::maior_texto(old(self).ts()), old(self).faltam(), 28int,
    {
        let ghost ts = self.ts();
        let ghost p = self.pos as int;
        let mut itens: Vec<Expressao> = Vec::new();
        assert(ast::exprs(itens@) == Seq::<ArvoreExpr>::empty());
        while !eh_simbolo(self.atual(), fim)
            invariant
                self.valido(),
                self.tokens@ == old(self).tokens@,
                ts == self.ts(),
                ts == old(self).ts(),
                p == old(self).pos,
                p <= self.pos,
                sintaxe::lista_em(ts, p, Seq::empty(), fim) == sintaxe::lista_em(
                    ts,
                    self.pos as int,
                    ast::exprs(itens@),
                    fim,
                ),
            decreases self.tokens@.len() - self.pos,
        {
            let ghost antes = itens@;
            let e = match self.parsear_expressao() {
                Ok(v) => v,
                Err(e) => {
                    return Err(e);
                },
            };
            itens.push(e);
            assert(ast::exprs(itens@) == ast::exprs(antes).push(e@));
            self.depois_do_item();
        }
        self.avancar();
        Ok(itens)
    }

    /// Le os pares de um mapa ate a chave que o fecha.
    fn parsear_mapa(&mut self) -> (r: Result<Expressao, ErroSintaxe>)
        requires
            old(self).valido(),
        ensures
            final(self).valido(),
            final(self).tokens@ == old(self).tokens@,
            final(self).pos >= old(self).pos,
            r is Ok ==> final(self).pos > old(self).pos,
            sintaxe::mapa_em(old(self).ts(), old(self).pos as int, Seq::empty()) == lido_expr(
                r,
                final(self).pos as int,
            ),
        decreases sintaxe::maior_texto(old(self).ts()), old(self).faltam(), 28int,
    {
        let ghost ts = self.ts();
        let ghost p = self.pos as int;
        let mut pares: Vec<(String, Expressao)> = Vec::new();
        assert(ast::pares(pares@) == Seq::<(Seq<char>, ArvoreExpr)>::empty());
        while !matches!(self.atual(), TokenDe::ChaveDir | TokenDe::FimDeArquivo)
            invariant
                self.valido(),
                self.tokens@ == old(self).tokens@,
                ts == self.ts(),
                ts == old(self).ts(),
                p == old(self).pos,
                p <= self.pos,
                sintaxe::mapa_em(ts, p, Seq::empty()) == sintaxe::mapa_em(
                    ts,
                    self.pos as int,
                    ast::pares(pares@),
                ),
            decreases self.tokens@.len() - self.pos,
        {
            let ghost antes = pares@;
            let chave: String = match self.atual() {
                TokenDe::Texto(s) => s.clone(),
                TokenDe::Identificador(s) => s.clone(),
                t => {
                    return Err(
                        ErroSintaxeDe::ChaveInvalida {
                            linha: self.linha_atual(),
                            encontrado: t.clone(),
                        },
                    );
                },
            };
            self.avancar();
            match self.consumir(Simbolo::DoisPontos) {
                Ok(v) => v,
                Err(e) => {
                    return Err(e);
                },
            };
            let valor = match self.parsear_expressao() {
                Ok(v) => v,
                Err(e) => {
                    return Err(e);
                },
            };
            let ghost par = (chave@, valor@);
            pares.push((chave, valor));
            assert(ast::pares(pares@) == ast::pares(antes).push(par));
            self.depois_do_item();
        }
        match self.consumir(Simbolo::ChaveDir) {
            Ok(v) => v,
            Err(e) => {
                return Err(e);
            },
        };
        Ok(Expressao::Mapa(pares))
    }

    /// Se na posicao corrente ha `(a, b) =>`, le ate a seta e devolve os nomes; se nao,
    /// fica onde esta.
    fn tentar_params_seta(&mut self) -> (r: Option<Vec<String>>)
        requires
            old(self).valido(),
            old(self).tok() is ParenEsq,
        ensures
            final(self).valido(),
            final(self).tokens@ == old(self).tokens@,
            match r {
                Some(v) => sintaxe::params_seta(old(self).ts(), old(self).pos + 1, Seq::empty())
                    == Some((texto::textos(v@), final(self).pos as int)),
                None => {
                    &&& final(self).pos == old(self).pos
                    &&& sintaxe::params_seta(old(self).ts(), old(self).pos + 1, Seq::empty()) is None
                },
            },
    {
        let ghost ts = self.ts();
        let ghost p = self.pos as int;
        let salvo = self.pos;
        self.avancar();
        let mut params: Vec<String> = Vec::new();
        assert(texto::textos(params@) == Seq::<Seq<char>>::empty());
        loop
            invariant
                self.valido(),
                self.tokens@ == old(self).tokens@,
                ts == self.ts(),
                ts == old(self).ts(),
                p == old(self).pos,
                p < self.pos,
                salvo == p,
                self.tokens@.len() > salvo,
                sintaxe::params_seta(ts, p + 1, Seq::empty()) == sintaxe::params_seta(
                    ts,
                    self.pos as int,
                    texto::textos(params@),
                ),
            decreases self.tokens@.len() - self.pos,
        {
            match self.atual() {
                TokenDe::ParenDir => {
                    self.avancar();
                    if matches!(self.atual(), TokenDe::Seta) {
                        return Some(params);
                    }
                    self.pos = salvo;
                    return None;
                },
                TokenDe::Identificador(nome) => {
                    let n = nome.clone();
                    let ghost antes = params@;
                    params.push(n);
                    assert(texto::textos(params@) == texto::textos(antes).push(n@));
                    self.avancar();
                    match self.atual() {
                        TokenDe::Virgula => {
                            self.avancar();
                        },
                        TokenDe::ParenDir => {
                            self.avancar();
                            if matches!(self.atual(), TokenDe::Seta) {
                                return Some(params);
                            }
                            self.pos = salvo;
                            return None;
                        },
                        _ => {
                            self.pos = salvo;
                            return None;
                        },
                    }
                },
                _ => {
                    self.pos = salvo;
                    return None;
                },
            }
        }
    }

    /// Le o corpo de uma funcao seta.
    fn parsear_seta(&mut self, parametros: Vec<String>) -> (r: Result<Expressao, ErroSintaxe>)
        requires
            old(self).valido(),
        ensures
            final(self).valido(),
            final(self).tokens@ == old(self).tokens@,
            final(self).pos >= old(self).pos,
            r is Ok ==> final(self).pos > old(self).pos,
            sintaxe::seta_em(old(self).ts(), old(self).pos as int, texto::textos(parametros@))
                == lido_expr(r, final(self).pos as int),
        decreases sintaxe::maior_texto(old(self).ts()), old(self).faltam(), 26int,
    {
        let corpo = match self.parsear_expressao() {
            Ok(v) => v,
            Err(e) => {
                return Err(e);
            },
        };
        Ok(Expressao::FuncaoSeta { parametros, corpo: Box::new(corpo) })
    }

    fn parsear_primario(&mut self) -> (r: Result<Expressao, ErroSintaxe>)
        requires
            old(self).valido(),
        ensures
            final(self).valido(),
            final(self).tokens@ == old(self).tokens@,
            final(self).pos >= old(self).pos,
            r is Ok ==> final(self).pos > old(self).pos,
            sintaxe::primario_em(old(self).ts(), old(self).pos as int) == lido_expr(
                r,
                final(self).pos as int,
            ),
        decreases sintaxe::maior_texto(old(self).ts()), old(self).faltam(), 15int,
    {
        let ghost ts = self.ts();
        let ghost p = self.pos as int;
        let e: Expressao = match self.atual() {
            TokenDe::Inteiro(n) => Expressao::Inteiro(*n),
            TokenDe::Numero(t) => Expressao::Numero(t.clone()),
            TokenDe::Texto(t) => {
                let s = t.clone();
                let cs = texto::caracteres(s.as_str());
                let i = texto::achar(cs.as_slice(), '{', 0);
                proof {
                    texto::lema_proximo(cs@, '{', 0);
                    sintaxe::lema_maior_texto(ts, p);
                }
                if i < cs.len() {
                    assert(s@[i as int] == '{');
                    let e = match parsear_interpolacao(cs) {
                        Ok(v) => v,
                        Err(e) => {
                            return Err(e);
                        },
                    };
                    e
                } else {
                    Expressao::Texto(s)
                }
            },
            TokenDe::Verdadeiro => Expressao::Booleano(true),
            TokenDe::Falso => Expressao::Booleano(false),
            TokenDe::Nulo => Expressao::Nulo,
            TokenDe::Funcao => {
                self.avancar();
                let (parametros, corpo) = match self.parsear_assinatura() {
                    Ok(v) => v,
                    Err(e) => {
                        return Err(e);
                    },
                };
                return Ok(Expressao::FuncaoAnonima { parametros, corpo });
            },
            TokenDe::Identificador(nome) => {
                let nome = nome.clone();
                self.avancar();
                if matches!(self.atual(), TokenDe::Seta) {
                    self.avancar();
                    let ghost n = nome@;
                    let mut v: Vec<String> = Vec::new();
                    v.push(nome);
                    assert(texto::textos(v@) == seq![n]);
                    return self.parsear_seta(v);
                }
                return Ok(Expressao::Variavel(nome));
            },
            TokenDe::E => Expressao::Variavel("e".to_owned()),
            TokenDe::Ou => Expressao::Variavel("ou".to_owned()),
            TokenDe::ParenEsq => {
                proof {
                    sintaxe::lema_params_seta(ts, p + 1, Seq::empty());
                }
                if let Some(params) = self.tentar_params_seta() {
                    self.avancar();
                    return self.parsear_seta(params);
                }
                self.avancar();
                let e = match self.parsear_expressao() {
                    Ok(v) => v,
                    Err(e) => {
                        return Err(e);
                    },
                };
                match self.consumir(Simbolo::ParenDir) {
                    Ok(v) => v,
                    Err(e) => {
                        return Err(e);
                    },
                };
                return Ok(e);
            },
            TokenDe::ColcheteEsq => {
                self.avancar();
                self.pular_novas_linhas();
                let itens = match self.parsear_lista(Simbolo::ColcheteDir) {
                    Ok(v) => v,
                    Err(e) => {
                        return Err(e);
                    },
                };
                return Ok(Expressao::Lista(itens));
            },
            TokenDe::ChaveEsq => {
                self.avancar();
                self.pular_novas_linhas();
                return self.parsear_mapa();
            },
            t => {
                return Err(
                    ErroSintaxeDe::ExpressaoInesperada {
                        linha: self.linha_atual(),
                        encontrado: t.clone(),
                    },
                );
            },
        };
        self.avancar();
        Ok(e)
    }
}

/// A chamada de uma expressao; a de uma variavel guarda o seu nome.
fn chamar(e: Expressao, args: Vec<Expressao>) -> (r: Expressao)
    ensures
        r@ == sintaxe::chamada_de(e@, ast::exprs(args@)),
{
    match e {
        Expressao::Variavel(nome) => Expressao::ChamadaFuncao { nome, args },
        outra => Expressao::Chamada { funcao: Box::new(outra), args },
    }
}

/// A atribuicao de um valor a uma variavel ou a um acesso.
fn atribuir(alvo: Expressao, valor: Expressao) -> (r: Option<Expressao>)
    ensures
        match r {
            Some(e) => sintaxe::atribuida(alvo@, valor@) == Some(e@),
            None => sintaxe::atribuida(alvo@, valor@) is None,
        },
{
    match alvo {
        Expressao::Variavel(nome) => Some(Expressao::Atribuicao { nome, valor: Box::new(valor) }),
        Expressao::Acesso { objeto, indice } => Some(
            Expressao::AtribuicaoIndexada { objeto, indice, valor: Box::new(valor) },
        ),
        _ => None,
    }
}

// ---- Interpolacao -------------------------------------------------------------------------

/// A chave que fecha a expressao que comeca em `de`, ou o comprimento.
fn achar_fim_chave(cs: &[char], de: usize) -> (r: usize)
    requires
        1 <= de <= cs@.len(),
    ensures
        de <= r <= cs@.len(),
        r == sintaxe::fim_chave(cs@, de as int, 1),
{
    let mut k: usize = de;
    let mut d: usize = 1;
    while k < cs.len()
        invariant
            1 <= de <= k <= cs@.len(),
            1 <= d <= 1 + k - de,
            sintaxe::fim_chave(cs@, de as int, 1) == sintaxe::fim_chave(cs@, k as int, d as int),
        decreases cs@.len() - k,
    {
        let c = cs[k];
        if c == '{' {
            d += 1;
        } else if c == '}' {
            if d == 1 {
                return k;
            }
            d -= 1;
        }
        k += 1;
    }
    k
}

/// A expressao de um trecho de codigo.
fn parsear_trecho(cs: &[char]) -> (r: Result<Expressao, ErroSintaxe>)
    requires
        4 * cs@.len() < usize::MAX,
    ensures
        match lexer::tokens_de(cs@) {
            Ok(ts) => match sintaxe::expr_em(ts, 0) {
                Ok((e, _)) => r is Ok && r->Ok_0@ == e,
                Err(e) => r is Err && r->Err_0@ == e,
            },
            Err(e) => r is Err && r->Err_0@ == ErroSintaxeDe::<Seq<char>>::Lexico(e),
        },
    decreases cs@.len() + 1, 0int, 0int,
{
    let codigo = texto::de_caracteres(cs);
    let mut lex = Lexer::novo(codigo.as_str());
    proof {
        sintaxe::lema_textos_menores(cs@, 0, Seq::empty());
    }
    match lex.tokenizar() {
        Ok(tokens) => {
            proof {
                sintaxe::lema_maior_nao_negativo(token::situados(tokens@));
            }
            let mut p = Parser::novo(tokens);
            match p.parsear_expressao() {
                Ok(e) => Ok(e),
                Err(e) => Err(e),
            }
        },
        Err(e) => Err(ErroSintaxeDe::Lexico(e)),
    }
}

/// A expressao que um texto com chaves representa: os trechos de texto e as expressoes
/// entre chaves, convertidas em texto, somados da esquerda para a direita.
fn parsear_interpolacao(cs: Vec<char>) -> (r: Result<Expressao, ErroSintaxe>)
    requires
        4 * cs@.len() < usize::MAX,
        cs@.len() > 0,
    ensures
        match r {
            Ok(e) => sintaxe::interpolada(cs@) == Ok::<ArvoreExpr, Falha>(e@),
            Err(e) => sintaxe::interpolada(cs@) == Err::<ArvoreExpr, Falha>(e@),
        },
    decreases cs@.len(), 0int, 1int,
{
    let ghost s = cs@;
    let mut partes: Vec<Expressao> = Vec::new();
    let mut texto_atual = String::new();
    let mut i: usize = 0;
    assert(ast::exprs(partes@) == Seq::<ArvoreExpr>::empty());
    while i < cs.len()
        invariant
            i <= cs@.len(),
            s == cs@,
            4 * cs@.len() < usize::MAX,
            sintaxe::partes_em(s, 0, Seq::empty(), Seq::empty()) == sintaxe::partes_em(
                s,
                i as int,
                ast::exprs(partes@),
                texto_atual@,
            ),
        decreases cs@.len() - i,
    {
        let c = cs[i];
        let dobrada = cs.len() - i > 1 && cs[i + 1] == c;
        if c == '{' && dobrada {
            texto_atual.push('{');
            i += 2;
        } else if c == '{' {
            let ghost antes = partes@;
            let ghost texto_antes = texto_atual@;
            if !texto_atual.as_str().is_empty() {
                let t = texto_atual.clone();
                partes.push(Expressao::Texto(t));
                texto_atual = String::new();
                assert(ast::exprs(partes@) == ast::exprs(antes).push(ArvoreExpr::Texto(t@)));
            }
            assert(ast::exprs(partes@) == sintaxe::com_texto(ast::exprs(antes), texto_antes));
            let f = achar_fim_chave(cs.as_slice(), i + 1);
            let trecho = vstd::slice::slice_subrange(cs.as_slice(), i + 1, f);
            let expr = match parsear_trecho(trecho) {
                Ok(v) => v,
                Err(e) => {
                    return Err(e);
                },
            };
            let ghost meio = partes@;
            let ghost ev = expr@;
            let mut args: Vec<Expressao> = Vec::new();
            args.push(expr);
            assert(ast::exprs(args@) == seq![ev]);
            let chamada = Expressao::ChamadaFuncao { nome: "texto".to_owned(), args };
            assert(chamada@ == sintaxe::em_texto(ev));
            partes.push(chamada);
            assert(ast::exprs(partes@) == ast::exprs(meio).push(sintaxe::em_texto(ev)));
            assert(texto_atual@ == Seq::<char>::empty());
            i = if f < cs.len() {
                f + 1
            } else {
                f
            };
        } else if c == '}' && dobrada {
            texto_atual.push('}');
            i += 2;
        } else {
            texto_atual.push(c);
            i += 1;
        }
    }
    let ghost antes = partes@;
    if !texto_atual.as_str().is_empty() {
        let ghost t = texto_atual@;
        partes.push(Expressao::Texto(texto_atual));
        assert(ast::exprs(partes@) == ast::exprs(antes).push(ArvoreExpr::Texto(t)));
    }
    let ghost ps = ast::exprs(partes@);
    assert(sintaxe::partes_em(s, 0, Seq::empty(), Seq::empty()) == Ok::<Seq<ArvoreExpr>, Falha>(ps));
    Ok(somar_partes(partes))
}

/// A soma das partes, da esquerda para a direita.
fn somar_partes(partes: Vec<Expressao>) -> (r: Expressao)
    ensures
        r@ == sintaxe::somadas(ast::exprs(partes@), partes@.len() as int),
{
    let mut restam = partes;
    if restam.len() == 0 {
        let vazio = String::new();
        return Expressao::Texto(vazio);
    }
    let ghost ps = ast::exprs(restam@);
    let mut r = restam.remove(0);
    let ghost resto = restam@;
    let mut n: usize = 1;
    assert(r@ == sintaxe::somadas(ps, 1));
    while restam.len() > 0
        invariant
            n + restam@.len() == ps.len(),
            n >= 1,
            ps.len() <= usize::MAX,
            forall|k: int| 0 <= k < restam@.len() ==> (#[trigger] restam@[k])@ == ps[n + k],
            r@ == sintaxe::somadas(ps, n as int),
        decreases restam@.len(),
    {
        let parte = restam.remove(0);
        r = Expressao::BinOp { esq: Box::new(r), op: OpBinario::Soma, dir: Box::new(parte) };
        n += 1;
    }
    r
}

} // verus!
