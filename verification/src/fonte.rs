//! Do texto de um programa a arvore e ao codigo dele.

use vstd::prelude::*;
use crate::ast;
use crate::ast::{ArvoreInstr, Programa};
use crate::bytecode;
use crate::bytecode::{Comando, Op};
use crate::codigo;
use crate::compilador;
use crate::lexer;
use crate::lexer::{ErroLexico, Lexer};
use crate::parser::Parser;
use crate::sintaxe;
use crate::sintaxe::{ErroSintaxe, ErroSintaxeDe};
use crate::texto;
use crate::token;

verus! {

/// Por que um texto nao e um programa.
pub enum ErroFonte {
    Lexico(ErroLexico),
    Sintaxe(ErroSintaxe),
    Compilacao(String),
}

/// O erro, visto como valor matematico.
pub ghost enum FalhaFonte {
    Lexico(ErroLexico),
    Sintaxe(ErroSintaxeDe<Seq<char>>),
    Compilacao(Seq<char>),
}

impl ErroFonte {
    pub open spec fn view(&self) -> FalhaFonte {
        match self {
            ErroFonte::Lexico(e) => FalhaFonte::Lexico(*e),
            ErroFonte::Sintaxe(e) => FalhaFonte::Sintaxe(e@),
            ErroFonte::Compilacao(m) => FalhaFonte::Compilacao(m@),
        }
    }
}

/// O programa que um texto representa.
pub open spec fn programa_de(s: Seq<char>) -> Result<Seq<ArvoreInstr>, FalhaFonte> {
    match lexer::tokens_de(s) {
        Ok(ts) => match sintaxe::programa(ts) {
            Ok(p) => Ok(p),
            Err(e) => Err(FalhaFonte::Sintaxe(e)),
        },
        Err(e) => Err(FalhaFonte::Lexico(e)),
    }
}

/// O codigo de um programa.
pub open spec fn codigo_de(p: Seq<ArvoreInstr>) -> Result<Seq<Comando>, FalhaFonte> {
    match codigo::codigo_todo(p, 0, None, 0) {
        Some(c) => Ok(c.push(Comando::Halt)),
        None => Err(FalhaFonte::Compilacao(codigo::erro_continue())),
    }
}

/// Analisa um programa.
pub fn analisar(fonte: &str) -> (r: Result<Programa, ErroFonte>)
    requires
        4 * fonte@.len() < usize::MAX,
    ensures
        match r {
            Ok(p) => programa_de(fonte@) == Ok::<_, FalhaFonte>(ast::instrs(p@)),
            Err(e) => programa_de(fonte@) == Err::<Seq<ArvoreInstr>, _>(e@),
        },
{
    let mut lex = Lexer::novo(fonte);
    proof {
        sintaxe::lema_textos_menores(fonte@, 0, Seq::empty());
    }
    match lex.tokenizar() {
        Ok(tokens) => {
            proof {
                sintaxe::lema_maior_nao_negativo(token::situados(tokens@));
            }
            let mut p = Parser::novo(tokens);
            match p.parsear() {
                Ok(v) => Ok(v),
                Err(e) => Err(ErroFonte::Sintaxe(e)),
            }
        },
        Err(e) => Err(ErroFonte::Lexico(e)),
    }
}

/// Compila um programa ja analisado.
pub fn gerar(programa: &Programa) -> (r: Result<Vec<Op>, ErroFonte>)
    ensures
        match r {
            Ok(ops) => codigo_de(ast::instrs(programa@)) == Ok::<_, FalhaFonte>(bytecode::comandos(ops@)),
            Err(e) => codigo_de(ast::instrs(programa@)) == Err::<Seq<Comando>, _>(e@),
        },
{
    match compilador::compilar(programa) {
        Ok(ops) => {
            proof {
                let c = bytecode::comandos(ops@);
                assert(c.last() == ops@.last()@);
                assert(c =~= c.drop_last().push(Comando::Halt));
            }
            Ok(ops)
        },
        Err(m) => Err(ErroFonte::Compilacao(m)),
    }
}

/// Analisa e compila um programa.
pub fn compilar_bytecode_fonte(fonte: &str) -> (r: Result<Vec<Op>, ErroFonte>)
    requires
        4 * fonte@.len() < usize::MAX,
    ensures
        match programa_de(fonte@) {
            Ok(p) => match r {
                Ok(ops) => codigo_de(p) == Ok::<_, FalhaFonte>(bytecode::comandos(ops@)),
                Err(e) => codigo_de(p) == Err::<Seq<Comando>, _>(e@),
            },
            Err(f) => r matches Err(e) && e@ == f,
        },
{
    match analisar(fonte) {
        Ok(p) => gerar(&p),
        Err(e) => Err(e),
    }
}

/// A mensagem de um erro lexico.
pub open spec fn mensagem_de(e: ErroLexico) -> Seq<char> {
    match e {
        ErroLexico::TriplaAberta { linha } => "String tripla nao fechada na linha "@ + texto::decimal(linha as nat),
        ErroLexico::TextoAberto { linha } => "Texto nao fechado na linha "@ + texto::decimal(linha as nat),
        ErroLexico::EscapeIncompleto => "Sequencia de escape incompleta"@,
        ErroLexico::RecuoPartido { linha } => "Recuo partido na linha "@ + texto::decimal(linha as nat),
        ErroLexico::PontoPonto { linha } => "Caractere inesperado '..' na linha "@ + texto::decimal(linha as nat),
        ErroLexico::Interrogacao { linha } => "Caractere inesperado '?' na linha "@ + texto::decimal(linha as nat),
        ErroLexico::Exclamacao { linha } => "Caractere inesperado '!' na linha "@ + texto::decimal(linha as nat),
        ErroLexico::Desconhecido { caractere, linha, coluna } => "Caractere desconhecido '"@ + seq![caractere]
            + "' na linha "@ + texto::decimal(linha as nat) + ", coluna "@ + texto::decimal(coluna as nat),
    }
}

fn com_linha(inicio: &str, linha: usize) -> (r: String)
    ensures
        r@ == inicio@ + texto::decimal(linha as nat),
{
    let mut r = inicio.to_owned();
    let n = texto::natural(linha as u64);
    r.append(n.as_str());
    r
}

/// A mensagem de um erro lexico.
pub fn mensagem(e: &ErroLexico) -> (r: String)
    ensures
        r@ == mensagem_de(*e),
{
    match e {
        ErroLexico::TriplaAberta { linha } => com_linha("String tripla nao fechada na linha ", *linha),
        ErroLexico::TextoAberto { linha } => com_linha("Texto nao fechado na linha ", *linha),
        ErroLexico::EscapeIncompleto => "Sequencia de escape incompleta".to_owned(),
        ErroLexico::RecuoPartido { linha } => com_linha("Recuo partido na linha ", *linha),
        ErroLexico::PontoPonto { linha } => com_linha("Caractere inesperado '..' na linha ", *linha),
        ErroLexico::Interrogacao { linha } => com_linha("Caractere inesperado '?' na linha ", *linha),
        ErroLexico::Exclamacao { linha } => com_linha("Caractere inesperado '!' na linha ", *linha),
        ErroLexico::Desconhecido { caractere, linha, coluna } => {
            let mut r = "Caractere desconhecido '".to_owned();
            r.push(*caractere);
            r.append("' na linha ");
            let a = texto::natural(*linha as u64);
            r.append(a.as_str());
            r.append(", coluna ");
            let b = texto::natural(*coluna as u64);
            r.append(b.as_str());
            assert(r@ =~= mensagem_de(*e));
            r
        },
    }
}

} // verus!
