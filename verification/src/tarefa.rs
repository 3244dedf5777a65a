//! O que o interpretador tem por fazer: uma pilha de tarefas, cada uma um resto de instrucao
//! ou de expressao.

use vstd::prelude::*;
use crate::ast::{Expressao, Instrucao, OpBinario, OpUnario, Parametro};
use crate::ast;
use crate::texto;
use crate::valor::{Ambiente, Valor};
use crate::valor;

verus! {

/// Um sinal que sobe pelas instrucoes.
#[derive(Debug)]
pub enum Sinal {
    Retornar(Valor),
    Pare,
    Continue,
}

/// O que um sinal representa.
pub ghost enum SinalVisto {
    Retornar(valor::Dado),
    Pare,
    Continue,
}

impl Sinal {
    pub open spec fn view(&self) -> SinalVisto {
        match self {
            Sinal::Retornar(v) => SinalVisto::Retornar(v@),
            Sinal::Pare => SinalVisto::Pare,
            Sinal::Continue => SinalVisto::Continue,
        }
    }
}

/// Como o interpretador vai: a andar, com um sinal a subir, ou com uma falha a subir.
#[derive(Debug)]
pub enum Modo {
    Anda,
    Sinal(Sinal),
    Falha(String),
}

/// O que um modo representa.
pub ghost enum ModoVisto {
    Anda,
    Sinal(SinalVisto),
    Falha(Seq<char>),
}

impl Modo {
    pub open spec fn view(&self) -> ModoVisto {
        match self {
            Modo::Anda => ModoVisto::Anda,
            Modo::Sinal(s) => ModoVisto::Sinal(s@),
            Modo::Falha(m) => ModoVisto::Falha(m@),
        }
    }
}

/// Uma chamada a meio: os parametros que faltam ligar.
#[derive(Debug)]
pub struct Ligacao {
    pub nome: String,
    pub parametros: Vec<Parametro>,
    pub corpo: Vec<Instrucao>,
    pub args: Vec<Valor>,
    pub i: usize,
    pub ambiente: Ambiente,
}

/// O que uma chamada a meio representa.
pub ghost struct LigacaoVista {
    pub nome: Seq<char>,
    pub parametros: Seq<ast::ArvoreParam>,
    pub corpo: Seq<ast::ArvoreInstr>,
    pub args: Seq<valor::Dado>,
    pub i: int,
    pub ambiente: Seq<valor::Escopo>,
}

impl Ligacao {
    pub open spec fn view(&self) -> LigacaoVista {
        LigacaoVista {
            nome: self.nome@,
            parametros: ast::params(self.parametros@),
            corpo: ast::instrs(self.corpo@),
            args: valor::vistos(self.args@),
            i: self.i as int,
            ambiente: valor::escopos_vistos(self.ambiente.escopos@),
        }
    }
}

/// Os casos de uma escolha e onde se vai.
#[derive(Debug)]
pub struct Escolha {
    pub casos: Vec<(Vec<Expressao>, Vec<Instrucao>)>,
    pub padrao: Option<Vec<Instrucao>>,
    pub caso: usize,
    pub item: usize,
}

/// O que uma escolha representa.
pub ghost struct EscolhaVista {
    pub casos: Seq<(Seq<ast::ArvoreExpr>, Seq<ast::ArvoreInstr>)>,
    pub padrao: Option<Seq<ast::ArvoreInstr>>,
    pub caso: int,
    pub item: int,
}

/// Um bloco que pode faltar.
pub open spec fn bloco_opcional(b: Option<Vec<Instrucao>>) -> Option<Seq<ast::ArvoreInstr>> {
    match b {
        Some(v) => Some(ast::instrs(v@)),
        None => None,
    }
}

impl Escolha {
    pub open spec fn view(&self) -> EscolhaVista {
        EscolhaVista {
            casos: ast::casos_de(self.casos@),
            padrao: bloco_opcional(self.padrao),
            caso: self.caso as int,
            item: self.item as int,
        }
    }
}

/// Uma funcao a aplicar a cada item de uma lista.
#[derive(Debug)]
pub struct Percurso {
    pub funcao: Valor,
    pub itens: Vec<Valor>,
    pub i: usize,
    pub feitos: Vec<Valor>,
}

/// O que um percurso representa.
pub ghost struct PercursoVisto {
    pub funcao: valor::Dado,
    pub itens: Seq<valor::Dado>,
    pub i: int,
    pub feitos: Seq<valor::Dado>,
}

impl Percurso {
    pub open spec fn view(&self) -> PercursoVisto {
        PercursoVisto {
            funcao: self.funcao@,
            itens: valor::vistos(self.itens@),
            i: self.i as int,
            feitos: valor::vistos(self.feitos@),
        }
    }
}

/// Uma tarefa.
#[derive(Debug)]
pub enum Tarefa {
    Avaliar(Expressao),
    FazLista(usize),
    FazMapa(Vec<String>),
    Atribui(String),
    AtribuiIndice(Option<String>),
    Unaria(OpUnario),
    Binaria(OpBinario),
    CurtoE(Expressao),
    CurtoOu(Expressao),
    EmBooleano,
    Chama(String, usize),
    Liga(Ligacao),
    LigaCom(Ligacao),
    Acessa,
    AcessaOpcional(String),
    Coalesce(Expressao),
    Bloco(Vec<Instrucao>, usize),
    Executar(Instrucao),
    Descarta,
    Declara(String),
    Escreve(usize),
    Decide(Vec<Instrucao>, Option<Vec<Instrucao>>),
    Enquanto(Expressao, Vec<Instrucao>),
    Testa(Expressao, Vec<Instrucao>),
    PreparaPara(String, Vec<Instrucao>),
    Para { variavel: String, itens: Vec<Valor>, i: usize, corpo: Vec<Instrucao> },
    PreparaIntervalo(String, bool, Vec<Instrucao>),
    Intervalo { variavel: String, atual: i64, fim: i64, passo: i64, corpo: Vec<Instrucao> },
    Escolhe(Escolha),
    Compara(Escolha),
    Devolve,
    Lanca,
    FimTentar { capturar: Option<(String, Vec<Instrucao>)>, finalmente: Option<Vec<Instrucao>>, altura: usize },
    FimCaptura { finalmente: Option<Vec<Instrucao>>, altura: usize },
    Restaura { modo: Modo, altura: usize },
    FimLinha { linha: usize, contexto: String },
    FimChamada,
    FimModulo { chave: String, alias: Option<String> },
    FimInclusao,
    Mapeia(Percurso),
    Filtra(Percurso),
    Reduz(Percurso),
    FimSaida,
}

/// O que uma tarefa representa.
pub ghost enum TarefaVista {
    Avaliar(ast::ArvoreExpr),
    FazLista(int),
    FazMapa(Seq<Seq<char>>),
    Atribui(Seq<char>),
    AtribuiIndice(Option<Seq<char>>),
    Unaria(OpUnario),
    Binaria(OpBinario),
    CurtoE(ast::ArvoreExpr),
    CurtoOu(ast::ArvoreExpr),
    EmBooleano,
    Chama(Seq<char>, int),
    Liga(LigacaoVista),
    LigaCom(LigacaoVista),
    Acessa,
    AcessaOpcional(Seq<char>),
    Coalesce(ast::ArvoreExpr),
    Bloco(Seq<ast::ArvoreInstr>, int),
    Executar(ast::ArvoreInstr),
    Descarta,
    Declara(Seq<char>),
    Escreve(int),
    Decide(Seq<ast::ArvoreInstr>, Option<Seq<ast::ArvoreInstr>>),
    Enquanto(ast::ArvoreExpr, Seq<ast::ArvoreInstr>),
    Testa(ast::ArvoreExpr, Seq<ast::ArvoreInstr>),
    PreparaPara(Seq<char>, Seq<ast::ArvoreInstr>),
    Para { variavel: Seq<char>, itens: Seq<valor::Dado>, i: int, corpo: Seq<ast::ArvoreInstr> },
    PreparaIntervalo(Seq<char>, bool, Seq<ast::ArvoreInstr>),
    Intervalo { variavel: Seq<char>, atual: i64, fim: i64, passo: i64, corpo: Seq<ast::ArvoreInstr> },
    Escolhe(EscolhaVista),
    Compara(EscolhaVista),
    Devolve,
    Lanca,
    FimTentar {
        capturar: Option<(Seq<char>, Seq<ast::ArvoreInstr>)>,
        finalmente: Option<Seq<ast::ArvoreInstr>>,
        altura: int,
    },
    FimCaptura { finalmente: Option<Seq<ast::ArvoreInstr>>, altura: int },
    Restaura { modo: ModoVisto, altura: int },
    FimLinha { linha: usize, contexto: Seq<char> },
    FimChamada,
    FimModulo { chave: Seq<char>, alias: Option<Seq<char>> },
    FimInclusao,
    Mapeia(PercursoVisto),
    Filtra(PercursoVisto),
    Reduz(PercursoVisto),
    FimSaida,
}

/// Um texto que pode faltar.
pub open spec fn texto_opcional(s: Option<String>) -> Option<Seq<char>> {
    match s {
        Some(t) => Some(t@),
        None => None,
    }
}

impl Tarefa {
    pub open spec fn view(&self) -> TarefaVista {
        match self {
            Tarefa::Avaliar(e) => TarefaVista::Avaliar(e@),
            Tarefa::FazLista(n) => TarefaVista::FazLista(*n as int),
            Tarefa::FazMapa(ks) => TarefaVista::FazMapa(texto::textos(ks@)),
            Tarefa::Atribui(s) => TarefaVista::Atribui(s@),
            Tarefa::AtribuiIndice(s) => TarefaVista::AtribuiIndice(texto_opcional(*s)),
            Tarefa::Unaria(op) => TarefaVista::Unaria(*op),
            Tarefa::Binaria(op) => TarefaVista::Binaria(*op),
            Tarefa::CurtoE(e) => TarefaVista::CurtoE(e@),
            Tarefa::CurtoOu(e) => TarefaVista::CurtoOu(e@),
            Tarefa::EmBooleano => TarefaVista::EmBooleano,
            Tarefa::Chama(s, n) => TarefaVista::Chama(s@, *n as int),
            Tarefa::Liga(l) => TarefaVista::Liga(l@),
            Tarefa::LigaCom(l) => TarefaVista::LigaCom(l@),
            Tarefa::Acessa => TarefaVista::Acessa,
            Tarefa::AcessaOpcional(s) => TarefaVista::AcessaOpcional(s@),
            Tarefa::Coalesce(e) => TarefaVista::Coalesce(e@),
            Tarefa::Bloco(b, i) => TarefaVista::Bloco(ast::instrs(b@), *i as int),
            Tarefa::Executar(x) => TarefaVista::Executar(x@),
            Tarefa::Descarta => TarefaVista::Descarta,
            Tarefa::Declara(s) => TarefaVista::Declara(s@),
            Tarefa::Escreve(n) => TarefaVista::Escreve(*n as int),
            Tarefa::Decide(a, b) => TarefaVista::Decide(ast::instrs(a@), bloco_opcional(*b)),
            Tarefa::Enquanto(c, b) => TarefaVista::Enquanto(c@, ast::instrs(b@)),
            Tarefa::Testa(c, b) => TarefaVista::Testa(c@, ast::instrs(b@)),
            Tarefa::PreparaPara(s, b) => TarefaVista::PreparaPara(s@, ast::instrs(b@)),
            Tarefa::Para { variavel, itens, i, corpo } => TarefaVista::Para {
                variavel: variavel@,
                itens: valor::vistos(itens@),
                i: *i as int,
                corpo: ast::instrs(corpo@),
            },
            Tarefa::PreparaIntervalo(s, p, b) => TarefaVista::PreparaIntervalo(s@, *p, ast::instrs(b@)),
            Tarefa::Intervalo { variavel, atual, fim, passo, corpo } => TarefaVista::Intervalo {
                variavel: variavel@,
                atual: *atual,
                fim: *fim,
                passo: *passo,
                corpo: ast::instrs(corpo@),
            },
            Tarefa::Escolhe(x) => TarefaVista::Escolhe(x@),
            Tarefa::Compara(x) => TarefaVista::Compara(x@),
            Tarefa::Devolve => TarefaVista::Devolve,
            Tarefa::Lanca => TarefaVista::Lanca,
            Tarefa::FimTentar { capturar, finalmente, altura } => TarefaVista::FimTentar {
                capturar: match capturar {
                    Some((s, b)) => Some((s@, ast::instrs(b@))),
                    None => None,
                },
                finalmente: bloco_opcional(*finalmente),
                altura: *altura as int,
            },
            Tarefa::FimCaptura { finalmente, altura } => TarefaVista::FimCaptura {
                finalmente: bloco_opcional(*finalmente),
                altura: *altura as int,
            },
            Tarefa::Restaura { modo, altura } => TarefaVista::Restaura { modo: modo@, altura: *altura as int },
            Tarefa::FimLinha { linha, contexto } => TarefaVista::FimLinha { linha: *linha, contexto: contexto@ },
            Tarefa::FimChamada => TarefaVista::FimChamada,
            Tarefa::FimModulo { chave, alias } => TarefaVista::FimModulo {
                chave: chave@,
                alias: texto_opcional(*alias),
            },
            Tarefa::FimInclusao => TarefaVista::FimInclusao,
            Tarefa::Mapeia(p) => TarefaVista::Mapeia(p@),
            Tarefa::Filtra(p) => TarefaVista::Filtra(p@),
            Tarefa::Reduz(p) => TarefaVista::Reduz(p@),
            Tarefa::FimSaida => TarefaVista::FimSaida,
        }
    }
}

/// O que varias tarefas representam.
pub open spec fn vistas(v: Seq<Tarefa>) -> Seq<TarefaVista> {
    v.map_values(|t: Tarefa| t@)
}

} // verus!
