//! As instrucoes da maquina de pilha.

use vstd::prelude::*;
use crate::ast::copiar_textos;

verus! {

/// Uma instrucao da maquina. Os enderecos dos saltos sao indices no codigo em que a
/// instrucao esta; um numero com ponto e o seu lexema.
#[derive(Debug)]
pub enum Op {
    PushNum(String),
    PushInt(i64),
    PushStr(String),
    PushBool(bool),
    Load(String),
    Store(String),
    MakeList(usize),
    MakeMap(Vec<String>),
    Jump(usize),
    JumpFalse(usize),
    JumpTrue(usize),
    Call(usize),
    CallNative(String, usize),
    Print(usize),
    Write(usize),
    TryCatch(usize),
    DefFunc { nome: String, params: Vec<String>, corpo: Vec<Op> },
    Include { caminho: String, obrigatorio: bool },
    Import { caminho: String, alias: Option<String> },
    IterStart { var: String },
    IterNext { var: String, loop_ini: usize },
    GetIndex,
    SetIndex,
    Add,
    Sub,
    Mul,
    Div,
    IntDiv,
    Mod,
    Neg,
    Not,
    Eq,
    Ne,
    Lt,
    Gt,
    Le,
    Ge,
    And,
    Or,
    Return,
    ReturnNull,
    Em,
    NaoEm,
    Throw,
    EndTry,
    TensorMatMul,
    TensorTranspor,
    TensorReLU,
    TensorSigmoid,
    TensorSoftmax,
    TensorTanh,
    TensorAdd,
    TensorSub,
    TensorMulElem,
    TensorDivElem,
    TensorPow,
    TensorNeg,
    TensorExp,
    TensorLog,
    TensorSqrt,
    TensorSomaTotal,
    TensorMediaTotal,
    TensorMaxTotal,
    TensorMinTotal,
    TensorSomaEixo,
    TensorMediaEixo,
    TensorMaxEixo,
    TensorMinEixo,
    TensorConcatenar,
    TensorEmpilhar,
    Pop,
    Dup,
    Halt,
    PushNull,
}

/// O que uma `Op` representa.
pub enum Comando {
    PushNum(Seq<char>),
    PushInt(i64),
    PushStr(Seq<char>),
    PushBool(bool),
    Load(Seq<char>),
    Store(Seq<char>),
    MakeList(int),
    MakeMap(Seq<Seq<char>>),
    Jump(int),
    JumpFalse(int),
    JumpTrue(int),
    Call(int),
    CallNative(Seq<char>, int),
    Print(int),
    Write(int),
    TryCatch(int),
    DefFunc { nome: Seq<char>, params: Seq<Seq<char>>, corpo: Seq<Comando> },
    Include { caminho: Seq<char>, obrigatorio: bool },
    Import { caminho: Seq<char>, alias: Option<Seq<char>> },
    IterStart { var: Seq<char> },
    IterNext { var: Seq<char>, loop_ini: int },
    GetIndex,
    SetIndex,
    Add,
    Sub,
    Mul,
    Div,
    IntDiv,
    Mod,
    Neg,
    Not,
    Eq,
    Ne,
    Lt,
    Gt,
    Le,
    Ge,
    And,
    Or,
    Return,
    ReturnNull,
    Em,
    NaoEm,
    Throw,
    EndTry,
    TensorMatMul,
    TensorTranspor,
    TensorReLU,
    TensorSigmoid,
    TensorSoftmax,
    TensorTanh,
    TensorAdd,
    TensorSub,
    TensorMulElem,
    TensorDivElem,
    TensorPow,
    TensorNeg,
    TensorExp,
    TensorLog,
    TensorSqrt,
    TensorSomaTotal,
    TensorMediaTotal,
    TensorMaxTotal,
    TensorMinTotal,
    TensorSomaEixo,
    TensorMediaEixo,
    TensorMaxEixo,
    TensorMinEixo,
    TensorConcatenar,
    TensorEmpilhar,
    Pop,
    Dup,
    Halt,
    PushNull,
}

/// O que um trecho de codigo representa.
pub open spec fn comandos(v: Seq<Op>) -> Seq<Comando>
    decreases v,
{
    Seq::new(
        v.len(),
        |i: int|
            if 0 <= i < v.len() {
                v[i]@
            } else {
                arbitrary()
            },
    )
}

impl Op {
    pub open spec fn view(&self) -> Comando
        decreases self,
    {
        match self {
            Op::PushNum(a) => Comando::PushNum(a@),
            Op::PushInt(a) => Comando::PushInt(*a),
            Op::PushStr(a) => Comando::PushStr(a@),
            Op::PushBool(a) => Comando::PushBool(*a),
            Op::Load(a) => Comando::Load(a@),
            Op::Store(a) => Comando::Store(a@),
            Op::MakeList(a) => Comando::MakeList(*a as int),
            Op::MakeMap(a) => Comando::MakeMap(crate::texto::textos(a@)),
            Op::Jump(a) => Comando::Jump(*a as int),
            Op::JumpFalse(a) => Comando::JumpFalse(*a as int),
            Op::JumpTrue(a) => Comando::JumpTrue(*a as int),
            Op::Call(a) => Comando::Call(*a as int),
            Op::CallNative(a, b) => Comando::CallNative(a@, *b as int),
            Op::Print(a) => Comando::Print(*a as int),
            Op::Write(a) => Comando::Write(*a as int),
            Op::TryCatch(a) => Comando::TryCatch(*a as int),
            Op::DefFunc { nome, params, corpo } => Comando::DefFunc {
                nome: nome@,
                params: crate::texto::textos(params@),
                corpo: comandos(corpo@),
            },
            Op::Include { caminho, obrigatorio } => Comando::Include {
                caminho: caminho@,
                obrigatorio: *obrigatorio,
            },
            Op::Import { caminho, alias } => Comando::Import {
                caminho: caminho@,
                alias: match alias {
                    Some(t) => Some(t@),
                    None => None,
                },
            },
            Op::IterStart { var } => Comando::IterStart {
                var: var@,
            },
            Op::IterNext { var, loop_ini } => Comando::IterNext {
                var: var@,
                loop_ini: *loop_ini as int,
            },
            Op::GetIndex => Comando::GetIndex,
            Op::SetIndex => Comando::SetIndex,
            Op::Add => Comando::Add,
            Op::Sub => Comando::Sub,
            Op::Mul => Comando::Mul,
            Op::Div => Comando::Div,
            Op::IntDiv => Comando::IntDiv,
            Op::Mod => Comando::Mod,
            Op::Neg => Comando::Neg,
            Op::Not => Comando::Not,
            Op::Eq => Comando::Eq,
            Op::Ne => Comando::Ne,
            Op::Lt => Comando::Lt,
            Op::Gt => Comando::Gt,
            Op::Le => Comando::Le,
            Op::Ge => Comando::Ge,
            Op::And => Comando::And,
            Op::Or => Comando::Or,
            Op::Return => Comando::Return,
            Op::ReturnNull => Comando::ReturnNull,
            Op::Em => Comando::Em,
            Op::NaoEm => Comando::NaoEm,
            Op::Throw => Comando::Throw,
            Op::EndTry => Comando::EndTry,
            Op::TensorMatMul => Comando::TensorMatMul,
            Op::TensorTranspor => Comando::TensorTranspor,
            Op::TensorReLU => Comando::TensorReLU,
            Op::TensorSigmoid => Comando::TensorSigmoid,
            Op::TensorSoftmax => Comando::TensorSoftmax,
            Op::TensorTanh => Comando::TensorTanh,
            Op::TensorAdd => Comando::TensorAdd,
            Op::TensorSub => Comando::TensorSub,
            Op::TensorMulElem => Comando::TensorMulElem,
            Op::TensorDivElem => Comando::TensorDivElem,
            Op::TensorPow => Comando::TensorPow,
            Op::TensorNeg => Comando::TensorNeg,
            Op::TensorExp => Comando::TensorExp,
            Op::TensorLog => Comando::TensorLog,
            Op::TensorSqrt => Comando::TensorSqrt,
            Op::TensorSomaTotal => Comando::TensorSomaTotal,
            Op::TensorMediaTotal => Comando::TensorMediaTotal,
            Op::TensorMaxTotal => Comando::TensorMaxTotal,
            Op::TensorMinTotal => Comando::TensorMinTotal,
            Op::TensorSomaEixo => Comando::TensorSomaEixo,
            Op::TensorMediaEixo => Comando::TensorMediaEixo,
            Op::TensorMaxEixo => Comando::TensorMaxEixo,
            Op::TensorMinEixo => Comando::TensorMinEixo,
            Op::TensorConcatenar => Comando::TensorConcatenar,
            Op::TensorEmpilhar => Comando::TensorEmpilhar,
            Op::Pop => Comando::Pop,
            Op::Dup => Comando::Dup,
            Op::Halt => Comando::Halt,
            Op::PushNull => Comando::PushNull,
        }
    }
}

/// Copia um trecho de codigo.
pub fn copiar_ops(v: &Vec<Op>) -> (r: Vec<Op>)
    ensures
        comandos(r@) == comandos(v@),
    decreases v,
{
    let mut r: Vec<Op> = Vec::new();
    for i in 0..v.len()
        invariant
            r@.len() == i,
            forall|k: int| 0 <= k < i ==> (#[trigger] r@[k])@ == v@[k]@,
    {
        r.push(v[i].clone());
    }
    assert(comandos(r@) == comandos(v@));
    r
}

impl Clone for Op {
    fn clone(&self) -> (r: Self)
        ensures
            r@ == self@,
        decreases self,
    {
        match self {
            Op::PushNum(a) => Op::PushNum(a.clone()),
            Op::PushInt(a) => Op::PushInt(*a),
            Op::PushStr(a) => Op::PushStr(a.clone()),
            Op::PushBool(a) => Op::PushBool(*a),
            Op::Load(a) => Op::Load(a.clone()),
            Op::Store(a) => Op::Store(a.clone()),
            Op::MakeList(a) => Op::MakeList(*a),
            Op::MakeMap(a) => Op::MakeMap(copiar_textos(a)),
            Op::Jump(a) => Op::Jump(*a),
            Op::JumpFalse(a) => Op::JumpFalse(*a),
            Op::JumpTrue(a) => Op::JumpTrue(*a),
            Op::Call(a) => Op::Call(*a),
            Op::CallNative(a, b) => Op::CallNative(a.clone(), *b),
            Op::Print(a) => Op::Print(*a),
            Op::Write(a) => Op::Write(*a),
            Op::TryCatch(a) => Op::TryCatch(*a),
            Op::DefFunc { nome, params, corpo } => Op::DefFunc {
                nome: nome.clone(),
                params: copiar_textos(params),
                corpo: copiar_ops(corpo),
            },
            Op::Include { caminho, obrigatorio } => Op::Include {
                caminho: caminho.clone(),
                obrigatorio: *obrigatorio,
            },
            Op::Import { caminho, alias } => Op::Import {
                caminho: caminho.clone(),
                alias: match alias {
                    Some(t) => Some(t.clone()),
                    None => None,
                },
            },
            Op::IterStart { var } => Op::IterStart {
                var: var.clone(),
            },
            Op::IterNext { var, loop_ini } => Op::IterNext {
                var: var.clone(),
                loop_ini: *loop_ini,
            },
            Op::GetIndex => Op::GetIndex,
            Op::SetIndex => Op::SetIndex,
            Op::Add => Op::Add,
            Op::Sub => Op::Sub,
            Op::Mul => Op::Mul,
            Op::Div => Op::Div,
            Op::IntDiv => Op::IntDiv,
            Op::Mod => Op::Mod,
            Op::Neg => Op::Neg,
            Op::Not => Op::Not,
            Op::Eq => Op::Eq,
            Op::Ne => Op::Ne,
            Op::Lt => Op::Lt,
            Op::Gt => Op::Gt,
            Op::Le => Op::Le,
            Op::Ge => Op::Ge,
            Op::And => Op::And,
            Op::Or => Op::Or,
            Op::Return => Op::Return,
            Op::ReturnNull => Op::ReturnNull,
            Op::Em => Op::Em,
            Op::NaoEm => Op::NaoEm,
            Op::Throw => Op::Throw,
            Op::EndTry => Op::EndTry,
            Op::TensorMatMul => Op::TensorMatMul,
            Op::TensorTranspor => Op::TensorTranspor,
            Op::TensorReLU => Op::TensorReLU,
            Op::TensorSigmoid => Op::TensorSigmoid,
            Op::TensorSoftmax => Op::TensorSoftmax,
            Op::TensorTanh => Op::TensorTanh,
            Op::TensorAdd => Op::TensorAdd,
            Op::TensorSub => Op::TensorSub,
            Op::TensorMulElem => Op::TensorMulElem,
            Op::TensorDivElem => Op::TensorDivElem,
            Op::TensorPow => Op::TensorPow,
            Op::TensorNeg => Op::TensorNeg,
            Op::TensorExp => Op::TensorExp,
            Op::TensorLog => Op::TensorLog,
            Op::TensorSqrt => Op::TensorSqrt,
            Op::TensorSomaTotal => Op::TensorSomaTotal,
            Op::TensorMediaTotal => Op::TensorMediaTotal,
            Op::TensorMaxTotal => Op::TensorMaxTotal,
            Op::TensorMinTotal => Op::TensorMinTotal,
            Op::TensorSomaEixo => Op::TensorSomaEixo,
            Op::TensorMediaEixo => Op::TensorMediaEixo,
            Op::TensorMaxEixo => Op::TensorMaxEixo,
            Op::TensorMinEixo => Op::TensorMinEixo,
            Op::TensorConcatenar => Op::TensorConcatenar,
            Op::TensorEmpilhar => Op::TensorEmpilhar,
            Op::Pop => Op::Pop,
            Op::Dup => Op::Dup,
            Op::Halt => Op::Halt,
            Op::PushNull => Op::PushNull,
        }
    }
}

} // verus!
