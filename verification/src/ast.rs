//! A arvore sintatica da linguagem e o que ela representa.

use vstd::prelude::*;

verus! {

/// Um operador de dois operandos.
#[derive(Debug, Clone, Copy, PartialEq, Eq, Structural)]
pub enum OpBinario {
    Soma,
    Subtracao,
    Multiplicacao,
    Divisao,
    DivisaoInteira,
    Modulo,
    Igual,
    DiferenteDe,
    MenorQue,
    MaiorQue,
    MenorOuIgual,
    MaiorOuIgual,
    E,
    Ou,
    Em,
    NaoEm,
}

/// Um operador de um operando.
#[derive(Debug, Clone, Copy, PartialEq, Eq, Structural)]
pub enum OpUnario {
    Negativo,
    Nao,
}

/// Um parametro de funcao.
#[derive(Debug)]
pub struct Parametro {
    pub nome: String,
    pub padrao: Option<Expressao>,
    pub variadic: bool,
}

/// Uma expressao. Um numero com ponto guarda o seu lexema.
#[derive(Debug)]
pub enum Expressao {
    Inteiro(i64),
    Numero(String),
    Texto(String),
    Booleano(bool),
    Nulo,
    Lista(Vec<Expressao>),
    Mapa(Vec<(String, Expressao)>),
    Variavel(String),
    BinOp { esq: Box<Expressao>, op: OpBinario, dir: Box<Expressao> },
    UnOp { op: OpUnario, expr: Box<Expressao> },
    Atribuicao { nome: String, valor: Box<Expressao> },
    AtribuicaoIndexada { objeto: Box<Expressao>, indice: Box<Expressao>, valor: Box<Expressao> },
    ChamadaFuncao { nome: String, args: Vec<Expressao> },
    Chamada { funcao: Box<Expressao>, args: Vec<Expressao> },
    FuncaoAnonima { parametros: Vec<Parametro>, corpo: Vec<Instrucao> },
    Acesso { objeto: Box<Expressao>, indice: Box<Expressao> },
    AcessoOpcional { objeto: Box<Expressao>, chave: String },
    NullCoalescente { esq: Box<Expressao>, dir: Box<Expressao> },
    FuncaoSeta { parametros: Vec<String>, corpo: Box<Expressao> },
}

/// Uma instrucao.
#[derive(Debug)]
pub enum Instrucao {
    Localizada { linha: usize, contexto: String, instrucao: Box<Instrucao> },
    Expressao(Expressao),
    DeclararVar { nome: String, valor: Option<Expressao> },
    Se { condicao: Expressao, entao: Vec<Instrucao>, senao: Option<Vec<Instrucao>> },
    Enquanto { condicao: Expressao, corpo: Vec<Instrucao> },
    Para { variavel: String, iteravel: Expressao, corpo: Vec<Instrucao> },
    ParaIntervalo {
        variavel: String,
        inicio: Expressao,
        fim: Expressao,
        passo: Option<Expressao>,
        corpo: Vec<Instrucao>,
    },
    Escolher {
        expr: Expressao,
        casos: Vec<(Vec<Expressao>, Vec<Instrucao>)>,
        padrao: Option<Vec<Instrucao>>,
    },
    Funcao { nome: String, parametros: Vec<Parametro>, corpo: Vec<Instrucao> },
    Retornar(Option<Expressao>),
    Pare,
    Continue,
    Imprimir(Vec<Expressao>),
    Tentar {
        corpo: Vec<Instrucao>,
        capturar: Option<(String, Vec<Instrucao>)>,
        finalmente: Option<Vec<Instrucao>>,
    },
    Lancar(Expressao),
    Importar { caminho: String, alias: Option<String> },
    Incluir { caminho: String, obrigatorio: bool },
}

/// Um programa.
pub type Programa = Vec<Instrucao>;

// ---- O que as arvores representam -------------------------------------------------

/// O que um `Parametro` representa.
pub struct ArvoreParam {
    pub nome: Seq<char>,
    pub padrao: Option<ArvoreExpr>,
    pub variadic: bool,
}

/// O que uma `Expressao` representa.
pub enum ArvoreExpr {
    Inteiro(i64),
    Numero(Seq<char>),
    Texto(Seq<char>),
    Booleano(bool),
    Nulo,
    Lista(Seq<ArvoreExpr>),
    Mapa(Seq<(Seq<char>, ArvoreExpr)>),
    Variavel(Seq<char>),
    BinOp { esq: Box<ArvoreExpr>, op: OpBinario, dir: Box<ArvoreExpr> },
    UnOp { op: OpUnario, expr: Box<ArvoreExpr> },
    Atribuicao { nome: Seq<char>, valor: Box<ArvoreExpr> },
    AtribuicaoIndexada { objeto: Box<ArvoreExpr>, indice: Box<ArvoreExpr>, valor: Box<ArvoreExpr> },
    ChamadaFuncao { nome: Seq<char>, args: Seq<ArvoreExpr> },
    Chamada { funcao: Box<ArvoreExpr>, args: Seq<ArvoreExpr> },
    FuncaoAnonima { parametros: Seq<ArvoreParam>, corpo: Seq<ArvoreInstr> },
    Acesso { objeto: Box<ArvoreExpr>, indice: Box<ArvoreExpr> },
    AcessoOpcional { objeto: Box<ArvoreExpr>, chave: Seq<char> },
    NullCoalescente { esq: Box<ArvoreExpr>, dir: Box<ArvoreExpr> },
    FuncaoSeta { parametros: Seq<Seq<char>>, corpo: Box<ArvoreExpr> },
}

/// O que uma `Instrucao` representa.
pub enum ArvoreInstr {
    Localizada { linha: usize, contexto: Seq<char>, instrucao: Box<ArvoreInstr> },
    Expressao(ArvoreExpr),
    DeclararVar { nome: Seq<char>, valor: Option<ArvoreExpr> },
    Se { condicao: ArvoreExpr, entao: Seq<ArvoreInstr>, senao: Option<Seq<ArvoreInstr>> },
    Enquanto { condicao: ArvoreExpr, corpo: Seq<ArvoreInstr> },
    Para { variavel: Seq<char>, iteravel: ArvoreExpr, corpo: Seq<ArvoreInstr> },
    ParaIntervalo {
        variavel: Seq<char>,
        inicio: ArvoreExpr,
        fim: ArvoreExpr,
        passo: Option<ArvoreExpr>,
        corpo: Seq<ArvoreInstr>,
    },
    Escolher {
        expr: ArvoreExpr,
        casos: Seq<(Seq<ArvoreExpr>, Seq<ArvoreInstr>)>,
        padrao: Option<Seq<ArvoreInstr>>,
    },
    Funcao { nome: Seq<char>, parametros: Seq<ArvoreParam>, corpo: Seq<ArvoreInstr> },
    Retornar(Option<ArvoreExpr>),
    Pare,
    Continue,
    Imprimir(Seq<ArvoreExpr>),
    Tentar {
        corpo: Seq<ArvoreInstr>,
        capturar: Option<(Seq<char>, Seq<ArvoreInstr>)>,
        finalmente: Option<Seq<ArvoreInstr>>,
    },
    Lancar(ArvoreExpr),
    Importar { caminho: Seq<char>, alias: Option<Seq<char>> },
    Incluir { caminho: Seq<char>, obrigatorio: bool },
}

/// O que uma lista de expressoes representa.
pub open spec fn exprs(v: Seq<Expressao>) -> Seq<ArvoreExpr>
    decreases v,
{
    Seq::new(
        v.len(),
        |i: int|
            if 0 <= i < v.len() {
                v[i]@
            } else {
                arbitrary()
            },
    )
}

/// O que os pares de um mapa representam.
pub open spec fn pares(v: Seq<(String, Expressao)>) -> Seq<(Seq<char>, ArvoreExpr)>
    decreases v,
{
    Seq::new(
        v.len(),
        |i: int|
            if 0 <= i < v.len() {
                (v[i].0@, v[i].1@)
            } else {
                arbitrary()
            },
    )
}

/// O que uma lista de instrucoes representa.
pub open spec fn instrs(v: Seq<Instrucao>) -> Seq<ArvoreInstr>
    decreases v,
{
    Seq::new(
        v.len(),
        |i: int|
            if 0 <= i < v.len() {
                v[i]@
            } else {
                arbitrary()
            },
    )
}

/// O que uma lista de parametros representa.
pub open spec fn params(v: Seq<Parametro>) -> Seq<ArvoreParam>
    decreases v,
{
    Seq::new(
        v.len(),
        |i: int|
            if 0 <= i < v.len() {
                v[i]@
            } else {
                arbitrary()
            },
    )
}

/// O que os casos de um `escolher` representam.
pub open spec fn casos_de(v: Seq<(Vec<Expressao>, Vec<Instrucao>)>) -> Seq<
    (Seq<ArvoreExpr>, Seq<ArvoreInstr>),
>
    decreases v,
{
    Seq::new(
        v.len(),
        |i: int|
            if 0 <= i < v.len() {
                (exprs(v[i].0@), instrs(v[i].1@))
            } else {
                arbitrary()
            },
    )
}

impl Parametro {
    pub open spec fn view(&self) -> ArvoreParam
        decreases self,
    {
        ArvoreParam {
            nome: self.nome@,
            padrao: match self.padrao {
                Some(e) => Some(e@),
                None => None,
            },
            variadic: self.variadic,
        }
    }
}

impl Expressao {
    pub open spec fn view(&self) -> ArvoreExpr
        decreases self,
    {
        match self {
            Expressao::Inteiro(n) => ArvoreExpr::Inteiro(*n),
            Expressao::Numero(t) => ArvoreExpr::Numero(t@),
            Expressao::Texto(t) => ArvoreExpr::Texto(t@),
            Expressao::Booleano(b) => ArvoreExpr::Booleano(*b),
            Expressao::Nulo => ArvoreExpr::Nulo,
            Expressao::Lista(v) => ArvoreExpr::Lista(exprs(v@)),
            Expressao::Mapa(v) => ArvoreExpr::Mapa(pares(v@)),
            Expressao::Variavel(n) => ArvoreExpr::Variavel(n@),
            Expressao::BinOp { esq, op, dir } => ArvoreExpr::BinOp {
                esq: Box::new(esq@),
                op: *op,
                dir: Box::new(dir@),
            },
            Expressao::UnOp { op, expr } => ArvoreExpr::UnOp { op: *op, expr: Box::new(expr@) },
            Expressao::Atribuicao { nome, valor } => ArvoreExpr::Atribuicao {
                nome: nome@,
                valor: Box::new(valor@),
            },
            Expressao::AtribuicaoIndexada { objeto, indice, valor } => ArvoreExpr::AtribuicaoIndexada {
                objeto: Box::new(objeto@),
                indice: Box::new(indice@),
                valor: Box::new(valor@),
            },
            Expressao::ChamadaFuncao { nome, args } => ArvoreExpr::ChamadaFuncao {
                nome: nome@,
                args: exprs(args@),
            },
            Expressao::Chamada { funcao, args } => ArvoreExpr::Chamada {
                funcao: Box::new(funcao@),
                args: exprs(args@),
            },
            Expressao::FuncaoAnonima { parametros, corpo } => ArvoreExpr::FuncaoAnonima {
                parametros: params(parametros@),
                corpo: instrs(corpo@),
            },
            Expressao::Acesso { objeto, indice } => ArvoreExpr::Acesso {
                objeto: Box::new(objeto@),
                indice: Box::new(indice@),
            },
            Expressao::AcessoOpcional { objeto, chave } => ArvoreExpr::AcessoOpcional {
                objeto: Box::new(objeto@),
                chave: chave@,
            },
            Expressao::NullCoalescente { esq, dir } => ArvoreExpr::NullCoalescente {
                esq: Box::new(esq@),
                dir: Box::new(dir@),
            },
            Expressao::FuncaoSeta { parametros, corpo } => ArvoreExpr::FuncaoSeta {
                parametros: crate::texto::textos(parametros@),
                corpo: Box::new(corpo@),
            },
        }
    }
}

impl Instrucao {
    pub open spec fn view(&self) -> ArvoreInstr
        decreases self,
    {
        match self {
            Instrucao::Localizada { linha, contexto, instrucao } => ArvoreInstr::Localizada {
                linha: *linha,
                contexto: contexto@,
                instrucao: Box::new(instrucao@),
            },
            Instrucao::Expressao(e) => ArvoreInstr::Expressao(e@),
            Instrucao::DeclararVar { nome, valor } => ArvoreInstr::DeclararVar {
                nome: nome@,
                valor: match valor {
                    Some(e) => Some(e@),
                    None => None,
                },
            },
            Instrucao::Se { condicao, entao, senao } => ArvoreInstr::Se {
                condicao: condicao@,
                entao: instrs(entao@),
                senao: match senao {
                    Some(b) => Some(instrs(b@)),
                    None => None,
                },
            },
            Instrucao::Enquanto { condicao, corpo } => ArvoreInstr::Enquanto {
                condicao: condicao@,
                corpo: instrs(corpo@),
            },
            Instrucao::Para { variavel, iteravel, corpo } => ArvoreInstr::Para {
                variavel: variavel@,
                iteravel: iteravel@,
                corpo: instrs(corpo@),
            },
            Instrucao::ParaIntervalo { variavel, inicio, fim, passo, corpo } => ArvoreInstr::ParaIntervalo {
                variavel: variavel@,
                inicio: inicio@,
                fim: fim@,
                passo: match passo {
                    Some(e) => Some(e@),
                    None => None,
                },
                corpo: instrs(corpo@),
            },
            Instrucao::Escolher { expr, casos, padrao } => ArvoreInstr::Escolher {
                expr: expr@,
                casos: casos_de(casos@),
                padrao: match padrao {
                    Some(b) => Some(instrs(b@)),
                    None => None,
                },
            },
            Instrucao::Funcao { nome, parametros, corpo } => ArvoreInstr::Funcao {
                nome: nome@,
                parametros: params(parametros@),
                corpo: instrs(corpo@),
            },
            Instrucao::Retornar(e) => ArvoreInstr::Retornar(
                match e {
                    Some(e) => Some(e@),
                    None => None,
                },
            ),
            Instrucao::Pare => ArvoreInstr::Pare,
            Instrucao::Continue => ArvoreInstr::Continue,
            Instrucao::Imprimir(v) => ArvoreInstr::Imprimir(exprs(v@)),
            Instrucao::Tentar { corpo, capturar, finalmente } => ArvoreInstr::Tentar {
                corpo: instrs(corpo@),
                capturar: match capturar {
                    Some(c) => Some((c.0@, instrs(c.1@))),
                    None => None,
                },
                finalmente: match finalmente {
                    Some(b) => Some(instrs(b@)),
                    None => None,
                },
            },
            Instrucao::Lancar(e) => ArvoreInstr::Lancar(e@),
            Instrucao::Importar { caminho, alias } => ArvoreInstr::Importar {
                caminho: caminho@,
                alias: match alias {
                    Some(a) => Some(a@),
                    None => None,
                },
            },
            Instrucao::Incluir { caminho, obrigatorio } => ArvoreInstr::Incluir {
                caminho: caminho@,
                obrigatorio: *obrigatorio,
            },
        }
    }
}

// ---- Copias -------------------------------------------------------------------------

/// Copia uma lista de expressoes.
pub fn copiar_exprs(v: &Vec<Expressao>) -> (r: Vec<Expressao>)
    ensures
        exprs(r@) == exprs(v@),
    decreases v,
{
    let mut r: Vec<Expressao> = Vec::new();
    for i in 0..v.len()
        invariant
            r@.len() == i,
            forall|k: int| 0 <= k < i ==> (#[trigger] r@[k])@ == v@[k]@,
    {
        r.push(v[i].clone());
    }
    assert(exprs(r@) == exprs(v@));
    r
}

/// Copia os pares de um mapa.
pub fn copiar_pares(v: &Vec<(String, Expressao)>) -> (r: Vec<(String, Expressao)>)
    ensures
        pares(r@) == pares(v@),
    decreases v,
{
    let mut r: Vec<(String, Expressao)> = Vec::new();
    for i in 0..v.len()
        invariant
            r@.len() == i,
            forall|k: int| 0 <= k < i ==> (#[trigger] r@[k]).0@ == v@[k].0@ && r@[k].1@ == v@[k].1@,
    {
        let p = &v[i];
        r.push((p.0.clone(), p.1.clone()));
    }
    assert(pares(r@) == pares(v@));
    r
}

/// Copia uma lista de instrucoes.
pub fn copiar_instrs(v: &Vec<Instrucao>) -> (r: Vec<Instrucao>)
    ensures
        instrs(r@) == instrs(v@),
    decreases v,
{
    let mut r: Vec<Instrucao> = Vec::new();
    for i in 0..v.len()
        invariant
            r@.len() == i,
            forall|k: int| 0 <= k < i ==> (#[trigger] r@[k])@ == v@[k]@,
    {
        r.push(v[i].clone());
    }
    assert(instrs(r@) == instrs(v@));
    r
}

/// Copia uma lista de parametros.
pub fn copiar_params(v: &Vec<Parametro>) -> (r: Vec<Parametro>)
    ensures
        params(r@) == params(v@),
    decreases v,
{
    let mut r: Vec<Parametro> = Vec::new();
    for i in 0..v.len()
        invariant
            r@.len() == i,
            forall|k: int| 0 <= k < i ==> (#[trigger] r@[k])@ == v@[k]@,
    {
        r.push(v[i].clone());
    }
    assert(params(r@) == params(v@));
    r
}

/// Copia os casos de um `escolher`.
pub fn copiar_casos(v: &Vec<(Vec<Expressao>, Vec<Instrucao>)>) -> (r: Vec<
    (Vec<Expressao>, Vec<Instrucao>),
>)
    ensures
        casos_de(r@) == casos_de(v@),
    decreases v,
{
    let mut r: Vec<(Vec<Expressao>, Vec<Instrucao>)> = Vec::new();
    for i in 0..v.len()
        invariant
            r@.len() == i,
            forall|k: int|
                0 <= k < i ==> exprs((#[trigger] r@[k]).0@) == exprs(v@[k].0@) && instrs(r@[k].1@)
                    == instrs(v@[k].1@),
    {
        let c = &v[i];
        r.push((copiar_exprs(&c.0), copiar_instrs(&c.1)));
    }
    assert(casos_de(r@) == casos_de(v@));
    r
}

/// Copia uma lista de textos.
pub fn copiar_textos(v: &Vec<String>) -> (r: Vec<String>)
    ensures
        crate::texto::textos(r@) == crate::texto::textos(v@),
{
    let mut r: Vec<String> = Vec::new();
    for i in 0..v.len()
        invariant
            r@.len() == i,
            forall|k: int| 0 <= k < i ==> (#[trigger] r@[k])@ == v@[k]@,
    {
        r.push(v[i].clone());
    }
    assert(crate::texto::textos(r@) == crate::texto::textos(v@));
    r
}

impl Clone for Parametro {
    fn clone(&self) -> (r: Self)
        ensures
            r@ == self@,
        decreases self,
    {
        Parametro {
            nome: self.nome.clone(),
            padrao: match &self.padrao {
                Some(e) => Some(e.clone()),
                None => None,
            },
            variadic: self.variadic,
        }
    }
}

impl Clone for Expressao {
    fn clone(&self) -> (r: Self)
        ensures
            r@ == self@,
        decreases self,
    {
        match self {
            Expressao::Inteiro(n) => Expressao::Inteiro(*n),
            Expressao::Numero(t) => Expressao::Numero(t.clone()),
            Expressao::Texto(t) => Expressao::Texto(t.clone()),
            Expressao::Booleano(b) => Expressao::Booleano(*b),
            Expressao::Nulo => Expressao::Nulo,
            Expressao::Lista(v) => Expressao::Lista(copiar_exprs(v)),
            Expressao::Mapa(v) => Expressao::Mapa(copiar_pares(v)),
            Expressao::Variavel(n) => Expressao::Variavel(n.clone()),
            Expressao::BinOp { esq, op, dir } => Expressao::BinOp {
                esq: Box::new((**esq).clone()),
                op: *op,
                dir: Box::new((**dir).clone()),
            },
            Expressao::UnOp { op, expr } => Expressao::UnOp { op: *op, expr: Box::new((**expr).clone()) },
            Expressao::Atribuicao { nome, valor } => Expressao::Atribuicao {
                nome: nome.clone(),
                valor: Box::new((**valor).clone()),
            },
            Expressao::AtribuicaoIndexada { objeto, indice, valor } => Expressao::AtribuicaoIndexada {
                objeto: Box::new((**objeto).clone()),
                indice: Box::new((**indice).clone()),
                valor: Box::new((**valor).clone()),
            },
            Expressao::ChamadaFuncao { nome, args } => Expressao::ChamadaFuncao {
                nome: nome.clone(),
                args: copiar_exprs(args),
            },
            Expressao::Chamada { funcao, args } => Expressao::Chamada {
                funcao: Box::new((**funcao).clone()),
                args: copiar_exprs(args),
            },
            Expressao::FuncaoAnonima { parametros, corpo } => Expressao::FuncaoAnonima {
                parametros: copiar_params(parametros),
                corpo: copiar_instrs(corpo),
            },
            Expressao::Acesso { objeto, indice } => Expressao::Acesso {
                objeto: Box::new((**objeto).clone()),
                indice: Box::new((**indice).clone()),
            },
            Expressao::AcessoOpcional { objeto, chave } => Expressao::AcessoOpcional {
                objeto: Box::new((**objeto).clone()),
                chave: chave.clone(),
            },
            Expressao::NullCoalescente { esq, dir } => Expressao::NullCoalescente {
                esq: Box::new((**esq).clone()),
                dir: Box::new((**dir).clone()),
            },
            Expressao::FuncaoSeta { parametros, corpo } => Expressao::FuncaoSeta {
                parametros: copiar_textos(parametros),
                corpo: Box::new((**corpo).clone()),
            },
        }
    }
}

impl Clone for Instrucao {
    fn clone(&self) -> (r: Self)
        ensures
            r@ == self@,
        decreases self,
    {
        match self {
            Instrucao::Localizada { linha, contexto, instrucao } => Instrucao::Localizada {
                linha: *linha,
                contexto: contexto.clone(),
                instrucao: Box::new((**instrucao).clone()),
            },
            Instrucao::Expressao(e) => Instrucao::Expressao(e.clone()),
            Instrucao::DeclararVar { nome, valor } => Instrucao::DeclararVar {
                nome: nome.clone(),
                valor: match valor {
                    Some(e) => Some(e.clone()),
                    None => None,
                },
            },
            Instrucao::Se { condicao, entao, senao } => Instrucao::Se {
                condicao: condicao.clone(),
                entao: copiar_instrs(entao),
                senao: match senao {
                    Some(b) => Some(copiar_instrs(b)),
                    None => None,
                },
            },
            Instrucao::Enquanto { condicao, corpo } => Instrucao::Enquanto {
                condicao: condicao.clone(),
                corpo: copiar_instrs(corpo),
            },
            Instrucao::Para { variavel, iteravel, corpo } => Instrucao::Para {
                variavel: variavel.clone(),
                iteravel: iteravel.clone(),
                corpo: copiar_instrs(corpo),
            },
            Instrucao::ParaIntervalo { variavel, inicio, fim, passo, corpo } => Instrucao::ParaIntervalo {
                variavel: variavel.clone(),
                inicio: inicio.clone(),
                fim: fim.clone(),
                passo: match passo {
                    Some(e) => Some(e.clone()),
                    None => None,
                },
                corpo: copiar_instrs(corpo),
            },
            Instrucao::Escolher { expr, casos, padrao } => Instrucao::Escolher {
                expr: expr.clone(),
                casos: copiar_casos(casos),
                padrao: match padrao {
                    Some(b) => Some(copiar_instrs(b)),
                    None => None,
                },
            },
            Instrucao::Funcao { nome, parametros, corpo } => Instrucao::Funcao {
                nome: nome.clone(),
                parametros: copiar_params(parametros),
                corpo: copiar_instrs(corpo),
            },
            Instrucao::Retornar(e) => Instrucao::Retornar(
                match e {
                    Some(e) => Some(e.clone()),
                    None => None,
                },
            ),
            Instrucao::Pare => Instrucao::Pare,
            Instrucao::Continue => Instrucao::Continue,
            Instrucao::Imprimir(v) => Instrucao::Imprimir(copiar_exprs(v)),
            Instrucao::Tentar { corpo, capturar, finalmente } => Instrucao::Tentar {
                corpo: copiar_instrs(corpo),
                capturar: match capturar {
                    Some(c) => Some((c.0.clone(), copiar_instrs(&c.1))),
                    None => None,
                },
                finalmente: match finalmente {
                    Some(b) => Some(copiar_instrs(b)),
                    None => None,
                },
            },
            Instrucao::Lancar(e) => Instrucao::Lancar(e.clone()),
            Instrucao::Importar { caminho, alias } => Instrucao::Importar {
                caminho: caminho.clone(),
                alias: match alias {
                    Some(a) => Some(a.clone()),
                    None => None,
                },
            },
            Instrucao::Incluir { caminho, obrigatorio } => Instrucao::Incluir {
                caminho: caminho.clone(),
                obrigatorio: *obrigatorio,
            },
        }
    }
}

} // verus!
