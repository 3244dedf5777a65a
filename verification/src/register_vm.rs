//! A maquina de registradores: o codigo, o compilador e a execucao.

use vstd::prelude::*;
use crate::ast::{Expressao, Instrucao, OpBinario, OpUnario};
use crate::ast;
use crate::busca;
use crate::decimal::Decimal;
use crate::decimal;
use crate::maquina;
use crate::operacoes::{comparar_numeros, em_numero, Conta, Relacao};
use crate::operacoes;
use crate::texto;
use crate::vm::{frase, VmValor};
use crate::vm;

verus! {

// ---- Codigo -----------------------------------------------------------------------------

/// O numero de um registrador.
pub type Registro = u16;

/// Uma instrucao da maquina.
#[derive(Debug)]
pub enum InstrucaoReg {
    Constante { destino: Registro, valor: VmValor },
    Numero { destino: Registro, lexema: String },
    Mover { destino: Registro, origem: Registro },
    Binaria { destino: Registro, a: Registro, op: OpBinario, b: Registro },
    Unaria { destino: Registro, op: OpUnario, origem: Registro },
    IntervaloValido { destino: Registro, atual: Registro, fim: Registro, passo: Registro },
    Imprimir(Vec<Registro>),
    Pular(usize),
    PularSeFalso { condicao: Registro, alvo: usize },
    Parar,
}

/// O que uma instrucao representa.
pub ghost enum Codigo {
    Constante { destino: Registro, valor: vm::Visto },
    Numero { destino: Registro, lexema: Seq<char> },
    Mover { destino: Registro, origem: Registro },
    Binaria { destino: Registro, a: Registro, op: OpBinario, b: Registro },
    Unaria { destino: Registro, op: OpUnario, origem: Registro },
    IntervaloValido { destino: Registro, atual: Registro, fim: Registro, passo: Registro },
    Imprimir(Seq<Registro>),
    Pular(int),
    PularSeFalso { condicao: Registro, alvo: int },
    Parar,
}

impl InstrucaoReg {
    pub open spec fn view(&self) -> Codigo {
        match self {
            InstrucaoReg::Constante { destino, valor } => Codigo::Constante { destino: *destino, valor: valor@ },
            InstrucaoReg::Numero { destino, lexema } => Codigo::Numero { destino: *destino, lexema: lexema@ },
            InstrucaoReg::Mover { destino, origem } => Codigo::Mover { destino: *destino, origem: *origem },
            InstrucaoReg::Binaria { destino, a, op, b } => Codigo::Binaria {
                destino: *destino,
                a: *a,
                op: *op,
                b: *b,
            },
            InstrucaoReg::Unaria { destino, op, origem } => Codigo::Unaria {
                destino: *destino,
                op: *op,
                origem: *origem,
            },
            InstrucaoReg::IntervaloValido { destino, atual, fim, passo } => Codigo::IntervaloValido {
                destino: *destino,
                atual: *atual,
                fim: *fim,
                passo: *passo,
            },
            InstrucaoReg::Imprimir(v) => Codigo::Imprimir(v@),
            InstrucaoReg::Pular(a) => Codigo::Pular(*a as int),
            InstrucaoReg::PularSeFalso { condicao, alvo } => Codigo::PularSeFalso {
                condicao: *condicao,
                alvo: *alvo as int,
            },
            InstrucaoReg::Parar => Codigo::Parar,
        }
    }
}

/// As instrucoes vistas.
pub open spec fn codigos(v: Seq<InstrucaoReg>) -> Seq<Codigo> {
    v.map_values(|i: InstrucaoReg| i@)
}

/// Um programa: as instrucoes e quantos registradores elas usam.
#[derive(Debug)]
pub struct ProgramaReg {
    pub instrucoes: Vec<InstrucaoReg>,
    pub quantidade_registradores: usize,
}

// ---- Compilador -------------------------------------------------------------------------

/// O que se compilou ate um ponto: o codigo, os registradores das variaveis e o proximo livre.
pub ghost struct Obra {
    pub codigo: Seq<Codigo>,
    pub variaveis: Seq<(Seq<char>, Registro)>,
    pub proximo: Registro,
}

/// Uma obra e um registrador, ou a falha.
pub type ComRegistro = Result<(Obra, Registro), Seq<char>>;

/// Uma obra, ou a falha.
pub type Feita = Result<Obra, Seq<char>>;

/// A obra com mais uma instrucao.
pub open spec fn mais(o: Obra, c: Codigo) -> Obra {
    Obra { codigo: o.codigo.push(c), ..o }
}

/// Um registrador novo.
pub open spec fn novo(o: Obra) -> ComRegistro {
    if o.proximo == u16::MAX {
        Err("limite de registradores excedido"@)
    } else {
        Ok((Obra { proximo: (o.proximo + 1) as u16, ..o }, o.proximo))
    }
}

/// O registrador de uma variavel a partir da posicao `i`.
pub open spec fn registro_de(vs: Seq<(Seq<char>, Registro)>, nome: Seq<char>, i: int) -> Option<Registro>
    decreases vs.len() - i,
{
    if i < 0 || i >= vs.len() {
        None
    } else if vs[i].0 == nome {
        Some(vs[i].1)
    } else {
        registro_de(vs, nome, i + 1)
    }
}

/// O registrador de uma variavel, novo se ela ainda nao o tem.
pub open spec fn variavel(o: Obra, nome: Seq<char>) -> ComRegistro {
    match registro_de(o.variaveis, nome, 0) {
        Some(r) => Ok((o, r)),
        None => match novo(o) {
            Ok((p, r)) => Ok((Obra { variaveis: p.variaveis.push((nome, r)), ..p }, r)),
            Err(m) => Err(m),
        },
    }
}

/// Uma constante num registrador novo.
pub open spec fn constante(o: Obra, v: vm::Visto) -> ComRegistro {
    match novo(o) {
        Ok((p, r)) => Ok((mais(p, Codigo::Constante { destino: r, valor: v }), r)),
        Err(m) => Err(m),
    }
}

/// Uma expressao, e o registrador em que o seu valor fica.
pub open spec fn expressao(o: Obra, e: ast::ArvoreExpr) -> ComRegistro
    decreases e,
{
    match e {
        ast::ArvoreExpr::Inteiro(n) => constante(o, vm::Visto::Int(n)),
        ast::ArvoreExpr::Numero(t) => match novo(o) {
            Ok((p, r)) => Ok((mais(p, Codigo::Numero { destino: r, lexema: t }), r)),
            Err(m) => Err(m),
        },
        ast::ArvoreExpr::Texto(s) => constante(o, vm::Visto::Str(s)),
        ast::ArvoreExpr::Booleano(b) => constante(o, vm::Visto::Bool(b)),
        ast::ArvoreExpr::Nulo => constante(o, vm::Visto::Null),
        ast::ArvoreExpr::Variavel(nome) => match registro_de(o.variaveis, nome, 0) {
            Some(r) => Ok((o, r)),
            None => Err("variavel '"@ + nome + "' usada antes da declaracao"@),
        },
        ast::ArvoreExpr::Atribuicao { nome, valor } => match expressao(o, *valor) {
            Ok((p, origem)) => match variavel(p, nome) {
                Ok((q, destino)) => Ok((mais(q, Codigo::Mover { destino, origem }), destino)),
                Err(m) => Err(m),
            },
            Err(m) => Err(m),
        },
        ast::ArvoreExpr::BinOp { esq, op, dir } => match expressao(o, *esq) {
            Ok((p, a)) => match expressao(p, *dir) {
                Ok((q, b)) => match novo(q) {
                    Ok((r, destino)) => Ok((mais(r, Codigo::Binaria { destino, a, op, b }), destino)),
                    Err(m) => Err(m),
                },
                Err(m) => Err(m),
            },
            Err(m) => Err(m),
        },
        ast::ArvoreExpr::UnOp { op, expr } => match expressao(o, *expr) {
            Ok((p, origem)) => match novo(p) {
                Ok((r, destino)) => Ok((mais(r, Codigo::Unaria { destino, op, origem }), destino)),
                Err(m) => Err(m),
            },
            Err(m) => Err(m),
        },
        _ => Err("expressao ainda nao suportada pela VM de registradores experimental"@),
    }
}

/// As primeiras `n` expressoes, e os registradores dos seus valores.
pub open spec fn expressoes(o: Obra, es: Seq<ast::ArvoreExpr>, n: int) -> Result<(Obra, Seq<Registro>), Seq<char>>
    decreases n,
{
    if n <= 0 || n > es.len() {
        Ok((o, Seq::empty()))
    } else {
        match expressoes(o, es, n - 1) {
            Ok((p, rs)) => match expressao(p, es[n - 1]) {
                Ok((q, r)) => Ok((q, rs.push(r))),
                Err(m) => Err(m),
            },
            Err(m) => Err(m),
        }
    }
}

/// A obra com o alvo de um salto.
pub open spec fn com_alvo(o: Obra, i: int, alvo: int) -> Obra {
    Obra {
        codigo: o.codigo.update(
            i,
            match o.codigo[i] {
                Codigo::Pular(_) => Codigo::Pular(alvo),
                Codigo::PularSeFalso { condicao, .. } => Codigo::PularSeFalso { condicao, alvo },
                c => c,
            },
        ),
        ..o
    }
}

/// As primeiras `n` instrucoes de um bloco.
pub open spec fn bloco(o: Obra, v: Seq<ast::ArvoreInstr>, n: int) -> Feita
    decreases v, n,
{
    if n <= 0 || n > v.len() {
        Ok(o)
    } else {
        match bloco(o, v, n - 1) {
            Ok(p) => instrucao(p, v[n - 1]),
            Err(m) => Err(m),
        }
    }
}

/// Um bloco inteiro.
pub open spec fn todo(o: Obra, v: Seq<ast::ArvoreInstr>) -> Feita
    decreases v, v.len() + 1,
{
    bloco(o, v, v.len() as int)
}

/// Uma decisao.
pub open spec fn decisao(o: Obra, i: ast::ArvoreInstr) -> Feita
    decreases i, 0int,
{
    match i {
        ast::ArvoreInstr::Se { condicao, entao, senao } => match expressao(o, condicao) {
            Err(m) => Err(m),
            Ok((p, c)) => {
                let jf = p.codigo.len() as int;
                match todo(mais(p, Codigo::PularSeFalso { condicao: c, alvo: 0 }), entao) {
                    Err(m) => Err(m),
                    Ok(q) => match senao {
                        None => Ok(com_alvo(q, jf, q.codigo.len() as int)),
                        Some(b) => {
                            let j = q.codigo.len() as int;
                            match todo(com_alvo(mais(q, Codigo::Pular(0)), jf, j + 1), b) {
                                Err(m) => Err(m),
                                Ok(r) => Ok(com_alvo(r, j, r.codigo.len() as int)),
                            }
                        },
                    },
                }
            },
        },
        _ => Ok(o),
    }
}

/// Um laco com condicao.
pub open spec fn laco(o: Obra, i: ast::ArvoreInstr) -> Feita
    decreases i, 0int,
{
    match i {
        ast::ArvoreInstr::Enquanto { condicao, corpo } => match expressao(o, condicao) {
            Err(m) => Err(m),
            Ok((p, c)) => {
                let jf = p.codigo.len() as int;
                match todo(mais(p, Codigo::PularSeFalso { condicao: c, alvo: 0 }), corpo) {
                    Err(m) => Err(m),
                    Ok(q) => {
                        let r = mais(q, Codigo::Pular(o.codigo.len() as int));
                        Ok(com_alvo(r, jf, r.codigo.len() as int))
                    },
                }
            },
        },
        _ => Ok(o),
    }
}

/// O passo de uma contagem: um, se nao se diz.
pub open spec fn passo_da_contagem(o: Obra, passo: Option<ast::ArvoreExpr>) -> ComRegistro {
    match passo {
        Some(e) => expressao(o, e),
        None => constante(o, vm::Visto::Int(1)),
    }
}

/// Os registradores de uma contagem: o da variavel, o do fim e o do passo.
pub open spec fn contagem_pronta(
    o: Obra,
    nome: Seq<char>,
    inicio: ast::ArvoreExpr,
    fim: ast::ArvoreExpr,
    passo: Option<ast::ArvoreExpr>,
) -> Result<(Obra, Registro, Registro, Registro), Seq<char>> {
    match variavel(o, nome) {
        Err(m) => Err(m),
        Ok((p, atual)) => match expressao(p, inicio) {
            Err(m) => Err(m),
            Ok((q, ini)) => match expressao(q, fim) {
                Err(m) => Err(m),
                Ok((r, f)) => match passo_da_contagem(r, passo) {
                    Err(m) => Err(m),
                    Ok((s, k)) => Ok((mais(s, Codigo::Mover { destino: atual, origem: ini }), atual, f, k)),
                },
            },
        },
    }
}

/// Uma contagem.
pub open spec fn contagem(o: Obra, i: ast::ArvoreInstr) -> Feita
    decreases i, 0int,
{
    match i {
        ast::ArvoreInstr::ParaIntervalo { variavel: nome, inicio, fim, passo, corpo } => match contagem_pronta(
            o,
            nome,
            inicio,
            fim,
            passo,
        ) {
            Err(m) => Err(m),
            Ok((p, atual, f, k)) => {
                let topo = p.codigo.len() as int;
                match novo(p) {
                    Err(m) => Err(m),
                    Ok((q, valido)) => {
                        let r = mais(
                            mais(q, Codigo::IntervaloValido { destino: valido, atual, fim: f, passo: k }),
                            Codigo::PularSeFalso { condicao: valido, alvo: 0 },
                        );
                        match todo(r, corpo) {
                            Err(m) => Err(m),
                            Ok(s) => {
                                let t = mais(
                                    mais(s, Codigo::Binaria { destino: atual, a: atual, op: OpBinario::Soma, b: k }),
                                    Codigo::Pular(topo),
                                );
                                Ok(com_alvo(t, topo + 1, t.codigo.len() as int))
                            },
                        }
                    },
                }
            },
        },
        _ => Ok(o),
    }
}

/// Uma instrucao.
pub open spec fn instrucao(o: Obra, i: ast::ArvoreInstr) -> Feita
    decreases i, 1int,
{
    match i {
        ast::ArvoreInstr::Localizada { instrucao: x, .. } => instrucao(o, *x),
        ast::ArvoreInstr::DeclararVar { nome, valor } => match variavel(o, nome) {
            Err(m) => Err(m),
            Ok((p, destino)) => match (match valor {
                Some(e) => expressao(p, e),
                None => constante(p, vm::Visto::Null),
            }) {
                Err(m) => Err(m),
                Ok((q, origem)) => Ok(mais(q, Codigo::Mover { destino, origem })),
            },
        },
        ast::ArvoreInstr::Expressao(e) => match expressao(o, e) {
            Ok((p, _)) => Ok(p),
            Err(m) => Err(m),
        },
        ast::ArvoreInstr::Imprimir(es) => match expressoes(o, es, es.len() as int) {
            Ok((p, rs)) => Ok(mais(p, Codigo::Imprimir(rs))),
            Err(m) => Err(m),
        },
        ast::ArvoreInstr::Se { .. } => decisao(o, i),
        ast::ArvoreInstr::Enquanto { .. } => laco(o, i),
        ast::ArvoreInstr::ParaIntervalo { .. } => contagem(o, i),
        _ => Err("instrucao ainda nao suportada pela VM de registradores experimental"@),
    }
}

/// A obra vazia.
pub open spec fn vazia() -> Obra {
    Obra { codigo: Seq::empty(), variaveis: Seq::empty(), proximo: 0 }
}

/// Um programa inteiro.
pub open spec fn compilado(v: Seq<ast::ArvoreInstr>) -> Feita {
    match todo(vazia(), v) {
        Ok(o) => Ok(mais(o, Codigo::Parar)),
        Err(m) => Err(m),
    }
}

// ---- Compilador: execucao ---------------------------------------------------------------

struct CompiladorReg {
    codigo: Vec<InstrucaoReg>,
    variaveis: Vec<(String, Registro)>,
    proximo: Registro,
}

spec fn variaveis_vistas(v: Seq<(String, Registro)>) -> Seq<(Seq<char>, Registro)> {
    v.map_values(|p: (String, Registro)| (p.0@, p.1))
}

/// Um resultado com registrador, contra o que se esperava.
spec fn bate(c: CompiladorReg, r: Result<Registro, String>, s: ComRegistro) -> bool {
    match r {
        Ok(x) => s == Ok::<(Obra, Registro), Seq<char>>((c@, x)),
        Err(m) => s == Err::<(Obra, Registro), Seq<char>>(m@),
    }
}

/// Um resultado, contra o que se esperava.
spec fn confere(c: CompiladorReg, r: Result<(), String>, s: Feita) -> bool {
    match r {
        Ok(_) => s == Ok::<Obra, Seq<char>>(c@),
        Err(m) => s == Err::<Obra, Seq<char>>(m@),
    }
}

impl CompiladorReg {
    spec fn view(&self) -> Obra {
        Obra {
            codigo: codigos(self.codigo@),
            variaveis: variaveis_vistas(self.variaveis@),
            proximo: self.proximo,
        }
    }

    fn emitir(&mut self, i: InstrucaoReg)
        ensures
            final(self)@ == mais(old(self)@, i@),
    {
        let ghost antes = self.codigo@;
        let ghost c = i@;
        self.codigo.push(i);
        assert(codigos(self.codigo@) =~= codigos(antes).push(c));
    }

    fn novo_registro(&mut self) -> (r: Result<Registro, String>)
        ensures
            bate(*final(self), r, novo(old(self)@)),
    {
        let r = self.proximo;
        if r == u16::MAX {
            return Err("limite de registradores excedido".to_owned());
        }
        self.proximo = r + 1;
        Ok(r)
    }

    fn achar(&self, nome: &str) -> (r: Option<Registro>)
        ensures
            r == registro_de(self@.variaveis, nome@, 0),
    {
        let ghost vs = self@.variaveis;
        let mut i: usize = 0;
        while i < self.variaveis.len()
            invariant
                i <= self.variaveis@.len(),
                vs == self@.variaveis,
                registro_de(vs, nome@, 0) == registro_de(vs, nome@, i as int),
            decreases self.variaveis@.len() - i,
        {
            assert(vs[i as int] == (self.variaveis@[i as int].0@, self.variaveis@[i as int].1));
            if self.variaveis[i].0.as_str().eq(nome) {
                return Some(self.variaveis[i].1);
            }
            i += 1;
        }
        None
    }

    fn variavel(&mut self, nome: &str) -> (r: Result<Registro, String>)
        ensures
            bate(*final(self), r, variavel(old(self)@, nome@)),
    {
        if let Some(r) = self.achar(nome) {
            return Ok(r);
        }
        match self.novo_registro() {
            Ok(r) => {
                let ghost antes = self.variaveis@;
                self.variaveis.push((nome.to_owned(), r));
                assert(variaveis_vistas(self.variaveis@) =~= variaveis_vistas(antes).push((nome@, r)));
                Ok(r)
            },
            Err(m) => Err(m),
        }
    }

    fn constante(&mut self, valor: VmValor) -> (r: Result<Registro, String>)
        ensures
            bate(*final(self), r, constante(old(self)@, valor@)),
    {
        match self.novo_registro() {
            Ok(r) => {
                self.emitir(InstrucaoReg::Constante { destino: r, valor });
                Ok(r)
            },
            Err(m) => Err(m),
        }
    }

    fn expressao(&mut self, e: &Expressao) -> (r: Result<Registro, String>)
        ensures
            bate(*final(self), r, expressao(old(self)@, e@)),
        decreases e,
    {
        match e {
            Expressao::Inteiro(n) => self.constante(VmValor::Int(*n)),
            Expressao::Numero(t) => match self.novo_registro() {
                Ok(r) => {
                    self.emitir(InstrucaoReg::Numero { destino: r, lexema: t.clone() });
                    Ok(r)
                },
                Err(m) => Err(m),
            },
            Expressao::Texto(s) => self.constante(VmValor::Str(s.clone())),
            Expressao::Booleano(b) => self.constante(VmValor::Bool(*b)),
            Expressao::Nulo => self.constante(VmValor::Null),
            Expressao::Variavel(nome) => match self.achar(nome.as_str()) {
                Some(r) => Ok(r),
                None => Err(frase("variavel '", nome.as_str(), "' usada antes da declaracao")),
            },
            Expressao::Atribuicao { nome, valor } => match self.expressao(valor) {
                Ok(origem) => match self.variavel(nome.as_str()) {
                    Ok(destino) => {
                        self.emitir(InstrucaoReg::Mover { destino, origem });
                        Ok(destino)
                    },
                    Err(m) => Err(m),
                },
                Err(m) => Err(m),
            },
            Expressao::BinOp { esq, op, dir } => match self.expressao(esq) {
                Ok(a) => match self.expressao(dir) {
                    Ok(b) => match self.novo_registro() {
                        Ok(destino) => {
                            self.emitir(InstrucaoReg::Binaria { destino, a, op: *op, b });
                            Ok(destino)
                        },
                        Err(m) => Err(m),
                    },
                    Err(m) => Err(m),
                },
                Err(m) => Err(m),
            },
            Expressao::UnOp { op, expr } => match self.expressao(expr) {
                Ok(origem) => match self.novo_registro() {
                    Ok(destino) => {
                        self.emitir(InstrucaoReg::Unaria { destino, op: *op, origem });
                        Ok(destino)
                    },
                    Err(m) => Err(m),
                },
                Err(m) => Err(m),
            },
            _ => Err("expressao ainda nao suportada pela VM de registradores experimental".to_owned()),
        }
    }

    fn imprimir(&mut self, es: &Vec<Expressao>) -> (r: Result<(), String>)
        ensures
            confere(*final(self), r, instrucao(old(self)@, ast::ArvoreInstr::Imprimir(ast::exprs(es@)))),
            r is Ok ==> final(self)@.codigo.len() >= old(self)@.codigo.len(),
    {
        let ghost ev = ast::exprs(es@);
        let ghost o = self@;
        assert(ev.len() == es@.len());
        let mut rs: Vec<Registro> = Vec::new();
        let mut i: usize = 0;
        assert(rs@ =~= Seq::empty());
        while i < es.len()
            invariant
                i <= es@.len(),
                ev == ast::exprs(es@),
                ev.len() == es@.len(),
                expressoes(o, ev, i as int) == Ok::<(Obra, Seq<Registro>), Seq<char>>((self@, rs@)),
                o == old(self)@,
                self@.codigo.len() >= o.codigo.len(),
            decreases es@.len() - i,
        {
            assert(ev[i as int] == es@[i as int]@);
            proof {
                lema_cresce(self@, es@[i as int]@);
            }
            match self.expressao(&es[i]) {
                Ok(r) => rs.push(r),
                Err(m) => {
                    proof {
                        lema_para(o, ev, i + 1, m@);
                    }
                    return Err(m);
                },
            }
            i += 1;
        }
        self.emitir(InstrucaoReg::Imprimir(rs));
        Ok(())
    }

    fn mirar(&mut self, i: usize, alvo: usize)
        requires
            i < old(self)@.codigo.len(),
        ensures
            final(self)@ == com_alvo(old(self)@, i as int, alvo as int),
    {
        let ghost antes = codigos(self.codigo@);
        assert(antes[i as int] == self.codigo@[i as int]@);
        let mut x = InstrucaoReg::Parar;
        std::mem::swap(&mut self.codigo[i], &mut x);
        let y = match x {
            InstrucaoReg::Pular(_) => InstrucaoReg::Pular(alvo),
            InstrucaoReg::PularSeFalso { condicao, .. } => InstrucaoReg::PularSeFalso { condicao, alvo },
            c => c,
        };
        let ghost yv = y@;
        self.codigo.set(i, y);
        assert(codigos(self.codigo@) =~= antes.update(i as int, yv));
    }

    fn bloco(&mut self, v: &Vec<Instrucao>) -> (r: Result<(), String>)
        ensures
            confere(*final(self), r, todo(old(self)@, ast::instrs(v@))),
            r is Ok ==> final(self)@.codigo.len() >= old(self)@.codigo.len(),
        decreases v, 0int,
    {
        let ghost iv = ast::instrs(v@);
        let ghost o = self@;
        assert(iv.len() == v@.len());
        let mut i: usize = 0;
        while i < v.len()
            invariant
                i <= v@.len(),
                iv == ast::instrs(v@),
                iv.len() == v@.len(),
                bloco(o, iv, i as int) == Ok::<Obra, Seq<char>>(self@),
                o == old(self)@,
                self@.codigo.len() >= o.codigo.len(),
            decreases v@.len() - i,
        {
            assert(iv[i as int] == v@[i as int]@);
            match self.instrucao(&v[i]) {
                Ok(_) => {},
                Err(m) => {
                    proof {
                        lema_parou(o, iv, i + 1, m@);
                    }
                    return Err(m);
                },
            }
            i += 1;
        }
        Ok(())
    }

    fn decisao(&mut self, i: &Instrucao) -> (r: Result<(), String>)
        requires
            i is Se,
        ensures
            confere(*final(self), r, decisao(old(self)@, i@)),
            r is Ok ==> final(self)@.codigo.len() >= old(self)@.codigo.len(),
        decreases i, 0int,
    {
        let (condicao, entao, senao) = match i {
            Instrucao::Se { condicao, entao, senao } => (condicao, entao, senao),
            _ => return Ok(()),
        };
        let ghost o = self@;
        proof {
            lema_cresce(o, condicao@);
        }
        let c = match self.expressao(condicao) {
            Ok(c) => c,
            Err(m) => return Err(m),
        };
        let jf = self.codigo.len();
        assert(self@.codigo.len() == jf);
        self.emitir(InstrucaoReg::PularSeFalso { condicao: c, alvo: 0 });
        if let Err(m) = self.bloco(entao) {
            return Err(m);
        }
        match senao {
            None => {
                let fim = self.codigo.len();
                assert(self@.codigo.len() == fim);
                self.mirar(jf, fim);
                Ok(())
            },
            Some(b) => {
                let j = self.codigo.len();
                assert(self@.codigo.len() == j);
                self.emitir(InstrucaoReg::Pular(0));
                let ini = self.codigo.len();
                assert(self@.codigo.len() == ini);
                self.mirar(jf, ini);
                if let Err(m) = self.bloco(b) {
                    return Err(m);
                }
                let fim = self.codigo.len();
                assert(self@.codigo.len() == fim);
                self.mirar(j, fim);
                Ok(())
            },
        }
    }

    fn laco(&mut self, i: &Instrucao) -> (r: Result<(), String>)
        requires
            i is Enquanto,
        ensures
            confere(*final(self), r, laco(old(self)@, i@)),
            r is Ok ==> final(self)@.codigo.len() >= old(self)@.codigo.len(),
        decreases i, 0int,
    {
        let (condicao, corpo) = match i {
            Instrucao::Enquanto { condicao, corpo } => (condicao, corpo),
            _ => return Ok(()),
        };
        let ghost o = self@;
        proof {
            lema_cresce(o, condicao@);
        }
        let ini = self.codigo.len();
        assert(self@.codigo.len() == ini);
        let c = match self.expressao(condicao) {
            Ok(c) => c,
            Err(m) => return Err(m),
        };
        let jf = self.codigo.len();
        assert(self@.codigo.len() == jf);
        self.emitir(InstrucaoReg::PularSeFalso { condicao: c, alvo: 0 });
        if let Err(m) = self.bloco(corpo) {
            return Err(m);
        }
        self.emitir(InstrucaoReg::Pular(ini));
        let fim = self.codigo.len();
        assert(self@.codigo.len() == fim);
        self.mirar(jf, fim);
        Ok(())
    }

    fn preparar(
        &mut self,
        nome: &str,
        inicio: &Expressao,
        fim: &Expressao,
        passo: &Option<Expressao>,
    ) -> (r: Result<(Registro, Registro, Registro), String>)
        ensures
            match r {
                Ok((a, f, k)) => contagem_pronta(
                    old(self)@,
                    nome@,
                    inicio@,
                    fim@,
                    match *passo {
                        Some(e) => Some(e@),
                        None => None,
                    },
                ) == Ok::<(Obra, Registro, Registro, Registro), Seq<char>>((final(self)@, a, f, k)),
                Err(m) => contagem_pronta(
                    old(self)@,
                    nome@,
                    inicio@,
                    fim@,
                    match *passo {
                        Some(e) => Some(e@),
                        None => None,
                    },
                ) == Err::<(Obra, Registro, Registro, Registro), Seq<char>>(m@),
            },
            r is Ok ==> final(self)@.codigo.len() >= old(self)@.codigo.len(),
    {
        let atual = match self.variavel(nome) {
            Ok(r) => r,
            Err(m) => return Err(m),
        };
        proof {
            lema_cresce(self@, inicio@);
        }
        let ini = match self.expressao(inicio) {
            Ok(r) => r,
            Err(m) => return Err(m),
        };
        proof {
            lema_cresce(self@, fim@);
        }
        let f = match self.expressao(fim) {
            Ok(r) => r,
            Err(m) => return Err(m),
        };
        let k = match passo {
            Some(e) => {
                proof {
                    lema_cresce(self@, e@);
                }
                match self.expressao(e) {
                    Ok(r) => r,
                    Err(m) => return Err(m),
                }
            },
            None => match self.constante(VmValor::Int(1)) {
                Ok(r) => r,
                Err(m) => return Err(m),
            },
        };
        self.emitir(InstrucaoReg::Mover { destino: atual, origem: ini });
        Ok((atual, f, k))
    }

    fn contagem(&mut self, i: &Instrucao) -> (r: Result<(), String>)
        requires
            i is ParaIntervalo,
        ensures
            confere(*final(self), r, contagem(old(self)@, i@)),
            r is Ok ==> final(self)@.codigo.len() >= old(self)@.codigo.len(),
        decreases i, 0int,
    {
        let (nome, inicio, fim, passo, corpo) = match i {
            Instrucao::ParaIntervalo { variavel, inicio, fim, passo, corpo } => (variavel, inicio, fim, passo, corpo),
            _ => return Ok(()),
        };
        let (atual, f, k) = match self.preparar(nome.as_str(), inicio, fim, passo) {
            Ok(t) => t,
            Err(m) => return Err(m),
        };
        let topo = self.codigo.len();
        assert(self@.codigo.len() == topo);
        let valido = match self.novo_registro() {
            Ok(r) => r,
            Err(m) => return Err(m),
        };
        self.emitir(InstrucaoReg::IntervaloValido { destino: valido, atual, fim: f, passo: k });
        let jf = self.codigo.len();
        assert(self@.codigo.len() == jf);
        self.emitir(InstrucaoReg::PularSeFalso { condicao: valido, alvo: 0 });
        if let Err(m) = self.bloco(corpo) {
            return Err(m);
        }
        self.emitir(InstrucaoReg::Binaria { destino: atual, a: atual, op: OpBinario::Soma, b: k });
        self.emitir(InstrucaoReg::Pular(topo));
        let depois = self.codigo.len();
        assert(self@.codigo.len() == depois);
        self.mirar(jf, depois);
        Ok(())
    }

    fn declarar(&mut self, nome: &str, valor: &Option<Expressao>) -> (r: Result<(), String>)
        ensures
            confere(
                *final(self),
                r,
                instrucao(
                    old(self)@,
                    ast::ArvoreInstr::DeclararVar {
                        nome: nome@,
                        valor: match *valor {
                            Some(e) => Some(e@),
                            None => None,
                        },
                    },
                ),
            ),
            r is Ok ==> final(self)@.codigo.len() >= old(self)@.codigo.len(),
    {
        let destino = match self.variavel(nome) {
            Ok(r) => r,
            Err(m) => return Err(m),
        };
        let origem = match valor {
            Some(e) => {
                proof {
                    lema_cresce(self@, e@);
                }
                match self.expressao(e) {
                    Ok(r) => r,
                    Err(m) => return Err(m),
                }
            },
            None => match self.constante(VmValor::Null) {
                Ok(r) => r,
                Err(m) => return Err(m),
            },
        };
        self.emitir(InstrucaoReg::Mover { destino, origem });
        Ok(())
    }

    fn instrucao(&mut self, i: &Instrucao) -> (r: Result<(), String>)
        ensures
            confere(*final(self), r, instrucao(old(self)@, i@)),
            r is Ok ==> final(self)@.codigo.len() >= old(self)@.codigo.len(),
        decreases i, 1int,
    {
        match i {
            Instrucao::Localizada { instrucao: x, .. } => self.instrucao(x),
            Instrucao::DeclararVar { nome, valor } => self.declarar(nome.as_str(), valor),
            Instrucao::Expressao(e) => {
                proof {
                    lema_cresce(self@, e@);
                }
                match self.expressao(e) {
                    Ok(_) => Ok(()),
                    Err(m) => Err(m),
                }
            },
            Instrucao::Imprimir(es) => self.imprimir(es),
            Instrucao::Se { .. } => self.decisao(i),
            Instrucao::Enquanto { .. } => self.laco(i),
            Instrucao::ParaIntervalo { .. } => self.contagem(i),
            _ => Err("instrucao ainda nao suportada pela VM de registradores experimental".to_owned()),
        }
    }
}

proof fn lema_para(o: Obra, es: Seq<ast::ArvoreExpr>, n: int, m: Seq<char>)
    requires
        0 <= n <= es.len(),
        expressoes(o, es, n) == Err::<(Obra, Seq<Registro>), Seq<char>>(m),
    ensures
        expressoes(o, es, es.len() as int) == Err::<(Obra, Seq<Registro>), Seq<char>>(m),
    decreases es.len() - n,
{
    if n < es.len() {
        lema_para(o, es, n + 1, m);
    }
}

proof fn lema_parou(o: Obra, v: Seq<ast::ArvoreInstr>, n: int, m: Seq<char>)
    requires
        0 <= n <= v.len(),
        bloco(o, v, n) == Err::<Obra, Seq<char>>(m),
    ensures
        bloco(o, v, v.len() as int) == Err::<Obra, Seq<char>>(m),
    decreases v.len() - n,
{
    if n < v.len() {
        lema_parou(o, v, n + 1, m);
    }
}

proof fn lema_cresce(o: Obra, e: ast::ArvoreExpr)
    ensures
        expressao(o, e) matches Ok(p) ==> p.0.codigo.len() >= o.codigo.len(),
    decreases e,
{
    match e {
        ast::ArvoreExpr::Atribuicao { nome, valor } => {
            lema_cresce(o, *valor);
        },
        ast::ArvoreExpr::BinOp { esq, op, dir } => {
            lema_cresce(o, *esq);
            if let Ok((p, a)) = expressao(o, *esq) {
                lema_cresce(p, *dir);
            }
        },
        ast::ArvoreExpr::UnOp { op, expr } => {
            lema_cresce(o, *expr);
        },
        _ => {},
    }
}

// ---- Programas validos ------------------------------------------------------------------

/// Se uma instrucao so usa registradores abaixo de `n` e so salta ate `fim`.
pub open spec fn instrucao_valida(c: Codigo, n: int, fim: int) -> bool {
    match c {
        Codigo::Constante { destino, .. } => destino < n,
        Codigo::Numero { destino, .. } => destino < n,
        Codigo::Mover { destino, origem } => destino < n && origem < n,
        Codigo::Binaria { destino, a, b, .. } => destino < n && a < n && b < n,
        Codigo::Unaria { destino, origem, .. } => destino < n && origem < n,
        Codigo::IntervaloValido { destino, atual, fim: f, passo } => destino < n && atual < n && f < n && passo < n,
        Codigo::Imprimir(rs) => forall|i: int| 0 <= i < rs.len() ==> #[trigger] rs[i] < n,
        Codigo::Pular(a) => 0 <= a <= fim,
        Codigo::PularSeFalso { condicao, alvo } => condicao < n && 0 <= alvo <= fim,
        Codigo::Parar => true,
    }
}

/// Se todas as instrucoes sao validas.
pub open spec fn valido(c: Seq<Codigo>, n: int) -> bool {
    forall|i: int| 0 <= i < c.len() ==> instrucao_valida(#[trigger] c[i], n, c.len() as int)
}

/// Se uma obra e valida: as instrucoes e as variaveis usam registradores ja dados.
pub open spec fn obra_valida(o: Obra) -> bool {
    &&& valido(o.codigo, o.proximo as int)
    &&& forall|i: int| 0 <= i < o.variaveis.len() ==> (#[trigger] o.variaveis[i]).1 < o.proximo
}

/// Se uma obra continua outra.
pub open spec fn continua(o: Obra, p: Obra) -> bool {
    obra_valida(p) && o.proximo <= p.proximo && o.codigo.len() <= p.codigo.len()
}

proof fn lema_mais(o: Obra, c: Codigo)
    requires
        obra_valida(o),
        instrucao_valida(c, o.proximo as int, o.codigo.len() as int + 1),
    ensures
        continua(o, mais(o, c)),
{
    let p = mais(o, c);
    assert forall|i: int| 0 <= i < p.codigo.len() implies instrucao_valida(
        #[trigger] p.codigo[i],
        p.proximo as int,
        p.codigo.len() as int,
    ) by {
        if i < o.codigo.len() {
            assert(instrucao_valida(o.codigo[i], o.proximo as int, o.codigo.len() as int));
        }
    }
}

proof fn lema_novo(o: Obra)
    requires
        obra_valida(o),
    ensures
        novo(o) matches Ok(p) ==> continua(o, p.0) && p.1 < p.0.proximo && p.0.codigo == o.codigo,
{
    if let Ok((p, r)) = novo(o) {
        assert forall|i: int| 0 <= i < p.codigo.len() implies instrucao_valida(
            #[trigger] p.codigo[i],
            p.proximo as int,
            p.codigo.len() as int,
        ) by {
            assert(instrucao_valida(o.codigo[i], o.proximo as int, o.codigo.len() as int));
        }
        assert forall|i: int| 0 <= i < p.variaveis.len() implies (#[trigger] p.variaveis[i]).1 < p.proximo by {
            assert(o.variaveis[i].1 < o.proximo);
        }
    }
}

proof fn lema_registro(vs: Seq<(Seq<char>, Registro)>, nome: Seq<char>, i: int, n: int)
    requires
        0 <= i,
        forall|k: int| 0 <= k < vs.len() ==> (#[trigger] vs[k]).1 < n,
    ensures
        registro_de(vs, nome, i) matches Some(r) ==> r < n,
    decreases vs.len() - i,
{
    if i < vs.len() && vs[i].0 != nome {
        lema_registro(vs, nome, i + 1, n);
    }
}

proof fn lema_variavel(o: Obra, nome: Seq<char>)
    requires
        obra_valida(o),
    ensures
        variavel(o, nome) matches Ok(p) ==> continua(o, p.0) && p.1 < p.0.proximo,
{
    lema_registro(o.variaveis, nome, 0, o.proximo as int);
    lema_novo(o);
    if registro_de(o.variaveis, nome, 0) is None {
        if let Ok((p, r)) = novo(o) {
            let q = Obra { variaveis: p.variaveis.push((nome, r)), ..p };
            assert forall|i: int| 0 <= i < q.variaveis.len() implies (#[trigger] q.variaveis[i]).1 < q.proximo by {
                if i < p.variaveis.len() {
                    assert(p.variaveis[i].1 < p.proximo);
                }
            }
        }
    }
}

proof fn lema_constante(o: Obra, v: vm::Visto)
    requires
        obra_valida(o),
    ensures
        constante(o, v) matches Ok(p) ==> continua(o, p.0) && p.1 < p.0.proximo,
{
    lema_novo(o);
    if let Ok((p, r)) = novo(o) {
        lema_mais(p, Codigo::Constante { destino: r, valor: v });
    }
}

proof fn lema_expressao(o: Obra, e: ast::ArvoreExpr)
    requires
        obra_valida(o),
    ensures
        expressao(o, e) matches Ok(p) ==> continua(o, p.0) && p.1 < p.0.proximo,
    decreases e,
{
    match e {
        ast::ArvoreExpr::Inteiro(n) => lema_constante(o, vm::Visto::Int(n)),
        ast::ArvoreExpr::Texto(s) => lema_constante(o, vm::Visto::Str(s)),
        ast::ArvoreExpr::Booleano(b) => lema_constante(o, vm::Visto::Bool(b)),
        ast::ArvoreExpr::Nulo => lema_constante(o, vm::Visto::Null),
        ast::ArvoreExpr::Numero(t) => {
            lema_novo(o);
            if let Ok((p, r)) = novo(o) {
                lema_mais(p, Codigo::Numero { destino: r, lexema: t });
            }
        },
        ast::ArvoreExpr::Variavel(nome) => {
            lema_registro(o.variaveis, nome, 0, o.proximo as int);
        },
        ast::ArvoreExpr::Atribuicao { nome, valor } => {
            lema_expressao(o, *valor);
            if let Ok((p, origem)) = expressao(o, *valor) {
                lema_variavel(p, nome);
                if let Ok((q, destino)) = variavel(p, nome) {
                    lema_mais(q, Codigo::Mover { destino, origem });
                }
            }
        },
        ast::ArvoreExpr::BinOp { esq, op, dir } => {
            lema_expressao(o, *esq);
            if let Ok((p, a)) = expressao(o, *esq) {
                lema_expressao(p, *dir);
                if let Ok((q, b)) = expressao(p, *dir) {
                    lema_novo(q);
                    if let Ok((r, destino)) = novo(q) {
                        lema_mais(r, Codigo::Binaria { destino, a, op, b });
                    }
                }
            }
        },
        ast::ArvoreExpr::UnOp { op, expr } => {
            lema_expressao(o, *expr);
            if let Ok((p, origem)) = expressao(o, *expr) {
                lema_novo(p);
                if let Ok((r, destino)) = novo(p) {
                    lema_mais(r, Codigo::Unaria { destino, op, origem });
                }
            }
        },
        _ => {},
    }
}

proof fn lema_expressoes(o: Obra, es: Seq<ast::ArvoreExpr>, n: int)
    requires
        obra_valida(o),
        0 <= n <= es.len(),
    ensures
        expressoes(o, es, n) matches Ok(p) ==> continua(o, p.0) && forall|i: int|
            0 <= i < p.1.len() ==> #[trigger] p.1[i] < p.0.proximo,
    decreases n,
{
    if n > 0 {
        lema_expressoes(o, es, n - 1);
        if let Ok((p, rs)) = expressoes(o, es, n - 1) {
            lema_expressao(p, es[n - 1]);
            if let Ok((q, r)) = expressao(p, es[n - 1]) {
                assert forall|i: int| 0 <= i < rs.push(r).len() implies #[trigger] rs.push(r)[i] < q.proximo by {
                    if i < rs.len() {
                        assert(rs[i] < p.proximo);
                    }
                }
            }
        }
    }
}

proof fn lema_alvo(o: Obra, i: int, alvo: int)
    requires
        obra_valida(o),
        0 <= i < o.codigo.len(),
        0 <= alvo <= o.codigo.len(),
    ensures
        continua(o, com_alvo(o, i, alvo)),
{
    let p = com_alvo(o, i, alvo);
    assert forall|k: int| 0 <= k < p.codigo.len() implies instrucao_valida(
        #[trigger] p.codigo[k],
        p.proximo as int,
        p.codigo.len() as int,
    ) by {
        assert(instrucao_valida(o.codigo[k], o.proximo as int, o.codigo.len() as int));
    }
}

proof fn lema_bloco(o: Obra, v: Seq<ast::ArvoreInstr>, n: int)
    requires
        obra_valida(o),
        0 <= n <= v.len(),
    ensures
        bloco(o, v, n) matches Ok(p) ==> continua(o, p),
    decreases v, n,
{
    if n > 0 {
        lema_bloco(o, v, n - 1);
        if let Ok(p) = bloco(o, v, n - 1) {
            lema_instrucao(p, v[n - 1]);
        }
    }
}

proof fn lema_todo(o: Obra, v: Seq<ast::ArvoreInstr>)
    requires
        obra_valida(o),
    ensures
        todo(o, v) matches Ok(p) ==> continua(o, p),
    decreases v, v.len() + 1,
{
    lema_bloco(o, v, v.len() as int);
}

proof fn lema_decisao(o: Obra, i: ast::ArvoreInstr)
    requires
        obra_valida(o),
    ensures
        decisao(o, i) matches Ok(p) ==> continua(o, p),
    decreases i, 0int,
{
    if let ast::ArvoreInstr::Se { condicao, entao, senao } = i {
        lema_expressao(o, condicao);
        if let Ok((p, c)) = expressao(o, condicao) {
            let x = Codigo::PularSeFalso { condicao: c, alvo: 0 };
            lema_mais(p, x);
            lema_todo(mais(p, x), entao);
            if let Ok(q) = todo(mais(p, x), entao) {
                let jf = p.codigo.len() as int;
                match senao {
                    None => lema_alvo(q, jf, q.codigo.len() as int),
                    Some(b) => {
                        let j = q.codigo.len() as int;
                        let y = mais(q, Codigo::Pular(0));
                        lema_mais(q, Codigo::Pular(0));
                        lema_alvo(y, jf, j + 1);
                        lema_todo(com_alvo(y, jf, j + 1), b);
                        if let Ok(r) = todo(com_alvo(y, jf, j + 1), b) {
                            lema_alvo(r, j, r.codigo.len() as int);
                        }
                    },
                }
            }
        }
    }
}

proof fn lema_laco(o: Obra, i: ast::ArvoreInstr)
    requires
        obra_valida(o),
    ensures
        laco(o, i) matches Ok(p) ==> continua(o, p),
    decreases i, 0int,
{
    if let ast::ArvoreInstr::Enquanto { condicao, corpo } = i {
        lema_expressao(o, condicao);
        if let Ok((p, c)) = expressao(o, condicao) {
            let x = Codigo::PularSeFalso { condicao: c, alvo: 0 };
            lema_mais(p, x);
            lema_todo(mais(p, x), corpo);
            if let Ok(q) = todo(mais(p, x), corpo) {
                let y = Codigo::Pular(o.codigo.len() as int);
                lema_mais(q, y);
                lema_alvo(mais(q, y), p.codigo.len() as int, q.codigo.len() as int + 1);
            }
        }
    }
}

proof fn lema_contagem(o: Obra, i: ast::ArvoreInstr)
    requires
        obra_valida(o),
    ensures
        contagem(o, i) matches Ok(p) ==> continua(o, p),
    decreases i, 0int,
{
    if let ast::ArvoreInstr::ParaIntervalo { variavel: nome, inicio, fim, passo, corpo } = i {
        lema_pronta(o, nome, inicio, fim, passo);
        if let Ok((p, atual, f, k)) = contagem_pronta(o, nome, inicio, fim, passo) {
            let topo = p.codigo.len() as int;
            lema_novo(p);
            if let Ok((q, v)) = novo(p) {
                let x = Codigo::IntervaloValido { destino: v, atual, fim: f, passo: k };
                let y = Codigo::PularSeFalso { condicao: v, alvo: 0 };
                lema_mais(q, x);
                lema_mais(mais(q, x), y);
                let r = mais(mais(q, x), y);
                lema_todo(r, corpo);
                if let Ok(s) = todo(r, corpo) {
                    let z = Codigo::Binaria { destino: atual, a: atual, op: OpBinario::Soma, b: k };
                    lema_mais(s, z);
                    lema_mais(mais(s, z), Codigo::Pular(topo));
                    let t = mais(mais(s, z), Codigo::Pular(topo));
                    lema_alvo(t, topo + 1, t.codigo.len() as int);
                }
            }
        }
    }
}

proof fn lema_pronta(
    o: Obra,
    nome: Seq<char>,
    inicio: ast::ArvoreExpr,
    fim: ast::ArvoreExpr,
    passo: Option<ast::ArvoreExpr>,
)
    requires
        obra_valida(o),
    ensures
        contagem_pronta(o, nome, inicio, fim, passo) matches Ok(t) ==> continua(o, t.0) && t.1 < t.0.proximo && t.2
            < t.0.proximo && t.3 < t.0.proximo,
{
    lema_variavel(o, nome);
    if let Ok((p, atual)) = variavel(o, nome) {
        lema_expressao(p, inicio);
        if let Ok((q, ini)) = expressao(p, inicio) {
            lema_expressao(q, fim);
            if let Ok((r, f)) = expressao(q, fim) {
                match passo {
                    Some(e) => lema_expressao(r, e),
                    None => lema_constante(r, vm::Visto::Int(1)),
                }
                if let Ok((s, k)) = passo_da_contagem(r, passo) {
                    lema_mais(s, Codigo::Mover { destino: atual, origem: ini });
                }
            }
        }
    }
}

proof fn lema_instrucao(o: Obra, i: ast::ArvoreInstr)
    requires
        obra_valida(o),
    ensures
        instrucao(o, i) matches Ok(p) ==> continua(o, p),
    decreases i, 1int,
{
    match i {
        ast::ArvoreInstr::Localizada { instrucao: x, .. } => lema_instrucao(o, *x),
        ast::ArvoreInstr::DeclararVar { nome, valor } => {
            lema_variavel(o, nome);
            if let Ok((p, destino)) = variavel(o, nome) {
                match valor {
                    Some(e) => {
                        lema_expressao(p, e);
                        if let Ok((q, origem)) = expressao(p, e) {
                            lema_mais(q, Codigo::Mover { destino, origem });
                        }
                    },
                    None => {
                        lema_constante(p, vm::Visto::Null);
                        if let Ok((q, origem)) = constante(p, vm::Visto::Null) {
                            lema_mais(q, Codigo::Mover { destino, origem });
                        }
                    },
                }
            }
        },
        ast::ArvoreInstr::Expressao(e) => lema_expressao(o, e),
        ast::ArvoreInstr::Imprimir(es) => {
            lema_expressoes(o, es, es.len() as int);
            if let Ok((p, rs)) = expressoes(o, es, es.len() as int) {
                lema_mais(p, Codigo::Imprimir(rs));
            }
        },
        ast::ArvoreInstr::Se { .. } => lema_decisao(o, i),
        ast::ArvoreInstr::Enquanto { .. } => lema_laco(o, i),
        ast::ArvoreInstr::ParaIntervalo { .. } => lema_contagem(o, i),
        _ => {},
    }
}

/// Um programa compilado so usa os registradores que pede, e so salta para dentro de si.
pub proof fn lei_programa(v: Seq<ast::ArvoreInstr>)
    ensures
        compilado(v) matches Ok(o) ==> valido(o.codigo, o.proximo as int),
{
    lema_todo(vazia(), v);
    if let Ok(o) = todo(vazia(), v) {
        lema_mais(o, Codigo::Parar);
    }
}

/// Compila um programa.
pub fn compilar(programa: &Vec<Instrucao>) -> (r: Result<ProgramaReg, String>)
    ensures
        match r {
            Ok(p) => compilado(ast::instrs(programa@)) matches Ok(o) && codigos(p.instrucoes@) == o.codigo
                && p.quantidade_registradores == o.proximo && valido(
                codigos(p.instrucoes@),
                p.quantidade_registradores as int,
            ),
            Err(m) => compilado(ast::instrs(programa@)) == Err::<Obra, Seq<char>>(m@),
        },
{
    proof {
        lei_programa(ast::instrs(programa@));
    }
    let mut c = CompiladorReg { codigo: Vec::new(), variaveis: Vec::new(), proximo: 0 };
    assert(c@.codigo =~= Seq::empty());
    assert(c@.variaveis =~= Seq::empty());
    match c.bloco(programa) {
        Ok(_) => {
            c.emitir(InstrucaoReg::Parar);
            Ok(ProgramaReg { instrucoes: c.codigo, quantidade_registradores: c.proximo as usize })
        },
        Err(m) => Err(m),
    }
}

// ---- Maquina ----------------------------------------------------------------------------

/// O que a maquina pede a quem a faz andar.
#[derive(Debug)]
pub enum PedidoReg {
    /// O numero de um lexema.
    Numero(String),
    /// Uma conta com numeros com ponto.
    Conta { op: Conta, a: u64, b: u64 },
    /// O inteiro de baixo de uma divisao.
    Piso { a: u64, b: u64 },
    /// O simetrico de um numero com ponto.
    Negar(u64),
    /// Escrever uma linha.
    Escrever(String),
}

/// O que um pedido representa.
pub ghost enum PedidoVisto {
    Numero(Seq<char>),
    Conta { op: Conta, a: u64, b: u64 },
    Piso { a: u64, b: u64 },
    Negar(u64),
    Escrever(Seq<char>),
}

impl PedidoReg {
    pub open spec fn view(&self) -> PedidoVisto {
        match self {
            PedidoReg::Numero(t) => PedidoVisto::Numero(t@),
            PedidoReg::Conta { op, a, b } => PedidoVisto::Conta { op: *op, a: *a, b: *b },
            PedidoReg::Piso { a, b } => PedidoVisto::Piso { a: *a, b: *b },
            PedidoReg::Negar(b) => PedidoVisto::Negar(*b),
            PedidoReg::Escrever(t) => PedidoVisto::Escrever(t@),
        }
    }
}

/// O que um passo deu.
#[derive(Debug)]
pub enum AcaoReg {
    Andou,
    Parou,
    Pede(PedidoReg),
    Falhou(String),
    Panico,
}

/// O que um passo representa.
pub ghost enum AcaoVista {
    Andou,
    Parou,
    Pede(PedidoVisto),
    Falhou(Seq<char>),
    Panico,
}

impl AcaoReg {
    pub open spec fn view(&self) -> AcaoVista {
        match self {
            AcaoReg::Andou => AcaoVista::Andou,
            AcaoReg::Parou => AcaoVista::Parou,
            AcaoReg::Pede(p) => AcaoVista::Pede(p@),
            AcaoReg::Falhou(m) => AcaoVista::Falhou(m@),
            AcaoReg::Panico => AcaoVista::Panico,
        }
    }
}

/// A maquina. Enquanto espera um numero, `espera` e o registrador em que ele fica.
#[derive(Debug)]
pub struct MaquinaReg {
    pub programa: ProgramaReg,
    pub registradores: Vec<VmValor>,
    pub ip: usize,
    pub operacoes: u64,
    pub limite: u64,
    pub espera: Option<Registro>,
}

/// O que a maquina representa.
pub ghost struct MaquinaVista {
    pub codigo: Seq<Codigo>,
    pub registradores: Seq<vm::Visto>,
    pub ip: int,
    pub operacoes: u64,
    pub limite: u64,
    pub espera: Option<Registro>,
}

impl MaquinaReg {
    pub open spec fn view(&self) -> MaquinaVista {
        MaquinaVista {
            codigo: codigos(self.programa.instrucoes@),
            registradores: vm::vistos(self.registradores@),
            ip: self.ip as int,
            operacoes: self.operacoes,
            limite: self.limite,
            espera: self.espera,
        }
    }
}

/// Se um valor vale como verdadeiro.
pub open spec fn verdade(v: vm::Visto) -> bool {
    match v {
        vm::Visto::Null => false,
        vm::Visto::Bool(b) => b,
        vm::Visto::Int(n) => n != 0,
        vm::Visto::Num(b, _) => decimal::diferente_de_zero(b),
        vm::Visto::Str(s) => s.len() > 0,
        _ => true,
    }
}

/// O que uma operacao da: um valor, um pedido, uma falha, ou nada que caiba.
pub ghost enum Obtido {
    Valor(vm::Visto),
    Pede(PedidoVisto),
    Falha(Seq<char>),
    Panico,
}

/// Uma conta com numeros.
pub open spec fn conta(op: Conta, a: vm::Visto, b: vm::Visto) -> Obtido {
    match (operacoes::numero_de(a), operacoes::numero_de(b)) {
        (Some(x), Some(y)) => Obtido::Pede(PedidoVisto::Conta { op, a: x, b: y }),
        _ => Obtido::Falha("numero esperado"@),
    }
}

/// Uma divisao.
pub open spec fn divisao(a: vm::Visto, b: vm::Visto, inteira: bool) -> Obtido {
    match operacoes::numero_de(b) {
        None => Obtido::Falha("numero esperado"@),
        Some(y) => if !decimal::diferente_de_zero(y) {
            Obtido::Falha("divisao por zero"@)
        } else {
            match operacoes::numero_de(a) {
                None => Obtido::Falha("numero esperado"@),
                Some(x) => Obtido::Pede(
                    if inteira {
                        PedidoVisto::Piso { a: x, b: y }
                    } else {
                        PedidoVisto::Conta { op: Conta::Divisao, a: x, b: y }
                    },
                ),
            }
        },
    }
}

/// Uma comparacao de numeros.
pub open spec fn relacao(op: Relacao, a: vm::Visto, b: vm::Visto) -> Obtido {
    match (operacoes::numero_de(a), operacoes::numero_de(b)) {
        (Some(x), Some(y)) => Obtido::Valor(vm::Visto::Bool(operacoes::entre_numeros(op, x, y))),
        _ => Obtido::Falha("numero esperado"@),
    }
}

/// Uma operacao de dois operandos.
pub open spec fn binaria(a: vm::Visto, op: OpBinario, b: vm::Visto) -> Obtido {
    match op {
        OpBinario::Soma => match (a, b) {
            (vm::Visto::Int(x), vm::Visto::Int(y)) => if i64::MIN <= x + y <= i64::MAX {
                Obtido::Valor(vm::Visto::Int((x + y) as i64))
            } else {
                Obtido::Panico
            },
            (vm::Visto::Str(x), _) => Obtido::Valor(vm::Visto::Str(x + vm::texto_de(b))),
            (_, vm::Visto::Str(y)) => Obtido::Valor(vm::Visto::Str(vm::texto_de(a) + y)),
            _ => conta(Conta::Soma, a, b),
        },
        OpBinario::Subtracao => conta(Conta::Subtracao, a, b),
        OpBinario::Multiplicacao => conta(Conta::Multiplicacao, a, b),
        OpBinario::Divisao => divisao(a, b, false),
        OpBinario::DivisaoInteira => divisao(a, b, true),
        OpBinario::Modulo => conta(Conta::Resto, a, b),
        OpBinario::Igual => Obtido::Valor(vm::Visto::Bool(vm::iguais(a, b))),
        OpBinario::DiferenteDe => Obtido::Valor(vm::Visto::Bool(!vm::iguais(a, b))),
        OpBinario::MenorQue => relacao(Relacao::Menor, a, b),
        OpBinario::MaiorQue => relacao(Relacao::Maior, a, b),
        OpBinario::MenorOuIgual => relacao(Relacao::MenorIgual, a, b),
        OpBinario::MaiorOuIgual => relacao(Relacao::MaiorIgual, a, b),
        OpBinario::E => Obtido::Valor(vm::Visto::Bool(verdade(a) && verdade(b))),
        OpBinario::Ou => Obtido::Valor(vm::Visto::Bool(verdade(a) || verdade(b))),
        _ => Obtido::Falha("operador ainda nao suportado pela VM de registradores"@),
    }
}

/// Uma operacao de um operando.
pub open spec fn unaria(op: OpUnario, v: vm::Visto) -> Obtido {
    match op {
        OpUnario::Nao => Obtido::Valor(vm::Visto::Bool(!verdade(v))),
        OpUnario::Negativo => match v {
            vm::Visto::Int(n) => if n == i64::MIN {
                Obtido::Panico
            } else {
                Obtido::Valor(vm::Visto::Int((-n) as i64))
            },
            vm::Visto::Num(b, _) => Obtido::Pede(PedidoVisto::Negar(b)),
            _ => Obtido::Falha("operacao unaria invalida"@),
        },
    }
}

/// Se uma contagem ainda nao passou do fim.
pub open spec fn na_contagem(a: vm::Visto, f: vm::Visto, p: vm::Visto) -> Obtido {
    match (operacoes::numero_de(a), operacoes::numero_de(f), operacoes::numero_de(p)) {
        (Some(x), Some(y), Some(z)) => Obtido::Valor(
            vm::Visto::Bool(
                if operacoes::entre_numeros(Relacao::MaiorIgual, z, 0) {
                    operacoes::entre_numeros(Relacao::MenorIgual, x, y)
                } else {
                    operacoes::entre_numeros(Relacao::MaiorIgual, x, y)
                },
            ),
        ),
        _ => Obtido::Falha("numero esperado"@),
    }
}

/// A falha de um registrador que nao existe.
pub open spec fn invalido(r: Registro) -> Seq<char> {
    "registro r"@ + texto::decimal(r as nat) + " invalido"@
}

/// Os textos dos primeiros `n` registradores de uma lista, ou o primeiro que nao existe.
pub open spec fn textos_dos(regs: Seq<vm::Visto>, rs: Seq<Registro>, n: int) -> Result<Seq<Seq<char>>, Registro>
    decreases n,
{
    if n <= 0 || n > rs.len() {
        Ok(Seq::empty())
    } else {
        match textos_dos(regs, rs, n - 1) {
            Err(r) => Err(r),
            Ok(ts) => if rs[n - 1] < regs.len() {
                Ok(ts.push(vm::texto_de(regs[rs[n - 1] as int])))
            } else {
                Err(rs[n - 1])
            },
        }
    }
}

/// A maquina com um valor num registrador.
pub open spec fn guarda(m: MaquinaVista, r: Registro, v: vm::Visto) -> (MaquinaVista, AcaoVista) {
    if r < m.registradores.len() {
        (MaquinaVista { registradores: m.registradores.update(r as int, v), ..m }, AcaoVista::Andou)
    } else {
        (m, AcaoVista::Panico)
    }
}

/// A maquina com o resultado de uma operacao.
pub open spec fn entrega(m: MaquinaVista, r: Registro, o: Obtido) -> (MaquinaVista, AcaoVista) {
    match o {
        Obtido::Valor(v) => guarda(m, r, v),
        Obtido::Pede(p) => (MaquinaVista { espera: Some(r), ..m }, AcaoVista::Pede(p)),
        Obtido::Falha(f) => (m, AcaoVista::Falhou(f)),
        Obtido::Panico => (m, AcaoVista::Panico),
    }
}

/// O primeiro registrador que nao existe.
pub open spec fn falta(m: MaquinaVista, rs: Seq<Registro>, i: int) -> Option<Registro>
    decreases rs.len() - i,
{
    if i < 0 || i >= rs.len() {
        None
    } else if rs[i] >= m.registradores.len() {
        Some(rs[i])
    } else {
        falta(m, rs, i + 1)
    }
}

/// O que uma instrucao faz.
pub open spec fn executa(m: MaquinaVista, c: Codigo) -> (MaquinaVista, AcaoVista) {
    let regs = m.registradores;
    match c {
        Codigo::Constante { destino, valor } => guarda(m, destino, valor),
        Codigo::Numero { destino, lexema } => entrega(m, destino, Obtido::Pede(PedidoVisto::Numero(lexema))),
        Codigo::Mover { destino, origem } => match falta(m, seq![origem], 0) {
            Some(r) => (m, AcaoVista::Falhou(invalido(r))),
            None => guarda(m, destino, regs[origem as int]),
        },
        Codigo::Binaria { destino, a, op, b } => match falta(m, seq![a, b], 0) {
            Some(r) => (m, AcaoVista::Falhou(invalido(r))),
            None => entrega(m, destino, binaria(regs[a as int], op, regs[b as int])),
        },
        Codigo::Unaria { destino, op, origem } => match falta(m, seq![origem], 0) {
            Some(r) => (m, AcaoVista::Falhou(invalido(r))),
            None => entrega(m, destino, unaria(op, regs[origem as int])),
        },
        Codigo::IntervaloValido { destino, atual, fim, passo } => contagem_em(m, destino, atual, fim, passo),
        Codigo::Imprimir(rs) => match textos_dos(regs, rs, rs.len() as int) {
            Err(r) => (m, AcaoVista::Falhou(invalido(r))),
            Ok(ts) => (m, AcaoVista::Pede(PedidoVisto::Escrever(busca::juntos(ts, " "@) + "\n"@))),
        },
        Codigo::Pular(alvo) => (MaquinaVista { ip: alvo, ..m }, AcaoVista::Andou),
        Codigo::PularSeFalso { condicao, alvo } => match falta(m, seq![condicao], 0) {
            Some(r) => (m, AcaoVista::Falhou(invalido(r))),
            None => if verdade(regs[condicao as int]) {
                (m, AcaoVista::Andou)
            } else {
                (MaquinaVista { ip: alvo, ..m }, AcaoVista::Andou)
            },
        },
        Codigo::Parar => (m, AcaoVista::Parou),
    }
}

/// Se uma contagem continua: cada registrador e lido e conferido por sua vez.
pub open spec fn contagem_em(
    m: MaquinaVista,
    destino: Registro,
    atual: Registro,
    fim: Registro,
    passo: Registro,
) -> (MaquinaVista, AcaoVista) {
    let regs = m.registradores;
    let n = "numero esperado"@;
    if atual >= regs.len() {
        (m, AcaoVista::Falhou(invalido(atual)))
    } else if operacoes::numero_de(regs[atual as int]) is None {
        (m, AcaoVista::Falhou(n))
    } else if fim >= regs.len() {
        (m, AcaoVista::Falhou(invalido(fim)))
    } else if operacoes::numero_de(regs[fim as int]) is None {
        (m, AcaoVista::Falhou(n))
    } else if passo >= regs.len() {
        (m, AcaoVista::Falhou(invalido(passo)))
    } else {
        entrega(m, destino, na_contagem(regs[atual as int], regs[fim as int], regs[passo as int]))
    }
}

/// Um passo da maquina.
pub open spec fn passo(m: MaquinaVista) -> (MaquinaVista, AcaoVista) {
    if !(0 <= m.ip < m.codigo.len()) {
        (m, AcaoVista::Parou)
    } else {
        let ops = if m.operacoes == u64::MAX {
            m.operacoes
        } else {
            (m.operacoes + 1) as u64
        };
        let m1 = MaquinaVista { operacoes: ops, ..m };
        if m.limite > 0 && ops > m.limite {
            (
                m1,
                AcaoVista::Falhou(
                    "limite de "@ + texto::decimal(m.limite as nat)
                        + " operacoes excedido na VM de registradores"@,
                ),
            )
        } else {
            executa(MaquinaVista { ip: m.ip + 1, ..m1 }, m.codigo[m.ip])
        }
    }
}

/// Ate `k` passos, enquanto a maquina anda.
pub open spec fn corre(m: MaquinaVista, k: int) -> (MaquinaVista, AcaoVista)
    decreases k,
{
    if k <= 0 {
        (m, AcaoVista::Andou)
    } else {
        let r = passo(m);
        if r.1 is Andou {
            corre(r.0, k - 1)
        } else {
            r
        }
    }
}

/// A resposta a um pedido.
#[derive(Debug)]
pub enum RespostaReg {
    Numero(Decimal),
    Inteiro(i64),
    Feito,
}

/// Como a maquina segue com uma resposta. Uma resposta que nao se espera nao serve.
pub open spec fn responde(m: MaquinaVista, r: RespostaReg) -> (MaquinaVista, AcaoVista) {
    match (m.espera, r) {
        (Some(d), RespostaReg::Numero(x)) => guarda(
            MaquinaVista { espera: None, ..m },
            d,
            vm::Visto::Num(x.bits, x.texto@),
        ),
        (Some(d), RespostaReg::Inteiro(n)) => guarda(MaquinaVista { espera: None, ..m }, d, vm::Visto::Int(n)),
        (None, RespostaReg::Feito) => (m, AcaoVista::Andou),
        _ => (m, AcaoVista::Panico),
    }
}

enum Resultado {
    Valor(VmValor),
    Pede(PedidoReg),
    Falha(String),
    Panico,
}

impl Resultado {
    spec fn view(&self) -> Obtido {
        match self {
            Resultado::Valor(v) => Obtido::Valor(v@),
            Resultado::Pede(p) => Obtido::Pede(p@),
            Resultado::Falha(m) => Obtido::Falha(m@),
            Resultado::Panico => Obtido::Panico,
        }
    }
}

fn vale(v: &VmValor) -> (r: bool)
    ensures
        r == verdade(v@),
{
    match v {
        VmValor::Null => false,
        VmValor::Bool(b) => *b,
        VmValor::Int(n) => *n != 0,
        VmValor::Num(d) => decimal::nao_zero(d.bits),
        VmValor::Str(s) => texto::caracteres(s.as_str()).len() > 0,
        _ => true,
    }
}

fn esperado() -> (r: Resultado)
    ensures
        r@ == Obtido::Falha("numero esperado"@),
{
    Resultado::Falha("numero esperado".to_owned())
}

fn contar(op: Conta, a: &VmValor, b: &VmValor) -> (r: Resultado)
    ensures
        r@ == conta(op, a@, b@),
{
    match (em_numero(a), em_numero(b)) {
        (Some(x), Some(y)) => Resultado::Pede(PedidoReg::Conta { op, a: x, b: y }),
        _ => esperado(),
    }
}

fn dividir(a: &VmValor, b: &VmValor, inteira: bool) -> (r: Resultado)
    ensures
        r@ == divisao(a@, b@, inteira),
{
    match em_numero(b) {
        None => esperado(),
        Some(y) => if !decimal::nao_zero(y) {
            Resultado::Falha("divisao por zero".to_owned())
        } else {
            match em_numero(a) {
                None => esperado(),
                Some(x) => if inteira {
                    Resultado::Pede(PedidoReg::Piso { a: x, b: y })
                } else {
                    Resultado::Pede(PedidoReg::Conta { op: Conta::Divisao, a: x, b: y })
                },
            }
        },
    }
}

fn relacionar(op: Relacao, a: &VmValor, b: &VmValor) -> (r: Resultado)
    ensures
        r@ == relacao(op, a@, b@),
{
    match (em_numero(a), em_numero(b)) {
        (Some(x), Some(y)) => Resultado::Valor(VmValor::Bool(comparar_numeros(op, x, y))),
        _ => esperado(),
    }
}

fn somar(a: &VmValor, b: &VmValor) -> (r: Resultado)
    ensures
        r@ == binaria(a@, OpBinario::Soma, b@),
{
    match (a, b) {
        (VmValor::Int(x), VmValor::Int(y)) => match x.checked_add(*y) {
            Some(n) => Resultado::Valor(VmValor::Int(n)),
            None => Resultado::Panico,
        },
        (VmValor::Str(x), _) => {
            let mut s = x.clone();
            s.append(b.texto().as_str());
            Resultado::Valor(VmValor::Str(s))
        },
        (_, VmValor::Str(y)) => {
            let mut s = a.texto();
            s.append(y.as_str());
            Resultado::Valor(VmValor::Str(s))
        },
        _ => contar(Conta::Soma, a, b),
    }
}

fn operar(a: &VmValor, op: OpBinario, b: &VmValor) -> (r: Resultado)
    ensures
        r@ == binaria(a@, op, b@),
{
    match op {
        OpBinario::Soma => somar(a, b),
        OpBinario::Subtracao => contar(Conta::Subtracao, a, b),
        OpBinario::Multiplicacao => contar(Conta::Multiplicacao, a, b),
        OpBinario::Divisao => dividir(a, b, false),
        OpBinario::DivisaoInteira => dividir(a, b, true),
        OpBinario::Modulo => contar(Conta::Resto, a, b),
        OpBinario::Igual => Resultado::Valor(VmValor::Bool(a.igual(b))),
        OpBinario::DiferenteDe => Resultado::Valor(VmValor::Bool(!a.igual(b))),
        OpBinario::MenorQue => relacionar(Relacao::Menor, a, b),
        OpBinario::MaiorQue => relacionar(Relacao::Maior, a, b),
        OpBinario::MenorOuIgual => relacionar(Relacao::MenorIgual, a, b),
        OpBinario::MaiorOuIgual => relacionar(Relacao::MaiorIgual, a, b),
        OpBinario::E => Resultado::Valor(VmValor::Bool(vale(a) && vale(b))),
        OpBinario::Ou => Resultado::Valor(VmValor::Bool(vale(a) || vale(b))),
        _ => Resultado::Falha("operador ainda nao suportado pela VM de registradores".to_owned()),
    }
}

fn operar_um(op: OpUnario, v: &VmValor) -> (r: Resultado)
    ensures
        r@ == unaria(op, v@),
{
    match op {
        OpUnario::Nao => Resultado::Valor(VmValor::Bool(!vale(v))),
        OpUnario::Negativo => match v {
            VmValor::Int(n) => if *n == i64::MIN {
                Resultado::Panico
            } else {
                Resultado::Valor(VmValor::Int(-*n))
            },
            VmValor::Num(d) => Resultado::Pede(PedidoReg::Negar(d.bits)),
            _ => Resultado::Falha("operacao unaria invalida".to_owned()),
        },
    }
}

fn dizer_invalido(r: Registro) -> (m: String)
    ensures
        m@ == invalido(r),
{
    let t = texto::natural(r as u64);
    frase("registro r", t.as_str(), " invalido")
}

impl MaquinaReg {
    /// Comeca um programa, com o limite de operacoes que a configuracao diz.
    pub fn executar(programa: ProgramaReg, config: Option<&str>) -> (r: Self)
        ensures
            r@ == (MaquinaVista {
                codigo: codigos(programa.instrucoes@),
                registradores: Seq::new(programa.quantidade_registradores as nat, |i: int| vm::Visto::Null),
                ip: 0,
                operacoes: 0,
                limite: maquina::limite_de(
                    match config {
                        Some(s) => Some(s@),
                        None => None,
                    },
                ),
                espera: None,
            }),
    {
        let limite = match config {
            Some(s) => match busca::ler_natural(s, u64::MAX) {
                Some(n) => n,
                None => 10000000,
            },
            None => 10000000,
        };
        let n = programa.quantidade_registradores;
        let mut regs: Vec<VmValor> = Vec::new();
        let mut i: usize = 0;
        while i < n
            invariant
                i <= n,
                regs@.len() == i,
                forall|k: int| 0 <= k < i ==> (#[trigger] regs@[k])@ == vm::Visto::Null,
            decreases n - i,
        {
            regs.push(VmValor::Null);
            i += 1;
        }
        assert(vm::vistos(regs@) =~= Seq::new(n as nat, |i: int| vm::Visto::Null));
        MaquinaReg { programa, registradores: regs, ip: 0, operacoes: 0, limite, espera: None }
    }

    fn guardar(&mut self, r: Registro, v: VmValor) -> (a: AcaoReg)
        ensures
            (final(self)@, a@) == guarda(old(self)@, r, v@),
    {
        assert(self@.registradores.len() == self.registradores@.len());
        if (r as usize) < self.registradores.len() {
            let ghost antes = vm::vistos(self.registradores@);
            let ghost x = v@;
            self.registradores.set(r as usize, v);
            assert(vm::vistos(self.registradores@) =~= antes.update(r as int, x));
            AcaoReg::Andou
        } else {
            AcaoReg::Panico
        }
    }

    fn entregar(&mut self, r: Registro, o: Resultado) -> (a: AcaoReg)
        ensures
            (final(self)@, a@) == entrega(old(self)@, r, o@),
    {
        match o {
            Resultado::Valor(v) => self.guardar(r, v),
            Resultado::Pede(p) => {
                self.espera = Some(r);
                AcaoReg::Pede(p)
            },
            Resultado::Falha(m) => AcaoReg::Falhou(m),
            Resultado::Panico => AcaoReg::Panico,
        }
    }

    fn obter(&self, r: Registro) -> (v: Option<VmValor>)
        ensures
            match v {
                Some(x) => r < self@.registradores.len() && x@ == self@.registradores[r as int],
                None => r >= self@.registradores.len(),
            },
    {
        assert(self@.registradores.len() == self.registradores@.len());
        if (r as usize) < self.registradores.len() {
            assert(self@.registradores[r as int] == self.registradores@[r as int]@);
            Some(self.registradores[r as usize].clone())
        } else {
            None
        }
    }

    fn escrever(&mut self, rs: Vec<Registro>) -> (a: AcaoReg)
        ensures
            (final(self)@, a@) == executa(old(self)@, Codigo::Imprimir(rs@)),
    {
        let ghost regs = self@.registradores;
        let mut ts: Vec<String> = Vec::new();
        assert(texto::textos(ts@) =~= Seq::<Seq<char>>::empty());
        let mut i: usize = 0;
        while i < rs.len()
            invariant
                i <= rs@.len(),
                self@ == old(self)@,
                regs == self@.registradores,
                textos_dos(regs, rs@, i as int) == Ok::<Seq<Seq<char>>, Registro>(texto::textos(ts@)),
            decreases rs@.len() - i,
        {
            match self.obter(rs[i]) {
                Some(v) => {
                    let ghost antes = ts@;
                    ts.push(v.texto());
                    assert(texto::textos(ts@) =~= texto::textos(antes).push(vm::texto_de(v@)));
                },
                None => {
                    proof {
                        lema_falta(regs, rs@, i + 1, rs@[i as int]);
                    }
                    return AcaoReg::Falhou(dizer_invalido(rs[i]));
                },
            }
            i += 1;
        }
        let mut s = busca::juntar(&ts, " ");
        s.append("\n");
        AcaoReg::Pede(PedidoReg::Escrever(s))
    }

    fn contar_em(&mut self, destino: Registro, atual: Registro, fim: Registro, passo: Registro) -> (a: AcaoReg)
        ensures
            (final(self)@, a@) == contagem_em(old(self)@, destino, atual, fim, passo),
    {
        let x = match self.obter(atual) {
            Some(v) => v,
            None => return AcaoReg::Falhou(dizer_invalido(atual)),
        };
        let a = match em_numero(&x) {
            Some(n) => n,
            None => return AcaoReg::Falhou("numero esperado".to_owned()),
        };
        let y = match self.obter(fim) {
            Some(v) => v,
            None => return AcaoReg::Falhou(dizer_invalido(fim)),
        };
        let f = match em_numero(&y) {
            Some(n) => n,
            None => return AcaoReg::Falhou("numero esperado".to_owned()),
        };
        let z = match self.obter(passo) {
            Some(v) => v,
            None => return AcaoReg::Falhou(dizer_invalido(passo)),
        };
        let p = match em_numero(&z) {
            Some(n) => n,
            None => return AcaoReg::Falhou("numero esperado".to_owned()),
        };
        let r = if comparar_numeros(Relacao::MaiorIgual, p, 0) {
            comparar_numeros(Relacao::MenorIgual, a, f)
        } else {
            comparar_numeros(Relacao::MaiorIgual, a, f)
        };
        self.entregar(destino, Resultado::Valor(VmValor::Bool(r)))
    }

    fn fazer(&mut self, c: InstrucaoReg) -> (a: AcaoReg)
        ensures
            (final(self)@, a@) == executa(old(self)@, c@),
    {
        proof {
            reveal_with_fuel(falta, 3);
        }
        match c {
            InstrucaoReg::Constante { destino, valor } => self.guardar(destino, valor),
            InstrucaoReg::Numero { destino, lexema } => self.entregar(
                destino,
                Resultado::Pede(PedidoReg::Numero(lexema)),
            ),
            InstrucaoReg::Mover { destino, origem } => match self.obter(origem) {
                Some(v) => self.guardar(destino, v),
                None => AcaoReg::Falhou(dizer_invalido(origem)),
            },
            InstrucaoReg::Binaria { destino, a, op, b } => match self.obter(a) {
                Some(x) => match self.obter(b) {
                    Some(y) => self.entregar(destino, operar(&x, op, &y)),
                    None => AcaoReg::Falhou(dizer_invalido(b)),
                },
                None => AcaoReg::Falhou(dizer_invalido(a)),
            },
            InstrucaoReg::Unaria { destino, op, origem } => match self.obter(origem) {
                Some(v) => self.entregar(destino, operar_um(op, &v)),
                None => AcaoReg::Falhou(dizer_invalido(origem)),
            },
            InstrucaoReg::IntervaloValido { destino, atual, fim, passo } => self.contar_em(destino, atual, fim, passo),
            InstrucaoReg::Imprimir(rs) => self.escrever(rs),
            InstrucaoReg::Pular(alvo) => {
                self.ip = alvo;
                AcaoReg::Andou
            },
            InstrucaoReg::PularSeFalso { condicao, alvo } => match self.obter(condicao) {
                Some(v) => {
                    if !vale(&v) {
                        self.ip = alvo;
                    }
                    AcaoReg::Andou
                },
                None => AcaoReg::Falhou(dizer_invalido(condicao)),
            },
            InstrucaoReg::Parar => AcaoReg::Parou,
        }
    }

    /// Um passo.
    pub fn avancar(&mut self) -> (a: AcaoReg)
        ensures
            (final(self)@, a@) == passo(old(self)@),
    {
        let n = self.programa.instrucoes.len();
        assert(self@.codigo.len() == n);
        if self.ip >= n {
            return AcaoReg::Parou;
        }
        if self.operacoes < u64::MAX {
            self.operacoes = self.operacoes + 1;
        }
        if self.limite > 0 && self.operacoes > self.limite {
            let t = texto::natural(self.limite);
            return AcaoReg::Falhou(frase("limite de ", t.as_str(), " operacoes excedido na VM de registradores"));
        }
        assert(self@.codigo[self.ip as int] == self.programa.instrucoes@[self.ip as int]@);
        let c = copiar(&self.programa.instrucoes[self.ip]);
        self.ip = self.ip + 1;
        self.fazer(c)
    }

    /// Ate `k` passos, enquanto a maquina anda.
    pub fn correr(&mut self, k: u64) -> (a: AcaoReg)
        ensures
            (final(self)@, a@) == corre(old(self)@, k as int),
    {
        let ghost m = self@;
        let mut i: u64 = k;
        while i > 0
            invariant
                i <= k,
                m == old(self)@,
                corre(m, k as int) == corre(self@, i as int),
            decreases i,
        {
            let a = self.avancar();
            match a {
                AcaoReg::Andou => {},
                _ => return a,
            }
            i -= 1;
        }
        AcaoReg::Andou
    }

    /// Segue com a resposta a um pedido.
    pub fn responder(&mut self, r: RespostaReg) -> (a: AcaoReg)
        ensures
            (final(self)@, a@) == responde(old(self)@, r),
    {
        match (self.espera, r) {
            (Some(d), RespostaReg::Numero(x)) => {
                self.espera = None;
                self.guardar(d, VmValor::Num(x))
            },
            (Some(d), RespostaReg::Inteiro(n)) => {
                self.espera = None;
                self.guardar(d, VmValor::Int(n))
            },
            (None, RespostaReg::Feito) => AcaoReg::Andou,
            _ => AcaoReg::Panico,
        }
    }
}

proof fn lema_falta(regs: Seq<vm::Visto>, rs: Seq<Registro>, n: int, r: Registro)
    requires
        0 <= n <= rs.len(),
        textos_dos(regs, rs, n) == Err::<Seq<Seq<char>>, Registro>(r),
    ensures
        textos_dos(regs, rs, rs.len() as int) == Err::<Seq<Seq<char>>, Registro>(r),
    decreases rs.len() - n,
{
    if n < rs.len() {
        lema_falta(regs, rs, n + 1, r);
    }
}

fn copiar(i: &InstrucaoReg) -> (r: InstrucaoReg)
    ensures
        r@ == i@,
{
    match i {
        InstrucaoReg::Constante { destino, valor } => InstrucaoReg::Constante {
            destino: *destino,
            valor: valor.clone(),
        },
        InstrucaoReg::Numero { destino, lexema } => InstrucaoReg::Numero {
            destino: *destino,
            lexema: lexema.clone(),
        },
        InstrucaoReg::Mover { destino, origem } => InstrucaoReg::Mover { destino: *destino, origem: *origem },
        InstrucaoReg::Binaria { destino, a, op, b } => InstrucaoReg::Binaria {
            destino: *destino,
            a: *a,
            op: *op,
            b: *b,
        },
        InstrucaoReg::Unaria { destino, op, origem } => InstrucaoReg::Unaria {
            destino: *destino,
            op: *op,
            origem: *origem,
        },
        InstrucaoReg::IntervaloValido { destino, atual, fim, passo } => InstrucaoReg::IntervaloValido {
            destino: *destino,
            atual: *atual,
            fim: *fim,
            passo: *passo,
        },
        InstrucaoReg::Imprimir(rs) => {
            let mut v: Vec<Registro> = Vec::new();
            let mut k: usize = 0;
            while k < rs.len()
                invariant
                    k <= rs@.len(),
                    v@ == rs@.take(k as int),
                decreases rs@.len() - k,
            {
                v.push(rs[k]);
                assert(v@ =~= rs@.take(k + 1));
                k += 1;
            }
            assert(v@ =~= rs@);
            InstrucaoReg::Imprimir(v)
        },
        InstrucaoReg::Pular(a) => InstrucaoReg::Pular(*a),
        InstrucaoReg::PularSeFalso { condicao, alvo } => InstrucaoReg::PularSeFalso {
            condicao: *condicao,
            alvo: *alvo,
        },
        InstrucaoReg::Parar => InstrucaoReg::Parar,
    }
}

// ---- Leis -------------------------------------------------------------------------------

/// Se uma instrucao pode dar um inteiro que nao cabe.
pub open spec fn pode_nao_caber(c: Codigo) -> bool {
    match c {
        Codigo::Binaria { op, .. } => op == OpBinario::Soma,
        Codigo::Unaria { op, .. } => op == OpUnario::Negativo,
        _ => false,
    }
}

/// Num programa valido nenhum passo sai dos registradores nem do codigo: o codigo e quantos
/// registradores ha nao mudam, e so falta lugar para uma soma ou um simetrico que nao cabe.
pub proof fn lei_passo(m: MaquinaVista)
    requires
        valido(m.codigo, m.registradores.len() as int),
        0 <= m.ip <= m.codigo.len(),
    ensures
        passo(m).0.codigo == m.codigo,
        passo(m).0.registradores.len() == m.registradores.len(),
        0 <= passo(m).0.ip <= m.codigo.len(),
        passo(m).1 is Panico ==> pode_nao_caber(m.codigo[m.ip]),
{
    reveal_with_fuel(falta, 3);
    if m.ip < m.codigo.len() {
        assert(instrucao_valida(m.codigo[m.ip], m.registradores.len() as int, m.codigo.len() as int));
    }
}

} // verus!
