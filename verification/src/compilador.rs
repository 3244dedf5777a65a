//! Compilacao: da arvore ao codigo da maquina de pilha.

use vstd::prelude::*;
use crate::ast;
use crate::ast::{ArvoreExpr, ArvoreInstr, Expressao, Instrucao, OpBinario, OpUnario, Parametro};
use crate::bytecode;
use crate::bytecode::{Comando, Op};
use crate::codigo;
use crate::construcoes;
use crate::escolhas;
use crate::remendos;
use crate::texto;

verus! {

// ---- O compilador -----------------------------------------------------------------------

/// Compila um programa. O codigo acaba por `Halt`.
pub fn compilar(programa: &Vec<Instrucao>) -> (r: Result<Vec<Op>, String>)
    ensures
        match r {
            Ok(ops) => codigo::codigo_todo(ast::instrs(programa@), 0, None, 0) == Some(
                bytecode::comandos(ops@).drop_last(),
            ) && ops@.len() > 0 && ops@.last() is Halt,
            Err(m) => codigo::codigo_todo(ast::instrs(programa@), 0, None, 0) is None && m@ == codigo::erro_continue(),
        },
{
    reveal(codigo::trecho);
    reveal(codigo::emitiu);
    let mut ctx = Compilador { ops: Vec::new() };
    let mut breaks: Vec<usize> = Vec::new();
    reveal(Compilador::cs);
    assert(ctx.fim() == 0);
    let ghost t = ast::instrs(programa@);
    match ctx.compilar_bloco(programa, None, &mut breaks) {
        Ok(_) => {},
        Err(e) => {
            assert(codigo::codigo_todo(t, 0, codigo::inicio_de(None), 0) is None);
            return Err(e);
        },
    }
    assert(codigo::codigo_todo(t, 0, codigo::inicio_de(None), 0) == Some(codigo::trecho(ctx.cs(), breaks@, 0, 0)));
    proof {
        construcoes::lema_saltos_soltos(ast::instrs(programa@), ctx.cs(), breaks@);
    }
    let ghost c1 = ctx.cs();
    ctx.emit(Op::Halt);
    assert(ctx.cs().drop_last() == c1);
    assert(ctx.ops@.last()@ == ctx.cs().last());
    Ok(ctx.ops)
}

/// Compila o corpo de uma funcao. O codigo acaba por devolver nulo.
pub fn compilar_corpo_funcao(corpo: &Vec<Instrucao>) -> (r: Result<Vec<Op>, String>)
    ensures
        match r {
            Ok(ops) => codigo::codigo_corpo(ast::instrs(corpo@)) == Some(bytecode::comandos(ops@)),
            Err(m) => codigo::codigo_corpo(ast::instrs(corpo@)) is None && m@ == codigo::erro_continue(),
        },
    decreases corpo, corpo@.len() + 3,
{
    reveal(codigo::trecho);
    reveal(codigo::emitiu);
    let mut ctx = Compilador { ops: Vec::new() };
    let mut breaks: Vec<usize> = Vec::new();
    reveal(Compilador::cs);
    assert(ctx.fim() == 0);
    let ghost t = ast::instrs(corpo@);
    match ctx.compilar_bloco(corpo, None, &mut breaks) {
        Ok(_) => {},
        Err(e) => {
            assert(codigo::codigo_todo(t, 0, codigo::inicio_de(None), 0) is None);
            return Err(e);
        },
    }
    assert(codigo::codigo_todo(t, 0, codigo::inicio_de(None), 0) == Some(codigo::trecho(ctx.cs(), breaks@, 0, 0)));
    proof {
        construcoes::lema_saltos_soltos(ast::instrs(corpo@), ctx.cs(), breaks@);
    }
    ctx.emit(Op::ReturnNull);
    Ok(ctx.ops)
}

/// Compila o corpo de uma funcao seta, que devolve o valor da expressao.
fn compilar_seta(corpo: &Expressao) -> (r: Result<Vec<Op>, String>)
    ensures
        match r {
            Ok(ops) => codigo::codigo_expr(corpo@, 0) is Some && bytecode::comandos(ops@) == codigo::codigo_expr(
                corpo@,
                0,
            )->Some_0.push(Comando::Return),
            Err(m) => codigo::codigo_expr(corpo@, 0) is None && m@ == codigo::erro_continue(),
        },
    decreases corpo, 2int,
{
    let mut sub = Compilador { ops: Vec::new() };
    reveal(Compilador::cs);
    assert(sub.cs() =~= Seq::<Comando>::empty());
    match sub.compilar_expr(corpo) {
        Ok(v) => v,
        Err(e) => {
            return Err(e);
        },
    };
    sub.emit(Op::Return);
    assert(sub.cs() =~= codigo::codigo_expr(corpo@, 0)->Some_0.push(Comando::Return));
    Ok(sub.ops)
}

/// A instrucao que executa a chamada da funcao de nome `nome` com `n` argumentos.
fn op_chamada(nome: &String, n: usize) -> (r: Op)
    ensures
        r@ == codigo::comando_chamada(nome@, n as int),
{
    let t = nome.as_str();
    if t.eq("tensor_matmul") && n == 2 {
        Op::TensorMatMul
    } else if t.eq("mat_mul") && n == 2 {
        Op::TensorMatMul
    } else if t.eq("tensor_transpor") && n == 1 {
        Op::TensorTranspor
    } else if t.eq("mat_transpor") && n == 1 {
        Op::TensorTranspor
    } else if t.eq("tensor_relu") && n == 1 {
        Op::TensorReLU
    } else if t.eq("tensor_sigmoid") && n == 1 {
        Op::TensorSigmoid
    } else if t.eq("tensor_softmax") && n == 1 {
        Op::TensorSoftmax
    } else if t.eq("tensor_tanh") && n == 1 {
        Op::TensorTanh
    } else if t.eq("tensor_add") && n == 2 {
        Op::TensorAdd
    } else if t.eq("tensor_soma") && n == 2 {
        Op::TensorAdd
    } else if t.eq("tensor_sub") && n == 2 {
        Op::TensorSub
    } else if t.eq("tensor_mul") && n == 2 {
        Op::TensorMulElem
    } else if t.eq("tensor_div") && n == 2 {
        Op::TensorDivElem
    } else if t.eq("tensor_potencia") && n == 2 {
        Op::TensorPow
    } else if t.eq("tensor_neg") && n == 1 {
        Op::TensorNeg
    } else if t.eq("tensor_exp") && n == 1 {
        Op::TensorExp
    } else if t.eq("tensor_log") && n == 1 {
        Op::TensorLog
    } else if t.eq("tensor_raiz") && n == 1 {
        Op::TensorSqrt
    } else if t.eq("tensor_soma_total") && n == 1 {
        Op::TensorSomaTotal
    } else if t.eq("tensor_media") && n == 1 {
        Op::TensorMediaTotal
    } else if t.eq("tensor_max") && n == 1 {
        Op::TensorMaxTotal
    } else if t.eq("tensor_min") && n == 1 {
        Op::TensorMinTotal
    } else if t.eq("tensor_soma_eixo") && n == 2 {
        Op::TensorSomaEixo
    } else if t.eq("tensor_media_eixo") && n == 2 {
        Op::TensorMediaEixo
    } else if t.eq("tensor_max_eixo") && n == 2 {
        Op::TensorMaxEixo
    } else if t.eq("tensor_min_eixo") && n == 2 {
        Op::TensorMinEixo
    } else if t.eq("tensor_concatenar") && n == 2 {
        Op::TensorConcatenar
    } else if t.eq("tensor_empilhar") && n == 2 {
        Op::TensorEmpilhar
    } else {
        Op::CallNative(nome.clone(), n)
    }
}

/// Os nomes dos parametros.
fn nomes_de(ps: &Vec<Parametro>) -> (r: Vec<String>)
    ensures
        texto::textos(r@) == codigo::nomes(ast::params(ps@)),
{
    let mut r: Vec<String> = Vec::new();
    for i in 0..ps.len()
        invariant
            r@.len() == i,
            forall|k: int| 0 <= k < i ==> (#[trigger] r@[k])@ == ps@[k].nome@,
    {
        r.push(ps[i].nome.clone());
    }
    assert(texto::textos(r@) == codigo::nomes(ast::params(ps@))) by {
        assert forall|k: int| 0 <= k < ps@.len() implies texto::textos(r@)[k] == codigo::nomes(
            ast::params(ps@),
        )[k] by {
            assert(ast::params(ps@)[k] == ps@[k]@);
        }
    }
    r
}

/// As chaves de um mapa.
fn chaves_de(ps: &Vec<(String, Expressao)>) -> (r: Vec<String>)
    ensures
        texto::textos(r@) == codigo::chaves(ast::pares(ps@)),
{
    let mut r: Vec<String> = Vec::new();
    for i in 0..ps.len()
        invariant
            r@.len() == i,
            forall|k: int| 0 <= k < i ==> (#[trigger] r@[k])@ == ps@[k].0@,
    {
        r.push(ps[i].0.clone());
    }
    assert(texto::textos(r@) == codigo::chaves(ast::pares(ps@)));
    r
}

/// Um nome interno: o prefixo seguido do endereco.
fn nome_interno(prefixo: &str, n: usize) -> (r: String)
    ensures
        r@ == prefixo@ + texto::decimal(n as nat),
{
    let mut r = prefixo.to_owned();
    let d = texto::natural(n as u64);
    r.append(d.as_str());
    r
}

/// O codigo emitido ate agora.
struct Compilador {
    ops: Vec<Op>,
}

impl Compilador {
    /// O que o codigo emitido representa.
    #[verifier::opaque]
    spec fn cs(&self) -> Seq<Comando> {
        bytecode::comandos(self.ops@)
    }

    spec fn fim(&self) -> int {
        self.cs().len() as int
    }

    fn emit(&mut self, op: Op) -> (r: usize)
        ensures
            final(self).cs() == old(self).cs().push(op@),
            r == old(self).cs().len(),
            r == old(self).fim(),
    {
        reveal(Compilador::cs);
        let n = self.ops.len();
        let ghost antes = self.ops@;
        self.ops.push(op);
        assert(self.cs() == bytecode::comandos(antes).push(op@));
        n
    }

    fn len(&self) -> (r: usize)
        ensures
            r == self.cs().len(),
            r == self.fim(),
    {
        reveal(Compilador::cs);
        self.ops.len()
    }

    /// Troca o alvo do salto da posicao dada.
    fn patch(&mut self, idx: usize, alvo: usize)
        requires
            idx < old(self).cs().len(),
        ensures
            final(self).cs() == old(self).cs().update(
                idx as int,
                codigo::com_alvo(old(self).cs()[idx as int], alvo as int),
            ),
    {
        reveal(Compilador::cs);
        let ghost antes = self.ops@;
        let novo = match &self.ops[idx] {
            Op::Jump(_) => Op::Jump(alvo),
            Op::JumpFalse(_) => Op::JumpFalse(alvo),
            Op::JumpTrue(_) => Op::JumpTrue(alvo),
            Op::TryCatch(_) => Op::TryCatch(alvo),
            outra => outra.clone(),
        };
        self.ops[idx] = novo;
        assert(self.cs() == bytecode::comandos(antes).update(
            idx as int,
            codigo::com_alvo(bytecode::comandos(antes)[idx as int], alvo as int),
        ));
    }

    /// Troca o alvo dos saltos de todas as posicoes dadas.
    fn remendar(&mut self, qs: &Vec<usize>, alvo: usize)
        requires
            codigo::anteriores(qs@, old(self).cs().len() as int),
        ensures
            final(self).cs() == codigo::remendo(old(self).cs(), qs@, alvo as int),
    {
        let ghost c = self.cs();
        assert(codigo::remendo(c, qs@.take(0), alvo as int) =~= c);
        for i in 0..qs.len()
            invariant
                c == old(self).cs(),
                codigo::anteriores(qs@, c.len() as int),
                self.cs() == codigo::remendo(c, qs@.take(i as int), alvo as int),
        {
            let q = qs[i];
            proof {
                assert(qs@[i as int] == q);
                assert(codigo::tem(qs@, q as int));
                assert(qs@.take(i + 1) == qs@.take(i as int).push(q));
                remendos::lema_tem_push(qs@.take(i as int), q);
            }
            self.patch(q, alvo);
            assert(self.cs() =~= codigo::remendo(c, qs@.take(i + 1), alvo as int));
        }
        assert(qs@.take(qs@.len() as int) == qs@);
    }

    // ---- Expressoes -----------------------------------------------------------------------

    fn compilar_exprs(&mut self, v: &Vec<Expressao>) -> (r: Result<(), String>)
        ensures
            match r {
                Ok(_) => codigo::codigo_exprs(ast::exprs(v@), v@.len() as int, old(self).fim()) is Some && final(self).cs() == old(self).cs() + codigo::codigo_exprs(ast::exprs(v@), v@.len() as int, old(self).fim())->Some_0,
                Err(m) => codigo::codigo_exprs(ast::exprs(v@), v@.len() as int, old(self).fim()) is None && m@ == codigo::erro_continue(),
            },
        decreases v, v@.len() + 1,
    {
        let ghost c = self.cs();
        let ghost t = ast::exprs(v@);
        let mut i: usize = 0;
        while i < v.len()
            invariant
                i <= v@.len(),
                c == old(self).cs(),
                t == ast::exprs(v@),
                c.len() <= self.cs().len(),
                codigo::codigo_exprs(t, i as int, c.len() as int) == Some(
                    self.cs().subrange(c.len() as int, self.cs().len() as int),
                ),
                self.cs().subrange(0, c.len() as int) == c,
            decreases v@.len() - i,
        {
            let ghost a = self.cs();
            match self.compilar_expr(&v[i]) {
                Ok(_) => {
                    proof {
                        let d = self.cs();
                        assert(t[i as int] == v@[i as int]@);
                        let y = codigo::codigo_expr(t[i as int], a.len() as int)->Some_0;
                        assert(d == a + y);
                        assert(d.subrange(c.len() as int, d.len() as int) =~= a.subrange(
                            c.len() as int,
                            a.len() as int,
                        ) + y);
                        assert(d.subrange(0, c.len() as int) =~= c);
                    }
                },
                Err(e) => {
                    proof {
                        assert(t[i as int] == v@[i as int]@);
                        remendos::lema_exprs_falha(t, i as int, v@.len() as int, c.len() as int);
                    }
                    return Err(e);
                },
            }
            i += 1;
        }
        assert(self.cs() =~= c + self.cs().subrange(c.len() as int, self.cs().len() as int));
        Ok(())
    }

    fn compilar_pares(&mut self, v: &Vec<(String, Expressao)>) -> (r: Result<(), String>)
        ensures
            match r {
                Ok(_) => codigo::codigo_pares(ast::pares(v@), v@.len() as int, old(self).fim()) is Some && final(self).cs() == old(self).cs() + codigo::codigo_pares(ast::pares(v@), v@.len() as int, old(self).fim())->Some_0,
                Err(m) => codigo::codigo_pares(ast::pares(v@), v@.len() as int, old(self).fim()) is None && m@ == codigo::erro_continue(),
            },
        decreases v, v@.len() + 1,
    {
        let ghost c = self.cs();
        let ghost t = ast::pares(v@);
        let mut i: usize = 0;
        while i < v.len()
            invariant
                i <= v@.len(),
                c == old(self).cs(),
                t == ast::pares(v@),
                c.len() <= self.cs().len(),
                codigo::codigo_pares(t, i as int, c.len() as int) == Some(
                    self.cs().subrange(c.len() as int, self.cs().len() as int),
                ),
                self.cs().subrange(0, c.len() as int) == c,
            decreases v@.len() - i,
        {
            let ghost a = self.cs();
            let par = &v[i];
            match self.compilar_expr(&par.1) {
                Ok(_) => {
                    proof {
                        let d = self.cs();
                        assert(t[i as int].1 == v@[i as int].1@);
                        let y = codigo::codigo_expr(t[i as int].1, a.len() as int)->Some_0;
                        assert(d == a + y);
                        assert(d.subrange(c.len() as int, d.len() as int) =~= a.subrange(
                            c.len() as int,
                            a.len() as int,
                        ) + y);
                        assert(d.subrange(0, c.len() as int) =~= c);
                    }
                },
                Err(e) => {
                    proof {
                        assert(t[i as int].1 == v@[i as int].1@);
                        remendos::lema_pares_falha(t, i as int, v@.len() as int, c.len() as int);
                    }
                    return Err(e);
                },
            }
            i += 1;
        }
        assert(self.cs() =~= c + self.cs().subrange(c.len() as int, self.cs().len() as int));
        Ok(())
    }

    fn compilar_expr(&mut self, expr: &Expressao) -> (r: Result<(), String>)
        ensures
            match r {
                Ok(_) => codigo::codigo_expr(expr@, old(self).fim()) is Some && final(self).cs() == old(self).cs() + codigo::codigo_expr(expr@, old(self).fim())->Some_0,
                Err(m) => codigo::codigo_expr(expr@, old(self).fim()) is None && m@ == codigo::erro_continue(),
            },
        decreases expr, 1int,
    {
        let ghost c = self.cs();
        let op = match expr {
            Expressao::Inteiro(n) => Op::PushInt(*n),
            Expressao::Numero(t) => Op::PushNum(t.clone()),
            Expressao::Texto(t) => Op::PushStr(t.clone()),
            Expressao::Booleano(b) => Op::PushBool(*b),
            Expressao::Nulo => Op::PushNull,
            Expressao::Variavel(nome) => Op::Load(nome.clone()),
            Expressao::FuncaoAnonima { parametros, corpo } => {
                let sub = match compilar_corpo_funcao(corpo) {
                    Ok(v) => v,
                    Err(e) => {
                        return Err(e);
                    },
                };
                let nome = String::new();
                Op::DefFunc { nome, params: nomes_de(parametros), corpo: sub }
            },
            Expressao::FuncaoSeta { parametros, corpo } => {
                let sub = match compilar_seta(corpo) {
                    Ok(v) => v,
                    Err(e) => {
                        return Err(e);
                    },
                };
                let nome = String::new();
                Op::DefFunc { nome, params: ast::copiar_textos(parametros), corpo: sub }
            },
            Expressao::Lista(_) | Expressao::Mapa(_) | Expressao::ChamadaFuncao { .. } | Expressao::Chamada {
                ..
            } => {
                return self.compilar_colecao(expr);
            },
            Expressao::Atribuicao { .. } | Expressao::AtribuicaoIndexada { .. } => {
                return self.compilar_atribuicao(expr);
            },
            Expressao::UnOp { .. } | Expressao::Acesso { .. } => {
                return self.compilar_operacao(expr);
            },
            Expressao::BinOp { .. } => {
                return self.compilar_binario(expr);
            },
            Expressao::NullCoalescente { .. } => {
                return self.compilar_coalescente(expr);
            },
            Expressao::AcessoOpcional { .. } => {
                return self.compilar_acesso_opcional(expr);
            },
        };
        assert(codigo::codigo_expr(expr@, c.len() as int) == Some(seq![op@]));
        self.emit(op);
        assert(self.cs() =~= c + seq![op@]);
        Ok(())
    }

    /// Compila listas, mapas e chamadas.
    fn compilar_colecao(&mut self, expr: &Expressao) -> (r: Result<(), String>)
        requires
            expr is Lista || expr is Mapa || expr is ChamadaFuncao || expr is Chamada,
        ensures
            match r {
                Ok(_) => codigo::codigo_expr(expr@, old(self).fim()) is Some && final(self).cs() == old(self).cs() + codigo::codigo_expr(expr@, old(self).fim())->Some_0,
                Err(m) => codigo::codigo_expr(expr@, old(self).fim()) is None && m@ == codigo::erro_continue(),
            },
        decreases expr, 0int,
    {
        let ghost c = self.cs();
        match expr {
            Expressao::Lista(elementos) => {
                match self.compilar_exprs(elementos) {
                    Ok(v) => v,
                    Err(e) => {
                        return Err(e);
                    },
                };
                self.emit(Op::MakeList(elementos.len()));
            },
            Expressao::Mapa(pares) => {
                match self.compilar_pares(pares) {
                    Ok(v) => v,
                    Err(e) => {
                        return Err(e);
                    },
                };
                self.emit(Op::MakeMap(chaves_de(pares)));
            },
            Expressao::ChamadaFuncao { nome, args } => {
                match self.compilar_exprs(args) {
                    Ok(v) => v,
                    Err(e) => {
                        return Err(e);
                    },
                };
                self.emit(op_chamada(nome, args.len()));
            },
            Expressao::Chamada { funcao, args } => {
                match self.compilar_expr(funcao) {
                    Ok(v) => v,
                    Err(e) => {
                        return Err(e);
                    },
                };
                match self.compilar_exprs(args) {
                    Ok(v) => v,
                    Err(e) => {
                        return Err(e);
                    },
                };
                self.emit(Op::Call(args.len()));
            },
            _ => {},
        }
        proof {
            let x = codigo::codigo_expr(expr@, c.len() as int)->Some_0;
            assert(self.cs() =~= c + x);
        }
        Ok(())
    }

    /// Compila atribuicoes.
    fn compilar_atribuicao(&mut self, expr: &Expressao) -> (r: Result<(), String>)
        requires
            expr is Atribuicao || expr is AtribuicaoIndexada,
        ensures
            match r {
                Ok(_) => codigo::codigo_expr(expr@, old(self).fim()) is Some && final(self).cs() == old(self).cs() + codigo::codigo_expr(expr@, old(self).fim())->Some_0,
                Err(m) => codigo::codigo_expr(expr@, old(self).fim()) is None && m@ == codigo::erro_continue(),
            },
        decreases expr, 0int,
    {
        let ghost c = self.cs();
        match expr {
            Expressao::Atribuicao { nome, valor } => {
                match self.compilar_expr(valor) {
                    Ok(v) => v,
                    Err(e) => {
                        return Err(e);
                    },
                };
                self.emit(Op::Dup);
                self.emit(Op::Store(nome.clone()));
            },
            Expressao::AtribuicaoIndexada { objeto, indice, valor } => {
                match self.compilar_expr(objeto) {
                    Ok(v) => v,
                    Err(e) => {
                        return Err(e);
                    },
                };
                match self.compilar_expr(indice) {
                    Ok(v) => v,
                    Err(e) => {
                        return Err(e);
                    },
                };
                match self.compilar_expr(valor) {
                    Ok(v) => v,
                    Err(e) => {
                        return Err(e);
                    },
                };
                self.emit(Op::SetIndex);
                if let Expressao::Variavel(nome) = &**objeto {
                    assert(objeto@ == ArvoreExpr::Variavel(nome@));
                    self.emit(Op::Store(nome.clone()));
                } else {
                    assert(!(objeto@ is Variavel));
                }
            },
            _ => {},
        }
        proof {
            let x = codigo::codigo_expr(expr@, c.len() as int)->Some_0;
            assert(self.cs() =~= c + x);
        }
        Ok(())
    }

    /// Compila operadores de um operando e acessos.
    fn compilar_operacao(&mut self, expr: &Expressao) -> (r: Result<(), String>)
        requires
            expr is UnOp || expr is Acesso,
        ensures
            match r {
                Ok(_) => codigo::codigo_expr(expr@, old(self).fim()) is Some && final(self).cs() == old(self).cs() + codigo::codigo_expr(expr@, old(self).fim())->Some_0,
                Err(m) => codigo::codigo_expr(expr@, old(self).fim()) is None && m@ == codigo::erro_continue(),
            },
        decreases expr, 0int,
    {
        let ghost c = self.cs();
        match expr {
            Expressao::UnOp { op, expr: e } => {
                match self.compilar_expr(e) {
                    Ok(v) => v,
                    Err(e) => {
                        return Err(e);
                    },
                };
                let o = match op {
                    OpUnario::Negativo => Op::Neg,
                    OpUnario::Nao => Op::Not,
                };
                self.emit(o);
            },
            Expressao::Acesso { objeto, indice } => {
                match self.compilar_expr(objeto) {
                    Ok(v) => v,
                    Err(e) => {
                        return Err(e);
                    },
                };
                match self.compilar_expr(indice) {
                    Ok(v) => v,
                    Err(e) => {
                        return Err(e);
                    },
                };
                self.emit(Op::GetIndex);
            },
            _ => {},
        }
        proof {
            let x = codigo::codigo_expr(expr@, c.len() as int)->Some_0;
            assert(self.cs() =~= c + x);
        }
        Ok(())
    }

    fn compilar_coalescente(&mut self, expr: &Expressao) -> (r: Result<(), String>)
        requires
            expr is NullCoalescente,
        ensures
            match r {
                Ok(_) => codigo::codigo_expr(expr@, old(self).fim()) is Some && final(self).cs() == old(self).cs() + codigo::codigo_expr(expr@, old(self).fim())->Some_0,
                Err(m) => codigo::codigo_expr(expr@, old(self).fim()) is None && m@ == codigo::erro_continue(),
            },
        decreases expr, 0int,
    {
        let ghost c = self.cs();
        if let Expressao::NullCoalescente { esq, dir } = expr {
            match self.compilar_expr(esq) {
                Ok(v) => v,
                Err(e) => {
                    return Err(e);
                },
            };
            self.emit(Op::Dup);
            self.emit(Op::PushNull);
            self.emit(Op::Eq);
            let jf = self.emit(Op::JumpFalse(0));
            self.emit(Op::Pop);
            match self.compilar_expr(dir) {
                Ok(v) => v,
                Err(e) => {
                    return Err(e);
                },
            };
            let fim = self.len();
            self.patch(jf, fim);
            proof {
                let x = codigo::codigo_expr(expr@, c.len() as int)->Some_0;
                assert(self.cs() =~= c + x);
            }
        }
        Ok(())
    }

    fn compilar_acesso_opcional(&mut self, expr: &Expressao) -> (r: Result<(), String>)
        requires
            expr is AcessoOpcional,
        ensures
            match r {
                Ok(_) => codigo::codigo_expr(expr@, old(self).fim()) is Some && final(self).cs() == old(self).cs() + codigo::codigo_expr(expr@, old(self).fim())->Some_0,
                Err(m) => codigo::codigo_expr(expr@, old(self).fim()) is None && m@ == codigo::erro_continue(),
            },
        decreases expr, 0int,
    {
        let ghost c = self.cs();
        if let Expressao::AcessoOpcional { objeto, chave } = expr {
            match self.compilar_expr(objeto) {
                Ok(v) => v,
                Err(e) => {
                    return Err(e);
                },
            };
            self.emit(Op::Dup);
            self.emit(Op::PushNull);
            self.emit(Op::Eq);
            let jf = self.emit(Op::JumpFalse(0));
            let pula_fim = self.emit(Op::Jump(0));
            let acesso_ini = self.len();
            self.patch(jf, acesso_ini);
            self.emit(Op::PushStr(chave.clone()));
            self.emit(Op::GetIndex);
            let fim = self.len();
            self.patch(pula_fim, fim);
            proof {
                let x = codigo::codigo_expr(expr@, c.len() as int)->Some_0;
                assert(self.cs() =~= c + x);
            }
        }
        Ok(())
    }

    fn compilar_binario(&mut self, expr: &Expressao) -> (r: Result<(), String>)
        requires
            expr is BinOp,
        ensures
            match r {
                Ok(_) => codigo::codigo_expr(expr@, old(self).fim()) is Some && final(self).cs() == old(self).cs() + codigo::codigo_expr(expr@, old(self).fim())->Some_0,
                Err(m) => codigo::codigo_expr(expr@, old(self).fim()) is None && m@ == codigo::erro_continue(),
            },
        decreases expr, 0int,
    {
        let ghost c = self.cs();
        if let Expressao::BinOp { esq, op, dir } = expr {
            match self.compilar_expr(esq) {
                Ok(v) => v,
                Err(e) => {
                    return Err(e);
                },
            };
            match op {
                OpBinario::E | OpBinario::Ou => {
                    self.emit(Op::Dup);
                    let salto = if matches!(op, OpBinario::E) {
                        self.emit(Op::JumpFalse(0))
                    } else {
                        self.emit(Op::JumpTrue(0))
                    };
                    self.emit(Op::Pop);
                    match self.compilar_expr(dir) {
                        Ok(v) => v,
                        Err(e) => {
                            return Err(e);
                        },
                    };
                    let fim = self.len();
                    self.patch(salto, fim);
                },
                _ => {
                    match self.compilar_expr(dir) {
                        Ok(v) => v,
                        Err(e) => {
                            return Err(e);
                        },
                    };
                    let o = match op {
                        OpBinario::Soma => Op::Add,
                        OpBinario::Subtracao => Op::Sub,
                        OpBinario::Multiplicacao => Op::Mul,
                        OpBinario::Divisao => Op::Div,
                        OpBinario::DivisaoInteira => Op::IntDiv,
                        OpBinario::Modulo => Op::Mod,
                        OpBinario::Igual => Op::Eq,
                        OpBinario::DiferenteDe => Op::Ne,
                        OpBinario::MenorQue => Op::Lt,
                        OpBinario::MaiorQue => Op::Gt,
                        OpBinario::MenorOuIgual => Op::Le,
                        OpBinario::MaiorOuIgual => Op::Ge,
                        OpBinario::Em => Op::Em,
                        OpBinario::NaoEm => Op::NaoEm,
                        OpBinario::E => Op::And,
                        OpBinario::Ou => Op::Or,
                    };
                    self.emit(o);
                },
            }
            proof {
                let z = codigo::codigo_expr(expr@, c.len() as int)->Some_0;
                assert(self.cs() =~= c + z);
            }
        }
        Ok(())
    }

    // ---- Instrucoes -----------------------------------------------------------------------

    fn compilar_bloco(&mut self, v: &Vec<Instrucao>, ini: Option<usize>, breaks: &mut Vec<usize>) -> (r: Result<
        (),
        String,
    >)
        requires
            codigo::anteriores(old(breaks)@, old(self).fim()),
        ensures
            match r {
                Ok(_) => {
                    &&& codigo::emitiu(old(self).cs(), final(self).cs(), old(breaks)@, final(breaks)@)
                    &&& forall|f: int| #[trigger] codigo::codigo_todo(ast::instrs(v@), old(self).fim(), codigo::inicio_de(ini), f) == Some(
                        codigo::trecho(final(self).cs(), final(breaks)@, old(self).fim(), f),
                    )
                },
                Err(m) => {
                    &&& m@ == codigo::erro_continue()
                    &&& forall|f: int| (#[trigger] codigo::codigo_todo(ast::instrs(v@), old(self).fim(), codigo::inicio_de(ini), f)) is None
                },
            },
        decreases v, v@.len() + 1,
    {
        reveal(codigo::trecho);
        reveal(codigo::emitiu);
        let ghost c = self.cs();
        let ghost q = breaks@;
        let ghost t = ast::instrs(v@);
        let ghost b = c.len() as int;
        let ghost i0 = codigo::inicio_de(ini);
        let mut i: usize = 0;
        proof {
            assert forall|f: int| #[trigger] codigo::codigo_bloco(t, 0, b, i0, f) == Some(
                codigo::trecho(c, q, b, f),
            ) by {
                assert(codigo::trecho(c, q, b, f) =~= Seq::<Comando>::empty());
            }
        }
        while i < v.len()
            invariant
                i <= v@.len(),
                c == old(self).cs(),
                q == old(breaks)@,
                b == c.len(),
                t == ast::instrs(v@),
                i0 == codigo::inicio_de(ini),
                codigo::emitiu(c, self.cs(), q, breaks@),
                forall|f: int| #[trigger] codigo::codigo_bloco(t, i as int, b, i0, f) == Some(
                    codigo::trecho(self.cs(), breaks@, b, f),
                ),
            decreases v@.len() - i,
        {
            reveal(codigo::trecho);
            reveal(codigo::emitiu);
            let ghost c1 = self.cs();
            let ghost q1 = breaks@;
            assert(t[i as int] == v@[i as int]@);
            match self.compilar_instrucao(&v[i], ini, breaks) {
                Ok(_) => {
                    proof {
                        let c2 = self.cs();
                        let q2 = breaks@;
                        remendos::lema_emitiu(c, c1, c2, q, q1, q2);
                        assert forall|f: int| #[trigger] codigo::codigo_bloco(t, i + 1, b, i0, f) == Some(
                            codigo::trecho(c2, q2, b, f),
                        ) by {
                            remendos::lema_trecho(c1, c2, q1, q2, b, f);
                            assert(codigo::codigo_bloco(t, i as int, b, i0, f) == Some(codigo::trecho(c1, q1, b, f)));
                            assert(codigo::codigo_instr(t[i as int], c1.len() as int, i0, f) == Some(
                                codigo::trecho(c2, q2, c1.len() as int, f),
                            ));
                        }
                    }
                },
                Err(e) => {
                    proof {
                        assert forall|f: int| (#[trigger] codigo::codigo_todo(t, b, i0, f)) is None by {
                            assert(codigo::codigo_bloco(t, i as int, b, i0, f) == Some(codigo::trecho(c1, q1, b, f)));
                            assert(codigo::trecho(c1, q1, b, f).len() == c1.len() - b);
                            assert(codigo::codigo_instr(t[i as int], c1.len() as int, i0, f) is None);
                            remendos::lema_bloco_falha(t, i as int, v@.len() as int, b, i0, f);
                        }
                    }
                    return Err(e);
                },
            }
            i += 1;
        }
        proof {
            assert forall|f: int| #[trigger] codigo::codigo_todo(t, b, i0, f) == Some(
                codigo::trecho(self.cs(), breaks@, b, f),
            ) by {
                assert(codigo::codigo_bloco(t, i as int, b, i0, f) == Some(codigo::trecho(self.cs(), breaks@, b, f)));
            }
        }
        Ok(())
    }

    fn compilar_instrucao(&mut self, instr: &Instrucao, ini: Option<usize>, breaks: &mut Vec<usize>) -> (r: Result<
        (),
        String,
    >)
        requires
            codigo::anteriores(old(breaks)@, old(self).fim()),
        ensures
            match r {
                Ok(_) => {
                    &&& codigo::emitiu(old(self).cs(), final(self).cs(), old(breaks)@, final(breaks)@)
                    &&& forall|f: int| #[trigger] codigo::codigo_instr(instr@, old(self).fim(), codigo::inicio_de(ini), f) == Some(
                        codigo::trecho(final(self).cs(), final(breaks)@, old(self).fim(), f),
                    )
                },
                Err(m) => {
                    &&& m@ == codigo::erro_continue()
                    &&& forall|f: int| (#[trigger] codigo::codigo_instr(instr@, old(self).fim(), codigo::inicio_de(ini), f)) is None
                },
            },
        decreases instr, 3int,
    {
        reveal(codigo::trecho);
        reveal(codigo::emitiu);
        let ghost c = self.cs();
        let ghost q = breaks@;
        let ghost b = c.len() as int;
        let ghost i0 = codigo::inicio_de(ini);
        let ghost a = instr@;
        proof {
            construcoes::lema_partes(a, b, i0);
        }
        match instr {
            Instrucao::Localizada { instrucao, .. } => self.compilar_instrucao(instrucao, ini, breaks),
            Instrucao::Se { .. } => self.compilar_se(instr, ini, breaks),
            Instrucao::Escolher { .. } => self.compilar_escolher(instr, ini, breaks),
            Instrucao::Tentar { .. } => self.compilar_tentar(instr, ini, breaks),
            Instrucao::Pare => {
                let p = self.emit(Op::Jump(0));
                breaks.push(p);
                proof {
                    remendos::lema_tem_push(q, p);
                    assert forall|f: int| #[trigger] codigo::codigo_instr(a, b, i0, f) == Some(
                        codigo::trecho(self.cs(), breaks@, b, f),
                    ) by {
                        assert(codigo::tem(breaks@, b));
                        assert(codigo::trecho(self.cs(), breaks@, b, f) =~= seq![Comando::Jump(f)]);
                    }
                }
                Ok(())
            },
            Instrucao::Enquanto { .. } => {
                match self.compilar_enquanto(instr) {
                    Ok(v) => v,
                    Err(e) => {
                        return Err(e);
                    },
                };
                proof {
                    construcoes::lema_inteira(a, i0, c, self.cs(), q, codigo::codigo_enquanto(a, b)->Some_0);
                }
                Ok(())
            },
            Instrucao::Para { .. } => {
                match self.compilar_para(instr) {
                    Ok(v) => v,
                    Err(e) => {
                        return Err(e);
                    },
                };
                proof {
                    construcoes::lema_inteira(a, i0, c, self.cs(), q, codigo::codigo_para(a, b)->Some_0);
                }
                Ok(())
            },
            Instrucao::ParaIntervalo { .. } => {
                match self.compilar_intervalo(instr) {
                    Ok(v) => v,
                    Err(e) => {
                        return Err(e);
                    },
                };
                proof {
                    construcoes::lema_inteira(a, i0, c, self.cs(), q, codigo::codigo_intervalo(a, b)->Some_0);
                }
                Ok(())
            },
            _ => {
                match self.compilar_simples(instr, ini) {
                    Ok(v) => v,
                    Err(e) => {
                        return Err(e);
                    },
                };
                proof {
                    construcoes::lema_inteira(a, i0, c, self.cs(), q, codigo::codigo_simples(a, b, i0)->Some_0);
                }
                Ok(())
            },
        }
    }

    /// Compila uma instrucao sem blocos.
    fn compilar_simples(&mut self, instr: &Instrucao, ini: Option<usize>) -> (r: Result<(), String>)
        requires
            !codigo::com_bloco(*instr),
        ensures
            match r {
                Ok(_) => codigo::codigo_simples(instr@, old(self).fim(), codigo::inicio_de(ini)) is Some && final(self).cs() == old(self).cs() + codigo::codigo_simples(instr@, old(self).fim(), codigo::inicio_de(ini))->Some_0,
                Err(m) => codigo::codigo_simples(instr@, old(self).fim(), codigo::inicio_de(ini)) is None && m@ == codigo::erro_continue(),
            },
        decreases instr, 2int,
    {
        match instr {
            Instrucao::Expressao(e) => {
                assert(instr@ == ArvoreInstr::Expressao(e@));
                self.compilar_com_final(e, Op::Pop)
            },
            Instrucao::Lancar(e) => {
                assert(instr@ == ArvoreInstr::Lancar(e@));
                self.compilar_com_final(e, Op::Throw)
            },
            Instrucao::Retornar(Some(e)) => {
                assert(instr@ == ArvoreInstr::Retornar(Some(e@)));
                self.compilar_com_final(e, Op::Return)
            },
            Instrucao::DeclararVar { nome, valor: Some(e) } => {
                assert(instr@ == ArvoreInstr::DeclararVar { nome: nome@, valor: Some(e@) });
                self.compilar_com_final(e, Op::Store(nome.clone()))
            },
            Instrucao::Imprimir(args) => {
                assert(instr@ == ArvoreInstr::Imprimir(ast::exprs(args@)));
                let ghost c = self.cs();
                match self.compilar_exprs(args) {
                    Ok(v) => v,
                    Err(e) => {
                        return Err(e);
                    },
                };
                let ghost x = codigo::codigo_exprs(ast::exprs(args@), args@.len() as int, c.len() as int)->Some_0;
                self.emit(Op::Print(args.len()));
                assert(self.cs() =~= c + x.push(Comando::Print(args@.len() as int)));
                Ok(())
            },
            Instrucao::Funcao { nome, parametros, corpo } => {
                assert(instr@ == ArvoreInstr::Funcao {
                    nome: nome@,
                    parametros: ast::params(parametros@),
                    corpo: ast::instrs(corpo@),
                });
                let ghost c = self.cs();
                let sub = match compilar_corpo_funcao(corpo) {
                    Ok(v) => v,
                    Err(e) => {
                        return Err(e);
                    },
                };
                let op = Op::DefFunc { nome: nome.clone(), params: nomes_de(parametros), corpo: sub };
                let ghost o = op@;
                self.emit(op);
                self.emit(Op::Store(nome.clone()));
                assert(self.cs() =~= c + seq![o, Comando::Store(nome@)]);
                Ok(())
            },
            Instrucao::DeclararVar { nome, valor: None } => {
                assert(instr@ == ArvoreInstr::DeclararVar { nome: nome@, valor: None });
                let ghost c = self.cs();
                self.emit(Op::PushNull);
                self.emit(Op::Store(nome.clone()));
                assert(self.cs() =~= c + seq![Comando::PushNull, Comando::Store(nome@)]);
                Ok(())
            },
            Instrucao::Retornar(None) => {
                assert(instr@ == ArvoreInstr::Retornar(None));
                self.emitir_um(Op::ReturnNull);
                Ok(())
            },
            Instrucao::Continue => {
                assert(instr@ == ArvoreInstr::Continue);
                match ini {
                    Some(i) => {
                        self.emitir_um(Op::Jump(i));
                        Ok(())
                    },
                    None => Err("'continue' fora de um laco".to_owned()),
                }
            },
            Instrucao::Importar { caminho, alias } => {
                let copia = match alias {
                    Some(a) => Some(a.clone()),
                    None => None,
                };
                let op = Op::Import { caminho: caminho.clone(), alias: copia };
                assert(codigo::codigo_simples(instr@, self.fim(), codigo::inicio_de(ini)) == Some(seq![op@]));
                self.emitir_um(op);
                Ok(())
            },
            Instrucao::Incluir { caminho, obrigatorio } => {
                let op = Op::Include { caminho: caminho.clone(), obrigatorio: *obrigatorio };
                assert(codigo::codigo_simples(instr@, self.fim(), codigo::inicio_de(ini)) == Some(seq![op@]));
                self.emitir_um(op);
                Ok(())
            },
            _ => Ok(()),
        }
    }

    /// Emite uma instrucao so.
    fn emitir_um(&mut self, op: Op)
        ensures
            final(self).cs() == old(self).cs() + seq![op@],
    {
        let ghost c = self.cs();
        self.emit(op);
        assert(self.cs() =~= c + seq![op@]);
    }

    /// Compila uma expressao seguida de uma instrucao.
    fn compilar_com_final(&mut self, e: &Expressao, op: Op) -> (r: Result<(), String>)
        ensures
            match r {
                Ok(_) => codigo::codigo_expr(e@, old(self).fim()) is Some && final(self).cs() == old(self).cs()
                    + codigo::codigo_expr(e@, old(self).fim())->Some_0.push(op@),
                Err(m) => codigo::codigo_expr(e@, old(self).fim()) is None && m@ == codigo::erro_continue(),
            },
        decreases e, 2int,
    {
        let ghost c = self.cs();
        match self.compilar_expr(e) {
            Ok(v) => v,
            Err(e) => {
                return Err(e);
            },
        };
        let ghost x = codigo::codigo_expr(e@, c.len() as int)->Some_0;
        let ghost o = op@;
        self.emit(op);
        assert(self.cs() =~= c + x.push(o));
        Ok(())
    }

    fn compilar_enquanto(&mut self, instr: &Instrucao) -> (r: Result<(), String>)
        requires
            instr is Enquanto,
        ensures
            match r {
                Ok(_) => codigo::codigo_enquanto(instr@, old(self).fim()) is Some && final(self).cs() == old(self).cs() + codigo::codigo_enquanto(instr@, old(self).fim())->Some_0,
                Err(m) => codigo::codigo_enquanto(instr@, old(self).fim()) is None && m@ == codigo::erro_continue(),
            },
        decreases instr, 2int,
    {
        reveal(codigo::trecho);
        reveal(codigo::emitiu);
        let ghost c = self.cs();
        if let Instrucao::Enquanto { condicao, corpo } = instr {
            assert(instr@ == ArvoreInstr::Enquanto { condicao: condicao@, corpo: ast::instrs(corpo@) });
            let inicio = self.len();
            match self.compilar_expr(condicao) {
                Ok(v) => v,
                Err(e) => {
                    return Err(e);
                },
            };
            let ghost x = codigo::codigo_expr(condicao@, c.len() as int)->Some_0;
            let jf = self.emit(Op::JumpFalse(0));
            let mut internos: Vec<usize> = Vec::new();
            let ghost b = self.cs().len() as int;
            let ghost c1 = self.cs();
            match self.compilar_bloco(corpo, Some(inicio), &mut internos) {
                Ok(_) => {},
                Err(e) => {
                    proof {
                        assert(codigo::codigo_todo(ast::instrs(corpo@), b, Some(inicio as int), 0) is None);
                    }
                    return Err(e);
                },
            }
            let ghost d = self.cs();
            self.emit(Op::Jump(inicio));
            let fim = self.len();
            self.patch(jf, fim);
            self.remendar(&internos, fim);
            proof {
                let volta = seq![Comando::Jump(inicio as int)];
                assert(d.push(Comando::Jump(inicio as int)) =~= d + volta);
                let meio = Seq::<Comando>::empty();
                assert(c1 =~= (c + x).push(Comando::JumpFalse(0)) + meio);
                construcoes::lema_laco(
                    c + x,
                    Comando::JumpFalse(0),
                    meio,
                    d,
                    internos@,
                    Comando::JumpFalse(fim as int),
                    volta,
                    fim as int,
                );
                let t = ast::instrs(corpo@);
                let y = codigo::trecho(d, internos@, b, fim as int);
                assert(codigo::codigo_todo(t, b, Some(inicio as int), 0) == Some(codigo::trecho(d, internos@, b, 0)));
                assert(codigo::codigo_todo(t, b, Some(inicio as int), fim as int) == Some(y));
                let z = x.push(Comando::JumpFalse(fim as int)) + y.push(Comando::Jump(inicio as int));
                assert(codigo::codigo_laco(x, t, c.len() as int) == Some(z));
                assert(self.cs() =~= c + z);
            }
        }
        Ok(())
    }

    /// Emite a preparacao e o teste de um `para ... em`.
    fn emitir_teste(&mut self, itens: &String, indice: &String) -> (r: usize)
        ensures
            final(self).cs() == old(self).cs() + seq![
                Comando::Store(itens@),
                Comando::PushNum("0.0"@),
                Comando::Store(indice@),
                Comando::Load(itens@),
                Comando::CallNative("tamanho"@, 1),
                Comando::Load(indice@),
                Comando::Le,
            ],
            r == old(self).fim() + 3,
    {
        let ghost c = self.cs();
        self.emit(Op::Store(itens.clone()));
        self.emit(Op::PushNum("0.0".to_owned()));
        self.emit(Op::Store(indice.clone()));
        let inicio = self.len();
        self.emit(Op::Load(itens.clone()));
        self.emit(Op::CallNative("tamanho".to_owned(), 1));
        self.emit(Op::Load(indice.clone()));
        self.emit(Op::Le);
        assert(self.cs() =~= c + seq![
            Comando::Store(itens@),
            Comando::PushNum("0.0"@),
            Comando::Store(indice@),
            Comando::Load(itens@),
            Comando::CallNative("tamanho"@, 1),
            Comando::Load(indice@),
            Comando::Le,
        ]);
        inicio
    }

    /// Emite a leitura do item de um `para ... em`.
    fn emitir_item(&mut self, itens: &String, indice: &String, variavel: &String)
        ensures
            final(self).cs() == old(self).cs() + seq![
                Comando::Load(itens@),
                Comando::Load(indice@),
                Comando::GetIndex,
                Comando::Store(variavel@),
            ],
    {
        let ghost c = self.cs();
        self.emit(Op::Load(itens.clone()));
        self.emit(Op::Load(indice.clone()));
        self.emit(Op::GetIndex);
        self.emit(Op::Store(variavel.clone()));
        assert(self.cs() =~= c + seq![
            Comando::Load(itens@),
            Comando::Load(indice@),
            Comando::GetIndex,
            Comando::Store(variavel@),
        ]);
    }

    /// Emite o avanco de um `para ... em`.
    fn emitir_avanco(&mut self, indice: &String, inicio: usize)
        ensures
            final(self).cs() == old(self).cs() + seq![
                Comando::Load(indice@),
                Comando::PushNum("1.0"@),
                Comando::Add,
                Comando::Store(indice@),
                Comando::Jump(inicio as int),
            ],
    {
        let ghost c = self.cs();
        self.emit(Op::Load(indice.clone()));
        self.emit(Op::PushNum("1.0".to_owned()));
        self.emit(Op::Add);
        self.emit(Op::Store(indice.clone()));
        self.emit(Op::Jump(inicio));
        assert(self.cs() =~= c + seq![
            Comando::Load(indice@),
            Comando::PushNum("1.0"@),
            Comando::Add,
            Comando::Store(indice@),
            Comando::Jump(inicio as int),
        ]);
    }

    fn compilar_para(&mut self, instr: &Instrucao) -> (r: Result<(), String>)
        requires
            instr is Para,
        ensures
            match r {
                Ok(_) => codigo::codigo_para(instr@, old(self).fim()) is Some && final(self).cs() == old(self).cs() + codigo::codigo_para(instr@, old(self).fim())->Some_0,
                Err(m) => codigo::codigo_para(instr@, old(self).fim()) is None && m@ == codigo::erro_continue(),
            },
        decreases instr, 2int,
    {
        let ghost c = self.cs();
        if let Instrucao::Para { variavel, iteravel, corpo } = instr {
            assert(instr@ == ArvoreInstr::Para {
                variavel: variavel@,
                iteravel: iteravel@,
                corpo: ast::instrs(corpo@),
            });
            let itens = nome_interno("__iter_", self.len());
            let indice = nome_interno("__idx_", self.len());
            match self.compilar_expr(iteravel) {
                Ok(v) => v,
                Err(e) => {
                    return Err(e);
                },
            };
            let ghost x = codigo::codigo_expr(iteravel@, c.len() as int)->Some_0;
            let inicio = self.emitir_teste(&itens, &indice);
            let ghost t = ast::instrs(corpo@);
            let ghost teste = x + seq![
                Comando::Store(itens@),
                Comando::PushNum("0.0"@),
                Comando::Store(indice@),
                Comando::Load(itens@),
                Comando::CallNative("tamanho"@, 1),
                Comando::Load(indice@),
                Comando::Le,
            ];
            let ghost item = codigo::leitura(itens@, indice@, variavel@);
            let ghost volta = codigo::avanco(indice@, inicio as int);
            assert(self.cs() =~= c + teste);
            assert(codigo::codigo_para(instr@, c.len() as int) == codigo::codigo_percurso(
                teste,
                item,
                t,
                inicio as int,
                volta,
            ));
            proof {
                construcoes::lema_percurso(c, teste, item, t, inicio as int, volta);
            }
            match self.compilar_percurso(corpo, &itens, &indice, variavel, inicio) {
                Ok(v) => v,
                Err(e) => {
                    return Err(e);
                },
            };
        }
        Ok(())
    }

    /// Compila a saida, a leitura do item, o corpo e o avanco de um `para ... em`.
    fn compilar_percurso(
        &mut self,
        corpo: &Vec<Instrucao>,
        itens: &String,
        indice: &String,
        variavel: &String,
        inicio: usize,
    ) -> (r: Result<(), String>)
        requires
            old(self).fim() == inicio + 4,
        ensures
            match r {
                Ok(_) => codigo::codigo_percurso(Seq::empty(), codigo::leitura(itens@, indice@, variavel@), ast::instrs(corpo@), inicio as int, codigo::avanco(indice@, inicio as int)) is Some && final(self).cs() == old(self).cs() + codigo::codigo_percurso(Seq::empty(), codigo::leitura(itens@, indice@, variavel@), ast::instrs(corpo@), inicio as int, codigo::avanco(indice@, inicio as int))->Some_0,
                Err(m) => codigo::codigo_percurso(Seq::empty(), codigo::leitura(itens@, indice@, variavel@), ast::instrs(corpo@), inicio as int, codigo::avanco(indice@, inicio as int)) is None && m@ == codigo::erro_continue(),
            },
        decreases corpo, corpo@.len() + 2,
    {
        let ghost pre = self.cs();
        let ghost t = ast::instrs(corpo@);
        let ghost item = codigo::leitura(itens@, indice@, variavel@);
        let ghost volta = codigo::avanco(indice@, inicio as int);
        let jf = self.emit(Op::JumpTrue(0));
        self.emitir_item(itens, indice, variavel);
        let mut internos: Vec<usize> = Vec::new();
        let ghost c1 = self.cs();
        let ghost b = c1.len() as int;
        match self.compilar_bloco(corpo, Some(inicio), &mut internos) {
            Ok(_) => {},
            Err(e) => {
                proof {
                    assert(codigo::codigo_todo(t, b, Some(inicio as int), 0) is None);
                }
                return Err(e);
            },
        }
        let ghost d = self.cs();
        proof {
            remendos::lema_emitiu_vale(c1, d, Seq::empty(), internos@);
            remendos::lema_trecho_len(d, internos@, b, 0);
            assert(d[jf as int] == c1[jf as int]);
        }
        self.emitir_avanco(indice, inicio);
        let fim = self.len();
        self.patch(jf, fim);
        self.remendar(&internos, fim);
        proof {
            let y = codigo::trecho(d, internos@, b, fim as int);
            construcoes::lema_laco(
                pre,
                Comando::JumpTrue(0),
                item,
                d,
                internos@,
                Comando::JumpTrue(fim as int),
                volta,
                fim as int,
            );
            assert(codigo::codigo_todo(t, b, Some(inicio as int), 0) == Some(codigo::trecho(d, internos@, b, 0)));
            assert(codigo::codigo_todo(t, b, Some(inicio as int), fim as int) == Some(y));
            let z = Seq::<Comando>::empty().push(Comando::JumpTrue(fim as int)) + item + y + volta;
            assert(codigo::codigo_percurso(Seq::empty(), item, t, inicio as int, volta) == Some(z));
            assert(self.cs() =~= pre + z);
        }
        Ok(())
    }

    /// Compila os limites e o passo de um `para ... de`.
    fn compilar_limites(&mut self, instr: &Instrucao) -> (r: Result<(), String>)
        requires
            instr is ParaIntervalo,
        ensures
            match r {
                Ok(_) => codigo::codigo_limites(instr@, old(self).fim()) is Some && final(self).cs() == old(self).cs() + codigo::codigo_limites(instr@, old(self).fim())->Some_0,
                Err(m) => codigo::codigo_limites(instr@, old(self).fim()) is None && m@ == codigo::erro_continue(),
            },
        decreases instr, 1int,
    {
        let ghost c = self.cs();
        if let Instrucao::ParaIntervalo { variavel, inicio, fim, passo, corpo } = instr {
            assert(instr@ == ArvoreInstr::ParaIntervalo {
                variavel: variavel@,
                inicio: inicio@,
                fim: fim@,
                passo: match passo {
                    Some(p) => Some(p@),
                    None => None,
                },
                corpo: ast::instrs(corpo@),
            });
            match self.compilar_expr(inicio) {
                Ok(v) => v,
                Err(e) => {
                    return Err(e);
                },
            };
            match self.compilar_expr(fim) {
                Ok(v) => v,
                Err(e) => {
                    return Err(e);
                },
            };
            match passo {
                Some(p) => {
                    match self.compilar_expr(p) {
                        Ok(v) => v,
                        Err(e) => {
                            return Err(e);
                        },
                    };
                },
                None => {
                    self.emit(Op::PushNum("1.0".to_owned()));
                },
            }
            proof {
                let x = codigo::codigo_limites(instr@, c.len() as int)->Some_0;
                assert(self.cs() =~= c + x);
            }
        }
        Ok(())
    }

    fn compilar_intervalo(&mut self, instr: &Instrucao) -> (r: Result<(), String>)
        requires
            instr is ParaIntervalo,
        ensures
            match r {
                Ok(_) => codigo::codigo_intervalo(instr@, old(self).fim()) is Some && final(self).cs() == old(self).cs() + codigo::codigo_intervalo(instr@, old(self).fim())->Some_0,
                Err(m) => codigo::codigo_intervalo(instr@, old(self).fim()) is None && m@ == codigo::erro_continue(),
            },
        decreases instr, 2int,
    {
        let ghost c = self.cs();
        match self.compilar_limites(instr) {
            Ok(v) => v,
            Err(e) => {
                return Err(e);
            },
        };
        if let Instrucao::ParaIntervalo { variavel, corpo, .. } = instr {
            let ghost a = instr@;
            let ghost x = codigo::codigo_limites(a, c.len() as int)->Some_0;
            let ghost t = ast::instrs(corpo@);
            let ghost q = self.cs().len() as int;
            assert(a->ParaIntervalo_variavel == variavel@ && a->ParaIntervalo_corpo == t);
            assert(codigo::codigo_intervalo(a, c.len() as int) == codigo::codigo_contagem(x, variavel@, t, q));
            proof {
                construcoes::lema_limites(c, x, variavel@, t, q);
            }
            match self.compilar_contagem(corpo, variavel) {
                Ok(v) => v,
                Err(e) => {
                    return Err(e);
                },
            };
        }
        Ok(())
    }

    /// Compila o contador, o corpo e o avanco de um `para ... de`.
    fn compilar_contagem(&mut self, corpo: &Vec<Instrucao>, variavel: &String) -> (r: Result<(), String>)
        ensures
            match r {
                Ok(_) => codigo::codigo_contagem(Seq::empty(), variavel@, ast::instrs(corpo@), old(self).fim()) is Some && final(self).cs() == old(self).cs() + codigo::codigo_contagem(Seq::empty(), variavel@, ast::instrs(corpo@), old(self).fim())->Some_0,
                Err(m) => codigo::codigo_contagem(Seq::empty(), variavel@, ast::instrs(corpo@), old(self).fim()) is None && m@ == codigo::erro_continue(),
            },
        decreases corpo, corpo@.len() + 2,
    {
        let ghost c = self.cs();
        let ghost q = c.len() as int;
        let ghost t = ast::instrs(corpo@);
        self.emit(Op::IterStart { var: variavel.clone() });
        let ghost pre = self.cs();
        let jf = self.emit(Op::JumpFalse(0));
        let pula = self.emit(Op::Jump(0));
        let desvio = self.emit(Op::Jump(0));
        let corpo_ini = self.len();
        self.patch(pula, corpo_ini);
        let mut internos: Vec<usize> = Vec::new();
        let ghost c1 = self.cs();
        let ghost b = q + 4;
        assert(c1 =~= pre + seq![Comando::JumpFalse(0), Comando::Jump(q + 4), Comando::Jump(0)]);
        match self.compilar_bloco(corpo, Some(desvio), &mut internos) {
            Ok(_) => {},
            Err(e) => {
                proof {
                    assert(codigo::codigo_todo(t, b, Some(desvio as int), 0) is None);
                }
                return Err(e);
            },
        }
        let ghost d = self.cs();
        proof {
            remendos::lema_emitiu_vale(c1, d, Seq::empty(), internos@);
            assert(d[q + 1] == c1[q + 1] && d[q + 3] == c1[q + 3]);
        }
        let avanco = self.len();
        self.emit(Op::IterNext { var: variavel.clone(), loop_ini: corpo_ini });
        self.patch(desvio, avanco);
        let saida = self.len();
        self.patch(jf, saida);
        self.remendar(&internos, saida);
        proof {
            construcoes::lema_contagem_toda(variavel@, t, c, c1, d, internos@);
        }
        Ok(())
    }

    fn compilar_se(&mut self, instr: &Instrucao, ini: Option<usize>, breaks: &mut Vec<usize>) -> (r: Result<
        (),
        String,
    >)
        requires
            instr is Se,
            codigo::anteriores(old(breaks)@, old(self).fim()),
        ensures
            match r {
                Ok(_) => {
                    &&& codigo::emitiu(old(self).cs(), final(self).cs(), old(breaks)@, final(breaks)@)
                    &&& forall|f: int| #[trigger] codigo::codigo_se(instr@, old(self).fim(), codigo::inicio_de(ini), f) == Some(
                        codigo::trecho(final(self).cs(), final(breaks)@, old(self).fim(), f),
                    )
                },
                Err(m) => {
                    &&& m@ == codigo::erro_continue()
                    &&& forall|f: int| (#[trigger] codigo::codigo_se(instr@, old(self).fim(), codigo::inicio_de(ini), f)) is None
                },
            },
        decreases instr, 2int,
    {
        let ghost c = self.cs();
        let ghost q = breaks@;
        let ghost b = c.len() as int;
        let ghost i0 = codigo::inicio_de(ini);
        let ghost a = instr@;
        if let Instrucao::Se { condicao, entao, senao } = instr {
            assert(a == ArvoreInstr::Se {
                condicao: condicao@,
                entao: ast::instrs(entao@),
                senao: codigo::bloco_opcional(*senao),
            });
            match self.compilar_expr(condicao) {
                Ok(v) => v,
                Err(e) => {
                    proof {
                        construcoes::lema_se_sem_condicao(a, b, i0);
                    }
                    return Err(e);
                },
            };
            let ghost x = codigo::codigo_expr(condicao@, b)->Some_0;
            let jf = self.emit(Op::JumpFalse(0));
            let ghost c1 = self.cs();
            assert(c1 == codigo::com_teste(c, x));
            proof {
                construcoes::lema_com_teste(c, x, q);
            }
            match self.compilar_bloco(entao, ini, breaks) {
                Ok(_) => {},
                Err(e) => {
                    proof {
                        construcoes::lema_se_falha(a, b, i0, x);
                    }
                    return Err(e);
                },
            }
            let ghost d1 = self.cs();
            let ghost q1 = breaks@;
            proof {
                remendos::lema_emitiu_vale(c1, d1, q, q1);
                remendos::lema_emitiu_fora(c1, d1, q, q1, jf as int);
            }
            match senao {
                Some(bloco) => {
                    let jmp = self.emit(Op::Jump(0));
                    let alvo = self.len();
                    self.patch(jf, alvo);
                    let ghost c2 = self.cs();
                    assert(c2 == codigo::com_desvio(d1, jf as int));
                    match self.compilar_bloco(bloco, ini, breaks) {
                        Ok(_) => {},
                        Err(e) => {
                            proof {
                                construcoes::lema_se_falha_senao(a, b, i0, x, d1, q1);
                            }
                            return Err(e);
                        },
                    }
                    let ghost d2 = self.cs();
                    let ghost q2 = breaks@;
                    proof {
                        remendos::lema_emitiu_vale(c2, d2, q1, q2);
                        assert(!codigo::tem(q1, jmp as int));
                        remendos::lema_emitiu_fora(c2, d2, q1, q2, jmp as int);
                    }
                    let fim = self.len();
                    self.patch(jmp, fim);
                    proof {
                        assert(self.cs() == d2.update(d1.len() as int, Comando::Jump(d2.len() as int)));
                        construcoes::lema_se_com_senao(a, i0, c, x, d1, d2, q, q1, q2);
                    }
                },
                None => {
                    let fim = self.len();
                    self.patch(jf, fim);
                    proof {
                        assert(self.cs() == d1.update(jf as int, Comando::JumpFalse(d1.len() as int)));
                        construcoes::lema_se_sem_senao(a, i0, c, x, d1, q, q1);
                    }
                },
            }
        }
        Ok(())
    }

    /// Compila um bloco que pode faltar.
    fn compilar_opcional(&mut self, bloco: &Option<Vec<Instrucao>>, ini: Option<usize>, breaks: &mut Vec<usize>) -> (r: Result<
        (),
        String,
    >)
        requires
            codigo::anteriores(old(breaks)@, old(self).fim()),
        ensures
            match r {
                Ok(_) => {
                    &&& codigo::emitiu(old(self).cs(), final(self).cs(), old(breaks)@, final(breaks)@)
                    &&& forall|f: int| #[trigger] codigo::codigo_opcional(codigo::bloco_opcional(*bloco), old(self).fim(), codigo::inicio_de(ini), f) == Some(
                        codigo::trecho(final(self).cs(), final(breaks)@, old(self).fim(), f),
                    )
                },
                Err(m) => {
                    &&& m@ == codigo::erro_continue()
                    &&& forall|f: int| (#[trigger] codigo::codigo_opcional(codigo::bloco_opcional(*bloco), old(self).fim(), codigo::inicio_de(ini), f)) is None
                },
            },
        decreases bloco, 0int,
    {
        reveal(codigo::trecho);
        reveal(codigo::emitiu);
        let ghost c = self.cs();
        let ghost q = breaks@;
        match bloco {
            Some(v) => {
                let r = self.compilar_bloco(v, ini, breaks);
                proof {
                    assert forall|f: int| #[trigger] codigo::codigo_opcional(
                        codigo::bloco_opcional(*bloco),
                        c.len() as int,
                        codigo::inicio_de(ini),
                        f,
                    ) == codigo::codigo_todo(ast::instrs(v@), c.len() as int, codigo::inicio_de(ini), f) by {}
                }
                r
            },
            None => {
                proof {
                    assert forall|f: int| #[trigger] codigo::codigo_opcional(
                        codigo::bloco_opcional(*bloco),
                        c.len() as int,
                        codigo::inicio_de(ini),
                        f,
                    ) == Some(codigo::trecho(c, q, c.len() as int, f)) by {
                        assert(codigo::trecho(c, q, c.len() as int, f) =~= Seq::<Comando>::empty());
                    }
                }
                Ok(())
            },
        }
    }

    /// Compila o que recebe o erro de um `tentar`.
    fn compilar_captura(
        &mut self,
        capturar: &Option<(String, Vec<Instrucao>)>,
        ini: Option<usize>,
        breaks: &mut Vec<usize>,
    ) -> (r: Result<(), String>)
        requires
            codigo::anteriores(old(breaks)@, old(self).fim()),
        ensures
            match r {
                Ok(_) => {
                    &&& codigo::emitiu(old(self).cs(), final(self).cs(), old(breaks)@, final(breaks)@)
                    &&& forall|f: int| #[trigger] codigo::codigo_captura(codigo::captura_de(*capturar), old(self).fim(), codigo::inicio_de(ini), f) == Some(
                        codigo::trecho(final(self).cs(), final(breaks)@, old(self).fim(), f),
                    )
                },
                Err(m) => {
                    &&& m@ == codigo::erro_continue()
                    &&& forall|f: int| (#[trigger] codigo::codigo_captura(codigo::captura_de(*capturar), old(self).fim(), codigo::inicio_de(ini), f)) is None
                },
            },
        decreases capturar, 0int,
    {
        let ghost c = self.cs();
        let ghost q = breaks@;
        let ghost b = c.len() as int;
        let ghost i0 = codigo::inicio_de(ini);
        let ghost a = codigo::captura_de(*capturar);
        match capturar {
            Some(par) => {
                self.emit(Op::Store(par.0.clone()));
                let ghost c1 = self.cs();
                let ghost t = ast::instrs(par.1@);
                assert(a == Some((par.0@, t)));
                proof {
                    assert(c1.subrange(0, b) =~= c);
                    remendos::lema_solto(c, c1, q);
                }
                match self.compilar_bloco(&par.1, ini, breaks) {
                    Ok(_) => {},
                    Err(e) => {
                        proof {
                            assert forall|f: int| (#[trigger] codigo::codigo_captura(a, b, i0, f)) is None by {
                                assert(codigo::codigo_todo(t, c1.len() as int, i0, f) is None);
                            }
                        }
                        return Err(e);
                    },
                }
                proof {
                    let d = self.cs();
                    let q1 = breaks@;
                    remendos::lema_emitiu(c, c1, d, q, q, q1);
                    remendos::lema_emitiu_vale(c1, d, q, q1);
                    assert forall|f: int| #[trigger] codigo::codigo_captura(a, b, i0, f) == Some(codigo::trecho(d, q1, b, f)) by {
                        let x = codigo::trecho(d, q1, c1.len() as int, f);
                        assert(codigo::codigo_todo(t, c1.len() as int, i0, f) == Some(x));
                        remendos::lema_trecho(c1, d, q, q1, b, f);
                        remendos::lema_trecho_limpo(c1, q, b, f);
                        assert(c1.subrange(b, c1.len() as int) =~= seq![Comando::Store(par.0@)]);
                    }
                }
            },
            None => {
                self.emit(Op::Pop);
                proof {
                    let d = self.cs();
                    assert(d.subrange(0, b) =~= c);
                    remendos::lema_solto(c, d, q);
                    assert forall|f: int| #[trigger] codigo::codigo_captura(a, b, i0, f) == Some(codigo::trecho(d, q, b, f)) by {
                        remendos::lema_trecho_limpo(d, q, b, f);
                        assert(d.subrange(b, d.len() as int) =~= seq![Comando::Pop]);
                    }
                }
            },
        }
        Ok(())
    }

    #[verifier::rlimit(40)]
    fn compilar_tentar(&mut self, instr: &Instrucao, ini: Option<usize>, breaks: &mut Vec<usize>) -> (r: Result<
        (),
        String,
    >)
        requires
            instr is Tentar,
            codigo::anteriores(old(breaks)@, old(self).fim()),
        ensures
            match r {
                Ok(_) => {
                    &&& codigo::emitiu(old(self).cs(), final(self).cs(), old(breaks)@, final(breaks)@)
                    &&& forall|f: int| #[trigger] codigo::codigo_tentar(instr@, old(self).fim(), codigo::inicio_de(ini), f) == Some(
                        codigo::trecho(final(self).cs(), final(breaks)@, old(self).fim(), f),
                    )
                },
                Err(m) => {
                    &&& m@ == codigo::erro_continue()
                    &&& forall|f: int| (#[trigger] codigo::codigo_tentar(instr@, old(self).fim(), codigo::inicio_de(ini), f)) is None
                },
            },
        decreases instr, 2int,
    {
        let ghost c = self.cs();
        let ghost q = breaks@;
        let ghost b = c.len() as int;
        let ghost i0 = codigo::inicio_de(ini);
        let ghost a = instr@;
        if let Instrucao::Tentar { corpo, capturar, finalmente } = instr {
            let ghost t = ast::instrs(corpo@);
            let ghost ca = codigo::captura_de(*capturar);
            let ghost fi = codigo::bloco_opcional(*finalmente);
            assert(a == ArvoreInstr::Tentar { corpo: t, capturar: ca, finalmente: fi });
            let tc = self.emit(Op::TryCatch(0));
            let ghost c1 = self.cs();
            match self.compilar_bloco(corpo, ini, breaks) {
                Ok(_) => {},
                Err(e) => {
                    proof {
                        construcoes::lema_tentar_falha_corpo(a, b, i0);
                    }
                    return Err(e);
                },
            }
            let ghost d1 = self.cs();
            let ghost q1 = breaks@;
            proof {
                remendos::lema_emitiu_vale(c1, d1, q, q1);
                assert(!codigo::tem(q, b));
                remendos::lema_emitiu_fora(c1, d1, q, q1, b);
            }
            self.emit(Op::EndTry);
            let fim = self.emit(Op::Jump(0));
            let captura = self.len();
            self.patch(tc, captura);
            let ghost c2 = self.cs();
            assert(c2 == codigo::preparado(d1, b));
            match self.compilar_captura(capturar, ini, breaks) {
                Ok(_) => {},
                Err(e) => {
                    proof {
                        construcoes::lema_tentar_falha_captura(a, b, i0, d1, q1);
                    }
                    return Err(e);
                },
            }
            let ghost d2 = self.cs();
            let ghost q2 = breaks@;
            proof {
                remendos::lema_emitiu_vale(c2, d2, q1, q2);
                assert(!codigo::tem(q1, fim as int));
                remendos::lema_emitiu_fora(c2, d2, q1, q2, fim as int);
            }
            let depois = self.len();
            self.patch(fim, depois);
            let ghost c3 = self.cs();
            assert(c3 == d2.update((d1.len() + 1) as int, Comando::Jump(d2.len() as int)));
            match self.compilar_opcional(finalmente, ini, breaks) {
                Ok(_) => {},
                Err(e) => {
                    proof {
                        construcoes::lema_tentar_falha_fim(a, b, i0, d1, q1, d2, q2);
                    }
                    return Err(e);
                },
            }
            proof {
                construcoes::lema_tentar_todo(a, i0, c, d1, d2, self.cs(), q, q1, q2, breaks@);
            }
        }
        Ok(())
    }

    /// Compila os testes dos valores de um caso. As posicoes dos saltos ficam em `vai`.
    fn compilar_testes(&mut self, valores: &Vec<Expressao>, guardado: &String, vai: &mut Vec<usize>) -> (r: Result<
        (),
        String,
    >)
        requires
            old(vai)@.len() == 0,
        ensures
            match r {
                Ok(_) => {
                    &&& codigo::cresceu(old(self).cs(), final(self).cs(), Seq::empty(), final(vai)@)
                    &&& codigo::anteriores(final(vai)@, final(self).fim())
                    &&& forall|alvo: int| #[trigger] codigo::codigo_testes(
                        ast::exprs(valores@),
                        valores@.len() as int,
                        guardado@,
                        old(self).fim(),
                        alvo,
                    ) == Some(codigo::trecho(final(self).cs(), final(vai)@, old(self).fim(), alvo))
                },
                Err(m) => {
                    &&& m@ == codigo::erro_continue()
                    &&& forall|alvo: int| (#[trigger] codigo::codigo_testes(
                        ast::exprs(valores@),
                        valores@.len() as int,
                        guardado@,
                        old(self).fim(),
                        alvo,
                    )) is None
                },
            },
        decreases valores, 0int,
    {
        let ghost c = self.cs();
        let ghost b = c.len() as int;
        let ghost t = ast::exprs(valores@);
        let ghost g = guardado@;
        proof {
            reveal(codigo::trecho);
            assert forall|alvo: int| #[trigger] codigo::codigo_testes(t, 0, g, b, alvo) == Some(
                codigo::trecho(c, vai@, b, alvo),
            ) by {
                assert(codigo::trecho(c, vai@, b, alvo) =~= Seq::<Comando>::empty());
            }
        }
        let mut i: usize = 0;
        while i < valores.len()
            invariant
                i <= valores@.len(),
                c == old(self).cs(),
                b == c.len(),
                t == ast::exprs(valores@),
                g == guardado@,
                codigo::cresceu(c, self.cs(), Seq::empty(), vai@),
                codigo::anteriores(vai@, self.cs().len() as int),
                forall|alvo: int| #[trigger] codigo::codigo_testes(t, i as int, g, b, alvo) == Some(
                    codigo::trecho(self.cs(), vai@, b, alvo),
                ),
            decreases valores@.len() - i,
        {
            let ghost c1 = self.cs();
            let ghost v1 = vai@;
            assert(t[i as int] == valores@[i as int]@);
            self.emit(Op::Load(guardado.clone()));
            match self.compilar_expr(&valores[i]) {
                Ok(_) => {},
                Err(e) => {
                    proof {
                        assert forall|alvo: int| (#[trigger] codigo::codigo_testes(
                            t,
                            valores@.len() as int,
                            g,
                            b,
                            alvo,
                        )) is None by {
                            assert(codigo::codigo_testes(t, i as int, g, b, alvo) == Some(codigo::trecho(c1, v1, b, alvo)));
                            remendos::lema_trecho_len(c1, v1, b, alvo);
                            escolhas::lema_testes_falha(t, i as int, valores@.len() as int, g, b, alvo);
                        }
                    }
                    return Err(e);
                },
            }
            let ghost y = codigo::codigo_expr(t[i as int], (c1.len() + 1) as int)->Some_0;
            self.emit(Op::Eq);
            let p = self.emit(Op::JumpTrue(0));
            vai.push(p);
            proof {
                let c2 = self.cs();
                assert(c2 =~= c1.push(Comando::Load(g)) + y + seq![Comando::Eq, Comando::JumpTrue(0)]);
                escolhas::lema_teste_cresce(c, c1, c2, v1, p);
                assert forall|alvo: int| #[trigger] codigo::codigo_testes(t, i + 1, g, b, alvo) == Some(
                    codigo::trecho(c2, vai@, b, alvo),
                ) by {
                    assert(codigo::codigo_testes(t, i as int, g, b, alvo) == Some(codigo::trecho(c1, v1, b, alvo)));
                    remendos::lema_trecho_len(c1, v1, b, alvo);
                    escolhas::lema_teste(c1, c2, v1, p, y, g, b, alvo);
                }
            }
            i += 1;
        }
        Ok(())
    }

    /// Compila um caso. O salto do fim, que leva para depois de todos, e a ultima instrucao.
    fn compilar_caso(
        &mut self,
        caso: &(Vec<Expressao>, Vec<Instrucao>),
        guardado: &String,
        ini: Option<usize>,
        breaks: &mut Vec<usize>,
    ) -> (r: Result<(), String>)
        requires
            codigo::anteriores(old(breaks)@, old(self).fim()),
        ensures
            match r {
                Ok(_) => {
                    &&& codigo::emitiu(old(self).cs(), final(self).cs(), old(breaks)@, final(breaks)@)
                    &&& forall|f: int| #[trigger] codigo::codigo_caso(codigo::caso_de(*caso), guardado@, old(self).fim(), codigo::inicio_de(ini), f, 0) == Some(
                        codigo::trecho(final(self).cs(), final(breaks)@, old(self).fim(), f),
                    )
                },
                Err(m) => {
                    &&& m@ == codigo::erro_continue()
                    &&& forall|f: int| (#[trigger] codigo::codigo_caso(codigo::caso_de(*caso), guardado@, old(self).fim(), codigo::inicio_de(ini), f, 0)) is None
                },
            },
            r is Ok ==> final(self).fim() > old(self).fim() && final(self).cs().last() == Comando::Jump(0)
                && !codigo::tem(final(breaks)@, final(self).fim() - 1),
        decreases caso, 0int,
    {
        let ghost c = self.cs();
        let ghost q = breaks@;
        let ghost b = c.len() as int;
        let ghost i0 = codigo::inicio_de(ini);
        let ghost a = codigo::caso_de(*caso);
        let ghost g = guardado@;
        let mut vai: Vec<usize> = Vec::new();
        match self.compilar_testes(&caso.0, guardado, &mut vai) {
            Ok(_) => {},
            Err(e) => {
                proof {
                    assert(codigo::codigo_testes(a.0, a.0.len() as int, g, b, 0) is None);
                }
                return Err(e);
            },
        }
        let ghost ct = self.cs();
        let proximo = self.emit(Op::Jump(0));
        let inicio = self.len();
        self.remendar(&vai, inicio);
        let ghost c1 = self.cs();
        match self.compilar_bloco(&caso.1, ini, breaks) {
            Ok(_) => {},
            Err(e) => {
                proof {
                    escolhas::lema_caso_falha(a, g, b, i0, ct, vai@);
                }
                return Err(e);
            },
        }
        let ghost d = self.cs();
        let ghost q1 = breaks@;
        proof {
            escolhas::lema_caso_pontas(c, ct, vai@, d, q, q1);
        }
        self.emit(Op::Jump(0));
        let fim = self.len();
        self.patch(proximo, fim);
        proof {
            escolhas::lema_caso_todo(a, g, i0, c, ct, vai@, d, q, q1);
        }
        Ok(())
    }

    /// Compila os casos. As posicoes dos saltos do fim de cada um ficam em `fins`.
    fn compilar_casos(
        &mut self,
        casos: &Vec<(Vec<Expressao>, Vec<Instrucao>)>,
        guardado: &String,
        ini: Option<usize>,
        breaks: &mut Vec<usize>,
        fins: &mut Vec<usize>,
    ) -> (r: Result<(), String>)
        requires
            old(fins)@.len() == 0,
            codigo::anteriores(old(breaks)@, old(self).fim()),
        ensures
            match r {
                Ok(_) => {
                    &&& codigo::emitiu(old(self).cs(), final(self).cs(), old(breaks)@, final(breaks)@)
                    &&& codigo::separados(
                        final(fins)@,
                        final(breaks)@,
                        old(self).fim(),
                        final(self).fim(),
                    )
                    &&& forall|f: int, d: int| #[trigger] codigo::codigo_casos(
                        ast::casos_de(casos@),
                        casos@.len() as int,
                        guardado@,
                        old(self).fim(),
                        codigo::inicio_de(ini),
                        f,
                        d,
                    ) == Some(
                        codigo::trecho(codigo::remendo(final(self).cs(), final(fins)@, d), final(breaks)@, old(self).fim(), f),
                    )
                },
                Err(m) => {
                    &&& m@ == codigo::erro_continue()
                    &&& forall|f: int, d: int| (#[trigger] codigo::codigo_casos(
                        ast::casos_de(casos@),
                        casos@.len() as int,
                        guardado@,
                        old(self).fim(),
                        codigo::inicio_de(ini),
                        f,
                        d,
                    )) is None
                },
            },
        decreases casos, 0int,
    {
        let ghost c = self.cs();
        let ghost q = breaks@;
        let ghost b = c.len() as int;
        let ghost i0 = codigo::inicio_de(ini);
        let ghost t = ast::casos_de(casos@);
        let ghost g = guardado@;
        proof {
            assert(c.subrange(0, b) =~= c);
            remendos::lema_solto(c, c, q);
            reveal(codigo::trecho);
            assert forall|f: int, d: int| #[trigger] codigo::codigo_casos(t, 0, g, b, i0, f, d) == Some(
                codigo::trecho(codigo::remendo(c, fins@, d), q, b, f),
            ) by {
                assert(codigo::trecho(codigo::remendo(c, fins@, d), q, b, f) =~= Seq::<Comando>::empty());
            }
        }
        let mut i: usize = 0;
        while i < casos.len()
            invariant
                i <= casos@.len(),
                c == old(self).cs(),
                q == old(breaks)@,
                b == c.len(),
                i0 == codigo::inicio_de(ini),
                t == ast::casos_de(casos@),
                g == guardado@,
                codigo::emitiu(c, self.cs(), q, breaks@),
                codigo::separados(fins@, breaks@, b, self.cs().len() as int),
                forall|f: int, d: int| #[trigger] codigo::codigo_casos(t, i as int, g, b, i0, f, d) == Some(
                    codigo::trecho(codigo::remendo(self.cs(), fins@, d), breaks@, b, f),
                ),
            decreases casos@.len() - i,
        {
            let ghost c1 = self.cs();
            let ghost q1 = breaks@;
            let ghost f1 = fins@;
            assert(t[i as int] == codigo::caso_de(casos@[i as int]));
            proof {
                remendos::lema_emitiu_vale(c, c1, q, q1);
            }
            match self.compilar_caso(&casos[i], guardado, ini, breaks) {
                Ok(_) => {},
                Err(e) => {
                    proof {
                        escolhas::lema_casos_quebra(t, i as int, g, b, i0, c1, q1, f1);
                    }
                    return Err(e);
                },
            }
            let p = self.len() - 1;
            fins.push(p);
            proof {
                remendos::lema_emitiu(c, c1, self.cs(), q, q1, breaks@);
                escolhas::lema_casos_passo(t, i as int, g, b, i0, c1, self.cs(), q1, breaks@, f1, p);
            }
            i += 1;
        }
        Ok(())
    }

    #[verifier::rlimit(40)]
    fn compilar_escolher(&mut self, instr: &Instrucao, ini: Option<usize>, breaks: &mut Vec<usize>) -> (r: Result<
        (),
        String,
    >)
        requires
            instr is Escolher,
            codigo::anteriores(old(breaks)@, old(self).fim()),
        ensures
            match r {
                Ok(_) => {
                    &&& codigo::emitiu(old(self).cs(), final(self).cs(), old(breaks)@, final(breaks)@)
                    &&& forall|f: int| #[trigger] codigo::codigo_escolher(instr@, old(self).fim(), codigo::inicio_de(ini), f) == Some(
                        codigo::trecho(final(self).cs(), final(breaks)@, old(self).fim(), f),
                    )
                },
                Err(m) => {
                    &&& m@ == codigo::erro_continue()
                    &&& forall|f: int| (#[trigger] codigo::codigo_escolher(instr@, old(self).fim(), codigo::inicio_de(ini), f)) is None
                },
            },
        decreases instr, 2int,
    {
        let ghost c = self.cs();
        let ghost q = breaks@;
        let ghost b = c.len() as int;
        let ghost i0 = codigo::inicio_de(ini);
        let ghost a = instr@;
        if let Instrucao::Escolher { expr, casos, padrao } = instr {
            let ghost t = ast::casos_de(casos@);
            let ghost pa = codigo::bloco_opcional(*padrao);
            assert(a == ArvoreInstr::Escolher { expr: expr@, casos: t, padrao: pa });
            let guardado = nome_interno("__sw_", self.len());
            let ghost g = guardado@;
            match self.compilar_expr(expr) {
                Ok(v) => v,
                Err(e) => {
                    return Err(e);
                },
            };
            let ghost x = codigo::codigo_expr(expr@, b)->Some_0;
            self.emit(Op::Store(guardado.clone()));
            let ghost c1 = self.cs();
            assert(c1 =~= c + x.push(Comando::Store(g)));
            let mut fins: Vec<usize> = Vec::new();
            match self.compilar_casos(casos, &guardado, ini, breaks, &mut fins) {
                Ok(_) => {},
                Err(e) => {
                    proof {
                        assert forall|f: int| (#[trigger] codigo::codigo_escolher(a, b, i0, f)) is None by {
                            assert(codigo::codigo_casos(t, t.len() as int, g, c1.len() as int, i0, f, 0) is None);
                        }
                    }
                    return Err(e);
                },
            }
            let ghost d1 = self.cs();
            let ghost q1 = breaks@;
            proof {
                remendos::lema_emitiu_vale(c1, d1, q, q1);
            }
            match self.compilar_opcional(padrao, ini, breaks) {
                Ok(_) => {},
                Err(e) => {
                    proof {
                        assert forall|f: int| (#[trigger] codigo::codigo_escolher(a, b, i0, f)) is None by {
                            assert(codigo::codigo_casos(t, t.len() as int, g, c1.len() as int, i0, f, 0) == Some(
                                codigo::trecho(codigo::remendo(d1, fins@, 0), q1, c1.len() as int, f),
                            ));
                            remendos::lema_trecho_len(codigo::remendo(d1, fins@, 0), q1, c1.len() as int, f);
                            assert(codigo::codigo_opcional(pa, d1.len() as int, i0, f) is None);
                        }
                    }
                    return Err(e);
                },
            }
            let ghost d2 = self.cs();
            let ghost q2 = breaks@;
            proof {
                remendos::lema_emitiu_vale(d1, d2, q1, q2);
            }
            let fim = self.len();
            self.remendar(&fins, fim);
            proof {
                assert(c1.subrange(0, b) =~= c);
                escolhas::lema_escolha(c, c1, d1, d2, q, q1, q2, fins@);
                assert forall|f: int| #[trigger] codigo::codigo_escolher(a, b, i0, f) == Some(
                    codigo::trecho(self.cs(), q2, b, f),
                ) by {
                    let y0 = codigo::trecho(codigo::remendo(d1, fins@, 0), q1, c1.len() as int, f);
                    let y = codigo::trecho(codigo::remendo(d1, fins@, fim as int), q1, c1.len() as int, f);
                    let p = codigo::trecho(d2, q2, d1.len() as int, f);
                    assert(codigo::codigo_casos(t, t.len() as int, g, c1.len() as int, i0, f, 0) == Some(y0));
                    assert(codigo::codigo_casos(t, t.len() as int, g, c1.len() as int, i0, f, fim as int) == Some(y));
                    remendos::lema_trecho_len(codigo::remendo(d1, fins@, 0), q1, c1.len() as int, f);
                    remendos::lema_trecho_len(d2, q2, d1.len() as int, f);
                    assert(codigo::codigo_opcional(pa, d1.len() as int, i0, f) == Some(p));
                    escolhas::lema_escolha_trecho(c, c1, d1, d2, q, q1, q2, fins@, f);
                    assert(c1.subrange(b, c1.len() as int) =~= x.push(Comando::Store(g)));
                }
            }
        }
        Ok(())
    }
}

} // verus!
