//! Leis da maquina de registradores: o que faz cada instrucao, e como o codigo de cada construcao se
//! dispoe.

use vstd::prelude::*;
use crate::ast;
use crate::ast::{OpBinario, OpUnario};
use crate::decimal;
use crate::operacoes::Conta;
use crate::register_vm;
use crate::register_vm::{Codigo, Registro};
use crate::vm;

verus! {

// ---- A maquina --------------------------------------------------------------------------

/// A maquina que vai na instrucao `c`, sem limite, ou com ele por atingir.
pub open spec fn em(m: register_vm::MaquinaVista, c: Codigo) -> bool {
    &&& 0 <= m.ip < m.codigo.len()
    &&& m.codigo[m.ip] == c
    &&& m.limite == 0 || m.operacoes < m.limite
}

/// A maquina depois de uma instrucao que segue: na instrucao seguinte, com mais uma operacao feita.
pub open spec fn adiante(m: register_vm::MaquinaVista) -> register_vm::MaquinaVista {
    register_vm::MaquinaVista {
        ip: m.ip + 1,
        operacoes: if m.operacoes == u64::MAX {
            m.operacoes
        } else {
            (m.operacoes + 1) as u64
        },
        ..m
    }
}

/// Uma constante e um valor movido ficam no registrador de destino, e os outros nao mudam.
pub proof fn lei_guardar(m: register_vm::MaquinaVista, d: Registro, o: Registro, v: vm::Visto)
    requires
        d < m.registradores.len(),
        o < m.registradores.len(),
    ensures
        em(m, Codigo::Constante { destino: d, valor: v }) ==> register_vm::passo(m) == (
            register_vm::MaquinaVista { registradores: m.registradores.update(d as int, v), ..adiante(m) },
            register_vm::AcaoVista::Andou,
        ),
        em(m, Codigo::Mover { destino: d, origem: o }) ==> register_vm::passo(m) == (
            register_vm::MaquinaVista {
                registradores: m.registradores.update(d as int, m.registradores[o as int]),
                ..adiante(m)
            },
            register_vm::AcaoVista::Andou,
        ),
{
    reveal_with_fuel(register_vm::falta, 3);
}

/// Um salto leva ao alvo; o condicional so salta se o registrador conta como falso.
pub proof fn lei_saltos(m: register_vm::MaquinaVista, c: Registro, alvo: int)
    requires
        c < m.registradores.len(),
    ensures
        em(m, Codigo::Pular(alvo)) ==> register_vm::passo(m) == (
            register_vm::MaquinaVista { ip: alvo, ..adiante(m) },
            register_vm::AcaoVista::Andou,
        ),
        em(m, Codigo::PularSeFalso { condicao: c, alvo }) && register_vm::verdade(m.registradores[c as int])
            ==> register_vm::passo(m) == (adiante(m), register_vm::AcaoVista::Andou),
        em(m, Codigo::PularSeFalso { condicao: c, alvo }) && !register_vm::verdade(m.registradores[c as int])
            ==> register_vm::passo(m) == (
            register_vm::MaquinaVista { ip: alvo, ..adiante(m) },
            register_vm::AcaoVista::Andou,
        ),
        em(m, Codigo::Parar) ==> register_vm::passo(m) == (adiante(m), register_vm::AcaoVista::Parou),
{
    reveal_with_fuel(register_vm::falta, 3);
}

/// Uma operacao entre dois registradores da ao destino o resultado com o primeiro a esquerda e o segundo
/// a direita.
pub proof fn lei_binaria(m: register_vm::MaquinaVista, d: Registro, a: Registro, op: OpBinario, b: Registro, v: vm::Visto)
    requires
        d < m.registradores.len(),
        a < m.registradores.len(),
        b < m.registradores.len(),
        em(m, Codigo::Binaria { destino: d, a, op, b }),
        register_vm::binaria(m.registradores[a as int], op, m.registradores[b as int]) == register_vm::Obtido::Valor(v),
    ensures
        register_vm::passo(m) == (
            register_vm::MaquinaVista { registradores: m.registradores.update(d as int, v), ..adiante(m) },
            register_vm::AcaoVista::Andou,
        ),
{
    reveal_with_fuel(register_vm::falta, 3);
}

/// As contas com numeros com ponto pedem-se com o da esquerda primeiro; a soma de inteiros faz-se na
/// maquina; um texto junta-se ao outro valor pela ordem; dividir por zero falha.
pub proof fn lei_contas(x: u64, s: Seq<char>, y: u64, t: Seq<char>, n: i64, m: i64, v: vm::Visto)
    ensures
        ({
            let a = vm::Visto::Num(x, s);
            let b = vm::Visto::Num(y, t);
            let pede = |op: Conta|
                register_vm::Obtido::Pede(register_vm::PedidoVisto::Conta { op, a: x, b: y });
            &&& register_vm::binaria(a, OpBinario::Soma, b) == pede(Conta::Soma)
            &&& register_vm::binaria(a, OpBinario::Subtracao, b) == pede(Conta::Subtracao)
            &&& register_vm::binaria(a, OpBinario::Multiplicacao, b) == pede(Conta::Multiplicacao)
            &&& register_vm::binaria(a, OpBinario::Modulo, b) == pede(Conta::Resto)
            &&& decimal::diferente_de_zero(y) ==> register_vm::binaria(a, OpBinario::Divisao, b) == pede(Conta::Divisao)
            &&& decimal::diferente_de_zero(y) ==> register_vm::binaria(a, OpBinario::DivisaoInteira, b)
                == register_vm::Obtido::Pede(register_vm::PedidoVisto::Piso { a: x, b: y })
            &&& !decimal::diferente_de_zero(y) ==> register_vm::binaria(a, OpBinario::Divisao, b) is Falha
            &&& !decimal::diferente_de_zero(y) ==> register_vm::binaria(a, OpBinario::DivisaoInteira, b) is Falha
        }),
        i64::MIN <= n + m <= i64::MAX ==> register_vm::binaria(vm::Visto::Int(n), OpBinario::Soma, vm::Visto::Int(m))
            == register_vm::Obtido::Valor(vm::Visto::Int((n + m) as i64)),
        register_vm::binaria(vm::Visto::Str(s), OpBinario::Soma, v) == register_vm::Obtido::Valor(
            vm::Visto::Str(s + vm::texto_de(v)),
        ),
        !(v is Str) ==> register_vm::binaria(v, OpBinario::Soma, vm::Visto::Str(s)) == register_vm::Obtido::Valor(
            vm::Visto::Str(vm::texto_de(v) + s),
        ),
        register_vm::unaria(OpUnario::Nao, v) == register_vm::Obtido::Valor(vm::Visto::Bool(!register_vm::verdade(v))),
        n != i64::MIN ==> register_vm::unaria(OpUnario::Negativo, vm::Visto::Int(n)) == register_vm::Obtido::Valor(
            vm::Visto::Int((0 - n) as i64),
        ),
{
}

/// Comparar numeros com ponto: `<` e `>` trocam-se com os operandos, `<=` e `>=` tambem; `!=` e o contrario
/// de `==`; `e` e verdadeiro se os dois o sao, `ou` se um deles o e.
pub proof fn lei_comparar(a: vm::Visto, b: vm::Visto)
    ensures
        register_vm::binaria(a, OpBinario::MenorQue, b) == register_vm::binaria(b, OpBinario::MaiorQue, a),
        register_vm::binaria(a, OpBinario::MenorOuIgual, b) == register_vm::binaria(b, OpBinario::MaiorOuIgual, a),
        a is Num && b is Num && decimal::menor(a->Num_0, b->Num_0) ==> register_vm::binaria(a, OpBinario::MenorQue, b)
            == register_vm::Obtido::Valor(vm::Visto::Bool(true)) && register_vm::binaria(a, OpBinario::MaiorOuIgual, b)
            == register_vm::Obtido::Valor(vm::Visto::Bool(false)),
        register_vm::binaria(a, OpBinario::Igual, b) == register_vm::Obtido::Valor(vm::Visto::Bool(vm::iguais(a, b))),
        register_vm::binaria(a, OpBinario::DiferenteDe, b) == register_vm::Obtido::Valor(
            vm::Visto::Bool(!vm::iguais(a, b)),
        ),
        register_vm::binaria(a, OpBinario::E, b) == register_vm::Obtido::Valor(
            vm::Visto::Bool(register_vm::verdade(a) && register_vm::verdade(b)),
        ),
        register_vm::binaria(a, OpBinario::Ou, b) == register_vm::Obtido::Valor(
            vm::Visto::Bool(register_vm::verdade(a) || register_vm::verdade(b)),
        ),
        !register_vm::verdade(a) <==> a is Null || a == vm::Visto::Bool(false) || a == vm::Visto::Int(0) || a == vm::Visto::Str(
            Seq::empty(),
        ) || (a is Num && (a->Num_0 == 0 || a->Num_0 == 0x8000000000000000)),
{
    if let vm::Visto::Str(s) = a {
        assert(s.len() == 0 ==> s =~= Seq::empty());
    }
}

// ---- O codigo ---------------------------------------------------------------------------

/// O codigo da primeira obra esta, inteiro e no mesmo lugar, no comeco do da segunda.
pub open spec fn estende(o: register_vm::Obra, p: register_vm::Obra) -> bool {
    &&& o.codigo.len() <= p.codigo.len()
    &&& forall|k: int| 0 <= k < o.codigo.len() ==> #[trigger] p.codigo[k] == o.codigo[k]
}

/// Compilar uma expressao so acrescenta codigo.
pub proof fn lei_expressao_acrescenta(o: register_vm::Obra, e: ast::ArvoreExpr)
    ensures
        register_vm::expressao(o, e) matches Ok((p, r)) ==> estende(o, p),
    decreases e,
{
    match e {
        ast::ArvoreExpr::Atribuicao { nome, valor } => lei_expressao_acrescenta(o, *valor),
        ast::ArvoreExpr::BinOp { esq, op, dir } => {
            lei_expressao_acrescenta(o, *esq);
            if let Ok((p, a)) = register_vm::expressao(o, *esq) {
                lei_expressao_acrescenta(p, *dir);
            }
        },
        ast::ArvoreExpr::UnOp { op, expr } => lei_expressao_acrescenta(o, *expr),
        _ => {},
    }
}

proof fn lema_expressoes(o: register_vm::Obra, es: Seq<ast::ArvoreExpr>, n: int)
    ensures
        register_vm::expressoes(o, es, n) matches Ok((p, r)) ==> estende(o, p),
    decreases n,
{
    if 0 < n <= es.len() {
        lema_expressoes(o, es, n - 1);
        if let Ok((p, r)) = register_vm::expressoes(o, es, n - 1) {
            lei_expressao_acrescenta(p, es[n - 1]);
        }
    }
}

proof fn lema_bloco(o: register_vm::Obra, v: Seq<ast::ArvoreInstr>, n: int)
    ensures
        register_vm::bloco(o, v, n) matches Ok(p) ==> estende(o, p),
    decreases v, n,
{
    if 0 < n <= v.len() {
        lema_bloco(o, v, n - 1);
        if let Ok(p) = register_vm::bloco(o, v, n - 1) {
            lei_instrucao_acrescenta(p, v[n - 1]);
        }
    }
}

proof fn lema_todo(o: register_vm::Obra, v: Seq<ast::ArvoreInstr>)
    ensures
        register_vm::todo(o, v) matches Ok(p) ==> estende(o, p),
    decreases v, v.len() + 1,
{
    lema_bloco(o, v, v.len() as int);
}

proof fn lema_decisao(o: register_vm::Obra, i: ast::ArvoreInstr)
    ensures
        register_vm::decisao(o, i) matches Ok(p) ==> estende(o, p),
    decreases i, 0int,
{
    if let ast::ArvoreInstr::Se { condicao, entao, senao } = i {
        lei_expressao_acrescenta(o, condicao);
        if let Ok((p, c)) = register_vm::expressao(o, condicao) {
            let a = register_vm::mais(p, Codigo::PularSeFalso { condicao: c, alvo: 0 });
            lema_todo(a, entao);
            if let Ok(q) = register_vm::todo(a, entao) {
                let jf = p.codigo.len() as int;
                let j = q.codigo.len() as int;
                if let Some(b) = senao {
                    lema_todo(register_vm::com_alvo(register_vm::mais(q, Codigo::Pular(0)), jf, j + 1), b);
                }
            }
        }
    }
}

proof fn lema_laco(o: register_vm::Obra, i: ast::ArvoreInstr)
    ensures
        register_vm::laco(o, i) matches Ok(p) ==> estende(o, p),
    decreases i, 0int,
{
    if let ast::ArvoreInstr::Enquanto { condicao, corpo } = i {
        lei_expressao_acrescenta(o, condicao);
        if let Ok((p, c)) = register_vm::expressao(o, condicao) {
            lema_todo(register_vm::mais(p, Codigo::PularSeFalso { condicao: c, alvo: 0 }), corpo);
        }
    }
}

proof fn lema_pronta(
    o: register_vm::Obra,
    nome: Seq<char>,
    inicio: ast::ArvoreExpr,
    fim: ast::ArvoreExpr,
    passo: Option<ast::ArvoreExpr>,
)
    ensures
        register_vm::contagem_pronta(o, nome, inicio, fim, passo) matches Ok((p, a, f, k)) ==> estende(o, p),
{
    if let Ok((p, atual)) = register_vm::variavel(o, nome) {
        lei_expressao_acrescenta(p, inicio);
        if let Ok((q, ini)) = register_vm::expressao(p, inicio) {
            lei_expressao_acrescenta(q, fim);
            if let Ok((r, f)) = register_vm::expressao(q, fim) {
                if let Some(e) = passo {
                    lei_expressao_acrescenta(r, e);
                }
            }
        }
    }
}

proof fn lema_contagem(o: register_vm::Obra, i: ast::ArvoreInstr)
    ensures
        register_vm::contagem(o, i) matches Ok(p) ==> estende(o, p),
    decreases i, 0int,
{
    if let ast::ArvoreInstr::ParaIntervalo { variavel: nome, inicio, fim, passo, corpo } = i {
        lema_pronta(o, nome, inicio, fim, passo);
        if let Ok((p, atual, f, k)) = register_vm::contagem_pronta(o, nome, inicio, fim, passo) {
            if let Ok((q, valido)) = register_vm::novo(p) {
                lema_todo(
                    register_vm::mais(
                        register_vm::mais(
                            q,
                            Codigo::IntervaloValido { destino: valido, atual, fim: f, passo: k },
                        ),
                        Codigo::PularSeFalso { condicao: valido, alvo: 0 },
                    ),
                    corpo,
                );
            }
        }
    }
}

/// Compilar uma instrucao so acrescenta codigo: o que ja estava compilado nao muda.
pub proof fn lei_instrucao_acrescenta(o: register_vm::Obra, i: ast::ArvoreInstr)
    ensures
        register_vm::instrucao(o, i) matches Ok(p) ==> estende(o, p),
    decreases i, 1int,
{
    match i {
        ast::ArvoreInstr::Localizada { instrucao: x, .. } => lei_instrucao_acrescenta(o, *x),
        ast::ArvoreInstr::DeclararVar { nome, valor } => {
            if let Ok((p, destino)) = register_vm::variavel(o, nome) {
                if let Some(e) = valor {
                    lei_expressao_acrescenta(p, e);
                }
            }
        },
        ast::ArvoreInstr::Expressao(e) => lei_expressao_acrescenta(o, e),
        ast::ArvoreInstr::Imprimir(es) => lema_expressoes(o, es, es.len() as int),
        ast::ArvoreInstr::Se { .. } => lema_decisao(o, i),
        ast::ArvoreInstr::Enquanto { .. } => lema_laco(o, i),
        ast::ArvoreInstr::ParaIntervalo { .. } => lema_contagem(o, i),
        _ => {},
    }
}

/// O codigo de `a op b`: o de `a`, o de `b`, e a operacao entre o registrador de `a` a esquerda e o de `b` a
/// direita, num registrador novo.
pub proof fn lei_codigo_binaria(o: register_vm::Obra, a: ast::ArvoreExpr, op: OpBinario, b: ast::ArvoreExpr)
    ensures
        register_vm::expressao(o, ast::ArvoreExpr::BinOp { esq: Box::new(a), op, dir: Box::new(b) }) matches Ok((r, d)) ==> {
            &&& register_vm::expressao(o, a) matches Ok((p, ra)) && register_vm::expressao(p, b) matches Ok((q, rb)) && {
                &&& estende(q, r)
                &&& r.codigo.len() == q.codigo.len() + 1
                &&& r.codigo.last() == (Codigo::Binaria { destino: d, a: ra, op, b: rb })
                &&& d == q.proximo
                &&& r.proximo == d + 1
            }
        },
{
}

/// O codigo de `se c { A } senao { B }`: o de `c`, um salto condicional para o comeco de `B`, o de `A`, um
/// salto para o fim, e o de `B`. Sem `senao`, o salto condicional vai para o fim.
pub proof fn lei_codigo_se(
    o: register_vm::Obra,
    condicao: ast::ArvoreExpr,
    entao: Seq<ast::ArvoreInstr>,
    senao: Option<Seq<ast::ArvoreInstr>>,
)
    ensures
        register_vm::instrucao(o, ast::ArvoreInstr::Se { condicao, entao, senao }) matches Ok(r) ==> {
            &&& register_vm::expressao(o, condicao) matches Ok((p, c)) && {
                let salto = p.codigo.len() as int;
                &&& register_vm::todo(
                    register_vm::Obra {
                        codigo: p.codigo.push(Codigo::PularSeFalso { condicao: c, alvo: 0 }),
                        ..p
                    },
                    entao,
                ) matches Ok(q) && {
                    let meio = q.codigo.len() as int;
                    match senao {
                        None => r.codigo.len() == meio && r.codigo[salto] == (Codigo::PularSeFalso { condicao: c, alvo: meio }),
                        Some(_) => r.codigo.len() > meio && r.codigo[salto] == (Codigo::PularSeFalso {
                            condicao: c,
                            alvo: meio + 1,
                        }) && r.codigo[meio] == Codigo::Pular(r.codigo.len() as int),
                    }
                }
            }
        },
{
    let i = ast::ArvoreInstr::Se { condicao, entao, senao };
    if let Ok(r) = register_vm::instrucao(o, i) {
        assert(register_vm::decisao(o, i) == Ok::<register_vm::Obra, Seq<char>>(r));
        let (p, c) = register_vm::expressao(o, condicao)->Ok_0;
        let a = register_vm::mais(p, Codigo::PularSeFalso { condicao: c, alvo: 0 });
        lema_todo(a, entao);
        let q = register_vm::todo(a, entao)->Ok_0;
        let jf = p.codigo.len() as int;
        let j = q.codigo.len() as int;
        assert(a.codigo[jf] == q.codigo[jf]);
        if let Some(b) = senao {
            let n = register_vm::com_alvo(register_vm::mais(q, Codigo::Pular(0)), jf, j + 1);
            lema_todo(n, b);
            let t = register_vm::todo(n, b)->Ok_0;
            assert(n.codigo[jf] == t.codigo[jf]);
            assert(n.codigo[j] == t.codigo[j]);
        }
    }
}

/// O codigo de `enquanto c { corpo }`: o de `c`, um salto condicional para o fim, o do corpo, e um salto
/// para o comeco do de `c`.
pub proof fn lei_codigo_enquanto(o: register_vm::Obra, condicao: ast::ArvoreExpr, corpo: Seq<ast::ArvoreInstr>)
    ensures
        register_vm::instrucao(o, ast::ArvoreInstr::Enquanto { condicao, corpo }) matches Ok(r) ==> {
            &&& register_vm::expressao(o, condicao) matches Ok((p, c)) && {
                let salto = p.codigo.len() as int;
                let fim = r.codigo.len() as int;
                &&& fim >= salto + 2
                &&& r.codigo[salto] == (Codigo::PularSeFalso { condicao: c, alvo: fim })
                &&& r.codigo[fim - 1] == Codigo::Pular(o.codigo.len() as int)
            }
        },
{
    let i = ast::ArvoreInstr::Enquanto { condicao, corpo };
    if let Ok(r) = register_vm::instrucao(o, i) {
        assert(register_vm::laco(o, i) == Ok::<register_vm::Obra, Seq<char>>(r));
        let (p, c) = register_vm::expressao(o, condicao)->Ok_0;
        let a = register_vm::mais(p, Codigo::PularSeFalso { condicao: c, alvo: 0 });
        lema_todo(a, corpo);
        let q = register_vm::todo(a, corpo)->Ok_0;
        assert(a.codigo[p.codigo.len() as int] == q.codigo[p.codigo.len() as int]);
    }
}

/// O codigo de `para v de a ate b passo c { corpo }` acaba por somar o passo a variavel e voltar ao teste, e
/// o teste sai para o fim.
pub proof fn lei_codigo_contagem(
    o: register_vm::Obra,
    nome: Seq<char>,
    inicio: ast::ArvoreExpr,
    fim: ast::ArvoreExpr,
    passo: Option<ast::ArvoreExpr>,
    corpo: Seq<ast::ArvoreInstr>,
)
    ensures
        register_vm::instrucao(o, ast::ArvoreInstr::ParaIntervalo { variavel: nome, inicio, fim, passo, corpo }) matches Ok(r) ==> {
            &&& register_vm::contagem_pronta(o, nome, inicio, fim, passo) matches Ok((p, atual, f, k)) && {
                let teste = p.codigo.len() as int;
                let n = r.codigo.len() as int;
                &&& n >= teste + 4
                &&& r.codigo[teste] == (Codigo::IntervaloValido { destino: p.proximo, atual, fim: f, passo: k })
                &&& r.codigo[teste + 1] == (Codigo::PularSeFalso { condicao: p.proximo, alvo: n })
                &&& r.codigo[n - 2] == (Codigo::Binaria { destino: atual, a: atual, op: OpBinario::Soma, b: k })
                &&& r.codigo[n - 1] == Codigo::Pular(teste)
            }
        },
{
    let i = ast::ArvoreInstr::ParaIntervalo { variavel: nome, inicio, fim, passo, corpo };
    if let Ok(r) = register_vm::instrucao(o, i) {
        assert(register_vm::contagem(o, i) == Ok::<register_vm::Obra, Seq<char>>(r));
        let (p, atual, f, k) = register_vm::contagem_pronta(o, nome, inicio, fim, passo)->Ok_0;
        let (q, valido) = register_vm::novo(p)->Ok_0;
        let t = p.codigo.len() as int;
        let a = register_vm::mais(
            register_vm::mais(q, Codigo::IntervaloValido { destino: valido, atual, fim: f, passo: k }),
            Codigo::PularSeFalso { condicao: valido, alvo: 0 },
        );
        lema_todo(a, corpo);
        let s = register_vm::todo(a, corpo)->Ok_0;
        assert(a.codigo[t] == s.codigo[t]);
        assert(a.codigo[t + 1] == s.codigo[t + 1]);
    }
}

} // verus!
