//! Leis da maquina de pilha: o que cada comando faz aos valores que estao por cima.

use vstd::prelude::*;
use crate::busca;
use crate::bytecode;
use crate::decimal;
use crate::maquina;
use crate::operacoes;
use crate::vm;

verus! {

/// O quadro com mais valores por cima, o ultimo no topo.
pub open spec fn sobre(q: maquina::QuadroVisto, vs: Seq<vm::Visto>) -> maquina::QuadroVisto {
    maquina::QuadroVisto { pilha: q.pilha + vs, ..q }
}

proof fn lema_sobre(q: maquina::QuadroVisto, vs: Seq<vm::Visto>, k: int)
    requires
        0 <= k <= vs.len(),
    ensures
        maquina::sem_topo(sobre(q, vs), k) == sobre(q, vs.take(vs.len() - k)),
        maquina::sem_topo(sobre(q, vs), vs.len() as int) == q,
        maquina::topo(sobre(q, vs), k) == vs.skip(vs.len() - k),
        sobre(q, vs).pilha.len() == q.pilha.len() + vs.len(),
        sobre(q, Seq::empty()) == q,
        forall|i: int| 0 <= i < vs.len() ==> sobre(q, vs).pilha[q.pilha.len() + i] == #[trigger] vs[i],
{
    assert(maquina::sem_topo(sobre(q, vs), k).pilha =~= sobre(q, vs.take(vs.len() - k)).pilha);
    assert(maquina::sem_topo(sobre(q, vs), vs.len() as int).pilha =~= q.pilha);
    assert(maquina::topo(sobre(q, vs), k) =~= vs.skip(vs.len() - k));
    assert(sobre(q, Seq::empty()).pilha =~= q.pilha);
}

proof fn lema_um(q: maquina::QuadroVisto, x: vm::Visto)
    ensures
        sobre(q, seq![x]).pilha.len() == q.pilha.len() + 1,
        sobre(q, seq![x]).pilha[q.pilha.len() as int] == x,
        maquina::sem_topo(sobre(q, seq![x]), 1) == q,
        maquina::com_topo(q, x) == sobre(q, seq![x]),
{
    lema_sobre(q, seq![x], 1);
    assert(sobre(q, seq![x]).pilha[q.pilha.len() as int + 0] == seq![x][0]);
    assert(maquina::com_topo(q, x).pilha =~= sobre(q, seq![x]).pilha);
}

proof fn lema_dois(q: maquina::QuadroVisto, x: vm::Visto, y: vm::Visto)
    ensures
        sobre(q, seq![x, y]).pilha.len() == q.pilha.len() + 2,
        sobre(q, seq![x, y]).pilha[q.pilha.len() as int] == x,
        sobre(q, seq![x, y]).pilha[q.pilha.len() as int + 1] == y,
        maquina::sem_topo(sobre(q, seq![x, y]), 2) == q,
        maquina::sem_topo(sobre(q, seq![x, y]), 1) == sobre(q, seq![x]),
        maquina::com_topo(sobre(q, seq![x]), y) == sobre(q, seq![x, y]),
{
    lema_sobre(q, seq![x, y], 1);
    assert(sobre(q, seq![x, y]).pilha[q.pilha.len() as int + 0] == seq![x, y][0]);
    assert(sobre(q, seq![x, y]).pilha[q.pilha.len() as int + 1] == seq![x, y][1]);
    assert(seq![x, y].take(1) =~= seq![x]);
    assert(maquina::com_topo(sobre(q, seq![x]), y).pilha =~= sobre(q, seq![x, y]).pilha);
}

/// O pedido de uma conta com ponto, com o primeiro e o segundo operando.
pub open spec fn pede_conta(q: maquina::QuadroVisto, op: operacoes::Conta, a: u64, b: u64) -> maquina::EfeitoVisto {
    maquina::EfeitoVisto::Pede(q, operacoes::PedidoVisto::Conta { op, a, b, inteira: false })
}

/// Com dois numeros na pilha, o de baixo e o primeiro operando e o do topo o segundo: `Sub` pede a
/// diferenca deles, `Div` o quociente e `Mod` o resto.
pub proof fn lei_contas(q: maquina::QuadroVisto, g: maquina::Nomes, x: u64, s: Seq<char>, y: u64, t: Seq<char>)
    ensures
        ({
            let p = sobre(q, seq![vm::Visto::Num(x, s), vm::Visto::Num(y, t)]);
            &&& maquina::passo(bytecode::Comando::Sub, p, g) == pede_conta(q, operacoes::Conta::Subtracao, x, y)
            &&& maquina::passo(bytecode::Comando::Div, p, g) == pede_conta(q, operacoes::Conta::Divisao, x, y)
            &&& maquina::passo(bytecode::Comando::Mod, p, g) == pede_conta(q, operacoes::Conta::Resto, x, y)
            &&& maquina::passo(bytecode::Comando::Add, p, g) == pede_conta(q, operacoes::Conta::Soma, x, y)
            &&& maquina::passo(bytecode::Comando::Mul, p, g) == pede_conta(q, operacoes::Conta::Multiplicacao, x, y)
            &&& decimal::diferente_de_zero(y) ==> maquina::passo(bytecode::Comando::IntDiv, p, g)
                == maquina::EfeitoVisto::Pede(
                q,
                operacoes::PedidoVisto::Conta { op: operacoes::Conta::Divisao, a: x, b: y, inteira: true },
            )
            &&& !decimal::diferente_de_zero(y) ==> maquina::passo(bytecode::Comando::IntDiv, p, g)
                == maquina::EfeitoVisto::Falha(q, "Divisao inteira por zero"@)
        }),
{
    reveal(maquina::passo);
    lema_dois(q, vm::Visto::Num(x, s), vm::Visto::Num(y, t));
}

/// O mesmo com dois inteiros, que a conta recebe como os numeros com ponto mais proximos deles. So a
/// soma e o produto de inteiros se fazem na maquina, e dao volta: diferem do valor certo num multiplo
/// de dois elevado a sessenta e quatro.
#[verifier::rlimit(40)]
pub proof fn lei_contas_inteiras(q: maquina::QuadroVisto, g: maquina::Nomes, x: i64, y: i64)
    ensures
        ({
            let p = sobre(q, seq![vm::Visto::Int(x), vm::Visto::Int(y)]);
            let a = decimal::bits_de(x as int) as u64;
            let b = decimal::bits_de(y as int) as u64;
            &&& maquina::passo(bytecode::Comando::Sub, p, g) == pede_conta(q, operacoes::Conta::Subtracao, a, b)
            &&& maquina::passo(bytecode::Comando::Div, p, g) == pede_conta(q, operacoes::Conta::Divisao, a, b)
            &&& maquina::passo(bytecode::Comando::Mod, p, g) == pede_conta(q, operacoes::Conta::Resto, a, b)
            &&& exists|z: i64|
                maquina::passo(bytecode::Comando::Add, p, g) == maquina::EfeitoVisto::Segue(
                    #[trigger] sobre(q, seq![vm::Visto::Int(z)]),
                ) && (z - (x + y)) % 0x10000000000000000 == 0
            &&& exists|z: i64|
                maquina::passo(bytecode::Comando::Mul, p, g) == maquina::EfeitoVisto::Segue(
                    #[trigger] sobre(q, seq![vm::Visto::Int(z)]),
                ) && (z - x * y) % 0x10000000000000000 == 0
        }),
{
    reveal(maquina::passo);
    lema_dois(q, vm::Visto::Int(x), vm::Visto::Int(y));
    let s = operacoes::soma_com_volta(x, y);
    let m = operacoes::produto_com_volta(x, y);
    lema_um(q, vm::Visto::Int(s));
    lema_um(q, vm::Visto::Int(m));
    assert((s - (x + y)) % 0x10000000000000000 == 0);
    assert((m - x * y) % 0x10000000000000000 == 0);
    assert(sobre(q, seq![vm::Visto::Int(s)]) == maquina::com_topo(q, vm::Visto::Int(s)));
    assert(sobre(q, seq![vm::Visto::Int(m)]) == maquina::com_topo(q, vm::Visto::Int(m)));
}

/// Com um inteiro e um numero com ponto, o inteiro e o primeiro operando e o outro o segundo, em
/// qualquer ordem que estejam na pilha.
pub proof fn lei_contas_mistas(q: maquina::QuadroVisto, g: maquina::Nomes, x: i64, y: u64, t: Seq<char>)
    ensures
        ({
            let a = decimal::bits_de(x as int) as u64;
            forall|p: maquina::QuadroVisto|
                p == sobre(q, seq![vm::Visto::Int(x), vm::Visto::Num(y, t)]) || p == sobre(
                    q,
                    seq![vm::Visto::Num(y, t), vm::Visto::Int(x)],
                ) ==> {
                    &&& #[trigger] maquina::passo(bytecode::Comando::Sub, p, g) == pede_conta(
                        q,
                        operacoes::Conta::Subtracao,
                        a,
                        y,
                    )
                    &&& maquina::passo(bytecode::Comando::Div, p, g) == pede_conta(
                        q,
                        operacoes::Conta::Divisao,
                        a,
                        y,
                    )
                    &&& maquina::passo(bytecode::Comando::Mod, p, g) == pede_conta(q, operacoes::Conta::Resto, a, y)
                    &&& maquina::passo(bytecode::Comando::Add, p, g) == pede_conta(q, operacoes::Conta::Soma, a, y)
                    &&& maquina::passo(bytecode::Comando::Mul, p, g) == pede_conta(
                        q,
                        operacoes::Conta::Multiplicacao,
                        a,
                        y,
                    )
                }
        }),
{
    reveal(maquina::passo);
    lema_dois(q, vm::Visto::Int(x), vm::Visto::Num(y, t));
    lema_dois(q, vm::Visto::Num(y, t), vm::Visto::Int(x));
}

/// Somar um texto e outro valor que nao e um numero, ou um valor e um texto, junta os dois pela ordem
/// em que estao na pilha.
pub proof fn lei_juncao(q: maquina::QuadroVisto, g: maquina::Nomes, x: vm::Visto, t: Seq<char>)
    ensures
        maquina::passo(bytecode::Comando::Add, sobre(q, seq![x, vm::Visto::Str(t)]), g) == maquina::EfeitoVisto::Segue(
            sobre(q, seq![vm::Visto::Str(vm::texto_de(x) + t)]),
        ),
        maquina::passo(bytecode::Comando::Add, sobre(q, seq![vm::Visto::Str(t), x]), g) == maquina::EfeitoVisto::Segue(
            sobre(q, seq![vm::Visto::Str(t + vm::texto_de(x))]),
        ),
{
    reveal(maquina::passo);
    lema_dois(q, x, vm::Visto::Str(t));
    lema_dois(q, vm::Visto::Str(t), x);
    lema_um(q, vm::Visto::Str(vm::texto_de(x) + t));
    lema_um(q, vm::Visto::Str(t + vm::texto_de(x)));
}

/// Comparar dois inteiros da a relacao entre o de baixo e o do topo.
pub proof fn lei_comparar(q: maquina::QuadroVisto, g: maquina::Nomes, x: i64, y: i64)
    ensures
        ({
            let p = sobre(q, seq![vm::Visto::Int(x), vm::Visto::Int(y)]);
            &&& maquina::passo(bytecode::Comando::Lt, p, g) == maquina::EfeitoVisto::Segue(
                sobre(q, seq![vm::Visto::Bool(x < y)]),
            )
            &&& maquina::passo(bytecode::Comando::Gt, p, g) == maquina::EfeitoVisto::Segue(
                sobre(q, seq![vm::Visto::Bool(x > y)]),
            )
            &&& maquina::passo(bytecode::Comando::Le, p, g) == maquina::EfeitoVisto::Segue(
                sobre(q, seq![vm::Visto::Bool(x <= y)]),
            )
            &&& maquina::passo(bytecode::Comando::Ge, p, g) == maquina::EfeitoVisto::Segue(
                sobre(q, seq![vm::Visto::Bool(x >= y)]),
            )
            &&& maquina::passo(bytecode::Comando::Eq, p, g) == maquina::EfeitoVisto::Segue(
                sobre(q, seq![vm::Visto::Bool(x == y)]),
            )
            &&& maquina::passo(bytecode::Comando::Ne, p, g) == maquina::EfeitoVisto::Segue(
                sobre(q, seq![vm::Visto::Bool(x != y)]),
            )
        }),
{
    reveal(maquina::passo);
    lema_dois(q, vm::Visto::Int(x), vm::Visto::Int(y));
    lema_um(q, vm::Visto::Bool(true));
    lema_um(q, vm::Visto::Bool(false));
}

/// Trocar os operandos troca `Lt` com `Gt` e `Le` com `Ge`, quaisquer que sejam os valores que se
/// comparam; `Ne` e o contrario de `Eq`.
pub proof fn lei_comparar_ao_contrario(q: maquina::QuadroVisto, g: maquina::Nomes, x: vm::Visto, y: vm::Visto, b: bool)
    ensures
        ({
            let p = sobre(q, seq![x, y]);
            let r = sobre(q, seq![y, x]);
            let sim = maquina::EfeitoVisto::Segue(sobre(q, seq![vm::Visto::Bool(b)]));
            let nao = maquina::EfeitoVisto::Segue(sobre(q, seq![vm::Visto::Bool(!b)]));
            &&& maquina::passo(bytecode::Comando::Lt, p, g) == sim <==> maquina::passo(bytecode::Comando::Gt, r, g) == sim
            &&& maquina::passo(bytecode::Comando::Le, p, g) == sim <==> maquina::passo(bytecode::Comando::Ge, r, g) == sim
            &&& maquina::passo(bytecode::Comando::Eq, p, g) == sim <==> maquina::passo(bytecode::Comando::Ne, p, g) == nao
        }),
{
    reveal(maquina::passo);
    lema_dois(q, x, y);
    lema_dois(q, y, x);
    assert forall|c: bool| maquina::com_topo(q, vm::Visto::Bool(c)) == #[trigger] sobre(q, seq![vm::Visto::Bool(c)]) by {
        lema_um(q, vm::Visto::Bool(c));
    }
    assert forall|c: bool, d: bool|
        c != d implies #[trigger] sobre(q, seq![vm::Visto::Bool(c)]) != #[trigger] sobre(
        q,
        seq![vm::Visto::Bool(d)],
    ) by {
        lema_um(q, vm::Visto::Bool(c));
        lema_um(q, vm::Visto::Bool(d));
    }
}

/// `And` e verdadeiro se os dois o sao; `Or` se um deles o e; `Not` se o do topo nao o e.
pub proof fn lei_logica(q: maquina::QuadroVisto, g: maquina::Nomes, x: bool, y: bool)
    ensures
        ({
            let p = sobre(q, seq![vm::Visto::Bool(x), vm::Visto::Bool(y)]);
            &&& maquina::passo(bytecode::Comando::And, p, g) == maquina::EfeitoVisto::Segue(
                sobre(q, seq![vm::Visto::Bool(x && y)]),
            )
            &&& maquina::passo(bytecode::Comando::Or, p, g) == maquina::EfeitoVisto::Segue(
                sobre(q, seq![vm::Visto::Bool(x || y)]),
            )
            &&& maquina::passo(bytecode::Comando::Not, p, g) == maquina::EfeitoVisto::Segue(
                sobre(q, seq![vm::Visto::Bool(x), vm::Visto::Bool(!y)]),
            )
        }),
{
    reveal(maquina::passo);
    lema_dois(q, vm::Visto::Bool(x), vm::Visto::Bool(y));
    lema_dois(q, vm::Visto::Bool(x), vm::Visto::Bool(!y));
    lema_um(q, vm::Visto::Bool(true));
    lema_um(q, vm::Visto::Bool(false));
}

/// O que conta como falso: `falso`, `nulo`, zero, o que e vazio e um erro; tudo o resto e verdadeiro.
pub proof fn lei_verdadeiro(v: vm::Visto)
    ensures
        !vm::verdadeiro(v) <==> {
            ||| v == vm::Visto::Bool(false)
            ||| v is Null
            ||| v is Erro
            ||| v == vm::Visto::Int(0)
            ||| (v is Num && (v->Num_0 == 0 || v->Num_0 == 0x8000000000000000))
            ||| v == vm::Visto::Str(Seq::empty())
            ||| v == vm::Visto::Lista(Seq::empty())
            ||| v == vm::Visto::Mapa(Seq::empty())
            ||| v == vm::Visto::Bytes(Seq::empty())
        },
{
    match v {
        vm::Visto::Str(s) => {
            assert(s.len() == 0 ==> s =~= Seq::empty());
        },
        vm::Visto::Lista(s) => {
            assert(s.len() == 0 ==> s =~= Seq::empty());
        },
        vm::Visto::Mapa(s) => {
            assert(s.len() == 0 ==> s =~= Seq::empty());
        },
        vm::Visto::Bytes(s) => {
            assert(s.len() == 0 ==> s =~= Seq::empty());
        },
        _ => {},
    }
}

/// O salto de `JumpFalse` faz-se se o valor do topo e falso, e o de `JumpTrue` se e verdadeiro; o valor
/// sai em qualquer dos casos.
pub proof fn lei_saltos(q: maquina::QuadroVisto, g: maquina::Nomes, v: vm::Visto, alvo: int)
    ensures
        ({
            let p = sobre(q, seq![v]);
            let fica = maquina::EfeitoVisto::Segue(q);
            let salta = maquina::EfeitoVisto::Segue(maquina::QuadroVisto { ip: alvo, ..q });
            &&& maquina::passo(bytecode::Comando::Jump(alvo), q, g) == salta
            &&& vm::verdadeiro(v) ==> maquina::passo(bytecode::Comando::JumpFalse(alvo), p, g) == fica
            &&& !vm::verdadeiro(v) ==> maquina::passo(bytecode::Comando::JumpFalse(alvo), p, g) == salta
            &&& vm::verdadeiro(v) ==> maquina::passo(bytecode::Comando::JumpTrue(alvo), p, g) == salta
            &&& !vm::verdadeiro(v) ==> maquina::passo(bytecode::Comando::JumpTrue(alvo), p, g) == fica
        }),
{
    reveal(maquina::passo);
    lema_um(q, v);
}

/// Os comandos que poem, tiram e repetem um valor.
pub proof fn lei_pilha(q: maquina::QuadroVisto, g: maquina::Nomes, v: vm::Visto, n: i64, s: Seq<char>, b: bool)
    ensures
        maquina::passo(bytecode::Comando::PushInt(n), q, g) == maquina::EfeitoVisto::Segue(
            sobre(q, seq![vm::Visto::Int(n)]),
        ),
        maquina::passo(bytecode::Comando::PushStr(s), q, g) == maquina::EfeitoVisto::Segue(
            sobre(q, seq![vm::Visto::Str(s)]),
        ),
        maquina::passo(bytecode::Comando::PushBool(b), q, g) == maquina::EfeitoVisto::Segue(
            sobre(q, seq![vm::Visto::Bool(b)]),
        ),
        maquina::passo(bytecode::Comando::PushNull, q, g) == maquina::EfeitoVisto::Segue(
            sobre(q, seq![vm::Visto::Null]),
        ),
        maquina::passo(bytecode::Comando::PushNum(s), q, g) == maquina::EfeitoVisto::Pede(
            q,
            operacoes::PedidoVisto::Numero(s),
        ),
        maquina::passo(bytecode::Comando::Pop, sobre(q, seq![v]), g) == maquina::EfeitoVisto::Segue(q),
        maquina::passo(bytecode::Comando::Dup, sobre(q, seq![v]), g) == maquina::EfeitoVisto::Segue(
            sobre(q, seq![v, v]),
        ),
{
    reveal(maquina::passo);
    lema_um(q, vm::Visto::Int(n));
    lema_um(q, vm::Visto::Str(s));
    lema_um(q, vm::Visto::Bool(b));
    lema_um(q, vm::Visto::Null);
    lema_um(q, v);
    lema_dois(q, v, v);
}

/// Guardar um valor num nome e le-lo da esse valor; os outros nomes ficam com o que tinham, e um nome
/// que o quadro nao tem le-se dos globais.
pub proof fn lei_nomes(q: maquina::QuadroVisto, g: maquina::Nomes, nome: Seq<char>, v: vm::Visto, outro: Seq<char>)
    requires
        vm::distintas(q.vars),
        outro != nome,
    ensures
        maquina::passo(bytecode::Comando::Store(nome), sobre(q, seq![v]), g) is Segue,
        ({
            let p = maquina::passo(bytecode::Comando::Store(nome), sobre(q, seq![v]), g)->Segue_0;
            &&& p == (maquina::QuadroVisto { vars: p.vars, ..q })
            &&& vm::distintas(p.vars)
            &&& maquina::passo(bytecode::Comando::Load(nome), p, g) == maquina::EfeitoVisto::Segue(sobre(p, seq![v]))
            &&& vm::valor_de(p.vars, outro) == vm::valor_de(q.vars, outro)
        }),
        match (vm::valor_de(q.vars, nome), vm::valor_de(g, nome)) {
            (Some(x), _) => maquina::passo(bytecode::Comando::Load(nome), q, g) == maquina::EfeitoVisto::Segue(
                sobre(q, seq![x]),
            ),
            (None, Some(x)) => maquina::passo(bytecode::Comando::Load(nome), q, g) == maquina::EfeitoVisto::Segue(
                sobre(q, seq![x]),
            ),
            (None, None) => maquina::passo(bytecode::Comando::Load(nome), q, g) is Falha,
        },
{
    reveal(maquina::passo);
    lema_um(q, v);
    vm::lei_mapa(q.vars, nome, v, outro);
    let p = maquina::passo(bytecode::Comando::Store(nome), sobre(q, seq![v]), g)->Segue_0;
    lema_um(p, v);
    if let Some(x) = vm::valor_de(q.vars, nome) {
        lema_um(q, x);
    }
    if let Some(x) = vm::valor_de(g, nome) {
        lema_um(q, x);
    }
}

/// Uma lista faz-se com os valores de cima, o mais antigo primeiro, e ler o indice `i` dela da o que
/// la se pos nesse lugar.
pub proof fn lei_lista(q: maquina::QuadroVisto, g: maquina::Nomes, vs: Seq<vm::Visto>, i: i64)
    requires
        vs.len() <= usize::MAX,
    ensures
        maquina::passo(bytecode::Comando::MakeList(vs.len() as int), sobre(q, vs), g) == maquina::EfeitoVisto::Segue(
            sobre(q, seq![vm::Visto::Lista(vs)]),
        ),
        0 <= i < vs.len() ==> maquina::passo(
            bytecode::Comando::GetIndex,
            sobre(q, seq![vm::Visto::Lista(vs), vm::Visto::Int(i)]),
            g,
        ) == maquina::EfeitoVisto::Segue(sobre(q, seq![vs[i as int]])),
        vs.len() <= i <= usize::MAX ==> maquina::passo(
            bytecode::Comando::GetIndex,
            sobre(q, seq![vm::Visto::Lista(vs), vm::Visto::Int(i)]),
            g,
        ) is Falha,
{
    reveal(maquina::passo);
    lema_sobre(q, vs, vs.len() as int);
    assert(vs.skip(0) =~= vs);
    lema_um(q, vm::Visto::Lista(vs));
    lema_dois(q, vm::Visto::Lista(vs), vm::Visto::Int(i));
    if 0 <= i < vs.len() {
        lema_um(q, vs[i as int]);
    }
}

/// Trocar o item `i` de uma lista deixa os outros como estavam.
pub proof fn lei_trocar(q: maquina::QuadroVisto, g: maquina::Nomes, vs: Seq<vm::Visto>, i: i64, x: vm::Visto)
    requires
        0 <= i < vs.len() <= usize::MAX,
    ensures
        exists|us: Seq<vm::Visto>|
            maquina::passo(
                bytecode::Comando::SetIndex,
                sobre(q, seq![vm::Visto::Lista(vs), vm::Visto::Int(i), x]),
                g,
            ) == maquina::EfeitoVisto::Segue(#[trigger] sobre(q, seq![vm::Visto::Lista(us)])) && us.len() == vs.len()
                && us[i as int] == x && forall|j: int| 0 <= j < vs.len() && j != i ==> us[j] == vs[j],
{
    reveal(maquina::passo);
    let p = sobre(q, seq![vm::Visto::Lista(vs), vm::Visto::Int(i), x]);
    lema_sobre(q, seq![vm::Visto::Lista(vs), vm::Visto::Int(i), x], 3);
    assert(p.pilha[q.pilha.len() as int + 0] == vm::Visto::Lista(vs));
    assert(p.pilha[q.pilha.len() as int + 1] == vm::Visto::Int(i));
    assert(p.pilha[q.pilha.len() as int + 2] == x);
    let us = vs.update(i as int, x);
    lema_um(q, vm::Visto::Lista(us));
    assert(sobre(q, seq![vm::Visto::Lista(us)]) == maquina::com_topo(q, vm::Visto::Lista(us)));
}

/// Ler uma chave de um mapa da o valor que ela tem, ou `nulo`; depois de trocado, da o valor novo, e as
/// outras chaves dao o que davam.
pub proof fn lei_chave(
    q: maquina::QuadroVisto,
    g: maquina::Nomes,
    m: maquina::Nomes,
    k: Seq<char>,
    x: vm::Visto,
    outra: Seq<char>,
)
    requires
        vm::distintas(m),
        outra != k,
    ensures
        ({
            let p = sobre(q, seq![vm::Visto::Mapa(m), vm::Visto::Str(k)]);
            match vm::valor_de(m, k) {
                Some(v) => maquina::passo(bytecode::Comando::GetIndex, p, g) == maquina::EfeitoVisto::Segue(
                    sobre(q, seq![v]),
                ),
                None => maquina::passo(bytecode::Comando::GetIndex, p, g) == maquina::EfeitoVisto::Segue(
                    sobre(q, seq![vm::Visto::Null]),
                ),
            }
        }),
        exists|n: maquina::Nomes|
            maquina::passo(
                bytecode::Comando::SetIndex,
                sobre(q, seq![vm::Visto::Mapa(m), vm::Visto::Str(k), x]),
                g,
            ) == maquina::EfeitoVisto::Segue(#[trigger] sobre(q, seq![vm::Visto::Mapa(n)])) && vm::valor_de(n, k)
                == Some(x) && vm::valor_de(n, outra) == vm::valor_de(m, outra),
{
    reveal(maquina::passo);
    lema_dois(q, vm::Visto::Mapa(m), vm::Visto::Str(k));
    lema_um(q, vm::Visto::Null);
    if let Some(v) = vm::valor_de(m, k) {
        lema_um(q, v);
    }
    let p = sobre(q, seq![vm::Visto::Mapa(m), vm::Visto::Str(k), x]);
    lema_sobre(q, seq![vm::Visto::Mapa(m), vm::Visto::Str(k), x], 3);
    assert(p.pilha[q.pilha.len() as int + 0] == vm::Visto::Mapa(m));
    assert(p.pilha[q.pilha.len() as int + 1] == vm::Visto::Str(k));
    assert(p.pilha[q.pilha.len() as int + 2] == x);
    vm::lei_mapa(m, k, x, outra);
    let n = vm::com_valor(m, k, x);
    lema_um(q, vm::Visto::Mapa(n));
    assert(sobre(q, seq![vm::Visto::Mapa(n)]) == maquina::com_topo(q, vm::Visto::Mapa(n)));
}

/// Numa lista, `Em` diz se um item dela, que esta no topo, e igual ao valor de baixo; `NaoEm` diz o
/// contrario.
pub proof fn lei_em_lista(q: maquina::QuadroVisto, g: maquina::Nomes, v: vm::Visto, l: Seq<vm::Visto>)
    ensures
        ({
            let b = exists|i: int| 0 <= i < l.len() && vm::iguais(#[trigger] l[i], v);
            let p = sobre(q, seq![v, vm::Visto::Lista(l)]);
            &&& maquina::passo(bytecode::Comando::Em, p, g) == maquina::EfeitoVisto::Segue(
                sobre(q, seq![vm::Visto::Bool(b)]),
            )
            &&& maquina::passo(bytecode::Comando::NaoEm, p, g) == maquina::EfeitoVisto::Segue(
                sobre(q, seq![vm::Visto::Bool(!b)]),
            )
        }),
{
    reveal(maquina::passo);
    lema_dois(q, v, vm::Visto::Lista(l));
    lema_um(q, vm::Visto::Bool(true));
    lema_um(q, vm::Visto::Bool(false));
}

/// Num texto, `Em` diz se o de baixo esta em algum lugar do que esta no topo.
pub proof fn lei_em_texto(q: maquina::QuadroVisto, g: maquina::Nomes, t: Seq<char>, s: Seq<char>)
    ensures
        ({
            let b = exists|i: int| 0 <= i <= s.len() - t.len() && #[trigger] s.subrange(i, i + t.len()) == t;
            let p = sobre(q, seq![vm::Visto::Str(t), vm::Visto::Str(s)]);
            &&& maquina::passo(bytecode::Comando::Em, p, g) == maquina::EfeitoVisto::Segue(
                sobre(q, seq![vm::Visto::Bool(b)]),
            )
            &&& maquina::passo(bytecode::Comando::NaoEm, p, g) == maquina::EfeitoVisto::Segue(
                sobre(q, seq![vm::Visto::Bool(!b)]),
            )
        }),
{
    let b = exists|i: int| 0 <= i <= s.len() - t.len() && #[trigger] s.subrange(i, i + t.len()) == t;
    assert(busca::contem(s, t) == b) by {
        busca::lema_primeira(s, t, 0);
        if b {
            let i = choose|i: int| 0 <= i <= s.len() - t.len() && #[trigger] s.subrange(i, i + t.len()) == t;
            assert(busca::ocorre(s, t, i));
        }
        if let Some(i) = busca::primeira(s, t, 0) {
            assert(busca::ocorre(s, t, i));
            assert(s.subrange(i, i + t.len()) == t);
        }
    }
    reveal(maquina::passo);
    lema_dois(q, vm::Visto::Str(t), vm::Visto::Str(s));
    lema_um(q, vm::Visto::Bool(true));
    lema_um(q, vm::Visto::Bool(false));
}

/// Num mapa, `Em` diz se o texto de baixo e uma das chaves do que esta no topo.
pub proof fn lei_em_mapa(q: maquina::QuadroVisto, g: maquina::Nomes, t: Seq<char>, m: maquina::Nomes)
    ensures
        ({
            let b = exists|i: int| 0 <= i < m.len() && (#[trigger] m[i]).0 == t;
            let p = sobre(q, seq![vm::Visto::Str(t), vm::Visto::Mapa(m)]);
            &&& maquina::passo(bytecode::Comando::Em, p, g) == maquina::EfeitoVisto::Segue(
                sobre(q, seq![vm::Visto::Bool(b)]),
            )
            &&& maquina::passo(bytecode::Comando::NaoEm, p, g) == maquina::EfeitoVisto::Segue(
                sobre(q, seq![vm::Visto::Bool(!b)]),
            )
        }),
{
    let b = exists|i: int| 0 <= i < m.len() && (#[trigger] m[i]).0 == t;
    assert((vm::lugar(m, t, 0) is Some) == b) by {
        vm::lema_lugar(m, t, 0);
    }
    reveal(maquina::passo);
    lema_dois(q, vm::Visto::Str(t), vm::Visto::Mapa(m));
    lema_um(q, vm::Visto::Bool(true));
    lema_um(q, vm::Visto::Bool(false));
}

/// O simetrico de um inteiro somado a ele da zero.
pub proof fn lei_negar(q: maquina::QuadroVisto, g: maquina::Nomes, n: i64, b: u64, t: Seq<char>)
    requires
        n != i64::MIN,
    ensures
        exists|m: i64|
            maquina::passo(bytecode::Comando::Neg, sobre(q, seq![vm::Visto::Int(n)]), g) == maquina::EfeitoVisto::Segue(
                #[trigger] sobre(q, seq![vm::Visto::Int(m)]),
            ) && n + m == 0,
        maquina::passo(bytecode::Comando::Neg, sobre(q, seq![vm::Visto::Num(b, t)]), g) == maquina::EfeitoVisto::Pede(
            q,
            operacoes::PedidoVisto::Negar(b),
        ),
{
    reveal(maquina::passo);
    let m = (-n) as i64;
    lema_um(q, vm::Visto::Int(n));
    lema_um(q, vm::Visto::Num(b, t));
    lema_um(q, vm::Visto::Int(m));
    assert(sobre(q, seq![vm::Visto::Int(m)]) == maquina::com_topo(q, vm::Visto::Int(m)));
}

/// O que escreve `Print`: os textos dos valores pela ordem, um espaco entre eles e uma quebra de linha
/// no fim. `Write` escreve-os seguidos.
pub proof fn lei_escrever(q: maquina::QuadroVisto, g: maquina::Nomes, x: vm::Visto, y: vm::Visto)
    ensures
        maquina::passo(bytecode::Comando::Print(1), sobre(q, seq![x]), g) == maquina::EfeitoVisto::Pede(
            q,
            operacoes::PedidoVisto::Escrever(vm::texto_de(x) + seq!['\n']),
        ),
        maquina::passo(bytecode::Comando::Print(2), sobre(q, seq![x, y]), g) == maquina::EfeitoVisto::Pede(
            q,
            operacoes::PedidoVisto::Escrever(vm::texto_de(x) + seq![' '] + vm::texto_de(y) + seq!['\n']),
        ),
        maquina::passo(bytecode::Comando::Write(2), sobre(q, seq![x, y]), g) == maquina::EfeitoVisto::Pede(
            q,
            operacoes::PedidoVisto::Escrever(vm::texto_de(x) + vm::texto_de(y)),
        ),
{
    reveal(maquina::passo);
    reveal_strlit(" ");
    reveal_strlit("\n");
    reveal_strlit("");
    lema_sobre(q, seq![x], 1);
    lema_sobre(q, seq![x, y], 2);
    assert(seq![x].skip(0) =~= seq![x]);
    assert(seq![x, y].skip(0) =~= seq![x, y]);
    let um = maquina::textos_de(seq![x]);
    let dois = maquina::textos_de(seq![x, y]);
    assert(dois.drop_last() =~= um);
    assert(busca::juntos(um, " "@) == vm::texto_de(x));
    assert(busca::juntos(um, ""@) == vm::texto_de(x));
    assert(busca::juntos(dois, " "@) == vm::texto_de(x) + " "@ + vm::texto_de(y));
    assert(busca::juntos(dois, ""@) =~= vm::texto_de(x) + vm::texto_de(y));
    assert(" "@ =~= seq![' ']);
    assert("\n"@ =~= seq!['\n']);
}

/// Chamar uma funcao com tantos argumentos quantos os parametros comeca o corpo dela com cada
/// parametro ligado ao argumento do mesmo lugar; com outra quantidade, falha. `Return` devolve o
/// valor do topo.
pub proof fn lei_chamada(
    q: maquina::QuadroVisto,
    g: maquina::Nomes,
    ps: Seq<Seq<char>>,
    corpo: Seq<bytecode::Comando>,
    args: Seq<vm::Visto>,
    v: vm::Visto,
)
    requires
        vm::distintas(q.vars),
        forall|i: int, j: int| 0 <= i < j < ps.len() ==> ps[i] != ps[j],
    ensures
        ({
            let e = maquina::passo(
                bytecode::Comando::Call(args.len() as int),
                sobre(q, seq![vm::Visto::Funcao { params: ps, corpo }] + args),
                g,
            );
            if ps.len() == args.len() {
                &&& e is Chama
                &&& e->Chama_0 == q
                &&& e->Chama_1 == corpo
                &&& forall|i: int| 0 <= i < ps.len() ==> vm::valor_de(e->Chama_2, #[trigger] ps[i]) == Some(args[i])
                &&& forall|k: Seq<char>|
                    !ps.contains(k) ==> #[trigger] vm::valor_de(e->Chama_2, k) == vm::valor_de(q.vars, k)
            } else {
                e is Falha
            }
        }),
        maquina::passo(bytecode::Comando::Return, sobre(q, seq![v]), g) == maquina::EfeitoVisto::Acaba(q, Some(v)),
        maquina::passo(bytecode::Comando::ReturnNull, q, g) == maquina::EfeitoVisto::Acaba(q, Some(vm::Visto::Null)),
{
    reveal(maquina::passo);
    lema_um(q, v);
    let k = args.len() as int;
    let f = vm::Visto::Funcao { params: ps, corpo };
    let vs = seq![f] + args;
    lema_sobre(q, vs, k + 1);
    lema_sobre(q, vs, k);
    assert(sobre(q, vs).pilha[q.pilha.len() as int + 0] == vs[0]);
    assert(vs.skip(vs.len() - k) =~= args);
    if ps.len() == args.len() {
        lema_ligados(q.vars, ps, args, k);
    }
}

proof fn lema_ligados(m: maquina::Nomes, ks: Seq<Seq<char>>, vs: Seq<vm::Visto>, n: int)
    requires
        vm::distintas(m),
        ks.len() == vs.len(),
        0 <= n <= ks.len(),
        forall|i: int, j: int| 0 <= i < j < ks.len() ==> ks[i] != ks[j],
    ensures
        vm::distintas(maquina::ligados(m, ks, vs, n)),
        forall|i: int| 0 <= i < n ==> vm::valor_de(maquina::ligados(m, ks, vs, n), #[trigger] ks[i]) == Some(vs[i]),
        forall|k: Seq<char>|
            !ks.contains(k) ==> #[trigger] vm::valor_de(maquina::ligados(m, ks, vs, n), k) == vm::valor_de(m, k),
    decreases n,
{
    if n > 0 {
        lema_ligados(m, ks, vs, n - 1);
        let a = maquina::ligados(m, ks, vs, n - 1);
        vm::lei_mapa(a, ks[n - 1], vs[n - 1], ks[n - 1]);
        assert forall|i: int| 0 <= i < n implies vm::valor_de(
            maquina::ligados(m, ks, vs, n),
            #[trigger] ks[i],
        ) == Some(vs[i]) by {
            vm::lei_mapa(a, ks[n - 1], vs[n - 1], ks[i]);
        }
        assert forall|k: Seq<char>| !ks.contains(k) implies #[trigger] vm::valor_de(
            maquina::ligados(m, ks, vs, n),
            k,
        ) == vm::valor_de(m, k) by {
            assert(ks.contains(ks[n - 1]));
            vm::lei_mapa(a, ks[n - 1], vs[n - 1], k);
        }
    }
}

/// Lancar um valor dentro de um bloco protegido leva ao lugar que o protege mais de perto, que deixa
/// de o proteger; fora de todos, falha com o texto do valor.
pub proof fn lei_lancar(q: maquina::QuadroVisto, g: maquina::Nomes, v: vm::Visto, alvo: usize)
    ensures
        ({
            let e = maquina::passo(bytecode::Comando::TryCatch(alvo as int), q, g);
            &&& e is Segue
            &&& maquina::passo(bytecode::Comando::Throw, sobre(e->Segue_0, seq![v]), g) == maquina::EfeitoVisto::Segue(
                maquina::QuadroVisto { ip: alvo as int, ..sobre(q, seq![v]) },
            )
            &&& maquina::passo(bytecode::Comando::EndTry, e->Segue_0, g) == maquina::EfeitoVisto::Segue(q)
        }),
        q.capturas.len() == 0 ==> maquina::passo(bytecode::Comando::Throw, sobre(q, seq![v]), g)
            == maquina::EfeitoVisto::Falha(sobre(q, seq![v]), vm::texto_de(v)),
{
    reveal(maquina::passo);
    lema_um(q, v);
    let e = maquina::passo(bytecode::Comando::TryCatch(alvo as int), q, g);
    let p = e->Segue_0;
    lema_um(p, v);
    assert(p.capturas.drop_last() =~= q.capturas);
    assert(alvo as int as usize == alvo);
}

} // verus!
