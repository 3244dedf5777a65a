//! Leis do codigo compilado: o que a maquina faz quando corre o codigo de cada construcao, dito do que
//! faz o codigo das partes dela.

use vstd::prelude::*;
use crate::ast::{ArvoreExpr, ArvoreInstr, OpBinario, OpUnario};
use crate::bytecode::Comando;
use crate::codigo;
use crate::maquina;
use crate::operacoes;
use crate::saltos;
use crate::vm;

verus! {

// ---- Correr -----------------------------------------------------------------------------

/// O que ha fora do quadro: os nomes globais e as respostas ao que a maquina pede.
pub ghost struct Fora {
    pub globais: maquina::Nomes,
    pub respostas: spec_fn(operacoes::PedidoVisto) -> maquina::RespostaVista,
}

/// O quadro depois do comando em que ele vai, se ele segue; um pedido segue com a resposta de fora.
pub open spec fn um(q: maquina::QuadroVisto, x: Fora) -> Option<maquina::QuadroVisto> {
    if 0 <= q.ip < q.codigo.len() {
        match maquina::passo(q.codigo[q.ip], maquina::QuadroVisto { ip: q.ip + 1, ..q }, x.globais) {
            maquina::EfeitoVisto::Segue(r) => Some(r),
            maquina::EfeitoVisto::Pede(r, p) => match maquina::retoma(r, p, (x.respostas)(p)) {
                maquina::EfeitoVisto::Segue(t) => Some(t),
                _ => None,
            },
            _ => None,
        }
    } else {
        None
    }
}

/// O quadro depois de `n` comandos.
pub open spec fn varios(q: maquina::QuadroVisto, x: Fora, n: nat) -> Option<maquina::QuadroVisto>
    decreases n,
{
    if n == 0 {
        Some(q)
    } else {
        match um(q, x) {
            Some(r) => varios(r, x, (n - 1) as nat),
            None => None,
        }
    }
}

/// Do primeiro quadro a maquina chega ao segundo.
pub open spec fn chega(a: maquina::QuadroVisto, b: maquina::QuadroVisto, x: Fora) -> bool {
    exists|n: nat| #[trigger] varios(a, x, n) == Some(b)
}

/// O quadro com outro codigo, noutro comando dele e com outra pilha.
pub open spec fn em(q: maquina::QuadroVisto, cod: Seq<Comando>, ip: int, ps: Seq<vm::Visto>) -> maquina::QuadroVisto {
    maquina::QuadroVisto { codigo: cod, ip, pilha: ps, ..q }
}

/// O trecho `c` esta no codigo, no endereco `b`.
pub open spec fn esta(cod: Seq<Comando>, b: int, c: Seq<Comando>) -> bool {
    &&& 0 <= b
    &&& b + c.len() <= cod.len()
    &&& forall|i: int| 0 <= i < c.len() ==> cod[b + i] == #[trigger] c[i]
}

pub(crate) proof fn lema_zero(a: maquina::QuadroVisto, x: Fora)
    ensures
        chega(a, a, x),
{
    assert(varios(a, x, 0) == Some(a));
}

proof fn lema_varios(a: maquina::QuadroVisto, x: Fora, n: nat, m: nat)
    requires
        varios(a, x, n) is Some,
    ensures
        varios(a, x, n + m) == varios(varios(a, x, n)->Some_0, x, m),
    decreases n,
{
    if n > 0 {
        lema_varios(um(a, x)->Some_0, x, (n - 1) as nat, m);
    }
}

pub(crate) proof fn lema_junta(a: maquina::QuadroVisto, b: maquina::QuadroVisto, c: maquina::QuadroVisto, x: Fora)
    requires
        chega(a, b, x),
        chega(b, c, x),
    ensures
        chega(a, c, x),
{
    let n = choose|n: nat| #[trigger] varios(a, x, n) == Some(b);
    let m = choose|m: nat| #[trigger] varios(b, x, m) == Some(c);
    lema_varios(a, x, n, m);
    assert(varios(a, x, n + m) == Some(c));
}

pub(crate) proof fn lema_um(a: maquina::QuadroVisto, b: maquina::QuadroVisto, x: Fora)
    requires
        um(a, x) == Some(b),
    ensures
        chega(a, b, x),
{
    assert(varios(b, x, 0) == Some(b));
    assert(varios(a, x, 1) == Some(b));
}

pub(crate) proof fn lema_segue(a: maquina::QuadroVisto, b: maquina::QuadroVisto, c: maquina::QuadroVisto, x: Fora)
    requires
        um(a, x) == Some(b),
        chega(b, c, x),
    ensures
        chega(a, c, x),
{
    lema_um(a, b, x);
    lema_junta(a, b, c, x);
}

pub(crate) proof fn lema_esta(cod: Seq<Comando>, b: int, c: Seq<Comando>, d: Seq<Comando>)
    requires
        esta(cod, b, c + d),
    ensures
        esta(cod, b, c),
        esta(cod, b + c.len(), d),
{
    assert forall|i: int| 0 <= i < c.len() implies cod[b + i] == #[trigger] c[i] by {
        assert((c + d)[i] == c[i]);
    }
    assert forall|i: int| 0 <= i < d.len() implies cod[b + c.len() + i] == #[trigger] d[i] by {
        assert((c + d)[c.len() + i] == d[i]);
    }
}

pub(crate) proof fn lema_esta_push(cod: Seq<Comando>, b: int, c: Seq<Comando>, d: Comando)
    requires
        esta(cod, b, c.push(d)),
    ensures
        esta(cod, b, c),
        cod[b + c.len()] == d,
        b + c.len() < cod.len(),
{
    assert(c.push(d) =~= c + seq![d]);
    lema_esta(cod, b, c, seq![d]);
    assert(cod[b + c.len() + 0] == seq![d][0]);
}

/// A maquina que corre o quadro de cima faz dele o que o comando em que ele vai manda.
pub proof fn lei_maquina(m: maquina::MaquinaVista, r: maquina::QuadroVisto)
    requires
        m.quadros.len() > 0,
        ({
            let q = m.quadros.last().0;
            &&& 0 <= q.ip < q.codigo.len()
            &&& maquina::passo(q.codigo[q.ip], maquina::QuadroVisto { ip: q.ip + 1, ..q }, m.globais)
                == maquina::EfeitoVisto::Segue(r)
        }),
        m.limite == 0 || m.operacoes < m.limite,
    ensures
        maquina::anda(m).1 is Continua,
        maquina::anda(m).0.quadros.len() == m.quadros.len(),
        maquina::anda(m).0.quadros.drop_last() == m.quadros.drop_last(),
        maquina::anda(m).0.quadros.last().0.ip == r.ip,
        maquina::anda(m).0.quadros.last().0.vars == r.vars,
        maquina::anda(m).0.quadros.last().0.codigo == r.codigo,
        maquina::anda(m).0.quadros.last().0.pilha.len() == r.pilha.len(),
        maquina::anda(m).0.globais == m.globais,
{
    reveal(maquina::anda);
    let n = maquina::anda(m).0;
    assert(n.quadros.drop_last() =~= m.quadros.drop_last());
}

// ---- Os comandos, um a um ---------------------------------------------------------------

proof fn lema_dup(q: maquina::QuadroVisto, cod: Seq<Comando>, ip: int, ps: Seq<vm::Visto>, v: vm::Visto, x: Fora)
    requires
        0 <= ip < cod.len(),
        cod[ip] == Comando::Dup,
    ensures
        um(em(q, cod, ip, ps.push(v)), x) == Some(em(q, cod, ip + 1, ps.push(v).push(v))),
{
    reveal(maquina::passo);
}

pub(crate) proof fn lema_pop(q: maquina::QuadroVisto, cod: Seq<Comando>, ip: int, ps: Seq<vm::Visto>, v: vm::Visto, x: Fora)
    requires
        0 <= ip < cod.len(),
        cod[ip] == Comando::Pop,
    ensures
        um(em(q, cod, ip, ps.push(v)), x) == Some(em(q, cod, ip + 1, ps)),
{
    reveal(maquina::passo);
    assert(ps.push(v).take(ps.len() as int) =~= ps);
}

proof fn lema_nulo(q: maquina::QuadroVisto, cod: Seq<Comando>, ip: int, ps: Seq<vm::Visto>, x: Fora)
    requires
        0 <= ip < cod.len(),
        cod[ip] == Comando::PushNull,
    ensures
        um(em(q, cod, ip, ps), x) == Some(em(q, cod, ip + 1, ps.push(vm::Visto::Null))),
{
    reveal(maquina::passo);
}

pub(crate) proof fn lema_jump(q: maquina::QuadroVisto, cod: Seq<Comando>, ip: int, ps: Seq<vm::Visto>, alvo: int, x: Fora)
    requires
        0 <= ip < cod.len(),
        cod[ip] == Comando::Jump(alvo),
    ensures
        um(em(q, cod, ip, ps), x) == Some(em(q, cod, alvo, ps)),
{
    reveal(maquina::passo);
}

pub(crate) proof fn lema_jump_false(
    q: maquina::QuadroVisto,
    cod: Seq<Comando>,
    ip: int,
    ps: Seq<vm::Visto>,
    v: vm::Visto,
    alvo: int,
    x: Fora,
)
    requires
        0 <= ip < cod.len(),
        cod[ip] == Comando::JumpFalse(alvo),
    ensures
        um(em(q, cod, ip, ps.push(v)), x) == Some(
            em(
                q,
                cod,
                if vm::verdadeiro(v) {
                    ip + 1
                } else {
                    alvo
                },
                ps,
            ),
        ),
{
    reveal(maquina::passo);
    assert(ps.push(v).take(ps.len() as int) =~= ps);
}

pub(crate) proof fn lema_jump_true(
    q: maquina::QuadroVisto,
    cod: Seq<Comando>,
    ip: int,
    ps: Seq<vm::Visto>,
    v: vm::Visto,
    alvo: int,
    x: Fora,
)
    requires
        0 <= ip < cod.len(),
        cod[ip] == Comando::JumpTrue(alvo),
    ensures
        um(em(q, cod, ip, ps.push(v)), x) == Some(
            em(
                q,
                cod,
                if vm::verdadeiro(v) {
                    alvo
                } else {
                    ip + 1
                },
                ps,
            ),
        ),
{
    reveal(maquina::passo);
    assert(ps.push(v).take(ps.len() as int) =~= ps);
}

pub(crate) proof fn lema_store(
    q: maquina::QuadroVisto,
    cod: Seq<Comando>,
    ip: int,
    ps: Seq<vm::Visto>,
    v: vm::Visto,
    nome: Seq<char>,
    x: Fora,
)
    requires
        0 <= ip < cod.len(),
        cod[ip] == Comando::Store(nome),
    ensures
        um(em(q, cod, ip, ps.push(v)), x) == Some(
            em(maquina::QuadroVisto { vars: vm::com_valor(q.vars, nome, v), ..q }, cod, ip + 1, ps),
        ),
{
    reveal(maquina::passo);
    assert(ps.push(v).take(ps.len() as int) =~= ps);
}

pub(crate) proof fn lema_load(
    q: maquina::QuadroVisto,
    cod: Seq<Comando>,
    ip: int,
    ps: Seq<vm::Visto>,
    v: vm::Visto,
    nome: Seq<char>,
    x: Fora,
)
    requires
        0 <= ip < cod.len(),
        cod[ip] == Comando::Load(nome),
        vm::valor_de(q.vars, nome) == Some(v),
    ensures
        um(em(q, cod, ip, ps), x) == Some(em(q, cod, ip + 1, ps.push(v))),
{
    reveal(maquina::passo);
}

pub(crate) proof fn lema_dois(
    q: maquina::QuadroVisto,
    cod: Seq<Comando>,
    ip: int,
    ps: Seq<vm::Visto>,
    a: vm::Visto,
    b: vm::Visto,
    v: vm::Visto,
    x: Fora,
)
    requires
        0 <= ip < cod.len(),
        operacoes::de_dois(cod[ip]),
        operacoes::binaria(cod[ip], a, b) == operacoes::SaidaVista::Valor(v),
    ensures
        um(em(q, cod, ip, ps.push(a).push(b)), x) == Some(em(q, cod, ip + 1, ps.push(v))),
{
    reveal(maquina::passo);
    assert(ps.push(a).push(b).take(ps.len() as int) =~= ps);
}

// ---- Expressoes -------------------------------------------------------------------------

/// O codigo da expressao, posto no endereco `b`, leva o quadro a `z` com `v` por cima e ao fim dele.
pub open spec fn da_em(
    x: Fora,
    q: maquina::QuadroVisto,
    e: ArvoreExpr,
    v: vm::Visto,
    z: maquina::QuadroVisto,
    cod: Seq<Comando>,
    b: int,
    ps: Seq<vm::Visto>,
) -> bool {
    match codigo::codigo_expr(e, b) {
        Some(c) => esta(cod, b, c) ==> chega(em(q, cod, b, ps), em(z, cod, b + c.len(), ps.push(v)), x),
        None => true,
    }
}

/// O codigo da expressao, onde quer que esteja e com o que quer que haja na pilha, deixa por cima dela o
/// valor `v`, e o quadro como em `z`.
pub open spec fn da(x: Fora, q: maquina::QuadroVisto, e: ArvoreExpr, v: vm::Visto, z: maquina::QuadroVisto) -> bool {
    forall|cod: Seq<Comando>, b: int, ps: Seq<vm::Visto>| #[trigger] da_em(x, q, e, v, z, cod, b, ps)
}

proof fn lema_topo(q: maquina::QuadroVisto, ps: Seq<vm::Visto>, v: vm::Visto)
    ensures
        ps.push(v).take(ps.len() as int) =~= ps,
{
}

proof fn lema_um_comando(x: Fora, q: maquina::QuadroVisto, e: ArvoreExpr, c: Comando, v: vm::Visto)
    requires
        forall|b: int| #[trigger] codigo::codigo_expr(e, b) == Some(seq![c]),
        forall|cod: Seq<Comando>, b: int, ps: Seq<vm::Visto>|
            (maquina::passo(c, #[trigger] em(q, cod, b + 1, ps), x.globais) == maquina::EfeitoVisto::Segue(
                em(q, cod, b + 1, ps.push(v)),
            )),
    ensures
        da(x, q, e, v, q),
{
    assert forall|cod: Seq<Comando>, b: int, ps: Seq<vm::Visto>| #[trigger] da_em(x, q, e, v, q, cod, b, ps) by {
        if esta(cod, b, seq![c]) {
            assert(cod[b + 0] == seq![c][0]);
            let r = em(q, cod, b + 1, ps);
            assert(maquina::passo(c, r, x.globais) == maquina::EfeitoVisto::Segue(em(q, cod, b + 1, ps.push(v))));
            lema_um(em(q, cod, b, ps), em(q, cod, b + 1, ps.push(v)), x);
        }
        assert(codigo::codigo_expr(e, b) == Some(seq![c]));
    }
}

/// O codigo de um literal deixa o valor dele, e o de uma variavel o valor do nome.
pub proof fn lei_literais(x: Fora, q: maquina::QuadroVisto, n: i64, t: Seq<char>, b: bool, nome: Seq<char>, v: vm::Visto)
    ensures
        da(x, q, ArvoreExpr::Inteiro(n), vm::Visto::Int(n), q),
        da(x, q, ArvoreExpr::Texto(t), vm::Visto::Str(t), q),
        da(x, q, ArvoreExpr::Booleano(b), vm::Visto::Bool(b), q),
        da(x, q, ArvoreExpr::Nulo, vm::Visto::Null, q),
        vm::valor_de(q.vars, nome) == Some(v) ==> da(x, q, ArvoreExpr::Variavel(nome), v, q),
        vm::valor_de(q.vars, nome) is None && vm::valor_de(x.globais, nome) == Some(v) ==> da(
            x,
            q,
            ArvoreExpr::Variavel(nome),
            v,
            q,
        ),
{
    reveal(maquina::passo);
    lema_um_comando(x, q, ArvoreExpr::Inteiro(n), Comando::PushInt(n), vm::Visto::Int(n));
    lema_um_comando(x, q, ArvoreExpr::Texto(t), Comando::PushStr(t), vm::Visto::Str(t));
    lema_um_comando(x, q, ArvoreExpr::Booleano(b), Comando::PushBool(b), vm::Visto::Bool(b));
    lema_um_comando(x, q, ArvoreExpr::Nulo, Comando::PushNull, vm::Visto::Null);
    if vm::valor_de(q.vars, nome) == Some(v) || (vm::valor_de(q.vars, nome) is None && vm::valor_de(x.globais, nome)
        == Some(v)) {
        lema_um_comando(x, q, ArvoreExpr::Variavel(nome), Comando::Load(nome), v);
    }
}

/// Um numero com ponto e o que vem de fora para o lexema dele.
pub proof fn lei_numero(x: Fora, q: maquina::QuadroVisto, t: Seq<char>, b: u64, s: Seq<char>)
    requires
        (x.respostas)(operacoes::PedidoVisto::Numero(t)) == maquina::RespostaVista::Numero(b, s),
    ensures
        da(x, q, ArvoreExpr::Numero(t), vm::Visto::Num(b, s), q),
{
    let e = ArvoreExpr::Numero(t);
    let v = vm::Visto::Num(b, s);
    assert forall|cod: Seq<Comando>, k: int, ps: Seq<vm::Visto>| #[trigger] da_em(x, q, e, v, q, cod, k, ps) by {
        reveal(maquina::passo);
        let c = Comando::PushNum(t);
        if esta(cod, k, seq![c]) {
            assert(cod[k + 0] == seq![c][0]);
            lema_um(em(q, cod, k, ps), em(q, cod, k + 1, ps.push(v)), x);
        }
    }
}

/// `x e y` deixa o valor de `x`, e `y` nao se avalia, se ele conta como falso; senao deixa o de `y`. `x ou
/// y` deixa o valor de `x`, e `y` nao se avalia, se ele conta como verdadeiro; senao deixa o de `y`.
pub proof fn lei_curto_circuito(
    x: Fora,
    q: maquina::QuadroVisto,
    a: ArvoreExpr,
    b: ArvoreExpr,
    va: vm::Visto,
    vb: vm::Visto,
    y: maquina::QuadroVisto,
    z: maquina::QuadroVisto,
)
    requires
        da(x, q, a, va, y),
        da(x, y, b, vb, z),
    ensures
        ({
            let e = ArvoreExpr::BinOp { esq: Box::new(a), op: OpBinario::E, dir: Box::new(b) };
            if vm::verdadeiro(va) {
                da(x, q, e, vb, z)
            } else {
                da(x, q, e, va, y)
            }
        }),
        ({
            let e = ArvoreExpr::BinOp { esq: Box::new(a), op: OpBinario::Ou, dir: Box::new(b) };
            if vm::verdadeiro(va) {
                da(x, q, e, va, y)
            } else {
                da(x, q, e, vb, z)
            }
        }),
{
    let v = vm::verdadeiro(va);
    lema_curto(x, q, a, b, va, vb, y, z, OpBinario::E, v);
    lema_curto(x, q, a, b, va, vb, y, z, OpBinario::Ou, !v);
}

proof fn lema_curto(
    x: Fora,
    q: maquina::QuadroVisto,
    a: ArvoreExpr,
    b: ArvoreExpr,
    va: vm::Visto,
    vb: vm::Visto,
    y: maquina::QuadroVisto,
    z: maquina::QuadroVisto,
    op: OpBinario,
    segue: bool,
)
    requires
        da(x, q, a, va, y),
        da(x, y, b, vb, z),
        op == OpBinario::E && segue == vm::verdadeiro(va) || op == OpBinario::Ou && segue == !vm::verdadeiro(va),
    ensures
        da(
            x,
            q,
            ArvoreExpr::BinOp { esq: Box::new(a), op, dir: Box::new(b) },
            if segue {
                vb
            } else {
                va
            },
            if segue {
                z
            } else {
                y
            },
        ),
{
    let e = ArvoreExpr::BinOp { esq: Box::new(a), op, dir: Box::new(b) };
    let v = if segue {
        vb
    } else {
        va
    };
    let w = if segue {
        z
    } else {
        y
    };
    assert forall|cod: Seq<Comando>, k: int, ps: Seq<vm::Visto>| #[trigger] da_em(x, q, e, v, w, cod, k, ps) by {
        if let Some(c) = codigo::codigo_expr(e, k) {
            if esta(cod, k, c) {
                let ca = codigo::codigo_expr(a, k)->Some_0;
                let n = k + ca.len();
                let cb = codigo::codigo_expr(b, n + 3)->Some_0;
                let fim = n + 3 + cb.len();
                let salto = if op == OpBinario::E {
                    Comando::JumpFalse(fim)
                } else {
                    Comando::JumpTrue(fim)
                };
                let meio = seq![Comando::Dup, salto, Comando::Pop];
                assert(c == ca + meio + cb);
                lema_esta(cod, k, ca + meio, cb);
                lema_esta(cod, k, ca, meio);
                assert(cod[n + 0] == meio[0] && cod[n + 1] == meio[1] && cod[n + 2] == meio[2]);
                assert(da_em(x, q, a, va, y, cod, k, ps));
                let e0 = em(q, cod, k, ps);
                let e1 = em(y, cod, n, ps.push(va));
                let e2 = em(y, cod, n + 1, ps.push(va).push(va));
                lema_dup(y, cod, n, ps, va, x);
                if op == OpBinario::E {
                    lema_jump_false(y, cod, n + 1, ps.push(va), va, fim, x);
                } else {
                    lema_jump_true(y, cod, n + 1, ps.push(va), va, fim, x);
                }
                if segue {
                    let e3 = em(y, cod, n + 2, ps.push(va));
                    let e4 = em(y, cod, n + 3, ps);
                    let f = em(z, cod, fim, ps.push(vb));
                    lema_pop(y, cod, n + 2, ps, va, x);
                    assert(da_em(x, y, b, vb, z, cod, n + 3, ps));
                    lema_segue(e3, e4, f, x);
                    lema_segue(e2, e3, f, x);
                    lema_segue(e1, e2, f, x);
                    lema_junta(e0, e1, f, x);
                } else {
                    let f = em(y, cod, fim, ps.push(va));
                    lema_um(e2, f, x);
                    lema_segue(e1, e2, f, x);
                    lema_junta(e0, e1, f, x);
                }
            }
        }
    }
}

/// `a op b`: corre o codigo de `a` e depois o de `b`, e a operacao faz-se com o valor de `a` por baixo e o
/// de `b` por cima.
pub proof fn lei_binaria(
    x: Fora,
    q: maquina::QuadroVisto,
    a: ArvoreExpr,
    op: OpBinario,
    b: ArvoreExpr,
    va: vm::Visto,
    vb: vm::Visto,
    v: vm::Visto,
    y: maquina::QuadroVisto,
    z: maquina::QuadroVisto,
)
    requires
        op != OpBinario::E && op != OpBinario::Ou,
        da(x, q, a, va, y),
        da(x, y, b, vb, z),
        operacoes::binaria(
            match op {
                OpBinario::Soma => Comando::Add,
                OpBinario::Subtracao => Comando::Sub,
                OpBinario::Multiplicacao => Comando::Mul,
                OpBinario::Divisao => Comando::Div,
                OpBinario::DivisaoInteira => Comando::IntDiv,
                OpBinario::Modulo => Comando::Mod,
                OpBinario::Igual => Comando::Eq,
                OpBinario::DiferenteDe => Comando::Ne,
                OpBinario::MenorQue => Comando::Lt,
                OpBinario::MaiorQue => Comando::Gt,
                OpBinario::MenorOuIgual => Comando::Le,
                OpBinario::MaiorOuIgual => Comando::Ge,
                OpBinario::Em => Comando::Em,
                OpBinario::NaoEm => Comando::NaoEm,
                OpBinario::E => Comando::And,
                OpBinario::Ou => Comando::Or,
            },
            va,
            vb,
        ) == operacoes::SaidaVista::Valor(v),
    ensures
        da(x, q, ArvoreExpr::BinOp { esq: Box::new(a), op, dir: Box::new(b) }, v, z),
{
    let e = ArvoreExpr::BinOp { esq: Box::new(a), op, dir: Box::new(b) };
    assert forall|cod: Seq<Comando>, k: int, ps: Seq<vm::Visto>| #[trigger] da_em(x, q, e, v, z, cod, k, ps) by {
        if let Some(c) = codigo::codigo_expr(e, k) {
            if esta(cod, k, c) {
                let ca = codigo::codigo_expr(a, k)->Some_0;
                let n = k + ca.len();
                let cb = codigo::codigo_expr(b, n)->Some_0;
                let m = n + cb.len();
                let o = codigo::comando_binario(op);
                lema_esta_push(cod, k, ca + cb, o);
                lema_esta(cod, k, ca, cb);
                assert(da_em(x, q, a, va, y, cod, k, ps));
                assert(da_em(x, y, b, vb, z, cod, n, ps.push(va)));
                let e0 = em(q, cod, k, ps);
                let e1 = em(y, cod, n, ps.push(va));
                let e2 = em(z, cod, m, ps.push(va).push(vb));
                let f = em(z, cod, m + 1, ps.push(v));
                lema_dois(z, cod, m, ps, va, vb, v, x);
                lema_um(e2, f, x);
                lema_junta(e1, e2, f, x);
                lema_junta(e0, e1, f, x);
            }
        }
    }
}

/// `nao a` deixa se o valor de `a` nao conta como verdadeiro, e `-a`, de um inteiro, o simetrico dele.
pub proof fn lei_unaria(x: Fora, q: maquina::QuadroVisto, a: ArvoreExpr, va: vm::Visto, n: i64, y: maquina::QuadroVisto)
    requires
        da(x, q, a, va, y),
    ensures
        da(
            x,
            q,
            ArvoreExpr::UnOp { op: OpUnario::Nao, expr: Box::new(a) },
            vm::Visto::Bool(!vm::verdadeiro(va)),
            y,
        ),
        va == vm::Visto::Int(n) && n != i64::MIN ==> da(
            x,
            q,
            ArvoreExpr::UnOp { op: OpUnario::Negativo, expr: Box::new(a) },
            vm::Visto::Int((0 - n) as i64),
            y,
        ),
{
    let nao = ArvoreExpr::UnOp { op: OpUnario::Nao, expr: Box::new(a) };
    let neg = ArvoreExpr::UnOp { op: OpUnario::Negativo, expr: Box::new(a) };
    lema_acrescenta(x, q, a, va, y, nao, Comando::Not, vm::Visto::Bool(!vm::verdadeiro(va)));
    if va == vm::Visto::Int(n) && n != i64::MIN {
        lema_acrescenta(x, q, a, va, y, neg, Comando::Neg, vm::Visto::Int((0 - n) as i64));
    }
}

proof fn lema_acrescenta(
    x: Fora,
    q: maquina::QuadroVisto,
    a: ArvoreExpr,
    va: vm::Visto,
    y: maquina::QuadroVisto,
    e: ArvoreExpr,
    o: Comando,
    v: vm::Visto,
)
    requires
        da(x, q, a, va, y),
        e matches ArvoreExpr::UnOp { op, expr } && *expr == a && (op == OpUnario::Nao && o == Comando::Not && v
            == vm::Visto::Bool(!vm::verdadeiro(va)) || op == OpUnario::Negativo && o == Comando::Neg && (va matches vm::Visto::Int(
            n,
        ) && n != i64::MIN && v == vm::Visto::Int((0 - n) as i64))),
    ensures
        da(x, q, e, v, y),
{
    assert forall|cod: Seq<Comando>, k: int, ps: Seq<vm::Visto>| #[trigger] da_em(x, q, e, v, y, cod, k, ps) by {
        if let Some(c) = codigo::codigo_expr(e, k) {
            if esta(cod, k, c) {
                let ca = codigo::codigo_expr(a, k)->Some_0;
                let n = k + ca.len();
                lema_esta_push(cod, k, ca, o);
                assert(da_em(x, q, a, va, y, cod, k, ps));
                let e0 = em(q, cod, k, ps);
                let e1 = em(y, cod, n, ps.push(va));
                let f = em(y, cod, n + 1, ps.push(v));
                lema_topo(y, ps, va);
                assert(um(e1, x) == Some(f)) by {
                    reveal(maquina::passo);
                }
                lema_um(e1, f, x);
                lema_junta(e0, e1, f, x);
            }
        }
    }
}

/// `a ?? b` deixa o valor de `a`, e `b` nao se avalia, a nao ser que ele seja `nulo`: entao deixa o de `b`.
pub proof fn lei_coalescente(
    x: Fora,
    q: maquina::QuadroVisto,
    a: ArvoreExpr,
    b: ArvoreExpr,
    va: vm::Visto,
    vb: vm::Visto,
    y: maquina::QuadroVisto,
    z: maquina::QuadroVisto,
)
    requires
        da(x, q, a, va, y),
        va is Null ==> da(x, y, b, vb, z),
    ensures
        da(
            x,
            q,
            ArvoreExpr::NullCoalescente { esq: Box::new(a), dir: Box::new(b) },
            if va is Null {
                vb
            } else {
                va
            },
            if va is Null {
                z
            } else {
                y
            },
        ),
{
    let e = ArvoreExpr::NullCoalescente { esq: Box::new(a), dir: Box::new(b) };
    let v = if va is Null {
        vb
    } else {
        va
    };
    let w = if va is Null {
        z
    } else {
        y
    };
    assert forall|cod: Seq<Comando>, k: int, ps: Seq<vm::Visto>| #[trigger] da_em(x, q, e, v, w, cod, k, ps) by {
        if let Some(c) = codigo::codigo_expr(e, k) {
            if esta(cod, k, c) {
                let ca = codigo::codigo_expr(a, k)->Some_0;
                let n = k + ca.len();
                let cb = codigo::codigo_expr(b, n + 5)->Some_0;
                let fim = n + 5 + cb.len();
                let meio = seq![
                    Comando::Dup,
                    Comando::PushNull,
                    Comando::Eq,
                    Comando::JumpFalse(fim),
                    Comando::Pop,
                ];
                assert(c == ca + meio + cb);
                lema_esta(cod, k, ca + meio, cb);
                lema_esta(cod, k, ca, meio);
                assert(cod[n + 0] == meio[0] && cod[n + 1] == meio[1] && cod[n + 2] == meio[2] && cod[n + 3] == meio[3]
                    && cod[n + 4] == meio[4]);
                assert(da_em(x, q, a, va, y, cod, k, ps));
                let p = ps.push(va);
                let e0 = em(q, cod, k, ps);
                let e1 = em(y, cod, n, p);
                let e2 = em(y, cod, n + 1, p.push(va));
                let e3 = em(y, cod, n + 2, p.push(va).push(vm::Visto::Null));
                let e4 = em(y, cod, n + 3, p.push(vm::Visto::Bool(va is Null)));
                assert(vm::iguais(va, vm::Visto::Null) == (va is Null));
                lema_dup(y, cod, n, ps, va, x);
                lema_nulo(y, cod, n + 1, p.push(va), x);
                lema_dois(y, cod, n + 2, p, va, vm::Visto::Null, vm::Visto::Bool(va is Null), x);
                lema_jump_false(y, cod, n + 3, p, vm::Visto::Bool(va is Null), fim, x);
                let f = em(w, cod, fim, ps.push(v));
                if va is Null {
                    let e5 = em(y, cod, n + 4, p);
                    let e6 = em(y, cod, n + 5, ps);
                    lema_pop(y, cod, n + 4, ps, va, x);
                    assert(da_em(x, y, b, vb, z, cod, n + 5, ps));
                    lema_segue(e5, e6, f, x);
                    lema_segue(e4, e5, f, x);
                } else {
                    lema_um(e4, f, x);
                }
                lema_segue(e3, e4, f, x);
                lema_segue(e2, e3, f, x);
                lema_segue(e1, e2, f, x);
                lema_junta(e0, e1, f, x);
            }
        }
    }
}

/// `nome = e` deixa o valor de `e` e guarda-o no nome.
pub proof fn lei_atribuicao(
    x: Fora,
    q: maquina::QuadroVisto,
    nome: Seq<char>,
    a: ArvoreExpr,
    va: vm::Visto,
    y: maquina::QuadroVisto,
)
    requires
        da(x, q, a, va, y),
    ensures
        da(
            x,
            q,
            ArvoreExpr::Atribuicao { nome, valor: Box::new(a) },
            va,
            maquina::QuadroVisto { vars: vm::com_valor(y.vars, nome, va), ..y },
        ),
{
    let e = ArvoreExpr::Atribuicao { nome, valor: Box::new(a) };
    let z = maquina::QuadroVisto { vars: vm::com_valor(y.vars, nome, va), ..y };
    assert forall|cod: Seq<Comando>, k: int, ps: Seq<vm::Visto>| #[trigger] da_em(x, q, e, va, z, cod, k, ps) by {
        if let Some(c) = codigo::codigo_expr(e, k) {
            if esta(cod, k, c) {
                let ca = codigo::codigo_expr(a, k)->Some_0;
                let n = k + ca.len();
                let meio = seq![Comando::Dup, Comando::Store(nome)];
                lema_esta(cod, k, ca, meio);
                assert(cod[n + 0] == meio[0] && cod[n + 1] == meio[1]);
                assert(da_em(x, q, a, va, y, cod, k, ps));
                let e0 = em(q, cod, k, ps);
                let e1 = em(y, cod, n, ps.push(va));
                let e2 = em(y, cod, n + 1, ps.push(va).push(va));
                let f = em(z, cod, n + 2, ps.push(va));
                lema_dup(y, cod, n, ps, va, x);
                lema_store(y, cod, n + 1, ps.push(va), va, nome, x);
                lema_um(e2, f, x);
                lema_segue(e1, e2, f, x);
                lema_junta(e0, e1, f, x);
            }
        }
    }
}

/// `o[i]` corre o codigo de `o` e depois o de `i`, e deixa o item do objeto nesse indice.
pub proof fn lei_acesso(
    x: Fora,
    q: maquina::QuadroVisto,
    o: ArvoreExpr,
    i: ArvoreExpr,
    vo: vm::Visto,
    vi: vm::Visto,
    v: vm::Visto,
    y: maquina::QuadroVisto,
    z: maquina::QuadroVisto,
)
    requires
        da(x, q, o, vo, y),
        da(x, y, i, vi, z),
        operacoes::indexado(vo, vi) == operacoes::SaidaVista::Valor(v),
    ensures
        da(x, q, ArvoreExpr::Acesso { objeto: Box::new(o), indice: Box::new(i) }, v, z),
{
    let e = ArvoreExpr::Acesso { objeto: Box::new(o), indice: Box::new(i) };
    assert forall|cod: Seq<Comando>, k: int, ps: Seq<vm::Visto>| #[trigger] da_em(x, q, e, v, z, cod, k, ps) by {
        if let Some(c) = codigo::codigo_expr(e, k) {
            if esta(cod, k, c) {
                let ca = codigo::codigo_expr(o, k)->Some_0;
                let n = k + ca.len();
                let cb = codigo::codigo_expr(i, n)->Some_0;
                let m = n + cb.len();
                lema_esta_push(cod, k, ca + cb, Comando::GetIndex);
                lema_esta(cod, k, ca, cb);
                assert(da_em(x, q, o, vo, y, cod, k, ps));
                assert(da_em(x, y, i, vi, z, cod, n, ps.push(vo)));
                let e0 = em(q, cod, k, ps);
                let e1 = em(y, cod, n, ps.push(vo));
                let e2 = em(z, cod, m, ps.push(vo).push(vi));
                let f = em(z, cod, m + 1, ps.push(v));
                lema_dois(z, cod, m, ps, vo, vi, v, x);
                lema_um(e2, f, x);
                lema_junta(e1, e2, f, x);
                lema_junta(e0, e1, f, x);
            }
        }
    }
}

/// Os codigos das expressoes, um depois do outro, deixam na pilha os valores pela ordem: `qs[k]` e o
/// quadro antes da `k`.
pub open spec fn dao(x: Fora, qs: Seq<maquina::QuadroVisto>, es: Seq<ArvoreExpr>, vs: Seq<vm::Visto>) -> bool {
    &&& qs.len() == es.len() + 1
    &&& vs.len() == es.len()
    &&& forall|k: int| 0 <= k < es.len() ==> da(x, qs[k], #[trigger] es[k], vs[k], qs[k + 1])
}

proof fn lema_dao(
    x: Fora,
    qs: Seq<maquina::QuadroVisto>,
    es: Seq<ArvoreExpr>,
    vs: Seq<vm::Visto>,
    n: int,
    cod: Seq<Comando>,
    b: int,
    ps: Seq<vm::Visto>,
)
    requires
        dao(x, qs, es, vs),
        0 <= n <= es.len(),
    ensures
        codigo::codigo_exprs(es, n, b) matches Some(c) ==> esta(cod, b, c) ==> chega(
            em(qs[0], cod, b, ps),
            em(qs[n], cod, b + c.len(), ps + vs.take(n)),
            x,
        ),
    decreases n,
{
    if let Some(c) = codigo::codigo_exprs(es, n, b) {
        if esta(cod, b, c) {
            if n == 0 {
                assert(ps + vs.take(0) =~= ps);
                lema_zero(em(qs[0], cod, b, ps), x);
            } else {
                let a = codigo::codigo_exprs(es, n - 1, b)->Some_0;
                let d = codigo::codigo_expr(es[n - 1], b + a.len())->Some_0;
                lema_esta(cod, b, a, d);
                lema_dao(x, qs, es, vs, n - 1, cod, b, ps);
                assert(da(x, qs[n - 1], es[n - 1], vs[n - 1], qs[n - 1 + 1]));
                let us = ps + vs.take(n - 1);
                assert(da_em(x, qs[n - 1], es[n - 1], vs[n - 1], qs[n], cod, b + a.len(), us));
                assert(us.push(vs[n - 1]) =~= ps + vs.take(n));
                lema_junta(
                    em(qs[0], cod, b, ps),
                    em(qs[n - 1], cod, b + a.len(), us),
                    em(qs[n], cod, b + c.len(), ps + vs.take(n)),
                    x,
                );
            }
        }
    }
}

/// Uma lista deixa a lista dos valores dos itens, pela ordem deles.
pub proof fn lei_lista(x: Fora, qs: Seq<maquina::QuadroVisto>, es: Seq<ArvoreExpr>, vs: Seq<vm::Visto>)
    requires
        dao(x, qs, es, vs),
    ensures
        da(x, qs[0], ArvoreExpr::Lista(es), vm::Visto::Lista(vs), qs.last()),
{
    let e = ArvoreExpr::Lista(es);
    let q = qs[0];
    let z = qs.last();
    let v = vm::Visto::Lista(vs);
    let n = es.len() as int;
    assert forall|cod: Seq<Comando>, k: int, ps: Seq<vm::Visto>| #[trigger] da_em(x, q, e, v, z, cod, k, ps) by {
        if let Some(c) = codigo::codigo_expr(e, k) {
            if esta(cod, k, c) {
                let a = codigo::codigo_exprs(es, n, k)->Some_0;
                lema_esta_push(cod, k, a, Comando::MakeList(n));
                lema_dao(x, qs, es, vs, n, cod, k, ps);
                assert(vs.take(n) =~= vs);
                let e1 = em(z, cod, k + a.len(), ps + vs);
                let f = em(z, cod, k + a.len() + 1, ps.push(v));
                assert((ps + vs).take(ps.len() as int) =~= ps);
                assert((ps + vs).skip(ps.len() as int) =~= vs);
                assert(um(e1, x) == Some(f)) by {
                    reveal(maquina::passo);
                }
                lema_um(e1, f, x);
                lema_junta(em(q, cod, k, ps), e1, f, x);
            }
        }
    }
}

/// Chamar uma funcao pelo nome poe os argumentos na pilha pela ordem e chega ao comando que a chama com
/// eles por cima.
pub proof fn lei_argumentos(
    x: Fora,
    qs: Seq<maquina::QuadroVisto>,
    nome: Seq<char>,
    es: Seq<ArvoreExpr>,
    vs: Seq<vm::Visto>,
    cod: Seq<Comando>,
    b: int,
    ps: Seq<vm::Visto>,
)
    requires
        dao(x, qs, es, vs),
        codigo::comando_chamada(nome, es.len() as int) is CallNative,
    ensures
        codigo::codigo_expr(ArvoreExpr::ChamadaFuncao { nome, args: es }, b) matches Some(c) ==> esta(cod, b, c) ==> {
            &&& c.len() > 0
            &&& chega(em(qs[0], cod, b, ps), em(qs.last(), cod, b + c.len() - 1, ps + vs), x)
            &&& cod[b + c.len() - 1] == Comando::CallNative(nome, es.len() as int)
        },
{
    let e = ArvoreExpr::ChamadaFuncao { nome, args: es };
    let n = es.len() as int;
    if let Some(c) = codigo::codigo_expr(e, b) {
        if esta(cod, b, c) {
            let a = codigo::codigo_exprs(es, n, b)->Some_0;
            lema_esta_push(cod, b, a, codigo::comando_chamada(nome, n));
            lema_dao(x, qs, es, vs, n, cod, b, ps);
            assert(vs.take(n) =~= vs);
        }
    }
}

// ---- Instrucoes -------------------------------------------------------------------------

/// Por onde o codigo de uma instrucao sai: pelo fim dele, ou pelo salto de um `pare` ou `continue`.
pub ghost enum Rumo {
    Segue,
    Pare,
    Continue,
}

/// O endereco a que um rumo leva.
pub open spec fn destino(r: Rumo, depois: int, ini: Option<int>, fim: int) -> int {
    match r {
        Rumo::Segue => depois,
        Rumo::Pare => fim,
        Rumo::Continue => ini->Some_0,
    }
}

/// O quadro chega a `z`, no endereco dado; podem ficar valores por cima dos que havia.
pub open spec fn acaba(
    x: Fora,
    q: maquina::QuadroVisto,
    z: maquina::QuadroVisto,
    cod: Seq<Comando>,
    b: int,
    d: int,
    ps: Seq<vm::Visto>,
) -> bool {
    exists|us: Seq<vm::Visto>| chega(em(q, cod, b, ps), #[trigger] em(z, cod, d, ps + us), x)
}

/// O codigo da instrucao, posto no endereco `b`, leva o quadro a `z` pelo rumo `r`.
pub open spec fn faz_em(
    x: Fora,
    q: maquina::QuadroVisto,
    a: ArvoreInstr,
    r: Rumo,
    z: maquina::QuadroVisto,
    cod: Seq<Comando>,
    b: int,
    ini: Option<int>,
    fim: int,
    ps: Seq<vm::Visto>,
) -> bool {
    match codigo::codigo_instr(a, b, ini, fim) {
        Some(c) => esta(cod, b, c) ==> acaba(x, q, z, cod, b, destino(r, b + c.len(), ini, fim), ps),
        None => true,
    }
}

/// O codigo da instrucao, onde quer que esteja, leva o quadro a `z` pelo rumo `r`.
pub open spec fn faz(x: Fora, q: maquina::QuadroVisto, a: ArvoreInstr, r: Rumo, z: maquina::QuadroVisto) -> bool {
    forall|cod: Seq<Comando>, b: int, ini: Option<int>, fim: int, ps: Seq<vm::Visto>| #[trigger]
        faz_em(x, q, a, r, z, cod, b, ini, fim, ps)
}

/// O codigo das primeiras `n` instrucoes, posto no endereco `b`, leva o quadro a `z` pelo rumo `r`.
pub open spec fn fazem_em(
    x: Fora,
    q: maquina::QuadroVisto,
    v: Seq<ArvoreInstr>,
    n: int,
    r: Rumo,
    z: maquina::QuadroVisto,
    cod: Seq<Comando>,
    b: int,
    ini: Option<int>,
    fim: int,
    ps: Seq<vm::Visto>,
) -> bool {
    match codigo::codigo_bloco(v, n, b, ini, fim) {
        Some(c) => esta(cod, b, c) ==> acaba(x, q, z, cod, b, destino(r, b + c.len(), ini, fim), ps),
        None => true,
    }
}

/// O codigo das primeiras `n` instrucoes, onde quer que esteja, leva o quadro a `z` pelo rumo `r`.
pub open spec fn fazem(
    x: Fora,
    q: maquina::QuadroVisto,
    v: Seq<ArvoreInstr>,
    n: int,
    r: Rumo,
    z: maquina::QuadroVisto,
) -> bool {
    forall|cod: Seq<Comando>, b: int, ini: Option<int>, fim: int, ps: Seq<vm::Visto>| #[trigger]
        fazem_em(x, q, v, n, r, z, cod, b, ini, fim, ps)
}

pub(crate) proof fn lema_acaba(
    x: Fora,
    q: maquina::QuadroVisto,
    z: maquina::QuadroVisto,
    cod: Seq<Comando>,
    b: int,
    d: int,
    ps: Seq<vm::Visto>,
)
    requires
        chega(em(q, cod, b, ps), em(z, cod, d, ps), x),
    ensures
        acaba(x, q, z, cod, b, d, ps),
{
    assert(ps + Seq::<vm::Visto>::empty() =~= ps);
    assert(em(z, cod, d, ps + Seq::<vm::Visto>::empty()) == em(z, cod, d, ps));
}

pub(crate) proof fn lema_comeca(
    x: Fora,
    q: maquina::QuadroVisto,
    y: maquina::QuadroVisto,
    z: maquina::QuadroVisto,
    cod: Seq<Comando>,
    b: int,
    m: int,
    d: int,
    ps: Seq<vm::Visto>,
)
    requires
        chega(em(q, cod, b, ps), em(y, cod, m, ps), x),
        acaba(x, y, z, cod, m, d, ps),
    ensures
        acaba(x, q, z, cod, b, d, ps),
{
    let us = choose|us: Seq<vm::Visto>| chega(em(y, cod, m, ps), #[trigger] em(z, cod, d, ps + us), x);
    lema_junta(em(q, cod, b, ps), em(y, cod, m, ps), em(z, cod, d, ps + us), x);
}

/// Como `lema_comeca`, com o meio a deixar valores: o resto tem de valer com eles por cima.
pub(crate) proof fn lema_encadeia(
    x: Fora,
    q: maquina::QuadroVisto,
    y: maquina::QuadroVisto,
    z: maquina::QuadroVisto,
    cod: Seq<Comando>,
    b: int,
    m: int,
    d: int,
    ps: Seq<vm::Visto>,
)
    requires
        acaba(x, q, y, cod, b, m, ps),
        forall|us: Seq<vm::Visto>| acaba(x, y, z, cod, m, d, #[trigger] (ps + us)),
    ensures
        acaba(x, q, z, cod, b, d, ps),
{
    let us = choose|us: Seq<vm::Visto>| chega(em(q, cod, b, ps), #[trigger] em(y, cod, m, ps + us), x);
    assert(acaba(x, y, z, cod, m, d, ps + us));
    let ws = choose|ws: Seq<vm::Visto>| chega(em(y, cod, m, ps + us), #[trigger] em(z, cod, d, ps + us + ws), x);
    assert(ps + us + ws =~= ps + (us + ws));
    lema_junta(em(q, cod, b, ps), em(y, cod, m, ps + us), em(z, cod, d, ps + (us + ws)), x);
}

/// Um bloco: sem instrucoes, nada muda; senao, correm as primeiras e depois a ultima, a nao ser que as
/// primeiras saiam por um `pare` ou `continue`: entao o resto nao corre.
pub proof fn lei_bloco(
    x: Fora,
    q: maquina::QuadroVisto,
    v: Seq<ArvoreInstr>,
    n: int,
    p: Rumo,
    y: maquina::QuadroVisto,
    r: Rumo,
    z: maquina::QuadroVisto,
)
    requires
        0 <= n <= v.len(),
        n == 0 ==> z == q && r is Segue,
        n > 0 ==> fazem(x, q, v, n - 1, p, y) && if p is Segue {
            faz(x, y, v[n - 1], r, z)
        } else {
            z == y && r == p
        },
    ensures
        fazem(x, q, v, n, r, z),
{
    assert forall|cod: Seq<Comando>, b: int, ini: Option<int>, fim: int, ps: Seq<vm::Visto>| #[trigger]
        fazem_em(x, q, v, n, r, z, cod, b, ini, fim, ps) by {
        if let Some(c) = codigo::codigo_bloco(v, n, b, ini, fim) {
            if esta(cod, b, c) {
                if n == 0 {
                    lema_zero(em(q, cod, b, ps), x);
                    lema_acaba(x, q, q, cod, b, b, ps);
                } else {
                    let a = codigo::codigo_bloco(v, n - 1, b, ini, fim)->Some_0;
                    let d = codigo::codigo_instr(v[n - 1], b + a.len(), ini, fim)->Some_0;
                    lema_esta(cod, b, a, d);
                    assert(fazem_em(x, q, v, n - 1, p, y, cod, b, ini, fim, ps));
                    if p is Segue {
                        assert forall|us: Seq<vm::Visto>|
                            acaba(x, y, z, cod, b + a.len(), destino(r, b + c.len(), ini, fim), #[trigger] (ps + us)) by {
                            assert(faz_em(x, y, v[n - 1], r, z, cod, b + a.len(), ini, fim, ps + us));
                        }
                        lema_encadeia(x, q, y, z, cod, b, b + a.len(), destino(r, b + c.len(), ini, fim), ps);
                    }
                }
            }
        }
    }
}

/// `se c { A } senao { B }`: se o valor de `c` conta como verdadeiro corre `A` e nada de `B`; senao corre
/// `B`, se o ha, e nada de `A`.
pub proof fn lei_se(
    x: Fora,
    q: maquina::QuadroVisto,
    condicao: ArvoreExpr,
    entao: Seq<ArvoreInstr>,
    senao: Option<Seq<ArvoreInstr>>,
    v: vm::Visto,
    y: maquina::QuadroVisto,
    r: Rumo,
    z: maquina::QuadroVisto,
)
    requires
        da(x, q, condicao, v, y),
        if vm::verdadeiro(v) {
            fazem(x, y, entao, entao.len() as int, r, z)
        } else {
            match senao {
                Some(s) => fazem(x, y, s, s.len() as int, r, z),
                None => r is Segue && z == y,
            }
        },
    ensures
        faz(x, q, ArvoreInstr::Se { condicao, entao, senao }, r, z),
{
    let a = ArvoreInstr::Se { condicao, entao, senao };
    assert forall|cod: Seq<Comando>, b: int, ini: Option<int>, fim: int, ps: Seq<vm::Visto>| #[trigger]
        faz_em(x, q, a, r, z, cod, b, ini, fim, ps) by {
        if let Some(c) = codigo::codigo_instr(a, b, ini, fim) {
            if esta(cod, b, c) {
                let cc = codigo::codigo_expr(condicao, b)->Some_0;
                let n = b + cc.len();
                let t = codigo::codigo_todo(entao, n + 1, ini, fim)->Some_0;
                let alvo = n + 1 + t.len();
                let d = destino(r, b + c.len(), ini, fim);
                assert(da_em(x, q, condicao, v, y, cod, b, ps));
                match senao {
                    Some(s) => {
                        let cs = codigo::codigo_todo(s, alvo + 1, ini, fim)->Some_0;
                        let p1 = cc.push(Comando::JumpFalse(alvo + 1));
                        let p2 = t.push(Comando::Jump(alvo + 1 + cs.len()));
                        assert(c == p1 + p2 + cs);
                        lema_esta(cod, b, p1 + p2, cs);
                        lema_esta(cod, b, p1, p2);
                        lema_esta_push(cod, b, cc, Comando::JumpFalse(alvo + 1));
                        lema_esta_push(cod, n + 1, t, Comando::Jump(alvo + 1 + cs.len()));
                        lema_jump_false(y, cod, n, ps, v, alvo + 1, x);
                        lema_um(
                            em(y, cod, n, ps.push(v)),
                            em(
                                y,
                                cod,
                                if vm::verdadeiro(v) {
                                    n + 1
                                } else {
                                    alvo + 1
                                },
                                ps,
                            ),
                            x,
                        );
                        if vm::verdadeiro(v) {
                            lema_junta(em(q, cod, b, ps), em(y, cod, n, ps.push(v)), em(y, cod, n + 1, ps), x);
                            assert(fazem_em(x, y, entao, entao.len() as int, r, z, cod, n + 1, ini, fim, ps));
                            if r is Segue {
                                assert forall|us: Seq<vm::Visto>| acaba(x, z, z, cod, alvo, d, #[trigger] (ps + us)) by {
                                    lema_jump(z, cod, alvo, ps + us, d, x);
                                    lema_um(em(z, cod, alvo, ps + us), em(z, cod, d, ps + us), x);
                                    lema_acaba(x, z, z, cod, alvo, d, ps + us);
                                }
                                lema_encadeia(x, y, z, z, cod, n + 1, alvo, d, ps);
                            }
                            lema_comeca(x, q, y, z, cod, b, n + 1, d, ps);
                        } else {
                            lema_junta(em(q, cod, b, ps), em(y, cod, n, ps.push(v)), em(y, cod, alvo + 1, ps), x);
                            assert(fazem_em(x, y, s, s.len() as int, r, z, cod, alvo + 1, ini, fim, ps));
                            lema_comeca(x, q, y, z, cod, b, alvo + 1, d, ps);
                        }
                    },
                    None => {
                        let p1 = cc.push(Comando::JumpFalse(alvo));
                        assert(c == p1 + t);
                        lema_esta(cod, b, p1, t);
                        lema_esta_push(cod, b, cc, Comando::JumpFalse(alvo));
                        lema_jump_false(y, cod, n, ps, v, alvo, x);
                        lema_um(
                            em(y, cod, n, ps.push(v)),
                            em(
                                y,
                                cod,
                                if vm::verdadeiro(v) {
                                    n + 1
                                } else {
                                    alvo
                                },
                                ps,
                            ),
                            x,
                        );
                        if vm::verdadeiro(v) {
                            lema_junta(em(q, cod, b, ps), em(y, cod, n, ps.push(v)), em(y, cod, n + 1, ps), x);
                            assert(fazem_em(x, y, entao, entao.len() as int, r, z, cod, n + 1, ini, fim, ps));
                            lema_comeca(x, q, y, z, cod, b, n + 1, d, ps);
                        } else {
                            lema_junta(em(q, cod, b, ps), em(y, cod, n, ps.push(v)), em(y, cod, alvo, ps), x);
                            lema_acaba(x, q, z, cod, b, d, ps);
                        }
                    },
                }
            }
        }
    }
}

/// `enquanto c { corpo }`: se o valor de `c` nao conta como verdadeiro o laco acabou; senao corre o corpo e
/// volta-se ao comeco, a nao ser que ele saia por um `pare`: entao o laco acabou.
pub proof fn lei_enquanto(
    x: Fora,
    q: maquina::QuadroVisto,
    condicao: ArvoreExpr,
    corpo: Seq<ArvoreInstr>,
    v: vm::Visto,
    y: maquina::QuadroVisto,
    r: Rumo,
    w: maquina::QuadroVisto,
    z: maquina::QuadroVisto,
)
    requires
        da(x, q, condicao, v, y),
        if vm::verdadeiro(v) {
            fazem(x, y, corpo, corpo.len() as int, r, w) && if r is Pare {
                z == w
            } else {
                faz(x, w, ArvoreInstr::Enquanto { condicao, corpo }, Rumo::Segue, z)
            }
        } else {
            z == y
        },
    ensures
        faz(x, q, ArvoreInstr::Enquanto { condicao, corpo }, Rumo::Segue, z),
{
    let a = ArvoreInstr::Enquanto { condicao, corpo };
    let s = Rumo::Segue;
    assert forall|cod: Seq<Comando>, b: int, ini: Option<int>, fim: int, ps: Seq<vm::Visto>| #[trigger]
        faz_em(x, q, a, s, z, cod, b, ini, fim, ps) by {
        if let Some(c) = codigo::codigo_instr(a, b, ini, fim) {
            if esta(cod, b, c) {
                let cc = codigo::codigo_expr(condicao, b)->Some_0;
                let n = b + cc.len();
                let t0 = codigo::codigo_todo(corpo, n + 1, Some(b), 0)->Some_0;
                let f = n + 1 + t0.len() + 1;
                assert(codigo::codigo_instr(a, b, ini, fim) == codigo::codigo_laco(cc, corpo, b));
                let t = codigo::codigo_todo(corpo, n + 1, Some(b), f)->Some_0;
                saltos::lema_tam_todo(corpo, n + 1, Some(b), 0, f);
                let p1 = cc.push(Comando::JumpFalse(f));
                let p2 = t.push(Comando::Jump(b));
                assert(c == p1 + p2);
                assert(b + c.len() == f);
                lema_esta(cod, b, p1, p2);
                lema_esta_push(cod, b, cc, Comando::JumpFalse(f));
                lema_esta_push(cod, n + 1, t, Comando::Jump(b));
                assert(da_em(x, q, condicao, v, y, cod, b, ps));
                lema_jump_false(y, cod, n, ps, v, f, x);
                if vm::verdadeiro(v) {
                    lema_um(em(y, cod, n, ps.push(v)), em(y, cod, n + 1, ps), x);
                    lema_junta(em(q, cod, b, ps), em(y, cod, n, ps.push(v)), em(y, cod, n + 1, ps), x);
                    assert(fazem_em(x, y, corpo, corpo.len() as int, r, w, cod, n + 1, Some(b), f, ps));
                    assert(codigo::codigo_bloco(corpo, corpo.len() as int, n + 1, Some(b), f) == Some(t));
                    if !(r is Pare) {
                        let d = destino(r, n + 1 + t.len(), Some(b), f);
                        assert forall|us: Seq<vm::Visto>| acaba(x, w, z, cod, d, f, #[trigger] (ps + us)) by {
                            assert(faz_em(x, w, a, s, z, cod, b, ini, fim, ps + us));
                            if r is Segue {
                                lema_jump(w, cod, d, ps + us, b, x);
                                lema_um(em(w, cod, d, ps + us), em(w, cod, b, ps + us), x);
                                lema_comeca(x, w, w, z, cod, d, b, f, ps + us);
                            }
                        }
                        lema_encadeia(x, y, w, z, cod, n + 1, d, f, ps);
                    }
                    lema_comeca(x, q, y, z, cod, b, n + 1, f, ps);
                } else {
                    lema_um(em(y, cod, n, ps.push(v)), em(y, cod, f, ps), x);
                    lema_junta(em(q, cod, b, ps), em(y, cod, n, ps.push(v)), em(y, cod, f, ps), x);
                    lema_acaba(x, q, z, cod, b, f, ps);
                }
            }
        }
    }
}

/// `var nome = e` guarda no nome o valor de `e`; uma expressao como instrucao so deixa o que ela mudou;
/// `pare` e `continue` saem pelos seus rumos; a linha de uma instrucao nao muda o que ela faz.
pub proof fn lei_instrucoes(
    x: Fora,
    q: maquina::QuadroVisto,
    nome: Seq<char>,
    e: ArvoreExpr,
    v: vm::Visto,
    y: maquina::QuadroVisto,
    linha: usize,
    contexto: Seq<char>,
    a: ArvoreInstr,
    r: Rumo,
    z: maquina::QuadroVisto,
)
    requires
        da(x, q, e, v, y),
        faz(x, q, a, r, z),
    ensures
        faz(
            x,
            q,
            ArvoreInstr::DeclararVar { nome, valor: Some(e) },
            Rumo::Segue,
            maquina::QuadroVisto { vars: vm::com_valor(y.vars, nome, v), ..y },
        ),
        faz(x, q, ArvoreInstr::Expressao(e), Rumo::Segue, y),
        faz(x, q, ArvoreInstr::Pare, Rumo::Pare, q),
        faz(x, q, ArvoreInstr::Continue, Rumo::Continue, q),
        faz(x, q, ArvoreInstr::Localizada { linha, contexto, instrucao: Box::new(a) }, r, z),
{
    let dv = ArvoreInstr::DeclararVar { nome, valor: Some(e) };
    let ex = ArvoreInstr::Expressao(e);
    let lo = ArvoreInstr::Localizada { linha, contexto, instrucao: Box::new(a) };
    let w = maquina::QuadroVisto { vars: vm::com_valor(y.vars, nome, v), ..y };
    assert forall|cod: Seq<Comando>, b: int, ini: Option<int>, fim: int, ps: Seq<vm::Visto>| #[trigger]
        faz_em(x, q, dv, Rumo::Segue, w, cod, b, ini, fim, ps) by {
        if let Some(c) = codigo::codigo_instr(dv, b, ini, fim) {
            if esta(cod, b, c) {
                let ce = codigo::codigo_expr(e, b)->Some_0;
                let n = b + ce.len();
                lema_esta_push(cod, b, ce, Comando::Store(nome));
                assert(da_em(x, q, e, v, y, cod, b, ps));
                lema_store(y, cod, n, ps, v, nome, x);
                lema_um(em(y, cod, n, ps.push(v)), em(w, cod, n + 1, ps), x);
                lema_junta(em(q, cod, b, ps), em(y, cod, n, ps.push(v)), em(w, cod, n + 1, ps), x);
                lema_acaba(x, q, w, cod, b, n + 1, ps);
            }
        }
    }
    assert forall|cod: Seq<Comando>, b: int, ini: Option<int>, fim: int, ps: Seq<vm::Visto>| #[trigger]
        faz_em(x, q, ex, Rumo::Segue, y, cod, b, ini, fim, ps) by {
        if let Some(c) = codigo::codigo_instr(ex, b, ini, fim) {
            if esta(cod, b, c) {
                let ce = codigo::codigo_expr(e, b)->Some_0;
                let n = b + ce.len();
                lema_esta_push(cod, b, ce, Comando::Pop);
                assert(da_em(x, q, e, v, y, cod, b, ps));
                lema_pop(y, cod, n, ps, v, x);
                lema_um(em(y, cod, n, ps.push(v)), em(y, cod, n + 1, ps), x);
                lema_junta(em(q, cod, b, ps), em(y, cod, n, ps.push(v)), em(y, cod, n + 1, ps), x);
                lema_acaba(x, q, y, cod, b, n + 1, ps);
            }
        }
    }
    assert forall|cod: Seq<Comando>, b: int, ini: Option<int>, fim: int, ps: Seq<vm::Visto>| #[trigger]
        faz_em(x, q, ArvoreInstr::Pare, Rumo::Pare, q, cod, b, ini, fim, ps) by {
        let c = seq![Comando::Jump(fim)];
        if esta(cod, b, c) {
            assert(cod[b + 0] == c[0]);
            lema_jump(q, cod, b, ps, fim, x);
            lema_um(em(q, cod, b, ps), em(q, cod, fim, ps), x);
            lema_acaba(x, q, q, cod, b, fim, ps);
        }
    }
    assert forall|cod: Seq<Comando>, b: int, ini: Option<int>, fim: int, ps: Seq<vm::Visto>| #[trigger]
        faz_em(x, q, ArvoreInstr::Continue, Rumo::Continue, q, cod, b, ini, fim, ps) by {
        if let Some(i) = ini {
            let c = seq![Comando::Jump(i)];
            if esta(cod, b, c) {
                assert(cod[b + 0] == c[0]);
                lema_jump(q, cod, b, ps, i, x);
                lema_um(em(q, cod, b, ps), em(q, cod, i, ps), x);
                lema_acaba(x, q, q, cod, b, i, ps);
            }
        }
    }
    assert forall|cod: Seq<Comando>, b: int, ini: Option<int>, fim: int, ps: Seq<vm::Visto>| #[trigger]
        faz_em(x, q, lo, r, z, cod, b, ini, fim, ps) by {
        assert(faz_em(x, q, a, r, z, cod, b, ini, fim, ps));
        assert(codigo::codigo_instr(lo, b, ini, fim) == codigo::codigo_instr(a, b, ini, fim));
    }
}

proof fn lema_return(q: maquina::QuadroVisto, cod: Seq<Comando>, ip: int, ps: Seq<vm::Visto>, v: vm::Visto, x: Fora)
    requires
        0 <= ip < cod.len(),
        cod[ip] == Comando::Return,
    ensures
        ({
            let r = em(q, cod, ip, ps.push(v));
            maquina::passo(cod[ip], maquina::QuadroVisto { ip: ip + 1, ..r }, x.globais) == maquina::EfeitoVisto::Acaba(
                em(q, cod, ip + 1, ps),
                Some(v),
            )
        }),
{
    reveal(maquina::passo);
    assert(ps.push(v).take(ps.len() as int) =~= ps);
}

/// `retornar e` corre o codigo de `e` e acaba com o valor dele.
pub proof fn lei_retornar(
    x: Fora,
    q: maquina::QuadroVisto,
    e: ArvoreExpr,
    v: vm::Visto,
    y: maquina::QuadroVisto,
    cod: Seq<Comando>,
    b: int,
    ini: Option<int>,
    fim: int,
    ps: Seq<vm::Visto>,
)
    requires
        da(x, q, e, v, y),
    ensures
        codigo::codigo_instr(ArvoreInstr::Retornar(Some(e)), b, ini, fim) matches Some(c) ==> esta(cod, b, c) ==> {
            let r = em(y, cod, b + c.len() - 1, ps.push(v));
            &&& chega(em(q, cod, b, ps), r, x)
            &&& 0 <= r.ip < cod.len()
            &&& maquina::passo(cod[r.ip], maquina::QuadroVisto { ip: r.ip + 1, ..r }, x.globais)
                == maquina::EfeitoVisto::Acaba(em(y, cod, b + c.len(), ps), Some(v))
        },
{
    let a = ArvoreInstr::Retornar(Some(e));
    if let Some(c) = codigo::codigo_instr(a, b, ini, fim) {
        if esta(cod, b, c) {
            let ce = codigo::codigo_expr(e, b)->Some_0;
            lema_esta_push(cod, b, ce, Comando::Return);
            assert(da_em(x, q, e, v, y, cod, b, ps));
            lema_return(y, cod, b + ce.len(), ps, v, x);
        }
    }
}

} // verus!
