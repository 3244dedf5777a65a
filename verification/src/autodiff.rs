//! A fita da diferenciacao automatica: que operacoes foram feitas e com que tensores.
//!
//! Cada numero de um gradiente e guardado pelos bits que o representam.

use vstd::prelude::*;
use crate::operacoes;
use crate::tensor;
use crate::tensor::dizer_dimensoes;
use crate::texto;
use crate::vm;
use crate::vm::{frase, mesmas_dimensoes, VmValor};

verus! {

/// Os bits do numero zero.
pub const ZERO: u64 = 0;

/// Os bits do numero um.
pub const UM: u64 = 0x3FF0_0000_0000_0000;

/// Uma operacao anotada: o tensor que produziu e aqueles de que se fez.
#[derive(Clone)]
pub struct Operacao {
    pub saida_id: usize,
    pub entradas_ids: Vec<usize>,
}

/// A fita, os gradientes e as formas dos tensores, que se numeram a partir de zero.
pub struct Estado {
    pub tape: Vec<Operacao>,
    pub grads: Vec<Vec<u64>>,
    pub shapes: Vec<Vec<usize>>,
    pub gravando: bool,
}

impl Estado {
    /// Ha um gradiente e uma forma para cada tensor.
    pub open spec fn bem_formado(&self) -> bool {
        self.grads@.len() == self.shapes@.len()
    }
}

/// O produto das dimensoes.
pub open spec fn produto(v: Seq<usize>) -> nat
    decreases v.len(),
{
    if v.len() == 0 {
        1
    } else {
        produto(v.drop_last()) * v.last() as nat
    }
}

/// Quantos numeros tem o gradiente de um tensor de forma dada: pelo menos um.
pub open spec fn tamanho(v: Seq<usize>) -> nat {
    if produto(v) == 0 {
        1
    } else {
        produto(v)
    }
}

/// `n` vezes o mesmo numero.
pub open spec fn repetido(n: nat, b: u64) -> Seq<u64> {
    Seq::new(n, |i: int| b)
}

/// Uma fita vazia, que nao grava.
pub fn estado_inicial() -> (r: Estado)
    ensures
        r.bem_formado(),
        r.tape@.len() == 0,
        r.grads@.len() == 0,
        !r.gravando,
{
    Estado { tape: Vec::new(), grads: Vec::new(), shapes: Vec::new(), gravando: false }
}

/// Passa a gravar.
pub fn ativar(e: &mut Estado)
    ensures
        final(e).gravando,
        final(e).tape == old(e).tape,
        final(e).grads == old(e).grads,
        final(e).shapes == old(e).shapes,
{
    e.gravando = true;
}

/// Deixa de gravar.
pub fn desativar(e: &mut Estado)
    ensures
        !final(e).gravando,
        final(e).tape == old(e).tape,
        final(e).grads == old(e).grads,
        final(e).shapes == old(e).shapes,
{
    e.gravando = false;
}

/// Se esta a gravar.
pub fn esta_gravando(e: &Estado) -> (r: bool)
    ensures
        r == e.gravando,
{
    e.gravando
}

/// Se nenhum produto parcial passa do que cabe.
pub open spec fn cabe(v: Seq<usize>) -> bool {
    forall|n: int| 0 <= n <= v.len() ==> produto(#[trigger] v.take(n)) <= usize::MAX
}

fn zeros(shape: &Vec<usize>) -> (r: Vec<u64>)
    requires
        cabe(shape@),
    ensures
        r@ == repetido(tamanho(shape@), ZERO),
{
    let mut n: usize = 1;
    assert(shape@.take(0) =~= Seq::<usize>::empty());
    for i in 0..shape.len()
        invariant
            cabe(shape@),
            n == produto(shape@.take(i as int)),
    {
        assert(shape@.take(i + 1).drop_last() =~= shape@.take(i as int));
        assert(shape@.take(i + 1).last() == shape@[i as int]);
        assert(produto(shape@.take(i + 1)) <= usize::MAX);
        n = n * shape[i];
    }
    assert(shape@.take(shape@.len() as int) =~= shape@);
    if n == 0 {
        n = 1;
    }
    encher(n, ZERO)
}

fn encher(n: usize, b: u64) -> (r: Vec<u64>)
    ensures
        r@ == repetido(n as nat, b),
{
    let mut r: Vec<u64> = Vec::new();
    for i in 0..n
        invariant
            r@ == repetido(i as nat, b),
    {
        r.push(b);
        assert(r@ =~= repetido((i + 1) as nat, b));
    }
    r
}

/// Um tensor novo, de gradiente zero.
pub fn novo_tensor(e: &mut Estado, shape: Vec<usize>) -> (id: usize)
    requires
        old(e).bem_formado(),
        cabe(shape@),
    ensures
        final(e).bem_formado(),
        id == old(e).grads@.len(),
        final(e).shapes@ == old(e).shapes@.push(shape),
        final(e).grads@.len() == id + 1,
        final(e).grads@.last()@ == repetido(tamanho(shape@), ZERO),
        final(e).grads@.drop_last() == old(e).grads@,
        final(e).tape == old(e).tape,
        final(e).gravando == old(e).gravando,
{
    let id = e.grads.len();
    let g = zeros(&shape);
    e.shapes.push(shape);
    e.grads.push(g);
    assert(e.grads@.drop_last() =~= old(e).grads@);
    id
}

/// Anota uma operacao, que produz um tensor novo.
pub fn registrar_op(e: &mut Estado, entradas_ids: Vec<usize>, shape_saida: Vec<usize>) -> (id: usize)
    requires
        old(e).bem_formado(),
        cabe(shape_saida@),
    ensures
        final(e).bem_formado(),
        id == old(e).grads@.len(),
        final(e).shapes@ == old(e).shapes@.push(shape_saida),
        final(e).grads@.len() == id + 1,
        final(e).grads@.last()@ == repetido(tamanho(shape_saida@), ZERO),
        final(e).grads@.drop_last() == old(e).grads@,
        final(e).tape@ == old(e).tape@.push(Operacao { saida_id: id, entradas_ids }),
        final(e).gravando == old(e).gravando,
{
    let id = novo_tensor(e, shape_saida);
    e.tape.push(Operacao { saida_id: id, entradas_ids });
    id
}

/// A forma e o gradiente de um tensor.
pub fn obter_grad(e: &Estado, id: usize) -> (r: Option<(&Vec<usize>, &Vec<u64>)>)
    requires
        e.bem_formado(),
    ensures
        match r {
            Some((s, g)) => id < e.grads@.len() && *s == e.shapes@[id as int] && *g == e.grads@[id as int],
            None => id >= e.grads@.len(),
        },
{
    if id < e.grads.len() {
        Some((&e.shapes[id], &e.grads[id]))
    } else {
        None
    }
}

/// Os gradientes, com o de um tensor trocado.
pub open spec fn com_grad(antes: Seq<Vec<u64>>, depois: Seq<Vec<u64>>, id: int, g: Seq<u64>) -> bool {
    depois.len() == antes.len() && depois[id]@ == g && forall|k: int|
        0 <= k < antes.len() && k != id ==> depois[k] == antes[k]
}

/// Poe a zero o gradiente de um tensor.
pub fn zerar_grad(e: &mut Estado, id: usize)
    requires
        old(e).bem_formado(),
    ensures
        final(e).bem_formado(),
        final(e).shapes == old(e).shapes,
        final(e).tape == old(e).tape,
        final(e).gravando == old(e).gravando,
        if id < old(e).grads@.len() {
            com_grad(old(e).grads@, final(e).grads@, id as int, repetido(old(e).grads@[id as int]@.len(), ZERO))
        } else {
            final(e).grads@ == old(e).grads@
        },
{
    if id < e.grads.len() {
        let n = e.grads[id].len();
        let z = encher(n, ZERO);
        e.grads.set(id, z);
    }
}

/// Poe a zero todos os gradientes.
pub fn zerar_todos(e: &mut Estado)
    requires
        old(e).bem_formado(),
    ensures
        final(e).bem_formado(),
        final(e).shapes == old(e).shapes,
        final(e).tape == old(e).tape,
        final(e).gravando == old(e).gravando,
        final(e).grads@.len() == old(e).grads@.len(),
        forall|k: int|
            0 <= k < old(e).grads@.len() ==> (#[trigger] final(e).grads@[k])@ == repetido(
                old(e).grads@[k]@.len(),
                ZERO,
            ),
{
    let mut i: usize = 0;
    while i < e.grads.len()
        invariant
            e.bem_formado(),
            e.shapes == old(e).shapes,
            e.tape == old(e).tape,
            e.gravando == old(e).gravando,
            e.grads@.len() == old(e).grads@.len(),
            forall|k: int|
                0 <= k < i && k < e.grads@.len() ==> (#[trigger] e.grads@[k])@ == repetido(
                    old(e).grads@[k]@.len(),
                    ZERO,
                ),
            forall|k: int| i <= k < e.grads@.len() ==> #[trigger] e.grads@[k] == old(e).grads@[k],
        decreases e.grads@.len() - i,
    {
        zerar_grad(e, i);
        i += 1;
    }
}

/// Esquece tudo e deixa de gravar.
pub fn limpar(e: &mut Estado)
    ensures
        final(e).bem_formado(),
        final(e).tape@.len() == 0,
        final(e).grads@.len() == 0,
        final(e).shapes@.len() == 0,
        !final(e).gravando,
{
    e.tape = Vec::new();
    e.grads = Vec::new();
    e.shapes = Vec::new();
    e.gravando = false;
}

/// A mensagem de um tensor que nao esta na fita.
pub open spec fn fora_da_fita(id: usize) -> Seq<char> {
    "grad_retropropagar: ID "@ + texto::decimal(id as nat) + " não encontrado na fita"@
}

/// Comeca a retropropagacao a partir de um tensor: o gradiente dele fica a um e devolve-se
/// a ordem por que as operacoes da fita se percorrem, da ultima para a primeira.
pub fn retropropagar(e: &mut Estado, id_loss: usize) -> (r: Result<Vec<usize>, String>)
    requires
        old(e).bem_formado(),
    ensures
        final(e).bem_formado(),
        final(e).shapes == old(e).shapes,
        final(e).tape == old(e).tape,
        final(e).gravando == old(e).gravando,
        match r {
            Ok(ordem) => {
                &&& id_loss < old(e).grads@.len()
                &&& com_grad(
                    old(e).grads@,
                    final(e).grads@,
                    id_loss as int,
                    repetido(old(e).grads@[id_loss as int]@.len(), UM),
                )
                &&& ordem@ == Seq::new(old(e).tape@.len(), |i: int| (old(e).tape@.len() - 1 - i) as usize)
            },
            Err(m) => id_loss >= old(e).grads@.len() && final(e).grads@ == old(e).grads@ && m@ == fora_da_fita(
                id_loss,
            ),
        },
{
    if id_loss >= e.grads.len() {
        let mut m = "grad_retropropagar: ID ".to_owned();
        let n = texto::natural(id_loss as u64);
        m.append(n.as_str());
        m.append(" não encontrado na fita");
        return Err(m);
    }
    let n = e.grads[id_loss].len();
    let u = encher(n, UM);
    e.grads.set(id_loss, u);
    let total = e.tape.len();
    let mut ordem: Vec<usize> = Vec::new();
    for i in 0..total
        invariant
            ordem@ == Seq::new(i as nat, |k: int| (total - 1 - k) as usize),
    {
        ordem.push(total - 1 - i);
        assert(ordem@ =~= Seq::new((i + 1) as nat, |k: int| (total - 1 - k) as usize));
    }
    assert(ordem@ =~= Seq::new(old(e).tape@.len(), |i: int| (old(e).tape@.len() - 1 - i) as usize));
    Ok(ordem)
}

/// Guarda o gradiente acumulado de um tensor; um de outro tamanho nao se guarda.
pub fn acumular(e: &mut Estado, id: usize, g: Vec<u64>)
    requires
        old(e).bem_formado(),
    ensures
        final(e).bem_formado(),
        final(e).shapes == old(e).shapes,
        final(e).tape == old(e).tape,
        final(e).gravando == old(e).gravando,
        if id < old(e).grads@.len() && g@.len() == old(e).grads@[id as int]@.len() {
            com_grad(old(e).grads@, final(e).grads@, id as int, g@)
        } else {
            final(e).grads@ == old(e).grads@
        },
{
    if id < e.grads.len() && g.len() == e.grads[id].len() {
        e.grads.set(id, g);
    }
}

// ---- As operacoes que se anotam ---------------------------------------------------------

/// O numero de um tensor: o que ele ja tem, ou o de uma folha nova.
pub fn folha(e: &mut Estado, v: &VmValor, ctx: &str) -> (r: Result<usize, String>)
    requires
        old(e).bem_formado(),
        match v@ {
            vm::Visto::Tensor { shape, .. } => cabe(shape),
            _ => true,
        },
    ensures
        final(e).bem_formado(),
        final(e).tape == old(e).tape,
        final(e).gravando == old(e).gravando,
        match v@ {
            vm::Visto::TensorGrad { id, .. } => r == Ok::<usize, String>(id) && *final(e) == *old(e),
            vm::Visto::Tensor { shape, .. } => {
                &&& r == Ok::<usize, String>(old(e).grads@.len() as usize)
                &&& final(e).grads@.len() == old(e).grads@.len() + 1
                &&& final(e).grads@.drop_last() == old(e).grads@
                &&& final(e).grads@.last()@ == repetido(tamanho(shape), ZERO)
                &&& final(e).shapes@.drop_last() == old(e).shapes@
                &&& final(e).shapes@.last()@ == shape
            },
            x => (r matches Err(m) && m@ == ctx@ + ": requer tensor ou tensor_grad, recebeu "@ + vm::texto_de(x))
                && *final(e) == *old(e),
        },
{
    match v {
        VmValor::TensorGrad { id, .. } => Ok(*id),
        VmValor::Tensor { shape, .. } => {
            let s = shape.clone();
            assert(s@ =~= shape@);
            let id = novo_tensor(e, s);
            assert(e.shapes@.drop_last() =~= old(e).shapes@);
            Ok(id)
        },
        _ => {
            let mut m = ctx.to_owned();
            m.append(": requer tensor ou tensor_grad, recebeu ");
            m.append(v.texto().as_str());
            Err(m)
        },
    }
}

/// Se uma operacao se faz com dois tensores.
pub open spec fn de_dois(nome: Seq<char>) -> bool {
    nome == "grad_soma"@ || nome == "grad_sub"@ || nome == "grad_mul"@ || nome == "grad_matmul"@
}

/// Se uma operacao se faz com um tensor.
pub open spec fn de_um(nome: Seq<char>) -> bool {
    nome == "grad_relu"@ || nome == "grad_sigmoid"@ || nome == "grad_tanh"@ || nome == "grad_exp"@ || nome == "grad_log"@
        || nome == "grad_neg"@ || nome == "grad_soma_total"@
}

/// A falha de quem recebe `n` argumentos; nenhuma se sao os certos.
pub open spec fn falha_de_quantos(nome: Seq<char>, n: nat) -> Option<Seq<char>> {
    if n == (if de_dois(nome) || nome == "grad_escalar_mul"@ {
        2nat
    } else {
        1nat
    }) {
        None
    } else if de_dois(nome) {
        Some(nome + ": requer 2 argumentos"@)
    } else if de_um(nome) {
        Some(nome + ": requer 1 argumento"@)
    } else if nome == "grad_escalar_mul"@ {
        Some("grad_escalar_mul(tensor_grad, escalar)"@)
    } else {
        Some("'"@ + nome + "' requer 1 argumento, recebeu "@ + texto::decimal(n))
    }
}

/// Confere quantos argumentos uma operacao recebe.
pub fn conferir_quantos(nome: &str, n: usize) -> (r: Result<(), String>)
    ensures
        match r {
            Ok(_) => falha_de_quantos(nome@, n as nat) is None,
            Err(m) => falha_de_quantos(nome@, n as nat) == Some(m@),
        },
{
    let dois = nome.eq("grad_soma") || nome.eq("grad_sub") || nome.eq("grad_mul") || nome.eq("grad_matmul");
    let escalar = nome.eq("grad_escalar_mul");
    let certos: usize = if dois || escalar {
        2
    } else {
        1
    };
    if n == certos {
        return Ok(());
    }
    let mut m = String::new();
    if dois {
        m.append(nome);
        m.append(": requer 2 argumentos");
        assert(m@ =~= nome@ + ": requer 2 argumentos"@);
    } else if nome.eq("grad_relu") || nome.eq("grad_sigmoid") || nome.eq("grad_tanh") || nome.eq("grad_exp") || nome.eq(
        "grad_log",
    ) || nome.eq("grad_neg") || nome.eq("grad_soma_total") {
        m.append(nome);
        m.append(": requer 1 argumento");
        assert(m@ =~= nome@ + ": requer 1 argumento"@);
    } else if escalar {
        m.append("grad_escalar_mul(tensor_grad, escalar)");
        assert(m@ =~= "grad_escalar_mul(tensor_grad, escalar)"@);
    } else {
        m = frase("'", nome, "' requer 1 argumento, recebeu ");
        m.append(texto::natural(n as u64).as_str());
    }
    Err(m)
}

/// O numero por que `grad_escalar_mul` multiplica.
pub fn ler_escalar(v: &VmValor) -> (r: Result<u64, String>)
    ensures
        match r {
            Ok(b) => operacoes::numero_de(v@) == Some(b),
            Err(m) => operacoes::numero_de(v@) is None && m@ == "grad_escalar_mul: "@ + operacoes::nao_e_numero(v@),
        },
{
    match operacoes::em_numero(v) {
        Some(b) => Ok(b),
        None => {
            let mut m = "grad_escalar_mul: ".to_owned();
            m.append(operacoes::dizer_nao_numero(v).as_str());
            Err(m)
        },
    }
}

/// A forma do que uma operacao de dois tensores produz, ou por que ela nao se faz.
pub open spec fn forma_de_dois(nome: Seq<char>, sa: Seq<usize>, sb: Seq<usize>) -> Result<Seq<usize>, Seq<char>> {
    if nome == "grad_matmul"@ {
        if sa.len() != 2 || sb.len() != 2 {
            Err(
                "grad_matmul: requer tensores 2D, recebeu "@ + tensor::dimensoes(sa) + " e "@ + tensor::dimensoes(sb),
            )
        } else if sa[1] != sb[0] {
            Err(
                "grad_matmul: dims incompatíveis "@ + texto::decimal(sa[0] as nat) + "x"@ + texto::decimal(sa[1] as nat)
                    + " @ "@ + texto::decimal(sb[0] as nat) + "x"@ + texto::decimal(sb[1] as nat),
            )
        } else {
            Ok(seq![sa[0], sb[1]])
        }
    } else if sa != sb {
        Err(nome + ": shapes incompatíveis "@ + tensor::dimensoes(sa) + " vs "@ + tensor::dimensoes(sb))
    } else {
        Ok(sa)
    }
}

/// A forma do que uma operacao de dois tensores produz.
pub fn conferir_dois(nome: &str, sa: &Vec<usize>, sb: &Vec<usize>) -> (r: Result<Vec<usize>, String>)
    ensures
        match r {
            Ok(s) => forma_de_dois(nome@, sa@, sb@) == Ok::<Seq<usize>, Seq<char>>(s@),
            Err(m) => forma_de_dois(nome@, sa@, sb@) == Err::<Seq<usize>, Seq<char>>(m@),
        },
{
    if nome.eq("grad_matmul") {
        if sa.len() != 2 || sb.len() != 2 {
            let x = dizer_dimensoes(sa);
            let mut m = frase("grad_matmul: requer tensores 2D, recebeu ", x.as_str(), " e ");
            m.append(dizer_dimensoes(sb).as_str());
            return Err(m);
        }
        if sa[1] != sb[0] {
            let x = texto::natural(sa[0] as u64);
            let mut m = frase("grad_matmul: dims incompatíveis ", x.as_str(), "x");
            m.append(texto::natural(sa[1] as u64).as_str());
            m.append(" @ ");
            m.append(texto::natural(sb[0] as u64).as_str());
            m.append("x");
            m.append(texto::natural(sb[1] as u64).as_str());
            return Err(m);
        }
        let mut s: Vec<usize> = Vec::new();
        s.push(sa[0]);
        s.push(sb[1]);
        assert(s@ =~= seq![sa@[0], sb@[1]]);
        return Ok(s);
    }
    if !mesmas_dimensoes(sa, sb) {
        let x = dizer_dimensoes(sa);
        let mut m = frase(nome, ": shapes incompatíveis ", x.as_str());
        m.append(" vs ");
        m.append(dizer_dimensoes(sb).as_str());
        return Err(m);
    }
    let s = sa.clone();
    assert(s@ =~= sa@);
    Ok(s)
}

/// O tensor que uma operacao produz: anotado na fita se ela grava, e senao uma folha.
pub fn produzir(e: &mut Estado, entradas_ids: Vec<usize>, shape: Vec<usize>) -> (id: usize)
    requires
        old(e).bem_formado(),
        cabe(shape@),
    ensures
        final(e).bem_formado(),
        id == old(e).grads@.len(),
        final(e).shapes@ == old(e).shapes@.push(shape),
        final(e).grads@.len() == id + 1,
        final(e).grads@.last()@ == repetido(tamanho(shape@), ZERO),
        final(e).grads@.drop_last() == old(e).grads@,
        final(e).tape@ == (if old(e).gravando {
            old(e).tape@.push(Operacao { saida_id: id, entradas_ids })
        } else {
            old(e).tape@
        }),
        final(e).gravando == old(e).gravando,
{
    if e.gravando {
        registrar_op(e, entradas_ids, shape)
    } else {
        novo_tensor(e, shape)
    }
}

/// As operacoes anotadas produzem tensores cada vez mais novos, e so usam os que ja havia.
pub open spec fn em_ordem(t: Seq<Operacao>) -> bool {
    &&& forall|i: int, k: int| 0 <= i < k < t.len() ==> (#[trigger] t[i]).saida_id < (#[trigger] t[k]).saida_id
    &&& forall|i: int, j: int|
        0 <= i < t.len() && 0 <= j < t[i].entradas_ids@.len() ==> #[trigger] t[i].entradas_ids@[j] < t[i].saida_id
}

/// Anotar uma operacao sobre tensores que ja havia mantem a fita em ordem; e numa fita em ordem
/// nenhuma operacao usa o que uma posterior produz, de modo que da ultima para a primeira cada
/// tensor so se percorre depois de todas as operacoes que o usam.
pub proof fn lei_fita(t: Seq<Operacao>, op: Operacao, n: usize)
    requires
        em_ordem(t),
        forall|i: int| 0 <= i < t.len() ==> (#[trigger] t[i]).saida_id < n,
        op.saida_id == n,
        forall|j: int| 0 <= j < op.entradas_ids@.len() ==> #[trigger] op.entradas_ids@[j] < n,
    ensures
        em_ordem(t.push(op)),
        forall|i: int, k: int, j: int|
            0 <= i <= k < t.push(op).len() && 0 <= j < t.push(op)[i].entradas_ids@.len()
                ==> #[trigger] t.push(op)[i].entradas_ids@[j] != (#[trigger] t.push(op)[k]).saida_id,
{
    let u = t.push(op);
    assert forall|i: int, k: int, j: int|
        0 <= i <= k < u.len() && 0 <= j < u[i].entradas_ids@.len() implies #[trigger] u[i].entradas_ids@[j] != (
    #[trigger] u[k]).saida_id by {
        assert(u[i].entradas_ids@[j] < u[i].saida_id);
        assert(i < k ==> u[i].saida_id < u[k].saida_id);
    }
}

} // verus!
