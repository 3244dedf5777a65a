//! As operacoes com tensores: dimensoes, indices e a disposicao dos numeros. As contas com os
//! numeros sao pedidas a quem faz a maquina andar.

use vstd::prelude::*;
use crate::bytecode::Op;
use crate::bytecode;
use crate::decimal::Decimal;
use crate::decimal;
use crate::operacoes::{dizer_nao_numero, em_numero, Pedido, Saida};
use crate::operacoes;
use crate::texto;
use crate::vm::{copiar_shape, frase, mesmas_dimensoes, VmValor};
use crate::vm;

verus! {

/// Uma conta com tensores.
#[derive(Debug, Clone, Copy, PartialEq, Eq, Structural)]
pub enum OpTensor {
    MatMul,
    ReLU,
    Sigmoid,
    Softmax,
    Tanh,
    Soma,
    Sub,
    Mul,
    Div,
    Pow,
    Neg,
    Exp,
    Log,
    Sqrt,
    SomaTotal,
    MediaTotal,
    MaxTotal,
    MinTotal,
    SomaEixo,
    MediaEixo,
    MaxEixo,
    MinEixo,
}

/// O que os numeros de uma conta passam a ser.
#[derive(Debug, Clone, Copy, PartialEq, Eq, Structural)]
pub enum Feitio {
    /// Um tensor com as dimensoes do pedido.
    Tensor,
    /// O primeiro deles.
    Numero,
}

/// Uma conta pedida: o que os numeros que saem passam a ser e com que dimensoes, a dimensao comum
/// de um produto, se a segunda entrada e um so numero, e os numeros que entram. Nas contas por eixo
/// cada entrada e o grupo dos numeros que se juntam num numero do resultado, e a dimensao comum e a
/// do eixo.
#[derive(Debug)]
pub struct PedidoTensor {
    pub op: OpTensor,
    pub feitio: Feitio,
    pub shape: Vec<usize>,
    pub interno: usize,
    pub escalar: bool,
    pub entradas: Vec<Vec<Decimal>>,
}

/// O que um pedido representa.
#[verifier::ext_equal]
pub ghost struct PedidoTensorVisto {
    pub op: OpTensor,
    pub feitio: Feitio,
    pub shape: Seq<usize>,
    pub interno: int,
    pub escalar: bool,
    pub entradas: Seq<Seq<(u64, Seq<char>)>>,
}

/// O que varias listas de numeros representam.
pub open spec fn grupos_vistos(v: Seq<Vec<Decimal>>) -> Seq<Seq<(u64, Seq<char>)>> {
    v.map_values(|d: Vec<Decimal>| vm::numeros(d@))
}

impl PedidoTensor {
    pub open spec fn view(&self) -> PedidoTensorVisto {
        PedidoTensorVisto {
            op: self.op,
            feitio: self.feitio,
            shape: self.shape@,
            interno: self.interno as int,
            escalar: self.escalar,
            entradas: grupos_vistos(self.entradas@),
        }
    }
}

/// Um tensor visto: as dimensoes e os numeros.
pub type TensorVisto = (Seq<usize>, Seq<(u64, Seq<char>)>);

/// O tensor de um valor, com gradiente ou sem ele.
pub open spec fn tensor_de(v: vm::Visto) -> Option<TensorVisto> {
    match v {
        vm::Visto::Tensor { shape, dados, .. } => Some((shape, dados)),
        vm::Visto::TensorGrad { shape, dados, .. } => Some((shape, dados)),
        _ => None,
    }
}

/// A marca de um tensor, com gradiente ou sem ele.
pub open spec fn marca_de(v: vm::Visto) -> u64 {
    match v {
        vm::Visto::Tensor { marca, .. } => marca,
        vm::Visto::TensorGrad { marca, .. } => marca,
        _ => 0,
    }
}

/// A falha de um valor que nao e tensor.
pub open spec fn requer_tensor(ctx: Seq<char>, v: vm::Visto) -> operacoes::SaidaVista {
    operacoes::SaidaVista::Falha(ctx + ": requer tensor, recebeu "@ + vm::texto_de(v))
}

fn recusar(ctx: &str, v: &VmValor) -> (r: Saida)
    ensures
        r@ == requer_tensor(ctx@, v@),
{
    let t = v.texto();
    Saida::Falha(frase(ctx, ": requer tensor, recebeu ", t.as_str()))
}

/// Uma conta com uma entrada.
pub open spec fn conta_de_um(
    op: OpTensor,
    feitio: Feitio,
    shape: Seq<usize>,
    dados: Seq<(u64, Seq<char>)>,
) -> PedidoTensorVisto {
    PedidoTensorVisto { op, feitio, shape, interno: 0, escalar: false, entradas: seq![dados] }
}

/// Uma conta com duas entradas, de que sai um tensor.
pub open spec fn conta_de_dois(
    op: OpTensor,
    shape: Seq<usize>,
    interno: int,
    escalar: bool,
    a: Seq<(u64, Seq<char>)>,
    b: Seq<(u64, Seq<char>)>,
) -> PedidoTensorVisto {
    PedidoTensorVisto { op, feitio: Feitio::Tensor, shape, interno, escalar, entradas: seq![a, b] }
}

/// Um pedido de uma conta com uma entrada.
pub open spec fn pede_um(
    op: OpTensor,
    feitio: Feitio,
    shape: Seq<usize>,
    dados: Seq<(u64, Seq<char>)>,
) -> operacoes::SaidaVista {
    operacoes::SaidaVista::Pede(operacoes::PedidoVisto::Tensor(conta_de_um(op, feitio, shape, dados)))
}

/// Um pedido de uma conta com duas entradas.
pub open spec fn pede_dois(
    op: OpTensor,
    shape: Seq<usize>,
    interno: int,
    escalar: bool,
    a: Seq<(u64, Seq<char>)>,
    b: Seq<(u64, Seq<char>)>,
) -> operacoes::SaidaVista {
    operacoes::SaidaVista::Pede(
        operacoes::PedidoVisto::Tensor(conta_de_dois(op, shape, interno, escalar, a, b)),
    )
}

pub(crate) fn contar_um(op: OpTensor, feitio: Feitio, shape: Vec<usize>, dados: Vec<Decimal>) -> (r: PedidoTensor)
    ensures
        r@ == conta_de_um(op, feitio, shape@, vm::numeros(dados@)),
{
    let ghost d = vm::numeros(dados@);
    let mut entradas: Vec<Vec<Decimal>> = Vec::new();
    entradas.push(dados);
    assert(grupos_vistos(entradas@) =~= seq![d]);
    PedidoTensor { op, feitio, shape, interno: 0, escalar: false, entradas }
}

pub(crate) fn contar_dois(
    op: OpTensor,
    shape: Vec<usize>,
    interno: usize,
    escalar: bool,
    a: Vec<Decimal>,
    b: Vec<Decimal>,
) -> (r: PedidoTensor)
    ensures
        r@ == conta_de_dois(op, shape@, interno as int, escalar, vm::numeros(a@), vm::numeros(b@)),
{
    let ghost da = vm::numeros(a@);
    let ghost db = vm::numeros(b@);
    let mut entradas: Vec<Vec<Decimal>> = Vec::new();
    entradas.push(a);
    entradas.push(b);
    assert(grupos_vistos(entradas@) =~= seq![da, db]);
    PedidoTensor { op, feitio: Feitio::Tensor, shape, interno, escalar, entradas }
}

fn pedir_um(op: OpTensor, feitio: Feitio, shape: Vec<usize>, dados: Vec<Decimal>) -> (r: Saida)
    ensures
        r@ == pede_um(op, feitio, shape@, vm::numeros(dados@)),
{
    Saida::Pede(Pedido::Tensor(contar_um(op, feitio, shape, dados)))
}

fn pedir_dois(
    op: OpTensor,
    shape: Vec<usize>,
    interno: usize,
    escalar: bool,
    a: Vec<Decimal>,
    b: Vec<Decimal>,
) -> (r: Saida)
    ensures
        r@ == pede_dois(op, shape@, interno as int, escalar, vm::numeros(a@), vm::numeros(b@)),
{
    Saida::Pede(Pedido::Tensor(contar_dois(op, shape, interno, escalar, a, b)))
}

/// O valor de uma conta, com os numeros que dela sairam; nenhum se faltam.
pub open spec fn valor_da_conta(p: PedidoTensorVisto, d: Seq<(u64, Seq<char>)>) -> Option<vm::Visto> {
    match p.feitio {
        Feitio::Tensor => Some(vm::Visto::Tensor { shape: p.shape, dados: d, marca: 0 }),
        Feitio::Numero => if d.len() == 0 {
            None
        } else {
            Some(vm::Visto::Num(d[0].0, d[0].1))
        },
    }
}

/// O valor de uma conta, com os numeros que dela sairam.
pub fn concluir(p: PedidoTensor, dados: Vec<Decimal>) -> (r: Option<VmValor>)
    ensures
        match r {
            Some(v) => valor_da_conta(p@, vm::numeros(dados@)) == Some(v@),
            None => valor_da_conta(p@, vm::numeros(dados@)) is None,
        },
{
    assert(vm::numeros(dados@).len() == dados@.len());
    match p.feitio {
        Feitio::Tensor => Some(VmValor::Tensor { shape: p.shape, dados, marca: 0 }),
        Feitio::Numero => if dados.len() == 0 {
            None
        } else {
            assert(vm::numeros(dados@)[0] == (dados@[0].bits, dados@[0].texto@));
            Some(VmValor::Num(dados[0].clone()))
        },
    }
}

// ---- Contas numero a numero -------------------------------------------------------------

/// Uma conta em cada numero.
pub open spec fn mapeado(op: OpTensor, ctx: Seq<char>, t: vm::Visto) -> operacoes::SaidaVista {
    match tensor_de(t) {
        Some((shape, dados)) => pede_um(op, Feitio::Tensor, shape, dados),
        None => requer_tensor(ctx, t),
    }
}

/// Uma conta em cada numero.
pub fn vm_tensor_map(t: VmValor, op: OpTensor, ctx: &str) -> (r: Saida)
    ensures
        r@ == mapeado(op, ctx@, t@),
{
    match t {
        VmValor::Tensor { shape, dados, .. } => pedir_um(op, Feitio::Tensor, shape, dados),
        VmValor::TensorGrad { shape, dados, .. } => pedir_um(op, Feitio::Tensor, shape, dados),
        _ => recusar(ctx, &t),
    }
}

/// A lista das dimensoes, como se mostra numa falha.
pub open spec fn dimensoes(s: Seq<usize>) -> Seq<char> {
    "["@ + crate::busca::juntos(s.map_values(|d: usize| texto::decimal(d as nat)), ", "@) + "]"@
}

pub(crate) fn dizer_dimensoes(v: &Vec<usize>) -> (r: String)
    ensures
        r@ == dimensoes(v@),
{
    let mut ts: Vec<String> = Vec::new();
    let mut i: usize = 0;
    while i < v.len()
        invariant
            i <= v@.len(),
            ts@.len() == i,
            forall|k: int| 0 <= k < i ==> (#[trigger] ts@[k])@ == texto::decimal(v@[k] as nat),
        decreases v@.len() - i,
    {
        ts.push(texto::natural(v[i] as u64));
        i += 1;
    }
    assert(texto::textos(ts@) =~= v@.map_values(|d: usize| texto::decimal(d as nat)));
    let j = crate::busca::juntar(&ts, ", ");
    frase("[", j.as_str(), "]")
}

/// Um numero tantas vezes quantas as dadas.
pub open spec fn repetido(x: (u64, Seq<char>), n: nat) -> Seq<(u64, Seq<char>)> {
    Seq::new(n, |i: int| x)
}

pub(crate) fn repetir(d: &Decimal, n: usize) -> (r: Vec<Decimal>)
    ensures
        vm::numeros(r@) == repetido((d.bits, d.texto@), n as nat),
{
    let mut v: Vec<Decimal> = Vec::new();
    let mut i: usize = 0;
    while i < n
        invariant
            i <= n,
            vm::numeros(v@) =~= repetido((d.bits, d.texto@), i as nat),
        decreases n - i,
    {
        let ghost antes = v@;
        v.push(Decimal { bits: d.bits, texto: d.texto.clone() });
        assert(vm::numeros(v@) =~= vm::numeros(antes).push((d.bits, d.texto@)));
        i += 1;
    }
    v
}

/// Uma conta entre dois tensores das mesmas dimensoes, ou entre um tensor e um numero. O primeiro
/// operando entra primeiro; um numero que venha antes do tensor repete-se para cada numero dele.
pub open spec fn elemento_a_elemento(op: OpTensor, ctx: Seq<char>, a: vm::Visto, b: vm::Visto) -> operacoes::SaidaVista {
    match (tensor_de(a), tensor_de(b)) {
        (Some((sa, da)), Some((sb, db))) => if sa != sb {
            operacoes::SaidaVista::Falha(
                ctx + ": shapes incompatíveis "@ + dimensoes(sa) + " vs "@ + dimensoes(sb),
            )
        } else {
            pede_dois(op, sa, 0, false, da, db)
        },
        (None, Some((sb, db))) if a is Num => pede_dois(
            op,
            sb,
            0,
            false,
            repetido((a->Num_0, a->Num_1), db.len()),
            db,
        ),
        (Some((sa, da)), None) if b is Num => pede_dois(op, sa, 0, true, da, seq![(b->Num_0, b->Num_1)]),
        _ => operacoes::SaidaVista::Falha(
            ctx + ": tipos incompatíveis "@ + operacoes::frase_de_dois(Seq::empty(), a, " e "@, b),
        ),
    }
}

/// O tensor de um valor, ou o proprio valor.
fn separar_tensor(v: VmValor) -> (r: Result<(Vec<usize>, Vec<Decimal>), VmValor>)
    ensures
        match r {
            Ok((s, d)) => tensor_de(v@) == Some((s@, vm::numeros(d@))),
            Err(w) => w@ == v@ && tensor_de(v@) is None,
        },
{
    match v {
        VmValor::Tensor { shape, dados, .. } => Ok((shape, dados)),
        VmValor::TensorGrad { shape, dados, .. } => Ok((shape, dados)),
        _ => Err(v),
    }
}

fn so_um(d: Decimal) -> (r: Vec<Decimal>)
    ensures
        vm::numeros(r@) == seq![(d.bits, d.texto@)],
{
    let ghost x = (d.bits, d.texto@);
    let mut v: Vec<Decimal> = Vec::new();
    v.push(d);
    assert(vm::numeros(v@) =~= seq![x]);
    v
}

fn eh_tensor(v: &VmValor) -> (r: bool)
    ensures
        r == tensor_de(v@) is Some,
{
    match v {
        VmValor::Tensor { .. } => true,
        VmValor::TensorGrad { .. } => true,
        _ => false,
    }
}

fn numero(v: VmValor) -> (r: Option<Decimal>)
    ensures
        match r {
            Some(d) => v@ == vm::Visto::Num(d.bits, d.texto@),
            None => !(v@ is Num),
        },
{
    match v {
        VmValor::Num(d) => Some(d),
        _ => None,
    }
}

fn eh_numero(v: &VmValor) -> (r: bool)
    ensures
        r == v@ is Num,
{
    match v {
        VmValor::Num(_) => true,
        _ => false,
    }
}

/// Uma conta entre dois tensores, ou entre um tensor e um numero.
pub fn vm_tensor_binop(a: VmValor, b: VmValor, op: OpTensor, ctx: &str) -> (r: Saida)
    ensures
        r@ == elemento_a_elemento(op, ctx@, a@, b@),
{
    let ta = eh_tensor(&a);
    let tb = eh_tensor(&b);
    if ta && tb {
        if let (Ok((sa, da)), Ok((sb, db))) = (separar_tensor(a), separar_tensor(b)) {
            if !mesmas_dimensoes(&sa, &sb) {
                let x = dizer_dimensoes(&sa);
                let y = dizer_dimensoes(&sb);
                let mut s = frase(ctx, ": shapes incompatíveis ", x.as_str());
                s.append(" vs ");
                s.append(y.as_str());
                return Saida::Falha(s);
            }
            return pedir_dois(op, sa, 0, false, da, db);
        }
        return Saida::Panico;
    }
    if ta && eh_numero(&b) {
        if let (Ok((sa, da)), Some(d)) = (separar_tensor(a), numero(b)) {
            return pedir_dois(op, sa, 0, true, da, so_um(d));
        }
        return Saida::Panico;
    }
    if tb && eh_numero(&a) {
        if let (Ok((sb, db)), Some(d)) = (separar_tensor(b), numero(a)) {
            assert(vm::numeros(db@).len() == db@.len());
            let da = repetir(&d, db.len());
            return pedir_dois(op, sb, 0, false, da, db);
        }
        return Saida::Panico;
    }
    let mut s = ctx.to_owned();
    s.append(": tipos incompatíveis ");
    let vazio = String::new();
    assert(vazio@ =~= Seq::<char>::empty());
    s.append(operacoes::dizer_dois(vazio.as_str(), &a, " e ", &b).as_str());
    Saida::Falha(s)
}

/// A falha de um expoente que nao e numero.
pub open spec fn expoente_invalido(v: vm::Visto) -> operacoes::SaidaVista {
    operacoes::SaidaVista::Falha("tensor_potencia: expoente deve ser número — "@ + operacoes::nao_e_numero(v))
}

fn recusar_expoente(v: &VmValor) -> (r: Saida)
    ensures
        r@ == expoente_invalido(v@),
{
    let mut s = "tensor_potencia: expoente deve ser número — ".to_owned();
    s.append(dizer_nao_numero(v).as_str());
    Saida::Falha(s)
}

/// Uma potencia de cada numero.
pub open spec fn potencia(a: vm::Visto, b: vm::Visto) -> operacoes::SaidaVista {
    match operacoes::numero_de(b) {
        None => expoente_invalido(b),
        Some(e) => match tensor_de(a) {
            Some((shape, dados)) => pede_dois(OpTensor::Pow, shape, 0, true, dados, seq![(e, vm::texto_de(b))]),
            None => requer_tensor("tensor_potencia"@, a),
        },
    }
}

fn elevar(a: VmValor, b: VmValor) -> (r: Saida)
    ensures
        r@ == potencia(a@, b@),
{
    match em_numero(&b) {
        None => recusar_expoente(&b),
        Some(e) => {
            let d = Decimal { bits: e, texto: b.texto() };
            match separar_tensor(a) {
                Ok((shape, dados)) => pedir_dois(OpTensor::Pow, shape, 0, true, dados, so_um(d)),
                Err(a) => recusar("tensor_potencia", &a),
            }
        },
    }
}

/// O produto de matrizes.
pub open spec fn produto_matrizes(a: vm::Visto, b: vm::Visto) -> operacoes::SaidaVista {
    match (tensor_de(a), tensor_de(b)) {
        (None, _) => requer_tensor("tensor_matmul"@, a),
        (_, None) => requer_tensor("tensor_matmul"@, b),
        (Some((sa, da)), Some((sb, db))) => if sa.len() != 2 || sb.len() != 2 {
            operacoes::SaidaVista::Falha("tensor_matmul: requer tensores 2D"@)
        } else if sa[1] != sb[0] {
            operacoes::SaidaVista::Falha(
                "tensor_matmul: shapes incompatíveis "@ + texto::decimal(sa[0] as nat) + "x"@ + texto::decimal(
                    sa[1] as nat,
                ) + " · "@ + texto::decimal(sb[0] as nat) + "x"@ + texto::decimal(sb[1] as nat),
            )
        } else {
            pede_dois(OpTensor::MatMul, seq![sa[0], sb[1]], sa[1] as int, false, da, db)
        },
    }
}

pub(crate) fn dois_tamanhos(a: usize, b: usize) -> (r: Vec<usize>)
    ensures
        r@ == seq![a, b],
{
    let mut v: Vec<usize> = Vec::new();
    v.push(a);
    v.push(b);
    assert(v@ =~= seq![a, b]);
    v
}

/// Multiplica duas matrizes.
pub fn vm_tensor_matmul(a: VmValor, b: VmValor) -> (r: Saida)
    ensures
        r@ == produto_matrizes(a@, b@),
{
    let (sa, da) = match separar_tensor(a) {
        Ok(t) => t,
        Err(a) => return recusar("tensor_matmul", &a),
    };
    let (sb, db) = match separar_tensor(b) {
        Ok(t) => t,
        Err(b) => return recusar("tensor_matmul", &b),
    };
    if sa.len() != 2 || sb.len() != 2 {
        return Saida::Falha("tensor_matmul: requer tensores 2D".to_owned());
    }
    if sa[1] != sb[0] {
        let n0 = texto::natural(sa[0] as u64);
        let n1 = texto::natural(sa[1] as u64);
        let n2 = texto::natural(sb[0] as u64);
        let n3 = texto::natural(sb[1] as u64);
        let mut s = frase("tensor_matmul: shapes incompatíveis ", n0.as_str(), "x");
        s.append(n1.as_str());
        s.append(" · ");
        s.append(n2.as_str());
        s.append("x");
        s.append(n3.as_str());
        return Saida::Falha(s);
    }
    pedir_dois(OpTensor::MatMul, dois_tamanhos(sa[0], sb[1]), sa[1], false, da, db)
}

// ---- Produtos de dimensoes --------------------------------------------------------------

/// O produto das primeiras `n` dimensoes, se cabe a cada passo.
pub open spec fn produto_ate(s: Seq<usize>, n: int) -> Option<int>
    decreases n,
{
    if n <= 0 || n > s.len() {
        Some(1)
    } else {
        match produto_ate(s, n - 1) {
            None => None,
            Some(p) => if p * s[n - 1] > usize::MAX {
                None
            } else {
                Some(p * s[n - 1])
            },
        }
    }
}

/// O produto das dimensoes.
pub open spec fn produto(s: Seq<usize>) -> Option<int> {
    produto_ate(s, s.len() as int)
}

proof fn lema_produto_ate(s: Seq<usize>, n: int)
    ensures
        produto_ate(s, n) matches Some(p) ==> 0 <= p <= usize::MAX,
    decreases n,
{
    if n > 0 && n <= s.len() {
        lema_produto_ate(s, n - 1);
        if let Some(p) = produto_ate(s, n - 1) {
            let x = s[n - 1] as int;
            assert(p * x >= 0) by (nonlinear_arith)
                requires
                    p >= 0,
                    x >= 0,
            ;
        }
    }
}

/// Multiplica as dimensoes.
pub(crate) fn multiplicar(s: &[usize]) -> (r: Option<usize>)
    ensures
        match r {
            Some(p) => produto(s@) == Some(p as int),
            None => produto(s@) is None,
        },
{
    let mut p: usize = 1;
    let mut i: usize = 0;
    while i < s.len()
        invariant
            i <= s@.len(),
            produto_ate(s@, i as int) == Some(p as int),
        decreases s@.len() - i,
    {
        proof {
            assert((p as u128) * (s@[i as int] as u128) <= u64::MAX as u128 * u64::MAX as u128) by (nonlinear_arith)
                requires
                    p <= u64::MAX,
                    s@[i as int] <= u64::MAX,
            ;
            assert(u64::MAX as u128 * u64::MAX as u128 <= u128::MAX) by (nonlinear_arith);
        }
        let q: u128 = (p as u128) * (s[i] as u128);
        if q > usize::MAX as u128 {
            proof {
                lema_produto_vazio(s@, i + 1);
            }
            return None;
        }
        p = q as usize;
        i += 1;
    }
    Some(p)
}

/// Se o produto ja nao cabe, continua sem caber.
proof fn lema_produto_vazio(s: Seq<usize>, n: int)
    requires
        0 <= n <= s.len(),
        produto_ate(s, n) is None,
    ensures
        produto(s) is None,
    decreases s.len() - n,
{
    if n < s.len() {
        lema_produto_vazio(s, n + 1);
    }
}

// ---- Transposicao -----------------------------------------------------------------------

/// Os numeros de uma matriz, coluna a coluna.
pub open spec fn por_colunas<T>(d: Seq<T>, nlin: int, ncol: int) -> Seq<T> {
    Seq::new((nlin * ncol) as nat, |p: int| d[(p % nlin) * ncol + p / nlin])
}

/// A matriz transposta.
pub open spec fn transposto(t: vm::Visto) -> operacoes::SaidaVista {
    match tensor_de(t) {
        None => requer_tensor("tensor_transpor"@, t),
        Some((s, d)) => if s.len() != 2 {
            operacoes::SaidaVista::Falha("tensor_transpor: requer tensor 2D"@)
        } else if s[0] * s[1] > usize::MAX || d.len() < s[0] * s[1] {
            operacoes::SaidaVista::Panico
        } else {
            operacoes::SaidaVista::Valor(
                vm::Visto::Tensor {
                    shape: seq![s[1], s[0]],
                    dados: por_colunas(d, s[0] as int, s[1] as int),
                    marca: 0,
                },
            )
        },
    }
}

pub proof fn lema_celula(i: int, j: int, n: int, m: int)
    requires
        0 <= i < n,
        0 <= j < m,
    ensures
        0 <= i * m + j < n * m,
        (i * m + j) / m == i,
        (i * m + j) % m == j,
{
    assert(0 <= i * m + j < n * m) by (nonlinear_arith)
        requires
            0 <= i < n,
            0 <= j < m,
    ;
    vstd::arithmetic::div_mod::lemma_fundamental_div_mod_converse(i * m + j, m, i, j);
}

/// Transpor duas vezes da a mesma matriz.
pub proof fn lei_transpor<T>(d: Seq<T>, nlin: int, ncol: int)
    requires
        nlin >= 0,
        ncol >= 0,
        d.len() == nlin * ncol,
    ensures
        por_colunas(por_colunas(d, nlin, ncol), ncol, nlin) == d,
{
    let u = por_colunas(d, nlin, ncol);
    let w = por_colunas(u, ncol, nlin);
    assert(nlin * ncol == ncol * nlin) by (nonlinear_arith);
    assert(nlin * ncol >= 0) by (nonlinear_arith)
        requires
            nlin >= 0,
            ncol >= 0,
    ;
    assert forall|p: int| 0 <= p < d.len() implies w[p] == d[p] by {
        assert(ncol > 0 && nlin > 0) by (nonlinear_arith)
            requires
                0 <= p < nlin * ncol,
                nlin >= 0,
                ncol >= 0,
        ;
        let i = p / ncol;
        let j = p % ncol;
        vstd::arithmetic::div_mod::lemma_fundamental_div_mod(p, ncol);
        assert(ncol * i == i * ncol) by (nonlinear_arith);
        assert(0 <= i < nlin) by (nonlinear_arith)
            requires
                0 <= p < nlin * ncol,
                p == i * ncol + j,
                0 <= j < ncol,
                ncol > 0,
        ;
        lema_celula(j, i, ncol, nlin);
        lema_celula(i, j, nlin, ncol);
        assert(w[p] == u[j * nlin + i]);
        assert(u[j * nlin + i] == d[i * ncol + j]);
    }
    assert(w =~= d);
}

/// Transpoe uma matriz.
pub fn vm_tensor_transpor(t: VmValor) -> (r: Saida)
    ensures
        r@ == transposto(t@),
{
    let (s, d) = match separar_tensor(t) {
        Ok(x) => x,
        Err(t) => return recusar("tensor_transpor", &t),
    };
    if s.len() != 2 {
        return Saida::Falha("tensor_transpor: requer tensor 2D".to_owned());
    }
    let nlin = s[0];
    let ncol = s[1];
    proof {
        assert((nlin as u128) * (ncol as u128) <= u64::MAX as u128 * u64::MAX as u128) by (nonlinear_arith)
            requires
                nlin <= u64::MAX,
                ncol <= u64::MAX,
        ;
        assert(u64::MAX as u128 * u64::MAX as u128 <= u128::MAX) by (nonlinear_arith);
    }
    let total: u128 = (nlin as u128) * (ncol as u128);
    if total > usize::MAX as u128 || (d.len() as u128) < total {
        return Saida::Panico;
    }
    let ghost ds = vm::numeros(d@);
    let ghost esperado = por_colunas(ds, nlin as int, ncol as int);
    let mut out: Vec<Decimal> = Vec::new();
    let mut j: usize = 0;
    assert(0 * nlin == 0) by (nonlinear_arith);
    while j < ncol
        invariant
            j <= ncol,
            total == nlin * ncol,
            total <= usize::MAX,
            d@.len() >= total,
            ds == vm::numeros(d@),
            esperado == por_colunas(ds, nlin as int, ncol as int),
            out@.len() == j * nlin,
            forall|p: int| 0 <= p < j * nlin ==> vm::numeros(out@)[p] == #[trigger] esperado[p],
        decreases ncol - j,
    {
        let mut i: usize = 0;
        while i < nlin
            invariant
                i <= nlin,
                j < ncol,
                total == nlin * ncol,
                total <= usize::MAX,
                d@.len() >= total,
                ds == vm::numeros(d@),
                esperado == por_colunas(ds, nlin as int, ncol as int),
                out@.len() == j * nlin + i,
                forall|p: int| 0 <= p < j * nlin + i ==> vm::numeros(out@)[p] == #[trigger] esperado[p],
            decreases nlin - i,
        {
            proof {
                lema_celula(i as int, j as int, nlin as int, ncol as int);
                lema_celula(j as int, i as int, ncol as int, nlin as int);
                assert(nlin * ncol == ncol * nlin) by (nonlinear_arith);
                assert(i * ncol <= i * ncol + j);
                assert(i * ncol >= 0) by (nonlinear_arith)
                    requires
                        i >= 0,
                        ncol >= 0,
                ;
            }
            let c = d[i * ncol + j].clone();
            let ghost antes = out@;
            out.push(c);
            assert forall|p: int| 0 <= p < j * nlin + i + 1 implies vm::numeros(out@)[p] == #[trigger] esperado[p] by {
                if p < j * nlin + i {
                    assert(vm::numeros(antes)[p] == esperado[p]);
                } else {
                    assert(esperado[p] == ds[i * ncol + j]);
                }
            }
            i += 1;
        }
        assert((j + 1) * nlin == j * nlin + nlin) by (nonlinear_arith);
        j += 1;
    }
    assert(ncol * nlin == nlin * ncol) by (nonlinear_arith);
    assert(vm::numeros(out@) =~= esperado);
    Saida::Valor(VmValor::Tensor { shape: dois_tamanhos(ncol, nlin), dados: out, marca: 0 })
}

// ---- Reducoes ---------------------------------------------------------------------------

/// Uma conta com todos os numeros.
pub open spec fn reduzido(op: OpTensor, ctx: Seq<char>, t: vm::Visto) -> operacoes::SaidaVista {
    match tensor_de(t) {
        Some((_, dados)) => pede_um(op, Feitio::Numero, Seq::empty(), dados),
        None => requer_tensor(ctx, t),
    }
}

/// Uma conta com todos os numeros.
pub fn vm_tensor_reducao_global(t: VmValor, op: OpTensor, ctx: &str) -> (r: Saida)
    ensures
        r@ == reduzido(op, ctx@, t@),
{
    match separar_tensor(t) {
        Ok((_, dados)) => {
            let vazio: Vec<usize> = Vec::new();
            assert(vazio@ =~= Seq::<usize>::empty());
            pedir_um(op, Feitio::Numero, vazio, dados)
        },
        Err(v) => recusar(ctx, &v),
    }
}

/// A media de todos os numeros.
pub open spec fn media(t: vm::Visto) -> operacoes::SaidaVista {
    match tensor_de(t) {
        Some((_, dados)) if dados.len() == 0 => operacoes::SaidaVista::Falha(
            "tensor_media: tensor vazio"@,
        ),
        _ => reduzido(OpTensor::MediaTotal, "tensor_media"@, t),
    }
}

fn calcular_media(t: VmValor) -> (r: Saida)
    ensures
        r@ == media(t@),
{
    let vazio = match &t {
        VmValor::Tensor { dados, .. } => dados.len() == 0,
        VmValor::TensorGrad { dados, .. } => dados.len() == 0,
        _ => false,
    };
    if vazio {
        return Saida::Falha("tensor_media: tensor vazio".to_owned());
    }
    vm_tensor_reducao_global(t, OpTensor::MediaTotal, "tensor_media")
}

/// O eixo que um valor indica.
pub open spec fn eixo_de(v: vm::Visto) -> Option<int> {
    match v {
        vm::Visto::Int(n) if n >= 0 => Some(n as usize as int),
        vm::Visto::Num(b, t) if !decimal::nao_numero(b) && decimal::ordem(b) >= 0 => Some(decimal::indice(b)),
        _ => None,
    }
}

/// A falha de um eixo.
pub open spec fn eixo_invalido(ctx: Seq<char>, v: vm::Visto) -> operacoes::SaidaVista {
    operacoes::SaidaVista::Falha(ctx + ": eixo deve ser inteiro não-negativo, recebeu "@ + vm::texto_de(v))
}

fn ler_eixo(v: &VmValor) -> (r: Option<usize>)
    ensures
        match r {
            Some(i) => eixo_de(v@) == Some(i as int),
            None => eixo_de(v@) is None,
        },
{
    match v {
        VmValor::Int(n) => if *n >= 0 {
            Some(
                #[verifier::truncate]
                (*n as usize),
            )
        } else {
            None
        },
        VmValor::Num(d) => if decimal::eh_menor(0, d.bits) || decimal::sao_iguais(0, d.bits) {
            Some(decimal::para_indice(d.bits))
        } else {
            None
        },
        _ => None,
    }
}

fn recusar_eixo(ctx: &str, v: &VmValor) -> (r: Saida)
    ensures
        r@ == eixo_invalido(ctx@, v@),
{
    let t = v.texto();
    Saida::Falha(frase(ctx, ": eixo deve ser inteiro não-negativo, recebeu ", t.as_str()))
}

/// A falha de um eixo fora das dimensoes.
pub open spec fn eixo_fora(ctx: Seq<char>, eixo: int, n: nat) -> Seq<char> {
    ctx + ": eixo "@ + texto::decimal(eixo as nat) + " fora dos limites para tensor "@ + texto::decimal(n) + "D"@
}

fn dizer_eixo_fora(ctx: &str, eixo: usize, n: usize) -> (r: String)
    ensures
        r@ == eixo_fora(ctx@, eixo as int, n as nat),
{
    let e = texto::natural(eixo as u64);
    let t = texto::natural(n as u64);
    let mut s = frase(ctx, ": eixo ", e.as_str());
    s.append(" fora dos limites para tensor ");
    s.append(t.as_str());
    s.append("D");
    s
}

/// O maior de um produto e um.
pub open spec fn ao_menos_um(p: int) -> int {
    if p < 1 {
        1
    } else {
        p
    }
}

/// O grupo a que pertence a posicao `idx`.
pub open spec fn grupo_de(idx: int, stride: int, n: int) -> int {
    idx / (stride * n) * stride + idx % stride
}

/// Os grupos dos primeiros `k` numeros, se cada um tem o seu.
pub open spec fn agrupados<T>(d: Seq<T>, stride: int, n: int, quantos: int, k: int) -> Option<Seq<Seq<T>>>
    decreases k,
{
    if k <= 0 || k > d.len() {
        Some(Seq::new(quantos as nat, |i: int| Seq::<T>::empty()))
    } else {
        match agrupados(d, stride, n, quantos, k - 1) {
            None => None,
            Some(g) => {
                let o = grupo_de(k - 1, stride, n);
                if n == 0 || o >= quantos {
                    None
                } else {
                    Some(g.update(o, g[o].push(d[k - 1])))
                }
            },
        }
    }
}

/// Os grupos que se juntam ao reduzir um eixo: nao ha se as dimensoes nao cabem ou se os
/// numeros nao chegam para elas.
pub open spec fn grupos_do_eixo<T>(s: Seq<usize>, d: Seq<T>, eixo: int) -> Option<Seq<Seq<T>>> {
    match (produto(s.skip(eixo + 1)), produto(s.remove(eixo))) {
        (Some(p), Some(q)) => if ao_menos_um(p) * s[eixo] > usize::MAX {
            None
        } else {
            agrupados(d, ao_menos_um(p), s[eixo] as int, ao_menos_um(q), d.len() as int)
        },
        _ => None,
    }
}

/// Reduzir o unico eixo da um numero; havendo mais, da um tensor.
pub open spec fn feitio_no_eixo(shape: Seq<usize>) -> Feitio {
    if shape.len() == 1 {
        Feitio::Numero
    } else {
        Feitio::Tensor
    }
}

/// Uma conta ao longo de um eixo.
pub open spec fn reduzido_no_eixo(op: OpTensor, ctx: Seq<char>, t: vm::Visto, v: vm::Visto) -> operacoes::SaidaVista {
    match eixo_de(v) {
        None => eixo_invalido(ctx, v),
        Some(eixo) => match tensor_de(t) {
            Some((shape, dados)) => if eixo >= shape.len() {
                operacoes::SaidaVista::Falha(eixo_fora(ctx, eixo, shape.len()))
            } else {
                match grupos_do_eixo(shape, dados, eixo) {
                    None => operacoes::SaidaVista::Panico,
                    Some(g) => operacoes::SaidaVista::Pede(
                        operacoes::PedidoVisto::Tensor(
                            PedidoTensorVisto {
                                op,
                                feitio: feitio_no_eixo(shape),
                                shape: shape.remove(eixo),
                                interno: shape[eixo] as int,
                                escalar: false,
                                entradas: g,
                            },
                        ),
                    ),
                }
            },
            None => requer_tensor(ctx, t),
        },
    }
}

/// Depois de um numero sem grupo nao ha grupos.
proof fn lema_agrupados<T>(d: Seq<T>, stride: int, n: int, quantos: int, k: int)
    requires
        0 <= k <= d.len(),
        agrupados(d, stride, n, quantos, k) is None,
    ensures
        agrupados(d, stride, n, quantos, d.len() as int) is None,
    decreases d.len() - k,
{
    if k < d.len() {
        lema_agrupados(d, stride, n, quantos, k + 1);
    }
}

fn agrupar(d: &Vec<Decimal>, stride: usize, n: usize, quantos: usize) -> (r: Option<Vec<Vec<Decimal>>>)
    requires
        stride >= 1,
        stride * n <= usize::MAX,
    ensures
        match r {
            Some(g) => agrupados(vm::numeros(d@), stride as int, n as int, quantos as int, d@.len() as int) == Some(
                grupos_vistos(g@),
            ),
            None => agrupados(vm::numeros(d@), stride as int, n as int, quantos as int, d@.len() as int) is None,
        },
{
    let ghost ds = vm::numeros(d@);
    let ghost zero = Seq::new(quantos as nat, |i: int| Seq::<(u64, Seq<char>)>::empty());
    let mut g: Vec<Vec<Decimal>> = Vec::new();
    let mut i: usize = 0;
    while i < quantos
        invariant
            i <= quantos,
            g@.len() == i,
            forall|k: int| 0 <= k < i ==> (#[trigger] grupos_vistos(g@)[k]) == Seq::<(u64, Seq<char>)>::empty(),
        decreases quantos - i,
    {
        let v: Vec<Decimal> = Vec::new();
        assert(vm::numeros(v@) =~= Seq::empty());
        let ghost antes = g@;
        g.push(v);
        assert forall|k: int| 0 <= k < i + 1 implies (#[trigger] grupos_vistos(g@)[k]) == Seq::<(u64, Seq<char>)>::empty() by {
            if k < i {
                assert(grupos_vistos(antes)[k] == Seq::<(u64, Seq<char>)>::empty());
            }
        }
        i += 1;
    }
    assert(grupos_vistos(g@) =~= zero);
    if n == 0 {
        if d.len() == 0 {
            return Some(g);
        }
        proof {
            assert(agrupados(ds, stride as int, n as int, quantos as int, 0) is Some);
            assert(agrupados(ds, stride as int, n as int, quantos as int, 1) is None);
            lema_agrupados(ds, stride as int, n as int, quantos as int, 1);
        }
        return None;
    }
    let passo = stride * n;
    assert(passo >= 1) by (nonlinear_arith)
        requires
            passo == stride * n,
            stride >= 1,
            n >= 1,
    ;
    let mut k: usize = 0;
    while k < d.len()
        invariant
            k <= d@.len(),
            n >= 1,
            stride >= 1,
            passo == stride * n,
            passo >= 1,
            ds == vm::numeros(d@),
            g@.len() == quantos,
            agrupados(ds, stride as int, n as int, quantos as int, k as int) == Some(grupos_vistos(g@)),
        decreases d@.len() - k,
    {
        proof {
            let q = k as int / passo as int;
            vstd::arithmetic::div_mod::lemma_fundamental_div_mod(k as int, passo as int);
            assert(q * stride <= k) by (nonlinear_arith)
                requires
                    k == passo * q + k as int % passo as int,
                    0 <= k as int % passo as int,
                    passo == stride * n,
                    n >= 1,
                    stride >= 1,
                    q >= 0,
            ;
            assert(0 <= q * stride) by (nonlinear_arith)
                requires
                    q >= 0,
                    stride >= 1,
            ;
        }
        let base = k / passo * stride;
        let resto = k % stride;
        if base >= quantos || resto >= quantos - base {
            proof {
                lema_agrupados(ds, stride as int, n as int, quantos as int, k + 1);
            }
            return None;
        }
        let o = base + resto;
        let ghost antes = grupos_vistos(g@);
        let mut v: Vec<Decimal> = Vec::new();
        let c = d[k].clone();
        let ghost gv = g@;
        std::mem::swap(&mut g[o], &mut v);
        assert(vm::numeros(v@) == antes[o as int]);
        let ghost vv = v@;
        v.push(c);
        assert(vm::numeros(v@) =~= vm::numeros(vv).push(ds[k as int]));
        g.set(o, v);
        assert(grupos_vistos(g@) =~= antes.update(o as int, antes[o as int].push(ds[k as int])));
        k += 1;
    }
    Some(g)
}

fn sem_eixo(s: &Vec<usize>, eixo: usize) -> (r: Vec<usize>)
    requires
        eixo < s@.len(),
    ensures
        r@ == s@.remove(eixo as int),
{
    let mut r = copiar_shape(s);
    let _x = r.remove(eixo);
    r
}

/// Uma conta ao longo de um eixo.
pub fn vm_tensor_reducao_eixo(t: VmValor, v: VmValor, op: OpTensor, ctx: &str) -> (r: Saida)
    ensures
        r@ == reduzido_no_eixo(op, ctx@, t@, v@),
{
    let eixo = match ler_eixo(&v) {
        None => return recusar_eixo(ctx, &v),
        Some(e) => e,
    };
    let (shape, dados) = match &t {
        VmValor::Tensor { shape, dados, .. } => (shape, dados),
        VmValor::TensorGrad { shape, dados, .. } => (shape, dados),
        _ => return recusar(ctx, &t),
    };
    if eixo >= shape.len() {
        return Saida::Falha(dizer_eixo_fora(ctx, eixo, shape.len()));
    }
    let nova = sem_eixo(shape, eixo);
    let resto = vstd::slice::slice_subrange(shape.as_slice(), eixo + 1, shape.len());
    assert(resto@ =~= shape@.skip(eixo + 1));
    let p = match multiplicar(resto) {
        Some(p) => p,
        None => return Saida::Panico,
    };
    let q = match multiplicar(nova.as_slice()) {
        Some(q) => q,
        None => return Saida::Panico,
    };
    let stride: usize = if p < 1 {
        1
    } else {
        p
    };
    let quantos: usize = if q < 1 {
        1
    } else {
        q
    };
    let n = shape[eixo];
    proof {
        assert((stride as u128) * (n as u128) <= u64::MAX as u128 * u64::MAX as u128) by (nonlinear_arith)
            requires
                stride <= u64::MAX,
                n <= u64::MAX,
        ;
        assert(u64::MAX as u128 * u64::MAX as u128 <= u128::MAX) by (nonlinear_arith);
    }
    if (stride as u128) * (n as u128) > usize::MAX as u128 {
        return Saida::Panico;
    }
    match agrupar(dados, stride, n, quantos) {
        None => Saida::Panico,
        Some(entradas) => {
            let feitio = if shape.len() == 1 {
                Feitio::Numero
            } else {
                Feitio::Tensor
            };
            Saida::Pede(Pedido::Tensor(PedidoTensor { op, feitio, shape: nova, interno: n, escalar: false, entradas }))
        },
    }
}

// ---- Juncao de tensores -----------------------------------------------------------------

/// A fatia `o` de cada uma das primeiras `n` listas, uma depois da outra.
pub open spec fn fatias<T>(ds: Seq<Seq<T>>, ws: Seq<int>, o: int, n: int) -> Seq<T>
    decreases n,
{
    if n <= 0 {
        Seq::empty()
    } else {
        fatias(ds, ws, o, n - 1) + ds[n - 1].subrange(o * ws[n - 1], (o + 1) * ws[n - 1])
    }
}

/// As primeiras `k` filas de fatias.
pub open spec fn filas<T>(ds: Seq<Seq<T>>, ws: Seq<int>, k: int) -> Seq<T>
    decreases k,
{
    if k <= 0 {
        Seq::empty()
    } else {
        filas(ds, ws, k - 1) + fatias(ds, ws, k - 1, ds.len() as int)
    }
}

/// Se todas as listas chegam para `k` filas.
pub open spec fn chegam<T>(ds: Seq<Seq<T>>, ws: Seq<int>, k: int) -> bool {
    forall|i: int| 0 <= i < ds.len() ==> (#[trigger] ds[i]).len() >= k * ws[i]
}

/// Larguras como numeros.
pub open spec fn larguras(ws: Seq<usize>) -> Seq<int> {
    ws.map_values(|w: usize| w as int)
}

pub(crate) fn acrescentar(out: &mut Vec<Decimal>, d: &Vec<Decimal>, a: usize, b: usize)
    requires
        a <= b <= d@.len(),
    ensures
        vm::numeros(final(out)@) == vm::numeros(old(out)@) + vm::numeros(d@).subrange(a as int, b as int),
{
    let ghost antes = vm::numeros(out@);
    let ghost ds = vm::numeros(d@);
    let mut i: usize = a;
    assert(antes =~= antes + ds.subrange(a as int, a as int));
    while i < b
        invariant
            a <= i <= b,
            b <= d@.len(),
            ds == vm::numeros(d@),
            vm::numeros(out@) == antes + ds.subrange(a as int, i as int),
        decreases b - i,
    {
        let ghost o = out@;
        out.push(d[i].clone());
        assert(vm::numeros(out@) =~= vm::numeros(o).push(ds[i as int]));
        assert(ds.subrange(a as int, i + 1) =~= ds.subrange(a as int, i as int).push(ds[i as int]));
        assert(vm::numeros(out@) =~= antes + ds.subrange(a as int, i + 1));
        i += 1;
    }
}

pub(crate) fn chegam_todos(ds: &Vec<Vec<Decimal>>, ws: &Vec<usize>, k: usize) -> (r: bool)
    requires
        ds@.len() == ws@.len(),
    ensures
        r == chegam(grupos_vistos(ds@), larguras(ws@), k as int),
{
    let ghost g = grupos_vistos(ds@);
    let ghost l = larguras(ws@);
    let mut i: usize = 0;
    while i < ds.len()
        invariant
            i <= ds@.len(),
            ds@.len() == ws@.len(),
            g == grupos_vistos(ds@),
            l == larguras(ws@),
            forall|j: int| 0 <= j < i ==> (#[trigger] g[j]).len() >= k * l[j],
        decreases ds@.len() - i,
    {
        proof {
            assert((k as u128) * (ws@[i as int] as u128) <= u64::MAX as u128 * u64::MAX as u128) by (nonlinear_arith)
                requires
                    k <= u64::MAX,
                    ws@[i as int] <= u64::MAX,
            ;
            assert(u64::MAX as u128 * u64::MAX as u128 <= u128::MAX) by (nonlinear_arith);
            assert(g[i as int].len() == ds@[i as int]@.len());
        }
        let precisa: u128 = (k as u128) * (ws[i] as u128);
        if (ds[i].len() as u128) < precisa {
            assert(g[i as int].len() < k * l[i as int]);
            return false;
        }
        i += 1;
    }
    true
}

pub(crate) fn enfileirar(ds: &Vec<Vec<Decimal>>, ws: &Vec<usize>, k: usize) -> (r: Vec<Decimal>)
    requires
        ds@.len() == ws@.len(),
        chegam(grupos_vistos(ds@), larguras(ws@), k as int),
    ensures
        vm::numeros(r@) == filas(grupos_vistos(ds@), larguras(ws@), k as int),
{
    let ghost g = grupos_vistos(ds@);
    let ghost l = larguras(ws@);
    let mut out: Vec<Decimal> = Vec::new();
    assert(vm::numeros(out@) =~= Seq::empty());
    let mut o: usize = 0;
    while o < k
        invariant
            o <= k,
            ds@.len() == ws@.len(),
            g == grupos_vistos(ds@),
            l == larguras(ws@),
            chegam(g, l, k as int),
            vm::numeros(out@) == filas(g, l, o as int),
        decreases k - o,
    {
        let ghost antes = vm::numeros(out@);
        let mut i: usize = 0;
        assert(antes =~= antes + fatias(g, l, o as int, 0));
        while i < ds.len()
            invariant
                i <= ds@.len(),
                o < k,
                ds@.len() == ws@.len(),
                g == grupos_vistos(ds@),
                l == larguras(ws@),
                chegam(g, l, k as int),
                vm::numeros(out@) == antes + fatias(g, l, o as int, i as int),
            decreases ds@.len() - i,
        {
            let w = ws[i];
            let tamanho = ds[i].len();
            proof {
                assert(g[i as int].len() == tamanho);
                assert(g[i as int].len() >= k * l[i as int]);
                assert(g[i as int].len() == ds@[i as int]@.len());
                assert(l[i as int] == w);
                assert(0 <= o * w <= (o + 1) * w <= k * w) by (nonlinear_arith)
                    requires
                        0 <= o < k,
                        w >= 0,
                ;
                assert(o * w + w == (o + 1) * w) by (nonlinear_arith);
            }
            let a = o * w;
            acrescentar(&mut out, &ds[i], a, a + w);
            assert(vm::numeros(out@) =~= antes + fatias(g, l, o as int, i + 1));
            i += 1;
        }
        o += 1;
    }
    out
}

/// Os tensores de uma lista, ou o primeiro que nao e tensor.
pub open spec fn tensores_de(l: Seq<vm::Visto>, n: int) -> Result<Seq<TensorVisto>, vm::Visto>
    decreases n,
{
    if n <= 0 || n > l.len() {
        Ok(Seq::empty())
    } else {
        match tensores_de(l, n - 1) {
            Err(e) => Err(e),
            Ok(ts) => match tensor_de(l[n - 1]) {
                Some(t) => Ok(ts.push(t)),
                None => Err(l[n - 1]),
            },
        }
    }
}

/// As dimensoes e os numeros de varios tensores.
pub open spec fn partidos(ts: Seq<TensorVisto>, ss: Seq<Seq<usize>>, ds: Seq<Seq<(u64, Seq<char>)>>) -> bool {
    &&& ts.len() == ss.len()
    &&& ts.len() == ds.len()
    &&& forall|i: int| 0 <= i < ts.len() ==> (#[trigger] ts[i]) == (ss[i], ds[i])
}

/// As dimensoes de varios tensores.
pub open spec fn dimensoes_vistas(v: Seq<Vec<usize>>) -> Seq<Seq<usize>> {
    v.map_values(|s: Vec<usize>| s@)
}

proof fn lema_tensores(l: Seq<vm::Visto>, n: int)
    requires
        0 <= n <= l.len(),
        tensores_de(l, n) is Err,
    ensures
        tensores_de(l, l.len() as int) == tensores_de(l, n),
    decreases l.len() - n,
{
    if n < l.len() {
        lema_tensores(l, n + 1);
    }
}

fn ler_tensores(l: &Vec<VmValor>) -> (r: Result<(Vec<Vec<usize>>, Vec<Vec<Decimal>>), String>)
    ensures
        match r {
            Ok((ss, ds)) => tensores_de(vm::vistos(l@), l@.len() as int) matches Ok(ts) && partidos(
                ts,
                dimensoes_vistas(ss@),
                grupos_vistos(ds@),
            ),
            Err(m) => tensores_de(vm::vistos(l@), l@.len() as int) matches Err(v) && m@ == vm::texto_de(v),
        },
{
    let ghost vs = vm::vistos(l@);
    let mut ss: Vec<Vec<usize>> = Vec::new();
    let mut ds: Vec<Vec<Decimal>> = Vec::new();
    let mut i: usize = 0;
    while i < l.len()
        invariant
            i <= l@.len(),
            vs == vm::vistos(l@),
            tensores_de(vs, i as int) matches Ok(ts) && ts.len() == i && partidos(
                ts,
                dimensoes_vistas(ss@),
                grupos_vistos(ds@),
            ),
        decreases l@.len() - i,
    {
        assert(vs[i as int] == l@[i as int]@);
        let (shape, dados) = match &l[i] {
            VmValor::Tensor { shape, dados, .. } => (shape, dados),
            VmValor::TensorGrad { shape, dados, .. } => (shape, dados),
            _ => {
                proof {
                    lema_tensores(vs, i + 1);
                }
                return Err(l[i].texto());
            },
        };
        let ghost sa = ss@;
        let ghost da = ds@;
        ss.push(copiar_shape(shape));
        ds.push(vm::copiar_numeros(dados));
        assert(dimensoes_vistas(ss@) =~= dimensoes_vistas(sa).push(shape@));
        assert(grupos_vistos(ds@) =~= grupos_vistos(da).push(vm::numeros(dados@)));
        i += 1;
    }
    Ok((ss, ds))
}

/// A soma do eixo dos primeiros `n` tensores, se cabe.
pub open spec fn soma_do_eixo(ss: Seq<Seq<usize>>, eixo: int, n: int) -> Option<int>
    decreases n,
{
    if n <= 0 || n > ss.len() {
        Some(0)
    } else {
        match soma_do_eixo(ss, eixo, n - 1) {
            None => None,
            Some(t) => if t + ss[n - 1][eixo] > usize::MAX {
                None
            } else {
                Some(t + ss[n - 1][eixo])
            },
        }
    }
}

/// O primeiro eixo, a partir de `i`, em que duas listas de dimensoes diferem sem ser `eixo`.
pub open spec fn discorda(a: Seq<usize>, b: Seq<usize>, eixo: int, i: int) -> Option<int>
    decreases a.len() - i,
{
    if i < 0 || i >= a.len() || i >= b.len() {
        None
    } else if i != eixo && a[i] != b[i] {
        Some(i)
    } else {
        discorda(a, b, eixo, i + 1)
    }
}

/// A falha das dimensoes dos tensores a partir do tensor `i`.
pub open spec fn discordancia(ss: Seq<Seq<usize>>, eixo: int, i: int) -> Option<Seq<char>>
    decreases ss.len() - i,
{
    if i < 1 || i >= ss.len() {
        None
    } else if ss[i].len() != ss[0].len() {
        Some("tensor_concatenar: tensores com ndim diferente"@)
    } else {
        match discorda(ss[0], ss[i], eixo, 0) {
            Some(k) => Some("tensor_concatenar: shapes incompatíveis no eixo "@ + texto::decimal(k as nat)),
            None => discordancia(ss, eixo, i + 1),
        }
    }
}

/// As dimensoes de cada tensor.
pub open spec fn so_dimensoes(ts: Seq<TensorVisto>) -> Seq<Seq<usize>> {
    ts.map_values(|t: TensorVisto| t.0)
}

/// Os numeros de cada tensor.
pub open spec fn so_numeros(ts: Seq<TensorVisto>) -> Seq<Seq<(u64, Seq<char>)>> {
    ts.map_values(|t: TensorVisto| t.1)
}

/// Os tensores de uma lista juntos ao longo de um eixo.
pub open spec fn juntos_no_eixo(ts: Seq<TensorVisto>, eixo: int) -> operacoes::SaidaVista {
    let ss = so_dimensoes(ts);
    if ts.len() == 0 {
        operacoes::SaidaVista::Falha("tensor_concatenar: lista vazia"@)
    } else if eixo >= ss[0].len() {
        operacoes::SaidaVista::Falha(eixo_fora("tensor_concatenar"@, eixo, ss[0].len()))
    } else if discordancia(ss, eixo, 1) is Some {
        operacoes::SaidaVista::Falha(discordancia(ss, eixo, 1)->0)
    } else {
        match soma_do_eixo(ss, eixo, ss.len() as int) {
            None => operacoes::SaidaVista::Panico,
            Some(e) => {
                let nova = ss[0].update(eixo, e as usize);
                match (produto(nova.skip(eixo + 1)), produto(nova), produto(nova.take(eixo))) {
                    (Some(p), Some(total), Some(q)) => {
                        let s = ao_menos_um(p);
                        let fora = ao_menos_um(q);
                        let ws = Seq::new(ts.len(), |i: int| ss[i][eixo] * s);
                        if fora * (e * s) != total || !chegam(so_numeros(ts), ws, fora) {
                            operacoes::SaidaVista::Panico
                        } else {
                            operacoes::SaidaVista::Valor(
                                vm::Visto::Tensor { shape: nova, dados: filas(so_numeros(ts), ws, fora), marca: 0 },
                            )
                        }
                    },
                    _ => operacoes::SaidaVista::Panico,
                }
            },
        }
    }
}

/// A juncao de uma lista de tensores.
pub open spec fn concatenado(lista: vm::Visto, v: vm::Visto) -> operacoes::SaidaVista {
    match eixo_de(v) {
        None => eixo_invalido("tensor_concatenar"@, v),
        Some(eixo) => match lista {
            vm::Visto::Lista(l) => match tensores_de(l, l.len() as int) {
                Err(o) => operacoes::SaidaVista::Falha(
                    "tensor_concatenar: elemento não é tensor: "@ + vm::texto_de(o),
                ),
                Ok(ts) => juntos_no_eixo(ts, eixo),
            },
            _ => operacoes::SaidaVista::Falha(
                "tensor_concatenar: requer lista de tensores, recebeu "@ + vm::texto_de(lista),
            ),
        },
    }
}

proof fn lema_soma_do_eixo(ss: Seq<Seq<usize>>, eixo: int, n: int)
    requires
        0 <= n <= ss.len(),
    ensures
        soma_do_eixo(ss, eixo, n) matches Some(e) ==> 0 <= e <= usize::MAX && forall|i: int|
            0 <= i < n ==> (#[trigger] ss[i])[eixo] <= e,
    decreases n,
{
    if n > 0 {
        lema_soma_do_eixo(ss, eixo, n - 1);
    }
}

proof fn lema_soma_vazia(ss: Seq<Seq<usize>>, eixo: int, n: int)
    requires
        0 <= n <= ss.len(),
        soma_do_eixo(ss, eixo, n) is None,
    ensures
        soma_do_eixo(ss, eixo, ss.len() as int) is None,
    decreases ss.len() - n,
{
    if n < ss.len() {
        lema_soma_vazia(ss, eixo, n + 1);
    }
}

pub(crate) fn somar_eixo(ss: &Vec<Vec<usize>>, eixo: usize) -> (r: Option<usize>)
    requires
        forall|i: int| 0 <= i < ss@.len() ==> eixo < (#[trigger] ss@[i])@.len(),
    ensures
        match r {
            Some(e) => soma_do_eixo(dimensoes_vistas(ss@), eixo as int, ss@.len() as int) == Some(e as int),
            None => soma_do_eixo(dimensoes_vistas(ss@), eixo as int, ss@.len() as int) is None,
        },
{
    let ghost v = dimensoes_vistas(ss@);
    let mut t: usize = 0;
    let mut i: usize = 0;
    while i < ss.len()
        invariant
            i <= ss@.len(),
            v == dimensoes_vistas(ss@),
            forall|i: int| 0 <= i < ss@.len() ==> eixo < (#[trigger] ss@[i])@.len(),
            soma_do_eixo(v, eixo as int, i as int) == Some(t as int),
        decreases ss@.len() - i,
    {
        assert(v[i as int] == ss@[i as int]@);
        let x = ss[i][eixo];
        if x > usize::MAX - t {
            proof {
                lema_soma_vazia(v, eixo as int, i + 1);
            }
            return None;
        }
        t = t + x;
        i += 1;
    }
    Some(t)
}

fn achar_discordancia(ss: &Vec<Vec<usize>>, eixo: usize) -> (r: Option<String>)
    requires
        ss@.len() > 0,
    ensures
        match r {
            Some(m) => discordancia(dimensoes_vistas(ss@), eixo as int, 1) == Some(m@),
            None => discordancia(dimensoes_vistas(ss@), eixo as int, 1) is None && forall|i: int|
                0 <= i < ss@.len() ==> (#[trigger] ss@[i])@.len() == ss@[0]@.len(),
        },
{
    let ghost v = dimensoes_vistas(ss@);
    let mut i: usize = 1;
    while i < ss.len()
        invariant
            1 <= i <= ss@.len(),
            v == dimensoes_vistas(ss@),
            discordancia(v, eixo as int, 1) == discordancia(v, eixo as int, i as int),
            forall|k: int| 0 <= k < i ==> (#[trigger] ss@[k])@.len() == ss@[0]@.len(),
        decreases ss@.len() - i,
    {
        assert(v[i as int] == ss@[i as int]@ && v[0] == ss@[0]@);
        if ss[i].len() != ss[0].len() {
            return Some("tensor_concatenar: tensores com ndim diferente".to_owned());
        }
        let mut k: usize = 0;
        while k < ss[0].len()
            invariant
                1 <= i < ss@.len(),
                v == dimensoes_vistas(ss@),
                v[i as int] == ss@[i as int]@,
                v[0] == ss@[0]@,
                k <= ss@[0]@.len(),
                ss@[i as int]@.len() == ss@[0]@.len(),
                discordancia(v, eixo as int, 1) == discordancia(v, eixo as int, i as int),
                discorda(v[0], v[i as int], eixo as int, 0) == discorda(v[0], v[i as int], eixo as int, k as int),
            decreases ss@[0]@.len() - k,
        {
            if k != eixo && ss[0][k] != ss[i][k] {
                let mut s = "tensor_concatenar: shapes incompatíveis no eixo ".to_owned();
                s.append(texto::natural(k as u64).as_str());
                return Some(s);
            }
            k += 1;
        }
        i += 1;
    }
    None
}

fn larguras_no_eixo(ss: &Vec<Vec<usize>>, eixo: usize, s: usize, e: usize) -> (r: Vec<usize>)
    requires
        forall|i: int| 0 <= i < ss@.len() ==> eixo < (#[trigger] ss@[i])@.len() && ss@[i]@[eixo as int] <= e,
        e * s <= usize::MAX,
    ensures
        larguras(r@) == Seq::new(ss@.len(), |i: int| dimensoes_vistas(ss@)[i][eixo as int] * s),
{
    let mut r: Vec<usize> = Vec::new();
    let mut i: usize = 0;
    while i < ss.len()
        invariant
            i <= ss@.len(),
            r@.len() == i,
            forall|i: int| 0 <= i < ss@.len() ==> eixo < (#[trigger] ss@[i])@.len() && ss@[i]@[eixo as int] <= e,
            e * s <= usize::MAX,
            forall|k: int| 0 <= k < i ==> #[trigger] r@[k] == ss@[k]@[eixo as int] * s,
        decreases ss@.len() - i,
    {
        let x = ss[i][eixo];
        assert(0 <= x * s <= e * s) by (nonlinear_arith)
            requires
                0 <= x <= e,
                0 <= s,
        ;
        r.push(x * s);
        i += 1;
    }
    assert(larguras(r@) =~= Seq::new(ss@.len(), |i: int| dimensoes_vistas(ss@)[i][eixo as int] * s));
    r
}

fn concatenar_tensores(ss: &Vec<Vec<usize>>, ds: &Vec<Vec<Decimal>>, eixo: usize, Ghost(ts): Ghost<Seq<TensorVisto>>) -> (r: Saida)
    requires
        partidos(ts, dimensoes_vistas(ss@), grupos_vistos(ds@)),
    ensures
        r@ == juntos_no_eixo(ts, eixo as int),
{
    proof {
        assert(so_dimensoes(ts) =~= dimensoes_vistas(ss@));
        assert(so_numeros(ts) =~= grupos_vistos(ds@));
    }
    if ss.len() == 0 {
        return Saida::Falha("tensor_concatenar: lista vazia".to_owned());
    }
    let ghost v = dimensoes_vistas(ss@);
    assert(v[0] == ss@[0]@);
    if eixo >= ss[0].len() {
        return Saida::Falha(dizer_eixo_fora("tensor_concatenar", eixo, ss[0].len()));
    }
    if let Some(m) = achar_discordancia(ss, eixo) {
        return Saida::Falha(m);
    }
    let e = match somar_eixo(ss, eixo) {
        Some(e) => e,
        None => return Saida::Panico,
    };
    let mut nova = copiar_shape(&ss[0]);
    nova.set(eixo, e);
    let depois = vstd::slice::slice_subrange(nova.as_slice(), eixo + 1, nova.len());
    let antes = vstd::slice::slice_subrange(nova.as_slice(), 0, eixo);
    assert(depois@ =~= nova@.skip(eixo + 1));
    assert(antes@ =~= nova@.take(eixo as int));
    let p = match multiplicar(depois) {
        Some(p) => p,
        None => return Saida::Panico,
    };
    let total = match multiplicar(nova.as_slice()) {
        Some(p) => p,
        None => return Saida::Panico,
    };
    let q = match multiplicar(antes) {
        Some(p) => p,
        None => return Saida::Panico,
    };
    let s: usize = if p < 1 {
        1
    } else {
        p
    };
    let linhas: usize = if q < 1 {
        1
    } else {
        q
    };
    proof {
        assert((e as u128) * (s as u128) <= u64::MAX as u128 * u64::MAX as u128) by (nonlinear_arith)
            requires
                e <= u64::MAX,
                s <= u64::MAX,
        ;
        assert(u64::MAX as u128 * u64::MAX as u128 <= u128::MAX) by (nonlinear_arith);
    }
    let es: u128 = (e as u128) * (s as u128);
    if es > usize::MAX as u128 {
        assert(linhas * (e * s) > usize::MAX) by (nonlinear_arith)
            requires
                linhas >= 1,
                e * s > usize::MAX,
        ;
        return Saida::Panico;
    }
    proof {
        assert((linhas as u128) * es <= u64::MAX as u128 * u64::MAX as u128) by (nonlinear_arith)
            requires
                linhas <= u64::MAX,
                es <= u64::MAX,
        ;
    }
    if (linhas as u128) * es != total as u128 {
        return Saida::Panico;
    }
    proof {
        lema_soma_do_eixo(v, eixo as int, v.len() as int);
        assert forall|i: int| 0 <= i < ss@.len() implies eixo < (#[trigger] ss@[i])@.len() && ss@[i]@[eixo as int] <= e by {
            assert(v[i] == ss@[i]@);
        }
    }
    let ws = larguras_no_eixo(ss, eixo, s, e);
    assert(larguras(ws@) =~= Seq::new(ts.len(), |i: int| so_dimensoes(ts)[i][eixo as int] * s));
    assert(ws@.len() == larguras(ws@).len());
    if !chegam_todos(ds, &ws, linhas) {
        return Saida::Panico;
    }
    let dados = enfileirar(ds, &ws, linhas);
    Saida::Valor(VmValor::Tensor { shape: nova, dados, marca: 0 })
}

/// Junta uma lista de tensores ao longo de um eixo.
pub fn vm_tensor_concatenar(lista: VmValor, v: VmValor) -> (r: Saida)
    ensures
        r@ == concatenado(lista@, v@),
{
    let eixo = match ler_eixo(&v) {
        None => return recusar_eixo("tensor_concatenar", &v),
        Some(e) => e,
    };
    match &lista {
        VmValor::Lista(l) => match ler_tensores(l) {
            Err(m) => {
                let mut s = "tensor_concatenar: elemento não é tensor: ".to_owned();
                s.append(m.as_str());
                Saida::Falha(s)
            },
            Ok((ss, ds)) => {
                let ghost ts = tensores_de(vm::vistos(l@), l@.len() as int)->Ok_0;
                concatenar_tensores(&ss, &ds, eixo, Ghost(ts))
            },
        },
        _ => {
            let mut s = "tensor_concatenar: requer lista de tensores, recebeu ".to_owned();
            s.append(lista.texto().as_str());
            Saida::Falha(s)
        },
    }
}

/// Zeros.
pub open spec fn zeros(n: int) -> Seq<(u64, Seq<char>)> {
    Seq::new(n as nat, |i: int| (0u64, "0"@))
}

/// Tensores das mesmas dimensoes empilhados num eixo novo.
pub open spec fn empilhados(ts: Seq<TensorVisto>, eixo: int) -> operacoes::SaidaVista {
    let ss = so_dimensoes(ts);
    let k = ts.len();
    if k == 0 {
        operacoes::SaidaVista::Falha("tensor_empilhar: lista vazia"@)
    } else if exists|i: int| 0 <= i < k && #[trigger] ss[i] != ss[0] {
        operacoes::SaidaVista::Falha("tensor_empilhar: todos os tensores devem ter o mesmo shape"@)
    } else {
        match produto(ss[0]) {
            None => operacoes::SaidaVista::Panico,
            Some(p) => if eixo > ss[0].len() {
                operacoes::SaidaVista::Falha(
                    "tensor_empilhar: eixo "@ + texto::decimal(eixo as nat) + " fora dos limites"@,
                )
            } else {
                match produto(ss[0].skip(eixo)) {
                    None => operacoes::SaidaVista::Panico,
                    Some(q) => {
                        let n = ao_menos_um(p);
                        let s = ao_menos_um(q);
                        let ws = Seq::new(k, |i: int| s);
                        if k * n > usize::MAX || !chegam(so_numeros(ts), ws, n / s) {
                            operacoes::SaidaVista::Panico
                        } else {
                            operacoes::SaidaVista::Valor(
                                vm::Visto::Tensor {
                                    shape: ss[0].insert(eixo, k as usize),
                                    dados: filas(so_numeros(ts), ws, n / s) + zeros(k * (n - n / s * s)),
                                    marca: 0,
                                },
                            )
                        }
                    },
                }
            },
        }
    }
}

/// O empilhamento de uma lista de tensores.
pub open spec fn empilhado(lista: vm::Visto, v: vm::Visto) -> operacoes::SaidaVista {
    match eixo_de(v) {
        None => eixo_invalido("tensor_empilhar"@, v),
        Some(eixo) => match lista {
            vm::Visto::Lista(l) => match tensores_de(l, l.len() as int) {
                Err(o) => operacoes::SaidaVista::Falha(
                    "tensor_empilhar: elemento não é tensor: "@ + vm::texto_de(o),
                ),
                Ok(ts) => empilhados(ts, eixo),
            },
            _ => operacoes::SaidaVista::Falha(
                "tensor_empilhar: requer lista de tensores, recebeu "@ + vm::texto_de(lista),
            ),
        },
    }
}

fn todas_iguais(ss: &Vec<Vec<usize>>) -> (r: bool)
    requires
        ss@.len() > 0,
    ensures
        r == !(exists|i: int|
            0 <= i < ss@.len() && #[trigger] dimensoes_vistas(ss@)[i] != dimensoes_vistas(ss@)[0]),
{
    let ghost v = dimensoes_vistas(ss@);
    let mut i: usize = 1;
    while i < ss.len()
        invariant
            1 <= i <= ss@.len(),
            v == dimensoes_vistas(ss@),
            forall|k: int| 0 <= k < i ==> #[trigger] v[k] == v[0],
        decreases ss@.len() - i,
    {
        assert(v[i as int] == ss@[i as int]@ && v[0] == ss@[0]@);
        if !mesmas_dimensoes(&ss[i], &ss[0]) {
            assert(v[i as int] != v[0]);
            return false;
        }
        i += 1;
    }
    true
}

fn acrescentar_zeros(out: &mut Vec<Decimal>, n: usize)
    ensures
        vm::numeros(final(out)@) == vm::numeros(old(out)@) + zeros(n as int),
{
    let ghost antes = vm::numeros(out@);
    let mut i: usize = 0;
    assert(antes =~= antes + zeros(0));
    while i < n
        invariant
            i <= n,
            vm::numeros(out@) == antes + zeros(i as int),
        decreases n - i,
    {
        let ghost o = out@;
        out.push(Decimal { bits: 0, texto: "0".to_owned() });
        assert(vm::numeros(out@) =~= vm::numeros(o).push((0u64, "0"@)));
        assert(zeros(i + 1) =~= zeros(i as int).push((0u64, "0"@)));
        assert(vm::numeros(out@) =~= antes + zeros(i + 1));
        i += 1;
    }
}

fn empilhar_tensores(ss: &Vec<Vec<usize>>, ds: &Vec<Vec<Decimal>>, eixo: usize, Ghost(ts): Ghost<Seq<TensorVisto>>) -> (r: Saida)
    requires
        partidos(ts, dimensoes_vistas(ss@), grupos_vistos(ds@)),
    ensures
        r@ == empilhados(ts, eixo as int),
{
    proof {
        assert(so_dimensoes(ts) =~= dimensoes_vistas(ss@));
        assert(so_numeros(ts) =~= grupos_vistos(ds@));
    }
    let k = ss.len();
    assert(ds@.len() == grupos_vistos(ds@).len());
    if k == 0 {
        return Saida::Falha("tensor_empilhar: lista vazia".to_owned());
    }
    assert(dimensoes_vistas(ss@)[0] == ss@[0]@);
    if !todas_iguais(ss) {
        return Saida::Falha("tensor_empilhar: todos os tensores devem ter o mesmo shape".to_owned());
    }
    let p = match multiplicar(ss[0].as_slice()) {
        Some(p) => p,
        None => return Saida::Panico,
    };
    if eixo > ss[0].len() {
        let e = texto::natural(eixo as u64);
        return Saida::Falha(frase("tensor_empilhar: eixo ", e.as_str(), " fora dos limites"));
    }
    let resto = vstd::slice::slice_subrange(ss[0].as_slice(), eixo, ss[0].len());
    assert(resto@ =~= ss@[0]@.skip(eixo as int));
    let q = match multiplicar(resto) {
        Some(q) => q,
        None => return Saida::Panico,
    };
    let n: usize = if p < 1 {
        1
    } else {
        p
    };
    let s: usize = if q < 1 {
        1
    } else {
        q
    };
    proof {
        assert((k as u128) * (n as u128) <= u64::MAX as u128 * u64::MAX as u128) by (nonlinear_arith)
            requires
                k <= u64::MAX,
                n <= u64::MAX,
        ;
        assert(u64::MAX as u128 * u64::MAX as u128 <= u128::MAX) by (nonlinear_arith);
    }
    if (k as u128) * (n as u128) > usize::MAX as u128 {
        return Saida::Panico;
    }
    let linhas = n / s;
    let mut ws: Vec<usize> = Vec::new();
    let mut i: usize = 0;
    while i < k
        invariant
            i <= k,
            ws@.len() == i,
            forall|j: int| 0 <= j < i ==> ws@[j] == s,
        decreases k - i,
    {
        ws.push(s);
        i += 1;
    }
    assert(larguras(ws@) =~= Seq::new(ts.len(), |i: int| s as int));
    if !chegam_todos(ds, &ws, linhas) {
        return Saida::Panico;
    }
    let mut dados = enfileirar(ds, &ws, linhas);
    proof {
        vstd::arithmetic::div_mod::lemma_fundamental_div_mod(n as int, s as int);
        assert(linhas * s == s * linhas) by (nonlinear_arith);
        assert(0 <= n - linhas * s <= n) by (nonlinear_arith)
            requires
                n == s * linhas + n as int % s as int,
                0 <= n as int % s as int,
                linhas * s == s * linhas,
                linhas >= 0,
                s >= 1,
        ;
        assert(linhas * s >= 0) by (nonlinear_arith)
            requires
                linhas >= 0,
                s >= 0,
        ;
        assert(0 <= k * (n - linhas * s) <= k * n) by (nonlinear_arith)
            requires
                0 <= n - linhas * s <= n,
                k >= 0,
        ;
    }
    let sobra = k * (n - linhas * s);
    acrescentar_zeros(&mut dados, sobra);
    let mut nova = copiar_shape(&ss[0]);
    nova.insert(eixo, k);
    Saida::Valor(VmValor::Tensor { shape: nova, dados, marca: 0 })
}

/// Empilha uma lista de tensores num eixo novo.
pub fn vm_tensor_empilhar(lista: VmValor, v: VmValor) -> (r: Saida)
    ensures
        r@ == empilhado(lista@, v@),
{
    let eixo = match ler_eixo(&v) {
        None => return recusar_eixo("tensor_empilhar", &v),
        Some(e) => e,
    };
    match &lista {
        VmValor::Lista(l) => match ler_tensores(l) {
            Err(m) => {
                let mut s = "tensor_empilhar: elemento não é tensor: ".to_owned();
                s.append(m.as_str());
                Saida::Falha(s)
            },
            Ok((ss, ds)) => {
                let ghost ts = tensores_de(vm::vistos(l@), l@.len() as int)->Ok_0;
                empilhar_tensores(&ss, &ds, eixo, Ghost(ts))
            },
        },
        _ => {
            let mut s = "tensor_empilhar: requer lista de tensores, recebeu ".to_owned();
            s.append(lista.texto().as_str());
            Saida::Falha(s)
        },
    }
}

// ---- De tensor a listas -----------------------------------------------------------------

/// As listas aninhadas de um tensor, se os numeros chegam.
pub open spec fn em_listas(s: Seq<usize>, d: Seq<(u64, Seq<char>)>) -> Option<vm::Visto>
    decreases s.len(), usize::MAX + 1,
{
    if s.len() == 0 {
        None
    } else if s.len() == 1 {
        if d.len() < s[0] {
            None
        } else {
            Some(vm::Visto::Lista(Seq::new(s[0] as nat, |i: int| vm::Visto::Num(d[i].0, d[i].1))))
        }
    } else {
        match produto(s.skip(1)) {
            None => None,
            Some(p) => if s[0] * p > d.len() {
                None
            } else {
                match itens_em_listas(s, d, p, s[0] as int) {
                    None => None,
                    Some(l) => Some(vm::Visto::Lista(l)),
                }
            },
        }
    }
}

/// As listas dos primeiros `n` itens.
pub open spec fn itens_em_listas(s: Seq<usize>, d: Seq<(u64, Seq<char>)>, p: int, n: int) -> Option<Seq<vm::Visto>>
    decreases s.len(), n,
{
    if n <= 0 || s.len() == 0 {
        Some(Seq::empty())
    } else {
        match itens_em_listas(s, d, p, n - 1) {
            None => None,
            Some(l) => match em_listas(s.skip(1), d.subrange((n - 1) * p, n * p)) {
                None => None,
                Some(v) => Some(l.push(v)),
            },
        }
    }
}

proof fn lema_itens_em_listas(s: Seq<usize>, d: Seq<(u64, Seq<char>)>, p: int, n: int, m: int)
    requires
        0 <= n <= m,
        s.len() > 0,
        itens_em_listas(s, d, p, n) is None,
    ensures
        itens_em_listas(s, d, p, m) is None,
    decreases m - n,
{
    if n < m {
        lema_itens_em_listas(s, d, p, n + 1, m);
    }
}

/// As listas aninhadas de um tensor; nada se os numeros nao chegam.
pub fn vm_tensor_para_lista(shape: &[usize], dados: &[Decimal]) -> (r: Option<VmValor>)
    ensures
        match r {
            Some(v) => em_listas(shape@, vm::numeros(dados@)) == Some(v@),
            None => em_listas(shape@, vm::numeros(dados@)) is None,
        },
    decreases shape@.len(),
{
    let ghost ds = vm::numeros(dados@);
    assert(shape@.len() == shape.len() && dados@.len() == dados.len());
    if shape.len() == 0 {
        return None;
    }
    if shape.len() == 1 {
        if dados.len() < shape[0] {
            return None;
        }
        let mut l: Vec<VmValor> = Vec::new();
        let mut i: usize = 0;
        while i < shape[0]
            invariant
                i <= shape@[0],
                shape@.len() == 1,
                shape@[0] <= dados@.len(),
                ds == vm::numeros(dados@),
                l@.len() == i,
                forall|k: int| 0 <= k < i ==> (#[trigger] l@[k])@ == vm::Visto::Num(ds[k].0, ds[k].1),
            decreases shape@[0] - i,
        {
            l.push(VmValor::Num(dados[i].clone()));
            i += 1;
        }
        assert(vm::vistos(l@) =~= Seq::new(shape@[0] as nat, |i: int| vm::Visto::Num(ds[i].0, ds[i].1)));
        return Some(VmValor::Lista(l));
    }
    let resto = vstd::slice::slice_subrange(shape, 1, shape.len());
    assert(resto@ =~= shape@.skip(1));
    let p = match multiplicar(resto) {
        Some(p) => p,
        None => return None,
    };
    let n = shape[0];
    proof {
        assert((n as u128) * (p as u128) <= u64::MAX as u128 * u64::MAX as u128) by (nonlinear_arith)
            requires
                n <= u64::MAX,
                p <= u64::MAX,
        ;
        assert(u64::MAX as u128 * u64::MAX as u128 <= u128::MAX) by (nonlinear_arith);
    }
    if (n as u128) * (p as u128) > dados.len() as u128 {
        return None;
    }
    let mut l: Vec<VmValor> = Vec::new();
    assert(vm::vistos(l@) =~= Seq::empty());
    let mut i: usize = 0;
    while i < n
        invariant
            i <= n,
            n == shape@[0],
            shape@.len() > 1,
            resto@ == shape@.skip(1),
            produto(shape@.skip(1)) == Some(p as int),
            n * p <= dados@.len(),
            dados@.len() == dados.len(),
            ds == vm::numeros(dados@),
            itens_em_listas(shape@, ds, p as int, i as int) == Some(vm::vistos(l@)),
        decreases n - i,
    {
        proof {
            assert(0 <= i * p <= (i + 1) * p <= n * p) by (nonlinear_arith)
                requires
                    0 <= i < n,
                    p >= 0,
            ;
            assert(i * p + p == (i + 1) * p) by (nonlinear_arith);
        }
        let a = i * p;
        let parte = vstd::slice::slice_subrange(dados, a, a + p);
        assert(vm::numeros(parte@) =~= ds.subrange(i * p, (i + 1) * p));
        match vm_tensor_para_lista(resto, parte) {
            None => {
                proof {
                    lema_itens_em_listas(shape@, ds, p as int, i + 1, n as int);
                }
                return None;
            },
            Some(v) => {
                let ghost antes = l@;
                let ghost x = v@;
                l.push(v);
                assert(vm::vistos(l@) =~= vm::vistos(antes).push(x));
            },
        }
        i += 1;
    }
    Some(VmValor::Lista(l))
}

// ---- Os comandos com tensores -----------------------------------------------------------

/// O que um comando com um tensor da.
pub open spec fn unaria(op: bytecode::Comando, t: vm::Visto) -> operacoes::SaidaVista {
    match op {
        bytecode::Comando::TensorTranspor => transposto(t),
        bytecode::Comando::TensorReLU => mapeado(OpTensor::ReLU, "tensor_relu"@, t),
        bytecode::Comando::TensorSigmoid => mapeado(OpTensor::Sigmoid, "tensor_sigmoid"@, t),
        bytecode::Comando::TensorSoftmax => mapeado(OpTensor::Softmax, "tensor_softmax"@, t),
        bytecode::Comando::TensorTanh => mapeado(OpTensor::Tanh, "tensor_tanh"@, t),
        bytecode::Comando::TensorNeg => mapeado(OpTensor::Neg, "tensor_neg"@, t),
        bytecode::Comando::TensorExp => mapeado(OpTensor::Exp, "tensor_exp"@, t),
        bytecode::Comando::TensorLog => mapeado(OpTensor::Log, "tensor_log"@, t),
        bytecode::Comando::TensorSqrt => mapeado(OpTensor::Sqrt, "tensor_sqrt"@, t),
        bytecode::Comando::TensorSomaTotal => reduzido(OpTensor::SomaTotal, "tensor_soma_total"@, t),
        bytecode::Comando::TensorMediaTotal => media(t),
        bytecode::Comando::TensorMaxTotal => reduzido(OpTensor::MaxTotal, "tensor_max"@, t),
        _ => reduzido(OpTensor::MinTotal, "tensor_min"@, t),
    }
}

/// Executa um comando com um tensor.
pub fn executar_unaria(op: &Op, t: VmValor) -> (r: Saida)
    ensures
        r@ == unaria(op@, t@),
{
    match op {
        Op::TensorTranspor => vm_tensor_transpor(t),
        Op::TensorReLU => vm_tensor_map(t, OpTensor::ReLU, "tensor_relu"),
        Op::TensorSigmoid => vm_tensor_map(t, OpTensor::Sigmoid, "tensor_sigmoid"),
        Op::TensorSoftmax => vm_tensor_map(t, OpTensor::Softmax, "tensor_softmax"),
        Op::TensorTanh => vm_tensor_map(t, OpTensor::Tanh, "tensor_tanh"),
        Op::TensorNeg => vm_tensor_map(t, OpTensor::Neg, "tensor_neg"),
        Op::TensorExp => vm_tensor_map(t, OpTensor::Exp, "tensor_exp"),
        Op::TensorLog => vm_tensor_map(t, OpTensor::Log, "tensor_log"),
        Op::TensorSqrt => vm_tensor_map(t, OpTensor::Sqrt, "tensor_sqrt"),
        Op::TensorSomaTotal => vm_tensor_reducao_global(t, OpTensor::SomaTotal, "tensor_soma_total"),
        Op::TensorMediaTotal => calcular_media(t),
        Op::TensorMaxTotal => vm_tensor_reducao_global(t, OpTensor::MaxTotal, "tensor_max"),
        _ => vm_tensor_reducao_global(t, OpTensor::MinTotal, "tensor_min"),
    }
}

/// O que um comando com dois operandos, um deles um tensor, da.
pub open spec fn binaria(op: bytecode::Comando, a: vm::Visto, b: vm::Visto) -> operacoes::SaidaVista {
    match op {
        bytecode::Comando::TensorMatMul => produto_matrizes(a, b),
        bytecode::Comando::TensorAdd => elemento_a_elemento(OpTensor::Soma, "tensor_add"@, a, b),
        bytecode::Comando::TensorSub => elemento_a_elemento(OpTensor::Sub, "tensor_sub"@, a, b),
        bytecode::Comando::TensorMulElem => elemento_a_elemento(OpTensor::Mul, "tensor_mul"@, a, b),
        bytecode::Comando::TensorDivElem => elemento_a_elemento(OpTensor::Div, "tensor_div"@, a, b),
        bytecode::Comando::TensorPow => potencia(a, b),
        bytecode::Comando::TensorSomaEixo => reduzido_no_eixo(OpTensor::SomaEixo, "tensor_soma_eixo"@, a, b),
        bytecode::Comando::TensorMediaEixo => reduzido_no_eixo(OpTensor::MediaEixo, "tensor_media_eixo"@, a, b),
        bytecode::Comando::TensorMaxEixo => reduzido_no_eixo(OpTensor::MaxEixo, "tensor_max_eixo"@, a, b),
        bytecode::Comando::TensorMinEixo => reduzido_no_eixo(OpTensor::MinEixo, "tensor_min_eixo"@, a, b),
        bytecode::Comando::TensorConcatenar => concatenado(a, b),
        _ => empilhado(a, b),
    }
}

/// A falha de um comando cujo operando de cima nao serve: sabe-se dela antes de haver o de baixo.
pub open spec fn recusa_do_topo(op: bytecode::Comando, b: vm::Visto) -> Option<operacoes::SaidaVista> {
    if op is TensorPow {
        if operacoes::numero_de(b) is None {
            Some(expoente_invalido(b))
        } else {
            None
        }
    } else {
        match nome_do_eixo(op) {
            Some(ctx) if eixo_de(b) is None => Some(eixo_invalido(ctx, b)),
            _ => None,
        }
    }
}

/// O nome com que um comando que le um eixo falha.
pub open spec fn nome_do_eixo(op: bytecode::Comando) -> Option<Seq<char>> {
    match op {
        bytecode::Comando::TensorSomaEixo => Some("tensor_soma_eixo"@),
        bytecode::Comando::TensorMediaEixo => Some("tensor_media_eixo"@),
        bytecode::Comando::TensorMaxEixo => Some("tensor_max_eixo"@),
        bytecode::Comando::TensorMinEixo => Some("tensor_min_eixo"@),
        bytecode::Comando::TensorConcatenar => Some("tensor_concatenar"@),
        bytecode::Comando::TensorEmpilhar => Some("tensor_empilhar"@),
        _ => None,
    }
}

fn dizer_nome_do_eixo(op: &Op) -> (r: Option<&'static str>)
    ensures
        match r {
            Some(s) => nome_do_eixo(op@) == Some(s@),
            None => nome_do_eixo(op@) is None,
        },
{
    match op {
        Op::TensorSomaEixo => Some("tensor_soma_eixo"),
        Op::TensorMediaEixo => Some("tensor_media_eixo"),
        Op::TensorMaxEixo => Some("tensor_max_eixo"),
        Op::TensorMinEixo => Some("tensor_min_eixo"),
        Op::TensorConcatenar => Some("tensor_concatenar"),
        Op::TensorEmpilhar => Some("tensor_empilhar"),
        _ => None,
    }
}

/// A falha de um comando cujo operando de cima nao serve.
pub fn recusar_topo(op: &Op, b: &VmValor) -> (r: Option<Saida>)
    ensures
        match r {
            Some(s) => recusa_do_topo(op@, b@) == Some(s@),
            None => recusa_do_topo(op@, b@) is None,
        },
{
    if let Op::TensorPow = op {
        return match em_numero(b) {
            None => Some(recusar_expoente(b)),
            Some(_) => None,
        };
    }
    match dizer_nome_do_eixo(op) {
        None => None,
        Some(ctx) => match ler_eixo(b) {
            None => Some(recusar_eixo(ctx, b)),
            Some(_) => None,
        },
    }
}

/// Executa um comando com dois operandos, um deles um tensor.
pub fn executar_binaria(op: &Op, a: VmValor, b: VmValor) -> (r: Saida)
    ensures
        r@ == binaria(op@, a@, b@),
{
    match op {
        Op::TensorMatMul => vm_tensor_matmul(a, b),
        Op::TensorAdd => vm_tensor_binop(a, b, OpTensor::Soma, "tensor_add"),
        Op::TensorSub => vm_tensor_binop(a, b, OpTensor::Sub, "tensor_sub"),
        Op::TensorMulElem => vm_tensor_binop(a, b, OpTensor::Mul, "tensor_mul"),
        Op::TensorDivElem => vm_tensor_binop(a, b, OpTensor::Div, "tensor_div"),
        Op::TensorPow => elevar(a, b),
        Op::TensorSomaEixo => vm_tensor_reducao_eixo(a, b, OpTensor::SomaEixo, "tensor_soma_eixo"),
        Op::TensorMediaEixo => vm_tensor_reducao_eixo(a, b, OpTensor::MediaEixo, "tensor_media_eixo"),
        Op::TensorMaxEixo => vm_tensor_reducao_eixo(a, b, OpTensor::MaxEixo, "tensor_max_eixo"),
        Op::TensorMinEixo => vm_tensor_reducao_eixo(a, b, OpTensor::MinEixo, "tensor_min_eixo"),
        Op::TensorConcatenar => vm_tensor_concatenar(a, b),
        _ => vm_tensor_empilhar(a, b),
    }
}

} // verus!
