//! Onde ficam os dados de cada tensor: um registro das marcas deles para os dispositivos.

use std::collections::HashMap;
use vstd::prelude::*;
use crate::decimal;
use crate::nativas;
use crate::operacoes::{Pedido, Saida};
use crate::operacoes;
use crate::tensor;
use crate::texto;
use crate::vm::{copiar_numeros, copiar_shape, Dispositivo, VmValor};
use crate::vm;

verus! {

broadcast use vstd::std_specs::hash::group_hash_axioms;

/// A ultima marca dada e o dispositivo de cada marca.
pub struct Registro {
    pub marcas: u64,
    pub dispositivos: HashMap<u64, Dispositivo>,
}

/// O que um registro representa.
pub ghost struct RegistroVisto {
    pub marcas: u64,
    pub dispositivos: Map<u64, Dispositivo>,
}

impl Registro {
    pub open spec fn view(&self) -> RegistroVisto {
        RegistroVisto { marcas: self.marcas, dispositivos: self.dispositivos@ }
    }
}

/// O registro sem marcas.
pub open spec fn vazio() -> RegistroVisto {
    RegistroVisto { marcas: 0, dispositivos: Map::empty() }
}

/// Se nenhum dispositivo e de uma marca que ainda nao se deu.
pub open spec fn valido(r: RegistroVisto) -> bool {
    forall|k: u64| #[trigger] r.dispositivos.contains_key(k) ==> k <= r.marcas
}

/// O dispositivo de uma marca; sem registro, o processador.
pub open spec fn dispositivo_de(r: RegistroVisto, marca: u64) -> Dispositivo {
    if r.dispositivos.contains_key(marca) {
        r.dispositivos[marca]
    } else {
        Dispositivo::Cpu
    }
}

/// Um valor com a sua marca: a um tensor que nao a tem da-se a seguinte, enquanto as ha.
pub open spec fn marcado(r: RegistroVisto, v: vm::Visto) -> (RegistroVisto, vm::Visto) {
    if r.marcas == u64::MAX {
        (r, v)
    } else {
        let n = (r.marcas + 1) as u64;
        match v {
            vm::Visto::Tensor { shape, dados, marca } if marca == 0 => (
                RegistroVisto { marcas: n, ..r },
                vm::Visto::Tensor { shape, dados, marca: n },
            ),
            vm::Visto::TensorGrad { shape, dados, id, marca } if marca == 0 => (
                RegistroVisto { marcas: n, ..r },
                vm::Visto::TensorGrad { shape, dados, id, marca: n },
            ),
            _ => (r, v),
        }
    }
}

/// O que se faz com o dispositivo de um tensor.
#[derive(Debug)]
pub enum PedidoDispositivo {
    /// Dizer o dispositivo de uma marca.
    Consultar(u64),
    /// Passar um tensor para um dispositivo.
    Mover(VmValor, Dispositivo),
}

/// O que um pedido representa.
pub ghost enum PedidoDispositivoVisto {
    Consultar(u64),
    Mover(vm::Visto, Dispositivo),
}

impl PedidoDispositivo {
    pub open spec fn view(&self) -> PedidoDispositivoVisto {
        match self {
            PedidoDispositivo::Consultar(k) => PedidoDispositivoVisto::Consultar(*k),
            PedidoDispositivo::Mover(v, d) => PedidoDispositivoVisto::Mover(v@, *d),
        }
    }
}

/// O registro e o valor depois de um pedido: o nome do dispositivo, ou o mesmo tensor, ja
/// registrado.
pub open spec fn atendido(r: RegistroVisto, p: PedidoDispositivoVisto) -> (RegistroVisto, vm::Visto) {
    match p {
        PedidoDispositivoVisto::Consultar(k) => (r, vm::Visto::Str(vm::nome_dispositivo(dispositivo_de(r, k)))),
        PedidoDispositivoVisto::Mover(t, d) => {
            let (s, v) = marcado(r, t);
            (RegistroVisto { dispositivos: s.dispositivos.insert(tensor::marca_de(v), d), ..s }, v)
        },
    }
}

impl Registro {
    /// Um registro sem marcas.
    pub fn novo() -> (r: Self)
        ensures
            r@ == vazio(),
    {
        Registro { marcas: 0, dispositivos: HashMap::new() }
    }

    /// O dispositivo de uma marca.
    pub fn obter_dispositivo(&self, marca: u64) -> (r: Dispositivo)
        ensures
            r == dispositivo_de(self@, marca),
    {
        match self.dispositivos.get(&marca) {
            Some(d) => *d,
            None => Dispositivo::Cpu,
        }
    }

    /// Regista o dispositivo de uma marca.
    pub fn registrar_dispositivo(&mut self, marca: u64, d: Dispositivo)
        ensures
            final(self)@ == (RegistroVisto { dispositivos: old(self)@.dispositivos.insert(marca, d), ..old(self)@ }),
    {
        let _antes = self.dispositivos.insert(marca, d);
    }

    /// Da a um valor a sua marca.
    pub fn marcar(&mut self, v: VmValor) -> (r: VmValor)
        ensures
            (final(self)@, r@) == marcado(old(self)@, v@),
    {
        if self.marcas == u64::MAX {
            return v;
        }
        match v {
            VmValor::Tensor { shape, dados, marca } => {
                if marca == 0 {
                    self.marcas = self.marcas + 1;
                    VmValor::Tensor { shape, dados, marca: self.marcas }
                } else {
                    VmValor::Tensor { shape, dados, marca }
                }
            },
            VmValor::TensorGrad { shape, dados, id, marca } => {
                if marca == 0 {
                    self.marcas = self.marcas + 1;
                    VmValor::TensorGrad { shape, dados, id, marca: self.marcas }
                } else {
                    VmValor::TensorGrad { shape, dados, id, marca }
                }
            },
            outro => outro,
        }
    }

    /// Atende um pedido.
    pub fn atender(&mut self, p: PedidoDispositivo) -> (r: VmValor)
        ensures
            (final(self)@, r@) == atendido(old(self)@, p@),
    {
        match p {
            PedidoDispositivo::Consultar(k) => VmValor::Str(self.obter_dispositivo(k).nome()),
            PedidoDispositivo::Mover(t, d) => {
                let v = self.marcar(t);
                let k = ler_marca(&v);
                self.registrar_dispositivo(k, d);
                v
            },
        }
    }
}

fn ler_marca(v: &VmValor) -> (r: u64)
    ensures
        r == tensor::marca_de(v@),
{
    match v {
        VmValor::Tensor { marca, .. } => *marca,
        VmValor::TensorGrad { marca, .. } => *marca,
        _ => 0,
    }
}

// ---- As funcoes nativas -----------------------------------------------------------------

/// O numero da placa que um argumento diz.
pub open spec fn placa(v: vm::Visto) -> u32 {
    match v {
        vm::Visto::Int(n) => decimal::entre(n as int, 0, u32::MAX as int) as u32,
        vm::Visto::Num(b, t) => decimal::entre(decimal::inteiro_de(b), 0, u32::MAX as int) as u32,
        _ => 0,
    }
}

fn ler_placa(v: &VmValor) -> (r: u32)
    ensures
        r == placa(v@),
{
    let n: i64 = match v {
        VmValor::Int(n) => *n,
        VmValor::Num(d) => decimal::para_inteiro(d.bits),
        _ => 0,
    };
    if n < 0 {
        0
    } else if n > u32::MAX as i64 {
        u32::MAX
    } else {
        n as u32
    }
}

/// A falha de um valor que nao e tensor.
pub open spec fn requer_tensor(nome: Seq<char>, v: vm::Visto) -> operacoes::SaidaVista {
    nativas::nao_serve(nome + ": requer tensor, recebeu "@, v)
}

/// O pedido que passa um tensor para um dispositivo.
pub open spec fn movido(nome: Seq<char>, v: vm::Visto, d: Dispositivo) -> operacoes::SaidaVista {
    match tensor::tensor_de(v) {
        Some((shape, dados)) => operacoes::SaidaVista::Pede(
            operacoes::PedidoVisto::Dispositivo(
                PedidoDispositivoVisto::Mover(
                    vm::Visto::Tensor { shape, dados, marca: tensor::marca_de(v) },
                    d,
                ),
            ),
        ),
        None => requer_tensor(nome, v),
    }
}

/// As funcoes dos dispositivos. `tensor_para_gpu` escolhe a placa no segundo argumento; sem ele, a
/// primeira.
pub open spec fn de_dispositivo(nome: Seq<char>, a: Seq<vm::Visto>) -> Option<operacoes::SaidaVista> {
    if nome == "tensor_para_gpu"@ {
        Some(
            if a.len() != 1 && a.len() != 2 {
                nativas::quer_um(nome, a.len())
            } else {
                movido(
                    nome,
                    a[0],
                    Dispositivo::Cuda(
                        if a.len() == 2 {
                            placa(a[1])
                        } else {
                            0
                        },
                    ),
                )
            },
        )
    } else if nome == "tensor_dispositivo"@ || nome == "tensor_para_metal"@ || nome == "tensor_para_cpu"@ {
        Some(
            if a.len() != 1 {
                nativas::quer_um(nome, a.len())
            } else if nome == "tensor_para_metal"@ {
                movido(nome, a[0], Dispositivo::Metal)
            } else if nome == "tensor_para_cpu"@ {
                movido(nome, a[0], Dispositivo::Cpu)
            } else if tensor::tensor_de(a[0]) is Some {
                operacoes::SaidaVista::Pede(
                    operacoes::PedidoVisto::Dispositivo(
                        PedidoDispositivoVisto::Consultar(tensor::marca_de(a[0])),
                    ),
                )
            } else {
                requer_tensor(nome, a[0])
            },
        )
    } else {
        None
    }
}

fn recusar_tensor(nome: &str, v: &VmValor) -> (r: Saida)
    ensures
        r@ == requer_tensor(nome@, v@),
{
    let mut inicio = nome.to_owned();
    inicio.append(": requer tensor, recebeu ");
    nativas::recusar(inicio.as_str(), v)
}

fn mover(nome: &str, v: &VmValor, d: Dispositivo) -> (r: Saida)
    ensures
        r@ == movido(nome@, v@, d),
{
    let t = match v {
        VmValor::Tensor { shape, dados, marca } => VmValor::Tensor {
            shape: copiar_shape(shape),
            dados: copiar_numeros(dados),
            marca: *marca,
        },
        VmValor::TensorGrad { shape, dados, marca, .. } => VmValor::Tensor {
            shape: copiar_shape(shape),
            dados: copiar_numeros(dados),
            marca: *marca,
        },
        _ => return recusar_tensor(nome, v),
    };
    Saida::Pede(Pedido::Dispositivo(PedidoDispositivo::Mover(t, d)))
}

/// Chama uma funcao dos dispositivos.
pub fn com_dispositivo(nome: &str, a: &Vec<VmValor>) -> (r: Option<Saida>)
    ensures
        nativas::talvez(r) == de_dispositivo(nome@, vm::vistos(a@)),
{
    let n = a.len();
    let ghost vs = vm::vistos(a@);
    assert(vs.len() == n);
    assert(n > 0 ==> vs[0] == a@[0]@);
    assert(n > 1 ==> vs[1] == a@[1]@);
    if nome.eq("tensor_para_gpu") {
        if n != 1 && n != 2 {
            return Some(nativas::dizer_quer_um(nome, n));
        }
        let k: u32 = if n == 2 {
            ler_placa(&a[1])
        } else {
            0
        };
        return Some(mover(nome, &a[0], Dispositivo::Cuda(k)));
    }
    let metal = nome.eq("tensor_para_metal");
    let cpu = nome.eq("tensor_para_cpu");
    if metal || cpu || nome.eq("tensor_dispositivo") {
        if n != 1 {
            return Some(nativas::dizer_quer_um(nome, n));
        }
        if metal {
            return Some(mover(nome, &a[0], Dispositivo::Metal));
        }
        if cpu {
            return Some(mover(nome, &a[0], Dispositivo::Cpu));
        }
        let marca = match &a[0] {
            VmValor::Tensor { marca, .. } => *marca,
            VmValor::TensorGrad { marca, .. } => *marca,
            _ => return Some(recusar_tensor(nome, &a[0])),
        };
        return Some(Saida::Pede(Pedido::Dispositivo(PedidoDispositivo::Consultar(marca))));
    }
    None
}

// ---- Leis -------------------------------------------------------------------------------

/// Um tensor que se passa para um dispositivo volta com as mesmas dimensoes e os mesmos numeros, e
/// fica nele; os outros tensores ficam onde estavam.
pub proof fn lei_dispositivo(r: RegistroVisto, t: vm::Visto, d: Dispositivo)
    requires
        t is Tensor,
    ensures
        ({
            let (s, v) = atendido(r, PedidoDispositivoVisto::Mover(t, d));
            &&& v matches vm::Visto::Tensor { shape, dados, .. } && shape == t->Tensor_shape && dados
                == t->Tensor_dados
            &&& t->Tensor_marca != 0 ==> v == t
            &&& dispositivo_de(s, tensor::marca_de(v)) == d
            &&& forall|k: u64|
                k != tensor::marca_de(v) ==> #[trigger] dispositivo_de(s, k) == dispositivo_de(r, k)
        }),
{
}

/// Um tensor acabado de marcar esta no processador, e marcar nao muda o dispositivo de nenhum.
pub proof fn lei_marca_nova(r: RegistroVisto, t: vm::Visto)
    requires
        valido(r),
        t is Tensor,
        t->Tensor_marca == 0,
        r.marcas < u64::MAX,
    ensures
        ({
            let (s, v) = marcado(r, t);
            &&& valido(s)
            &&& dispositivo_de(s, tensor::marca_de(v)) == Dispositivo::Cpu
            &&& forall|k: u64| #[trigger] dispositivo_de(s, k) == dispositivo_de(r, k)
        }),
{
    let (s, v) = marcado(r, t);
    assert(!r.dispositivos.contains_key(s.marcas));
    assert(s.dispositivos == r.dispositivos);
}

/// O tensor que `tensor_para_gpu(t, n)` da e `t`, e `tensor_dispositivo` diz que ele esta na placa
/// `n`.
pub proof fn lei_para_gpu(r: RegistroVisto, t: vm::Visto, n: i64)
    requires
        t is Tensor,
        0 <= n <= u32::MAX,
    ensures
        nativas::nativa("tensor_para_gpu"@, seq![t, vm::Visto::Int(n)]) == operacoes::SaidaVista::Pede(
            operacoes::PedidoVisto::Dispositivo(PedidoDispositivoVisto::Mover(t, Dispositivo::Cuda(n as u32))),
        ),
        ({
            let (s, v) = atendido(r, PedidoDispositivoVisto::Mover(t, Dispositivo::Cuda(n as u32)));
            let p = PedidoDispositivoVisto::Consultar(tensor::marca_de(v));
            &&& v is Tensor && v->Tensor_shape == t->Tensor_shape && v->Tensor_dados == t->Tensor_dados
            &&& t->Tensor_marca != 0 ==> v == t
            &&& nativas::nativa("tensor_dispositivo"@, seq![v]) == operacoes::SaidaVista::Pede(
                operacoes::PedidoVisto::Dispositivo(p),
            )
            &&& atendido(s, p) == (s, vm::Visto::Str("cuda:"@ + texto::decimal(n as nat)))
        }),
{
    reveal_strlit("tensor_para_gpu");
    reveal_strlit("tensor_dispositivo");
    reveal_strlit("tensor_para_metal");
    reveal_strlit("tensor_para_cpu");
    assert("tensor_para_gpu"@.len() != "tensor_dispositivo"@.len());
    assert("tensor_para_metal"@.len() != "tensor_dispositivo"@.len());
    assert("tensor_para_cpu"@.len() != "tensor_dispositivo"@.len());
    lei_dispositivo(r, t, Dispositivo::Cuda(n as u32));
}

} // verus!
