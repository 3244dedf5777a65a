//! As funcoes nativas do interpretador chamadas da maquina de pilha: os argumentos passam a valores
//! do interpretador, e o que a funcao da volta a ser um valor da maquina.

use vstd::prelude::*;
use crate::aplicar::Feito;
use crate::aplicar;
use crate::conversao::{valor_para_vm, vm_para_valor};
use crate::conversao;
use crate::nativas;
use crate::nativas_arvore::{chamar_nativa, Chamado};
use crate::nativas_arvore;
use crate::operacoes::{Pedido, Saida};
use crate::operacoes;
use crate::valor::Valor;
use crate::valor;
use crate::vm::VmValor;
use crate::vm;

verus! {

/// Os valores do interpretador de varios valores da maquina.
pub open spec fn do_outro_lado(a: Seq<vm::Visto>) -> Seq<valor::Dado> {
    a.map_values(|v: vm::Visto| conversao::dado_de(v))
}

fn passar(a: &Vec<VmValor>) -> (r: Vec<Valor>)
    ensures
        valor::vistos(r@) == do_outro_lado(vm::vistos(a@)),
{
    let mut r: Vec<Valor> = Vec::new();
    let mut i: usize = 0;
    while i < a.len()
        invariant
            i <= a@.len(),
            r@.len() == i,
            forall|k: int| 0 <= k < i ==> (#[trigger] r@[k])@ == conversao::dado_de(a@[k]@),
        decreases a@.len() - i,
    {
        r.push(vm_para_valor(&a[i]));
        i += 1;
    }
    assert(valor::vistos(r@) =~= do_outro_lado(vm::vistos(a@)));
    r
}

/// O que uma funcao do interpretador da na maquina. A que chama outras funcoes, ou e pedida por
/// inteiro, a maquina tambem a pede.
pub open spec fn passada(nome: Seq<char>, a: Seq<vm::Visto>) -> operacoes::SaidaVista {
    match nativas_arvore::nativa(nome, do_outro_lado(a)) {
        nativas_arvore::ChamadoVisto::Feito(f) => match f {
            aplicar::FeitoVisto::Valor(v) => nativas::da(conversao::visto_de(v)),
            aplicar::FeitoVisto::Conta { op, a, b } => operacoes::SaidaVista::Pede(
                operacoes::PedidoVisto::Conta { op, a, b, inteira: false },
            ),
            aplicar::FeitoVisto::Negar(b) => operacoes::SaidaVista::Pede(operacoes::PedidoVisto::Negar(b)),
            aplicar::FeitoVisto::Falha(m) => nativas::falha(m),
            aplicar::FeitoVisto::Panico => operacoes::SaidaVista::Panico,
        },
        nativas_arvore::ChamadoVisto::Conta(p) => operacoes::SaidaVista::Pede(operacoes::PedidoVisto::Tensor(p)),
        _ => nativas::pedida(nome, a),
    }
}

/// Chama uma funcao do interpretador.
pub fn chamar(nome: &str, a: Vec<VmValor>) -> (r: Saida)
    ensures
        r@ == passada(nome@, vm::vistos(a@)),
{
    let args = passar(&a);
    match chamar_nativa(nome, &args) {
        Chamado::Feito(f) => match f {
            Feito::Valor(v) => Saida::Valor(valor_para_vm(&v)),
            Feito::Conta { op, a, b } => Saida::Pede(Pedido::Conta { op, a, b, inteira: false }),
            Feito::Negar(b) => Saida::Pede(Pedido::Negar(b)),
            Feito::Falha(m) => Saida::Falha(m),
            Feito::Panico => Saida::Panico,
        },
        Chamado::Conta(p) => Saida::Pede(Pedido::Tensor(p)),
        _ => Saida::Pede(Pedido::Nativa { nome: nome.to_owned(), args: a }),
    }
}

} // verus!
