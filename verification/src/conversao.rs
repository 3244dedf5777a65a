//! A passagem de valores entre a maquina de pilha e o interpretador da arvore.

use vstd::prelude::*;
use crate::ast::copiar_textos;
use crate::busca::copia;
use crate::valor::Valor;
use crate::valor;
use crate::vm::{copiar_numeros, copiar_shape, VmValor};
use crate::vm;

verus! {

/// O valor do interpretador que corresponde a um da maquina. Uma funcao compilada nao tem
/// correspondente; um tensor derivavel perde a identidade.
pub open spec fn dado_de(v: vm::Visto) -> valor::Dado
    decreases v,
{
    match v {
        vm::Visto::Int(n) => valor::Dado::Inteiro(n),
        vm::Visto::Num(b, t) => valor::Dado::Numero(b, t),
        vm::Visto::Str(s) => valor::Dado::Texto(s),
        vm::Visto::Bool(b) => valor::Dado::Booleano(b),
        vm::Visto::Null => valor::Dado::Nulo,
        vm::Visto::Lista(l) => valor::Dado::Lista(
            Seq::new(
                l.len(),
                |i: int|
                    if 0 <= i < l.len() {
                        dado_de(l[i])
                    } else {
                        arbitrary()
                    },
            ),
        ),
        vm::Visto::Mapa(m) => valor::Dado::Mapa(
            Seq::new(
                m.len(),
                |i: int|
                    if 0 <= i < m.len() {
                        (m[i].0, dado_de(m[i].1))
                    } else {
                        arbitrary()
                    },
            ),
        ),
        vm::Visto::Tensor { shape, dados, .. } => valor::Dado::Tensor { shape, dados },
        vm::Visto::TensorGrad { shape, dados, .. } => valor::Dado::Tensor { shape, dados },
        vm::Visto::Bytes(b) => valor::Dado::Bytes(b),
        vm::Visto::ConexaoBD(id) => valor::Dado::ConexaoBD(id),
        vm::Visto::ConexaoSQLite(id) => valor::Dado::ConexaoSQLite(id),
        vm::Visto::Erro { tipo, mensagem, pilha } => valor::Dado::Erro { tipo, mensagem, pilha },
        vm::Visto::Funcao { params, corpo } => valor::Dado::Nulo,
    }
}

/// O valor da maquina que corresponde a um do interpretador. Uma funcao nao tem correspondente.
pub open spec fn visto_de(v: valor::Dado) -> vm::Visto
    decreases v,
{
    match v {
        valor::Dado::Inteiro(n) => vm::Visto::Int(n),
        valor::Dado::Numero(b, t) => vm::Visto::Num(b, t),
        valor::Dado::Texto(s) => vm::Visto::Str(s),
        valor::Dado::Booleano(b) => vm::Visto::Bool(b),
        valor::Dado::Nulo => vm::Visto::Null,
        valor::Dado::Lista(l) => vm::Visto::Lista(
            Seq::new(
                l.len(),
                |i: int|
                    if 0 <= i < l.len() {
                        visto_de(l[i])
                    } else {
                        arbitrary()
                    },
            ),
        ),
        valor::Dado::Mapa(m) => vm::Visto::Mapa(
            Seq::new(
                m.len(),
                |i: int|
                    if 0 <= i < m.len() {
                        (m[i].0, visto_de(m[i].1))
                    } else {
                        arbitrary()
                    },
            ),
        ),
        valor::Dado::Tensor { shape, dados } => vm::Visto::Tensor { shape, dados, marca: 0 },
        valor::Dado::Bytes(b) => vm::Visto::Bytes(b),
        valor::Dado::ConexaoBD(id) => vm::Visto::ConexaoBD(id),
        valor::Dado::ConexaoSQLite(id) => vm::Visto::ConexaoSQLite(id),
        valor::Dado::Erro { tipo, mensagem, pilha } => vm::Visto::Erro { tipo, mensagem, pilha },
        valor::Dado::Funcao { parametros, corpo, ambiente } => vm::Visto::Null,
        valor::Dado::FuncaoNativa(n) => vm::Visto::Null,
    }
}

/// Converte um valor da maquina.
pub fn vm_para_valor(v: &VmValor) -> (r: Valor)
    ensures
        r@ == dado_de(v@),
    decreases v,
{
    match v {
        VmValor::Int(n) => Valor::Inteiro(*n),
        VmValor::Num(d) => Valor::Numero(d.clone()),
        VmValor::Str(s) => Valor::Texto(s.clone()),
        VmValor::Bool(b) => Valor::Booleano(*b),
        VmValor::Null => Valor::Nulo,
        VmValor::Lista(l) => {
            let mut r: Vec<Valor> = Vec::new();
            let mut i: usize = 0;
            while i < l.len()
                invariant
                    i <= l@.len(),
                    r@.len() == i,
                    forall|k: int| 0 <= k < i ==> (#[trigger] r@[k])@ == dado_de(l@[k]@),
                    decreases_to!(v => l),
                decreases l@.len() - i,
            {
                r.push(vm_para_valor(&l[i]));
                i += 1;
            }
            let s = Valor::Lista(r);
            assert(s@->Lista_0 =~= dado_de(v@)->Lista_0);
            s
        },
        VmValor::Mapa(m) => {
            let mut r: Vec<(String, Valor)> = Vec::new();
            let mut i: usize = 0;
            while i < m.len()
                invariant
                    i <= m@.len(),
                    r@.len() == i,
                    forall|k: int|
                        0 <= k < i ==> (#[trigger] r@[k]).0@ == m@[k].0@ && r@[k].1@ == dado_de(m@[k].1@),
                    decreases_to!(v => m),
                decreases m@.len() - i,
            {
                r.push((m[i].0.clone(), vm_para_valor(&m[i].1)));
                i += 1;
            }
            let s = Valor::Mapa(r);
            assert(s@->Mapa_0 =~= dado_de(v@)->Mapa_0);
            s
        },
        VmValor::Tensor { shape, dados, .. } => Valor::Tensor { shape: copiar_shape(shape), dados: copiar_numeros(dados) },
        VmValor::TensorGrad { shape, dados, .. } => Valor::Tensor {
            shape: copiar_shape(shape),
            dados: copiar_numeros(dados),
        },
        VmValor::Bytes(b) => Valor::Bytes(copia(b.as_slice())),
        VmValor::ConexaoBD(id) => Valor::ConexaoBD(*id),
        VmValor::ConexaoSQLite(id) => Valor::ConexaoSQLite(*id),
        VmValor::Erro { tipo, mensagem, pilha } => Valor::Erro {
            tipo: tipo.clone(),
            mensagem: mensagem.clone(),
            pilha: copiar_textos(pilha),
        },
        VmValor::Funcao { params: _, corpo: _ } => Valor::Nulo,
    }
}

/// Converte um valor do interpretador.
pub fn valor_para_vm(v: &Valor) -> (r: VmValor)
    ensures
        r@ == visto_de(v@),
    decreases v,
{
    match v {
        Valor::Inteiro(n) => VmValor::Int(*n),
        Valor::Numero(d) => VmValor::Num(d.clone()),
        Valor::Texto(s) => VmValor::Str(s.clone()),
        Valor::Booleano(b) => VmValor::Bool(*b),
        Valor::Nulo => VmValor::Null,
        Valor::Lista(l) => {
            let mut r: Vec<VmValor> = Vec::new();
            let mut i: usize = 0;
            while i < l.len()
                invariant
                    i <= l@.len(),
                    r@.len() == i,
                    forall|k: int| 0 <= k < i ==> (#[trigger] r@[k])@ == visto_de(l@[k]@),
                    decreases_to!(v => l),
                decreases l@.len() - i,
            {
                r.push(valor_para_vm(&l[i]));
                i += 1;
            }
            let s = VmValor::Lista(r);
            assert(s@->Lista_0 =~= visto_de(v@)->Lista_0);
            s
        },
        Valor::Mapa(m) => {
            let mut r: Vec<(String, VmValor)> = Vec::new();
            let mut i: usize = 0;
            while i < m.len()
                invariant
                    i <= m@.len(),
                    r@.len() == i,
                    forall|k: int|
                        0 <= k < i ==> (#[trigger] r@[k]).0@ == m@[k].0@ && r@[k].1@ == visto_de(m@[k].1@),
                    decreases_to!(v => m),
                decreases m@.len() - i,
            {
                r.push((m[i].0.clone(), valor_para_vm(&m[i].1)));
                i += 1;
            }
            let s = VmValor::Mapa(r);
            assert(s@->Mapa_0 =~= visto_de(v@)->Mapa_0);
            s
        },
        Valor::Tensor { shape, dados } => VmValor::Tensor {
            shape: copiar_shape(shape),
            dados: copiar_numeros(dados),
            marca: 0,
        },
        Valor::Bytes(b) => VmValor::Bytes(copia(b.as_slice())),
        Valor::ConexaoBD(id) => VmValor::ConexaoBD(*id),
        Valor::ConexaoSQLite(id) => VmValor::ConexaoSQLite(*id),
        Valor::Erro { tipo, mensagem, pilha } => VmValor::Erro {
            tipo: tipo.clone(),
            mensagem: mensagem.clone(),
            pilha: copiar_textos(pilha),
        },
        Valor::Funcao { parametros: _, corpo: _, ambiente: _ } => VmValor::Null,
        Valor::FuncaoNativa(_) => VmValor::Null,
    }
}

/// Se um valor da maquina nao tem, nem dentro dele, funcao, tensor derivavel ou tensor com marca.
pub open spec fn transferivel(v: vm::Visto) -> bool
    decreases v,
{
    match v {
        vm::Visto::Funcao { params, corpo } => false,
        vm::Visto::TensorGrad { .. } => false,
        vm::Visto::Tensor { marca, .. } => marca == 0,
        vm::Visto::Lista(l) => forall|i: int| 0 <= i < l.len() ==> transferivel(#[trigger] l[i]),
        vm::Visto::Mapa(m) => forall|i: int| 0 <= i < m.len() ==> transferivel((#[trigger] m[i]).1),
        _ => true,
    }
}

/// Um valor da maquina sem funcoes, tensores derivaveis nem tensores com marca volta igual do
/// interpretador, que nao guarda a marca.
pub proof fn lei_conversao(v: vm::Visto)
    requires
        transferivel(v),
    ensures
        visto_de(dado_de(v)) == v,
    decreases v,
{
    match v {
        vm::Visto::Lista(l) => {
            assert forall|i: int| 0 <= i < l.len() implies visto_de(dado_de(#[trigger] l[i])) == l[i] by {
                lei_conversao(l[i]);
            }
            assert(visto_de(dado_de(v))->Lista_0 =~= l);
        },
        vm::Visto::Mapa(m) => {
            assert forall|i: int| 0 <= i < m.len() implies visto_de(dado_de((#[trigger] m[i]).1)) == m[i].1 by {
                lei_conversao(m[i].1);
            }
            assert(visto_de(dado_de(v))->Mapa_0 =~= m);
        },
        _ => {},
    }
}

} // verus!
