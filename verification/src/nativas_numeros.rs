//! As funcoes nativas da maquina de pilha que fazem contas com numeros com ponto: o que elas querem
//! receber antes de a conta ser pedida.

use vstd::prelude::*;
use crate::decimal::Decimal;
use crate::nativas;
use crate::operacoes::Saida;
use crate::operacoes;
use crate::vm::{frase, VmValor};
use crate::vm;

verus! {

/// Os bits do numero pi.
pub const PI: u64 = 0x400921FB54442D18;

/// Se uma funcao faz uma conta com um numero.
pub open spec fn de_um_numero(nome: Seq<char>) -> bool {
    nome == "raiz"@ || nome == "absoluto"@ || nome == "piso"@ || nome == "teto"@
}

/// As funcoes de numeros com ponto.
pub open spec fn de_numeros(nome: Seq<char>, a: Seq<vm::Visto>) -> Option<operacoes::SaidaVista> {
    if de_um_numero(nome) {
        Some(
            if a.len() != 1 {
                nativas::quer_um(nome, a.len())
            } else if a[0] is Num {
                nativas::pedida(nome, a)
            } else {
                nativas::nao_serve("'"@ + nome + "' requer número, recebeu "@, a[0])
            },
        )
    } else if nome == "arredondar"@ {
        Some(
            if (a.len() == 1 && a[0] is Num) || (a.len() == 2 && a[0] is Num && a[1] is Num) {
                nativas::pedida(nome, a)
            } else {
                nativas::falha("arredondar(n) ou arredondar(n, casas)"@)
            },
        )
    } else if nome == "minimo"@ || nome == "maximo"@ {
        Some(
            if a.len() == 2 && a[0] is Num && a[1] is Num {
                nativas::pedida(nome, a)
            } else {
                nativas::falha(nome + "(a,b)"@)
            },
        )
    } else if nome == "pi"@ {
        Some(nativas::da(vm::Visto::Num(PI, "3.141592653589793"@)))
    } else {
        None
    }
}

fn eh_num(v: &VmValor) -> (r: bool)
    ensures
        r == v@ is Num,
{
    match v {
        VmValor::Num(_) => true,
        _ => false,
    }
}

/// As funcoes de numeros com ponto.
pub fn com_numeros(nome: &str, a: &Vec<VmValor>) -> (r: Option<Saida>)
    ensures
        nativas::talvez(r) == de_numeros(nome@, vm::vistos(a@)),
{
    let n: usize = a.len();
    let ghost vs = vm::vistos(a@);
    assert(vs.len() == n);
    assert(n > 0 ==> vs[0] == a@[0]@);
    assert(n > 1 ==> vs[1] == a@[1]@);
    if nome.eq("raiz") || nome.eq("absoluto") || nome.eq("piso") || nome.eq("teto") {
        if n != 1 {
            return Some(nativas::dizer_quer_um(nome, n));
        }
        if eh_num(&a[0]) {
            return Some(nativas::pedir(nome, a));
        }
        let inicio = frase("'", nome, "' requer número, recebeu ");
        return Some(nativas::recusar(inicio.as_str(), &a[0]));
    }
    if nome.eq("arredondar") {
        if (n == 1 && eh_num(&a[0])) || (n == 2 && eh_num(&a[0]) && eh_num(&a[1])) {
            return Some(nativas::pedir(nome, a));
        }
        return Some(nativas::falhar("arredondar(n) ou arredondar(n, casas)"));
    }
    if nome.eq("minimo") || nome.eq("maximo") {
        if n == 2 && eh_num(&a[0]) && eh_num(&a[1]) {
            return Some(nativas::pedir(nome, a));
        }
        let mut m = nome.to_owned();
        m.append("(a,b)");
        return Some(Saida::Falha(m));
    }
    if nome.eq("pi") {
        return Some(Saida::Valor(VmValor::Num(Decimal { bits: PI, texto: "3.141592653589793".to_owned() })));
    }
    None
}

/// A falha de um texto que nao se le como numero.
pub open spec fn nao_converte(nome: Seq<char>, s: Seq<char>) -> Seq<char> {
    if nome == "inteiro"@ {
        "'inteiro' não pode converter '"@ + s + "'"@
    } else {
        "Não é possível converter '"@ + s + "' para número"@
    }
}

/// A falha de um texto que nao se le como numero.
pub fn dizer_nao_converte(nome: &str, s: &str) -> (r: String)
    ensures
        r@ == nao_converte(nome@, s@),
{
    if nome.eq("inteiro") {
        frase("'inteiro' não pode converter '", s, "'")
    } else {
        frase("Não é possível converter '", s, "' para número")
    }
}

} // verus!
