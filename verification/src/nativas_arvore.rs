//! As funcoes nativas do interpretador.

use vstd::prelude::*;
use crate::aplicar::Feito;
use crate::aplicar;
use crate::busca;
use crate::nativas_dados;
use crate::nativas_exigidas;
use crate::nativas_pedidas;
use crate::nativas_matriz;
use crate::nativas_textos;
use crate::nativas_valores;
use crate::quantizacao;
use crate::tensor::PedidoTensor;
use crate::tensor;
use crate::texto;
use crate::valor::Valor;
use crate::valor;
use crate::vm::frase;

verus! {

/// O que uma funcao nativa da.
#[derive(Debug)]
pub enum Chamado {
    /// Um resultado.
    Feito(Feito),
    /// E pedida por inteiro.
    Pedida,
    /// Uma conta com os numeros de um ou mais tensores.
    Conta(PedidoTensor),
    /// Aplicar uma funcao a cada item.
    Mapear(Vec<Valor>, Valor),
    /// Ficar com os itens que uma funcao aceita.
    Filtrar(Vec<Valor>, Valor),
    /// Juntar os itens com uma funcao, a partir de um valor.
    Reduzir(Vec<Valor>, Valor, Valor),
    /// Chamar uma funcao e ficar com o que ela escreve.
    Capturar(Valor),
    /// Um erro, com as chamadas em que se esta.
    Erro(String, String),
    /// Escrever um texto.
    Escrever(String),
}

/// O que um resultado representa.
pub ghost enum ChamadoVisto {
    Feito(aplicar::FeitoVisto),
    Pedida,
    Conta(tensor::PedidoTensorVisto),
    Mapear(Seq<valor::Dado>, valor::Dado),
    Filtrar(Seq<valor::Dado>, valor::Dado),
    Reduzir(Seq<valor::Dado>, valor::Dado, valor::Dado),
    Capturar(valor::Dado),
    Erro(Seq<char>, Seq<char>),
    Escrever(Seq<char>),
}

impl Chamado {
    pub open spec fn view(&self) -> ChamadoVisto {
        match self {
            Chamado::Feito(f) => ChamadoVisto::Feito(f@),
            Chamado::Pedida => ChamadoVisto::Pedida,
            Chamado::Conta(p) => ChamadoVisto::Conta(p@),
            Chamado::Mapear(l, f) => ChamadoVisto::Mapear(valor::vistos(l@), f@),
            Chamado::Filtrar(l, f) => ChamadoVisto::Filtrar(valor::vistos(l@), f@),
            Chamado::Reduzir(l, f, v) => ChamadoVisto::Reduzir(valor::vistos(l@), f@, v@),
            Chamado::Capturar(f) => ChamadoVisto::Capturar(f@),
            Chamado::Erro(t, m) => ChamadoVisto::Erro(t@, m@),
            Chamado::Escrever(t) => ChamadoVisto::Escrever(t@),
        }
    }
}

/// Um valor.
pub open spec fn da(v: valor::Dado) -> ChamadoVisto {
    ChamadoVisto::Feito(aplicar::FeitoVisto::Valor(v))
}

/// Uma falha.
pub open spec fn falha(m: Seq<char>) -> ChamadoVisto {
    ChamadoVisto::Feito(aplicar::FeitoVisto::Falha(m))
}

/// A falha de um valor que nao serve.
pub open spec fn recusa(inicio: Seq<char>, v: valor::Dado) -> ChamadoVisto {
    falha(inicio + valor::texto_de(v))
}

/// A falha de um argumento de outro tipo.
pub open spec fn requer(nome: Seq<char>, o_que: Seq<char>, v: valor::Dado) -> ChamadoVisto {
    recusa("'"@ + nome + "' requer "@ + o_que + ", recebeu "@, v)
}

/// A falha de quem recebe argumentos a mais ou a menos.
pub open spec fn quer(nome: Seq<char>, k: nat, n: nat) -> ChamadoVisto {
    falha(
        "'"@ + nome + "' requer "@ + texto::decimal(k) + (if k == 1 {
            " argumento, recebeu "@
        } else {
            " argumentos, recebeu "@
        }) + texto::decimal(n),
    )
}

/// Um resultado que pode faltar, visto.
pub open spec fn talvez(c: Option<Chamado>) -> Option<ChamadoVisto> {
    match c {
        Some(x) => Some(x@),
        None => None,
    }
}

pub(crate) fn dar(v: Valor) -> (r: Chamado)
    ensures
        r@ == da(v@),
{
    Chamado::Feito(Feito::Valor(v))
}

pub(crate) fn falhar(m: &str) -> (r: Chamado)
    ensures
        r@ == falha(m@),
{
    Chamado::Feito(Feito::Falha(m.to_owned()))
}

pub(crate) fn recusar(inicio: &str, v: &Valor) -> (r: Chamado)
    ensures
        r@ == recusa(inicio@, v@),
{
    let mut s = inicio.to_owned();
    s.append(v.texto().as_str());
    Chamado::Feito(Feito::Falha(s))
}

pub(crate) fn requerer(nome: &str, o_que: &str, v: &Valor) -> (r: Chamado)
    ensures
        r@ == requer(nome@, o_que@, v@),
{
    let mut s = frase("'", nome, "' requer ");
    s.append(o_que);
    s.append(", recebeu ");
    recusar(s.as_str(), v)
}

pub(crate) fn querer(nome: &str, k: usize, n: usize) -> (r: Chamado)
    ensures
        r@ == quer(nome@, k as nat, n as nat),
{
    let mut s = frase("'", nome, "' requer ");
    s.append(texto::natural(k as u64).as_str());
    if k == 1 {
        s.append(" argumento, recebeu ");
    } else {
        s.append(" argumentos, recebeu ");
    }
    s.append(texto::natural(n as u64).as_str());
    Chamado::Feito(Feito::Falha(s))
}

/// O que uma funcao nativa da.
#[verifier::opaque]
pub open spec fn nativa(nome: Seq<char>, args: Seq<valor::Dado>) -> ChamadoVisto {
    if nome == "escrever"@ {
        ChamadoVisto::Escrever(busca::juntos(nativas_textos::textos_de(args), " "@))
    } else if nome == "nova_linha"@ {
        ChamadoVisto::Escrever("\n"@)
    } else {
        match nativas_valores::de_valores(nome, args) {
            Some(c) => c,
            None => match nativas_textos::de_textos(nome, args) {
                Some(c) => c,
                None => match nativas_dados::de_dados(nome, args) {
                    Some(c) => c,
                    None => match nativas_matriz::de_tensores(nome, args) {
                        Some(c) => c,
                        None => match nativas_exigidas::de_exigidas(nome, args) {
                            Some(c) => c,
                            None => match nativas_pedidas::de_pedidas(nome, args) {
                                Some(c) => c,
                                None => match quantizacao::de_quantizados(nome, args) {
                                    Some(c) => c,
                                    None => ChamadoVisto::Pedida,
                                },
                            },
                        },
                    },
                },
            },
        }
    }
}

/// Chama uma funcao nativa.
pub fn chamar_nativa(nome: &str, args: &Vec<Valor>) -> (r: Chamado)
    ensures
        r@ == nativa(nome@, valor::vistos(args@)),
{
    proof {
        reveal(nativa);
    }
    if nome.eq("escrever") {
        let ts = nativas_textos::escrever_itens(args);
        return Chamado::Escrever(busca::juntar(&ts, " "));
    }
    if nome.eq("nova_linha") {
        return Chamado::Escrever("\n".to_owned());
    }
    if let Some(c) = nativas_valores::com_valores(nome, args) {
        return c;
    }
    if let Some(c) = nativas_textos::com_textos(nome, args) {
        return c;
    }
    if let Some(c) = nativas_dados::com_dados(nome, args) {
        return c;
    }
    if let Some(c) = nativas_matriz::com_tensores(nome, args) {
        return c;
    }
    if let Some(c) = nativas_exigidas::com_exigidas(nome, args) {
        return c;
    }
    if let Some(c) = nativas_pedidas::com_pedidas(nome, args) {
        return c;
    }
    if let Some(c) = quantizacao::com_quantizados(nome, args) {
        return c;
    }
    Chamado::Pedida
}

} // verus!
