//! As funcoes nativas de varios argumentos que tocam arquivos, a rede ou o servidor: o que elas
//! querem receber antes de serem pedidas.

use vstd::prelude::*;
use crate::aplicar::Feito;
use crate::decimal;
use crate::documentos;
use crate::nativas_arvore::{falhar, querer, recusar, Chamado};
use crate::nativas_arvore;
use crate::nativas_exigidas::emendar;
use crate::texto;
use crate::valor::Valor;
use crate::valor;

verus! {

/// O que um argumento tem de ser.
#[derive(Debug, Clone, Copy, PartialEq, Eq, Structural)]
pub enum Forma {
    Texto,
    Bytes,
    Inteiro,
    Positivo,
    Lista,
    Tensor,
    Funcao,
    /// Um numero, inteiro ou com ponto.
    Numero,
    /// Um inteiro que nao e negativo.
    Casas,
    /// Um numero que nao e negativo.
    Tamanho,
    /// Um numero inteiro a partir de um.
    Pagina,
}

/// Os bits do numero um.
pub const UM: u64 = 0x3FF0000000000000;

/// Se um valor serve.
pub open spec fn serve(f: Forma, v: valor::Dado) -> bool {
    match f {
        Forma::Texto => v is Texto,
        Forma::Bytes => v is Bytes,
        Forma::Inteiro => v is Inteiro,
        Forma::Positivo => v is Inteiro && v->Inteiro_0 > 0,
        Forma::Lista => v is Lista,
        Forma::Tensor => v is Tensor,
        Forma::Funcao => v is Funcao,
        Forma::Numero => v is Inteiro || v is Numero,
        Forma::Casas => v is Inteiro && v->Inteiro_0 >= 0,
        Forma::Tamanho => match v {
            valor::Dado::Inteiro(n) => n >= 0,
            valor::Dado::Numero(b, _) => !decimal::nao_numero(b) && !decimal::menor(b, 0),
            _ => false,
        },
        Forma::Pagina => match v {
            valor::Dado::Inteiro(n) => n > 0,
            valor::Dado::Numero(b, _) => !decimal::nao_numero(b) && !decimal::menor(b, UM) && documentos::sem_parte(b),
            _ => false,
        },
    }
}

fn conferir(f: Forma, v: &Valor) -> (r: bool)
    ensures
        r == serve(f, v@),
{
    match f {
        Forma::Texto => matches!(v, Valor::Texto(_)),
        Forma::Bytes => matches!(v, Valor::Bytes(_)),
        Forma::Inteiro => matches!(v, Valor::Inteiro(_)),
        Forma::Positivo => match v {
            Valor::Inteiro(n) => *n > 0,
            _ => false,
        },
        Forma::Lista => matches!(v, Valor::Lista(_)),
        Forma::Tensor => match v {
            Valor::Tensor { .. } => true,
            _ => false,
        },
        Forma::Funcao => match v {
            Valor::Funcao { .. } => true,
            _ => false,
        },
        Forma::Numero => matches!(v, Valor::Inteiro(_) | Valor::Numero(_)),
        Forma::Casas => match v {
            Valor::Inteiro(n) => *n >= 0,
            _ => false,
        },
        Forma::Tamanho => match v {
            Valor::Inteiro(n) => *n >= 0,
            Valor::Numero(d) => !decimal::eh_nao_numero(d.bits) && !decimal::eh_menor(d.bits, 0),
            _ => false,
        },
        Forma::Pagina => match v {
            Valor::Inteiro(n) => *n > 0,
            Valor::Numero(d) => !decimal::eh_nao_numero(d.bits) && !decimal::eh_menor(d.bits, UM)
                && documentos::nao_tem_parte(d.bits),
            _ => false,
        },
    }
}

/// O que uma funcao quer receber: quantos argumentos, o que se diz quando sao a mais ou a menos
/// e o que cada um dos primeiros tem de ser. De cada um fica o que se diz quando nao serve, e se
/// a isso se junta o valor.
pub struct Regra {
    pub minimo: usize,
    pub maximo: Option<usize>,
    pub uso: Option<String>,
    pub formas: Vec<(Forma, String, bool)>,
}

/// O que uma regra representa.
pub ghost struct RegraVista {
    pub minimo: nat,
    pub maximo: Option<nat>,
    pub uso: Option<Seq<char>>,
    pub formas: Seq<(Forma, Seq<char>, bool)>,
}

pub open spec fn forma_vista(f: (Forma, String, bool)) -> (Forma, Seq<char>, bool) {
    (f.0, f.1@, f.2)
}

pub open spec fn formas_vistas(v: Seq<(Forma, String, bool)>) -> Seq<(Forma, Seq<char>, bool)> {
    v.map_values(|f: (Forma, String, bool)| forma_vista(f))
}

impl Regra {
    pub open spec fn view(&self) -> RegraVista {
        RegraVista {
            minimo: self.minimo as nat,
            maximo: match self.maximo {
                Some(n) => Some(n as nat),
                None => None,
            },
            uso: match self.uso {
                Some(s) => Some(s@),
                None => None,
            },
            formas: formas_vistas(self.formas@),
        }
    }
}

/// A regra de uma funcao.
pub open spec fn regra_de(nome: Seq<char>) -> Option<RegraVista> {
    if nome == "escrever_arquivo"@ || nome == "acrescentar_arquivo"@ {
        Some(
            RegraVista {
                minimo: 2,
                maximo: Some(2),
                uso: None,
                formas: seq![
                    (Forma::Texto, nome + "(caminho, conteudo)"@, false),
                ],
            },
        )
    } else if nome == "escrever_arquivo_bytes"@ {
        Some(
            RegraVista {
                minimo: 2,
                maximo: Some(2),
                uso: None,
                formas: seq![
                    (Forma::Texto, nome + "(caminho, bytes)"@, false),
                    (Forma::Bytes, nome + "(caminho, bytes)"@, false),
                ],
            },
        )
    } else if nome == "csv_escrever"@ {
        Some(
            RegraVista {
                minimo: 2,
                maximo: Some(2),
                uso: None,
                formas: seq![
                    (Forma::Texto, nome + "(caminho, lista_de_listas)"@, false),
                    (Forma::Lista, nome + "(caminho, lista_de_listas)"@, false),
                ],
            },
        )
    } else if nome == "formatar_numero"@ {
        Some(
            RegraVista {
                minimo: 2,
                maximo: Some(2),
                uso: None,
                formas: seq![
                    (Forma::Numero, "'formatar_numero' requer numero, recebeu "@, true),
                    (Forma::Casas, "'formatar_numero' requer casas inteiras, recebeu "@, true),
                ],
            },
        )
    } else if nome == "sessao_definir"@ {
        Some(
            RegraVista {
                minimo: 2,
                maximo: Some(2),
                uso: None,
                formas: seq![
                    (Forma::Texto, "'sessao_definir' chave deve ser texto, recebeu "@, true),
                ],
            },
        )
    } else if nome == "postar_url"@ {
        Some(
            RegraVista {
                minimo: 2,
                maximo: Some(2),
                uso: None,
                formas: seq![
                    (Forma::Texto, "'postar_url' requer URL em texto, recebeu "@, true),
                ],
            },
        )
    } else if nome == "modelo_carregar"@ {
        Some(
            RegraVista {
                minimo: 2,
                maximo: None,
                uso: Some(nome + "(nome, caminho_ou_valor)"@),
                formas: seq![
                    (Forma::Texto, nome + ": nome deve ser texto, recebeu "@, true),
                ],
            },
        )
    } else if nome == "ffi_permitida"@ || nome == "pdf_ocr_disponivel"@ {
        Some(
            RegraVista {
                minimo: 0,
                maximo: Some(0),
                uso: Some(nome + "() nao recebe argumentos"@),
                formas: Seq::empty(),
            },
        )
    } else if nome == "ffi_chamar"@ {
        Some(
            RegraVista {
                minimo: 3,
                maximo: Some(3),
                uso: Some(nome + "(biblioteca, simbolo, dados)"@),
                formas: seq![
                    (Forma::Positivo, nome + ": biblioteca deve ser inteiro positivo, recebeu "@, true),
                    (Forma::Texto, nome + ": simbolo deve ser texto, recebeu "@, true),
                ],
            },
        )
    } else if nome == "mmap_ler_f32"@ || nome == "mmap_ler_f64"@ || nome == "mmap_ler_bytes"@ {
        Some(
            RegraVista {
                minimo: 3,
                maximo: None,
                uso: Some(nome + "(id, offset, count)"@),
                formas: seq![
                    (Forma::Inteiro, nome + ": id deve ser inteiro, recebeu "@, true),
                    (Forma::Inteiro, nome + ": offset deve ser inteiro, recebeu "@, true),
                    (Forma::Inteiro, nome + ": count deve ser inteiro, recebeu "@, true),
                ],
            },
        )
    } else if nome == "mmap_tensor_f32"@ || nome == "mmap_tensor_f64"@ {
        Some(
            RegraVista {
                minimo: 4,
                maximo: None,
                uso: Some(nome + "(id, offset, linhas, colunas)"@),
                formas: seq![
                    (Forma::Inteiro, nome + ": id deve ser inteiro, recebeu "@, true),
                    (Forma::Inteiro, nome + ": offset deve ser inteiro, recebeu "@, true),
                    (Forma::Inteiro, nome + ": linhas deve ser inteiro, recebeu "@, true),
                    (Forma::Inteiro, nome + ": colunas deve ser inteiro, recebeu "@, true),
                ],
            },
        )
    } else if nome == "ws_enviar_para"@ {
        Some(
            RegraVista {
                minimo: 2,
                maximo: None,
                uso: Some(nome + "(id, msg)"@),
                formas: seq![
                    (Forma::Inteiro, nome + ": id deve ser inteiro, recebeu "@, true),
                    (Forma::Texto, nome + ": msg deve ser texto, recebeu "@, true),
                ],
            },
        )
    } else if nome == "imagem_tensor_para_rgb"@ {
        Some(
            RegraVista {
                minimo: 1,
                maximo: Some(1),
                uso: None,
                formas: seq![
                    (Forma::Tensor, "'imagem_tensor_para_rgb' requer tensor, recebeu "@, true),
                ],
            },
        )
    } else if nome == "imagem_salvar"@ {
        Some(
            RegraVista {
                minimo: 4,
                maximo: None,
                uso: Some(nome + "(caminho, bytes, largura, altura)"@),
                formas: seq![
                    (Forma::Texto, nome + ": caminho deve ser texto, recebeu "@, true),
                    (Forma::Bytes, nome + ": bytes invalidos, recebeu "@, true),
                    (Forma::Tamanho, "'imagem_salvar' requer inteiro nao-negativo, recebeu "@, true),
                    (Forma::Tamanho, "'imagem_salvar' requer inteiro nao-negativo, recebeu "@, true),
                ],
            },
        )
    } else if nome == "pdf_extrair_pagina"@ {
        Some(
            RegraVista {
                minimo: 2,
                maximo: Some(3),
                uso: Some(nome + "(caminho, pagina, senha?)"@),
                formas: seq![
                    (Forma::Texto, nome + ": caminho deve ser texto, recebeu "@, true),
                    (Forma::Pagina, nome + ": pagina deve ser inteiro positivo, recebeu "@, true),
                    (Forma::Texto, nome + ": senha deve ser texto, recebeu "@, true),
                ],
            },
        )
    } else if nome == "rota"@ {
        Some(
            RegraVista {
                minimo: 3,
                maximo: None,
                uso: Some("'rota' requer 3 argumentos: metodo, caminho, handler"@),
                formas: seq![
                    (Forma::Texto, "'rota' metodo deve ser texto, recebeu "@, true),
                    (Forma::Texto, "'rota' caminho deve ser texto, recebeu "@, true),
                    (Forma::Funcao, "'rota' handler deve ser funcao, recebeu "@, true),
                ],
            },
        )
    } else {
        None
    }
}

fn formas_1(a: (Forma, String, bool)) -> (r: Vec<(Forma, String, bool)>)
    ensures
        formas_vistas(r@) == seq![forma_vista(a)],
{
    let mut v: Vec<(Forma, String, bool)> = Vec::new();
    v.push(a);
    assert(formas_vistas(v@) =~= seq![forma_vista(a)]);
    v
}

fn formas_2(a: (Forma, String, bool), b: (Forma, String, bool)) -> (r: Vec<(Forma, String, bool)>)
    ensures
        formas_vistas(r@) == seq![forma_vista(a), forma_vista(b)],
{
    let mut v: Vec<(Forma, String, bool)> = Vec::new();
    v.push(a);
    v.push(b);
    assert(formas_vistas(v@) =~= seq![forma_vista(a), forma_vista(b)]);
    v
}

fn formas_3(a: (Forma, String, bool), b: (Forma, String, bool), c: (Forma, String, bool)) -> (r: Vec<(Forma, String, bool)>)
    ensures
        formas_vistas(r@) == seq![forma_vista(a), forma_vista(b), forma_vista(c)],
{
    let mut v: Vec<(Forma, String, bool)> = Vec::new();
    v.push(a);
    v.push(b);
    v.push(c);
    assert(formas_vistas(v@) =~= seq![forma_vista(a), forma_vista(b), forma_vista(c)]);
    v
}

fn formas_4(a: (Forma, String, bool), b: (Forma, String, bool), c: (Forma, String, bool), d: (Forma, String, bool)) -> (r: Vec<(Forma, String, bool)>)
    ensures
        formas_vistas(r@) == seq![forma_vista(a), forma_vista(b), forma_vista(c), forma_vista(d)],
{
    let mut v: Vec<(Forma, String, bool)> = Vec::new();
    v.push(a);
    v.push(b);
    v.push(c);
    v.push(d);
    assert(formas_vistas(v@) =~= seq![forma_vista(a), forma_vista(b), forma_vista(c), forma_vista(d)]);
    v
}

fn regra(nome: &str) -> (r: Option<Regra>)
    ensures
        match r {
            Some(x) => regra_de(nome@) == Some(x@),
            None => regra_de(nome@) is None,
        },
{
    if nome.eq("escrever_arquivo") || nome.eq("acrescentar_arquivo") {
        let formas: Vec<(Forma, String, bool)> = formas_1((Forma::Texto, emendar(nome, "(caminho, conteudo)"), false));
        Some(Regra { minimo: 2, maximo: Some(2), uso: None, formas })
    } else if nome.eq("escrever_arquivo_bytes") {
        let formas: Vec<(Forma, String, bool)> = formas_2((Forma::Texto, emendar(nome, "(caminho, bytes)"), false), (Forma::Bytes, emendar(nome, "(caminho, bytes)"), false));
        Some(Regra { minimo: 2, maximo: Some(2), uso: None, formas })
    } else if nome.eq("csv_escrever") {
        let formas: Vec<(Forma, String, bool)> = formas_2((Forma::Texto, emendar(nome, "(caminho, lista_de_listas)"), false), (Forma::Lista, emendar(nome, "(caminho, lista_de_listas)"), false));
        Some(Regra { minimo: 2, maximo: Some(2), uso: None, formas })
    } else if nome.eq("formatar_numero") {
        let formas: Vec<(Forma, String, bool)> = formas_2((Forma::Numero, "'formatar_numero' requer numero, recebeu ".to_owned(), true), (Forma::Casas, "'formatar_numero' requer casas inteiras, recebeu ".to_owned(), true));
        Some(Regra { minimo: 2, maximo: Some(2), uso: None, formas })
    } else if nome.eq("sessao_definir") {
        let formas: Vec<(Forma, String, bool)> = formas_1((Forma::Texto, "'sessao_definir' chave deve ser texto, recebeu ".to_owned(), true));
        Some(Regra { minimo: 2, maximo: Some(2), uso: None, formas })
    } else if nome.eq("postar_url") {
        let formas: Vec<(Forma, String, bool)> = formas_1((Forma::Texto, "'postar_url' requer URL em texto, recebeu ".to_owned(), true));
        Some(Regra { minimo: 2, maximo: Some(2), uso: None, formas })
    } else if nome.eq("modelo_carregar") {
        let formas: Vec<(Forma, String, bool)> = formas_1((Forma::Texto, emendar(nome, ": nome deve ser texto, recebeu "), true));
        Some(Regra { minimo: 2, maximo: None, uso: Some(emendar(nome, "(nome, caminho_ou_valor)")), formas })
    } else if nome.eq("ffi_permitida") || nome.eq("pdf_ocr_disponivel") {
        let formas: Vec<(Forma, String, bool)> = Vec::new();
        assert(formas_vistas(formas@) =~= Seq::empty());
        Some(Regra { minimo: 0, maximo: Some(0), uso: Some(emendar(nome, "() nao recebe argumentos")), formas })
    } else if nome.eq("ffi_chamar") {
        let formas: Vec<(Forma, String, bool)> = formas_2((Forma::Positivo, emendar(nome, ": biblioteca deve ser inteiro positivo, recebeu "), true), (Forma::Texto, emendar(nome, ": simbolo deve ser texto, recebeu "), true));
        Some(Regra { minimo: 3, maximo: Some(3), uso: Some(emendar(nome, "(biblioteca, simbolo, dados)")), formas })
    } else if nome.eq("mmap_ler_f32") || nome.eq("mmap_ler_f64") || nome.eq("mmap_ler_bytes") {
        let formas: Vec<(Forma, String, bool)> = formas_3((Forma::Inteiro, emendar(nome, ": id deve ser inteiro, recebeu "), true), (Forma::Inteiro, emendar(nome, ": offset deve ser inteiro, recebeu "), true), (Forma::Inteiro, emendar(nome, ": count deve ser inteiro, recebeu "), true));
        Some(Regra { minimo: 3, maximo: None, uso: Some(emendar(nome, "(id, offset, count)")), formas })
    } else if nome.eq("mmap_tensor_f32") || nome.eq("mmap_tensor_f64") {
        let formas: Vec<(Forma, String, bool)> = formas_4((Forma::Inteiro, emendar(nome, ": id deve ser inteiro, recebeu "), true), (Forma::Inteiro, emendar(nome, ": offset deve ser inteiro, recebeu "), true), (Forma::Inteiro, emendar(nome, ": linhas deve ser inteiro, recebeu "), true), (Forma::Inteiro, emendar(nome, ": colunas deve ser inteiro, recebeu "), true));
        Some(Regra { minimo: 4, maximo: None, uso: Some(emendar(nome, "(id, offset, linhas, colunas)")), formas })
    } else if nome.eq("ws_enviar_para") {
        let formas: Vec<(Forma, String, bool)> = formas_2((Forma::Inteiro, emendar(nome, ": id deve ser inteiro, recebeu "), true), (Forma::Texto, emendar(nome, ": msg deve ser texto, recebeu "), true));
        Some(Regra { minimo: 2, maximo: None, uso: Some(emendar(nome, "(id, msg)")), formas })
    } else if nome.eq("imagem_tensor_para_rgb") {
        let formas: Vec<(Forma, String, bool)> = formas_1((Forma::Tensor, "'imagem_tensor_para_rgb' requer tensor, recebeu ".to_owned(), true));
        Some(Regra { minimo: 1, maximo: Some(1), uso: None, formas })
    } else if nome.eq("imagem_salvar") {
        let formas: Vec<(Forma, String, bool)> = formas_4((Forma::Texto, emendar(nome, ": caminho deve ser texto, recebeu "), true), (Forma::Bytes, emendar(nome, ": bytes invalidos, recebeu "), true), (Forma::Tamanho, "'imagem_salvar' requer inteiro nao-negativo, recebeu ".to_owned(), true), (Forma::Tamanho, "'imagem_salvar' requer inteiro nao-negativo, recebeu ".to_owned(), true));
        Some(Regra { minimo: 4, maximo: None, uso: Some(emendar(nome, "(caminho, bytes, largura, altura)")), formas })
    } else if nome.eq("pdf_extrair_pagina") {
        let formas: Vec<(Forma, String, bool)> = formas_3((Forma::Texto, emendar(nome, ": caminho deve ser texto, recebeu "), true), (Forma::Pagina, emendar(nome, ": pagina deve ser inteiro positivo, recebeu "), true), (Forma::Texto, emendar(nome, ": senha deve ser texto, recebeu "), true));
        Some(Regra { minimo: 2, maximo: Some(3), uso: Some(emendar(nome, "(caminho, pagina, senha?)")), formas })
    } else if nome.eq("rota") {
        let formas: Vec<(Forma, String, bool)> = formas_3((Forma::Texto, "'rota' metodo deve ser texto, recebeu ".to_owned(), true), (Forma::Texto, "'rota' caminho deve ser texto, recebeu ".to_owned(), true), (Forma::Funcao, "'rota' handler deve ser funcao, recebeu ".to_owned(), true));
        Some(Regra { minimo: 3, maximo: None, uso: Some("'rota' requer 3 argumentos: metodo, caminho, handler".to_owned()), formas })
    } else {
        None
    }
}

/// Se uma funcao recebe argumentos a mais ou a menos.
pub open spec fn conta_errada(r: RegraVista, n: nat) -> bool {
    n < r.minimo || (r.maximo matches Some(m) && n > m)
}

/// O que os argumentos a partir de `i` dao: a primeira recusa, ou nada a recusar.
pub open spec fn recusa_desde(f: Seq<(Forma, Seq<char>, bool)>, a: Seq<valor::Dado>, i: int) -> nativas_arvore::ChamadoVisto
    decreases f.len() - i,
{
    if i < 0 || i >= f.len() || i >= a.len() {
        nativas_arvore::ChamadoVisto::Pedida
    } else if serve(f[i].0, a[i]) {
        recusa_desde(f, a, i + 1)
    } else if f[i].2 {
        nativas_arvore::recusa(f[i].1, a[i])
    } else {
        nativas_arvore::falha(f[i].1)
    }
}

/// O que `arredondar` recebe: um numero, e talvez as casas; um inteiro sozinho ja esta arredondado.
pub open spec fn arredondado(a: Seq<valor::Dado>) -> nativas_arvore::ChamadoVisto {
    if a.len() == 1 && a[0] is Inteiro {
        nativas_arvore::da(a[0])
    } else if (a.len() == 1 && a[0] is Numero) || (a.len() >= 2 && ((a[0] is Inteiro && a[1] is Inteiro) || (
    a[0] is Numero && (a[1] is Inteiro || a[1] is Numero)))) {
        nativas_arvore::ChamadoVisto::Pedida
    } else {
        nativas_arvore::falha("arredondar(n) ou arredondar(n, casas_decimais)"@)
    }
}

/// O que `aleatorio_inteiro` recebe: dois inteiros, ou dois numeros com ponto.
pub open spec fn sorteado(nome: Seq<char>, a: Seq<valor::Dado>) -> nativas_arvore::ChamadoVisto {
    if a.len() != 2 {
        nativas_arvore::quer(nome, 2, a.len())
    } else if (a[0] is Inteiro && a[1] is Inteiro) || (a[0] is Numero && a[1] is Numero) {
        nativas_arvore::ChamadoVisto::Pedida
    } else {
        nativas_arvore::falha("aleatorio_inteiro(min, max)"@)
    }
}

fn conferir_arredondar(args: &Vec<Valor>) -> (r: Chamado)
    ensures
        r@ == arredondado(valor::vistos(args@)),
{
    let ghost a = valor::vistos(args@);
    let n = args.len();
    assert(a.len() == n);
    assert(n > 0 ==> a[0] == args@[0]@);
    assert(n > 1 ==> a[1] == args@[1]@);
    if n == 1 {
        match &args[0] {
            Valor::Inteiro(x) => return Chamado::Feito(Feito::Valor(Valor::Inteiro(*x))),
            Valor::Numero(_) => return Chamado::Pedida,
            _ => {},
        }
    } else if n >= 2 {
        match (&args[0], &args[1]) {
            (Valor::Inteiro(_), Valor::Inteiro(_)) => return Chamado::Pedida,
            (Valor::Numero(_), Valor::Inteiro(_)) => return Chamado::Pedida,
            (Valor::Numero(_), Valor::Numero(_)) => return Chamado::Pedida,
            _ => {},
        }
    }
    falhar("arredondar(n) ou arredondar(n, casas_decimais)")
}

fn conferir_sorteio(nome: &str, args: &Vec<Valor>) -> (r: Chamado)
    ensures
        r@ == sorteado(nome@, valor::vistos(args@)),
{
    let ghost a = valor::vistos(args@);
    let n = args.len();
    assert(a.len() == n);
    if n != 2 {
        return querer(nome, 2, n);
    }
    assert(a[0] == args@[0]@ && a[1] == args@[1]@);
    match (&args[0], &args[1]) {
        (Valor::Inteiro(_), Valor::Inteiro(_)) => Chamado::Pedida,
        (Valor::Numero(_), Valor::Numero(_)) => Chamado::Pedida,
        _ => falhar("aleatorio_inteiro(min, max)"),
    }
}

/// As funcoes deste modulo.
pub open spec fn de_pedidas(nome: Seq<char>, a: Seq<valor::Dado>) -> Option<nativas_arvore::ChamadoVisto> {
    match regra_de(nome) {
        None => if nome == "arredondar"@ {
            Some(arredondado(a))
        } else if nome == "aleatorio_inteiro"@ {
            Some(sorteado(nome, a))
        } else {
            None
        },
        Some(r) => Some(
            if conta_errada(r, a.len()) {
                match r.uso {
                    Some(u) => nativas_arvore::falha(u),
                    None => nativas_arvore::quer(nome, r.minimo, a.len()),
                }
            } else {
                recusa_desde(r.formas, a, 0)
            },
        ),
    }
}

fn conferir_todos(formas: &Vec<(Forma, String, bool)>, args: &Vec<Valor>) -> (r: Chamado)
    ensures
        r@ == recusa_desde(formas_vistas(formas@), valor::vistos(args@), 0),
{
    let ghost f = formas_vistas(formas@);
    let ghost a = valor::vistos(args@);
    assert(f.len() == formas@.len() && a.len() == args@.len());
    let mut i: usize = 0;
    while i < formas.len() && i < args.len()
        invariant
            f == formas_vistas(formas@),
            a == valor::vistos(args@),
            f.len() == formas@.len(),
            a.len() == args@.len(),
            i <= formas@.len(),
            i <= args@.len(),
            recusa_desde(f, a, 0) == recusa_desde(f, a, i as int),
        decreases formas@.len() - i,
    {
        assert(f[i as int] == forma_vista(formas@[i as int]));
        assert(a[i as int] == args@[i as int]@);
        if !conferir(formas[i].0, &args[i]) {
            return if formas[i].2 {
                recusar(formas[i].1.as_str(), &args[i])
            } else {
                falhar(formas[i].1.as_str())
            };
        }
        i += 1;
    }
    Chamado::Pedida
}

/// As funcoes deste modulo.
pub fn com_pedidas(nome: &str, args: &Vec<Valor>) -> (r: Option<Chamado>)
    ensures
        nativas_arvore::talvez(r) == de_pedidas(nome@, valor::vistos(args@)),
{
    assert(valor::vistos(args@).len() == args@.len());
    let x = match regra(nome) {
        None => {
            return if nome.eq("arredondar") {
                Some(conferir_arredondar(args))
            } else if nome.eq("aleatorio_inteiro") {
                Some(conferir_sorteio(nome, args))
            } else {
                None
            };
        },
        Some(x) => x,
    };
    let n = args.len();
    let demais = match x.maximo {
        Some(m) => n > m,
        None => false,
    };
    if n < x.minimo || demais {
        return Some(
            match x.uso {
                Some(u) => Chamado::Feito(Feito::Falha(u)),
                None => querer(nome, x.minimo, n),
            },
        );
    }
    Some(conferir_todos(&x.formas, args))
}

} // verus!
