//! O que as funcoes de documentos e de entrada recebem.

use vstd::prelude::*;
use crate::busca;
use crate::pdf::OpcoesOcr;
use crate::pdf;
use crate::servidor::url_decodificar;
use crate::servidor;
use crate::texto;
use crate::valor::{achar_chave, Valor};
use crate::valor;
use crate::vm::frase;
use crate::decimal;

verus! {

/// A falha de um argumento de outro tipo.
pub open spec fn recusa(nome: Seq<char>, o_que: Seq<char>, v: valor::Dado) -> Seq<char> {
    nome + o_que + valor::texto_de(v)
}

fn recusar(nome: &str, o_que: &str, v: &Valor) -> (r: String)
    ensures
        r@ == recusa(nome@, o_que@, v@),
{
    frase(nome, o_que, v.texto().as_str())
}

/// O caminho e a senha que as leituras de documentos recebem.
pub open spec fn pdf_de(nome: Seq<char>, a: Seq<valor::Dado>) -> Result<(Seq<char>, Option<Seq<char>>), Seq<char>> {
    if a.len() == 0 || a.len() > 2 {
        Err(nome + "(caminho, senha?)"@)
    } else {
        match a[0] {
            valor::Dado::Texto(c) => if a.len() == 1 {
                Ok((c, None))
            } else {
                match a[1] {
                    valor::Dado::Texto(s) => Ok((c, Some(s))),
                    v => Err(recusa(nome, ": senha deve ser texto, recebeu "@, v)),
                }
            },
            v => Err(recusa(nome, ": caminho deve ser texto, recebeu "@, v)),
        }
    }
}

/// O caminho e a senha de uma leitura de documento.
pub fn argumentos_pdf(args: &Vec<Valor>, nome: &str) -> (r: Result<(String, Option<String>), String>)
    ensures
        match r {
            Ok((c, s)) => pdf_de(nome@, valor::vistos(args@)) == Ok::<_, Seq<char>>((c@, pdf::talvez(s))),
            Err(m) => pdf_de(nome@, valor::vistos(args@)) == Err::<(Seq<char>, Option<Seq<char>>), _>(m@),
        },
{
    let ghost a = valor::vistos(args@);
    assert(a.len() == args@.len());
    if args.len() == 0 || args.len() > 2 {
        let mut m = nome.to_owned();
        m.append("(caminho, senha?)");
        return Err(m);
    }
    assert(a[0] == args@[0]@);
    let caminho = match &args[0] {
        Valor::Texto(s) => s.clone(),
        _ => return Err(recusar(nome, ": caminho deve ser texto, recebeu ", &args[0])),
    };
    if args.len() == 1 {
        return Ok((caminho, None));
    }
    assert(a[1] == args@[1]@);
    match &args[1] {
        Valor::Texto(s) => Ok((caminho, Some(s.clone()))),
        _ => Err(recusar(nome, ": senha deve ser texto, recebeu ", &args[1])),
    }
}

/// Se um numero se divide por dois `k` vezes.
pub open spec fn divisivel(m: int, k: int) -> bool
    decreases k,
{
    k <= 0 || m % 2 == 0 && divisivel(m / 2, k - 1)
}

/// Se um numero com ponto nao tem parte depois do ponto.
pub open spec fn sem_parte(b: u64) -> bool {
    let e = decimal::expoente(b);
    ||| b % 0x8000000000000000 == 0
    ||| 1075 <= e < 2047
    ||| 1023 <= e < 1075 && divisivel(0x10000000000000 + decimal::fracao(b), 1075 - e)
}

pub(crate) fn nao_tem_parte(b: u64) -> (r: bool)
    ensures
        r == sem_parte(b),
{
    let e: u64 = (b / 0x10000000000000) % 2048;
    if b % 0x8000000000000000 == 0 || (e >= 1075 && e < 2047) {
        return true;
    }
    if e < 1023 || e >= 1075 {
        return false;
    }
    let mut m: u64 = 0x10000000000000 + b % 0x10000000000000;
    let mut k: u64 = 1075 - e;
    while k > 0
        invariant
            b % 0x8000000000000000 != 0,
            1023 <= decimal::expoente(b) < 1075,
            divisivel(0x10000000000000 + decimal::fracao(b), 1075 - decimal::expoente(b)) == divisivel(
                m as int,
                k as int,
            ),
        decreases k,
    {
        if m % 2 != 0 {
            return false;
        }
        m = m / 2;
        k -= 1;
    }
    true
}

/// O numero de uma opcao: um inteiro que nao e negativo, no maximo `maximo`, se esse conta.
pub open spec fn opcao_numero(v: valor::Dado, limitada: bool) -> Option<int> {
    match v {
        valor::Dado::Inteiro(n) => if n >= 0 && (!limitada || n <= 255) {
            Some(
                if limitada {
                    n as int
                } else {
                    n as u32 as int
                },
            )
        } else {
            None
        },
        valor::Dado::Numero(b, _) => if !decimal::nao_numero(b) && !decimal::menor(b, 0) && sem_parte(b) && (!limitada
            || decimal::truncado(b) <= 255) {
            Some(decimal::entre(decimal::truncado(b), 0, u32::MAX as int))
        } else {
            None
        },
        _ => None,
    }
}

fn ler_opcao(v: &Valor, limitada: bool) -> (r: Option<u32>)
    ensures
        match r {
            Some(n) => opcao_numero(v@, limitada) == Some(n as int) && (limitada ==> n <= 255),
            None => opcao_numero(v@, limitada) is None,
        },
{
    match v {
        Valor::Inteiro(n) => if *n < 0 || (limitada && *n > 255) {
            None
        } else {
            Some(
                #[verifier::truncate]
                (*n as u32),
            )
        },
        Valor::Numero(d) => if !decimal::eh_nao_numero(d.bits) && !decimal::eh_menor(d.bits, 0) && nao_tem_parte(d.bits) {
            let n: u64 = decimal::para_natural(d.bits, u32::MAX as u64);
            if limitada && n > 255 {
                None
            } else {
                Some(n as u32)
            }
        } else {
            None
        },
        _ => None,
    }
}

/// As opcoes de reconhecimento, vistas.
pub ghost struct OpcoesVistas {
    pub idioma: Seq<char>,
    pub dpi: int,
    pub psm: int,
    pub senha: Option<Seq<char>>,
}

pub open spec fn opcoes_vistas(o: OpcoesOcr) -> OpcoesVistas {
    OpcoesVistas { idioma: o.idioma@, dpi: o.dpi as int, psm: o.psm as int, senha: pdf::talvez(o.senha) }
}

/// As opcoes que um mapa da; a que falta fica como e costume.
pub open spec fn opcoes_de(nome: Seq<char>, m: Seq<(Seq<char>, valor::Dado)>) -> Result<OpcoesVistas, Seq<char>> {
    let idioma = match valor::valor_de(m, "idioma"@) {
        Some(valor::Dado::Texto(s)) => Ok(s),
        Some(v) => Err(recusa(nome, ": idioma deve ser texto, recebeu "@, v)),
        None => Ok("por"@),
    };
    let dpi = match valor::valor_de(m, "dpi"@) {
        Some(v) => match opcao_numero(v, false) {
            Some(n) => Ok(n),
            None => Err(recusa(nome, ": dpi deve ser inteiro, recebeu "@, v)),
        },
        None => Ok(300int),
    };
    let psm = match valor::valor_de(m, "psm"@) {
        Some(v) => match opcao_numero(v, true) {
            Some(n) => Ok(n),
            None => Err(recusa(nome, ": psm deve ser inteiro, recebeu "@, v)),
        },
        None => Ok(3int),
    };
    let senha = match valor::valor_de(m, "senha"@) {
        Some(valor::Dado::Texto(s)) => Ok(Some(s)),
        Some(valor::Dado::Nulo) => Ok(None),
        Some(v) => Err(recusa(nome, ": senha deve ser texto, recebeu "@, v)),
        None => Ok(None::<Seq<char>>),
    };
    match (idioma, dpi, psm, senha) {
        (Err(e), _, _, _) => Err(e),
        (_, Err(e), _, _) => Err(e),
        (_, _, Err(e), _) => Err(e),
        (_, _, _, Err(e)) => Err(e),
        (Ok(idioma), Ok(dpi), Ok(psm), Ok(senha)) => Ok(OpcoesVistas { idioma, dpi, psm, senha }),
    }
}

/// O caminho e as opcoes que o reconhecimento de texto recebe.
pub open spec fn ocr_de(nome: Seq<char>, a: Seq<valor::Dado>) -> Result<(Seq<char>, OpcoesVistas), Seq<char>> {
    if a.len() == 0 || a.len() > 2 {
        Err(nome + "(caminho, opcoes?)"@)
    } else {
        match a[0] {
            valor::Dado::Texto(c) => if a.len() == 1 {
                Ok((c, OpcoesVistas { idioma: "por"@, dpi: 300, psm: 3, senha: None }))
            } else {
                match a[1] {
                    valor::Dado::Mapa(m) => match opcoes_de(nome, m) {
                        Ok(o) => Ok((c, o)),
                        Err(e) => Err(e),
                    },
                    v => Err(recusa(nome, ": opcoes deve ser mapa, recebeu "@, v)),
                }
            },
            v => Err(recusa(nome, ": caminho deve ser texto, recebeu "@, v)),
        }
    }
}

/// O valor de uma chave de um mapa.
fn valor_da_chave<'a>(m: &'a Vec<(String, Valor)>, k: &str) -> (r: Option<&'a Valor>)
    ensures
        match r {
            Some(v) => valor::valor_de(valor::pares_vistos(m@), k@) == Some(v@),
            None => valor::valor_de(valor::pares_vistos(m@), k@) is None,
        },
{
    match achar_chave(m, k) {
        Some(i) => Some(&m[i].1),
        None => None,
    }
}

fn ler_opcoes(m: &Vec<(String, Valor)>, nome: &str) -> (r: Result<OpcoesOcr, String>)
    ensures
        match r {
            Ok(o) => opcoes_de(nome@, valor::pares_vistos(m@)) == Ok::<_, Seq<char>>(opcoes_vistas(o)),
            Err(e) => opcoes_de(nome@, valor::pares_vistos(m@)) == Err::<OpcoesVistas, _>(e@),
        },
{
    let mut o = OpcoesOcr { idioma: "por".to_owned(), dpi: 300, psm: 3, senha: None };
    if let Some(v) = valor_da_chave(m, "idioma") {
        match v {
            Valor::Texto(s) => {
                o.idioma = s.clone();
            },
            _ => return Err(recusar(nome, ": idioma deve ser texto, recebeu ", v)),
        }
    }
    if let Some(v) = valor_da_chave(m, "dpi") {
        match ler_opcao(v, false) {
            Some(n) => {
                o.dpi = n;
            },
            None => return Err(recusar(nome, ": dpi deve ser inteiro, recebeu ", v)),
        }
    }
    if let Some(v) = valor_da_chave(m, "psm") {
        match ler_opcao(v, true) {
            Some(n) => {
                o.psm = n as u8;
            },
            None => return Err(recusar(nome, ": psm deve ser inteiro, recebeu ", v)),
        }
    }
    if let Some(v) = valor_da_chave(m, "senha") {
        match v {
            Valor::Texto(s) => {
                o.senha = Some(s.clone());
            },
            Valor::Nulo => {
                o.senha = None;
            },
            _ => return Err(recusar(nome, ": senha deve ser texto, recebeu ", v)),
        }
    }
    Ok(o)
}

/// O caminho e as opcoes do reconhecimento de texto.
pub fn argumentos_ocr(args: &Vec<Valor>, nome: &str) -> (r: Result<(String, OpcoesOcr), String>)
    ensures
        match r {
            Ok((c, o)) => ocr_de(nome@, valor::vistos(args@)) == Ok::<_, Seq<char>>((c@, opcoes_vistas(o))),
            Err(m) => ocr_de(nome@, valor::vistos(args@)) == Err::<(Seq<char>, OpcoesVistas), _>(m@),
        },
{
    let ghost a = valor::vistos(args@);
    assert(a.len() == args@.len());
    if args.len() == 0 || args.len() > 2 {
        let mut m = nome.to_owned();
        m.append("(caminho, opcoes?)");
        return Err(m);
    }
    assert(a[0] == args@[0]@);
    let caminho = match &args[0] {
        Valor::Texto(s) => s.clone(),
        _ => return Err(recusar(nome, ": caminho deve ser texto, recebeu ", &args[0])),
    };
    if args.len() == 1 {
        return Ok((caminho, OpcoesOcr { idioma: "por".to_owned(), dpi: 300, psm: 3, senha: None }));
    }
    assert(a[1] == args@[1]@);
    match &args[1] {
        Valor::Mapa(m) => match ler_opcoes(m, nome) {
            Ok(o) => Ok((caminho, o)),
            Err(e) => Err(e),
        },
        _ => Err(recusar(nome, ": opcoes deve ser mapa, recebeu ", &args[1])),
    }
}

/// O valor do primeiro par, a partir de `i`, com uma chave.
pub open spec fn valor_em(ps: Seq<Seq<char>>, chave: Seq<char>, i: int) -> Option<Seq<char>>
    decreases ps.len() - i,
{
    if i < 0 || i >= ps.len() {
        None
    } else {
        let (k, v) = match busca::duas_partes(ps[i], '=') {
            Some(p) => p,
            None => (ps[i], Seq::empty()),
        };
        if ps[i].len() > 0 && servidor::url_texto(k) == chave {
            Some(servidor::url_texto(v))
        } else {
            valor_em(ps, chave, i + 1)
        }
    }
}

/// O valor de uma chave numa query: o do primeiro par com ela, ou nulo.
pub fn parsear_query_valor(query: &str, chave: &str) -> (r: Valor)
    ensures
        r@ == (match valor_em(busca::partes(query@, '&', 0), chave@, 0) {
            Some(v) => valor::Dado::Texto(v),
            None => valor::Dado::Nulo,
        }),
{
    let cs = texto::caracteres(query);
    let ps = busca::separar(&cs, '&');
    let ghost t = texto::textos(ps@);
    let mut i: usize = 0;
    proof {
        reveal_strlit("");
        assert(""@ =~= Seq::<char>::empty());
    }
    while i < ps.len()
        invariant
            i <= ps@.len(),
            t == texto::textos(ps@),
            t == busca::partes(query@, '&', 0),
            ""@ == Seq::<char>::empty(),
            valor_em(t, chave@, 0) == valor_em(t, chave@, i as int),
        decreases ps@.len() - i,
    {
        assert(t[i as int] == ps@[i as int]@);
        if !ps[i].as_str().is_empty() {
            let (k, v) = match busca::partir(ps[i].as_str(), '=') {
                Some(p) => p,
                None => (ps[i].clone(), "".to_owned()),
            };
            if url_decodificar(k.as_str()).as_str().eq(chave) {
                return Valor::Texto(url_decodificar(v.as_str()));
            }
        }
        i += 1;
    }
    assert(t.len() == ps@.len());
    Valor::Nulo
}

/// As cores de uma imagem a guardar.
#[derive(Debug, Clone, Copy, PartialEq, Eq, Structural)]
pub enum Canais {
    Rgb,
    Rgba,
}

/// As cores de uma imagem: as que o numero de bytes por ponto diz, se sao tres ou quatro.
pub open spec fn canais_de(bytes: nat, largura: nat, altura: nat) -> Result<Canais, Seq<char>> {
    let n = bytes / (largura * altura);
    if n == 3 {
        Ok(Canais::Rgb)
    } else if n == 4 {
        Ok(Canais::Rgba)
    } else {
        Err("imagem_salvar: "@ + texto::decimal(n) + " canais nao suportado (use 3=RGB ou 4=RGBA)"@)
    }
}

/// As cores de uma imagem com pelo menos um ponto.
pub fn canais_da_imagem(bytes: usize, largura: usize, altura: usize) -> (r: Result<Canais, String>)
    requires
        0 < largura * altura <= usize::MAX,
    ensures
        match r {
            Ok(c) => canais_de(bytes as nat, largura as nat, altura as nat) == Ok::<Canais, Seq<char>>(c),
            Err(m) => canais_de(bytes as nat, largura as nat, altura as nat) == Err::<Canais, Seq<char>>(m@),
        },
{
    let n = bytes / (largura * altura);
    if n == 3 {
        Ok(Canais::Rgb)
    } else if n == 4 {
        Ok(Canais::Rgba)
    } else {
        let t = texto::natural(n as u64);
        Err(frase("imagem_salvar: ", t.as_str(), " canais nao suportado (use 3=RGB ou 4=RGBA)"))
    }
}

} // verus!
