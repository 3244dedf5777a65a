//! Os tensores com os numeros em menos bits: o mapa em que um deles se guarda, e o que dele se le.

use vstd::prelude::*;
use crate::busca;
use crate::decimal::Decimal;
use crate::nativas_arvore::{falhar, querer, Chamado};
use crate::nativas_arvore;
use crate::nativas_exigidas::listar_dimensoes;
use crate::nativas_exigidas;
use crate::valor::{achar_chave, Valor};
use crate::valor;
use crate::vm::frase;

verus! {

/// Um tensor guardado em menos bits.
#[derive(Debug)]
pub enum Quantizado {
    /// Um byte por numero: cada um esta `zero` passos acima do que representa.
    Int8 { bytes: Vec<u8>, escala: Decimal, zero: i64, shape: Vec<usize> },
    /// Os bits de meia precisao de cada numero.
    F16 { bits: Vec<u16>, shape: Vec<usize> },
}

/// O que um tensor guardado representa.
pub ghost enum QuantizadoVisto {
    Int8 { bytes: Seq<u8>, escala: (u64, Seq<char>), zero: i64, shape: Seq<usize> },
    F16 { bits: Seq<u16>, shape: Seq<usize> },
}

impl Quantizado {
    pub open spec fn view(&self) -> QuantizadoVisto {
        match self {
            Quantizado::Int8 { bytes, escala, zero, shape } => QuantizadoVisto::Int8 {
                bytes: bytes@,
                escala: (escala.bits, escala.texto@),
                zero: *zero,
                shape: shape@,
            },
            Quantizado::F16 { bits, shape } => QuantizadoVisto::F16 { bits: bits@, shape: shape@ },
        }
    }
}

/// A falha de um campo que nao ha, ou que nao e o que devia ser.
pub open spec fn ausente(nome: Seq<char>, campo: Seq<char>) -> Seq<char> {
    nome + ": campo '"@ + campo + "' ausente"@
}

fn dizer_ausente(nome: &str, campo: &str) -> (r: String)
    ensures
        r@ == ausente(nome@, campo@),
{
    let mut m = frase(nome, ": campo '", campo);
    m.append("' ausente");
    m
}

/// As dimensoes dos primeiros `n` itens de uma lista, se sao inteiros.
pub open spec fn dimensoes_de(l: Seq<valor::Dado>, n: int) -> Option<Seq<usize>>
    decreases n,
{
    if n <= 0 || n > l.len() {
        Some(Seq::empty())
    } else {
        match (dimensoes_de(l, n - 1), l[n - 1]) {
            (Some(s), valor::Dado::Inteiro(x)) => Some(s.push(x as usize)),
            _ => None,
        }
    }
}

proof fn lema_sem_dimensoes(l: Seq<valor::Dado>, n: int)
    requires
        0 <= n <= l.len(),
        dimensoes_de(l, n) is None,
    ensures
        dimensoes_de(l, l.len() as int) is None,
    decreases l.len() - n,
{
    if n < l.len() {
        lema_sem_dimensoes(l, n + 1);
    }
}

fn ler_dimensoes(l: &Vec<Valor>) -> (r: Option<Vec<usize>>)
    ensures
        match r {
            Some(s) => dimensoes_de(valor::vistos(l@), l@.len() as int) == Some(s@),
            None => dimensoes_de(valor::vistos(l@), l@.len() as int) is None,
        },
{
    let ghost lv = valor::vistos(l@);
    assert(lv.len() == l@.len());
    let mut s: Vec<usize> = Vec::new();
    assert(s@ =~= Seq::<usize>::empty());
    let mut i: usize = 0;
    while i < l.len()
        invariant
            i <= l@.len(),
            lv == valor::vistos(l@),
            lv.len() == l@.len(),
            dimensoes_de(lv, i as int) == Some(s@),
        decreases l@.len() - i,
    {
        assert(lv[i as int] == l@[i as int]@);
        match &l[i] {
            Valor::Inteiro(x) => {
                s.push(
                    #[verifier::truncate]
                    (*x as usize),
                );
            },
            _ => {
                proof {
                    lema_sem_dimensoes(lv, i + 1);
                }
                return None;
            },
        }
        i += 1;
    }
    Some(s)
}

/// Os numeros de dois bytes, com o menor primeiro.
pub open spec fn pares(b: Seq<u8>) -> Seq<u16> {
    Seq::new(b.len() / 2, |i: int| (b[2 * i] + 256 * b[2 * i + 1]) as u16)
}

fn juntar_pares(b: &Vec<u8>) -> (r: Vec<u16>)
    ensures
        r@ == pares(b@),
{
    let mut r: Vec<u16> = Vec::new();
    let total: usize = b.len();
    let n: usize = total / 2;
    let mut i: usize = 0;
    while i < n
        invariant
            i <= n,
            total == b@.len(),
            n == total / 2,
            r@.len() == i,
            forall|k: int| 0 <= k < i ==> #[trigger] r@[k] == pares(b@)[k],
        decreases n - i,
    {
        r.push(b[2 * i] as u16 + 256 * (b[2 * i + 1] as u16));
        i += 1;
    }
    assert(r@ =~= pares(b@));
    r
}

/// Os bytes de numeros de dois bytes, com o menor primeiro.
pub open spec fn em_bytes(b: Seq<u16>) -> Seq<u8> {
    Seq::new(
        2 * b.len(),
        |i: int|
            if i % 2 == 0 {
                (b[i / 2] % 256) as u8
            } else {
                (b[i / 2] / 256) as u8
            },
    )
}

fn separar_bytes(b: &Vec<u16>) -> (r: Vec<u8>)
    ensures
        r@ == em_bytes(b@),
{
    let mut r: Vec<u8> = Vec::new();
    let mut i: usize = 0;
    while i < b.len()
        invariant
            i <= b@.len(),
            r@ =~= em_bytes(b@.take(i as int)),
        decreases b@.len() - i,
    {
        let ghost antes = r@;
        let menor: u8 = (b[i] % 256) as u8;
        let maior: u8 = (b[i] / 256) as u8;
        r.push(menor);
        r.push(maior);
        assert(em_bytes(b@.take(i + 1)) =~= antes.push(menor).push(maior));
        i += 1;
    }
    assert(b@.take(b@.len() as int) =~= b@);
    r
}

/// O mapa em que um tensor se guarda.
pub open spec fn guardado(q: QuantizadoVisto) -> valor::Dado {
    match q {
        QuantizadoVisto::Int8 { bytes, escala, zero, shape } => valor::Dado::Mapa(
            seq![
                ("dados"@, valor::Dado::Bytes(bytes)),
                ("escala"@, valor::Dado::Numero(escala.0, escala.1)),
                ("zero_ponto"@, valor::Dado::Inteiro(zero)),
                ("shape"@, valor::Dado::Lista(nativas_exigidas::em_inteiros(shape))),
            ],
        ),
        QuantizadoVisto::F16 { bits, shape } => valor::Dado::Mapa(
            seq![
                ("dados"@, valor::Dado::Bytes(em_bytes(bits))),
                ("shape"@, valor::Dado::Lista(nativas_exigidas::em_inteiros(shape))),
            ],
        ),
    }
}

/// Guarda um tensor em menos bits.
pub fn guardar(q: Quantizado) -> (r: Valor)
    ensures
        r@ == guardado(q@),
{
    let ghost g = guardado(q@)->Mapa_0;
    let mut m: Vec<(String, Valor)> = Vec::new();
    match q {
        Quantizado::Int8 { bytes, escala, zero, shape } => {
            m.push(("dados".to_owned(), Valor::Bytes(bytes)));
            m.push(("escala".to_owned(), Valor::Numero(escala)));
            m.push(("zero_ponto".to_owned(), Valor::Inteiro(zero)));
            m.push(("shape".to_owned(), Valor::Lista(listar_dimensoes(&shape))));
        },
        Quantizado::F16 { bits, shape } => {
            m.push(("dados".to_owned(), Valor::Bytes(separar_bytes(&bits))));
            m.push(("shape".to_owned(), Valor::Lista(listar_dimensoes(&shape))));
        },
    }
    assert(valor::pares_vistos(m@) =~= g);
    Valor::Mapa(m)
}

/// Se uma funcao le um tensor guardado em menos bits.
pub open spec fn le_quantizado(nome: Seq<char>) -> bool {
    nome == "tensor_dequantizar_int8"@ || nome == "tensor_dequantizar_f16"@
}

/// As dimensoes de um mapa, ou a falha.
pub open spec fn dimensoes_do_mapa(nome: Seq<char>, m: valor::Escopo) -> Result<Seq<usize>, Seq<char>> {
    match valor::valor_de(m, "shape"@) {
        Some(valor::Dado::Lista(l)) => match dimensoes_de(l, l.len() as int) {
            Some(s) => Ok(s),
            None => Err("shape deve ser lista de inteiros"@),
        },
        _ => Err(ausente(nome, "shape"@)),
    }
}

/// O que se le de um tensor guardado, ou a primeira falha.
pub open spec fn lido(nome: Seq<char>, v: valor::Dado) -> Result<QuantizadoVisto, Seq<char>> {
    match v {
        valor::Dado::Mapa(m) => match valor::valor_de(m, "dados"@) {
            Some(valor::Dado::Bytes(b)) => if nome == "tensor_dequantizar_int8"@ {
                match valor::valor_de(m, "escala"@) {
                    Some(valor::Dado::Numero(e, t)) => match valor::valor_de(m, "zero_ponto"@) {
                        Some(valor::Dado::Inteiro(z)) => match dimensoes_do_mapa(nome, m) {
                            Ok(s) => Ok(QuantizadoVisto::Int8 { bytes: b, escala: (e, t), zero: z, shape: s }),
                            Err(f) => Err(f),
                        },
                        _ => Err(ausente(nome, "zero_ponto"@)),
                    },
                    _ => Err(ausente(nome, "escala"@)),
                }
            } else {
                match dimensoes_do_mapa(nome, m) {
                    Ok(s) => if b.len() % 2 != 0 {
                        Err("tensor_dequantizar_f16: bytes deve ter comprimento par"@)
                    } else {
                        Ok(QuantizadoVisto::F16 { bits: pares(b), shape: s })
                    },
                    Err(f) => Err(f),
                }
            },
            _ => Err(ausente(nome, "dados"@)),
        },
        _ => Err("'"@ + nome + "' requer mapa de quantizacao, recebeu "@ + valor::texto_de(v)),
    }
}

fn procurar<'a>(m: &'a Vec<(String, Valor)>, k: &str) -> (r: Option<&'a Valor>)
    ensures
        match r {
            Some(v) => valor::valor_de(valor::pares_vistos(m@), k@) == Some(v@),
            None => valor::valor_de(valor::pares_vistos(m@), k@) is None,
        },
{
    match achar_chave(m, k) {
        Some(i) => {
            assert(valor::pares_vistos(m@)[i as int].1 == m@[i as int].1@);
            Some(&m[i].1)
        },
        None => None,
    }
}

fn ler_dimensoes_do_mapa(nome: &str, m: &Vec<(String, Valor)>) -> (r: Result<Vec<usize>, String>)
    ensures
        match r {
            Ok(s) => dimensoes_do_mapa(nome@, valor::pares_vistos(m@)) == Ok::<Seq<usize>, Seq<char>>(s@),
            Err(f) => dimensoes_do_mapa(nome@, valor::pares_vistos(m@)) == Err::<Seq<usize>, Seq<char>>(f@),
        },
{
    match procurar(m, "shape") {
        Some(Valor::Lista(l)) => {
            assert(valor::vistos(l@).len() == l@.len());
            match ler_dimensoes(l) {
                Some(s) => Ok(s),
                None => Err("shape deve ser lista de inteiros".to_owned()),
            }
        },
        _ => Err(dizer_ausente(nome, "shape")),
    }
}

/// Le um tensor guardado em menos bits.
pub fn ler(nome: &str, v: &Valor) -> (r: Result<Quantizado, String>)
    ensures
        match r {
            Ok(q) => lido(nome@, v@) == Ok::<QuantizadoVisto, Seq<char>>(q@),
            Err(m) => lido(nome@, v@) == Err::<QuantizadoVisto, Seq<char>>(m@),
        },
{
    let m = match v {
        Valor::Mapa(m) => m,
        _ => {
            let mut f = frase("'", nome, "' requer mapa de quantizacao, recebeu ");
            f.append(v.texto().as_str());
            return Err(f);
        },
    };
    let b = match procurar(m, "dados") {
        Some(Valor::Bytes(b)) => b,
        _ => return Err(dizer_ausente(nome, "dados")),
    };
    if !nome.eq("tensor_dequantizar_int8") {
        let shape = match ler_dimensoes_do_mapa(nome, m) {
            Ok(s) => s,
            Err(f) => return Err(f),
        };
        if b.len() % 2 != 0 {
            return Err("tensor_dequantizar_f16: bytes deve ter comprimento par".to_owned());
        }
        return Ok(Quantizado::F16 { bits: juntar_pares(b), shape });
    }
    let escala = match procurar(m, "escala") {
        Some(Valor::Numero(d)) => d,
        _ => return Err(dizer_ausente(nome, "escala")),
    };
    let zero = match procurar(m, "zero_ponto") {
        Some(Valor::Inteiro(z)) => *z,
        _ => return Err(dizer_ausente(nome, "zero_ponto")),
    };
    let shape = match ler_dimensoes_do_mapa(nome, m) {
        Ok(s) => s,
        Err(f) => return Err(f),
    };
    Ok(Quantizado::Int8 { bytes: busca::copia(b), escala: escala.clone(), zero, shape })
}

/// As funcoes que leem um tensor guardado: pedidas, se ele se pode ler.
pub open spec fn de_quantizados(nome: Seq<char>, a: Seq<valor::Dado>) -> Option<nativas_arvore::ChamadoVisto> {
    if le_quantizado(nome) {
        Some(
            if a.len() != 1 {
                nativas_arvore::quer(nome, 1, a.len())
            } else {
                match lido(nome, a[0]) {
                    Ok(_) => nativas_arvore::ChamadoVisto::Pedida,
                    Err(m) => nativas_arvore::falha(m),
                }
            },
        )
    } else {
        None
    }
}

/// As funcoes que leem um tensor guardado em menos bits.
pub fn com_quantizados(nome: &str, args: &Vec<Valor>) -> (r: Option<Chamado>)
    ensures
        nativas_arvore::talvez(r) == de_quantizados(nome@, valor::vistos(args@)),
{
    let ghost a = valor::vistos(args@);
    assert(a.len() == args@.len());
    if nome.eq("tensor_dequantizar_int8") || nome.eq("tensor_dequantizar_f16") {
        if args.len() != 1 {
            return Some(querer(nome, 1, args.len()));
        }
        assert(a[0] == args@[0]@);
        return Some(
            match ler(nome, &args[0]) {
                Ok(_) => Chamado::Pedida,
                Err(m) => falhar(m.as_str()),
            },
        );
    }
    None
}

/// As dimensoes guardadas leem-se tal como eram.
proof fn lema_dimensoes(s: Seq<usize>, n: int)
    requires
        0 <= n <= s.len(),
    ensures
        dimensoes_de(nativas_exigidas::em_inteiros(s), n) == Some(s.take(n)),
    decreases n,
{
    if n > 0 {
        lema_dimensoes(s, n - 1);
        let d = s[n - 1];
        assert((d as i64) as usize == d) by (bit_vector);
        assert(s.take(n - 1).push(d) =~= s.take(n));
    } else {
        assert(s.take(0) =~= Seq::<usize>::empty());
    }
}

/// Um tensor guardado em menos bits le-se tal como era.
pub proof fn lei_quantizado(q: QuantizadoVisto)
    ensures
        lido(
            match q {
                QuantizadoVisto::Int8 { .. } => "tensor_dequantizar_int8"@,
                QuantizadoVisto::F16 { .. } => "tensor_dequantizar_f16"@,
            },
            guardado(q),
        ) == Ok::<QuantizadoVisto, Seq<char>>(q),
{
    reveal_strlit("tensor_dequantizar_int8");
    reveal_strlit("tensor_dequantizar_f16");
    reveal_strlit("dados");
    reveal_strlit("escala");
    reveal_strlit("zero_ponto");
    reveal_strlit("shape");
    assert("tensor_dequantizar_int8"@.len() != "tensor_dequantizar_f16"@.len());
    assert("dados"@[0] == 'd' && "escala"@[0] == 'e' && "zero_ponto"@[0] == 'z' && "shape"@[0] == 's');
    reveal_with_fuel(valor::lugar, 5);
    match q {
        QuantizadoVisto::Int8 { bytes, escala, zero, shape } => {
            lema_dimensoes(shape, shape.len() as int);
            assert(shape.take(shape.len() as int) =~= shape);
        },
        QuantizadoVisto::F16 { bits, shape } => {
            lema_dimensoes(shape, shape.len() as int);
            assert(shape.take(shape.len() as int) =~= shape);
            let b = em_bytes(bits);
            assert forall|i: int| 0 <= i < bits.len() implies #[trigger] pares(b)[i] == bits[i] by {
                assert(b[2 * i] == (bits[i] % 256) as u8);
                assert(b[2 * i + 1] == (bits[i] / 256) as u8);
            }
            assert(pares(b) =~= bits);
        },
    }
}

} // verus!
