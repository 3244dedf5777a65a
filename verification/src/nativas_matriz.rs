//! As funcoes nativas de matrizes e tensores do interpretador: fazer, ler, redimensionar, transpor
//! e juntar. As que fazem contas com vetores sao conferidas aqui e pedidas.

use vstd::prelude::*;
use crate::aplicar::Feito;
use crate::aplicar;
use crate::conversao::vm_para_valor;
use crate::conversao;
use crate::decimal::Decimal;
use crate::decimal;
use crate::nativas_arvore::{dar, falhar, querer, requerer, Chamado};
use crate::nativas_arvore;
use crate::nativas_contas;
use crate::nativas_dados::to_usize;
use crate::nativas_dados;
use crate::operacoes::Saida;
use crate::tensor::{
    chegam_todos,
    dois_tamanhos,
    enfileirar,
    multiplicar,
    somar_eixo,
    vm_tensor_para_lista,
    vm_tensor_transpor,
};
use crate::tensor;
use crate::texto;
use crate::valor::Valor;
use crate::valor;
use crate::vm::{copiar_numeros, copiar_shape, frase, VmValor};
use crate::vm;

verus! {

/// Numeros com ponto, vistos.
pub type Numeros = Seq<(u64, Seq<char>)>;

/// A falha de uma conta que nao cabe.
pub open spec fn panico() -> nativas_arvore::ChamadoVisto {
    nativas_arvore::ChamadoVisto::Feito(aplicar::FeitoVisto::Panico)
}

/// Um tensor.
pub open spec fn tensor_visto(s: Seq<usize>, d: Numeros) -> nativas_arvore::ChamadoVisto {
    nativas_arvore::da(valor::Dado::Tensor { shape: s, dados: d })
}

/// O maior inteiro que um numero com ponto representa sem perda.
pub const MAIOR_EXATO: i64 = 9007199254740992;

// ---- A leitura dos argumentos ------------------------------------------------------------

/// O numero com ponto de um valor, ou o que acontece se nao ha um: um inteiro que perde
/// algarismos e pedido.
pub open spec fn numero_de(nome: Seq<char>, v: valor::Dado) -> Result<(u64, Seq<char>), nativas_arvore::ChamadoVisto> {
    match v {
        valor::Dado::Numero(b, t) => Ok((b, t)),
        valor::Dado::Inteiro(n) => if -MAIOR_EXATO <= n <= MAIOR_EXATO {
            Ok((decimal::bits_de(n as int) as u64, texto::decimal_int(n as int)))
        } else {
            Err(nativas_arvore::ChamadoVisto::Pedida)
        },
        _ => Err(nativas_arvore::requer(nome, "numero"@, v)),
    }
}

fn ler_numero(nome: &str, v: &Valor) -> (r: Result<Decimal, Chamado>)
    ensures
        match r {
            Ok(d) => numero_de(nome@, v@) == Ok::<(u64, Seq<char>), nativas_arvore::ChamadoVisto>((d.bits, d.texto@)),
            Err(c) => numero_de(nome@, v@) == Err::<(u64, Seq<char>), nativas_arvore::ChamadoVisto>(c@),
        },
{
    match v {
        Valor::Numero(d) => Ok(d.clone()),
        Valor::Inteiro(n) => if -MAIOR_EXATO <= *n && *n <= MAIOR_EXATO {
            Ok(Decimal { bits: decimal::de_inteiro(*n), texto: texto::inteiro(*n) })
        } else {
            Err(Chamado::Pedida)
        },
        _ => Err(requerer(nome, "numero", v)),
    }
}

/// Os primeiros `n` numeros de uma lista.
pub open spec fn numeros_de(nome: Seq<char>, l: Seq<valor::Dado>, n: int) -> Result<Numeros, nativas_arvore::ChamadoVisto>
    decreases n,
{
    if n <= 0 || n > l.len() {
        Ok(Seq::empty())
    } else {
        match numeros_de(nome, l, n - 1) {
            Err(c) => Err(c),
            Ok(v) => match numero_de(nome, l[n - 1]) {
                Err(c) => Err(c),
                Ok(x) => Ok(v.push(x)),
            },
        }
    }
}

proof fn lema_numeros_de(nome: Seq<char>, l: Seq<valor::Dado>, n: int, m: int)
    requires
        0 <= n <= m <= l.len(),
        numeros_de(nome, l, n) is Err,
    ensures
        numeros_de(nome, l, m) == numeros_de(nome, l, n),
    decreases m - n,
{
    if n < m {
        lema_numeros_de(nome, l, n + 1, m);
    }
}

proof fn lema_quantos_numeros(nome: Seq<char>, l: Seq<valor::Dado>, n: int)
    requires
        0 <= n <= l.len(),
    ensures
        numeros_de(nome, l, n) matches Ok(v) ==> v.len() == n,
    decreases n,
{
    if n > 0 {
        lema_quantos_numeros(nome, l, n - 1);
    }
}

fn ler_numeros(nome: &str, l: &Vec<Valor>) -> (r: Result<Vec<Decimal>, Chamado>)
    ensures
        match r {
            Ok(d) => numeros_de(nome@, valor::vistos(l@), l@.len() as int) == Ok::<Numeros, nativas_arvore::ChamadoVisto>(
                vm::numeros(d@),
            ) && d@.len() == l@.len(),
            Err(c) => numeros_de(nome@, valor::vistos(l@), l@.len() as int) == Err::<Numeros, nativas_arvore::ChamadoVisto>(
                c@,
            ),
        },
{
    let ghost vs = valor::vistos(l@);
    let mut d: Vec<Decimal> = Vec::new();
    assert(vm::numeros(d@) =~= Seq::empty());
    let mut i: usize = 0;
    while i < l.len()
        invariant
            i <= l@.len(),
            vs == valor::vistos(l@),
            d@.len() == i,
            numeros_de(nome@, vs, i as int) == Ok::<Numeros, nativas_arvore::ChamadoVisto>(vm::numeros(d@)),
        decreases l@.len() - i,
    {
        assert(vs[i as int] == l@[i as int]@);
        match ler_numero(nome, &l[i]) {
            Ok(x) => {
                let ghost o = d@;
                let ghost xv = (x.bits, x.texto@);
                d.push(x);
                assert(vm::numeros(d@) =~= vm::numeros(o).push(xv));
            },
            Err(c) => {
                proof {
                    lema_numeros_de(nome@, vs, i + 1, l@.len() as int);
                }
                return Err(c);
            },
        }
        i += 1;
    }
    Ok(d)
}

/// As primeiras `n` dimensoes de uma lista.
pub open spec fn dimensoes_de(nome: Seq<char>, l: Seq<valor::Dado>, n: int) -> Result<
    Seq<usize>,
    nativas_arvore::ChamadoVisto,
>
    decreases n,
{
    if n <= 0 || n > l.len() {
        Ok(Seq::empty())
    } else {
        match dimensoes_de(nome, l, n - 1) {
            Err(c) => Err(c),
            Ok(v) => match nativas_dados::indice_de(l[n - 1]) {
                None => Err(nativas_dados::sem_indice(nome, l[n - 1])),
                Some(k) => Ok(v.push(k as usize)),
            },
        }
    }
}

proof fn lema_dimensoes_de(nome: Seq<char>, l: Seq<valor::Dado>, n: int, m: int)
    requires
        0 <= n <= m <= l.len(),
        dimensoes_de(nome, l, n) is Err,
    ensures
        dimensoes_de(nome, l, m) == dimensoes_de(nome, l, n),
    decreases m - n,
{
    if n < m {
        lema_dimensoes_de(nome, l, n + 1, m);
    }
}

fn ler_dimensoes(nome: &str, l: &Vec<Valor>) -> (r: Result<Vec<usize>, Chamado>)
    ensures
        match r {
            Ok(d) => dimensoes_de(nome@, valor::vistos(l@), l@.len() as int) == Ok::<
                Seq<usize>,
                nativas_arvore::ChamadoVisto,
            >(d@),
            Err(c) => dimensoes_de(nome@, valor::vistos(l@), l@.len() as int) == Err::<
                Seq<usize>,
                nativas_arvore::ChamadoVisto,
            >(c@),
        },
{
    let ghost vs = valor::vistos(l@);
    let mut d: Vec<usize> = Vec::new();
    let mut i: usize = 0;
    while i < l.len()
        invariant
            i <= l@.len(),
            vs == valor::vistos(l@),
            dimensoes_de(nome@, vs, i as int) == Ok::<Seq<usize>, nativas_arvore::ChamadoVisto>(d@),
        decreases l@.len() - i,
    {
        assert(vs[i as int] == l@[i as int]@);
        match to_usize(&l[i]) {
            Some(k) => {
                d.push(k);
            },
            None => {
                proof {
                    lema_dimensoes_de(nome@, vs, i + 1, l@.len() as int);
                }
                return Err(requerer(nome, "inteiro nao-negativo", &l[i]));
            },
        }
        i += 1;
    }
    Ok(d)
}

/// As dimensoes que os argumentos dao: uma lista delas, ou uma por argumento.
pub open spec fn dimensoes_dos_args(nome: Seq<char>, a: Seq<valor::Dado>) -> Result<
    Seq<usize>,
    nativas_arvore::ChamadoVisto,
> {
    match a[0] {
        valor::Dado::Lista(l) if a.len() == 1 => dimensoes_de(nome, l, l.len() as int),
        _ => dimensoes_de(nome, a, a.len() as int),
    }
}

fn shape_de_args(nome: &str, args: &Vec<Valor>) -> (r: Result<Vec<usize>, Chamado>)
    ensures
        match r {
            Ok(d) => dimensoes_dos_args(nome@, valor::vistos(args@)) == Ok::<Seq<usize>, nativas_arvore::ChamadoVisto>(d@),
            Err(c) => dimensoes_dos_args(nome@, valor::vistos(args@)) == Err::<Seq<usize>, nativas_arvore::ChamadoVisto>(
                c@,
            ),
        },
{
    let ghost a = valor::vistos(args@);
    assert(a.len() == args@.len());
    if args.len() == 1 {
        assert(a[0] == args@[0]@);
        if let Valor::Lista(l) = &args[0] {
            return ler_dimensoes(nome, l);
        }
    }
    ler_dimensoes(nome, args)
}

/// Quantos numeros um tensor tem: nenhum, se nao tem dimensoes. Nada se nao cabem.
pub open spec fn quantos(s: Seq<usize>) -> Option<int> {
    if s.len() == 0 {
        Some(0)
    } else {
        tensor::produto(s)
    }
}

fn contar(s: &Vec<usize>) -> (r: Option<usize>)
    ensures
        match r {
            Some(n) => quantos(s@) == Some(n as int),
            None => quantos(s@) is None,
        },
{
    if s.len() == 0 {
        Some(0)
    } else {
        multiplicar(s.as_slice())
    }
}

// ---- Fazer tensores ----------------------------------------------------------------------

/// Um tensor com o mesmo numero em toda a parte, se cabe.
pub open spec fn cheio(s: Seq<usize>, x: (u64, Seq<char>)) -> nativas_arvore::ChamadoVisto {
    match quantos(s) {
        None => panico(),
        Some(n) => if n * 8 > isize::MAX {
            panico()
        } else {
            tensor_visto(s, tensor::repetido(x, n as nat))
        },
    }
}

fn encher(s: Vec<usize>, x: &Decimal) -> (r: Chamado)
    ensures
        r@ == cheio(s@, (x.bits, x.texto@)),
{
    match contar(&s) {
        None => Chamado::Feito(Feito::Panico),
        Some(n) => if (n as u128) * 8 > isize::MAX as u128 {
            Chamado::Feito(Feito::Panico)
        } else {
            dar(Valor::Tensor { shape: s, dados: tensor::repetir(x, n) })
        },
    }
}

/// O zero e o um, com ponto.
pub open spec fn zero() -> (u64, Seq<char>) {
    (0u64, "0"@)
}

pub open spec fn um() -> (u64, Seq<char>) {
    (0x3ff0000000000000u64, "1"@)
}

fn dizer_zero() -> (r: Decimal)
    ensures
        (r.bits, r.texto@) == zero(),
{
    Decimal { bits: 0, texto: "0".to_owned() }
}

fn dizer_um() -> (r: Decimal)
    ensures
        (r.bits, r.texto@) == um(),
{
    Decimal { bits: 0x3ff0000000000000, texto: "1".to_owned() }
}

/// `matriz`: linhas, colunas e, se ha, o numero que a enche.
pub open spec fn matriz(a: Seq<valor::Dado>) -> nativas_arvore::ChamadoVisto {
    if a.len() < 2 {
        nativas_arvore::falha("'matriz' requer linhas, colunas"@)
    } else {
        match dimensoes_de("matriz"@, a.take(2), 2) {
            Err(c) => c,
            Ok(s) => if a.len() > 2 {
                match numero_de("matriz"@, a[2]) {
                    Err(c) => c,
                    Ok(x) => cheio(s, x),
                }
            } else {
                cheio(s, zero())
            },
        }
    }
}

fn fazer_matriz(args: &Vec<Valor>) -> (r: Chamado)
    ensures
        r@ == matriz(valor::vistos(args@)),
{
    let ghost a = valor::vistos(args@);
    assert(a.len() == args@.len());
    if args.len() < 2 {
        return falhar("'matriz' requer linhas, colunas");
    }
    assert(a[0] == args@[0]@ && a[1] == args@[1]@);
    proof {
        reveal_with_fuel(dimensoes_de, 3);
    }
    let l = match to_usize(&args[0]) {
        Some(l) => l,
        None => return requerer("matriz", "inteiro nao-negativo", &args[0]),
    };
    let c = match to_usize(&args[1]) {
        Some(c) => c,
        None => return requerer("matriz", "inteiro nao-negativo", &args[1]),
    };
    assert(Seq::<usize>::empty().push(l).push(c) =~= seq![l, c]);
    if args.len() > 2 {
        assert(a[2] == args@[2]@);
        match ler_numero("matriz", &args[2]) {
            Ok(x) => encher(dois_tamanhos(l, c), &x),
            Err(c) => c,
        }
    } else {
        let z = dizer_zero();
        encher(dois_tamanhos(l, c), &z)
    }
}

/// Os numeros das primeiras `n` linhas, cada uma com `ncol`.
pub open spec fn linhas_de(l: Seq<valor::Dado>, ncol: int, n: int) -> Result<Numeros, nativas_arvore::ChamadoVisto>
    decreases n,
{
    if n <= 0 || n > l.len() {
        Ok(Seq::empty())
    } else {
        match linhas_de(l, ncol, n - 1) {
            Err(c) => Err(c),
            Ok(v) => match l[n - 1] {
                valor::Dado::Lista(r) => if r.len() != ncol {
                    Err(nativas_arvore::falha("'mat_de': linhas com tamanhos diferentes"@))
                } else {
                    match numeros_de("mat_de"@, r, r.len() as int) {
                        Err(c) => Err(c),
                        Ok(x) => Ok(v + x),
                    }
                },
                _ => Err(nativas_arvore::falha("'mat_de' requer lista de listas"@)),
            },
        }
    }
}

proof fn lema_linhas_de(l: Seq<valor::Dado>, ncol: int, n: int, m: int)
    requires
        0 <= n <= m <= l.len(),
        linhas_de(l, ncol, n) is Err,
    ensures
        linhas_de(l, ncol, m) == linhas_de(l, ncol, n),
    decreases m - n,
{
    if n < m {
        lema_linhas_de(l, ncol, n + 1, m);
    }
}

/// `mat_de`: uma matriz de uma lista de linhas.
pub open spec fn matriz_de(v: valor::Dado) -> nativas_arvore::ChamadoVisto {
    match v {
        valor::Dado::Lista(l) => if l.len() == 0 {
            tensor_visto(seq![0usize, 0usize], Seq::empty())
        } else {
            match l[0] {
                valor::Dado::Lista(r) => if l.len() * r.len() * 8 > isize::MAX {
                    panico()
                } else {
                    match linhas_de(l, r.len() as int, l.len() as int) {
                        Err(c) => c,
                        Ok(d) => tensor_visto(seq![l.len() as usize, r.len() as usize], d),
                    }
                },
                _ => nativas_arvore::falha("'mat_de' requer lista de listas"@),
            }
        },
        _ => nativas_arvore::requer("mat_de"@, "lista"@, v),
    }
}

/// Se uma matriz nao cabe na memoria.
fn nao_cabe(nlin: usize, ncol: usize) -> (r: bool)
    ensures
        r == (nlin * ncol * 8 > isize::MAX),
{
    proof {
        assert(0 <= nlin * ncol <= 0xffff_ffff_ffff_ffff * 0xffff_ffff_ffff_ffff) by (nonlinear_arith)
            requires
                nlin <= 0xffff_ffff_ffff_ffff,
                ncol <= 0xffff_ffff_ffff_ffff,
        ;
    }
    let total: u128 = (nlin as u128) * (ncol as u128);
    total > (isize::MAX as u128) / 8
}

fn fazer_matriz_de(v: &Valor) -> (r: Chamado)
    ensures
        r@ == matriz_de(v@),
{
    let l = match v {
        Valor::Lista(l) => l,
        _ => return requerer("mat_de", "lista", v),
    };
    let ghost vs = valor::vistos(l@);
    assert(vs.len() == l@.len());
    if l.len() == 0 {
        let d: Vec<Decimal> = Vec::new();
        assert(vm::numeros(d@) =~= Seq::empty());
        return dar(Valor::Tensor { shape: dois_tamanhos(0, 0), dados: d });
    }
    assert(vs[0] == l@[0]@);
    let ncol = match &l[0] {
        Valor::Lista(r) => r.len(),
        _ => return falhar("'mat_de' requer lista de listas"),
    };
    if nao_cabe(l.len(), ncol) {
        return Chamado::Feito(Feito::Panico);
    }
    let mut d: Vec<Decimal> = Vec::new();
    assert(vm::numeros(d@) =~= Seq::empty());
    let mut i: usize = 0;
    while i < l.len()
        invariant
            i <= l@.len(),
            vs == valor::vistos(l@),
            linhas_de(vs, ncol as int, i as int) == Ok::<Numeros, nativas_arvore::ChamadoVisto>(vm::numeros(d@)),
            v@ == valor::Dado::Lista(vs),
            vs.len() > 0,
            vs[0] is Lista,
            vs[0]->Lista_0.len() == ncol,
            vs.len() * ncol * 8 <= isize::MAX,
        decreases l@.len() - i,
    {
        assert(vs[i as int] == l@[i as int]@);
        match &l[i] {
            Valor::Lista(r) => {
                assert(valor::vistos(r@).len() == r@.len());
                if r.len() != ncol {
                    proof {
                        lema_linhas_de(vs, ncol as int, i + 1, l@.len() as int);
                    }
                    return falhar("'mat_de': linhas com tamanhos diferentes");
                }
                match ler_numeros("mat_de", r) {
                    Ok(x) => {
                        let ghost o = vm::numeros(d@);
                        let ghost xv = vm::numeros(x@);
                        tensor::acrescentar(&mut d, &x, 0, x.len());
                        assert(xv.subrange(0, x@.len() as int) =~= xv);
                    },
                    Err(c) => {
                        proof {
                            lema_linhas_de(vs, ncol as int, i + 1, l@.len() as int);
                        }
                        return c;
                    },
                }
            },
            _ => {
                proof {
                    lema_linhas_de(vs, ncol as int, i + 1, l@.len() as int);
                }
                return falhar("'mat_de' requer lista de listas");
            },
        }
        i += 1;
    }
    dar(Valor::Tensor { shape: dois_tamanhos(l.len(), ncol), dados: d })
}

/// Os numeros da matriz identidade.
pub open spec fn identidade(n: int) -> Numeros {
    Seq::new(
        (n * n) as nat,
        |p: int|
            if p / n == p % n {
                um()
            } else {
                zero()
            },
    )
}

/// `mat_identidade`.
pub open spec fn matriz_identidade(v: valor::Dado) -> nativas_arvore::ChamadoVisto {
    match nativas_dados::indice_de(v) {
        None => nativas_dados::sem_indice("mat_identidade"@, v),
        Some(n) => if n * n * 8 > isize::MAX {
            panico()
        } else {
            tensor_visto(seq![n as usize, n as usize], identidade(n))
        },
    }
}

fn fazer_identidade(v: &Valor) -> (r: Chamado)
    ensures
        r@ == matriz_identidade(v@),
{
    let n = match to_usize(v) {
        Some(n) => n,
        None => return requerer("mat_identidade", "inteiro nao-negativo", v),
    };
    if nao_cabe(n, n) {
        return Chamado::Feito(Feito::Panico);
    }
    let ghost esperado = identidade(n as int);
    let mut d: Vec<Decimal> = Vec::new();
    let mut i: usize = 0;
    assert(0 * n == 0) by (nonlinear_arith);
    while i < n
        invariant
            i <= n,
            n * n * 8 <= isize::MAX,
            esperado == identidade(n as int),
            d@.len() == i * n,
            forall|p: int| 0 <= p < i * n ==> vm::numeros(d@)[p] == #[trigger] esperado[p],
        decreases n - i,
    {
        let mut j: usize = 0;
        while j < n
            invariant
                j <= n,
                i < n,
                n * n * 8 <= isize::MAX,
                esperado == identidade(n as int),
                d@.len() == i * n + j,
                forall|p: int| 0 <= p < i * n + j ==> vm::numeros(d@)[p] == #[trigger] esperado[p],
            decreases n - j,
        {
            let ghost o = d@;
            proof {
                tensor::lema_celula(i as int, j as int, n as int, n as int);
            }
            if i == j {
                d.push(dizer_um());
            } else {
                d.push(dizer_zero());
            }
            assert(vm::numeros(d@) =~= vm::numeros(o).push(esperado[i * n + j]));
            j += 1;
        }
        assert(i * n + n == (i + 1) * n) by (nonlinear_arith);
        i += 1;
    }
    assert(vm::numeros(d@) =~= esperado);
    dar(Valor::Tensor { shape: dois_tamanhos(n, n), dados: d })
}

// ---- Ler e mudar uma matriz --------------------------------------------------------------

/// A falha de uma posicao fora da matriz.
pub open spec fn fora(nome: Seq<char>, l: int, c: int, s: Seq<usize>) -> nativas_arvore::ChamadoVisto {
    nativas_arvore::falha(
        nome + ": indice ("@ + texto::decimal(l as nat) + ","@ + texto::decimal(c as nat) + ") fora de ("@
            + texto::decimal(s[0] as nat) + "x"@ + texto::decimal(s[1] as nat) + ")"@,
    )
}

fn dizer_fora(nome: &str, l: usize, c: usize, s: &Vec<usize>) -> (r: Chamado)
    requires
        s@.len() == 2,
    ensures
        r@ == fora(nome@, l as int, c as int, s@),
{
    let mut m = frase(nome, ": indice (", texto::natural(l as u64).as_str());
    m.append(",");
    m.append(texto::natural(c as u64).as_str());
    m.append(") fora de (");
    m.append(texto::natural(s[0] as u64).as_str());
    m.append("x");
    m.append(texto::natural(s[1] as u64).as_str());
    m.append(")");
    falhar(m.as_str())
}

/// A celula pedida: a posicao dela, ou o que acontece.
pub open spec fn celula(nome: Seq<char>, a: Seq<valor::Dado>) -> Result<int, nativas_arvore::ChamadoVisto> {
    match a[0] {
        valor::Dado::Tensor { shape, dados } if shape.len() == 2 => match (
            nativas_dados::indice_de(a[1]),
            nativas_dados::indice_de(a[2]),
        ) {
            (None, _) => Err(nativas_dados::sem_indice(nome, a[1])),
            (_, None) => Err(nativas_dados::sem_indice(nome, a[2])),
            (Some(l), Some(c)) => if nome == "mat_definir"@ && numero_de(nome, a[3]) is Err {
                Err(numero_de(nome, a[3])->Err_0)
            } else if l >= shape[0] || c >= shape[1] {
                Err(fora(nome, l, c, shape))
            } else if l * shape[1] + c >= dados.len() {
                Err(panico())
            } else {
                Ok(l * shape[1] + c)
            },
        },
        v => Err(nativas_arvore::requer(nome, "tensor 2D"@, v)),
    }
}

fn achar_celula(nome: &str, args: &Vec<Valor>) -> (r: Result<usize, Chamado>)
    requires
        args@.len() >= 3,
        nome@ == "mat_definir"@ ==> args@.len() >= 4,
    ensures
        match r {
            Ok(p) => celula(nome@, valor::vistos(args@)) == Ok::<int, nativas_arvore::ChamadoVisto>(p as int),
            Err(c) => celula(nome@, valor::vistos(args@)) == Err::<int, nativas_arvore::ChamadoVisto>(c@),
        },
{
    let ghost a = valor::vistos(args@);
    assert(a[0] == args@[0]@ && a[1] == args@[1]@ && a[2] == args@[2]@);
    match &args[0] {
        Valor::Tensor { shape, dados } => {
            assert(vm::numeros(dados@).len() == dados@.len());
            if shape.len() != 2 {
                return Err(requerer(nome, "tensor 2D", &args[0]));
            }
            let l = match to_usize(&args[1]) {
                Some(l) => l,
                None => return Err(requerer(nome, "inteiro nao-negativo", &args[1])),
            };
            let c = match to_usize(&args[2]) {
                Some(c) => c,
                None => return Err(requerer(nome, "inteiro nao-negativo", &args[2])),
            };
            if nome.eq("mat_definir") {
                assert(a[3] == args@[3]@);
                if let Err(c) = ler_numero(nome, &args[3]) {
                    return Err(c);
                }
            }
            if l >= shape[0] || c >= shape[1] {
                return Err(dizer_fora(nome, l, c, shape));
            }
            let w = shape[1];
            proof {
                assert(0 <= l * w <= 0xffff_ffff_ffff_ffff * 0xffff_ffff_ffff_ffff) by (nonlinear_arith)
                    requires
                        l <= 0xffff_ffff_ffff_ffff,
                        w <= 0xffff_ffff_ffff_ffff,
                ;
            }
            let p: u128 = (l as u128) * (w as u128) + c as u128;
            if p >= dados.len() as u128 {
                Err(Chamado::Feito(Feito::Panico))
            } else {
                Ok(p as usize)
            }
        },
        _ => Err(requerer(nome, "tensor 2D", &args[0])),
    }
}

/// `mat_obter`: o numero de uma linha e uma coluna.
pub open spec fn obtido(a: Seq<valor::Dado>) -> nativas_arvore::ChamadoVisto {
    if a.len() < 3 {
        nativas_arvore::falha("'mat_obter' requer tensor, linha, coluna"@)
    } else {
        match celula("mat_obter"@, a) {
            Err(c) => c,
            Ok(p) => nativas_arvore::da(valor::Dado::Numero(a[0]->Tensor_dados[p].0, a[0]->Tensor_dados[p].1)),
        }
    }
}

fn obter_celula(args: &Vec<Valor>) -> (r: Chamado)
    ensures
        r@ == obtido(valor::vistos(args@)),
{
    let ghost a = valor::vistos(args@);
    assert(a.len() == args@.len());
    if args.len() < 3 {
        return falhar("'mat_obter' requer tensor, linha, coluna");
    }
    proof {
        reveal_strlit("mat_obter");
        reveal_strlit("mat_definir");
        assert("mat_obter"@.len() == 9 && "mat_definir"@.len() == 11);
    }
    match achar_celula("mat_obter", args) {
        Err(c) => c,
        Ok(p) => {
            assert(a[0] == args@[0]@);
            match &args[0] {
                Valor::Tensor { shape: _, dados } => {
                    assert(vm::numeros(dados@)[p as int] == (dados@[p as int].bits, dados@[p as int].texto@));
                    dar(Valor::Numero(dados[p].clone()))
                },
                _ => Chamado::Pedida,
            }
        },
    }
}

/// `mat_definir`: a matriz com um numero trocado.
pub open spec fn definido(a: Seq<valor::Dado>) -> nativas_arvore::ChamadoVisto {
    if a.len() < 4 {
        nativas_arvore::falha("'mat_definir' requer tensor, linha, coluna, valor"@)
    } else {
        match celula("mat_definir"@, a) {
            Err(c) => c,
            Ok(p) => tensor_visto(
                a[0]->Tensor_shape,
                a[0]->Tensor_dados.update(p, numero_de("mat_definir"@, a[3])->Ok_0),
            ),
        }
    }
}

fn definir_celula(args: &Vec<Valor>) -> (r: Chamado)
    ensures
        r@ == definido(valor::vistos(args@)),
{
    let ghost a = valor::vistos(args@);
    assert(a.len() == args@.len());
    if args.len() < 4 {
        return falhar("'mat_definir' requer tensor, linha, coluna, valor");
    }
    match achar_celula("mat_definir", args) {
        Err(c) => c,
        Ok(p) => {
            assert(a[0] == args@[0]@ && a[3] == args@[3]@);
            match (&args[0], ler_numero("mat_definir", &args[3])) {
                (Valor::Tensor { shape, dados }, Ok(x)) => {
                    let ghost xv = (x.bits, x.texto@);
                    let mut d = copiar_numeros(dados);
                    let ghost o = d@;
                    assert(vm::numeros(o).len() == o.len() && vm::numeros(dados@).len() == dados@.len());
                    d.set(p, x);
                    assert(vm::numeros(d@) =~= vm::numeros(o).update(p as int, xv));
                    dar(Valor::Tensor { shape: copiar_shape(shape), dados: d })
                },
                _ => Chamado::Pedida,
            }
        },
    }
}

// ---- Mudar a forma -----------------------------------------------------------------------

/// Os numeros de um tensor com outras dimensoes, se sao tantos quantos elas pedem.
pub open spec fn com_dimensoes(nome: Seq<char>, pede: Seq<char>, d: Numeros, v: valor::Dado) -> nativas_arvore::ChamadoVisto {
    match v {
        valor::Dado::Lista(l) => match dimensoes_de(nome, l, l.len() as int) {
            Err(c) => c,
            Ok(s) => match quantos(s) {
                None => panico(),
                Some(n) => if d.len() != n {
                    nativas_arvore::falha(
                        nome + ": "@ + texto::decimal(d.len()) + " elementos mas "@ + pede + " requer "@ + texto::decimal(
                            n as nat,
                        ),
                    )
                } else {
                    tensor_visto(s, d)
                },
            },
        },
        _ => nativas_arvore::falha("'"@ + nome + "': segundo arg deve ser lista de dimensoes"@),
    }
}

fn dar_dimensoes(nome: &str, pede: &str, d: Vec<Decimal>, v: &Valor) -> (r: Chamado)
    ensures
        r@ == com_dimensoes(nome@, pede@, vm::numeros(d@), v@),
{
    assert(vm::numeros(d@).len() == d@.len());
    match v {
        Valor::Lista(l) => match ler_dimensoes(nome, l) {
            Err(c) => c,
            Ok(s) => match contar(&s) {
                None => Chamado::Feito(Feito::Panico),
                Some(n) => if d.len() != n {
                    let mut m = frase(nome, ": ", texto::natural(d.len() as u64).as_str());
                    m.append(" elementos mas ");
                    m.append(pede);
                    m.append(" requer ");
                    m.append(texto::natural(n as u64).as_str());
                    falhar(m.as_str())
                } else {
                    dar(Valor::Tensor { shape: s, dados: d })
                },
            },
        },
        _ => falhar(frase("'", nome, "': segundo arg deve ser lista de dimensoes").as_str()),
    }
}

/// `tensor_de`: um tensor de uma lista de numeros e das dimensoes.
pub open spec fn tensor_da_lista(a: Seq<valor::Dado>) -> nativas_arvore::ChamadoVisto {
    if a.len() < 2 {
        nativas_arvore::falha("'tensor_de' requer lista_plana, shape"@)
    } else {
        match a[0] {
            valor::Dado::Lista(l) => match numeros_de("tensor_de"@, l, l.len() as int) {
                Err(c) => c,
                Ok(d) => com_dimensoes("tensor_de"@, "shape"@, d, a[1]),
            },
            v => nativas_arvore::requer("tensor_de"@, "lista de numeros"@, v),
        }
    }
}

fn fazer_da_lista(args: &Vec<Valor>) -> (r: Chamado)
    ensures
        r@ == tensor_da_lista(valor::vistos(args@)),
{
    let ghost a = valor::vistos(args@);
    assert(a.len() == args@.len());
    if args.len() < 2 {
        return falhar("'tensor_de' requer lista_plana, shape");
    }
    assert(a[0] == args@[0]@ && a[1] == args@[1]@);
    match &args[0] {
        Valor::Lista(l) => match ler_numeros("tensor_de", l) {
            Err(c) => c,
            Ok(d) => dar_dimensoes("tensor_de", "shape", d, &args[1]),
        },
        _ => requerer("tensor_de", "lista de numeros", &args[0]),
    }
}

/// `tensor_reshape`: o mesmo tensor com outras dimensoes.
pub open spec fn redimensionado(a: Seq<valor::Dado>) -> nativas_arvore::ChamadoVisto {
    if a.len() < 2 {
        nativas_arvore::falha("'tensor_reshape' requer tensor, nova_shape"@)
    } else {
        match a[0] {
            valor::Dado::Tensor { shape, dados } => com_dimensoes("tensor_reshape"@, "nova shape"@, dados, a[1]),
            v => nativas_arvore::requer("tensor_reshape"@, "tensor"@, v),
        }
    }
}

fn redimensionar(args: &Vec<Valor>) -> (r: Chamado)
    ensures
        r@ == redimensionado(valor::vistos(args@)),
{
    let ghost a = valor::vistos(args@);
    assert(a.len() == args@.len());
    if args.len() < 2 {
        return falhar("'tensor_reshape' requer tensor, nova_shape");
    }
    assert(a[0] == args@[0]@ && a[1] == args@[1]@);
    match &args[0] {
        Valor::Tensor { shape: _, dados } => dar_dimensoes("tensor_reshape", "nova shape", copiar_numeros(dados), &args[1]),
        _ => requerer("tensor_reshape", "tensor", &args[0]),
    }
}

/// `mat_transpor` e `tensor_transpor`.
pub open spec fn transposto(nome: Seq<char>, v: valor::Dado) -> nativas_arvore::ChamadoVisto {
    match v {
        valor::Dado::Tensor { shape: s, dados: d } => if s.len() == 2 {
            if s[0] * s[1] > usize::MAX || d.len() < s[0] * s[1] {
                panico()
            } else {
                tensor_visto(seq![s[1], s[0]], tensor::por_colunas(d, s[0] as int, s[1] as int))
            }
        } else if nome == "mat_transpor"@ {
            nativas_arvore::requer(nome, "tensor 2D"@, v)
        } else {
            nativas_arvore::falha(
                "'tensor_transpor': apenas 2D suportado (recebeu "@ + texto::decimal(s.len()) + "D)"@,
            )
        },
        _ => nativas_arvore::requer(
            nome,
            if nome == "mat_transpor"@ {
                "tensor 2D"@
            } else {
                "tensor"@
            },
            v,
        ),
    }
}

fn transpor(nome: &str, v: &Valor) -> (r: Chamado)
    ensures
        r@ == transposto(nome@, v@),
{
    match v {
        Valor::Tensor { shape, dados } => if shape.len() == 2 {
            let t = VmValor::Tensor { shape: copiar_shape(shape), dados: copiar_numeros(dados), marca: 0 };
            assert(tensor::tensor_de(t@) == Some((shape@, vm::numeros(dados@))));
            match vm_tensor_transpor(t) {
                Saida::Valor(w) => dar(vm_para_valor(&w)),
                _ => Chamado::Feito(Feito::Panico),
            }
        } else if nome.eq("mat_transpor") {
            requerer(nome, "tensor 2D", v)
        } else {
            falhar(
                frase(
                    "'tensor_transpor': apenas 2D suportado (recebeu ",
                    texto::natural(shape.len() as u64).as_str(),
                    "D)",
                ).as_str(),
            )
        },
        _ => if nome.eq("mat_transpor") {
            requerer(nome, "tensor 2D", v)
        } else {
            requerer(nome, "tensor", v)
        },
    }
}

/// `mat_para_lista` e `tensor_para_lista`.
pub open spec fn em_listas(nome: Seq<char>, v: valor::Dado) -> nativas_arvore::ChamadoVisto {
    match v {
        valor::Dado::Tensor { shape, dados } => match tensor::em_listas(shape, dados) {
            Some(l) => nativas_arvore::da(conversao::dado_de(l)),
            None => panico(),
        },
        _ => nativas_arvore::requer(nome, "tensor"@, v),
    }
}

fn por_em_listas(nome: &str, v: &Valor) -> (r: Chamado)
    ensures
        r@ == em_listas(nome@, v@),
{
    match v {
        Valor::Tensor { shape, dados } => match vm_tensor_para_lista(shape.as_slice(), dados.as_slice()) {
            Some(l) => dar(vm_para_valor(&l)),
            None => Chamado::Feito(Feito::Panico),
        },
        _ => requerer(nome, "tensor", v),
    }
}

// ---- Juntar tensores ---------------------------------------------------------------------

/// Os primeiros `n` tensores de uma lista, ou o primeiro valor que nao e um.
pub open spec fn tensores_de(l: Seq<valor::Dado>, n: int) -> Result<Seq<tensor::TensorVisto>, valor::Dado>
    decreases n,
{
    if n <= 0 || n > l.len() {
        Ok(Seq::empty())
    } else {
        match tensores_de(l, n - 1) {
            Err(v) => Err(v),
            Ok(ts) => match l[n - 1] {
                valor::Dado::Tensor { shape, dados } => Ok(ts.push((shape, dados))),
                v => Err(v),
            },
        }
    }
}

proof fn lema_tensores_de(l: Seq<valor::Dado>, n: int, m: int)
    requires
        0 <= n <= m <= l.len(),
        tensores_de(l, n) is Err,
    ensures
        tensores_de(l, m) == tensores_de(l, n),
    decreases m - n,
{
    if n < m {
        lema_tensores_de(l, n + 1, m);
    }
}

fn ler_tensores(l: &Vec<Valor>) -> (r: Result<(Vec<Vec<usize>>, Vec<Vec<Decimal>>), String>)
    ensures
        match r {
            Ok((ss, ds)) => tensores_de(valor::vistos(l@), l@.len() as int) matches Ok(ts) && tensor::partidos(
                ts,
                tensor::dimensoes_vistas(ss@),
                tensor::grupos_vistos(ds@),
            ),
            Err(m) => tensores_de(valor::vistos(l@), l@.len() as int) matches Err(v) && m@ == valor::texto_de(v),
        },
{
    let ghost vs = valor::vistos(l@);
    let mut ss: Vec<Vec<usize>> = Vec::new();
    let mut ds: Vec<Vec<Decimal>> = Vec::new();
    let mut i: usize = 0;
    while i < l.len()
        invariant
            i <= l@.len(),
            vs == valor::vistos(l@),
            ss@.len() == i,
            ds@.len() == i,
            tensores_de(vs, i as int) matches Ok(ts) && ts.len() == i && forall|k: int|
                0 <= k < i ==> (#[trigger] ts[k]) == (ss@[k]@, vm::numeros(ds@[k]@)),
        decreases l@.len() - i,
    {
        assert(vs[i as int] == l@[i as int]@);
        match &l[i] {
            Valor::Tensor { shape, dados } => {
                ss.push(copiar_shape(shape));
                ds.push(copiar_numeros(dados));
            },
            _ => {
                proof {
                    lema_tensores_de(vs, i + 1, l@.len() as int);
                }
                return Err(l[i].texto());
            },
        }
        i += 1;
    }
    Ok((ss, ds))
}

/// A falha das dimensoes dos tensores a partir do tensor `i`.
pub open spec fn discordancia(ss: Seq<Seq<usize>>, eixo: int, i: int) -> Option<Seq<char>>
    decreases ss.len() - i,
{
    if i < 1 || i >= ss.len() {
        None
    } else if ss[i].len() != ss[0].len() {
        Some("tensor_concatenar: tensores com numero de dims diferentes"@)
    } else {
        match tensor::discorda(ss[0], ss[i], eixo, 0) {
            Some(k) => Some(
                "tensor_concatenar: dim "@ + texto::decimal(k as nat) + " incompativel ("@ + texto::decimal(
                    ss[0][k] as nat,
                ) + " vs "@ + texto::decimal(ss[i][k] as nat) + ")"@,
            ),
            None => discordancia(ss, eixo, i + 1),
        }
    }
}

fn achar_discordancia(ss: &Vec<Vec<usize>>, eixo: usize) -> (r: Option<String>)
    requires
        ss@.len() > 0,
    ensures
        match r {
            Some(m) => discordancia(tensor::dimensoes_vistas(ss@), eixo as int, 1) == Some(m@),
            None => discordancia(tensor::dimensoes_vistas(ss@), eixo as int, 1) is None && forall|i: int|
                0 <= i < ss@.len() ==> (#[trigger] ss@[i])@.len() == ss@[0]@.len(),
        },
{
    let ghost v = tensor::dimensoes_vistas(ss@);
    let mut i: usize = 1;
    while i < ss.len()
        invariant
            1 <= i <= ss@.len(),
            v == tensor::dimensoes_vistas(ss@),
            discordancia(v, eixo as int, 1) == discordancia(v, eixo as int, i as int),
            forall|k: int| 0 <= k < i ==> (#[trigger] ss@[k])@.len() == ss@[0]@.len(),
        decreases ss@.len() - i,
    {
        assert(v[0] == ss@[0]@ && v[i as int] == ss@[i as int]@);
        if ss[i].len() != ss[0].len() {
            return Some("tensor_concatenar: tensores com numero de dims diferentes".to_owned());
        }
        let mut k: usize = 0;
        while k < ss[0].len()
            invariant
                k <= ss@[0]@.len(),
                1 <= i < ss@.len(),
                ss@[i as int]@.len() == ss@[0]@.len(),
                v == tensor::dimensoes_vistas(ss@),
                v[0] == ss@[0]@,
                v[i as int] == ss@[i as int]@,
                discordancia(v, eixo as int, 1) == discordancia(v, eixo as int, i as int),
                tensor::discorda(v[0], v[i as int], eixo as int, 0) == tensor::discorda(
                    v[0],
                    v[i as int],
                    eixo as int,
                    k as int,
                ),
            decreases ss@[0]@.len() - k,
        {
            if k != eixo && ss[0][k] != ss[i][k] {
                let mut m = frase("tensor_concatenar: dim ", texto::natural(k as u64).as_str(), " incompativel (");
                m.append(texto::natural(ss[0][k] as u64).as_str());
                m.append(" vs ");
                m.append(texto::natural(ss[i][k] as u64).as_str());
                m.append(")");
                return Some(m);
            }
            k += 1;
        }
        i += 1;
    }
    None
}

/// As primeiras `n` listas, uma depois da outra.
pub open spec fn emendadas(ds: Seq<Numeros>, n: int) -> Numeros
    decreases n,
{
    if n <= 0 || n > ds.len() {
        Seq::empty()
    } else {
        emendadas(ds, n - 1) + ds[n - 1]
    }
}

fn emendar(ds: &Vec<Vec<Decimal>>) -> (r: Vec<Decimal>)
    ensures
        vm::numeros(r@) == emendadas(tensor::grupos_vistos(ds@), ds@.len() as int),
{
    let ghost g = tensor::grupos_vistos(ds@);
    let mut out: Vec<Decimal> = Vec::new();
    assert(vm::numeros(out@) =~= Seq::empty());
    let mut i: usize = 0;
    while i < ds.len()
        invariant
            i <= ds@.len(),
            g == tensor::grupos_vistos(ds@),
            vm::numeros(out@) == emendadas(g, i as int),
        decreases ds@.len() - i,
    {
        let n = ds[i].len();
        tensor::acrescentar(&mut out, &ds[i], 0, n);
        assert(g[i as int] == vm::numeros(ds@[i as int]@));
        assert(vm::numeros(ds@[i as int]@).subrange(0, n as int) =~= g[i as int]);
        i += 1;
    }
    out
}

/// As larguras das matrizes.
pub open spec fn larguras(ss: Seq<Seq<usize>>) -> Seq<int> {
    Seq::new(ss.len(), |i: int| ss[i][1] as int)
}

fn medir_larguras(ss: &Vec<Vec<usize>>) -> (r: Vec<usize>)
    requires
        forall|i: int| 0 <= i < ss@.len() ==> (#[trigger] ss@[i])@.len() == 2,
    ensures
        tensor::larguras(r@) == larguras(tensor::dimensoes_vistas(ss@)),
{
    let mut r: Vec<usize> = Vec::new();
    let mut i: usize = 0;
    while i < ss.len()
        invariant
            i <= ss@.len(),
            r@.len() == i,
            forall|k: int| 0 <= k < ss@.len() ==> (#[trigger] ss@[k])@.len() == 2,
            forall|k: int| 0 <= k < i ==> #[trigger] r@[k] == ss@[k]@[1],
        decreases ss@.len() - i,
    {
        r.push(ss[i][1]);
        i += 1;
    }
    assert(tensor::larguras(r@) =~= larguras(tensor::dimensoes_vistas(ss@)));
    r
}

/// Varias matrizes juntas, por linhas (eixo zero) ou por colunas (eixo um).
pub open spec fn juntas(ts: Seq<tensor::TensorVisto>, eixo: int) -> nativas_arvore::ChamadoVisto {
    let ss = tensor::so_dimensoes(ts);
    let ds = tensor::so_numeros(ts);
    if ts.len() == 0 {
        nativas_arvore::falha("tensor_concatenar: lista vazia"@)
    } else if eixo >= ss[0].len() {
        nativas_arvore::falha("tensor_concatenar: eixo "@ + texto::decimal(eixo as nat) + " invalido"@)
    } else if discordancia(ss, eixo, 1) is Some {
        nativas_arvore::falha(discordancia(ss, eixo, 1)->Some_0)
    } else {
        match tensor::soma_do_eixo(ss, eixo, ss.len() as int) {
            None => panico(),
            Some(e) => {
                let nova = ss[0].update(eixo, e as usize);
                match tensor::produto(nova) {
                    None => panico(),
                    Some(n) => if n * 8 > isize::MAX {
                        panico()
                    } else if nova.len() != 2 {
                        nativas_arvore::falha("tensor_concatenar: apenas tensores 2D suportados por ora"@)
                    } else if eixo == 0 {
                        tensor_visto(nova, emendadas(ds, ds.len() as int))
                    } else if tensor::chegam(ds, larguras(ss), ss[0][0] as int) {
                        tensor_visto(nova, tensor::filas(ds, larguras(ss), ss[0][0] as int))
                    } else {
                        panico()
                    },
                }
            },
        }
    }
}

fn juntar_tensores(ss: &Vec<Vec<usize>>, ds: &Vec<Vec<Decimal>>, eixo: usize, Ghost(ts): Ghost<Seq<tensor::TensorVisto>>) -> (r:
    Chamado)
    requires
        tensor::partidos(ts, tensor::dimensoes_vistas(ss@), tensor::grupos_vistos(ds@)),
    ensures
        r@ == juntas(ts, eixo as int),
{
    let ghost sv = tensor::dimensoes_vistas(ss@);
    proof {
        assert(tensor::so_dimensoes(ts) =~= sv);
        assert(tensor::so_numeros(ts) =~= tensor::grupos_vistos(ds@));
        assert(ts.len() == ss@.len() && ds@.len() == ss@.len());
    }
    if ss.len() == 0 {
        return falhar("tensor_concatenar: lista vazia");
    }
    assert(sv[0] == ss@[0]@);
    if eixo >= ss[0].len() {
        return falhar(frase("tensor_concatenar: eixo ", texto::natural(eixo as u64).as_str(), " invalido").as_str());
    }
    if let Some(m) = achar_discordancia(ss, eixo) {
        return falhar(m.as_str());
    }
    let e = match somar_eixo(ss, eixo) {
        Some(e) => e,
        None => return Chamado::Feito(Feito::Panico),
    };
    let mut nova = copiar_shape(&ss[0]);
    nova.set(eixo, e);
    let n = match multiplicar(nova.as_slice()) {
        Some(n) => n,
        None => return Chamado::Feito(Feito::Panico),
    };
    if (n as u128) * 8 > isize::MAX as u128 {
        return Chamado::Feito(Feito::Panico);
    }
    if nova.len() != 2 {
        return falhar("tensor_concatenar: apenas tensores 2D suportados por ora");
    }
    if eixo == 0 {
        return dar(Valor::Tensor { shape: nova, dados: emendar(ds) });
    }
    let ws = medir_larguras(ss);
    assert(tensor::larguras(ws@).len() == ws@.len());
    let nlin = ss[0][0];
    if chegam_todos(ds, &ws, nlin) {
        dar(Valor::Tensor { shape: nova, dados: enfileirar(ds, &ws, nlin) })
    } else {
        Chamado::Feito(Feito::Panico)
    }
}

/// `tensor_concatenar`.
pub open spec fn concatenado(a: Seq<valor::Dado>) -> nativas_arvore::ChamadoVisto {
    if a.len() < 2 {
        nativas_arvore::falha("'tensor_concatenar' requer lista_de_tensores, eixo"@)
    } else {
        match nativas_dados::indice_de(a[1]) {
            None => nativas_dados::sem_indice("tensor_concatenar"@, a[1]),
            Some(eixo) => match a[0] {
                valor::Dado::Lista(l) => match tensores_de(l, l.len() as int) {
                    Err(v) => nativas_arvore::falha("tensor_concatenar: elemento nao e tensor: "@ + valor::texto_de(v)),
                    Ok(ts) => juntas(ts, eixo),
                },
                v => nativas_arvore::requer("tensor_concatenar"@, "lista de tensores"@, v),
            },
        }
    }
}

fn tensor_concat(args: &Vec<Valor>) -> (r: Chamado)
    ensures
        r@ == concatenado(valor::vistos(args@)),
{
    let ghost a = valor::vistos(args@);
    assert(a.len() == args@.len());
    if args.len() < 2 {
        return falhar("'tensor_concatenar' requer lista_de_tensores, eixo");
    }
    assert(a[0] == args@[0]@ && a[1] == args@[1]@);
    let eixo = match to_usize(&args[1]) {
        Some(e) => e,
        None => return requerer("tensor_concatenar", "inteiro nao-negativo", &args[1]),
    };
    match &args[0] {
        Valor::Lista(l) => match ler_tensores(l) {
            Err(m) => {
                let mut t = "tensor_concatenar: elemento nao e tensor: ".to_owned();
                t.append(m.as_str());
                falhar(t.as_str())
            },
            Ok((ss, ds)) => {
                let ghost ts = tensores_de(valor::vistos(l@), l@.len() as int)->Ok_0;
                juntar_tensores(&ss, &ds, eixo, Ghost(ts))
            },
        },
        _ => requerer("tensor_concatenar", "lista de tensores", &args[0]),
    }
}

// ---- Contas com vetores -------------------------------------------------------------------

/// Se um valor e um numero.
pub open spec fn eh_numero(v: valor::Dado) -> bool {
    v is Numero || v is Inteiro
}

/// O pedido de uma conta com um numero, ou a falha.
pub open spec fn com_numero(nome: Seq<char>, v: valor::Dado) -> nativas_arvore::ChamadoVisto {
    if eh_numero(v) {
        nativas_arvore::ChamadoVisto::Pedida
    } else {
        nativas_arvore::requer(nome, "numero"@, v)
    }
}

fn pedir_com_numero(nome: &str, v: &Valor) -> (r: Chamado)
    ensures
        r@ == com_numero(nome@, v@),
{
    match v {
        Valor::Numero(_) => Chamado::Pedida,
        Valor::Inteiro(_) => Chamado::Pedida,
        _ => requerer(nome, "numero", v),
    }
}

/// Os numeros de uma lista, ou o que acontece.
pub open spec fn vetor_de(nome: Seq<char>, v: valor::Dado) -> Result<Numeros, nativas_arvore::ChamadoVisto> {
    match v {
        valor::Dado::Lista(l) => numeros_de(nome, l, l.len() as int),
        _ => Err(nativas_arvore::requer(nome, "lista de numeros"@, v)),
    }
}

fn lista_f64(nome: &str, v: &Valor) -> (r: Result<usize, Chamado>)
    ensures
        match r {
            Ok(n) => vetor_de(nome@, v@) matches Ok(d) && d.len() == n,
            Err(c) => vetor_de(nome@, v@) == Err::<Numeros, nativas_arvore::ChamadoVisto>(c@),
        },
{
    match v {
        Valor::Lista(l) => match ler_numeros(nome, l) {
            Ok(d) => {
                assert(vm::numeros(d@).len() == d@.len());
                Ok(d.len())
            },
            Err(c) => Err(c),
        },
        _ => Err(requerer(nome, "lista de numeros", v)),
    }
}

/// Se uma funcao faz uma conta entre um vetor e outro ou um numero.
pub open spec fn de_vetores(nome: Seq<char>) -> bool {
    nome == "vec_soma"@ || nome == "vec_sub"@ || nome == "vec_mul"@ || nome == "vec_div"@
}

/// Se uma funcao faz uma conta entre dois vetores.
pub open spec fn de_dois_vetores(nome: Seq<char>) -> bool {
    nome == "produto_interno"@ || nome == "produto_vetorial"@
}

/// Uma conta entre dois vetores, ou um vetor e um numero: pedida, ou a falha.
pub open spec fn entre_vetores(nome: Seq<char>, a: valor::Dado, b: valor::Dado) -> nativas_arvore::ChamadoVisto {
    match vetor_de(nome, a) {
        Err(c) => c,
        Ok(x) => if b is Lista || de_dois_vetores(nome) {
            match vetor_de(nome, b) {
                Err(c) => c,
                Ok(y) => if nome == "produto_vetorial"@ {
                    if x.len() != 3 || y.len() != 3 {
                        nativas_arvore::falha("produto_vetorial: requer dois vetores 3D"@)
                    } else {
                        nativas_arvore::ChamadoVisto::Pedida
                    }
                } else if x.len() == y.len() {
                    nativas_arvore::ChamadoVisto::Pedida
                } else if nome == "produto_interno"@ {
                    nativas_arvore::falha("produto_interno: vetores de tamanhos diferentes"@)
                } else {
                    nativas_arvore::falha(
                        nome + ": vetores de tamanhos diferentes ("@ + texto::decimal(x.len()) + " vs "@ + texto::decimal(
                            y.len(),
                        ) + ")"@,
                    )
                },
            }
        } else {
            com_numero(nome, b)
        },
    }
}

fn pedir_entre_vetores(nome: &str, a: &Valor, b: &Valor) -> (r: Chamado)
    ensures
        r@ == entre_vetores(nome@, a@, b@),
{
    let n = match lista_f64(nome, a) {
        Ok(n) => n,
        Err(c) => return c,
    };
    let dois = match b {
        Valor::Lista(_) => true,
        _ => nome.eq("produto_interno") || nome.eq("produto_vetorial"),
    };
    if !dois {
        return pedir_com_numero(nome, b);
    }
    let m = match lista_f64(nome, b) {
        Ok(m) => m,
        Err(c) => return c,
    };
    if nome.eq("produto_vetorial") {
        if n != 3 || m != 3 {
            return falhar("produto_vetorial: requer dois vetores 3D");
        }
        return Chamado::Pedida;
    }
    if n == m {
        return Chamado::Pedida;
    }
    if nome.eq("produto_interno") {
        return falhar("produto_interno: vetores de tamanhos diferentes");
    }
    let mut t = frase(nome, ": vetores de tamanhos diferentes (", texto::natural(n as u64).as_str());
    t.append(" vs ");
    t.append(texto::natural(m as u64).as_str());
    t.append(")");
    falhar(t.as_str())
}

// ---- Tudo junto --------------------------------------------------------------------------

/// As funcoes de um argumento.
pub open spec fn de_um(nome: Seq<char>) -> bool {
    nome == "mat_de"@ || nome == "mat_identidade"@ || nome == "mat_transpor"@ || nome == "tensor_transpor"@ || nome
        == "mat_para_lista"@ || nome == "tensor_para_lista"@ || nome == "norma"@ || nome == "normalizar"@
}

/// O que uma funcao de um argumento da.
pub open spec fn com_um(nome: Seq<char>, v: valor::Dado) -> nativas_arvore::ChamadoVisto {
    if nome == "mat_de"@ {
        matriz_de(v)
    } else if nome == "mat_identidade"@ {
        matriz_identidade(v)
    } else if nome == "mat_transpor"@ || nome == "tensor_transpor"@ {
        transposto(nome, v)
    } else if nome == "mat_para_lista"@ || nome == "tensor_para_lista"@ {
        em_listas(nome, v)
    } else {
        match vetor_de(nome, v) {
            Err(c) => c,
            Ok(_) => nativas_arvore::ChamadoVisto::Pedida,
        }
    }
}

/// O que uma funcao de matrizes ou tensores da; nada se nao e uma destas.
pub open spec fn de_tensores(nome: Seq<char>, a: Seq<valor::Dado>) -> Option<nativas_arvore::ChamadoVisto> {
    if de_um(nome) {
        Some(
            if a.len() != 1 {
                nativas_arvore::quer(nome, 1, a.len())
            } else {
                com_um(nome, a[0])
            },
        )
    } else if nome == "matriz"@ {
        Some(matriz(a))
    } else if nome == "tensor"@ || nome == "tensor_zeros"@ || nome == "tensor_uns"@ {
        Some(
            match dimensoes_dos_args(nome, a) {
                Err(c) => c,
                Ok(s) => cheio(
                    s,
                    if nome == "tensor_uns"@ {
                        um()
                    } else {
                        zero()
                    },
                ),
            },
        )
    } else if nome == "tensor_de"@ {
        Some(tensor_da_lista(a))
    } else if nome == "tensor_reshape"@ {
        Some(redimensionado(a))
    } else if nome == "mat_obter"@ {
        Some(obtido(a))
    } else if nome == "mat_definir"@ {
        Some(definido(a))
    } else if nome == "tensor_concatenar"@ {
        Some(concatenado(a))
    } else if de_vetores(nome) || de_dois_vetores(nome) {
        Some(
            if a.len() != 2 {
                nativas_arvore::quer(nome, 2, a.len())
            } else {
                entre_vetores(nome, a[0], a[1])
            },
        )
    } else {
        nativas_contas::de_contas(nome, a)
    }
}

fn fazer_com_um(nome: &str, v: &Valor) -> (r: Chamado)
    ensures
        r@ == com_um(nome@, v@),
{
    if nome.eq("mat_de") {
        fazer_matriz_de(v)
    } else if nome.eq("mat_identidade") {
        fazer_identidade(v)
    } else if nome.eq("mat_transpor") || nome.eq("tensor_transpor") {
        transpor(nome, v)
    } else if nome.eq("mat_para_lista") || nome.eq("tensor_para_lista") {
        por_em_listas(nome, v)
    } else {
        match lista_f64(nome, v) {
            Err(c) => c,
            Ok(_) => Chamado::Pedida,
        }
    }
}

/// Faz o que uma funcao de matrizes ou tensores pede.
pub fn com_tensores(nome: &str, args: &Vec<Valor>) -> (r: Option<Chamado>)
    ensures
        nativas_arvore::talvez(r) == de_tensores(nome@, valor::vistos(args@)),
{
    let ghost a = valor::vistos(args@);
    assert(a.len() == args@.len());
    let k = args.len();
    assert(k > 0 ==> a[0] == args@[0]@);
    assert(k > 1 ==> a[1] == args@[1]@);
    if nome.eq("mat_de") || nome.eq("mat_identidade") || nome.eq("mat_transpor") || nome.eq("tensor_transpor")
        || nome.eq("mat_para_lista") || nome.eq("tensor_para_lista") || nome.eq("norma") || nome.eq("normalizar") {
        if k != 1 {
            return Some(querer(nome, 1, k));
        }
        return Some(fazer_com_um(nome, &args[0]));
    }
    if nome.eq("matriz") {
        return Some(fazer_matriz(args));
    }
    if nome.eq("tensor") || nome.eq("tensor_zeros") || nome.eq("tensor_uns") {
        return Some(
            match shape_de_args(nome, args) {
                Err(c) => c,
                Ok(s) => {
                    let x = if nome.eq("tensor_uns") {
                        dizer_um()
                    } else {
                        dizer_zero()
                    };
                    encher(s, &x)
                },
            },
        );
    }
    if nome.eq("tensor_de") {
        return Some(fazer_da_lista(args));
    }
    if nome.eq("tensor_reshape") {
        return Some(redimensionar(args));
    }
    if nome.eq("mat_obter") {
        return Some(obter_celula(args));
    }
    if nome.eq("mat_definir") {
        return Some(definir_celula(args));
    }
    if nome.eq("tensor_concatenar") {
        return Some(tensor_concat(args));
    }
    if nome.eq("vec_soma") || nome.eq("vec_sub") || nome.eq("vec_mul") || nome.eq("vec_div") || nome.eq(
        "produto_interno",
    ) || nome.eq("produto_vetorial") {
        if k != 2 {
            return Some(querer(nome, 2, k));
        }
        return Some(pedir_entre_vetores(nome, &args[0], &args[1]));
    }
    nativas_contas::com_contas(nome, args)
}

} // verus!
