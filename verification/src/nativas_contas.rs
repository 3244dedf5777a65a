//! As funcoes nativas que fazem contas com tensores: o que entra em cada conta, e as dimensoes do
//! que dela sai. So as contas com os numeros sao pedidas.

use vstd::prelude::*;
use crate::aplicar::Feito;
use crate::decimal::Decimal;
use crate::decimal;
use crate::nativas_arvore::{falhar, querer, requerer, Chamado};
use crate::nativas_arvore;
use crate::nativas_dados::to_usize;
use crate::nativas_dados;
use crate::nativas_matriz;
use crate::tensor::{contar_dois, contar_um, dizer_dimensoes, dois_tamanhos, Feitio, OpTensor, PedidoTensor};
use crate::tensor;
use crate::texto;
use crate::valor::Valor;
use crate::valor;
use crate::vm::{copiar_numeros, copiar_shape, frase, mesmas_dimensoes};
use crate::vm;

verus! {

/// Numeros com ponto, vistos.
pub type Numeros = Seq<(u64, Seq<char>)>;

// ---- De um tensor -----------------------------------------------------------------------

/// A conta que uma funcao faz com os numeros de um tensor, e o que dela sai.
pub open spec fn conta_do_tensor(nome: Seq<char>) -> Option<(OpTensor, Feitio)> {
    if nome == "tensor_neg"@ {
        Some((OpTensor::Neg, Feitio::Tensor))
    } else if nome == "tensor_exp"@ {
        Some((OpTensor::Exp, Feitio::Tensor))
    } else if nome == "tensor_log"@ {
        Some((OpTensor::Log, Feitio::Tensor))
    } else if nome == "tensor_raiz"@ {
        Some((OpTensor::Sqrt, Feitio::Tensor))
    } else if nome == "tensor_relu"@ {
        Some((OpTensor::ReLU, Feitio::Tensor))
    } else if nome == "tensor_sigmoid"@ {
        Some((OpTensor::Sigmoid, Feitio::Tensor))
    } else if nome == "tensor_tanh"@ {
        Some((OpTensor::Tanh, Feitio::Tensor))
    } else if nome == "tensor_softmax"@ {
        Some((OpTensor::Softmax, Feitio::Tensor))
    } else if nome == "tensor_soma_total"@ {
        Some((OpTensor::SomaTotal, Feitio::Numero))
    } else if nome == "tensor_media"@ {
        Some((OpTensor::MediaTotal, Feitio::Numero))
    } else if nome == "tensor_max"@ {
        Some((OpTensor::MaxTotal, Feitio::Numero))
    } else if nome == "tensor_min"@ {
        Some((OpTensor::MinTotal, Feitio::Numero))
    } else {
        None
    }
}

fn achar_conta_do_tensor(nome: &str) -> (r: Option<(OpTensor, Feitio)>)
    ensures
        r == conta_do_tensor(nome@),
{
    if nome.eq("tensor_neg") {
        Some((OpTensor::Neg, Feitio::Tensor))
    } else if nome.eq("tensor_exp") {
        Some((OpTensor::Exp, Feitio::Tensor))
    } else if nome.eq("tensor_log") {
        Some((OpTensor::Log, Feitio::Tensor))
    } else if nome.eq("tensor_raiz") {
        Some((OpTensor::Sqrt, Feitio::Tensor))
    } else if nome.eq("tensor_relu") {
        Some((OpTensor::ReLU, Feitio::Tensor))
    } else if nome.eq("tensor_sigmoid") {
        Some((OpTensor::Sigmoid, Feitio::Tensor))
    } else if nome.eq("tensor_tanh") {
        Some((OpTensor::Tanh, Feitio::Tensor))
    } else if nome.eq("tensor_softmax") {
        Some((OpTensor::Softmax, Feitio::Tensor))
    } else if nome.eq("tensor_soma_total") {
        Some((OpTensor::SomaTotal, Feitio::Numero))
    } else if nome.eq("tensor_media") {
        Some((OpTensor::MediaTotal, Feitio::Numero))
    } else if nome.eq("tensor_max") {
        Some((OpTensor::MaxTotal, Feitio::Numero))
    } else if nome.eq("tensor_min") {
        Some((OpTensor::MinTotal, Feitio::Numero))
    } else {
        None
    }
}

/// A conta com todos os numeros de um tensor, ou a falha.
pub open spec fn de_um_tensor(
    nome: Seq<char>,
    op: OpTensor,
    feitio: Feitio,
    v: valor::Dado,
) -> nativas_arvore::ChamadoVisto {
    match v {
        valor::Dado::Tensor { shape, dados } => if nome == "tensor_media"@ && dados.len() == 0 {
            nativas_arvore::falha("tensor_media: tensor vazio"@)
        } else {
            nativas_arvore::ChamadoVisto::Conta(tensor::conta_de_um(op, feitio, shape, dados))
        },
        _ => nativas_arvore::requer(nome, "tensor"@, v),
    }
}

fn contar_tensor(nome: &str, op: OpTensor, feitio: Feitio, v: &Valor) -> (r: Chamado)
    ensures
        r@ == de_um_tensor(nome@, op, feitio, v@),
{
    match v {
        Valor::Tensor { shape, dados } => {
            assert(vm::numeros(dados@).len() == dados@.len());
            if nome.eq("tensor_media") && dados.len() == 0 {
                falhar("tensor_media: tensor vazio")
            } else {
                Chamado::Conta(contar_um(op, feitio, copiar_shape(shape), copiar_numeros(dados)))
            }
        },
        _ => requerer(nome, "tensor", v),
    }
}

// ---- De dois ----------------------------------------------------------------------------

/// O numero com ponto de um valor, se e um numero.
pub open spec fn escalar_de(v: valor::Dado) -> Option<(u64, Seq<char>)> {
    match v {
        valor::Dado::Numero(b, t) => Some((b, t)),
        valor::Dado::Inteiro(n) => Some((decimal::bits_de(n as int) as u64, texto::decimal_int(n as int))),
        _ => None,
    }
}

fn ler_escalar(v: &Valor) -> (r: Option<Vec<Decimal>>)
    ensures
        match r {
            Some(d) => escalar_de(v@) is Some && vm::numeros(d@) == seq![escalar_de(v@)->0],
            None => escalar_de(v@) is None,
        },
{
    let d = match v {
        Valor::Numero(d) => d.clone(),
        Valor::Inteiro(n) => Decimal { bits: decimal::de_inteiro(*n), texto: texto::inteiro(*n) },
        _ => return None,
    };
    let mut r: Vec<Decimal> = Vec::new();
    let ghost x = (d.bits, d.texto@);
    r.push(d);
    assert(vm::numeros(r@) =~= seq![x]);
    Some(r)
}

/// Se uma funcao soma ou subtrai duas matrizes.
pub open spec fn de_matrizes(nome: Seq<char>) -> bool {
    nome == "mat_soma"@ || nome == "mat_sub"@
}

/// Se uma funcao multiplica duas matrizes.
pub open spec fn de_produto(nome: Seq<char>) -> bool {
    nome == "mat_mul"@ || nome == "tensor_matmul"@
}

/// Se uma funcao faz uma conta elemento a elemento.
pub open spec fn de_elementos(nome: Seq<char>) -> bool {
    nome == "tensor_soma"@ || nome == "tensor_sub"@ || nome == "tensor_mul"@ || nome == "tensor_div"@
}

/// A conta que uma funcao faz com cada numero.
pub open spec fn conta_do_nome(nome: Seq<char>) -> OpTensor {
    if nome == "mat_soma"@ || nome == "tensor_soma"@ {
        OpTensor::Soma
    } else if nome == "mat_sub"@ || nome == "tensor_sub"@ {
        OpTensor::Sub
    } else if nome == "tensor_div"@ {
        OpTensor::Div
    } else {
        OpTensor::Mul
    }
}

fn achar_conta(nome: &str) -> (r: OpTensor)
    ensures
        r == conta_do_nome(nome@),
{
    if nome.eq("mat_soma") || nome.eq("tensor_soma") {
        OpTensor::Soma
    } else if nome.eq("mat_sub") || nome.eq("tensor_sub") {
        OpTensor::Sub
    } else if nome.eq("tensor_div") {
        OpTensor::Div
    } else {
        OpTensor::Mul
    }
}

/// Uma conta de cada numero de um tensor com o mesmo numero, ou a falha.
pub open spec fn com_escalar(
    nome: Seq<char>,
    op: OpTensor,
    shape: Seq<usize>,
    dados: Numeros,
    v: valor::Dado,
) -> nativas_arvore::ChamadoVisto {
    match escalar_de(v) {
        Some(x) => nativas_arvore::ChamadoVisto::Conta(tensor::conta_de_dois(op, shape, 0, true, dados, seq![x])),
        None => nativas_arvore::requer(nome, "numero"@, v),
    }
}

fn contar_com_escalar(nome: &str, op: OpTensor, shape: &Vec<usize>, dados: &Vec<Decimal>, v: &Valor) -> (r: Chamado)
    ensures
        r@ == com_escalar(nome@, op, shape@, vm::numeros(dados@), v@),
{
    match ler_escalar(v) {
        Some(x) => Chamado::Conta(contar_dois(op, copiar_shape(shape), 0, true, copiar_numeros(dados), x)),
        None => requerer(nome, "numero", v),
    }
}

/// Uma conta elemento a elemento entre tensores das mesmas dimensoes, ou a falha.
pub open spec fn mesma_forma(
    nome: Seq<char>,
    sa: Seq<usize>,
    da: Numeros,
    sb: Seq<usize>,
    db: Numeros,
) -> nativas_arvore::ChamadoVisto {
    if sa != sb {
        nativas_arvore::falha(
            nome + ": shapes incompativeis "@ + tensor::dimensoes(sa) + " vs "@ + tensor::dimensoes(sb),
        )
    } else {
        nativas_arvore::ChamadoVisto::Conta(tensor::conta_de_dois(conta_do_nome(nome), sa, 0, false, da, db))
    }
}

fn contar_mesma_forma(nome: &str, sa: &Vec<usize>, da: &Vec<Decimal>, sb: &Vec<usize>, db: &Vec<Decimal>) -> (r: Chamado)
    ensures
        r@ == mesma_forma(nome@, sa@, vm::numeros(da@), sb@, vm::numeros(db@)),
{
    if mesmas_dimensoes(sa, sb) {
        Chamado::Conta(
            contar_dois(achar_conta(nome), copiar_shape(sa), 0, false, copiar_numeros(da), copiar_numeros(db)),
        )
    } else {
        let mut m = frase(nome, ": shapes incompativeis ", dizer_dimensoes(sa).as_str());
        m.append(" vs ");
        m.append(dizer_dimensoes(sb).as_str());
        falhar(m.as_str())
    }
}

/// O produto de duas matrizes, ou a falha.
pub open spec fn encaixam(
    nome: Seq<char>,
    sa: Seq<usize>,
    da: Numeros,
    sb: Seq<usize>,
    db: Numeros,
) -> nativas_arvore::ChamadoVisto {
    if sa.len() != 2 || sb.len() != 2 {
        nativas_arvore::falha(
            nome + ": requer tensores 2D ("@ + texto::decimal(sa.len()) + "D x "@ + texto::decimal(sb.len()) + "D)"@,
        )
    } else if sa[1] != sb[0] {
        nativas_arvore::falha(
            nome + ": colunas A ("@ + texto::decimal(sa[1] as nat) + ") != linhas B ("@ + texto::decimal(sb[0] as nat)
                + ")"@,
        )
    } else {
        nativas_arvore::ChamadoVisto::Conta(
            tensor::conta_de_dois(OpTensor::MatMul, seq![sa[0], sb[1]], sa[1] as int, false, da, db),
        )
    }
}

fn contar_produto(nome: &str, sa: &Vec<usize>, da: &Vec<Decimal>, sb: &Vec<usize>, db: &Vec<Decimal>) -> (r: Chamado)
    ensures
        r@ == encaixam(nome@, sa@, vm::numeros(da@), sb@, vm::numeros(db@)),
{
    if sa.len() != 2 || sb.len() != 2 {
        let mut m = frase(nome, ": requer tensores 2D (", texto::natural(sa.len() as u64).as_str());
        m.append("D x ");
        m.append(texto::natural(sb.len() as u64).as_str());
        m.append("D)");
        return falhar(m.as_str());
    }
    if sa[1] != sb[0] {
        let mut m = frase(nome, ": colunas A (", texto::natural(sa[1] as u64).as_str());
        m.append(") != linhas B (");
        m.append(texto::natural(sb[0] as u64).as_str());
        m.append(")");
        return falhar(m.as_str());
    }
    Chamado::Conta(
        contar_dois(
            OpTensor::MatMul,
            dois_tamanhos(sa[0], sb[1]),
            sa[1],
            false,
            copiar_numeros(da),
            copiar_numeros(db),
        ),
    )
}

/// Uma conta entre dois tensores, ou entre um tensor e um numero, ou a falha.
pub open spec fn entre_tensores(nome: Seq<char>, a: valor::Dado, b: valor::Dado) -> nativas_arvore::ChamadoVisto {
    match (a, b) {
        (valor::Dado::Tensor { shape: sa, dados: da }, valor::Dado::Tensor { shape: sb, dados: db }) => if de_produto(
            nome,
        ) {
            encaixam(nome, sa, da, sb, db)
        } else {
            mesma_forma(nome, sa, da, sb, db)
        },
        (valor::Dado::Tensor { shape, dados }, _) => if de_matrizes(nome) {
            nativas_arvore::requer(nome, "dois tensores"@, a)
        } else {
            com_escalar(nome, conta_do_nome(nome), shape, dados, b)
        },
        _ => nativas_arvore::requer(
            nome,
            if de_matrizes(nome) {
                "dois tensores"@
            } else {
                "tensor"@
            },
            a,
        ),
    }
}

fn contar_entre_tensores(nome: &str, a: &Valor, b: &Valor) -> (r: Chamado)
    ensures
        r@ == entre_tensores(nome@, a@, b@),
{
    let matrizes = nome.eq("mat_soma") || nome.eq("mat_sub");
    match (a, b) {
        (Valor::Tensor { shape: sa, dados: da }, Valor::Tensor { shape: sb, dados: db }) => if nome.eq("mat_mul")
            || nome.eq("tensor_matmul") {
            contar_produto(nome, sa, da, sb, db)
        } else {
            contar_mesma_forma(nome, sa, da, sb, db)
        },
        (Valor::Tensor { shape, dados }, _) => if matrizes {
            requerer(nome, "dois tensores", a)
        } else {
            contar_com_escalar(nome, achar_conta(nome), shape, dados, b)
        },
        _ => if matrizes {
            requerer(nome, "dois tensores", a)
        } else {
            requerer(nome, "tensor", a)
        },
    }
}

/// `tensor_potencia`.
pub open spec fn potencia(a: valor::Dado, b: valor::Dado) -> nativas_arvore::ChamadoVisto {
    if escalar_de(b) is None {
        nativas_arvore::requer("tensor_potencia"@, "numero"@, b)
    } else {
        match a {
            valor::Dado::Tensor { shape, dados } => com_escalar("tensor_potencia"@, OpTensor::Pow, shape, dados, b),
            _ => nativas_arvore::requer("tensor_potencia"@, "tensor"@, a),
        }
    }
}

fn contar_potencia(a: &Valor, b: &Valor) -> (r: Chamado)
    ensures
        r@ == potencia(a@, b@),
{
    if ler_escalar(b).is_none() {
        return requerer("tensor_potencia", "numero", b);
    }
    match a {
        Valor::Tensor { shape, dados } => contar_com_escalar("tensor_potencia", OpTensor::Pow, shape, dados, b),
        _ => requerer("tensor_potencia", "tensor", a),
    }
}

// ---- Ao longo de um eixo ----------------------------------------------------------------

/// Onde esta, numa matriz de `ncol` colunas, o numero `k` do grupo `o`: ao longo do eixo 0 um grupo
/// e uma coluna, e ao longo do outro e uma linha.
pub open spec fn posicao(ncol: int, eixo: int, o: int, k: int) -> int {
    if eixo == 0 {
        k * ncol + o
    } else {
        o * ncol + k
    }
}

/// Os `n` numeros do grupo `o`.
pub open spec fn grupo<T>(d: Seq<T>, ncol: int, eixo: int, n: nat, o: int) -> Seq<T> {
    Seq::new(n, |k: int| d[posicao(ncol, eixo, o, k)])
}

/// Os grupos de uma matriz que se juntam ao reduzir um eixo.
pub open spec fn grupos<T>(d: Seq<T>, ncol: int, eixo: int, n: nat, quantos: nat) -> Seq<Seq<T>> {
    Seq::new(quantos, |o: int| grupo(d, ncol, eixo, n, o))
}

/// As funcoes que reduzem um eixo: cada numero do resultado e a soma, ou a media, do seu grupo.
pub open spec fn no_eixo(nome: Seq<char>, a: Seq<valor::Dado>) -> nativas_arvore::ChamadoVisto {
    if a.len() < 2 {
        nativas_arvore::falha("'"@ + nome + "' requer tensor, eixo"@)
    } else {
        match a[0] {
            valor::Dado::Tensor { shape, dados } => match nativas_dados::indice_de(a[1]) {
                None => nativas_dados::sem_indice(nome, a[1]),
                Some(e) => if e >= shape.len() {
                    nativas_arvore::falha(
                        "eixo "@ + texto::decimal(e as nat) + " invalido para tensor "@ + texto::decimal(shape.len()) + "D"@,
                    )
                } else if shape.len() != 2 {
                    nativas_arvore::falha("reducao_eixo: apenas tensores 2D suportados por ora"@)
                } else if shape[0] * shape[1] > dados.len() || shape[1 - e] * 8 > isize::MAX {
                    nativas_matriz::panico()
                } else {
                    nativas_arvore::ChamadoVisto::Conta(
                        tensor::PedidoTensorVisto {
                            op: if nome == "tensor_soma_eixo"@ {
                                OpTensor::SomaEixo
                            } else {
                                OpTensor::MediaEixo
                            },
                            feitio: Feitio::Tensor,
                            shape: seq![shape[1 - e]],
                            interno: shape[e] as int,
                            escalar: false,
                            entradas: grupos(dados, shape[1] as int, e, shape[e] as nat, shape[1 - e] as nat),
                        },
                    )
                },
            },
            v => nativas_arvore::requer(nome, "tensor"@, v),
        }
    }
}

/// Cada numero de um grupo esta na matriz.
proof fn lema_posicao(ncol: int, nlin: int, eixo: int, o: int, k: int)
    requires
        eixo == 0 ==> 0 <= k < nlin && 0 <= o < ncol,
        eixo != 0 ==> 0 <= o < nlin && 0 <= k < ncol,
    ensures
        0 <= posicao(ncol, eixo, o, k) < nlin * ncol,
        eixo == 0 ==> 0 <= k * ncol <= posicao(ncol, eixo, o, k),
        eixo != 0 ==> 0 <= o * ncol <= posicao(ncol, eixo, o, k),
{
    if eixo == 0 {
        tensor::lema_celula(k, o, nlin, ncol);
        assert(0 <= k * ncol) by (nonlinear_arith)
            requires
                0 <= k,
                0 <= ncol,
        ;
    } else {
        tensor::lema_celula(o, k, nlin, ncol);
        assert(0 <= o * ncol) by (nonlinear_arith)
            requires
                0 <= o,
                0 <= ncol,
        ;
    }
}

fn separar_grupo(d: &Vec<Decimal>, nlin: usize, ncol: usize, eixo: usize, n: usize, o: usize) -> (r: Vec<Decimal>)
    requires
        nlin * ncol <= d@.len(),
        eixo == 0 ==> n == nlin && o < ncol,
        eixo != 0 ==> n == ncol && o < nlin,
    ensures
        vm::numeros(r@) == grupo(vm::numeros(d@), ncol as int, eixo as int, n as nat, o as int),
{
    let ghost dv = vm::numeros(d@);
    let total: usize = d.len();
    let mut r: Vec<Decimal> = Vec::new();
    let mut k: usize = 0;
    while k < n
        invariant
            k <= n,
            total == d@.len(),
            dv == vm::numeros(d@),
            nlin * ncol <= d@.len(),
            eixo == 0 ==> n == nlin && o < ncol,
            eixo != 0 ==> n == ncol && o < nlin,
            vm::numeros(r@) =~= grupo(dv, ncol as int, eixo as int, k as nat, o as int),
        decreases n - k,
    {
        proof {
            lema_posicao(ncol as int, nlin as int, eixo as int, o as int, k as int);
        }
        let i: usize = if eixo == 0 {
            k * ncol + o
        } else {
            o * ncol + k
        };
        let ghost antes = vm::numeros(r@);
        r.push(d[i].clone());
        assert(dv[i as int] == (d@[i as int].bits, d@[i as int].texto@));
        assert(vm::numeros(r@) =~= antes.push(dv[i as int]));
        k += 1;
    }
    r
}

fn separar_grupos(d: &Vec<Decimal>, nlin: usize, ncol: usize, eixo: usize) -> (r: Vec<Vec<Decimal>>)
    requires
        nlin * ncol <= d@.len(),
    ensures
        tensor::grupos_vistos(r@) == grupos(
            vm::numeros(d@),
            ncol as int,
            eixo as int,
            if eixo == 0 {
                nlin as nat
            } else {
                ncol as nat
            },
            if eixo == 0 {
                ncol as nat
            } else {
                nlin as nat
            },
        ),
{
    let (n, quantos): (usize, usize) = if eixo == 0 {
        (nlin, ncol)
    } else {
        (ncol, nlin)
    };
    let ghost dv = vm::numeros(d@);
    let mut r: Vec<Vec<Decimal>> = Vec::new();
    let mut o: usize = 0;
    while o < quantos
        invariant
            o <= quantos,
            dv == vm::numeros(d@),
            nlin * ncol <= d@.len(),
            eixo == 0 ==> n == nlin && quantos == ncol,
            eixo != 0 ==> n == ncol && quantos == nlin,
            tensor::grupos_vistos(r@) =~= grupos(dv, ncol as int, eixo as int, n as nat, o as nat),
        decreases quantos - o,
    {
        let ghost antes = tensor::grupos_vistos(r@);
        let g = separar_grupo(d, nlin, ncol, eixo, n, o);
        let ghost gv = vm::numeros(g@);
        r.push(g);
        assert(tensor::grupos_vistos(r@) =~= antes.push(gv));
        o += 1;
    }
    r
}

fn tensor_reducao_eixo(nome: &str, args: &Vec<Valor>) -> (r: Chamado)
    ensures
        r@ == no_eixo(nome@, valor::vistos(args@)),
{
    let ghost a = valor::vistos(args@);
    assert(a.len() == args@.len());
    if args.len() < 2 {
        return falhar(frase("'", nome, "' requer tensor, eixo").as_str());
    }
    assert(a[0] == args@[0]@ && a[1] == args@[1]@);
    let (shape, dados) = match &args[0] {
        Valor::Tensor { shape, dados } => (shape, dados),
        _ => return requerer(nome, "tensor", &args[0]),
    };
    let e = match to_usize(&args[1]) {
        None => return requerer(nome, "inteiro nao-negativo", &args[1]),
        Some(e) => e,
    };
    if e >= shape.len() {
        let mut m = frase("eixo ", texto::natural(e as u64).as_str(), " invalido para tensor ");
        m.append(texto::natural(shape.len() as u64).as_str());
        m.append("D");
        return falhar(m.as_str());
    }
    if shape.len() != 2 {
        return falhar("reducao_eixo: apenas tensores 2D suportados por ora");
    }
    let (nlin, ncol) = (shape[0], shape[1]);
    assert(vm::numeros(dados@).len() == dados@.len());
    proof {
        assert((nlin as u128) * (ncol as u128) <= u64::MAX as u128 * u64::MAX as u128) by (nonlinear_arith)
            requires
                nlin <= u64::MAX,
                ncol <= u64::MAX,
        ;
        assert(u64::MAX as u128 * u64::MAX as u128 <= u128::MAX) by (nonlinear_arith);
        assert((nlin as u128) * (ncol as u128) == nlin * ncol);
    }
    let saem = shape[1 - e];
    if (nlin as u128) * (ncol as u128) > dados.len() as u128 || (saem as u128) * 8 > isize::MAX as u128 {
        return Chamado::Feito(Feito::Panico);
    }
    let entradas = separar_grupos(dados, nlin, ncol, e);
    let mut nova: Vec<usize> = Vec::new();
    nova.push(saem);
    assert(nova@ =~= seq![saem]);
    let op = if nome.eq("tensor_soma_eixo") {
        OpTensor::SomaEixo
    } else {
        OpTensor::MediaEixo
    };
    Chamado::Conta(
        PedidoTensor { op, feitio: Feitio::Tensor, shape: nova, interno: shape[e], escalar: false, entradas },
    )
}

// ---- Todas ------------------------------------------------------------------------------

/// Se uma funcao faz uma conta com dois argumentos.
pub open spec fn de_dois(nome: Seq<char>) -> bool {
    de_matrizes(nome) || de_produto(nome) || de_elementos(nome) || nome == "tensor_potencia"@
}

/// O que uma funcao que faz contas com tensores da; nada se nao e uma destas.
pub open spec fn de_contas(nome: Seq<char>, a: Seq<valor::Dado>) -> Option<nativas_arvore::ChamadoVisto> {
    match conta_do_tensor(nome) {
        Some((op, feitio)) => Some(
            if a.len() != 1 {
                nativas_arvore::quer(nome, 1, a.len())
            } else {
                de_um_tensor(nome, op, feitio, a[0])
            },
        ),
        None => if nome == "tensor_soma_eixo"@ || nome == "tensor_media_eixo"@ {
            Some(no_eixo(nome, a))
        } else if de_dois(nome) {
            Some(
                if a.len() != 2 {
                    nativas_arvore::quer(nome, 2, a.len())
                } else if nome == "tensor_potencia"@ {
                    potencia(a[0], a[1])
                } else {
                    entre_tensores(nome, a[0], a[1])
                },
            )
        } else {
            None
        },
    }
}

/// Faz o que uma funcao de contas com tensores pede.
pub fn com_contas(nome: &str, args: &Vec<Valor>) -> (r: Option<Chamado>)
    ensures
        nativas_arvore::talvez(r) == de_contas(nome@, valor::vistos(args@)),
{
    let ghost a = valor::vistos(args@);
    assert(a.len() == args@.len());
    let k = args.len();
    assert(k > 0 ==> a[0] == args@[0]@);
    assert(k > 1 ==> a[1] == args@[1]@);
    if let Some((op, feitio)) = achar_conta_do_tensor(nome) {
        if k != 1 {
            return Some(querer(nome, 1, k));
        }
        return Some(contar_tensor(nome, op, feitio, &args[0]));
    }
    if nome.eq("tensor_soma_eixo") || nome.eq("tensor_media_eixo") {
        return Some(tensor_reducao_eixo(nome, args));
    }
    if nome.eq("mat_soma") || nome.eq("mat_sub") || nome.eq("mat_mul") || nome.eq("tensor_matmul") || nome.eq(
        "tensor_soma",
    ) || nome.eq("tensor_sub") || nome.eq("tensor_mul") || nome.eq("tensor_div") || nome.eq("tensor_potencia") {
        if k != 2 {
            return Some(querer(nome, 2, k));
        }
        if nome.eq("tensor_potencia") {
            return Some(contar_potencia(&args[0], &args[1]));
        }
        return Some(contar_entre_tensores(nome, &args[0], &args[1]));
    }
    None
}

} // verus!
