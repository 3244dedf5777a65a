//! Leis das contas com tensores: que numeros se juntam em cada conta, e em que lugar ficam.

use vstd::prelude::*;
use crate::bytecode::Comando;
use crate::operacoes;
use crate::tensor;
use crate::tensor::{Feitio, OpTensor};
use crate::vm;

verus! {

/// Um tensor com estas dimensoes e estes numeros.
pub open spec fn tensor_de(shape: Seq<usize>, dados: Seq<(u64, Seq<char>)>) -> vm::Visto {
    vm::Visto::Tensor { shape, dados, marca: 0 }
}

/// O pedido de uma conta entre os numeros de dois tensores, o primeiro e o segundo.
pub open spec fn conta(
    op: OpTensor,
    shape: Seq<usize>,
    interno: int,
    a: Seq<(u64, Seq<char>)>,
    b: Seq<(u64, Seq<char>)>,
) -> operacoes::SaidaVista {
    operacoes::SaidaVista::Pede(
        operacoes::PedidoVisto::Tensor(
            tensor::PedidoTensorVisto {
                op,
                feitio: Feitio::Tensor,
                shape,
                interno,
                escalar: false,
                entradas: seq![a, b],
            },
        ),
    )
}

/// As contas elemento a elemento entre tensores das mesmas dimensoes pedem-se com os numeros do de baixo
/// primeiro e os do topo depois, e dao um tensor das mesmas dimensoes; com dimensoes diferentes, falham.
pub proof fn lei_elemento_a_elemento(
    s: Seq<usize>,
    a: Seq<(u64, Seq<char>)>,
    t: Seq<usize>,
    b: Seq<(u64, Seq<char>)>,
)
    ensures
        operacoes::binaria(Comando::TensorAdd, tensor_de(s, a), tensor_de(s, b)) == conta(OpTensor::Soma, s, 0, a, b),
        operacoes::binaria(Comando::TensorSub, tensor_de(s, a), tensor_de(s, b)) == conta(OpTensor::Sub, s, 0, a, b),
        operacoes::binaria(Comando::TensorMulElem, tensor_de(s, a), tensor_de(s, b)) == conta(OpTensor::Mul, s, 0, a, b),
        operacoes::binaria(Comando::TensorDivElem, tensor_de(s, a), tensor_de(s, b)) == conta(OpTensor::Div, s, 0, a, b),
        s != t ==> operacoes::binaria(Comando::TensorAdd, tensor_de(s, a), tensor_de(t, b)) is Falha,
        s != t ==> operacoes::binaria(Comando::TensorSub, tensor_de(s, a), tensor_de(t, b)) is Falha,
{
}

/// O produto de uma matriz de `n` por `k` e uma de `k` por `m` e uma de `n` por `m`, com somas de `k`
/// parcelas; se as dimensoes do meio nao sao iguais, falha.
pub proof fn lei_matmul(
    n: usize,
    k: usize,
    l: usize,
    m: usize,
    a: Seq<(u64, Seq<char>)>,
    b: Seq<(u64, Seq<char>)>,
)
    ensures
        operacoes::binaria(Comando::TensorMatMul, tensor_de(seq![n, k], a), tensor_de(seq![k, m], b)) == conta(
            OpTensor::MatMul,
            seq![n, m],
            k as int,
            a,
            b,
        ),
        k != l ==> operacoes::binaria(Comando::TensorMatMul, tensor_de(seq![n, k], a), tensor_de(seq![l, m], b)) is Falha,
{
}

// ---- Reducoes por um eixo ---------------------------------------------------------------

proof fn lema_linhas<T>(d: Seq<T>, n: int, m: int, k: int)
    requires
        n >= 0,
        m >= 1,
        d.len() == n * m,
        0 <= k <= d.len(),
    ensures
        tensor::agrupados(d, 1, m, n, k) is Some,
        ({
            let g = tensor::agrupados(d, 1, m, n, k)->Some_0;
            &&& g.len() == n
            &&& forall|o: int|
                0 <= o < n ==> (#[trigger] g[o]).len() == (if k >= (o + 1) * m {
                    m
                } else if k <= o * m {
                    0
                } else {
                    k - o * m
                })
            &&& forall|o: int, j: int| 0 <= o < n && 0 <= j < g[o].len() ==> #[trigger] g[o][j] == d[o * m + j]
        }),
    decreases k,
{
    if k == 0 {
        assert forall|o: int| 0 <= o < n implies 0 <= #[trigger] (o * m) by {
            assert(0 <= o * m) by (nonlinear_arith)
                requires
                    0 <= o,
                    m >= 1,
            ;
        }
        assert forall|o: int| 0 <= o < n implies 0 < #[trigger] ((o + 1) * m) by {
            assert(0 < (o + 1) * m) by (nonlinear_arith)
                requires
                    0 <= o,
                    m >= 1,
            ;
        }
    } else {
        lema_linhas(d, n, m, k - 1);
        let h = tensor::agrupados(d, 1, m, n, k - 1)->Some_0;
        let p = k - 1;
        let o = tensor::grupo_de(p, 1, m);
        vstd::arithmetic::div_mod::lemma_fundamental_div_mod(p, m);
        assert(1 * m == m);
        assert(o == p / m);
        let r = p % m;
        assert(p == o * m + r) by (nonlinear_arith)
            requires
                p == m * (p / m) + p % m,
                o == p / m,
                r == p % m,
        ;
        assert(0 <= r < m);
        assert(0 <= o < n) by (nonlinear_arith)
            requires
                p == o * m + r,
                0 <= r < m,
                0 <= p < n * m,
                m >= 1,
        ;
        assert((o + 1) * m == o * m + m) by (nonlinear_arith);
        assert(h[o].len() == r);
        let g = tensor::agrupados(d, 1, m, n, k)->Some_0;
        assert(g == h.update(o, h[o].push(d[p])));
        assert forall|q: int| 0 <= q < n implies (#[trigger] g[q]).len() == (if k >= (q + 1) * m {
            m
        } else if k <= q * m {
            0
        } else {
            k - q * m
        }) by {
            assert((q + 1) * m == q * m + m) by (nonlinear_arith);
            if q < o {
                assert((q + 1) * m <= o * m) by (nonlinear_arith)
                    requires
                        q + 1 <= o,
                        m >= 1,
                ;
            } else if q > o {
                assert(q * m >= (o + 1) * m) by (nonlinear_arith)
                    requires
                        q >= o + 1,
                        m >= 1,
                ;
            }
            assert(h[q].len() == h[q].len());
        }
        assert forall|q: int, j: int| 0 <= q < n && 0 <= j < g[q].len() implies #[trigger] g[q][j] == d[q * m + j] by {
            if q == o {
                if j < r {
                    assert(h[q][j] == d[q * m + j]);
                }
            } else {
                assert(h[q][j] == d[q * m + j]);
            }
        }
    }
}

/// Numa matriz de `n` por `m`, reduzir pelo eixo um junta os numeros de cada linha, pela ordem das
/// colunas.
pub proof fn lei_reduzir_linhas(n: usize, m: usize, d: Seq<(u64, Seq<char>)>)
    requires
        m >= 1,
        d.len() == n * m,
        d.len() <= usize::MAX,
        n >= 1,
    ensures
        tensor::grupos_do_eixo(seq![n, m], d, 1) is Some,
        ({
            let g = tensor::grupos_do_eixo(seq![n, m], d, 1)->Some_0;
            &&& g.len() == n
            &&& forall|i: int| 0 <= i < n ==> (#[trigger] g[i]).len() == m
            &&& forall|i: int, j: int| 0 <= i < n && 0 <= j < m ==> #[trigger] g[i][j] == d[i * m + j]
        }),
{
    let s = seq![n, m];
    let vazio = s.skip(2);
    assert(vazio =~= Seq::<usize>::empty());
    assert(tensor::produto(vazio) == Some(1int));
    let um = s.remove(1);
    assert(um =~= seq![n]);
    reveal_with_fuel(tensor::produto_ate, 2);
    assert(1 * n == n);
    assert(tensor::produto_ate(um, 0) == Some(1int));
    assert(tensor::produto(um) == Some(n as int));
    assert(1 * m == m);
    lema_linhas(d, n as int, m as int, d.len() as int);
    let g = tensor::agrupados(d, 1, m as int, n as int, d.len() as int)->Some_0;
    assert(tensor::grupos_do_eixo(s, d, 1) == Some(g));
    assert forall|i: int| 0 <= i < n implies (#[trigger] g[i]).len() == m by {
        assert((i + 1) * m <= n * m) by (nonlinear_arith)
            requires
                i + 1 <= n,
                m >= 1,
        ;
    }
}

} // verus!
