//! Leis das contas, das comparacoes e dos indices do interpretador, e dos numeros com ponto.

use vstd::prelude::*;
use crate::aplicar;
use crate::ast::OpBinario;
use crate::busca;
use crate::decimal;
use crate::operacoes;
use crate::operacoes::Conta;
use crate::ordem;
use crate::valor;

verus! {

// ---- Numeros com ponto ------------------------------------------------------------------

/// Um inteiro pequeno que passa a numero com ponto e volta a inteiro e o mesmo; a ordem e a igualdade
/// dos numeros com ponto sao as dos inteiros.
pub proof fn lei_inteiros_com_ponto(x: int, y: int)
    requires
        -0x20000000000000 < x < 0x20000000000000,
        -0x20000000000000 < y < 0x20000000000000,
    ensures
        decimal::inteiro_de(decimal::bits_de(x) as u64) == x,
        decimal::menor(decimal::bits_de(x) as u64, decimal::bits_de(y) as u64) == (x < y),
        decimal::iguais(decimal::bits_de(x) as u64, decimal::bits_de(y) as u64) == (x == y),
        decimal::diferente_de_zero(decimal::bits_de(x) as u64) == (x != 0),
{
    decimal::lema_inteiro_pequeno(x);
    decimal::lema_inteiro_pequeno(y);
    let a = if x < 0 {
        -x
    } else {
        x
    };
    let b = if y < 0 {
        -y
    } else {
        y
    };
    decimal::lema_crescente(a, b);
    decimal::lema_crescente(b, a);
}

// ---- Contas -----------------------------------------------------------------------------

/// Um inteiro, se cabe na maquina; senao nao ha resultado.
pub open spec fn inteiro(n: int) -> aplicar::FeitoVisto {
    if -0x8000000000000000 <= n <= 0x7fffffffffffffff {
        aplicar::FeitoVisto::Valor(valor::Dado::Inteiro(n as i64))
    } else {
        aplicar::FeitoVisto::Panico
    }
}

/// As contas entre inteiros dao o inteiro certo: o da esquerda mais, menos e vezes o da direita.
pub proof fn lei_contas_inteiras(x: i64, y: i64)
    ensures
        ({
            let a = valor::Dado::Inteiro(x);
            let b = valor::Dado::Inteiro(y);
            &&& aplicar::aplicado(OpBinario::Soma, a, b) == inteiro(x + y)
            &&& aplicar::aplicado(OpBinario::Subtracao, a, b) == inteiro(x - y)
            &&& aplicar::aplicado(OpBinario::Multiplicacao, a, b) == inteiro(x * y)
            &&& aplicar::negado(a) == inteiro(0 - x)
        }),
{
}

/// `//` e `%` entre inteiros dao o quociente e o resto: o da esquerda e o quociente vezes o da direita
/// mais o resto, que e menor do que o da direita e tem o sinal do da esquerda. Dividir por zero falha.
pub proof fn lei_divisao_inteira(x: i64, y: i64)
    requires
        y != 0,
        !(x == i64::MIN && y == -1),
    ensures
        exists|q: i64, r: i64|
            #![trigger inteiro(q as int), inteiro(r as int)]
            aplicar::aplicado(OpBinario::DivisaoInteira, valor::Dado::Inteiro(x), valor::Dado::Inteiro(y))
                == aplicar::FeitoVisto::Valor(valor::Dado::Inteiro(q)) && aplicar::aplicado(
                OpBinario::Modulo,
                valor::Dado::Inteiro(x),
                valor::Dado::Inteiro(y),
            ) == aplicar::FeitoVisto::Valor(valor::Dado::Inteiro(r)) && x == q * y + r && (r == 0 || (r < 0) == (x < 0))
                && -aplicar::absoluto(y as int) < r < aplicar::absoluto(y as int),
        aplicar::aplicado(OpBinario::DivisaoInteira, valor::Dado::Inteiro(x), valor::Dado::Inteiro(0)) is Falha,
{
    aplicar::lei_divisao(x as int, y as int);
    let q = aplicar::quociente(x as int, y as int);
    let r = aplicar::resto(x as int, y as int);
    let a = aplicar::absoluto(x as int);
    let b = aplicar::absoluto(y as int);
    vstd::arithmetic::div_mod::lemma_fundamental_div_mod(a, b);
    assert(0 <= a / b <= a) by (nonlinear_arith)
        requires
            a >= 0,
            b >= 1,
    ;
    if x == i64::MIN && b >= 2 {
        assert(a / b < a) by (nonlinear_arith)
            requires
                a >= 1,
                b >= 2,
        ;
    }
    assert(i64::MIN <= q <= i64::MAX);
    assert(i64::MIN <= r <= i64::MAX);
    let qi = q as i64;
    let ri = r as i64;
    assert(inteiro(qi as int) == aplicar::FeitoVisto::Valor(valor::Dado::Inteiro(qi)));
    assert(inteiro(ri as int) == aplicar::FeitoVisto::Valor(valor::Dado::Inteiro(ri)));
}

/// Com um numero com ponto de um dos lados, a conta pede-se com o da esquerda primeiro e o da direita
/// depois, o que for inteiro passado a numero com ponto.
pub proof fn lei_contas_com_ponto(a: valor::Dado, b: valor::Dado, x: u64, y: u64)
    requires
        a is Numero || b is Numero,
        match a {
            valor::Dado::Numero(u, _) => x == u,
            valor::Dado::Inteiro(n) => x == decimal::bits_de(n as int) as u64,
            _ => false,
        },
        match b {
            valor::Dado::Numero(u, _) => y == u,
            valor::Dado::Inteiro(n) => y == decimal::bits_de(n as int) as u64,
            _ => false,
        },
    ensures
        aplicar::aplicado(OpBinario::Soma, a, b) == (aplicar::FeitoVisto::Conta { op: Conta::Soma, a: x, b: y }),
        aplicar::aplicado(OpBinario::Subtracao, a, b) == (aplicar::FeitoVisto::Conta { op: Conta::Subtracao, a: x, b: y }),
        aplicar::aplicado(OpBinario::Multiplicacao, a, b) == (aplicar::FeitoVisto::Conta {
            op: Conta::Multiplicacao,
            a: x,
            b: y,
        }),
        aplicar::aplicado(OpBinario::Modulo, a, b) == (aplicar::FeitoVisto::Conta { op: Conta::Resto, a: x, b: y }),
        decimal::diferente_de_zero(y) ==> aplicar::aplicado(OpBinario::Divisao, a, b) == (aplicar::FeitoVisto::Conta {
            op: Conta::Divisao,
            a: x,
            b: y,
        }),
        !decimal::diferente_de_zero(y) ==> aplicar::aplicado(OpBinario::Divisao, a, b) is Falha,
{
}

/// Somar um texto e outro valor junta os dois textos pela ordem; somar duas listas junta-as pela ordem.
pub proof fn lei_juncao(t: Seq<char>, v: valor::Dado, l: Seq<valor::Dado>, m: Seq<valor::Dado>)
    ensures
        aplicar::aplicado(OpBinario::Soma, valor::Dado::Texto(t), v) == aplicar::FeitoVisto::Valor(
            valor::Dado::Texto(t + valor::texto_de(v)),
        ),
        aplicar::aplicado(OpBinario::Soma, v, valor::Dado::Texto(t)) == aplicar::FeitoVisto::Valor(
            valor::Dado::Texto(valor::texto_de(v) + t),
        ),
        aplicar::aplicado(OpBinario::Soma, valor::Dado::Lista(l), valor::Dado::Lista(m)) == aplicar::FeitoVisto::Valor(
            valor::Dado::Lista(l + m),
        ),
{
}

/// Repetir um texto nenhuma vez da o vazio, uma vez da o proprio, e `a + b` vezes da o que dao `a` e `b`
/// vezes, um depois do outro.
pub proof fn lei_repetido(s: Seq<char>, a: int, b: int)
    requires
        0 <= a,
        0 <= b,
    ensures
        operacoes::repetido(s, 0).len() == 0,
        operacoes::repetido(s, 1) == s,
        operacoes::repetido(s, a + b) == operacoes::repetido(s, a) + operacoes::repetido(s, b),
    decreases b,
{
    assert(operacoes::repetido(s, 1) =~= s) by {
        reveal_with_fuel(operacoes::repetido, 2);
    }
    if b > 0 {
        lei_repetido(s, a, b - 1);
        assert(operacoes::repetido(s, a + b) == operacoes::repetido(s, a + (b - 1)) + s);
        assert(operacoes::repetido(s, a) + operacoes::repetido(s, b) =~= operacoes::repetido(s, a)
            + operacoes::repetido(s, b - 1) + s);
    } else {
        assert(operacoes::repetido(s, a) + operacoes::repetido(s, 0) =~= operacoes::repetido(s, a));
    }
}

// ---- Comparacoes ------------------------------------------------------------------------

/// Comparar inteiros pequenos da a relacao entre o da esquerda e o da direita.
pub proof fn lei_comparar_inteiros(x: i64, y: i64)
    requires
        -0x20000000000000 < x < 0x20000000000000,
        -0x20000000000000 < y < 0x20000000000000,
    ensures
        ({
            let a = valor::Dado::Inteiro(x);
            let b = valor::Dado::Inteiro(y);
            let diz = |r: bool| aplicar::FeitoVisto::Valor(valor::Dado::Booleano(r));
            &&& aplicar::aplicado(OpBinario::MenorQue, a, b) == diz(x < y)
            &&& aplicar::aplicado(OpBinario::MaiorQue, a, b) == diz(x > y)
            &&& aplicar::aplicado(OpBinario::MenorOuIgual, a, b) == diz(x <= y)
            &&& aplicar::aplicado(OpBinario::MaiorOuIgual, a, b) == diz(x >= y)
            &&& aplicar::aplicado(OpBinario::Igual, a, b) == diz(x == y)
            &&& aplicar::aplicado(OpBinario::DiferenteDe, a, b) == diz(x != y)
        }),
{
    lei_inteiros_com_ponto(x as int, y as int);
    lei_inteiros_com_ponto(y as int, x as int);
}

/// Dois textos diferentes: um e so um dos dois e menor; `<=` e o contrario de `>`, e `>=` o de `<`.
pub proof fn lei_comparar_textos(s: Seq<char>, t: Seq<char>)
    ensures
        ({
            let a = valor::Dado::Texto(s);
            let b = valor::Dado::Texto(t);
            let diz = |r: bool| aplicar::FeitoVisto::Valor(valor::Dado::Booleano(r));
            let menor = aplicar::aplicado(OpBinario::MenorQue, a, b) == diz(true);
            let maior = aplicar::aplicado(OpBinario::MaiorQue, a, b) == diz(true);
            &&& s != t ==> menor != maior
            &&& s == t ==> !menor && !maior
            &&& aplicar::aplicado(OpBinario::MenorQue, a, b) == diz(menor)
            &&& aplicar::aplicado(OpBinario::MaiorQue, b, a) == diz(menor)
            &&& aplicar::aplicado(OpBinario::MenorOuIgual, a, b) == diz(!maior)
            &&& aplicar::aplicado(OpBinario::MaiorOuIgual, a, b) == diz(!menor)
            &&& aplicar::aplicado(OpBinario::Igual, a, b) == diz(s == t)
            &&& aplicar::aplicado(OpBinario::DiferenteDe, a, b) == diz(s != t)
        }),
        s.len() > 0 && t.len() > 0 && s[0] < t[0] ==> aplicar::aplicado(
            OpBinario::MenorQue,
            valor::Dado::Texto(s),
            valor::Dado::Texto(t),
        ) == aplicar::FeitoVisto::Valor(valor::Dado::Booleano(true)),
{
    ordem::lema_total(s, t);
}

/// Um valor esta numa lista se um item dela lhe e igual, num mapa se e uma das chaves, e num texto se ele
/// o contem; `nao em` diz o contrario.
pub proof fn lei_em(v: valor::Dado, l: Seq<valor::Dado>, s: Seq<char>, t: Seq<char>)
    ensures
        ({
            let b = exists|i: int| 0 <= i < l.len() && valor::iguais(#[trigger] l[i], v);
            &&& aplicar::aplicado(OpBinario::Em, v, valor::Dado::Lista(l)) == aplicar::FeitoVisto::Valor(
                valor::Dado::Booleano(b),
            )
            &&& aplicar::aplicado(OpBinario::NaoEm, v, valor::Dado::Lista(l)) == aplicar::FeitoVisto::Valor(
                valor::Dado::Booleano(!b),
            )
        }),
        ({
            let b = exists|i: int| 0 <= i <= s.len() - t.len() && #[trigger] s.subrange(i, i + t.len()) == t;
            &&& aplicar::aplicado(OpBinario::Em, valor::Dado::Texto(t), valor::Dado::Texto(s)) == aplicar::FeitoVisto::Valor(
                valor::Dado::Booleano(b),
            )
            &&& aplicar::aplicado(OpBinario::NaoEm, valor::Dado::Texto(t), valor::Dado::Texto(s))
                == aplicar::FeitoVisto::Valor(valor::Dado::Booleano(!b))
        }),
{
    let b = exists|i: int| 0 <= i <= s.len() - t.len() && #[trigger] s.subrange(i, i + t.len()) == t;
    assert(busca::contem(s, t) == b) by {
        busca::lema_primeira(s, t, 0);
        if b {
            let i = choose|i: int| 0 <= i <= s.len() - t.len() && #[trigger] s.subrange(i, i + t.len()) == t;
            assert(busca::ocorre(s, t, i));
        }
        if let Some(i) = busca::primeira(s, t, 0) {
            assert(busca::ocorre(s, t, i));
            assert(s.subrange(i, i + t.len()) == t);
        }
    }
}

/// Um valor sem nada que nao seja numero e igual a si mesmo: inteiros, textos, booleanos, `nulo` e bytes; e
/// valores de tipos diferentes, que nao sejam os dois numeros, nao sao iguais.
pub proof fn lei_igualdade(a: valor::Dado, b: valor::Dado)
    ensures
        a is Inteiro || a is Texto || a is Booleano || a is Nulo || a is Bytes ==> valor::iguais(a, a),
        a is Inteiro && b is Inteiro || a is Texto && b is Texto || a is Booleano && b is Booleano || a is Bytes && b is Bytes
            ==> (valor::iguais(a, b) <==> a == b),
        a is Inteiro && b is Texto || a is Texto && b is Inteiro || a is Nulo && !(b is Nulo) || !(a is Nulo) && b is Nulo
            || a is Booleano && !(b is Booleano) || a is Lista && !(b is Lista) ==> !valor::iguais(a, b),
        (a is Inteiro || a is Numero) && (b is Inteiro || b is Numero) ==> valor::iguais(a, b) == valor::iguais(b, a),
{
}

/// Duas listas sao iguais se tem o mesmo tamanho e os itens sao iguais um a um.
pub proof fn lei_igualdade_listas(a: Seq<valor::Dado>, b: Seq<valor::Dado>, x: valor::Dado, y: valor::Dado)
    ensures
        valor::iguais(valor::Dado::Lista(a.push(x)), valor::Dado::Lista(b.push(y))) <==> valor::iguais(
            valor::Dado::Lista(a),
            valor::Dado::Lista(b),
        ) && valor::iguais(x, y),
        valor::iguais(valor::Dado::Lista(Seq::empty()), valor::Dado::Lista(b)) <==> b.len() == 0,
{
    let p = a.push(x);
    let q = b.push(y);
    if valor::iguais(valor::Dado::Lista(p), valor::Dado::Lista(q)) {
        assert(valor::iguais(p[a.len() as int], q[a.len() as int]));
        assert forall|i: int| 0 <= i < a.len() implies valor::iguais(#[trigger] a[i], b[i]) by {
            assert(p[i] == a[i] && q[i] == b[i]);
            assert(valor::iguais(p[i], q[i]));
        }
    }
    if valor::iguais(valor::Dado::Lista(a), valor::Dado::Lista(b)) && valor::iguais(x, y) {
        assert forall|i: int| 0 <= i < p.len() implies valor::iguais(#[trigger] p[i], q[i]) by {
            if i < a.len() {
                assert(valor::iguais(a[i], b[i]));
            }
        }
    }
}

/// O que conta como falso: `falso`, `nulo`, zero, o que e vazio e um erro; tudo o resto e verdadeiro.
pub proof fn lei_verdadeiro(v: valor::Dado)
    ensures
        !aplicar::verdadeiro(v) <==> {
            ||| v == valor::Dado::Booleano(false)
            ||| v is Nulo
            ||| v is Erro
            ||| v == valor::Dado::Inteiro(0)
            ||| (v is Numero && (v->Numero_0 == 0 || v->Numero_0 == 0x8000000000000000))
            ||| v == valor::Dado::Texto(Seq::empty())
            ||| v == valor::Dado::Lista(Seq::empty())
            ||| v == valor::Dado::Mapa(Seq::empty())
            ||| v == valor::Dado::Bytes(Seq::empty())
        },
{
    match v {
        valor::Dado::Texto(s) => {
            assert(s.len() == 0 ==> s =~= Seq::empty());
        },
        valor::Dado::Lista(s) => {
            assert(s.len() == 0 ==> s =~= Seq::empty());
        },
        valor::Dado::Mapa(s) => {
            assert(s.len() == 0 ==> s =~= Seq::empty());
        },
        valor::Dado::Bytes(s) => {
            assert(s.len() == 0 ==> s =~= Seq::empty());
        },
        _ => {},
    }
}

// ---- Indices ----------------------------------------------------------------------------

/// O item de um indice de uma lista, o caractere de um indice de um texto e o byte de um indice de bytes
/// sao os que estao nesse lugar; a partir do fim, falha. De um mapa, e o valor da chave, ou `nulo`.
pub proof fn lei_acesso(l: Seq<valor::Dado>, t: Seq<char>, b: Seq<u8>, m: valor::Escopo, i: i64, k: Seq<char>)
    requires
        0 <= i <= usize::MAX,
    ensures
        ({
            let n = valor::Dado::Inteiro(i);
            &&& if i < l.len() {
                aplicar::acessado(valor::Dado::Lista(l), n) == aplicar::FeitoVisto::Valor(l[i as int])
            } else {
                aplicar::acessado(valor::Dado::Lista(l), n) is Falha
            }
            &&& if i < t.len() {
                aplicar::acessado(valor::Dado::Texto(t), n) == aplicar::FeitoVisto::Valor(
                    valor::Dado::Texto(seq![t[i as int]]),
                )
            } else {
                aplicar::acessado(valor::Dado::Texto(t), n) is Falha
            }
            &&& if i < b.len() {
                aplicar::acessado(valor::Dado::Bytes(b), n) == aplicar::FeitoVisto::Valor(
                    valor::Dado::Inteiro(b[i as int] as i64),
                )
            } else {
                aplicar::acessado(valor::Dado::Bytes(b), n) is Falha
            }
        }),
        aplicar::acessado(valor::Dado::Mapa(m), valor::Dado::Texto(k)) == aplicar::FeitoVisto::Valor(
            match valor::valor_de(m, k) {
                Some(v) => v,
                None => valor::Dado::Nulo,
            },
        ),
        aplicar::acesso_opcional(valor::Dado::Mapa(m), k) == aplicar::acessado(valor::Dado::Mapa(m), valor::Dado::Texto(k)),
        aplicar::acesso_opcional(valor::Dado::Nulo, k) == aplicar::FeitoVisto::Valor(valor::Dado::Nulo),
{
}

/// Depois de trocado o item `i` de uma lista, o indice `i` da o novo e os outros dao o que davam; o mesmo
/// com a chave de um mapa.
pub proof fn lei_troca(l: Seq<valor::Dado>, i: i64, j: i64, m: valor::Escopo, k: Seq<char>, outra: Seq<char>, v: valor::Dado)
    requires
        0 <= i < l.len() <= usize::MAX,
        0 <= j < l.len(),
        j != i,
        outra != k,
        valor::distintas(m),
    ensures
        exists|n: valor::Dado|
            aplicar::trocado_em(valor::Dado::Lista(l), valor::Dado::Inteiro(i), v) == aplicar::FeitoVisto::Valor(n)
                && #[trigger] aplicar::acessado(n, valor::Dado::Inteiro(i)) == aplicar::FeitoVisto::Valor(v)
                && aplicar::acessado(n, valor::Dado::Inteiro(j)) == aplicar::acessado(
                valor::Dado::Lista(l),
                valor::Dado::Inteiro(j),
            ),
        exists|n: valor::Dado|
            aplicar::trocado_em(valor::Dado::Mapa(m), valor::Dado::Texto(k), v) == aplicar::FeitoVisto::Valor(n)
                && #[trigger] aplicar::acessado(n, valor::Dado::Texto(k)) == aplicar::FeitoVisto::Valor(v)
                && aplicar::acessado(n, valor::Dado::Texto(outra)) == aplicar::acessado(
                valor::Dado::Mapa(m),
                valor::Dado::Texto(outra),
            ),
{
    let a = valor::Dado::Lista(l.update(i as int, v));
    assert(aplicar::acessado(a, valor::Dado::Inteiro(i)) == aplicar::FeitoVisto::Valor(v));
    assert(aplicar::acessado(a, valor::Dado::Inteiro(j)) == aplicar::acessado(
        valor::Dado::Lista(l),
        valor::Dado::Inteiro(j),
    ));
    valor::lei_mapa(m, k, v, outra);
    let b = valor::Dado::Mapa(valor::com_valor(m, k, v));
    assert(aplicar::acessado(b, valor::Dado::Texto(k)) == aplicar::FeitoVisto::Valor(v));
}

} // verus!
