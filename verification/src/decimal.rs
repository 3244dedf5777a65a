//! Numeros com ponto: o padrao de 64 bits de um numero binario de precisao dupla e o texto
//! com que ele se escreve. As contas se fazem fora; aqui se compara, se trunca e se converte.

use vstd::prelude::*;

verus! {

/// Um numero com ponto.
#[derive(Debug)]
pub struct Decimal {
    pub bits: u64,
    pub texto: String,
}

impl Clone for Decimal {
    fn clone(&self) -> (r: Self)
        ensures
            r.bits == self.bits,
            r.texto@ == self.texto@,
    {
        Decimal { bits: self.bits, texto: self.texto.clone() }
    }
}

/// Duas elevado a `n`.
pub open spec fn pot2(n: int) -> int
    decreases n,
{
    if n <= 0 {
        1
    } else {
        2 * pot2(n - 1)
    }
}

/// O campo do expoente.
pub open spec fn expoente(b: u64) -> int {
    ((b / 0x10000000000000) % 2048) as int
}

/// O campo da fracao.
pub open spec fn fracao(b: u64) -> int {
    (b % 0x10000000000000) as int
}

/// O numero tem sinal.
pub open spec fn negativo(b: u64) -> bool {
    b >= 0x8000000000000000
}

/// Nao e um numero.
pub open spec fn nao_numero(b: u64) -> bool {
    expoente(b) == 2047 && fracao(b) != 0
}

/// A posicao de um padrao na ordem dos numeros: a dos dois zeros e a mesma.
pub open spec fn ordem(b: u64) -> int {
    if negativo(b) {
        0x8000000000000000 - b
    } else {
        b as int
    }
}

/// Os dois numeros sao iguais. O que nao e numero nao e igual a nada.
pub open spec fn iguais(a: u64, b: u64) -> bool {
    !nao_numero(a) && !nao_numero(b) && ordem(a) == ordem(b)
}

/// O primeiro numero e menor.
pub open spec fn menor(a: u64, b: u64) -> bool {
    !nao_numero(a) && !nao_numero(b) && ordem(a) < ordem(b)
}

/// O numero e diferente de zero.
pub open spec fn diferente_de_zero(b: u64) -> bool {
    ordem(b) != 0
}

/// O valor absoluto sem a parte depois do ponto; a partir de 2^64 vale 2^64.
pub open spec fn grandeza(b: u64) -> int {
    let e = expoente(b);
    if e < 1023 {
        0
    } else if e >= 1087 {
        0x10000000000000000
    } else if e >= 1075 {
        (0x10000000000000 + fracao(b)) * pot2(e - 1075)
    } else {
        (0x10000000000000 + fracao(b)) / pot2(1075 - e)
    }
}

/// O numero sem a parte depois do ponto.
pub open spec fn truncado(b: u64) -> int {
    if nao_numero(b) {
        0
    } else if negativo(b) {
        -grandeza(b)
    } else {
        grandeza(b)
    }
}

/// O valor mais proximo entre dois limites.
pub open spec fn entre(x: int, a: int, b: int) -> int {
    if x < a {
        a
    } else if x > b {
        b
    } else {
        x
    }
}

/// O numero como indice.
pub open spec fn indice(b: u64) -> int {
    entre(truncado(b), 0, usize::MAX as int)
}

/// O numero como inteiro.
pub open spec fn inteiro_de(b: u64) -> int {
    entre(truncado(b), i64::MIN as int, i64::MAX as int)
}

pub fn eh_nao_numero(b: u64) -> (r: bool)
    ensures
        r == nao_numero(b),
{
    (b / 0x10000000000000) % 2048 == 2047 && b % 0x10000000000000 != 0
}

fn posicao(b: u64) -> (r: i128)
    ensures
        r == ordem(b),
{
    if b >= 0x8000000000000000 {
        0x8000000000000000i128 - b as i128
    } else {
        b as i128
    }
}

pub fn sao_iguais(a: u64, b: u64) -> (r: bool)
    ensures
        r == iguais(a, b),
{
    !eh_nao_numero(a) && !eh_nao_numero(b) && posicao(a) == posicao(b)
}

pub fn eh_menor(a: u64, b: u64) -> (r: bool)
    ensures
        r == menor(a, b),
{
    !eh_nao_numero(a) && !eh_nao_numero(b) && posicao(a) < posicao(b)
}

pub fn nao_zero(b: u64) -> (r: bool)
    ensures
        r == diferente_de_zero(b),
{
    posicao(b) != 0
}

proof fn lema_pot2(n: int)
    ensures
        pot2(n) >= 1,
    decreases n,
{
    if n > 0 {
        lema_pot2(n - 1);
    }
}

proof fn lema_pot2_soma(a: int, b: int)
    requires
        a >= 0,
        b >= 0,
    ensures
        pot2(a + b) == pot2(a) * pot2(b),
    decreases a,
{
    if a > 0 {
        lema_pot2_soma(a - 1, b);
        let x = pot2(a - 1);
        let y = pot2(b);
        assert(2 * (x * y) == (2 * x) * y) by (nonlinear_arith);
    }
}

proof fn lema_pot2_valores()
    ensures
        pot2(11) == 2048,
        pot2(12) == 4096,
        pot2(52) == 0x10000000000000,
        pot2(53) == 0x20000000000000,
        pot2(63) == 0x8000000000000000,
{
    reveal_with_fuel(pot2, 14);
    assert(pot2(4) == 16);
    lema_pot2_soma(12, 12);
    assert(pot2(24) == 4096 * 4096);
    lema_pot2_soma(24, 24);
    assert(pot2(48) == 16777216 * 16777216);
    lema_pot2_soma(48, 4);
    assert(pot2(52) == 281474976710656 * 16);
    lema_pot2_soma(52, 11);
    assert(pot2(53) == 2 * pot2(52));
}

fn potencia(n: u32) -> (r: u128)
    requires
        n <= 64,
    ensures
        r == pot2(n as int),
        1 <= r <= 0x10000000000000000,
{
    let mut r: u128 = 1;
    let mut i: u32 = 0;
    while i < n
        invariant
            i <= n,
            n <= 64,
            r == pot2(i as int),
            r >= 1,
        decreases n - i,
    {
        proof {
            lema_pot2_valores();
            lema_pot2_soma(i as int, 63 - i);
            lema_pot2(63 - i);
            let p = pot2(i as int);
            let q = pot2(63 - i);
            assert(p <= p * q) by (nonlinear_arith)
                requires
                    p >= 1,
                    q >= 1,
            ;
        }
        r = r * 2;
        i += 1;
    }
    proof {
        lema_pot2_valores();
        lema_pot2_soma(n as int, 64 - n);
        lema_pot2(64 - n);
        assert(pot2(64) == 2 * pot2(63));
        let p = pot2(n as int);
        let q = pot2(64 - n);
        assert(p <= p * q) by (nonlinear_arith)
            requires
                p >= 1,
                q >= 1,
        ;
    }
    r
}

fn modulo_truncado(b: u64) -> (r: u128)
    ensures
        r == grandeza(b),
        r <= 0x10000000000000000,
{
    let e = (b / 0x10000000000000) % 2048;
    let m = 0x10000000000000u128 + (b % 0x10000000000000) as u128;
    if e < 1023 {
        0
    } else if e >= 1087 {
        0x10000000000000000
    } else if e >= 1075 {
        let p = potencia((e - 1075) as u32);
        proof {
            lema_pot2_valores();
            lema_pot2_soma(e - 1075, 11 - (e - 1075));
            lema_pot2(11 - (e - 1075));
            lema_pot2(e - 1075);
            let x = pot2(e - 1075);
            let y = pot2(11 - (e - 1075));
            assert(x <= x * y) by (nonlinear_arith)
                requires
                    x >= 1,
                    y >= 1,
            ;
            assert(m * p <= 0x20000000000000 * 2048) by (nonlinear_arith)
                requires
                    m <= 0x20000000000000,
                    p <= 2048,
            ;
        }
        m * p
    } else {
        let p = potencia((1075 - e) as u32);
        assert(m / p <= m) by (nonlinear_arith)
            requires
                p >= 1,
        ;
        m / p
    }
}

fn valor_truncado(b: u64) -> (r: i128)
    ensures
        r == truncado(b),
        -0x10000000000000000 <= r <= 0x10000000000000000,
{
    if eh_nao_numero(b) {
        0
    } else {
        let m = modulo_truncado(b) as i128;
        if b >= 0x8000000000000000 {
            -m
        } else {
            m
        }
    }
}

/// O numero como indice: o que falta vale zero e o que sobra vale o maior indice.
pub fn para_indice(b: u64) -> (r: usize)
    ensures
        r == indice(b),
{
    let t = valor_truncado(b);
    if t < 0 {
        0
    } else if t > usize::MAX as i128 {
        usize::MAX
    } else {
        t as usize
    }
}

/// O numero como inteiro, com os limites dos inteiros.
pub fn para_inteiro(b: u64) -> (r: i64)
    ensures
        r == inteiro_de(b),
{
    let t = valor_truncado(b);
    if t < i64::MIN as i128 {
        i64::MIN
    } else if t > i64::MAX as i128 {
        i64::MAX
    } else {
        t as i64
    }
}

/// O numero como natural, com um maximo.
pub fn para_natural(b: u64, maximo: u64) -> (r: u64)
    ensures
        r == entre(truncado(b), 0, maximo as int),
{
    let t = valor_truncado(b);
    if t < 0 {
        0
    } else if t > maximo as i128 {
        maximo
    } else {
        t as u64
    }
}

// ---- De inteiro para numero com ponto ------------------------------------------------------

/// O expoente da maior potencia de dois que nao passa de `m`.
pub open spec fn altura(m: int) -> int
    decreases m,
{
    if m < 2 {
        0
    } else {
        1 + altura(m / 2)
    }
}

/// O quociente arredondado ao mais proximo; no meio, ao par.
pub open spec fn arredondado(m: int, d: int) -> int {
    let q = m / d;
    let r = m % d;
    if 2 * r > d || (2 * r == d && q % 2 == 1) {
        q + 1
    } else {
        q
    }
}

/// A mantissa de `m` com 53 bits.
pub open spec fn mantissa(m: int) -> int {
    let e = altura(m);
    if e <= 52 {
        m * pot2(52 - e)
    } else {
        arredondado(m, pot2(e - 52))
    }
}

/// O padrao do numero mais proximo de um inteiro.
pub open spec fn bits_de(n: int) -> int {
    let m = if n < 0 {
        -n
    } else {
        n
    };
    if m == 0 {
        0
    } else {
        (if n < 0 {
            0x8000000000000000
        } else {
            0int
        }) + (altura(m) + 1022) * 0x10000000000000 + mantissa(m)
    }
}

proof fn lema_altura(m: int)
    requires
        m >= 1,
    ensures
        altura(m) >= 0,
        pot2(altura(m)) <= m < 2 * pot2(altura(m)),
    decreases m,
{
    if m >= 2 {
        lema_altura(m / 2);
    }
}

proof fn lema_altura_limite(m: int, k: int)
    requires
        1 <= m < pot2(k + 1),
        k >= 0,
    ensures
        altura(m) <= k,
{
    lema_altura(m);
    if altura(m) > k {
        let a = altura(m) - (k + 1);
        lema_pot2_soma(k + 1, a);
        lema_pot2(a);
        let x = pot2(k + 1);
        let y = pot2(a);
        assert(x <= x * y) by (nonlinear_arith)
            requires
                x >= 1,
                y >= 1,
        ;
    }
}

proof fn lema_mantissa(m: int)
    requires
        1 <= m <= 0x8000000000000000,
    ensures
        0 <= altura(m) <= 63,
        0 <= mantissa(m) <= 0x20000000000000,
{
    let e = altura(m);
    lema_pot2_valores();
    assert(pot2(64) == 2 * pot2(63));
    lema_altura(m);
    lema_altura_limite(m, 63);
    if e <= 52 {
        lema_pot2_soma(e, 52 - e);
        lema_pot2(52 - e);
        let x = pot2(e);
        let y = pot2(52 - e);
        assert(m * y <= 2 * (x * y)) by (nonlinear_arith)
            requires
                m <= 2 * x,
                y >= 1,
        ;
        assert(m * y >= 0) by (nonlinear_arith)
            requires
                m >= 1,
                y >= 1,
        ;
    } else {
        let d = pot2(e - 52);
        lema_pot2(e - 52);
        lema_pot2_soma(e - 52, 52);
        assert(pot2(e) == d * 0x10000000000000);
        assert(0 <= m / d <= 0x20000000000000 - 1) by (nonlinear_arith)
            requires
                0 <= m < 2 * (d * 0x10000000000000),
                d >= 1,
        ;
    }
}

proof fn lema_normal(m: int)
    requires
        1 <= m < 0x20000000000000,
    ensures
        0 <= altura(m) <= 52,
        pot2(52 - altura(m)) >= 1,
        mantissa(m) == m * pot2(52 - altura(m)),
        0x10000000000000 <= mantissa(m) < 0x20000000000000,
{
    lema_pot2_valores();
    lema_altura(m);
    lema_altura_limite(m, 52);
    let e = altura(m);
    lema_pot2_soma(e, 52 - e);
    lema_pot2(52 - e);
    let x = pot2(e);
    let p = pot2(52 - e);
    assert(x * p <= m * p < 2 * (x * p)) by (nonlinear_arith)
        requires
            x <= m < 2 * x,
            p >= 1,
    ;
}

/// Um inteiro que cabe na mantissa e exato como numero com ponto.
pub proof fn lema_inteiro_pequeno(x: int)
    requires
        -0x20000000000000 < x < 0x20000000000000,
    ensures
        ({
            let m = if x < 0 {
                -x
            } else {
                x
            };
            let b = bits_de(x) as u64;
            &&& 0 <= bits_de(m) < 0x7ff0000000000000
            &&& m > 0 ==> bits_de(m) > 0
            &&& !nao_numero(b)
            &&& ordem(b) == if x < 0 {
                -bits_de(m)
            } else {
                bits_de(m)
            }
            &&& truncado(b) == x
        }),
{
    let m = if x < 0 {
        -x
    } else {
        x
    };
    if m > 0 {
        lema_normal(m);
        let e = altura(m);
        let p = pot2(52 - e);
        let u = (e + 1022) * 0x10000000000000 + mantissa(m);
        assert(bits_de(m) == u);
        assert((e + 1023) * 0x10000000000000 <= u < (e + 1024) * 0x10000000000000);
        let b = bits_de(x) as u64;
        let s: int = if x < 0 {
            0x8000000000000000
        } else {
            0
        };
        assert(b == s + u);
        let k: int = e + 1023 + if x < 0 {
            2048int
        } else {
            0
        };
        assert(b == k * 0x10000000000000 + (mantissa(m) - 0x10000000000000));
        assert(b / 0x10000000000000 == k);
        assert(b % 0x10000000000000 == mantissa(m) - 0x10000000000000);
        assert(expoente(b) == e + 1023);
        assert(fracao(b) == mantissa(m) - 0x10000000000000);
        assert(grandeza(b) == m) by {
            if e == 52 {
                assert(pot2(0) == 1);
                assert(pot2(e + 1023 - 1075) == 1);
            } else {
                assert(1075 - (e + 1023) == 52 - e);
                assert((m * p) / p == m) by (nonlinear_arith)
                    requires
                        p >= 1,
                ;
            }
        }
    } else {
        assert(bits_de(0) == 0);
        assert(grandeza(0) == 0);
    }
}

/// O padrao dos numeros cresce com os inteiros.
pub proof fn lema_crescente(a: int, b: int)
    requires
        0 <= a < 0x20000000000000,
        0 <= b < 0x20000000000000,
    ensures
        a < b ==> bits_de(a) < bits_de(b),
{
    if a < b {
        lema_normal(b);
        if a > 0 {
            lema_normal(a);
            let ea = altura(a);
            let eb = altura(b);
            lema_altura(a);
            lema_altura(b);
            if ea > eb {
                lema_pot2_soma(eb + 1, ea - eb - 1);
                lema_pot2(ea - eb - 1);
                let x = pot2(eb + 1);
                let y = pot2(ea - eb - 1);
                assert(x * y >= x) by (nonlinear_arith)
                    requires
                        x >= 1,
                        y >= 1,
                ;
                lema_pot2(eb + 1);
                assert(pot2(eb + 1) == 2 * pot2(eb));
            } else if ea == eb {
                let p = pot2(52 - ea);
                assert(a * p < b * p) by (nonlinear_arith)
                    requires
                        a < b,
                        p >= 1,
                ;
            }
        }
    }
}

/// O padrao do numero um.
pub proof fn lema_um()
    ensures
        inteiro_de(0x3FF0000000000000) == 1,
        bits_de(1) == 0x3FF0000000000000,
        iguais(0x3FF0000000000000, 0x3FF0000000000000),
{
    lema_pot2_valores();
    let b: u64 = 0x3FF0000000000000;
    assert(expoente(b) == 1023);
    assert(fracao(b) == 0);
    assert(grandeza(b) == 0x10000000000000int / pot2(52));
    assert(altura(1) == 0);
    assert(mantissa(1) == 1 * pot2(52));
}

fn altura_de(m: u128) -> (r: u32)
    requires
        1 <= m <= 0x8000000000000000,
    ensures
        r == altura(m as int),
{
    let mut x: u128 = m;
    let mut e: u32 = 0;
    proof {
        lema_mantissa(m as int);
    }
    while x >= 2
        invariant
            1 <= x <= m,
            e + altura(x as int) == altura(m as int),
            altura(m as int) <= 63,
        decreases x,
    {
        proof {
            lema_altura(x as int / 2);
        }
        x = x / 2;
        e += 1;
    }
    e
}

/// O padrao do numero com ponto mais proximo de um inteiro.
pub fn de_inteiro(n: i64) -> (r: u64)
    ensures
        r == bits_de(n as int),
{
    if n == 0 {
        return 0;
    }
    let m: u128 = if n < 0 {
        (-(n as i128)) as u128
    } else {
        n as u128
    };
    proof {
        lema_mantissa(m as int);
        lema_pot2_valores();
    }
    let e = altura_de(m);
    let mant: u128 = if e <= 52 {
        let p = potencia(52 - e);
        m * p
    } else {
        let d = potencia(e - 52);
        let q = m / d;
        let s = m % d;
        proof {
            vstd::arithmetic::div_mod::lemma_fundamental_div_mod(m as int, d as int);
            assert(q <= m) by (nonlinear_arith)
                requires
                    q == m / d,
                    d >= 1,
            ;
            assert(s < d);
        }
        if 2 * s > d || (2 * s == d && q % 2 == 1) {
            q + 1
        } else {
            q
        }
    };
    assert(mant == mantissa(m as int));
    let base: u64 = (e as u64 + 1022) * 0x10000000000000 + mant as u64;
    if n < 0 {
        0x8000000000000000 + base
    } else {
        base
    }
}

} // verus!
