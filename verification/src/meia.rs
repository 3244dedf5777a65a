//! Numeros de meia precisao e numeros ao acaso: contas sobre os padroes de bits.

use vstd::prelude::*;
use crate::decimal;

verus! {

// ---- Meia precisao -----------------------------------------------------------------------

/// O padrao de 16 bits mais proximo, por corte, de um de 32. O que e grande demais vira infinito
/// e o que e pequeno demais, zero.
pub open spec fn meia_de(b: u32) -> int {
    let sinal = (b / 0x80000000) as int;
    let e = (b / 0x800000) % 256 - 112;
    let m = (b % 0x800000) as int;
    sinal * 0x8000 + if e == 143 {
        0x7c00 + if m != 0 {
            0x200int
        } else {
            0
        }
    } else if e >= 31 {
        0x7c00
    } else if e > 0 {
        e * 1024 + m / 8192
    } else if e < -10 {
        0
    } else {
        (m + 0x800000) / decimal::pot2(1 - e) / 8192
    }
}

/// Um numero dividido por dois `k` vezes.
fn dividir(x: u32, k: u32) -> (r: u32)
    ensures
        r == x as int / decimal::pot2(k as int),
{
    let mut r: u32 = x;
    let mut i: u32 = 0;
    assert(x as int / 1 == x);
    while i < k
        invariant
            i <= k,
            r == x as int / decimal::pot2(i as int),
            decimal::pot2(i as int) > 0,
        decreases k - i,
    {
        proof {
            vstd::arithmetic::div_mod::lemma_div_denominator(x as int, decimal::pot2(i as int), 2);
            assert(decimal::pot2(i as int) * 2 == decimal::pot2(i + 1));
        }
        r = r / 2;
        i += 1;
    }
    r
}

proof fn lema_divisao(x: int, k: int)
    requires
        0 <= x < 0x1000000,
        k >= 1,
    ensures
        0 <= x / decimal::pot2(k) < 0x800000,
    decreases k,
{
    lema_pot2(k);
    assert(decimal::pot2(k) >= 2) by {
        lema_pot2(k - 1);
    }
    let p = decimal::pot2(k);
    vstd::arithmetic::div_mod::lemma_div_is_ordered_by_denominator(x, 2, p);
    vstd::arithmetic::div_mod::lemma_div_pos_is_pos(x, p);
}

proof fn lema_pot2(k: int)
    ensures
        decimal::pot2(k) >= 1,
    decreases k,
{
    if k > 0 {
        lema_pot2(k - 1);
    }
}

/// Converte o padrao de 32 bits de um numero no de 16.
pub fn f64_para_f16_bits(bits: u32) -> (r: u16)
    ensures
        r == meia_de(bits),
{
    let sinal: u32 = bits / 0x80000000;
    let exp: u32 = (bits / 0x800000) % 256;
    let m: u32 = bits % 0x800000;
    let resto: u32 = if exp == 255 {
        if m != 0 {
            0x7e00
        } else {
            0x7c00
        }
    } else if exp >= 143 {
        0x7c00
    } else if exp > 112 {
        (exp - 112) * 1024 + m / 8192
    } else if exp < 102 {
        0
    } else {
        proof {
            lema_divisao(m + 0x800000, 113 - exp);
        }
        dividir(m + 0x800000, 113 - exp) / 8192
    };
    (sinal * 0x8000 + resto) as u16
}

/// Uma fracao levada ao primeiro bit, e quantas vezes se dobrou.
pub open spec fn levada(m: int, e: int) -> (int, int)
    decreases 0x800 - m,
{
    if m <= 0 || m >= 0x400 {
        (m, e)
    } else {
        levada(2 * m, e + 1)
    }
}

/// O padrao de 32 bits de um de 16.
pub open spec fn inteira_de(b: u16) -> int {
    let sinal = (b / 0x8000) as int;
    let e = ((b / 1024) % 32) as int;
    let m = (b % 1024) as int;
    sinal * 0x80000000 + if e == 31 {
        0x7f800000 + m * 8192
    } else if e > 0 {
        (e + 112) * 0x800000 + m * 8192
    } else if m == 0 {
        0
    } else {
        (114 - levada(m, 0).1) * 0x800000 + (levada(m, 0).0 % 1024) * 8192
    }
}

/// Converte o padrao de 16 bits de um numero no de 32.
pub fn f16_bits_para_f64(bits: u16) -> (r: u32)
    ensures
        r == inteira_de(bits),
{
    let sinal: u32 = bits as u32 / 0x8000;
    let exp: u32 = (bits as u32 / 1024) % 32;
    let m: u32 = bits as u32 % 1024;
    let resto: u32 = if exp == 31 {
        0x7f800000 + m * 8192
    } else if exp > 0 {
        (exp + 112) * 0x800000 + m * 8192
    } else if m == 0 {
        0
    } else {
        let mut x: u32 = m;
        let mut e: u32 = 0;
        let ghost mut p: int = 1;
        while x < 0x400
            invariant
                0 < x < 0x800,
                e <= 10,
                p >= 1,
                x >= p,
                p == decimal::pot2(e as int),
                levada(m as int, 0) == levada(x as int, e as int),
            decreases 0x800 - x,
        {
            proof {
                if e == 10 {
                    reveal_with_fuel(decimal::pot2, 11);
                    assert(decimal::pot2(10) == 1024);
                }
                p = 2 * p;
            }
            x = x * 2;
            e += 1;
        }
        (114 - e) * 0x800000 + (x % 1024) * 8192
    };
    sinal * 0x80000000 + resto
}

/// Um numero normal, um zero ou um infinito de meia precisao volta igual da precisao maior.
pub proof fn lei_meia(b: u16)
    requires
        0 < (b / 1024) % 32 < 31 || b % 1024 == 0,
    ensures
        meia_de(inteira_de(b) as u32) == b,
{
    let sinal = (b / 0x8000) as int;
    let e = ((b / 1024) % 32) as int;
    let m = (b % 1024) as int;
    let x = inteira_de(b);
    assert(b == sinal * 0x8000 + e * 1024 + m);
    assert(0 <= x < 0x100000000);
    if e == 31 {
        assert((x / 0x800000) % 256 == 255);
    } else if e > 0 {
        assert((x / 0x800000) % 256 == e + 112);
        assert(x % 0x800000 == m * 8192);
    }
}

// ---- Numeros ao acaso --------------------------------------------------------------------

/// A semente de um instante.
pub open spec fn semente_de(nanos: u64) -> u64 {
    nanos ^ 0xdeadbeefcafe1234u64
}

/// O numero que se segue a outro: tres deslocamentos e somas sem transporte.
pub open spec fn seguinte(s: u64) -> u64 {
    let a = s ^ (s << 13u64);
    let b = a ^ (a >> 7u64);
    b ^ (b << 17u64)
}

/// O proximo numero ao acaso. Sem semente, ela vem do instante.
pub fn aleatorio_u64(semente: &mut u64, nanos: u64) -> (r: u64)
    ensures
        r == seguinte(
            if *old(semente) == 0 {
                semente_de(nanos)
            } else {
                *old(semente)
            },
        ),
        *final(semente) == r,
{
    let s: u64 = if *semente == 0 {
        nanos ^ 0xdeadbeefcafe1234
    } else {
        *semente
    };
    let a: u64 = s ^ (s << 13u64);
    let b: u64 = a ^ (a >> 7u64);
    let c: u64 = b ^ (b << 17u64);
    *semente = c;
    c
}

/// De uma semente que nao e zero nunca se chega a zero, e duas sementes diferentes dao numeros
/// diferentes.
pub proof fn lei_aleatorio(s: u64, t: u64)
    requires
        s != 0,
        s != t,
    ensures
        seguinte(s) != 0,
        seguinte(s) != seguinte(t),
{
    assert(s != 0 ==> s ^ (s << 13u64) != 0) by (bit_vector);
    let a = s ^ (s << 13u64);
    assert(a != 0 ==> a ^ (a >> 7u64) != 0) by (bit_vector);
    let b = a ^ (a >> 7u64);
    assert(b != 0 ==> b ^ (b << 17u64) != 0) by (bit_vector);
    assert(s != t ==> s ^ (s << 13u64) != t ^ (t << 13u64)) by (bit_vector);
    let ta = t ^ (t << 13u64);
    assert(a != ta ==> a ^ (a >> 7u64) != ta ^ (ta >> 7u64)) by (bit_vector);
    let tb = ta ^ (ta >> 7u64);
    assert(b != tb ==> b ^ (b << 17u64) != tb ^ (tb << 17u64)) by (bit_vector);
}

} // verus!
