//! O resumo de cento e vinte e oito bits de uma sequencia de bytes.

use vstd::prelude::*;
use crate::texto;

verus! {

// ---- Contas -----------------------------------------------------------------------------

/// A soma, sem o que nao cabe em trinta e dois bits.
pub open spec fn soma(a: u32, b: u32) -> u32 {
    ((a + b) % 0x1_0000_0000) as u32
}

/// Os bits girados para a esquerda.
pub open spec fn girado(x: u32, n: u32) -> u32 {
    (x << n) | (x >> ((32 - n) as u32))
}

/// As constantes da rodada 1.
pub open spec fn constantes_1() -> Seq<u32> {
    seq![
        0xd76aa478u32, 0xe8c7b756u32, 0x242070dbu32, 0xc1bdceeeu32,
        0xf57c0fafu32, 0x4787c62au32, 0xa8304613u32, 0xfd469501u32,
        0x698098d8u32, 0x8b44f7afu32, 0xffff5bb1u32, 0x895cd7beu32,
        0x6b901122u32, 0xfd987193u32, 0xa679438eu32, 0x49b40821u32,
    ]
}

/// As constantes da rodada 2.
pub open spec fn constantes_2() -> Seq<u32> {
    seq![
        0xf61e2562u32, 0xc040b340u32, 0x265e5a51u32, 0xe9b6c7aau32,
        0xd62f105du32, 0x02441453u32, 0xd8a1e681u32, 0xe7d3fbc8u32,
        0x21e1cde6u32, 0xc33707d6u32, 0xf4d50d87u32, 0x455a14edu32,
        0xa9e3e905u32, 0xfcefa3f8u32, 0x676f02d9u32, 0x8d2a4c8au32,
    ]
}

/// As constantes da rodada 3.
pub open spec fn constantes_3() -> Seq<u32> {
    seq![
        0xfffa3942u32, 0x8771f681u32, 0x6d9d6122u32, 0xfde5380cu32,
        0xa4beea44u32, 0x4bdecfa9u32, 0xf6bb4b60u32, 0xbebfbc70u32,
        0x289b7ec6u32, 0xeaa127fau32, 0xd4ef3085u32, 0x04881d05u32,
        0xd9d4d039u32, 0xe6db99e5u32, 0x1fa27cf8u32, 0xc4ac5665u32,
    ]
}

/// As constantes da rodada 4.
pub open spec fn constantes_4() -> Seq<u32> {
    seq![
        0xf4292244u32, 0x432aff97u32, 0xab9423a7u32, 0xfc93a039u32,
        0x655b59c3u32, 0x8f0ccc92u32, 0xffeff47du32, 0x85845dd1u32,
        0x6fa87e4fu32, 0xfe2ce6e0u32, 0xa3014314u32, 0x4e0811a1u32,
        0xf7537e82u32, 0xbd3af235u32, 0x2ad7d2bbu32, 0xeb86d391u32,
    ]
}

/// A constante do passo `i`.
pub open spec fn constante(i: int) -> u32 {
    if i < 16 {
        constantes_1()[i]
    } else if i < 32 {
        constantes_2()[i - 16]
    } else if i < 48 {
        constantes_3()[i - 32]
    } else {
        constantes_4()[i - 48]
    }
}

/// Quanto se gira no passo `i`.
pub open spec fn giro(i: int) -> u32 {
    let k = i % 4;
    if i < 16 {
        if k == 0 {
            7
        } else if k == 1 {
            12
        } else if k == 2 {
            17
        } else {
            22
        }
    } else if i < 32 {
        if k == 0 {
            5
        } else if k == 1 {
            9
        } else if k == 2 {
            14
        } else {
            20
        }
    } else if i < 48 {
        if k == 0 {
            4
        } else if k == 1 {
            11
        } else if k == 2 {
            16
        } else {
            23
        }
    } else {
        if k == 0 {
            6
        } else if k == 1 {
            10
        } else if k == 2 {
            15
        } else {
            21
        }
    }
}

/// As quatro palavras do resumo.
pub struct Palavras {
    pub a: u32,
    pub b: u32,
    pub c: u32,
    pub d: u32,
}

/// A mistura do passo `i`.
pub open spec fn mistura(e: Palavras, i: int) -> u32 {
    if i < 16 {
        (e.b & e.c) | (!e.b & e.d)
    } else if i < 32 {
        (e.d & e.b) | (!e.d & e.c)
    } else if i < 48 {
        e.b ^ e.c ^ e.d
    } else {
        e.c ^ (e.b | !e.d)
    }
}

/// A palavra do bloco que entra no passo `i`.
pub open spec fn entrada(i: int) -> int {
    if i < 16 {
        i
    } else if i < 32 {
        (5 * i + 1) % 16
    } else if i < 48 {
        (3 * i + 5) % 16
    } else {
        (7 * i) % 16
    }
}

/// Um passo.
pub open spec fn passo(e: Palavras, m: Seq<u32>, i: int) -> Palavras {
    Palavras {
        a: e.d,
        b: soma(
            e.b,
            girado(soma(soma(soma(e.a, mistura(e, i)), constante(i)), m[entrada(i)]), giro(i)),
        ),
        c: e.b,
        d: e.c,
    }
}

/// Os primeiros `n` passos.
pub open spec fn passos(e: Palavras, m: Seq<u32>, n: int) -> Palavras
    decreases n,
{
    if n <= 0 {
        e
    } else {
        passo(passos(e, m, n - 1), m, n - 1)
    }
}

/// A palavra de quatro bytes a partir de `i`, o menos importante primeiro.
pub open spec fn palavra(b: Seq<u8>, i: int) -> u32 {
    (b[i] + b[i + 1] * 256 + b[i + 2] * 65536 + b[i + 3] * 16777216) as u32
}

/// As palavras do bloco `k`.
pub open spec fn bloco(b: Seq<u8>, k: int) -> Seq<u32> {
    Seq::new(16, |j: int| palavra(b, k * 64 + j * 4))
}

/// As palavras com mais um bloco.
pub open spec fn com_bloco(e: Palavras, m: Seq<u32>) -> Palavras {
    let r = passos(e, m, 64);
    Palavras { a: soma(e.a, r.a), b: soma(e.b, r.b), c: soma(e.c, r.c), d: soma(e.d, r.d) }
}

/// As palavras com que se comeca.
pub open spec fn iniciais() -> Palavras {
    Palavras { a: 0x67452301, b: 0xefcdab89, c: 0x98badcfe, d: 0x10325476 }
}

/// As palavras depois dos primeiros `n` blocos.
pub open spec fn blocos(b: Seq<u8>, n: int) -> Palavras
    decreases n,
{
    if n <= 0 {
        iniciais()
    } else {
        com_bloco(blocos(b, n - 1), bloco(b, n - 1))
    }
}

/// Os bytes com zeros ate faltarem oito para um bloco inteiro.
pub open spec fn com_zeros(b: Seq<u8>) -> Seq<u8>
    decreases 63 - (b.len() + 7) % 64,
{
    if b.len() % 64 == 56 {
        b
    } else {
        com_zeros(b.push(0))
    }
}

/// Os `k` bytes de um numero, o menos importante primeiro.
pub open spec fn bytes_de(n: int, k: nat) -> Seq<u8>
    decreases k,
{
    if k == 0 {
        Seq::empty()
    } else {
        seq![(n % 256) as u8] + bytes_de(n / 256, (k - 1) as nat)
    }
}

/// Os bytes como entram nos blocos: um sinal, zeros e quantos bits ha.
pub open spec fn preenchido(b: Seq<u8>) -> Seq<u8> {
    com_zeros(b.push(0x80)) + bytes_de((b.len() as int * 8) % 0x1_0000_0000_0000_0000, 8)
}

/// O resumo, como numero.
pub open spec fn resumo(b: Seq<u8>) -> int {
    let p = preenchido(b);
    let e = blocos(p, p.len() as int / 64);
    e.a + e.b * 0x1_0000_0000 + e.c * 0x1_0000_0000_0000_0000 + e.d * 0x1_0000_0000_0000_0000_0000_0000
}

/// O algarismo hexadecimal minusculo de valor `d`.
pub open spec fn hexa(d: int) -> char {
    if d < 10 {
        ((48 + d) as u8) as char
    } else {
        ((87 + d) as u8) as char
    }
}

/// Um numero em hexadecimal, sem zeros a esquerda.
pub open spec fn em_hexadecimal(n: int) -> Seq<char>
    decreases n,
{
    if n < 16 {
        seq![hexa(n)]
    } else {
        em_hexadecimal(n / 16).push(hexa(n % 16))
    }
}

// ---- Execucao ---------------------------------------------------------------------------

fn fazer_constantes_1() -> (v: Vec<u32>)
    ensures
        v@ == constantes_1(),
{
    let mut v: Vec<u32> = Vec::new();
    v.push(0xd76aa478);
    v.push(0xe8c7b756);
    v.push(0x242070db);
    v.push(0xc1bdceee);
    v.push(0xf57c0faf);
    v.push(0x4787c62a);
    v.push(0xa8304613);
    v.push(0xfd469501);
    v.push(0x698098d8);
    v.push(0x8b44f7af);
    v.push(0xffff5bb1);
    v.push(0x895cd7be);
    v.push(0x6b901122);
    v.push(0xfd987193);
    v.push(0xa679438e);
    v.push(0x49b40821);
    assert(v@ =~= constantes_1());
    v
}

fn fazer_constantes_2() -> (v: Vec<u32>)
    ensures
        v@ == constantes_2(),
{
    let mut v: Vec<u32> = Vec::new();
    v.push(0xf61e2562);
    v.push(0xc040b340);
    v.push(0x265e5a51);
    v.push(0xe9b6c7aa);
    v.push(0xd62f105d);
    v.push(0x02441453);
    v.push(0xd8a1e681);
    v.push(0xe7d3fbc8);
    v.push(0x21e1cde6);
    v.push(0xc33707d6);
    v.push(0xf4d50d87);
    v.push(0x455a14ed);
    v.push(0xa9e3e905);
    v.push(0xfcefa3f8);
    v.push(0x676f02d9);
    v.push(0x8d2a4c8a);
    assert(v@ =~= constantes_2());
    v
}

fn fazer_constantes_3() -> (v: Vec<u32>)
    ensures
        v@ == constantes_3(),
{
    let mut v: Vec<u32> = Vec::new();
    v.push(0xfffa3942);
    v.push(0x8771f681);
    v.push(0x6d9d6122);
    v.push(0xfde5380c);
    v.push(0xa4beea44);
    v.push(0x4bdecfa9);
    v.push(0xf6bb4b60);
    v.push(0xbebfbc70);
    v.push(0x289b7ec6);
    v.push(0xeaa127fa);
    v.push(0xd4ef3085);
    v.push(0x04881d05);
    v.push(0xd9d4d039);
    v.push(0xe6db99e5);
    v.push(0x1fa27cf8);
    v.push(0xc4ac5665);
    assert(v@ =~= constantes_3());
    v
}

fn fazer_constantes_4() -> (v: Vec<u32>)
    ensures
        v@ == constantes_4(),
{
    let mut v: Vec<u32> = Vec::new();
    v.push(0xf4292244);
    v.push(0x432aff97);
    v.push(0xab9423a7);
    v.push(0xfc93a039);
    v.push(0x655b59c3);
    v.push(0x8f0ccc92);
    v.push(0xffeff47d);
    v.push(0x85845dd1);
    v.push(0x6fa87e4f);
    v.push(0xfe2ce6e0);
    v.push(0xa3014314);
    v.push(0x4e0811a1);
    v.push(0xf7537e82);
    v.push(0xbd3af235);
    v.push(0x2ad7d2bb);
    v.push(0xeb86d391);
    assert(v@ =~= constantes_4());
    v
}

fn somar(a: u32, b: u32) -> (r: u32)
    ensures
        r == soma(a, b),
{
    ((a as u64 + b as u64) % 0x1_0000_0000) as u32
}

fn girar(x: u32, n: u32) -> (r: u32)
    requires
        0 < n < 32,
    ensures
        r == girado(x, n),
{
    (x << n) | (x >> (32 - n))
}

fn quanto_girar(i: usize) -> (r: u32)
    ensures
        r == giro(i as int),
        0 < r < 32,
{
    let k = i % 4;
    if i < 16 {
        if k == 0 {
            7
        } else if k == 1 {
            12
        } else if k == 2 {
            17
        } else {
            22
        }
    } else if i < 32 {
        if k == 0 {
            5
        } else if k == 1 {
            9
        } else if k == 2 {
            14
        } else {
            20
        }
    } else if i < 48 {
        if k == 0 {
            4
        } else if k == 1 {
            11
        } else if k == 2 {
            16
        } else {
            23
        }
    } else {
        if k == 0 {
            6
        } else if k == 1 {
            10
        } else if k == 2 {
            15
        } else {
            21
        }
    }
}

fn misturar(e: &Palavras, i: usize) -> (r: u32)
    ensures
        r == mistura(*e, i as int),
{
    if i < 16 {
        (e.b & e.c) | (!e.b & e.d)
    } else if i < 32 {
        (e.d & e.b) | (!e.d & e.c)
    } else if i < 48 {
        e.b ^ e.c ^ e.d
    } else {
        e.c ^ (e.b | !e.d)
    }
}

fn qual_entrada(i: usize) -> (r: usize)
    requires
        i < 64,
    ensures
        r == entrada(i as int),
        r < 16,
{
    if i < 16 {
        i
    } else if i < 32 {
        (5 * i + 1) % 16
    } else if i < 48 {
        (3 * i + 5) % 16
    } else {
        (7 * i) % 16
    }
}

/// As constantes de todos os passos.
spec fn todas() -> Seq<u32> {
    constantes_1() + constantes_2() + constantes_3() + constantes_4()
}

fn fazer_todas() -> (v: Vec<u32>)
    ensures
        v@ == todas(),
        v@.len() == 64,
        forall|i: int| 0 <= i < 64 ==> #[trigger] v@[i] == constante(i),
{
    let mut v = fazer_constantes_1();
    let mut b = fazer_constantes_2();
    let mut c = fazer_constantes_3();
    let mut d = fazer_constantes_4();
    v.append(&mut b);
    v.append(&mut c);
    v.append(&mut d);
    v
}

fn juntar_bloco(e: Palavras, m: &Vec<u32>, ks: &Vec<u32>) -> (r: Palavras)
    requires
        m@.len() == 16,
        ks@.len() == 64,
        forall|i: int| 0 <= i < 64 ==> #[trigger] ks@[i] == constante(i),
    ensures
        r == com_bloco(e, m@),
{
    let mut x = Palavras { a: e.a, b: e.b, c: e.c, d: e.d };
    let mut i: usize = 0;
    while i < 64
        invariant
            i <= 64,
            m@.len() == 16,
            ks@.len() == 64,
            forall|k: int| 0 <= k < 64 ==> #[trigger] ks@[k] == constante(k),
            x == passos(e, m@, i as int),
        decreases 64 - i,
    {
        let f = misturar(&x, i);
        assert(ks@[i as int] == constante(i as int));
        let t = somar(somar(somar(x.a, f), ks[i]), m[qual_entrada(i)]);
        let b = somar(x.b, girar(t, quanto_girar(i)));
        x = Palavras { a: x.d, b, c: x.b, d: x.c };
        i += 1;
    }
    Palavras { a: somar(e.a, x.a), b: somar(e.b, x.b), c: somar(e.c, x.c), d: somar(e.d, x.d) }
}

fn ler_bloco(b: &Vec<u8>, k: usize) -> (r: Vec<u32>)
    requires
        k * 64 + 64 <= b@.len(),
    ensures
        r@ == bloco(b@, k as int),
{
    let mut r: Vec<u32> = Vec::new();
    let n = b.len();
    let mut j: usize = 0;
    while j < 16
        invariant
            j <= 16,
            n == b@.len(),
            k * 64 + 64 <= n,
            r@.len() == j,
            forall|i: int| 0 <= i < j ==> #[trigger] r@[i] == palavra(b@, k * 64 + i * 4),
        decreases 16 - j,
    {
        let i = k * 64 + j * 4;
        let w = b[i] as u32 + b[i + 1] as u32 * 256 + b[i + 2] as u32 * 65536 + b[i + 3] as u32 * 16777216;
        r.push(w);
        j += 1;
    }
    assert(r@ =~= bloco(b@, k as int));
    r
}

proof fn lema_zeros(b: Seq<u8>)
    ensures
        com_zeros(b).len() % 64 == 56,
    decreases 63 - (b.len() + 7) % 64,
{
    if b.len() % 64 != 56 {
        lema_zeros(b.push(0));
    }
}

proof fn lema_bytes(n: int, k: nat)
    ensures
        bytes_de(n, k).len() == k,
    decreases k,
{
    if k > 0 {
        lema_bytes(n / 256, (k - 1) as nat);
    }
}

fn preencher(dados: &[u8]) -> (r: Vec<u8>)
    ensures
        r@ == preenchido(dados@),
        r@.len() % 64 == 0,
{
    let mut v: Vec<u8> = Vec::new();
    let mut i: usize = 0;
    while i < dados.len()
        invariant
            i <= dados@.len(),
            v@ == dados@.take(i as int),
        decreases dados@.len() - i,
    {
        v.push(dados[i]);
        assert(v@ =~= dados@.take(i + 1));
        i += 1;
    }
    assert(v@ =~= dados@);
    v.push(0x80);
    let ghost alvo = com_zeros(v@);
    proof {
        lema_zeros(v@);
    }
    while v.len() % 64 != 56
        invariant
            alvo == com_zeros(v@),
        decreases 63 - (v@.len() + 7) % 64,
    {
        v.push(0);
    }
    let total = ((dados.len() as u128) * 8) % 0x1_0000_0000_0000_0000;
    let mut n: u128 = total;
    let mut k: u8 = 0;
    proof {
        lema_bytes(total as int, 8);
        assert(alvo + bytes_de(total as int, 8) =~= v@ + bytes_de(total as int, 8));
    }
    while k < 8
        invariant
            k <= 8,
            alvo.len() % 64 == 56,
            v@.len() == alvo.len() + k,
            alvo + bytes_de(total as int, 8) == v@ + bytes_de(n as int, (8 - k) as nat),
        decreases 8 - k,
    {
        let ghost antes = v@;
        v.push((n % 256) as u8);
        assert(antes + (seq![(n % 256) as u8] + bytes_de(n as int / 256, (7 - k) as nat)) =~= v@ + bytes_de(
            n as int / 256,
            (7 - k) as nat,
        ));
        n = n / 256;
        k += 1;
    }
    assert(v@ + bytes_de(n as int, 0) =~= v@);
    v
}

/// Calcula o resumo.
pub fn md5_simples(dados: &[u8]) -> (r: u128)
    ensures
        r == resumo(dados@),
{
    let b = preencher(dados);
    let ks = fazer_todas();
    let n = b.len() / 64;
    let mut e = Palavras { a: 0x67452301, b: 0xefcdab89, c: 0x98badcfe, d: 0x10325476 };
    let mut k: usize = 0;
    while k < n
        invariant
            k <= n,
            n == b@.len() / 64,
            ks@.len() == 64,
            forall|i: int| 0 <= i < 64 ==> #[trigger] ks@[i] == constante(i),
            e == blocos(b@, k as int),
        decreases n - k,
    {
        let m = ler_bloco(&b, k);
        e = juntar_bloco(e, &m, &ks);
        k += 1;
    }
    e.a as u128 + e.b as u128 * 0x1_0000_0000 + e.c as u128 * 0x1_0000_0000_0000_0000 + e.d as u128
        * 0x1_0000_0000_0000_0000_0000_0000
}

fn algarismo(d: u8) -> (r: char)
    requires
        d < 16,
    ensures
        r == hexa(d as int),
{
    if d < 10 {
        (48 + d) as char
    } else {
        (87 + d) as char
    }
}

/// Escreve um numero em hexadecimal.
pub fn escrever_hexadecimal(n: u128) -> (r: String)
    ensures
        r@ == em_hexadecimal(n as int),
{
    let mut v: Vec<char> = Vec::new();
    let mut x: u128 = n;
    v.push(algarismo((x % 16) as u8));
    assert(v@.reverse() =~= seq![hexa(n as int % 16)]);
    proof {
        if n >= 16 {
            assert(em_hexadecimal(n as int) =~= em_hexadecimal(n as int / 16) + v@.reverse());
        } else {
            assert(em_hexadecimal(n as int) =~= v@.reverse());
        }
    }
    while x >= 16
        invariant
            x >= 16 ==> em_hexadecimal(n as int) == em_hexadecimal(x as int / 16) + v@.reverse(),
            x < 16 ==> em_hexadecimal(n as int) == v@.reverse(),
        decreases x,
    {
        x = x / 16;
        let ghost antes = v@;
        v.push(algarismo((x % 16) as u8));
        assert(v@.reverse() =~= seq![hexa(x as int % 16)] + antes.reverse());
        proof {
            if x >= 16 {
                assert(em_hexadecimal(x as int) + antes.reverse() =~= em_hexadecimal(x as int / 16) + v@.reverse());
            } else {
                assert(em_hexadecimal(x as int) + antes.reverse() =~= v@.reverse());
            }
        }
    }
    let mut r: Vec<char> = Vec::new();
    let mut i: usize = v.len();
    while i > 0
        invariant
            i <= v@.len(),
            r@.len() == v@.len() - i,
            forall|k: int| 0 <= k < v@.len() - i ==> #[trigger] r@[k] == v@[v@.len() - 1 - k],
        decreases i,
    {
        r.push(v[i - 1]);
        i -= 1;
    }
    assert(r@ =~= v@.reverse());
    texto::de_caracteres(r.as_slice())
}

} // verus!
