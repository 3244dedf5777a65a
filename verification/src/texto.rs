//! Texto como sequencia de caracteres: as operacoes de que as outras partes se servem.

use vstd::prelude::*;

verus! {

/// `String::push`: acrescenta um caractere ao fim.
pub assume_specification[ String::push ](s: &mut String, c: char)
    ensures
        final(s)@ == old(s)@.push(c),
;

/// `str::eq`: dois textos sao iguais quando tem os mesmos caracteres.
pub assume_specification[ <str as PartialEq>::eq ](a: &str, b: &str) -> (r: bool)
    ensures
        r == (a@ == b@),
;

/// Os caracteres de um texto.
pub fn caracteres(s: &str) -> (r: Vec<char>)
    ensures
        r@ == s@,
{
    let mut r: Vec<char> = Vec::new();
    let ghost todos = s@;
    for c in it: s.chars()
        invariant
            r@ == todos.take(it.index()),
            it.seq() == todos,
    {
        r.push(c);
        assert(todos.take(it.index() + 1) == todos.take(it.index()).push(c));
    }
    assert(todos.take(todos.len() as int) == todos);
    r
}

/// O texto que tem esses caracteres.
pub fn de_caracteres(v: &[char]) -> (r: String)
    ensures
        r@ == v@,
{
    let mut r = String::new();
    for i in 0..v.len()
        invariant
            r@ == v@.take(i as int),
    {
        r.push(v[i]);
        assert(v@.take(i + 1) == v@.take(i as int).push(v@[i as int]));
    }
    assert(v@.take(v@.len() as int) == v@);
    r
}

/// A posicao do primeiro `c` a partir de `i`, ou o comprimento se nao ha nenhum.
pub open spec fn proximo(s: Seq<char>, c: char, i: int) -> int
    decreases s.len() - i,
{
    if i < 0 || i >= s.len() {
        s.len() as int
    } else if s[i] == c {
        i
    } else {
        proximo(s, c, i + 1)
    }
}

pub proof fn lema_proximo(s: Seq<char>, c: char, i: int)
    requires
        0 <= i <= s.len(),
    ensures
        i <= proximo(s, c, i) <= s.len(),
        proximo(s, c, i) < s.len() ==> s[proximo(s, c, i)] == c,
        forall|k: int| i <= k < proximo(s, c, i) ==> s[k] != c,
    decreases s.len() - i,
{
    if i < s.len() && s[i] != c {
        lema_proximo(s, c, i + 1);
    }
}

/// Procura um caractere a partir de uma posicao.
pub fn achar(s: &[char], c: char, de: usize) -> (r: usize)
    requires
        de <= s@.len(),
    ensures
        r == proximo(s@, c, de as int),
        de <= r <= s@.len(),
{
    let mut i: usize = de;
    while i < s.len() && s[i] != c
        invariant
            de <= i <= s@.len(),
            proximo(s@, c, de as int) == proximo(s@, c, i as int),
        decreases s@.len() - i,
    {
        i += 1;
    }
    i
}

/// Uma linha sem o `\r` que precede a sua quebra.
pub open spec fn sem_retorno(s: Seq<char>) -> Seq<char> {
    if s.len() > 0 && s.last() == '\r' {
        s.drop_last()
    } else {
        s
    }
}

/// As linhas de um texto a partir da posicao `i`: cada uma vai ate a proxima quebra,
/// sem ela, e a ultima quebra nao abre linha.
pub open spec fn linhas(s: Seq<char>, i: int) -> Seq<Seq<char>>
    decreases s.len() - i,
{
    if i < 0 || i >= s.len() {
        Seq::empty()
    } else {
        proof {
            lema_proximo(s, '\n', i);
        }
        let f = proximo(s, '\n', i);
        if f >= s.len() {
            seq![s.subrange(i, s.len() as int)]
        } else {
            seq![sem_retorno(s.subrange(i, f))] + linhas(s, f + 1)
        }
    }
}

/// Nenhuma linha e mais longa do que o texto.
pub proof fn lema_comprimento_linhas(s: Seq<char>, i: int)
    requires
        0 <= i <= s.len(),
    ensures
        forall|k: int| 0 <= k < linhas(s, i).len() ==> #[trigger] linhas(s, i)[k].len() <= s.len(),
    decreases s.len() - i,
{
    if i < s.len() {
        lema_proximo(s, '\n', i);
        let f = proximo(s, '\n', i);
        if f < s.len() {
            lema_comprimento_linhas(s, f + 1);
            assert forall|k: int| 0 <= k < linhas(s, i).len() implies #[trigger] linhas(s, i)[k].len()
                <= s.len() by {
                if k > 0 {
                    assert(linhas(s, i)[k] == linhas(s, f + 1)[k - 1]);
                }
            }
        }
    }
}

/// A visao de uma lista de textos.
pub open spec fn textos(v: Seq<String>) -> Seq<Seq<char>> {
    v.map(|i: int, s: String| s@)
}

/// As linhas de um texto, como `str::lines` as entrega.
pub fn separar_linhas(s: &[char]) -> (r: Vec<String>)
    ensures
        textos(r@) == linhas(s@, 0),
{
    let mut r: Vec<String> = Vec::new();
    let mut i: usize = 0;
    proof {
        assert(textos(r@) + linhas(s@, 0) == linhas(s@, 0));
    }
    while i < s.len()
        invariant
            i <= s@.len(),
            textos(r@) + linhas(s@, i as int) == linhas(s@, 0),
        decreases s@.len() - i,
    {
        let f = achar(s, '\n', i);
        let ghost antes = r@;
        if f >= s.len() {
            let l = de_caracteres(vstd::slice::slice_subrange(s, i, f));
            r.push(l);
            proof {
                assert(textos(r@) == textos(antes).push(l@));
                assert(linhas(s@, i as int) == seq![l@]);
                assert(linhas(s@, f as int) == Seq::<Seq<char>>::empty());
                assert(textos(r@) + linhas(s@, f as int) == textos(antes) + linhas(s@, i as int));
            }
            i = f;
        } else {
            let fim: usize = if f > i && s[f - 1] == '\r' {
                f - 1
            } else {
                f
            };
            let l = de_caracteres(vstd::slice::slice_subrange(s, i, fim));
            r.push(l);
            proof {
                assert(l@ == sem_retorno(s@.subrange(i as int, f as int)));
                assert(textos(r@) == textos(antes).push(l@));
                assert(linhas(s@, i as int) == seq![l@] + linhas(s@, f + 1));
                assert(textos(r@) + linhas(s@, f + 1) == textos(antes) + linhas(s@, i as int));
            }
            i = f + 1;
        }
    }
    assert(linhas(s@, i as int) == Seq::<Seq<char>>::empty());
    assert(textos(r@) == linhas(s@, 0));
    r
}

/// A propriedade White_Space do Unicode.
pub open spec fn espaco(c: char) -> bool {
    let n = c as u32;
    ||| 0x09 <= n <= 0x0d
    ||| n == 0x20
    ||| n == 0x85
    ||| n == 0xa0
    ||| n == 0x1680
    ||| 0x2000 <= n <= 0x200a
    ||| n == 0x2028
    ||| n == 0x2029
    ||| n == 0x202f
    ||| n == 0x205f
    ||| n == 0x3000
}

/// Se o caractere e um espaco em branco.
pub fn eh_espaco(c: char) -> (r: bool)
    ensures
        r == espaco(c),
{
    let n: u32 = c as u32;
    (0x09 <= n && n <= 0x0d) || n == 0x20 || n == 0x85 || n == 0xa0 || n == 0x1680 || (0x2000 <= n
        && n <= 0x200a) || n == 0x2028 || n == 0x2029 || n == 0x202f || n == 0x205f || n == 0x3000
}

/// O primeiro indice a partir de `i` que nao e espaco.
pub open spec fn inicio_util(s: Seq<char>, i: int) -> int
    decreases s.len() - i,
{
    if i < 0 || i >= s.len() {
        s.len() as int
    } else if espaco(s[i]) {
        inicio_util(s, i + 1)
    } else {
        i
    }
}

/// O fim do texto `s[..f]` sem os espacos finais.
pub open spec fn fim_util(s: Seq<char>, f: int) -> int
    decreases f,
{
    if f <= 0 || f > s.len() {
        0
    } else if espaco(s[f - 1]) {
        fim_util(s, f - 1)
    } else {
        f
    }
}

/// O texto sem os espacos iniciais.
pub open spec fn aparado_inicio(s: Seq<char>) -> Seq<char> {
    s.skip(inicio_util(s, 0))
}

/// O texto sem os espacos finais.
pub open spec fn aparado_fim(s: Seq<char>) -> Seq<char> {
    s.take(fim_util(s, s.len() as int))
}

/// O texto sem espacos nas pontas.
pub open spec fn aparado(s: Seq<char>) -> Seq<char> {
    aparado_fim(aparado_inicio(s))
}

pub proof fn lema_inicio_util(s: Seq<char>, i: int)
    requires
        0 <= i <= s.len(),
    ensures
        i <= inicio_util(s, i) <= s.len(),
        inicio_util(s, i) < s.len() ==> !espaco(s[inicio_util(s, i)]),
        forall|k: int| i <= k < inicio_util(s, i) ==> espaco(s[k]),
    decreases s.len() - i,
{
    if i < s.len() && espaco(s[i]) {
        lema_inicio_util(s, i + 1);
    }
}

pub proof fn lema_fim_util(s: Seq<char>, f: int)
    requires
        0 <= f <= s.len(),
    ensures
        0 <= fim_util(s, f) <= f,
        fim_util(s, f) > 0 ==> !espaco(s[fim_util(s, f) - 1]),
        forall|k: int| fim_util(s, f) <= k < f ==> espaco(s[k]),
    decreases f,
{
    if f > 0 && espaco(s[f - 1]) {
        lema_fim_util(s, f - 1);
    }
}

/// Um texto aparado e um pedaco do texto, e nao tem espacos nas pontas.
pub proof fn lema_aparado_pontas(s: Seq<char>) -> (r: (int, int))
    ensures
        0 <= r.0 <= r.1 <= s.len(),
        aparado(s) == s.subrange(r.0, r.1),
        aparado(s).len() > 0 ==> !espaco(aparado(s)[0]) && !espaco(aparado(s).last()),
{
    lema_inicio_util(s, 0);
    let i = inicio_util(s, 0);
    let t = aparado_inicio(s);
    lema_fim_util(t, t.len() as int);
    let f = fim_util(t, t.len() as int);
    assert(aparado(s) =~= s.subrange(i, i + f));
    (i, i + f)
}

/// O que ha entre espacos a esquerda e o fim, sem espacos nas pontas, e o texto aparado.
pub proof fn lema_aparado_recuado(s: Seq<char>, a: int)
    requires
        0 <= a < s.len(),
        forall|k: int| 0 <= k < a ==> espaco(#[trigger] s[k]),
        !espaco(s[a]),
        !espaco(s.last()),
    ensures
        aparado(s) == s.skip(a),
{
    lema_inicio_util(s, 0);
    let i = inicio_util(s, 0);
    if i < a {
        assert(espaco(s[i]));
    }
    if i > a {
        assert(espaco(s[a]));
    }
    let t = s.skip(a);
    assert(t.last() == s.last());
    assert(fim_util(t, t.len() as int) == t.len());
    assert(t.take(t.len() as int) =~= t);
}

/// O primeiro indice que nao e espaco.
pub fn pular_brancos(s: &[char]) -> (r: usize)
    ensures
        r == inicio_util(s@, 0),
        r <= s@.len(),
{
    let mut i: usize = 0;
    while i < s.len() && eh_espaco(s[i])
        invariant
            i <= s@.len(),
            inicio_util(s@, 0) == inicio_util(s@, i as int),
        decreases s@.len() - i,
    {
        i += 1;
    }
    i
}

/// O fim do texto sem os espacos finais.
pub fn cortar_brancos(s: &[char]) -> (r: usize)
    ensures
        r == fim_util(s@, s@.len() as int),
        r <= s@.len(),
{
    let mut f: usize = s.len();
    while f > 0 && eh_espaco(s[f - 1])
        invariant
            f <= s@.len(),
            fim_util(s@, s@.len() as int) == fim_util(s@, f as int),
        decreases f,
    {
        f -= 1;
    }
    f
}

/// `str::trim_start`.
pub fn aparar_inicio(s: &[char]) -> (r: &[char])
    ensures
        r@ == aparado_inicio(s@),
{
    let i = pular_brancos(s);
    vstd::slice::slice_subrange(s, i, s.len())
}

/// `str::trim_end`.
pub fn aparar_fim(s: &[char]) -> (r: &[char])
    ensures
        r@ == aparado_fim(s@),
{
    let f = cortar_brancos(s);
    vstd::slice::slice_subrange(s, 0, f)
}

/// `str::trim`.
pub fn aparar(s: &[char]) -> (r: &[char])
    ensures
        r@ == aparado(s@),
{
    aparar_fim(aparar_inicio(s))
}

/// O algarismo decimal de valor `d`.
pub open spec fn algarismo(d: int) -> char {
    ((0x30 + d) as u8) as char
}

/// Os algarismos decimais de um natural.
pub open spec fn decimal(n: nat) -> Seq<char>
    decreases n,
{
    if n < 10 {
        seq![algarismo(n as int)]
    } else {
        decimal(n / 10).push(algarismo((n % 10) as int))
    }
}

/// Um natural escreve-se com um ou mais algarismos.
pub proof fn lema_decimal_algarismos(n: nat)
    ensures
        decimal(n).len() >= 1,
        forall|i: int| 0 <= i < decimal(n).len() ==> '0' <= #[trigger] decimal(n)[i] <= '9',
    decreases n,
{
    if n >= 10 {
        lema_decimal_algarismos(n / 10);
    }
}

/// Um inteiro em decimal, com `-` se for negativo.
pub open spec fn decimal_int(n: int) -> Seq<char> {
    if n < 0 {
        seq!['-'] + decimal((-n) as nat)
    } else {
        decimal(n as nat)
    }
}

/// Um natural em decimal.
pub fn natural(n: u64) -> (r: String)
    ensures
        r@ == decimal(n as nat),
    decreases n,
{
    let d: u8 = (n % 10) as u8;
    let c: char = (48 + d) as char;
    if n < 10 {
        let mut r = String::new();
        r.push(c);
        assert(r@ == seq![c]);
        r
    } else {
        let mut r = natural(n / 10);
        r.push(c);
        r
    }
}

/// Um inteiro em decimal.
pub fn inteiro(n: i64) -> (r: String)
    ensures
        r@ == decimal_int(n as int),
{
    if n < 0 {
        let m: u64 = if n == i64::MIN {
            0x8000_0000_0000_0000
        } else {
            (-n) as u64
        };
        let d = natural(m);
        let mut r = String::new();
        r.push('-');
        r.append(d.as_str());
        assert(r@ == seq!['-'] + decimal((-n) as nat));
        r
    } else {
        natural(n as u64)
    }
}

} // verus!
