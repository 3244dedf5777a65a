//! Busca, separacao e troca em textos.

use vstd::prelude::*;
use vstd::utf8;
use crate::texto;

verus! {

// ---- Bytes ----------------------------------------------------------------------------

/// O texto de uma sequencia de bytes, com o caractere de substituicao no lugar do que nao
/// e UTF-8.
pub uninterp spec fn texto_de(b: Seq<u8>) -> Seq<char>;

/// `String::from_utf8_lossy`: se os bytes sao UTF-8, o texto e o que eles codificam.
#[verifier::external_body]
pub(crate) fn de_bytes(b: &[u8]) -> (r: String)
    ensures
        r@ == texto_de(b@),
        utf8::valid_utf8(b@) ==> r@ == utf8::decode_utf8(b@),
{
    String::from_utf8_lossy(b).into_owned()
}

/// O texto todo em minusculas, pelas regras do Unicode.
pub uninterp spec fn minusculas_de(s: Seq<char>) -> Seq<char>;

/// `str::to_lowercase`.
#[verifier::external_body]
pub(crate) fn minusculas(s: &str) -> (r: String)
    ensures
        r@ == minusculas_de(s@),
{
    s.to_lowercase()
}

/// O texto todo em maiusculas, pelas regras do Unicode.
pub uninterp spec fn maiusculas_de(s: Seq<char>) -> Seq<char>;

/// `str::to_uppercase`.
#[verifier::external_body]
pub(crate) fn maiusculas(s: &str) -> (r: String)
    ensures
        r@ == maiusculas_de(s@),
{
    s.to_uppercase()
}

/// Acrescenta a uma lista de bytes os de um texto.
pub fn acrescentar_texto(v: &mut Vec<u8>, s: &str)
    ensures
        final(v)@ == old(v)@ + utf8::encode_utf8(s@),
{
    let b = s.as_bytes();
    acrescentar_bytes(v, b);
}

/// Acrescenta bytes a uma lista.
pub fn acrescentar_bytes(v: &mut Vec<u8>, b: &[u8])
    ensures
        final(v)@ == old(v)@ + b@,
{
    let ghost antes = v@;
    for i in 0..b.len()
        invariant
            v@ == antes + b@.take(i as int),
    {
        v.push(b[i]);
        assert(b@.take(i + 1) == b@.take(i as int).push(b@[i as int]));
    }
    assert(b@.take(b@.len() as int) == b@);
}

/// Os bytes de um trecho.
pub fn copia(b: &[u8]) -> (r: Vec<u8>)
    ensures
        r@ == b@,
{
    let mut r: Vec<u8> = Vec::new();
    acrescentar_bytes(&mut r, b);
    r
}

// ---- Ocorrencias ----------------------------------------------------------------------

/// Se `p` ocorre em `s` na posicao `i`.
pub open spec fn ocorre<T>(s: Seq<T>, p: Seq<T>, i: int) -> bool {
    0 <= i && i + p.len() <= s.len() && s.subrange(i, i + p.len()) == p
}

/// A primeira ocorrencia de `p` em `s` a partir de `i`.
pub open spec fn primeira<T>(s: Seq<T>, p: Seq<T>, i: int) -> Option<int>
    decreases s.len() + 1 - i,
{
    if i < 0 || i + p.len() > s.len() {
        None
    } else if ocorre(s, p, i) {
        Some(i)
    } else {
        primeira(s, p, i + 1)
    }
}

/// A primeira ocorrencia ocorre mesmo, e nao ha outra antes dela.
pub proof fn lema_primeira<T>(s: Seq<T>, p: Seq<T>, i: int)
    requires
        0 <= i,
    ensures
        match primeira(s, p, i) {
            Some(k) => i <= k && ocorre(s, p, k) && forall|j: int| i <= j < k ==> !ocorre(s, p, j),
            None => forall|j: int| i <= j ==> !ocorre(s, p, j),
        },
    decreases s.len() + 1 - i,
{
    if i + p.len() <= s.len() && !ocorre(s, p, i) {
        lema_primeira(s, p, i + 1);
    }
}

/// Se `s` comeca por `p`.
pub open spec fn comeca<T>(s: Seq<T>, p: Seq<T>) -> bool {
    ocorre(s, p, 0)
}

/// Se `s` acaba em `p`.
pub open spec fn termina<T>(s: Seq<T>, p: Seq<T>) -> bool {
    ocorre(s, p, s.len() - p.len())
}

/// Se `p` ocorre em algum lugar de `s`.
pub open spec fn contem<T>(s: Seq<T>, p: Seq<T>) -> bool {
    primeira(s, p, 0) is Some
}

pub fn ocorre_em(s: &[char], p: &[char], i: usize) -> (r: bool)
    ensures
        r == ocorre(s@, p@, i as int),
{
    if i > s.len() || p.len() > s.len() - i {
        return false;
    }
    for k in 0..p.len()
        invariant
            i + p@.len() <= s@.len(),
            s@.len() == s.len(),
            forall|j: int| 0 <= j < k ==> s@[i + j] == p@[j],
    {
        if s[i + k] != p[k] {
            assert(s@.subrange(i as int, i + p@.len())[k as int] != p@[k as int]);
            return false;
        }
    }
    assert(s@.subrange(i as int, i + p@.len()) =~= p@);
    true
}

/// Procura um texto a partir de uma posicao.
pub fn achar_texto(s: &[char], p: &[char], de: usize) -> (r: Option<usize>)
    ensures
        match r {
            Some(k) => primeira(s@, p@, de as int) == Some(k as int) && de <= k && k + p@.len() <= s@.len(),
            None => primeira(s@, p@, de as int) is None,
        },
{
    let mut i: usize = de;
    while i <= s.len() && p.len() <= s.len() - i
        invariant
            de <= i,
            primeira(s@, p@, de as int) == primeira(s@, p@, i as int),
        decreases s@.len() + 1 - i,
    {
        if ocorre_em(s, p, i) {
            return Some(i);
        }
        assert(p@.len() == 0 ==> s@.subrange(i as int, i + p@.len()) =~= p@);
        if i == s.len() {
            return None;
        }
        i += 1;
    }
    None
}

/// Procura bytes a partir de uma posicao.
pub fn achar_bytes(s: &[u8], p: &[u8], de: usize) -> (r: Option<usize>)
    ensures
        match r {
            Some(k) => primeira(s@, p@, de as int) == Some(k as int) && de <= k && k + p@.len() <= s@.len(),
            None => primeira(s@, p@, de as int) is None,
        },
{
    let mut i: usize = de;
    while i <= s.len() && p.len() <= s.len() - i
        invariant
            de <= i,
            primeira(s@, p@, de as int) == primeira(s@, p@, i as int),
        decreases s@.len() + 1 - i,
    {
        let mut k: usize = 0;
        while k < p.len() && s[i + k] == p[k]
            invariant
                k <= p@.len(),
                i + p@.len() <= s@.len(),
                s@.len() == s.len(),
                forall|j: int| 0 <= j < k ==> s@[i + j] == p@[j],
            decreases p@.len() - k,
        {
            k += 1;
        }
        if k == p.len() {
            assert(s@.subrange(i as int, i + p@.len()) =~= p@);
            return Some(i);
        }
        assert(s@.subrange(i as int, i + p@.len())[k as int] != p@[k as int]);
        if i == s.len() {
            return None;
        }
        i += 1;
    }
    None
}

pub fn comeca_com(s: &[char], p: &[char]) -> (r: bool)
    ensures
        r == comeca(s@, p@),
{
    ocorre_em(s, p, 0)
}

pub fn termina_com(s: &[char], p: &[char]) -> (r: bool)
    ensures
        r == termina(s@, p@),
{
    s.len() >= p.len() && ocorre_em(s, p, s.len() - p.len())
}

/// Se um texto contem outro.
pub fn contem_texto(s: &str, p: &str) -> (r: bool)
    ensures
        r == contem(s@, p@),
{
    let a = texto::caracteres(s);
    let b = texto::caracteres(p);
    achar_texto(&a, &b, 0).is_some()
}

// ---- Separacao ------------------------------------------------------------------------

/// As partes de um texto entre as ocorrencias de um caractere, a partir da posicao `i`.
pub open spec fn partes(s: Seq<char>, c: char, i: int) -> Seq<Seq<char>>
    decreases s.len() - i,
{
    if i < 0 || i > s.len() {
        Seq::empty()
    } else {
        proof {
            texto::lema_proximo(s, c, i);
        }
        let f = texto::proximo(s, c, i);
        if f >= s.len() {
            seq![s.subrange(i, s.len() as int)]
        } else {
            seq![s.subrange(i, f)] + partes(s, c, f + 1)
        }
    }
}

/// `str::split` por um caractere.
pub fn separar(s: &[char], c: char) -> (r: Vec<String>)
    ensures
        texto::textos(r@) == partes(s@, c, 0),
        r@.len() > 0,
{
    let mut r: Vec<String> = Vec::new();
    let mut i: usize = 0;
    assert(texto::textos(r@) + partes(s@, c, 0) == partes(s@, c, 0));
    loop
        invariant
            i <= s@.len(),
            texto::textos(r@) + partes(s@, c, i as int) == partes(s@, c, 0),
        decreases s@.len() - i,
    {
        let f = texto::achar(s, c, i);
        let ghost antes = r@;
        let l = texto::de_caracteres(vstd::slice::slice_subrange(s, i, f));
        r.push(l);
        assert(texto::textos(r@) == texto::textos(antes).push(l@));
        if f >= s.len() {
            assert(partes(s@, c, i as int) == seq![l@]);
            assert(texto::textos(r@) == texto::textos(antes) + partes(s@, c, i as int));
            return r;
        }
        assert(partes(s@, c, i as int) == seq![l@] + partes(s@, c, f + 1));
        assert(texto::textos(r@) + partes(s@, c, f + 1) == texto::textos(antes) + partes(s@, c, i as int));
        i = f + 1;
    }
}

/// Os textos que nao sao vazios.
pub open spec fn nao_vazios(v: Seq<Seq<char>>) -> Seq<Seq<char>>
    decreases v.len(),
{
    if v.len() == 0 {
        Seq::empty()
    } else if v.last().len() == 0 {
        nao_vazios(v.drop_last())
    } else {
        nao_vazios(v.drop_last()).push(v.last())
    }
}

/// Fica com os textos que nao sao vazios.
pub fn sem_vazios(v: Vec<String>) -> (r: Vec<String>)
    ensures
        texto::textos(r@) == nao_vazios(texto::textos(v@)),
{
    let mut r: Vec<String> = Vec::new();
    let ghost t = texto::textos(v@);
    for i in 0..v.len()
        invariant
            t == texto::textos(v@),
            texto::textos(r@) == nao_vazios(t.take(i as int)),
    {
        let ghost antes = r@;
        assert(t.take(i + 1).drop_last() == t.take(i as int));
        if v[i].as_str().is_empty() {
        } else {
            r.push(v[i].clone());
            assert(texto::textos(r@) == texto::textos(antes).push(t[i as int]));
        }
    }
    assert(t.take(t.len() as int) == t);
    r
}

/// O texto sem as ocorrencias de `c` nas pontas.
pub open spec fn sem_pontas(s: Seq<char>, c: char) -> Seq<char>
    decreases s.len(),
{
    if s.len() > 0 && s[0] == c {
        sem_pontas(s.skip(1), c)
    } else if s.len() > 0 && s.last() == c {
        sem_pontas(s.drop_last(), c)
    } else {
        s
    }
}

/// `str::trim_matches` por um caractere.
pub fn aparar_de(s: &[char], c: char) -> (r: &[char])
    ensures
        r@ == sem_pontas(s@, c),
{
    let mut i: usize = 0;
    assert(s@.skip(0) == s@);
    while i < s.len() && s[i] == c
        invariant
            i <= s@.len(),
            sem_pontas(s@, c) == sem_pontas(s@.skip(i as int), c),
        decreases s@.len() - i,
    {
        assert(s@.skip(i as int).skip(1) == s@.skip(i + 1));
        i += 1;
    }
    let mut f: usize = s.len();
    assert(s@.subrange(i as int, f as int) == s@.skip(i as int));
    while f > i && s[f - 1] == c
        invariant
            i <= f <= s@.len(),
            i < s@.len() ==> s@[i as int] != c,
            sem_pontas(s@, c) == sem_pontas(s@.subrange(i as int, f as int), c),
        decreases f,
    {
        let ghost t = s@.subrange(i as int, f as int);
        assert(t.drop_last() == s@.subrange(i as int, f - 1));
        f -= 1;
    }
    let r = vstd::slice::slice_subrange(s, i, f);
    assert(r@ == s@.subrange(i as int, f as int));
    r
}

/// O que fica antes e depois da primeira ocorrencia de `c`.
pub open spec fn duas_partes(s: Seq<char>, c: char) -> Option<(Seq<char>, Seq<char>)> {
    let f = texto::proximo(s, c, 0);
    if f >= s.len() {
        None
    } else {
        Some((s.take(f), s.skip(f + 1)))
    }
}

/// `str::split_once` por um caractere.
pub fn partir(s: &str, c: char) -> (r: Option<(String, String)>)
    ensures
        match r {
            Some((a, b)) => duas_partes(s@, c) == Some((a@, b@)),
            None => duas_partes(s@, c) is None,
        },
{
    let v = texto::caracteres(s);
    let f = texto::achar(&v, c, 0);
    if f >= v.len() {
        return None;
    }
    let a = texto::de_caracteres(vstd::slice::slice_subrange(&v, 0, f));
    let b = texto::de_caracteres(vstd::slice::slice_subrange(&v, f + 1, v.len()));
    assert(a@ == s@.take(f as int) && b@ == s@.skip(f + 1));
    Some((a, b))
}

/// `str::trim`.
pub fn aparar_texto(s: &str) -> (r: String)
    ensures
        r@ == texto::aparado(s@),
{
    let v = texto::caracteres(s);
    texto::de_caracteres(texto::aparar(&v))
}

// ---- Trocas ---------------------------------------------------------------------------

/// O texto com cada `c` trocado por `por`.
pub open spec fn trocado(s: Seq<char>, c: char, por: Seq<char>) -> Seq<char>
    decreases s.len(),
{
    if s.len() == 0 {
        Seq::empty()
    } else if s.last() == c {
        trocado(s.drop_last(), c, por) + por
    } else {
        trocado(s.drop_last(), c, por).push(s.last())
    }
}

/// `str::replace` de um caractere por um texto.
pub fn trocar(s: &str, c: char, por: &str) -> (r: String)
    ensures
        r@ == trocado(s@, c, por@),
{
    let v = texto::caracteres(s);
    let mut r = String::new();
    for i in 0..v.len()
        invariant
            v@ == s@,
            r@ == trocado(s@.take(i as int), c, por@),
    {
        assert(s@.take(i + 1).drop_last() == s@.take(i as int));
        if v[i] == c {
            r.append(por);
        } else {
            r.push(v[i]);
        }
    }
    assert(s@.take(s@.len() as int) == s@);
    r
}

/// O caractere em minuscula, se for uma letra ASCII.
pub open spec fn minuscula(c: char) -> char {
    if 'A' <= c <= 'Z' {
        ((c as u8 + 32) as u8) as char
    } else {
        c
    }
}

/// O texto com as letras ASCII em minusculas.
pub open spec fn minusculas_ascii(s: Seq<char>) -> Seq<char> {
    s.map(|i: int, c: char| minuscula(c))
}

pub fn minuscula_de(c: char) -> (r: char)
    ensures
        r == minuscula(c),
{
    if 'A' <= c && c <= 'Z' {
        (c as u8 + 32) as char
    } else {
        c
    }
}

/// `str::to_ascii_lowercase`.
pub fn em_minusculas(s: &str) -> (r: String)
    ensures
        r@ == minusculas_ascii(s@),
{
    let v = texto::caracteres(s);
    let mut r = String::new();
    for i in 0..v.len()
        invariant
            v@ == s@,
            r@ == minusculas_ascii(s@.take(i as int)),
    {
        r.push(minuscula_de(v[i]));
        assert(minusculas_ascii(s@.take(i + 1)) == minusculas_ascii(s@.take(i as int)).push(
            minuscula(s@[i as int]),
        ));
    }
    assert(s@.take(s@.len() as int) == s@);
    r
}

/// Se dois textos so diferem nas maiusculas ASCII.
pub open spec fn iguais_sem_caixa(a: Seq<char>, b: Seq<char>) -> bool {
    minusculas_ascii(a) == minusculas_ascii(b)
}

/// `str::eq_ignore_ascii_case`.
pub fn igual_sem_caixa(a: &str, b: &str) -> (r: bool)
    ensures
        r == iguais_sem_caixa(a@, b@),
{
    em_minusculas(a).as_str().eq(em_minusculas(b).as_str())
}

// ---- Juncao ---------------------------------------------------------------------------

/// Os textos um depois do outro, com `sep` entre eles.
pub open spec fn juntos(v: Seq<Seq<char>>, sep: Seq<char>) -> Seq<char>
    decreases v.len(),
{
    if v.len() == 0 {
        Seq::empty()
    } else if v.len() == 1 {
        v[0]
    } else {
        juntos(v.drop_last(), sep) + sep + v.last()
    }
}

/// Se `t` esta em `s` a partir de `i`.
pub open spec fn esta_em(s: Seq<char>, i: int, t: Seq<char>) -> bool {
    &&& 0 <= i
    &&& i + t.len() <= s.len()
    &&& forall|k: int| 0 <= k < t.len() ==> s[i + k] == #[trigger] t[k]
}

/// Onde dois textos seguidos estao, esta cada um deles.
pub proof fn lema_esta_em(s: Seq<char>, i: int, a: Seq<char>, b: Seq<char>)
    requires
        esta_em(s, i, a + b),
    ensures
        esta_em(s, i, a),
        esta_em(s, i + a.len(), b),
{
    assert forall|k: int| 0 <= k < a.len() implies s[i + k] == #[trigger] a[k] by {
        assert((a + b)[k] == a[k]);
    }
    assert forall|k: int| 0 <= k < b.len() implies s[i + a.len() + k] == #[trigger] b[k] by {
        assert((a + b)[a.len() + k] == b[k]);
    }
}

/// O que esta dentro do que esta em `s` esta em `s`.
pub proof fn lema_esta_dentro(s: Seq<char>, i: int, t: Seq<char>, j: int, u: Seq<char>)
    requires
        esta_em(s, i, t),
        esta_em(t, j, u),
    ensures
        esta_em(s, i + j, u),
{
    assert forall|k: int| 0 <= k < u.len() implies s[i + j + k] == #[trigger] u[k] by {
        assert(t[j + k] == u[k]);
    }
}

/// Onde comeca o texto `n` dos textos juntos.
pub open spec fn inicio_de(v: Seq<Seq<char>>, sep: Seq<char>, n: int) -> int {
    if n <= 0 {
        0
    } else {
        (juntos(v.take(n), sep).len() + sep.len()) as int
    }
}

/// Nos textos juntos esta cada um, com o separador depois se nao e o ultimo.
pub proof fn lema_juntos(v: Seq<Seq<char>>, sep: Seq<char>, n: int)
    requires
        0 <= n < v.len(),
    ensures
        esta_em(juntos(v, sep), inicio_de(v, sep, n), v[n]),
        inicio_de(v, sep, n) + v[n].len() == juntos(v.take(n + 1), sep).len(),
        n + 1 < v.len() ==> inicio_de(v, sep, n + 1) == inicio_de(v, sep, n) + v[n].len() + sep.len() && esta_em(
            juntos(v, sep),
            inicio_de(v, sep, n) + v[n].len(),
            sep,
        ),
        n + 1 == v.len() ==> inicio_de(v, sep, n) + v[n].len() == juntos(v, sep).len(),
    decreases v.len(),
{
    let j = juntos(v, sep);
    if v.len() == 1 {
        assert(v.take(1) =~= v);
    } else {
        let w = v.drop_last();
        let jw = juntos(w, sep);
        assert(j == jw + sep + v.last());
        if n == v.len() - 1 {
            assert(v.take(n) =~= w);
            assert(v.take(n + 1) =~= v);
        } else {
            lema_juntos(w, sep, n);
            assert(w.take(n) =~= v.take(n));
            assert(w.take(n + 1) =~= v.take(n + 1));
            assert forall|k: int| 0 <= k < jw.len() implies j[k] == #[trigger] jw[k] by {
                assert((jw + sep)[k] == jw[k]);
            }
            assert(esta_em(j, 0, jw));
            lema_esta_dentro(j, 0, jw, inicio_de(w, sep, n), v[n]);
            if n + 1 < w.len() {
                lema_esta_dentro(j, 0, jw, inicio_de(w, sep, n) + v[n].len(), sep);
            } else {
                assert forall|k: int| 0 <= k < sep.len() implies j[jw.len() + k] == #[trigger] sep[k] by {
                    assert((jw + sep)[jw.len() + k] == sep[k]);
                }
            }
        }
    }
}

/// `join` de uma lista de textos.
pub fn juntar(v: &Vec<String>, sep: &str) -> (r: String)
    ensures
        r@ == juntos(texto::textos(v@), sep@),
{
    let mut r = String::new();
    let ghost t = texto::textos(v@);
    for i in 0..v.len()
        invariant
            t == texto::textos(v@),
            r@ == juntos(t.take(i as int), sep@),
    {
        assert(t.take(i + 1).drop_last() == t.take(i as int));
        if i > 0 {
            r.append(sep);
        }
        r.append(v[i].as_str());
        assert(t.take(i + 1).last() == v@[i as int]@);
    }
    assert(t.take(t.len() as int) == t);
    r
}

/// Se o texto e so de algarismos ASCII e ha pelo menos um.
pub open spec fn algarismos(s: Seq<char>) -> bool {
    s.len() > 0 && forall|i: int| 0 <= i < s.len() ==> '0' <= #[trigger] s[i] <= '9'
}

/// O natural escrito em decimal.
pub open spec fn valor_decimal(s: Seq<char>) -> nat
    decreases s.len(),
{
    if s.len() == 0 {
        0
    } else {
        valor_decimal(s.drop_last()) * 10 + (s.last() as nat - '0' as nat) as nat
    }
}

/// O natural de um texto, se ele e um e cabe: um `+` inicial e aceito.
pub open spec fn lido_natural(s: Seq<char>, maximo: nat) -> Option<nat> {
    let d = if s.len() > 1 && s[0] == '+' {
        s.skip(1)
    } else {
        s
    };
    if algarismos(d) && valor_decimal(d) <= maximo {
        Some(valor_decimal(d))
    } else {
        None
    }
}

/// O natural que os algarismos de um natural escrevem e ele.
pub proof fn lema_valor_decimal(n: nat)
    ensures
        algarismos(texto::decimal(n)),
        valor_decimal(texto::decimal(n)) == n,
    decreases n,
{
    texto::lema_decimal_algarismos(n);
    let d = texto::decimal(n);
    if n < 10 {
        assert(d.drop_last() =~= Seq::<char>::empty());
        assert(valor_decimal(d.drop_last()) == 0);
    } else {
        lema_valor_decimal(n / 10);
        assert(d.drop_last() =~= texto::decimal(n / 10));
    }
}

/// O inteiro que um inteiro escrito da e ele.
pub proof fn lema_lido_inteiro(n: i64)
    ensures
        lido_inteiro(texto::decimal_int(n as int)) == Some(n as int),
{
    if n < 0 {
        lema_valor_decimal((-n) as nat);
        assert(texto::decimal_int(n as int).skip(1) =~= texto::decimal((-n) as nat));
    } else {
        lema_valor_decimal(n as nat);
        assert('0' <= texto::decimal(n as nat)[0] <= '9');
    }
}

proof fn lema_valor_cresce(s: Seq<char>, n: int)
    requires
        0 <= n <= s.len(),
    ensures
        valor_decimal(s.take(n)) <= valor_decimal(s),
    decreases s.len() - n,
{
    if n < s.len() {
        lema_valor_cresce(s, n + 1);
        assert(s.take(n + 1).drop_last() == s.take(n));
    } else {
        assert(s.take(n) == s);
    }
}

/// O parse de um natural de 64 bits.
pub fn ler_natural(s: &str, maximo: u64) -> (r: Option<u64>)
    ensures
        match r {
            Some(n) => lido_natural(s@, maximo as nat) == Some(n as nat),
            None => lido_natural(s@, maximo as nat) is None,
        },
{
    let v = texto::caracteres(s);
    let inicio: usize = if v.len() > 1 && v[0] == '+' {
        1
    } else {
        0
    };
    let ghost d = s@.skip(inicio as int);
    assert(inicio == 0 ==> d == s@);
    if v.len() == inicio {
        return None;
    }
    let mut n: u64 = 0;
    let mut i: usize = inicio;
    assert(d.take(0) == Seq::<char>::empty());
    while i < v.len()
        invariant
            inicio <= i <= v@.len(),
            v@ == s@,
            d == s@.skip(inicio as int),
            inicio <= 1,
            inicio == 1 <==> s@.len() > 1 && s@[0] == '+',
            forall|k: int| 0 <= k < i - inicio ==> '0' <= #[trigger] d[k] <= '9',
            n == valor_decimal(d.take(i - inicio)),
            n <= maximo,
        decreases v@.len() - i,
    {
        let c = v[i];
        assert(s@.skip(0) =~= s@);
        assert(d[i - inicio] == c);
        assert(d.take(i - inicio + 1).drop_last() == d.take(i - inicio));
        proof {
            lema_valor_cresce(d, i - inicio + 1);
        }
        if c < '0' || c > '9' {
            return None;
        }
        let a: u64 = c as u64 - 48;
        assert(d.take(i - inicio + 1).last() == c);
        if a > maximo || n > (maximo - a) / 10 {
            assert(valor_decimal(d.take(i - inicio + 1)) > maximo);
            return None;
        }
        n = n * 10 + a;
        i += 1;
    }
    assert(d.take(d.len() as int) == d);
    Some(n)
}

/// O inteiro que um texto escreve, se cabe.
pub open spec fn lido_inteiro(s: Seq<char>) -> Option<int> {
    if s.len() > 0 && s[0] == '-' {
        if algarismos(s.skip(1)) && valor_decimal(s.skip(1)) <= 9223372036854775808 {
            Some(-(valor_decimal(s.skip(1)) as int))
        } else {
            None
        }
    } else {
        match lido_natural(s, i64::MAX as nat) {
            Some(n) => Some(n as int),
            None => None,
        }
    }
}

/// Le um inteiro.
pub fn ler_inteiro(s: &str) -> (r: Option<i64>)
    ensures
        match r {
            Some(n) => lido_inteiro(s@) == Some(n as int),
            None => lido_inteiro(s@) is None,
        },
{
    let cs = texto::caracteres(s);
    assert(cs@.len() == cs.len());
    if cs.len() > 0 && cs[0] == '-' {
        if cs.len() > 1 && cs[1] == '+' {
            assert(s@.skip(1)[0] == '+');
            return None;
        }
        let resto = vstd::slice::slice_subrange(cs.as_slice(), 1, cs.len());
        assert(resto@ =~= s@.skip(1));
        assert(resto@.len() > 0 ==> resto@[0] == cs@[1]);
        let t = texto::de_caracteres(resto);
        match ler_natural(t.as_str(), 9223372036854775808) {
            Some(n) => if n == 9223372036854775808 {
                Some(i64::MIN)
            } else {
                Some(-(n as i64))
            },
            None => None,
        }
    } else {
        match ler_natural(s, i64::MAX as u64) {
            Some(n) => Some(n as i64),
            None => None,
        }
    }
}

} // verus!
