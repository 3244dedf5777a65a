//! Resumos, codificacoes de bytes em texto e bytes ao acaso.

use base64::engine::general_purpose::STANDARD;
use base64::Engine;
use hmac::{Hmac, Mac};
use sha1::Sha1;
use sha2::{Digest, Sha256};
use vstd::prelude::*;

verus! {

/// O resumo SHA-1 de uma sequencia de bytes.
pub uninterp spec fn resumo_sha1(b: Seq<u8>) -> Seq<u8>;

/// `sha1::Sha1::digest`: vinte bytes, os mesmos para a mesma entrada.
#[verifier::external_body]
pub(crate) fn sha1(b: &[u8]) -> (r: Vec<u8>)
    ensures
        r@ == resumo_sha1(b@),
        r@.len() == 20,
{
    Sha1::digest(b).to_vec()
}

/// O resumo SHA-256 de uma sequencia de bytes.
pub uninterp spec fn resumo_sha256(b: Seq<u8>) -> Seq<u8>;

/// `sha2::Sha256::digest`: trinta e dois bytes, os mesmos para a mesma entrada.
#[verifier::external_body]
pub(crate) fn sha256(b: &[u8]) -> (r: Vec<u8>)
    ensures
        r@ == resumo_sha256(b@),
        r@.len() == 32,
{
    Sha256::digest(b).to_vec()
}

/// O codigo de autenticacao HMAC-SHA-256 de uma mensagem com uma chave.
pub uninterp spec fn autenticacao(chave: Seq<u8>, b: Seq<u8>) -> Seq<u8>;

/// `hmac::Hmac::<Sha256>`: aceita chaves de qualquer tamanho e da trinta e dois bytes.
#[verifier::external_body]
pub(crate) fn hmac_sha256(chave: &[u8], b: &[u8]) -> (r: Vec<u8>)
    ensures
        r@ == autenticacao(chave@, b@),
        r@.len() == 32,
{
    let mut mac = <Hmac<Sha256> as Mac>::new_from_slice(chave).expect("chave de qualquer tamanho");
    mac.update(b);
    mac.finalize().into_bytes().to_vec()
}

/// O algarismo hexadecimal minusculo de valor `d`.
pub open spec fn hexa(d: int) -> char {
    if d < 10 {
        ((48 + d) as u8) as char
    } else {
        ((87 + d) as u8) as char
    }
}

/// Os bytes em hexadecimal, dois algarismos minusculos por byte.
pub open spec fn hexadecimal(b: Seq<u8>) -> Seq<char> {
    Seq::new(
        2 * b.len(),
        |i: int|
            hexa(
                if i % 2 == 0 {
                    b[i / 2] as int / 16
                } else {
                    b[i / 2] as int % 16
                },
            ),
    )
}

/// `hex::encode`: dois algarismos minusculos por byte.
#[verifier::external_body]
pub(crate) fn hex_de(b: &[u8]) -> (r: String)
    ensures
        r@ == hexadecimal(b@),
{
    hex::encode(b)
}

/// O sinal do alfabeto base64 de valor `n`.
pub open spec fn sinal64(n: int) -> char {
    if n < 26 {
        ((65 + n) as u8) as char
    } else if n < 52 {
        ((71 + n) as u8) as char
    } else if n < 62 {
        ((n - 4) as u8) as char
    } else if n == 62 {
        '+'
    } else {
        '/'
    }
}

/// Os bytes em base64, com o alfabeto comum e o enchimento no fim.
pub open spec fn base64_de(b: Seq<u8>) -> Seq<char>
    decreases b.len(),
{
    if b.len() == 0 {
        Seq::empty()
    } else if b.len() == 1 {
        let n = b[0] * 16;
        seq![sinal64(n / 64), sinal64(n % 64), '=', '=']
    } else if b.len() == 2 {
        let n = (b[0] * 256 + b[1]) * 4;
        seq![sinal64(n / 4096), sinal64(n / 64 % 64), sinal64(n % 64), '=']
    } else {
        let n = b[0] * 65536 + b[1] * 256 + b[2];
        seq![sinal64(n / 262144), sinal64(n / 4096 % 64), sinal64(n / 64 % 64), sinal64(n % 64)]
            + base64_de(b.skip(3))
    }
}

/// `base64::engine::general_purpose::STANDARD`, `encode`.
#[verifier::external_body]
pub(crate) fn base64_codificar(b: &[u8]) -> (r: String)
    ensures
        r@ == base64_de(b@),
{
    STANDARD.encode(b)
}

/// Os bytes que um texto em base64 representa, ou o texto do erro.
pub uninterp spec fn bytes64(s: Seq<char>) -> Result<Seq<u8>, Seq<char>>;

/// `base64::engine::general_purpose::STANDARD`, `decode`: so aceita o texto que a
/// codificacao dos bytes daria, com o enchimento e sem bits a mais. O texto do erro e o do
/// decodificador.
#[verifier::external_body]
pub(crate) fn base64_decodificar(s: &str) -> (r: Result<Vec<u8>, String>)
    ensures
        match r {
            Ok(b) => bytes64(s@) == Ok::<Seq<u8>, Seq<char>>(b@) && base64_de(b@) == s@,
            Err(m) => bytes64(s@) == Err::<Seq<u8>, Seq<char>>(m@) && forall|b: Seq<u8>|
                #[trigger] base64_de(b) != s@,
        },
{
    STANDARD.decode(s).map_err(|e| e.to_string())
}

/// `getrandom::fill`: `n` bytes ao acaso, ou nada se o sistema nao os da.
#[verifier::external_body]
pub(crate) fn aleatorios(n: usize) -> (r: Option<Vec<u8>>)
    ensures
        r matches Some(b) ==> b@.len() == n,
{
    let mut b = vec![0u8; n];
    match getrandom::fill(&mut b) {
        Ok(()) => Some(b),
        Err(_) => None,
    }
}

} // verus!
