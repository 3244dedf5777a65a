//! Expressoes regulares.

use regex::Regex;
use vstd::prelude::*;
use crate::texto;

verus! {

/// O que ha de errado num padrao; nada se ele serve.
pub uninterp spec fn erro_do_padrao(p: Seq<char>) -> Option<Seq<char>>;

/// Os grupos da primeira ocorrencia de um padrao, o primeiro a ocorrencia inteira.
pub uninterp spec fn grupos(p: Seq<char>, t: Seq<char>) -> Option<Seq<Option<Seq<char>>>>;

/// As ocorrencias de um padrao.
pub uninterp spec fn ocorrencias(p: Seq<char>, t: Seq<char>) -> Seq<Seq<char>>;

/// Um texto com as ocorrencias de um padrao trocadas.
pub uninterp spec fn trocadas(p: Seq<char>, por: Seq<char>, t: Seq<char>) -> Seq<char>;

/// As partes de um texto entre as ocorrencias de um padrao.
pub uninterp spec fn entre_ocorrencias(p: Seq<char>, t: Seq<char>) -> Seq<Seq<char>>;

/// Grupos que podem faltar, vistos.
pub open spec fn grupos_vistos(v: Seq<Option<String>>) -> Seq<Option<Seq<char>>> {
    v.map_values(
        |g: Option<String>|
            match g {
                Some(s) => Some(s@),
                None => None,
            },
    )
}

/// `regex::Regex::new`: se um padrao serve, e senao o texto do erro.
#[verifier::external_body]
pub(crate) fn verificar(p: &str) -> (r: Result<(), String>)
    ensures
        match r {
            Ok(_) => erro_do_padrao(p@) is None,
            Err(m) => erro_do_padrao(p@) == Some(m@),
        },
{
    Regex::new(p).map(|_| ()).map_err(|e| e.to_string())
}

/// `regex::Regex::captures`, com os textos dos grupos.
#[verifier::external_body]
pub(crate) fn capturar(p: &str, t: &str) -> (r: Option<Vec<Option<String>>>)
    requires
        erro_do_padrao(p@) is None,
    ensures
        match r {
            Some(v) => grupos(p@, t@) == Some(grupos_vistos(v@)),
            None => grupos(p@, t@) is None,
        },
{
    let re = Regex::new(p).expect("padrao que serve");
    re.captures(t).map(|c| c.iter().map(|m| m.map(|s| s.as_str().to_string())).collect())
}

/// `regex::Regex::find_iter`, com os textos das ocorrencias.
#[verifier::external_body]
pub(crate) fn procurar(p: &str, t: &str) -> (r: Vec<String>)
    requires
        erro_do_padrao(p@) is None,
    ensures
        texto::textos(r@) == ocorrencias(p@, t@),
{
    let re = Regex::new(p).expect("padrao que serve");
    re.find_iter(t).map(|m| m.as_str().to_string()).collect()
}

/// `regex::Regex::replace_all`.
#[verifier::external_body]
pub(crate) fn trocar(p: &str, por: &str, t: &str) -> (r: String)
    requires
        erro_do_padrao(p@) is None,
    ensures
        r@ == trocadas(p@, por@, t@),
{
    let re = Regex::new(p).expect("padrao que serve");
    re.replace_all(t, por).into_owned()
}

/// `regex::Regex::split`.
#[verifier::external_body]
pub(crate) fn dividir(p: &str, t: &str) -> (r: Vec<String>)
    requires
        erro_do_padrao(p@) is None,
    ensures
        texto::textos(r@) == entre_ocorrencias(p@, t@),
{
    let re = Regex::new(p).expect("padrao que serve");
    re.split(t).map(|s| s.to_string()).collect()
}

} // verus!
