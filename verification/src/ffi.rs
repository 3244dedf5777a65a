//! Bibliotecas dinamicas: o que se aceita carregar e chamar, e o que se faz da resposta.

use vstd::prelude::*;
use crate::busca;
use crate::texto;
use crate::websocket;

verus! {

/// O maior retorno de uma funcao.
pub const LIMITE_RETORNO: usize = 16777216;

/// Se a configuracao permite carregar bibliotecas.
pub open spec fn permite(v: Option<Seq<char>>) -> bool {
    match v {
        Some(s) => s == "1"@ || busca::iguais_sem_caixa(s, "true"@),
        None => false,
    }
}

/// Se a configuracao permite carregar bibliotecas.
pub fn permitido(config: Option<&str>) -> (r: bool)
    ensures
        r == permite(
            match config {
                Some(s) => Some(s@),
                None => None,
            },
        ),
{
    match config {
        Some(s) => s.eq("1") || busca::igual_sem_caixa(s, "true"),
        None => false,
    }
}

/// As extensoes que se aceitam.
pub open spec fn extensao_aceita(e: Seq<char>) -> bool {
    let m = busca::minusculas_ascii(e);
    m == "dll"@ || m == "so"@ || m == "dylib"@
}

/// Se uma biblioteca pode ser carregada: com a permissao dada e a extensao do arquivo.
pub fn pode_carregar(permitido: bool, extensao: &str) -> (r: Result<(), String>)
    ensures
        match r {
            Ok(_) => permitido && extensao_aceita(extensao@),
            Err(m) => if !permitido {
                m@ == "FFI desativada; defina PEP_FFI_PERMITIR=1 para habilitar"@
            } else {
                !extensao_aceita(extensao@) && m@ == "ffi_carregar: somente .dll, .so e .dylib sao aceitos"@
            },
        },
{
    if !permitido {
        return Err("FFI desativada; defina PEP_FFI_PERMITIR=1 para habilitar".to_owned());
    }
    let e = busca::em_minusculas(extensao);
    if e.as_str().eq("dll") || e.as_str().eq("so") || e.as_str().eq("dylib") {
        Ok(())
    } else {
        Err("ffi_carregar: somente .dll, .so e .dylib sao aceitos".to_owned())
    }
}

/// Se o nome e de letras ASCII, algarismos e sublinhados.
pub open spec fn simbolo_valido(s: Seq<char>) -> bool {
    s.len() > 0 && forall|i: int|
        0 <= i < s.len() ==> ({
            let c = #[trigger] s[i];
            'a' <= c <= 'z' || 'A' <= c <= 'Z' || '0' <= c <= '9' || c == '_'
        })
}

fn nome_seguro(s: &str) -> (r: bool)
    ensures
        r == simbolo_valido(s@),
{
    let v = texto::caracteres(s);
    for i in 0..v.len()
        invariant
            v@ == s@,
            forall|k: int|
                0 <= k < i ==> ({
                    let c = #[trigger] s@[k];
                    'a' <= c <= 'z' || 'A' <= c <= 'Z' || '0' <= c <= '9' || c == '_'
                }),
    {
        let c = v[i];
        assert(s@[i as int] == c);
        if !(('a' <= c && c <= 'z') || ('A' <= c && c <= 'Z') || ('0' <= c && c <= '9') || c == '_') {
            return false;
        }
    }
    v.len() > 0
}

/// As bibliotecas carregadas e o numero da proxima.
pub struct Bibliotecas {
    pub carregadas: Vec<u64>,
    pub proxima: u64,
}

/// Nenhuma biblioteca.
pub fn nenhuma() -> (r: Bibliotecas)
    ensures
        r.carregadas@.len() == 0,
        r.proxima == 1,
{
    Bibliotecas { carregadas: Vec::new(), proxima: 1 }
}

/// Regista uma biblioteca carregada e da-lhe um numero.
pub fn registrar(b: &mut Bibliotecas) -> (id: u64)
    ensures
        id == old(b).proxima,
        final(b).carregadas@ == old(b).carregadas@.push(id),
        final(b).proxima == (if id == u64::MAX {
            0
        } else {
            id + 1
        }),
{
    let id = b.proxima;
    b.proxima = if id == u64::MAX {
        0
    } else {
        id + 1
    };
    b.carregadas.push(id);
    id
}

/// Fecha uma biblioteca; diz se ela estava carregada.
pub fn fechar(b: &mut Bibliotecas, id: u64) -> (r: bool)
    ensures
        r == old(b).carregadas@.contains(id),
        final(b).carregadas@ == websocket::sem(old(b).carregadas@, id),
        final(b).proxima == old(b).proxima,
{
    let mut resto: Vec<u64> = Vec::new();
    let mut achou = false;
    let ghost v = b.carregadas@;
    for i in 0..b.carregadas.len()
        invariant
            v == b.carregadas@,
            *b == *old(b),
            resto@ == websocket::sem(v.take(i as int), id),
            achou == v.take(i as int).contains(id),
    {
        let ghost t = v.take(i + 1);
        assert(t.drop_last() =~= v.take(i as int));
        assert(t[i as int] == v[i as int]);
        assert(achou ==> t.contains(id)) by {
            if achou {
                let k = choose|k: int| 0 <= k < v.take(i as int).len() && v.take(i as int)[k] == id;
                assert(t[k] == id);
            }
        }
        assert(t.contains(id) ==> achou || v[i as int] == id) by {
            if t.contains(id) {
                let k = choose|k: int| 0 <= k < t.len() && t[k] == id;
                if k < i {
                    assert(v.take(i as int)[k] == id);
                }
            }
        }
        if b.carregadas[i] == id {
            achou = true;
        } else {
            resto.push(b.carregadas[i]);
        }
    }
    assert(v.take(v.len() as int) =~= v);
    b.carregadas = resto;
    achou
}

/// Se uma funcao pode ser chamada: com um nome seguro, numa biblioteca carregada.
pub fn chamar(b: &Bibliotecas, id: u64, simbolo: &str) -> (r: Result<(), String>)
    ensures
        match r {
            Ok(_) => simbolo_valido(simbolo@) && b.carregadas@.contains(id),
            Err(m) => if !simbolo_valido(simbolo@) {
                m@ == "ffi_chamar: nome de simbolo invalido"@
            } else {
                !b.carregadas@.contains(id) && m@ == "ffi_chamar: biblioteca #"@ + texto::decimal(id as nat)
                    + " nao esta carregada"@
            },
        },
{
    if !nome_seguro(simbolo) {
        return Err("ffi_chamar: nome de simbolo invalido".to_owned());
    }
    for i in 0..b.carregadas.len()
        invariant
            simbolo_valido(simbolo@),
            forall|k: int| 0 <= k < i ==> b.carregadas@[k] != id,
    {
        if b.carregadas[i] == id {
            return Ok(());
        }
    }
    let mut m = "ffi_chamar: biblioteca #".to_owned();
    let n = texto::natural(id);
    m.append(n.as_str());
    m.append(" nao esta carregada");
    Err(m)
}

/// O que se faz do que uma funcao devolveu.
pub enum Retorno {
    /// Ler tantos bytes e libera-los.
    Ler(usize),
    /// Liberar o retorno, se ha ponteiro, e falhar.
    Falha(String),
}

/// O que se faz do codigo, do ponteiro e do tamanho que uma funcao devolveu.
pub fn avaliar_retorno(simbolo: &str, codigo: i32, nulo: bool, tamanho: usize) -> (r: Retorno)
    ensures
        match r {
            Retorno::Ler(n) => codigo == 0 && n == tamanho && tamanho <= LIMITE_RETORNO && (nulo ==> tamanho == 0),
            Retorno::Falha(m) => if codigo != 0 {
                m@ == "ffi_chamar('"@ + simbolo@ + "'): plugin retornou codigo "@ + texto::decimal_int(
                    codigo as int,
                )
            } else if nulo && tamanho != 0 {
                m@ == "ffi_chamar: plugin retornou ponteiro nulo"@
            } else {
                tamanho > LIMITE_RETORNO && m@ == "ffi_chamar: retorno excede 16777216 bytes"@
            },
        },
{
    if codigo != 0 {
        let mut m = "ffi_chamar('".to_owned();
        m.append(simbolo);
        m.append("'): plugin retornou codigo ");
        let n = texto::inteiro(codigo as i64);
        m.append(n.as_str());
        return Retorno::Falha(m);
    }
    if nulo && tamanho != 0 {
        return Retorno::Falha("ffi_chamar: plugin retornou ponteiro nulo".to_owned());
    }
    if tamanho > LIMITE_RETORNO {
        return Retorno::Falha("ffi_chamar: retorno excede 16777216 bytes".to_owned());
    }
    Retorno::Ler(tamanho)
}

/// Uma biblioteca que se carrega pode chamar-se, e uma que se fecha deixa de poder; as outras
/// ficam como estavam.
pub proof fn lei_biblioteca(v: Seq<u64>, id: u64, outra: u64)
    requires
        outra != id,
    ensures
        v.push(id).contains(id),
        !websocket::sem(v.push(id), id).contains(id),
        websocket::sem(v.push(id), id).contains(outra) == v.contains(outra),
{
    websocket::lei_sem(v.push(id), id);
    let u = v.push(id);
    assert(u[v.len() as int] == id);
    if v.contains(outra) {
        let i = choose|i: int| 0 <= i < v.len() && v[i] == outra;
        assert(u[i] == outra);
    }
    if u.contains(outra) {
        let i = choose|i: int| 0 <= i < u.len() && u[i] == outra;
        assert(v[i] == outra);
    }
}

} // verus!
