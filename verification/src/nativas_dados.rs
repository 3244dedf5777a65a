//! As funcoes nativas de tabelas, JSON, resumos, expressoes regulares, bytes e lacunas.

use vstd::prelude::*;
use vstd::utf8;
use crate::aplicar::Feito;
use crate::aplicar;
use crate::busca;
use crate::cripto;
use crate::csv;
use crate::decimal::Decimal;
use crate::decimal;
use crate::expressoes;
use crate::formatacao::{formatar_padrao, Escrito};
use crate::formatacao;
use crate::json::{json_deserializar_val, valor_para_json, Lido};
use crate::json;
use crate::md5;
use crate::nativas_arvore::{dar, falhar, querer, recusar, requerer, Chamado};
use crate::nativas_arvore;
use crate::nativas_valores::textos_em_valores;
use crate::nativas_valores;
use crate::texto;
use crate::valor::Valor;
use crate::valor;
use crate::vm::frase;

verus! {

// ---- Indices ----------------------------------------------------------------------------

/// Se um numero com ponto nao e negativo.
pub open spec fn nao_negativo(b: u64) -> bool {
    !decimal::nao_numero(b) && !decimal::menor(b, 0)
}

/// O indice que um valor representa.
pub open spec fn indice_de(v: valor::Dado) -> Option<int> {
    match v {
        valor::Dado::Inteiro(n) => if n >= 0 {
            Some(n as usize as int)
        } else {
            None
        },
        valor::Dado::Numero(b, _) => if nao_negativo(b) {
            Some(decimal::indice(b))
        } else {
            None
        },
        _ => None,
    }
}

/// A falha de um valor que nao e indice.
pub open spec fn sem_indice(nome: Seq<char>, v: valor::Dado) -> nativas_arvore::ChamadoVisto {
    nativas_arvore::requer(nome, "inteiro nao-negativo"@, v)
}

/// O indice que um valor representa.
pub fn to_usize(v: &Valor) -> (r: Option<usize>)
    ensures
        match r {
            Some(i) => indice_de(v@) == Some(i as int),
            None => indice_de(v@) is None,
        },
{
    match v {
        Valor::Inteiro(n) => if *n >= 0 {
            Some(
                #[verifier::truncate]
                (*n as usize),
            )
        } else {
            None
        },
        Valor::Numero(d) => if !decimal::eh_nao_numero(d.bits) && !decimal::eh_menor(d.bits, 0) {
            Some(decimal::para_indice(d.bits))
        } else {
            None
        },
        _ => None,
    }
}

// ---- Um argumento -----------------------------------------------------------------------

/// Os bytes de um texto.
pub open spec fn bytes_do_texto(s: Seq<char>) -> Seq<u8> {
    utf8::encode_utf8(s)
}

/// O que se leu de um JSON, sem saber de numeros com ponto.
pub open spec fn lido(s: Seq<char>) -> nativas_arvore::ChamadoVisto {
    match json::json_lido(s, Seq::empty()) {
        json::LidoVisto::Pronto(v) => nativas_arvore::da(v),
        json::LidoVisto::Falha(m) => nativas_arvore::falha(m),
        json::LidoVisto::Panico => nativas_arvore::ChamadoVisto::Feito(aplicar::FeitoVisto::Panico),
        json::LidoVisto::Falta(_) => nativas_arvore::ChamadoVisto::Pedida,
    }
}

fn ler_json(s: &str) -> (r: Chamado)
    ensures
        r@ == lido(s@),
{
    let ns: Vec<(String, Option<Decimal>)> = Vec::new();
    assert(json::numeros_vistos(ns@) =~= Seq::empty());
    match json_deserializar_val(s, &ns) {
        Lido::Pronto(v) => dar(v),
        Lido::Falha(m) => Chamado::Feito(Feito::Falha(m)),
        Lido::Panico => Chamado::Feito(Feito::Panico),
        Lido::Falta(_) => Chamado::Pedida,
    }
}

/// As funcoes de um texto.
pub open spec fn de_texto(nome: Seq<char>, s: Seq<char>) -> nativas_arvore::ChamadoVisto {
    if nome == "csv_parsear"@ {
        nativas_arvore::da(valor::Dado::Lista(csv::em_listas(csv::tabela(s))))
    } else if nome == "json_deserializar"@ {
        lido(texto::aparado(s))
    } else if nome == "sha256"@ {
        nativas_arvore::da(valor::Dado::Texto(cripto::hexadecimal(cripto::resumo_sha256(bytes_do_texto(s)))))
    } else if nome == "md5"@ {
        nativas_arvore::da(valor::Dado::Texto(md5::em_hexadecimal(md5::resumo(bytes_do_texto(s)))))
    } else if nome == "base64_codificar"@ {
        nativas_arvore::da(valor::Dado::Texto(cripto::base64_de(bytes_do_texto(s))))
    } else if nome == "base64_decodificar"@ {
        match cripto::bytes64(texto::aparado(s)) {
            Ok(b) => nativas_arvore::da(valor::Dado::Texto(busca::texto_de(b))),
            Err(m) => nativas_arvore::falha("base64 invalido: "@ + m),
        }
    } else {
        nativas_arvore::da(valor::Dado::Bytes(bytes_do_texto(s)))
    }
}

fn bytes_de(s: &str) -> (r: Vec<u8>)
    ensures
        r@ == bytes_do_texto(s@),
{
    busca::copia(s.as_bytes())
}

fn com_texto(nome: &str, s: &str) -> (r: Chamado)
    ensures
        r@ == de_texto(nome@, s@),
{
    if nome.eq("csv_parsear") {
        dar(Valor::Lista(csv::csv_parsear_texto(s)))
    } else if nome.eq("json_deserializar") {
        let t = busca::aparar_texto(s);
        ler_json(t.as_str())
    } else if nome.eq("sha256") {
        let h = cripto::sha256(s.as_bytes());
        dar(Valor::Texto(cripto::hex_de(h.as_slice())))
    } else if nome.eq("md5") {
        dar(Valor::Texto(md5::escrever_hexadecimal(md5::md5_simples(s.as_bytes()))))
    } else if nome.eq("base64_codificar") {
        dar(Valor::Texto(cripto::base64_codificar(s.as_bytes())))
    } else if nome.eq("base64_decodificar") {
        let t = busca::aparar_texto(s);
        match cripto::base64_decodificar(t.as_str()) {
            Ok(b) => dar(Valor::Texto(busca::de_bytes(b.as_slice()))),
            Err(m) => {
                let mut e = "base64 invalido: ".to_owned();
                e.append(m.as_str());
                Chamado::Feito(Feito::Falha(e))
            },
        }
    } else {
        dar(Valor::Bytes(bytes_de(s)))
    }
}

/// Se uma funcao e de um texto.
pub open spec fn quer_texto(nome: Seq<char>) -> bool {
    nome == "csv_parsear"@ || nome == "json_deserializar"@ || nome == "sha256"@ || nome == "md5"@ || nome
        == "base64_codificar"@ || nome == "base64_decodificar"@ || nome == "bytes_de_texto"@
}

fn pede_texto(nome: &str) -> (r: bool)
    ensures
        r == quer_texto(nome@),
{
    nome.eq("csv_parsear") || nome.eq("json_deserializar") || nome.eq("sha256") || nome.eq("md5") || nome.eq(
        "base64_codificar",
    ) || nome.eq("base64_decodificar") || nome.eq("bytes_de_texto")
}

/// `String::from_utf8`: o texto de bytes em UTF-8; nada se eles nao o sao.
#[verifier::external_body]
fn utf8_de(b: &[u8]) -> (r: Option<String>)
    ensures
        match r {
            Some(s) => utf8::valid_utf8(b@) && s@ == utf8::decode_utf8(b@),
            None => !utf8::valid_utf8(b@),
        },
{
    String::from_utf8(b.to_vec()).ok()
}

/// Os bytes como inteiros.
pub open spec fn em_inteiros(b: Seq<u8>) -> Seq<valor::Dado> {
    b.map_values(|x: u8| valor::Dado::Inteiro(x as i64))
}

fn listar_bytes(b: &Vec<u8>) -> (r: Vec<Valor>)
    ensures
        valor::vistos(r@) == em_inteiros(b@),
{
    let mut r: Vec<Valor> = Vec::new();
    let mut i: usize = 0;
    while i < b.len()
        invariant
            i <= b@.len(),
            r@.len() == i,
            forall|k: int| 0 <= k < i ==> (#[trigger] r@[k])@ == valor::Dado::Inteiro(b@[k] as i64),
        decreases b@.len() - i,
    {
        r.push(Valor::Inteiro(b[i] as i64));
        i += 1;
    }
    assert(valor::vistos(r@) =~= em_inteiros(b@));
    r
}

/// As funcoes de bytes.
pub open spec fn de_bytes(nome: Seq<char>, b: Seq<u8>) -> nativas_arvore::ChamadoVisto {
    if nome == "bytes_para_texto"@ {
        if utf8::valid_utf8(b) {
            nativas_arvore::da(valor::Dado::Texto(utf8::decode_utf8(b)))
        } else {
            nativas_arvore::falha("bytes_para_texto: bytes nao sao UTF-8 valido"@)
        }
    } else if nome == "bytes_tamanho"@ {
        nativas_arvore::da(valor::Dado::Inteiro(b.len() as i64))
    } else if nome == "bytes_para_lista"@ {
        nativas_arvore::da(valor::Dado::Lista(em_inteiros(b)))
    } else {
        nativas_arvore::da(valor::Dado::Texto(cripto::hexadecimal(b)))
    }
}

fn com_bytes(nome: &str, b: &Vec<u8>) -> (r: Chamado)
    ensures
        r@ == de_bytes(nome@, b@),
{
    if nome.eq("bytes_para_texto") {
        match utf8_de(b.as_slice()) {
            Some(s) => dar(Valor::Texto(s)),
            None => falhar("bytes_para_texto: bytes nao sao UTF-8 valido"),
        }
    } else if nome.eq("bytes_tamanho") {
        dar(
            Valor::Inteiro(
                #[verifier::truncate]
                (b.len() as i64),
            ),
        )
    } else if nome.eq("bytes_para_lista") {
        dar(Valor::Lista(listar_bytes(b)))
    } else {
        dar(Valor::Texto(cripto::hex_de(b.as_slice())))
    }
}

/// Se uma funcao e de bytes.
pub open spec fn quer_bytes(nome: Seq<char>) -> bool {
    nome == "bytes_para_texto"@ || nome == "bytes_tamanho"@ || nome == "bytes_para_lista"@ || nome
        == "bytes_para_hex"@
}

/// O byte que um valor representa.
pub open spec fn byte_de(v: valor::Dado) -> Option<u8> {
    match v {
        valor::Dado::Inteiro(n) => if 0 <= n <= 255 {
            Some(n as u8)
        } else {
            None
        },
        valor::Dado::Numero(b, _) => if nao_negativo(b) && !decimal::menor(decimal::bits_de(255) as u64, b) {
            Some(decimal::indice(b) as u8)
        } else {
            None
        },
        _ => None,
    }
}

fn ler_byte(v: &Valor) -> (r: Option<u8>)
    ensures
        r == byte_de(v@),
{
    match v {
        Valor::Inteiro(n) => if 0 <= *n && *n <= 255 {
            Some(*n as u8)
        } else {
            None
        },
        Valor::Numero(d) => if !decimal::eh_nao_numero(d.bits) && !decimal::eh_menor(d.bits, 0) && !decimal::eh_menor(
            decimal::de_inteiro(255),
            d.bits,
        ) {
            let i = decimal::para_indice(d.bits);
            Some(
                #[verifier::truncate]
                (i as u8),
            )
        } else {
            None
        },
        _ => None,
    }
}

/// Os bytes de uma lista a partir do item `i`, depois dos que ja estao em `acc`.
pub open spec fn bytes_da_lista(l: Seq<valor::Dado>, i: int, acc: Seq<u8>) -> nativas_arvore::ChamadoVisto
    decreases l.len() - i,
{
    if i < 0 || i >= l.len() {
        nativas_arvore::da(valor::Dado::Bytes(acc))
    } else {
        match byte_de(l[i]) {
            Some(b) => bytes_da_lista(l, i + 1, acc.push(b)),
            None => nativas_arvore::recusa("bytes_de_lista: cada elemento deve ser 0-255, recebeu "@, l[i]),
        }
    }
}

fn juntar_bytes(l: &Vec<Valor>) -> (r: Chamado)
    ensures
        r@ == bytes_da_lista(valor::vistos(l@), 0, Seq::empty()),
{
    let ghost lv = valor::vistos(l@);
    let mut v: Vec<u8> = Vec::new();
    let mut i: usize = 0;
    assert(v@ =~= Seq::empty());
    while i < l.len()
        invariant
            i <= l@.len(),
            lv == valor::vistos(l@),
            bytes_da_lista(lv, 0, Seq::empty()) == bytes_da_lista(lv, i as int, v@),
        decreases l@.len() - i,
    {
        assert(lv[i as int] == l@[i as int]@);
        match ler_byte(&l[i]) {
            Some(b) => v.push(b),
            None => return recusar("bytes_de_lista: cada elemento deve ser 0-255, recebeu ", &l[i]),
        }
        i += 1;
    }
    dar(Valor::Bytes(v))
}

/// Os bytes de uma lista de bytes a partir do item `i`, depois dos que ja estao em `acc`.
pub open spec fn bytes_juntos(l: Seq<valor::Dado>, i: int, acc: Seq<u8>) -> nativas_arvore::ChamadoVisto
    decreases l.len() - i,
{
    if i < 0 || i >= l.len() {
        nativas_arvore::da(valor::Dado::Bytes(acc))
    } else {
        match l[i] {
            valor::Dado::Bytes(b) => bytes_juntos(l, i + 1, acc + b),
            v => nativas_arvore::recusa("bytes_concatenar: elemento nao e bytes: "@, v),
        }
    }
}

fn concatenar(l: &Vec<Valor>) -> (r: Chamado)
    ensures
        r@ == bytes_juntos(valor::vistos(l@), 0, Seq::empty()),
{
    let ghost lv = valor::vistos(l@);
    let mut v: Vec<u8> = Vec::new();
    let mut i: usize = 0;
    assert(v@ =~= Seq::empty());
    while i < l.len()
        invariant
            i <= l@.len(),
            lv == valor::vistos(l@),
            bytes_juntos(lv, 0, Seq::empty()) == bytes_juntos(lv, i as int, v@),
        decreases l@.len() - i,
    {
        assert(lv[i as int] == l@[i as int]@);
        match &l[i] {
            Valor::Bytes(b) => busca::acrescentar_bytes(&mut v, b.as_slice()),
            _ => return recusar("bytes_concatenar: elemento nao e bytes: ", &l[i]),
        }
        i += 1;
    }
    dar(Valor::Bytes(v))
}

/// As outras funcoes de um argumento.
pub open spec fn de_um(nome: Seq<char>, v: valor::Dado) -> nativas_arvore::ChamadoVisto {
    if nome == "json_serializar"@ {
        nativas_arvore::da(valor::Dado::Texto(json::json_de(v)))
    } else if nome == "csv_serializar"@ {
        match v {
            valor::Dado::Lista(l) => nativas_arvore::da(valor::Dado::Texto(csv::tabela_escrita(l, l.len() as int))),
            _ => nativas_arvore::requer(nome, "lista"@, v),
        }
    } else if nome == "bytes_de_lista"@ {
        match v {
            valor::Dado::Lista(l) => bytes_da_lista(l, 0, Seq::empty()),
            _ => nativas_arvore::requer(nome, "lista"@, v),
        }
    } else if nome == "bytes_concatenar"@ {
        match v {
            valor::Dado::Lista(l) => bytes_juntos(l, 0, Seq::empty()),
            _ => nativas_arvore::requer(nome, "lista de bytes"@, v),
        }
    } else {
        match v {
            valor::Dado::Bytes(b) => nativas_arvore::da(valor::Dado::Texto(cripto::base64_de(b))),
            valor::Dado::Texto(s) => nativas_arvore::da(valor::Dado::Texto(cripto::base64_de(bytes_do_texto(s)))),
            _ => nativas_arvore::requer(nome, "bytes ou texto"@, v),
        }
    }
}

fn com_um(nome: &str, v: &Valor) -> (r: Chamado)
    ensures
        r@ == de_um(nome@, v@),
{
    if nome.eq("json_serializar") {
        dar(Valor::Texto(valor_para_json(v)))
    } else if nome.eq("csv_serializar") {
        match v {
            Valor::Lista(l) => {
                assert(valor::vistos(l@).len() == l@.len());
                dar(Valor::Texto(csv::csv_serializar_linhas(l)))
            },
            _ => requerer(nome, "lista", v),
        }
    } else if nome.eq("bytes_de_lista") {
        match v {
            Valor::Lista(l) => juntar_bytes(l),
            _ => requerer(nome, "lista", v),
        }
    } else if nome.eq("bytes_concatenar") {
        match v {
            Valor::Lista(l) => concatenar(l),
            _ => requerer(nome, "lista de bytes", v),
        }
    } else {
        match v {
            Valor::Bytes(b) => dar(Valor::Texto(cripto::base64_codificar(b.as_slice()))),
            Valor::Texto(s) => dar(Valor::Texto(cripto::base64_codificar(s.as_str().as_bytes()))),
            _ => requerer(nome, "bytes ou texto", v),
        }
    }
}

/// Se uma funcao e das outras de um argumento.
pub open spec fn quer_outro(nome: Seq<char>) -> bool {
    nome == "json_serializar"@ || nome == "csv_serializar"@ || nome == "bytes_de_lista"@ || nome
        == "bytes_concatenar"@ || nome == "bytes_base64"@
}

// ---- Bytes com indices ------------------------------------------------------------------

/// Uma parte de bytes: o fim nao passa do ultimo, nem o comeco do fim.
pub open spec fn fatia_de_bytes(a: Seq<valor::Dado>) -> nativas_arvore::ChamadoVisto {
    let nome = "bytes_fatia"@;
    if a.len() < 3 {
        nativas_arvore::falha("bytes_fatia(bytes, ini, fim)"@)
    } else {
        match a[0] {
            valor::Dado::Bytes(b) => match (indice_de(a[1]), indice_de(a[2])) {
                (Some(i), Some(f)) => {
                    let f = nativas_valores::limitado(f, b.len());
                    let i = nativas_valores::limitado(i, f as nat);
                    nativas_arvore::da(valor::Dado::Bytes(b.subrange(i, f)))
                },
                (None, _) => sem_indice(nome, a[1]),
                (_, None) => sem_indice(nome, a[2]),
            },
            v => nativas_arvore::requer(nome, "bytes"@, v),
        }
    }
}

fn fatiar_bytes(args: &Vec<Valor>) -> (r: Chamado)
    ensures
        r@ == fatia_de_bytes(valor::vistos(args@)),
{
    let ghost a = valor::vistos(args@);
    assert(a.len() == args@.len());
    if args.len() < 3 {
        return falhar("bytes_fatia(bytes, ini, fim)");
    }
    assert(a[0] == args@[0]@ && a[1] == args@[1]@ && a[2] == args@[2]@);
    match &args[0] {
        Valor::Bytes(b) => {
            let i = match to_usize(&args[1]) {
                Some(i) => i,
                None => return requerer("bytes_fatia", "inteiro nao-negativo", &args[1]),
            };
            let f = match to_usize(&args[2]) {
                Some(f) => f,
                None => return requerer("bytes_fatia", "inteiro nao-negativo", &args[2]),
            };
            let f = if f < b.len() {
                f
            } else {
                b.len()
            };
            let i = if i < f {
                i
            } else {
                f
            };
            let p = vstd::slice::slice_subrange(b.as_slice(), i, f);
            dar(Valor::Bytes(busca::copia(p)))
        },
        _ => requerer("bytes_fatia", "bytes", &args[0]),
    }
}

/// Um byte.
pub open spec fn um_byte(a: Seq<valor::Dado>) -> nativas_arvore::ChamadoVisto {
    let nome = "bytes_obter"@;
    if a.len() < 2 {
        nativas_arvore::falha("bytes_obter(bytes, indice)"@)
    } else {
        match a[0] {
            valor::Dado::Bytes(b) => match indice_de(a[1]) {
                Some(i) => if i < b.len() {
                    nativas_arvore::da(valor::Dado::Inteiro(b[i] as i64))
                } else {
                    nativas_arvore::falha("bytes_obter: indice "@ + texto::decimal(i as nat) + " fora dos limites"@)
                },
                None => sem_indice(nome, a[1]),
            },
            v => nativas_arvore::requer(nome, "bytes"@, v),
        }
    }
}

fn obter_byte(args: &Vec<Valor>) -> (r: Chamado)
    ensures
        r@ == um_byte(valor::vistos(args@)),
{
    let ghost a = valor::vistos(args@);
    assert(a.len() == args@.len());
    if args.len() < 2 {
        return falhar("bytes_obter(bytes, indice)");
    }
    assert(a[0] == args@[0]@ && a[1] == args@[1]@);
    match &args[0] {
        Valor::Bytes(b) => match to_usize(&args[1]) {
            Some(i) => if i < b.len() {
                dar(Valor::Inteiro(b[i] as i64))
            } else {
                let t = texto::natural(i as u64);
                Chamado::Feito(Feito::Falha(frase("bytes_obter: indice ", t.as_str(), " fora dos limites")))
            },
            None => requerer("bytes_obter", "inteiro nao-negativo", &args[1]),
        },
        _ => requerer("bytes_obter", "bytes", &args[0]),
    }
}

// ---- Expressoes regulares ---------------------------------------------------------------

/// Os grupos como valores.
pub open spec fn grupos_em_valores(v: Seq<Option<Seq<char>>>) -> Seq<valor::Dado> {
    v.map_values(
        |g: Option<Seq<char>>|
            match g {
                Some(s) => valor::Dado::Texto(s),
                None => valor::Dado::Nulo,
            },
    )
}

fn dar_grupos(v: Vec<Option<String>>) -> (r: Vec<Valor>)
    ensures
        valor::vistos(r@) == grupos_em_valores(expressoes::grupos_vistos(v@)),
{
    let mut r: Vec<Valor> = Vec::new();
    let mut i: usize = 0;
    while i < v.len()
        invariant
            i <= v@.len(),
            r@.len() == i,
            forall|k: int|
                0 <= k < i ==> (#[trigger] r@[k])@ == (match v@[k] {
                    Some(s) => valor::Dado::Texto(s@),
                    None => valor::Dado::Nulo,
                }),
        decreases v@.len() - i,
    {
        r.push(
            match &v[i] {
                Some(s) => Valor::Texto(s.clone()),
                None => Valor::Nulo,
            },
        );
        i += 1;
    }
    assert(valor::vistos(r@) =~= grupos_em_valores(expressoes::grupos_vistos(v@)));
    r
}

/// Uma expressao regular sobre um texto.
pub open spec fn de_padrao(nome: Seq<char>, p: Seq<char>, t: Seq<char>) -> nativas_arvore::ChamadoVisto {
    match expressoes::erro_do_padrao(p) {
        Some(m) => nativas_arvore::falha("regex invalido: "@ + m),
        None => nativas_arvore::da(
            if nome == "regex_combinar"@ {
                match expressoes::grupos(p, t) {
                    Some(g) => valor::Dado::Lista(grupos_em_valores(g)),
                    None => valor::Dado::Nulo,
                }
            } else if nome == "regex_combinar_tudo"@ {
                valor::Dado::Lista(nativas_valores::em_valores(expressoes::ocorrencias(p, t)))
            } else {
                valor::Dado::Lista(nativas_valores::em_valores(expressoes::entre_ocorrencias(p, t)))
            },
        ),
    }
}

fn dizer_invalido(m: String) -> (r: Chamado)
    ensures
        r@ == nativas_arvore::falha("regex invalido: "@ + m@),
{
    let mut e = "regex invalido: ".to_owned();
    e.append(m.as_str());
    Chamado::Feito(Feito::Falha(e))
}

fn com_padrao(nome: &str, p: &str, t: &str) -> (r: Chamado)
    ensures
        r@ == de_padrao(nome@, p@, t@),
{
    if let Err(m) = expressoes::verificar(p) {
        return dizer_invalido(m);
    }
    if nome.eq("regex_combinar") {
        match expressoes::capturar(p, t) {
            Some(g) => dar(Valor::Lista(dar_grupos(g))),
            None => dar(Valor::Nulo),
        }
    } else if nome.eq("regex_combinar_tudo") {
        dar(Valor::Lista(textos_em_valores(expressoes::procurar(p, t))))
    } else {
        dar(Valor::Lista(textos_em_valores(expressoes::dividir(p, t))))
    }
}

/// A falha de um argumento que nao e texto.
pub open spec fn deve_ser_texto(nome: Seq<char>, qual: Seq<char>, v: valor::Dado) -> nativas_arvore::ChamadoVisto {
    nativas_arvore::recusa("'"@ + nome + "' "@ + qual + " deve ser texto, recebeu "@, v)
}

fn exigir_texto(nome: &str, qual: &str, v: &Valor) -> (r: Chamado)
    ensures
        r@ == deve_ser_texto(nome@, qual@, v@),
{
    let mut s = frase("'", nome, "' ");
    s.append(qual);
    s.append(" deve ser texto, recebeu ");
    recusar(s.as_str(), v)
}

/// As funcoes de dois argumentos.
pub open spec fn de_dois(nome: Seq<char>, a: valor::Dado, b: valor::Dado) -> nativas_arvore::ChamadoVisto {
    if nome == "hmac_sha256"@ {
        match (a, b) {
            (valor::Dado::Texto(m), valor::Dado::Texto(k)) => nativas_arvore::da(
                valor::Dado::Texto(
                    cripto::hexadecimal(cripto::autenticacao(bytes_do_texto(k), bytes_do_texto(m))),
                ),
            ),
            (valor::Dado::Texto(_), _) => deve_ser_texto(nome, "chave"@, b),
            _ => deve_ser_texto(nome, "mensagem"@, a),
        }
    } else if nome == "formatar"@ {
        match (a, b) {
            (valor::Dado::Texto(p), valor::Dado::Mapa(m)) => match formatacao::preenchido(
                p,
                0,
                Seq::empty(),
                m,
                Seq::empty(),
            ) {
                formatacao::EscritoVisto::Pronto(t) => nativas_arvore::da(valor::Dado::Texto(t)),
                formatacao::EscritoVisto::Falta(_, _) => nativas_arvore::ChamadoVisto::Pedida,
            },
            (valor::Dado::Texto(_), _) => nativas_arvore::requer(nome, "mapa como segundo argumento"@, b),
            _ => nativas_arvore::requer(nome, "texto como primeiro argumento"@, a),
        }
    } else {
        match (a, b) {
            (valor::Dado::Texto(p), valor::Dado::Texto(t)) => de_padrao(nome, p, t),
            (valor::Dado::Texto(_), _) => deve_ser_texto(nome, "texto"@, b),
            _ => deve_ser_texto(nome, "padrao"@, a),
        }
    }
}

fn preencher(p: &str, m: &Vec<(String, Valor)>) -> (r: Chamado)
    ensures
        r@ == de_dois("formatar"@, valor::Dado::Texto(p@), valor::Dado::Mapa(valor::pares_vistos(m@))),
{
    proof {
        reveal_strlit("formatar");
        reveal_strlit("hmac_sha256");
        assert("formatar"@.len() == 8 && "hmac_sha256"@.len() == 11);
    }
    let ps: Vec<(String, usize, String)> = Vec::new();
    assert(formatacao::sabidos_vistos(ps@) =~= Seq::empty());
    match formatar_padrao(p, m, &ps) {
        Escrito::Pronto(t) => dar(Valor::Texto(t)),
        Escrito::Falta(_, _) => Chamado::Pedida,
    }
}

fn com_dois(nome: &str, a: &Valor, b: &Valor) -> (r: Chamado)
    ensures
        r@ == de_dois(nome@, a@, b@),
{
    if nome.eq("hmac_sha256") {
        match (a, b) {
            (Valor::Texto(m), Valor::Texto(k)) => {
                let h = cripto::hmac_sha256(k.as_str().as_bytes(), m.as_str().as_bytes());
                dar(Valor::Texto(cripto::hex_de(h.as_slice())))
            },
            (Valor::Texto(_), _) => exigir_texto(nome, "chave", b),
            _ => exigir_texto(nome, "mensagem", a),
        }
    } else if nome.eq("formatar") {
        match (a, b) {
            (Valor::Texto(p), Valor::Mapa(m)) => preencher(p.as_str(), m),
            (Valor::Texto(_), _) => requerer(nome, "mapa como segundo argumento", b),
            _ => requerer(nome, "texto como primeiro argumento", a),
        }
    } else {
        match (a, b) {
            (Valor::Texto(p), Valor::Texto(t)) => com_padrao(nome, p.as_str(), t.as_str()),
            (Valor::Texto(_), _) => exigir_texto(nome, "texto", b),
            _ => exigir_texto(nome, "padrao", a),
        }
    }
}

/// Se uma funcao e de dois argumentos.
pub open spec fn quer_dois(nome: Seq<char>) -> bool {
    nome == "hmac_sha256"@ || nome == "formatar"@ || nome == "regex_combinar"@ || nome == "regex_combinar_tudo"@
        || nome == "regex_dividir"@
}

/// A troca das ocorrencias de um padrao.
pub open spec fn troca(a: Seq<valor::Dado>) -> nativas_arvore::ChamadoVisto {
    let nome = "regex_substituir"@;
    if a.len() < 3 {
        nativas_arvore::falha("'regex_substituir' requer 3 argumentos: padrao, substituto, texto"@)
    } else {
        match (a[0], a[1], a[2]) {
            (valor::Dado::Texto(p), valor::Dado::Texto(por), valor::Dado::Texto(t)) => match expressoes::erro_do_padrao(
                p,
            ) {
                Some(m) => nativas_arvore::falha("regex invalido: "@ + m),
                None => nativas_arvore::da(valor::Dado::Texto(expressoes::trocadas(p, por, t))),
            },
            (valor::Dado::Texto(_), valor::Dado::Texto(_), v) => deve_ser_texto(nome, "texto"@, v),
            (valor::Dado::Texto(_), v, _) => deve_ser_texto(nome, "substituto"@, v),
            (v, _, _) => deve_ser_texto(nome, "padrao"@, v),
        }
    }
}

fn trocar_ocorrencias(args: &Vec<Valor>) -> (r: Chamado)
    ensures
        r@ == troca(valor::vistos(args@)),
{
    let ghost a = valor::vistos(args@);
    assert(a.len() == args@.len());
    if args.len() < 3 {
        return falhar("'regex_substituir' requer 3 argumentos: padrao, substituto, texto");
    }
    assert(a[0] == args@[0]@ && a[1] == args@[1]@ && a[2] == args@[2]@);
    match (&args[0], &args[1], &args[2]) {
        (Valor::Texto(p), Valor::Texto(por), Valor::Texto(t)) => match expressoes::verificar(p.as_str()) {
            Err(m) => dizer_invalido(m),
            Ok(_) => dar(Valor::Texto(expressoes::trocar(p.as_str(), por.as_str(), t.as_str()))),
        },
        (Valor::Texto(_), Valor::Texto(_), v) => exigir_texto("regex_substituir", "texto", v),
        (Valor::Texto(_), v, _) => exigir_texto("regex_substituir", "substituto", v),
        (v, _, _) => exigir_texto("regex_substituir", "padrao", v),
    }
}

// ---- Todas ------------------------------------------------------------------------------

/// As funcoes deste modulo.
pub open spec fn de_dados(nome: Seq<char>, a: Seq<valor::Dado>) -> Option<nativas_arvore::ChamadoVisto> {
    if quer_texto(nome) || quer_bytes(nome) || quer_outro(nome) {
        Some(
            if a.len() != 1 {
                nativas_arvore::quer(nome, 1, a.len())
            } else if quer_texto(nome) {
                match a[0] {
                    valor::Dado::Texto(s) => de_texto(nome, s),
                    v => nativas_arvore::requer(nome, "texto"@, v),
                }
            } else if quer_bytes(nome) {
                match a[0] {
                    valor::Dado::Bytes(b) => de_bytes(nome, b),
                    v => nativas_arvore::requer(nome, "bytes"@, v),
                }
            } else {
                de_um(nome, a[0])
            },
        )
    } else if quer_dois(nome) {
        Some(
            if a.len() != 2 {
                nativas_arvore::quer(nome, 2, a.len())
            } else {
                de_dois(nome, a[0], a[1])
            },
        )
    } else if nome == "bytes_fatia"@ {
        Some(fatia_de_bytes(a))
    } else if nome == "bytes_obter"@ {
        Some(um_byte(a))
    } else if nome == "regex_substituir"@ {
        Some(troca(a))
    } else {
        None
    }
}

/// As funcoes deste modulo.
pub fn com_dados(nome: &str, args: &Vec<Valor>) -> (r: Option<Chamado>)
    ensures
        nativas_arvore::talvez(r) == de_dados(nome@, valor::vistos(args@)),
{
    let ghost a = valor::vistos(args@);
    assert(a.len() == args@.len());
    let k = args.len();
    assert(k > 0 ==> a[0] == args@[0]@);
    assert(k > 1 ==> a[1] == args@[1]@);
    let t = pede_texto(nome);
    let b = nome.eq("bytes_para_texto") || nome.eq("bytes_tamanho") || nome.eq("bytes_para_lista") || nome.eq(
        "bytes_para_hex",
    );
    let o = nome.eq("json_serializar") || nome.eq("csv_serializar") || nome.eq("bytes_de_lista") || nome.eq(
        "bytes_concatenar",
    ) || nome.eq("bytes_base64");
    if t || b || o {
        if k != 1 {
            return Some(querer(nome, 1, k));
        }
        return Some(
            if t {
                match &args[0] {
                    Valor::Texto(s) => com_texto(nome, s.as_str()),
                    _ => requerer(nome, "texto", &args[0]),
                }
            } else if b {
                match &args[0] {
                    Valor::Bytes(x) => com_bytes(nome, x),
                    _ => requerer(nome, "bytes", &args[0]),
                }
            } else {
                com_um(nome, &args[0])
            },
        );
    }
    if nome.eq("hmac_sha256") || nome.eq("formatar") || nome.eq("regex_combinar") || nome.eq("regex_combinar_tudo")
        || nome.eq("regex_dividir") {
        if k != 2 {
            return Some(querer(nome, 2, k));
        }
        return Some(com_dois(nome, &args[0], &args[1]));
    }
    if nome.eq("bytes_fatia") {
        return Some(fatiar_bytes(args));
    }
    if nome.eq("bytes_obter") {
        return Some(obter_byte(args));
    }
    if nome.eq("regex_substituir") {
        return Some(trocar_ocorrencias(args));
    }
    None
}

} // verus!
