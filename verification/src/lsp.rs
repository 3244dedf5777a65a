//! O servidor de linguagem: diagnosticos, descricoes e simbolos de um documento.

use vstd::prelude::*;
use vstd::utf8;
use crate::busca;
use crate::fonte;
use crate::fonte::ErroFonte;
use crate::lexer;
use crate::texto;

verus! {

/// As palavras-chave da linguagem.
pub open spec fn palavras() -> Seq<Seq<char>> {
    seq![
        "var"@,
        "se"@,
        "senao"@,
        "enquanto"@,
        "para"@,
        "funcao"@,
        "retornar"@,
        "imprimir"@,
        "tentar"@,
        "capturar"@,
        "finalmente"@,
        "lancar"@,
        "importar"@,
        "incluir"@,
        "como"@,
        "verdadeiro"@,
        "falso"@,
        "nulo"@,
        "e"@,
        "ou"@,
        "nao"@,
        "em"@,
        "de"@,
        "ate"@,
        "passo"@,
    ]
}

/// Se e uma palavra-chave.
pub fn eh_palavra(p: &str) -> (r: bool)
    ensures
        r == palavras().contains(p@),
{
    let v = lista_palavras();
    let ghost t = texto::textos(v@);
    for i in 0..v.len()
        invariant
            t == texto::textos(v@),
            t == palavras(),
            forall|k: int| 0 <= k < i ==> t[k] != p@,
    {
        assert(t[i as int] == v@[i as int]@);
        if v[i].as_str().eq(p) {
            return true;
        }
    }
    assert(t.len() == v@.len());
    false
}

/// As palavras-chave.
pub fn lista_palavras() -> (r: Vec<String>)
    ensures
        texto::textos(r@) == palavras(),
{
    let mut r: Vec<String> = Vec::new();
    r.push("var".to_owned());
    r.push("se".to_owned());
    r.push("senao".to_owned());
    r.push("enquanto".to_owned());
    r.push("para".to_owned());
    r.push("funcao".to_owned());
    r.push("retornar".to_owned());
    r.push("imprimir".to_owned());
    r.push("tentar".to_owned());
    r.push("capturar".to_owned());
    r.push("finalmente".to_owned());
    r.push("lancar".to_owned());
    r.push("importar".to_owned());
    r.push("incluir".to_owned());
    r.push("como".to_owned());
    r.push("verdadeiro".to_owned());
    r.push("falso".to_owned());
    r.push("nulo".to_owned());
    r.push("e".to_owned());
    r.push("ou".to_owned());
    r.push("nao".to_owned());
    r.push("em".to_owned());
    r.push("de".to_owned());
    r.push("ate".to_owned());
    r.push("passo".to_owned());
    assert(texto::textos(r@) =~= palavras());
    r
}

/// As funcoes nativas que se sugerem.
pub open spec fn nativas() -> Seq<Seq<char>> {
    seq![
        "texto"@,
        "numero"@,
        "inteiro"@,
        "tipo"@,
        "tamanho"@,
        "adicionar"@,
        "mapa_obter"@,
        "mapa_definir"@,
        "ler_arquivo"@,
        "escrever_arquivo"@,
        "json_serializar"@,
        "json_deserializar"@,
        "sqlite_conectar"@,
        "sqlite_consultar"@,
        "sqlite_executar"@,
        "obter_url"@,
        "postar_url"@,
        "pdf_extrair_texto"@,
        "pdf_extrair_texto_com_ocr"@,
    ]
}

/// Se e uma funcao nativa que se sugere.
pub fn eh_nativa(p: &str) -> (r: bool)
    ensures
        r == nativas().contains(p@),
{
    let v = lista_nativas();
    let ghost t = texto::textos(v@);
    for i in 0..v.len()
        invariant
            t == texto::textos(v@),
            t == nativas(),
            forall|k: int| 0 <= k < i ==> t[k] != p@,
    {
        assert(t[i as int] == v@[i as int]@);
        if v[i].as_str().eq(p) {
            return true;
        }
    }
    assert(t.len() == v@.len());
    false
}

/// As funcoes nativas que se sugerem.
pub fn lista_nativas() -> (r: Vec<String>)
    ensures
        texto::textos(r@) == nativas(),
{
    let mut r: Vec<String> = Vec::new();
    r.push("texto".to_owned());
    r.push("numero".to_owned());
    r.push("inteiro".to_owned());
    r.push("tipo".to_owned());
    r.push("tamanho".to_owned());
    r.push("adicionar".to_owned());
    r.push("mapa_obter".to_owned());
    r.push("mapa_definir".to_owned());
    r.push("ler_arquivo".to_owned());
    r.push("escrever_arquivo".to_owned());
    r.push("json_serializar".to_owned());
    r.push("json_deserializar".to_owned());
    r.push("sqlite_conectar".to_owned());
    r.push("sqlite_consultar".to_owned());
    r.push("sqlite_executar".to_owned());
    r.push("obter_url".to_owned());
    r.push("postar_url".to_owned());
    r.push("pdf_extrair_texto".to_owned());
    r.push("pdf_extrair_texto_com_ocr".to_owned());
    assert(texto::textos(r@) =~= nativas());
    r
}

/// Se o caractere tem valor numerico no Unicode.
pub uninterp spec fn numerico(c: char) -> bool;

/// `char::is_numeric`: as categorias numericas; entre os caracteres ASCII sao os algarismos e so
/// eles.
#[verifier::external_body]
fn eh_numerico(c: char) -> (r: bool)
    ensures
        r == numerico(c),
        (c as u32) < 128 ==> r == ('0' <= c <= '9'),
{
    c.is_numeric()
}

/// Se o caractere pode fazer parte de uma palavra.
pub open spec fn de_palavra(c: char) -> bool {
    lexer::alfabetico(c) || numerico(c) || c == '_'
}

fn eh_de_palavra(c: char) -> (r: bool)
    ensures
        r == de_palavra(c),
{
    lexer::eh_alfabetico(c) || eh_numerico(c) || c == '_'
}

/// O inicio da palavra que acaba em `p`.
pub open spec fn inicio_palavra(s: Seq<char>, p: int) -> int
    decreases p,
{
    if p <= 0 || p > s.len() || !de_palavra(s[p - 1]) {
        p
    } else {
        inicio_palavra(s, p - 1)
    }
}

/// O fim da palavra que comeca em `p`.
pub open spec fn fim_palavra(s: Seq<char>, p: int) -> int
    decreases s.len() - p,
{
    if p < 0 || p >= s.len() || !de_palavra(s[p]) {
        p
    } else {
        fim_palavra(s, p + 1)
    }
}

/// A palavra de um documento numa linha e coluna, que se contam de zero. Nao ha palavra
/// numa linha que nao existe.
pub open spec fn palavra_de(s: Seq<char>, linha: int, coluna: int) -> Option<Seq<char>> {
    let ls = texto::linhas(s, 0);
    if linha >= ls.len() {
        None
    } else {
        let l = ls[linha];
        let p = if coluna < l.len() {
            coluna
        } else {
            l.len() as int
        };
        Some(l.subrange(inicio_palavra(l, p), fim_palavra(l, p)))
    }
}

/// A palavra que esta sob o cursor.
pub fn palavra_em(fonte: &str, linha: usize, coluna: usize) -> (r: Option<String>)
    ensures
        match r {
            Some(p) => palavra_de(fonte@, linha as int, coluna as int) == Some(p@),
            None => palavra_de(fonte@, linha as int, coluna as int) is None,
        },
{
    let cs = texto::caracteres(fonte);
    let ls = texto::separar_linhas(&cs);
    assert(texto::textos(ls@).len() == ls@.len());
    if linha >= ls.len() {
        return None;
    }
    let l = texto::caracteres(ls[linha].as_str());
    assert(l@ == texto::linhas(fonte@, 0)[linha as int]);
    let pos: usize = if coluna < l.len() {
        coluna
    } else {
        l.len()
    };
    let mut inicio: usize = pos;
    while inicio > 0 && eh_de_palavra(l[inicio - 1])
        invariant
            inicio <= pos <= l@.len(),
            inicio_palavra(l@, pos as int) == inicio_palavra(l@, inicio as int),
        decreases inicio,
    {
        inicio -= 1;
    }
    let mut fim: usize = pos;
    while fim < l.len() && eh_de_palavra(l[fim])
        invariant
            pos <= fim <= l@.len(),
            fim_palavra(l@, pos as int) == fim_palavra(l@, fim as int),
        decreases l@.len() - fim,
    {
        fim += 1;
    }
    Some(texto::de_caracteres(vstd::slice::slice_subrange(&l, inicio, fim)))
}

/// Verifica um programa.
pub fn validar(codigo: &str) -> (r: Result<(), ErroFonte>)
    requires
        4 * codigo@.len() < usize::MAX,
    ensures
        match r {
            Ok(_) => fonte::programa_de(codigo@) is Ok,
            Err(e) => fonte::programa_de(codigo@) matches Err(f) && f == e@,
        },
{
    match fonte::analisar(codigo) {
        Ok(_) => Ok(()),
        Err(e) => Err(e),
    }
}

/// A descricao de uma palavra.
pub open spec fn descricao_de(p: Seq<char>) -> Seq<char> {
    if palavras().contains(p) {
        "`"@ + p + "` — palavra-chave da linguagem PEP"@
    } else if nativas().contains(p) {
        "`"@ + p + "(...)` — funcao nativa PEP"@
    } else {
        "`"@ + p + "`"@
    }
}

/// Descreve uma palavra.
pub fn descrever(p: &str) -> (r: String)
    ensures
        r@ == descricao_de(p@),
{
    let mut r = "`".to_owned();
    r.append(p);
    if eh_palavra(p) {
        r.append("` — palavra-chave da linguagem PEP");
    } else if eh_nativa(p) {
        r.append("(...)` — funcao nativa PEP");
    } else {
        r.append("`");
    }
    r
}

/// O que se descreve na posicao do cursor de um documento aberto, ou vazio.
pub fn hover(documento: Option<&str>, linha: usize, coluna: usize) -> (r: String)
    ensures
        r@ == descricao_de(
            match documento {
                Some(d) => match palavra_de(d@, linha as int, coluna as int) {
                    Some(p) => p,
                    None => Seq::empty(),
                },
                None => Seq::empty(),
            },
        ),
{
    let palavra = match documento {
        Some(d) => match palavra_em(d, linha, coluna) {
            Some(p) => p,
            None => String::new(),
        },
        None => String::new(),
    };
    descrever(palavra.as_str())
}

/// Um simbolo de um documento: o nome, o tipo do protocolo, a linha e quantos bytes ela tem.
pub struct Simbolo {
    pub nome: String,
    pub tipo: u8,
    pub linha: usize,
    pub comprimento: usize,
}

/// O nome que vem antes do primeiro parentese.
pub open spec fn nome_de_funcao(resto: Seq<char>) -> Seq<char> {
    texto::aparado(resto.take(texto::proximo(resto, '(', 0)))
}

/// O nome que vem antes do primeiro espaco ou igual.
pub open spec fn nome_de_variavel(resto: Seq<char>) -> Seq<char> {
    let a = texto::proximo(resto, '=', 0);
    let b = texto::proximo(resto, ' ', 0);
    texto::aparado(
        resto.take(
            if a < b {
                a
            } else {
                b
            },
        ),
    )
}

/// O nome e o tipo que uma linha declara.
pub open spec fn declarado(linha: Seq<char>) -> Option<(Seq<char>, u8)> {
    let l = texto::aparado_inicio(linha);
    let achado = if busca::comeca(l, "funcao "@) {
        Some((nome_de_funcao(l.skip(7)), 12u8))
    } else if busca::comeca(l, "var "@) {
        Some((nome_de_variavel(l.skip(4)), 13u8))
    } else {
        None
    };
    match achado {
        Some((n, t)) => if n.len() == 0 {
            None
        } else {
            Some((n, t))
        },
        None => None,
    }
}

fn declaracao(linha: &str) -> (r: Option<(String, u8)>)
    ensures
        match r {
            Some((n, t)) => declarado(linha@) == Some((n@, t)),
            None => declarado(linha@) is None,
        },
{
    let cs = texto::caracteres(linha);
    let l = texto::aparar_inicio(&cs);
    let funcao = texto::caracteres("funcao ");
    let var = texto::caracteres("var ");
    proof {
        reveal_strlit("funcao ");
        reveal_strlit("var ");
    }
    if busca::comeca_com(l, &funcao) {
        let resto = vstd::slice::slice_subrange(l, 7, l.len());
        assert(resto@ =~= l@.skip(7));
        let f = texto::achar(resto, '(', 0);
        let antes = vstd::slice::slice_subrange(resto, 0, f);
        assert(antes@ =~= resto@.take(f as int));
        let nome = texto::de_caracteres(texto::aparar(antes));
        if nome.as_str().is_empty() {
            None
        } else {
            Some((nome, 12))
        }
    } else if busca::comeca_com(l, &var) {
        let resto = vstd::slice::slice_subrange(l, 4, l.len());
        assert(resto@ =~= l@.skip(4));
        let a = texto::achar(resto, '=', 0);
        let b = texto::achar(resto, ' ', 0);
        let f: usize = if a < b {
            a
        } else {
            b
        };
        let antes = vstd::slice::slice_subrange(resto, 0, f);
        assert(antes@ =~= resto@.take(f as int));
        let nome = texto::de_caracteres(texto::aparar(antes));
        if nome.as_str().is_empty() {
            None
        } else {
            Some((nome, 13))
        }
    } else {
        None
    }
}

/// Um simbolo visto como valor matematico.
pub open spec fn visto(s: Simbolo) -> (Seq<char>, u8, int, int) {
    (s.nome@, s.tipo, s.linha as int, s.comprimento as int)
}

/// Os simbolos das primeiras `n` linhas.
pub open spec fn simbolos_de(ls: Seq<Seq<char>>, n: int) -> Seq<(Seq<char>, u8, int, int)>
    decreases n,
{
    if n <= 0 || n > ls.len() {
        Seq::empty()
    } else {
        let antes = simbolos_de(ls, n - 1);
        match declarado(ls[n - 1]) {
            Some((nome, tipo)) => antes.push((nome, tipo, n - 1, utf8::encode_utf8(ls[n - 1]).len() as int)),
            None => antes,
        }
    }
}

/// Os simbolos de um documento.
pub fn simbolos(codigo: &str) -> (r: Vec<Simbolo>)
    ensures
        r@.map(|i: int, s: Simbolo| visto(s)) == simbolos_de(
            texto::linhas(codigo@, 0),
            texto::linhas(codigo@, 0).len() as int,
        ),
{
    let cs = texto::caracteres(codigo);
    let ls = texto::separar_linhas(&cs);
    let ghost t = texto::linhas(codigo@, 0);
    let mut r: Vec<Simbolo> = Vec::new();
    assert(texto::textos(ls@).len() == ls@.len());
    assert(r@.map(|i: int, s: Simbolo| visto(s)) =~= simbolos_de(t, 0));
    for i in 0..ls.len()
        invariant
            t == texto::textos(ls@),
            r@.map(|i: int, s: Simbolo| visto(s)) == simbolos_de(t, i as int),
    {
        let ghost antes = r@;
        assert(t[i as int] == ls@[i as int]@);
        if let Some((nome, tipo)) = declaracao(ls[i].as_str()) {
            let comprimento = ls[i].as_str().as_bytes().len();
            r.push(Simbolo { nome, tipo, linha: i, comprimento });
            assert(r@.map(|i: int, s: Simbolo| visto(s)) =~= antes.map(|i: int, s: Simbolo| visto(s)).push(
                (nome@, tipo, i as int, comprimento as int),
            ));
        }
    }
    r
}

/// As palavras de um texto, separadas por espacos em branco, a partir de `i`.
pub open spec fn palavras_em(s: Seq<char>, i: int) -> Seq<Seq<char>>
    decreases s.len() - i,
{
    if i < 0 || i >= s.len() {
        Seq::empty()
    } else if texto::espaco(s[i]) {
        palavras_em(s, i + 1)
    } else {
        proof {
            lema_fim_da_palavra(s, i);
        }
        let f = fim_sem_espaco(s, i);
        seq![s.subrange(i, f)] + palavras_em(s, f)
    }
}

/// A posicao do primeiro espaco a partir de `i`.
pub open spec fn fim_sem_espaco(s: Seq<char>, i: int) -> int
    decreases s.len() - i,
{
    if i < 0 || i >= s.len() || texto::espaco(s[i]) {
        i
    } else {
        fim_sem_espaco(s, i + 1)
    }
}

pub proof fn lema_fim_da_palavra(s: Seq<char>, i: int)
    requires
        0 <= i <= s.len(),
    ensures
        i <= fim_sem_espaco(s, i) <= s.len(),
        i < s.len() && !texto::espaco(s[i]) ==> i < fim_sem_espaco(s, i),
    decreases s.len() - i,
{
    if i < s.len() && !texto::espaco(s[i]) {
        lema_fim_da_palavra(s, i + 1);
    }
}

/// `str::split_whitespace`.
pub fn separar_palavras(s: &[char]) -> (r: Vec<String>)
    ensures
        texto::textos(r@) == palavras_em(s@, 0),
{
    let mut r: Vec<String> = Vec::new();
    let mut i: usize = 0;
    assert(texto::textos(r@) + palavras_em(s@, 0) =~= palavras_em(s@, 0));
    while i < s.len()
        invariant
            i <= s@.len(),
            texto::textos(r@) + palavras_em(s@, i as int) == palavras_em(s@, 0),
        decreases s@.len() - i,
    {
        if texto::eh_espaco(s[i]) {
            i += 1;
        } else {
            let inicio: usize = i;
            let mut f: usize = i;
            proof {
                lema_fim_da_palavra(s@, i as int);
            }
            while f < s.len() && !texto::eh_espaco(s[f])
                invariant
                    inicio <= f <= s@.len(),
                    fim_sem_espaco(s@, inicio as int) == fim_sem_espaco(s@, f as int),
                decreases s@.len() - f,
            {
                f += 1;
            }
            let ghost antes = r@;
            let p = texto::de_caracteres(vstd::slice::slice_subrange(s, inicio, f));
            r.push(p);
            assert(texto::textos(r@) =~= texto::textos(antes).push(p@));
            assert(palavras_em(s@, inicio as int) == seq![p@] + palavras_em(s@, f as int));
            assert(texto::textos(r@) + palavras_em(s@, f as int) =~= texto::textos(antes) + palavras_em(
                s@,
                inicio as int,
            ));
            i = f;
        }
    }
    assert(texto::textos(r@) =~= palavras_em(s@, 0));
    r
}

/// O texto sem as ocorrencias de `c` no fim.
pub open spec fn sem_fim(s: Seq<char>, c: char) -> Seq<char>
    decreases s.len(),
{
    if s.len() > 0 && s.last() == c {
        sem_fim(s.drop_last(), c)
    } else {
        s
    }
}

/// `str::trim_end_matches` por um caractere.
pub fn aparar_fim_de(s: &str, c: char) -> (r: String)
    ensures
        r@ == sem_fim(s@, c),
{
    let v = texto::caracteres(s);
    let mut f: usize = v.len();
    assert(v@.take(f as int) =~= v@);
    while f > 0 && v[f - 1] == c
        invariant
            f <= v@.len(),
            v@ == s@,
            sem_fim(s@, c) == sem_fim(v@.take(f as int), c),
        decreases f,
    {
        assert(v@.take(f as int).drop_last() =~= v@.take(f - 1));
        f -= 1;
    }
    let r = texto::de_caracteres(vstd::slice::slice_subrange(&v, 0, f));
    assert(r@ =~= v@.take(f as int));
    r
}

/// A linha que se segue a palavra "Linha" a partir da palavra `i`, se for um numero.
pub open spec fn linha_nas_palavras(ps: Seq<Seq<char>>, i: int) -> int
    decreases ps.len() - i,
{
    if i < 0 || i + 1 >= ps.len() {
        1
    } else if sem_fim(ps[i], ':') == "Linha"@ && busca::lido_natural(sem_fim(ps[i + 1], ':'), usize::MAX as nat) is Some {
        busca::lido_natural(sem_fim(ps[i + 1], ':'), usize::MAX as nat)->Some_0 as int
    } else {
        linha_nas_palavras(ps, i + 1)
    }
}

/// A linha de que uma mensagem de erro fala: a que se segue a "Linha", ou a primeira.
pub fn linha_da_mensagem(mensagem: &str) -> (r: usize)
    ensures
        r == linha_nas_palavras(palavras_em(mensagem@, 0), 0),
{
    let cs = texto::caracteres(mensagem);
    let ps = separar_palavras(&cs);
    let ghost t = texto::textos(ps@);
    assert(t.len() == ps@.len());
    let mut i: usize = 0;
    while i < ps.len() && ps.len() - i > 1
        invariant
            i <= ps@.len(),
            t == texto::textos(ps@),
            t == palavras_em(mensagem@, 0),
            t.len() == ps@.len(),
            linha_nas_palavras(t, 0) == linha_nas_palavras(t, i as int),
        decreases ps@.len() - i,
    {
        assert(t[i as int] == ps@[i as int]@ && t[i + 1] == ps@[i + 1]@);
        let a = aparar_fim_de(ps[i].as_str(), ':');
        if a.as_str().eq("Linha") {
            let b = aparar_fim_de(ps[i + 1].as_str(), ':');
            if let Some(n) = busca::ler_natural(b.as_str(), usize::MAX as u64) {
                return n as usize;
            }
        }
        i += 1;
    }
    1
}

/// O que uma notificacao do editor pede.
#[derive(Debug, Clone, Copy, PartialEq, Eq, Structural)]
pub enum Notificacao {
    Abrir,
    Mudar,
    Fechar,
    Outra,
}

/// O que uma notificacao do editor pede, pelo nome do metodo.
pub fn notificacao_de(metodo: &str) -> (r: Notificacao)
    ensures
        r == Notificacao::Abrir <==> metodo@ == "textDocument/didOpen"@,
        r == Notificacao::Mudar <==> metodo@ == "textDocument/didChange"@,
        r == Notificacao::Fechar <==> metodo@ == "textDocument/didClose"@,
{
    proof {
        reveal_strlit("textDocument/didOpen");
        reveal_strlit("textDocument/didChange");
        reveal_strlit("textDocument/didClose");
        assert("textDocument/didOpen"@.len() == 20 && "textDocument/didChange"@.len() == 22
            && "textDocument/didClose"@.len() == 21);
    }
    if metodo.eq("textDocument/didOpen") {
        Notificacao::Abrir
    } else if metodo.eq("textDocument/didChange") {
        Notificacao::Mudar
    } else if metodo.eq("textDocument/didClose") {
        Notificacao::Fechar
    } else {
        Notificacao::Outra
    }
}

/// O que uma requisicao do editor pede.
#[derive(Debug, Clone, Copy, PartialEq, Eq, Structural)]
pub enum Pergunta {
    Completar,
    Descrever,
    Simbolos,
    Desconhecida,
}

/// O que uma requisicao do editor pede, pelo nome do metodo.
pub fn pergunta_de(metodo: &str) -> (r: Pergunta)
    ensures
        r == Pergunta::Completar <==> metodo@ == "textDocument/completion"@,
        r == Pergunta::Descrever <==> metodo@ == "textDocument/hover"@,
        r == Pergunta::Simbolos <==> metodo@ == "textDocument/documentSymbol"@,
{
    proof {
        reveal_strlit("textDocument/completion");
        reveal_strlit("textDocument/hover");
        reveal_strlit("textDocument/documentSymbol");
        assert("textDocument/completion"@.len() == 23 && "textDocument/hover"@.len() == 18
            && "textDocument/documentSymbol"@.len() == 27);
    }
    if metodo.eq("textDocument/completion") {
        Pergunta::Completar
    } else if metodo.eq("textDocument/hover") {
        Pergunta::Descrever
    } else if metodo.eq("textDocument/documentSymbol") {
        Pergunta::Simbolos
    } else {
        Pergunta::Desconhecida
    }
}

} // verus!
