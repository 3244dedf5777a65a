//! A leitura de uma requisicao HTTP: a primeira linha, os cabecalhos e os formularios.

use vstd::prelude::*;
use vstd::utf8;
use crate::busca;
use crate::fastcgi;
use crate::lsp;
use crate::tabela::Tabela;
use crate::texto;

verus! {

/// O maior corpo aceito, se a configuracao nao diz outro.
pub const LIMITE_CORPO_PADRAO: usize = 4194304;

/// O maior tamanho de todos os cabecalhos.
pub const LIMITE_CABECALHOS: usize = 65536;

/// O maior tamanho de uma linha.
pub const LIMITE_LINHA: usize = 8192;

/// Uma requisicao.
pub struct Requisicao {
    pub metodo: String,
    pub caminho_url: String,
    pub query_str: String,
    pub cabecalhos: Tabela<String>,
    pub corpo: Vec<u8>,
}

/// Por que uma requisicao nao se atende.
#[derive(Debug, Clone, Copy, PartialEq, Eq, Structural)]
pub enum ErroRequisicao {
    Invalida,
    CabecalhosGrandes,
    CorpoGrande,
    CodificacaoNaoSuportada,
}

/// O codigo e a mensagem com que se responde a uma requisicao que nao se atende.
pub fn resposta_de_erro(e: ErroRequisicao) -> (r: (u16, &'static str))
    ensures
        match e {
            ErroRequisicao::Invalida => r.0 == 400 && r.1@ == "Requisicao invalida"@,
            ErroRequisicao::CabecalhosGrandes => r.0 == 431 && r.1@ == "Cabecalhos muito grandes"@,
            ErroRequisicao::CorpoGrande => r.0 == 413 && r.1@ == "Corpo da requisicao muito grande"@,
            ErroRequisicao::CodificacaoNaoSuportada => r.0 == 501 && r.1@ == "Transfer-Encoding nao suportado"@,
        },
{
    match e {
        ErroRequisicao::Invalida => (400, "Requisicao invalida"),
        ErroRequisicao::CabecalhosGrandes => (431, "Cabecalhos muito grandes"),
        ErroRequisicao::CorpoGrande => (413, "Corpo da requisicao muito grande"),
        ErroRequisicao::CodificacaoNaoSuportada => (501, "Transfer-Encoding nao suportado"),
    }
}

// ---- Os cabecalhos ----------------------------------------------------------------------

/// Quantos bytes tem um texto.
pub open spec fn octetos(s: Seq<char>) -> int {
    utf8::encode_utf8(s).len() as int
}

/// O metodo e o endereco da primeira linha.
pub open spec fn primeira_linha(l: Seq<char>) -> Result<(Seq<char>, Seq<char>), ErroRequisicao> {
    let ps = lsp::palavras_em(texto::aparado(l), 0);
    if octetos(l) > LIMITE_LINHA {
        Err(ErroRequisicao::CabecalhosGrandes)
    } else if ps.len() != 3 || !busca::comeca(ps[2], "HTTP/1."@) {
        Err(ErroRequisicao::Invalida)
    } else {
        Ok((ps[0], ps[1]))
    }
}

/// A linha da posicao `i`, ou uma vazia se nao ha mais.
pub open spec fn linha_ou_vazia(ls: Seq<Seq<char>>, i: int) -> Seq<char> {
    if 0 <= i < ls.len() {
        ls[i]
    } else {
        Seq::empty()
    }
}

/// Os cabecalhos a partir da linha `i`, depois de `total` bytes lidos, acrescentados aos que
/// ja havia. Acabam numa linha em branco.
pub open spec fn cabecalhos_em(ls: Seq<Seq<char>>, i: int, total: int, m: Map<Seq<char>, Seq<char>>) -> Result<
    Map<Seq<char>, Seq<char>>,
    ErroRequisicao,
>
    decreases ls.len() - i,
{
    let l = linha_ou_vazia(ls, i);
    let t = total + octetos(l);
    let a = texto::aparado(l);
    if t > LIMITE_CABECALHOS || octetos(l) > LIMITE_LINHA {
        Err(ErroRequisicao::CabecalhosGrandes)
    } else if a.len() == 0 || i < 0 || i >= ls.len() {
        Ok(m)
    } else {
        cabecalhos_em(
            ls,
            i + 1,
            t,
            match busca::duas_partes(a, ':') {
                Some((k, v)) => m.insert(busca::minusculas_de(texto::aparado(k)), texto::aparado(v)),
                None => m,
            },
        )
    }
}

/// O que as linhas do inicio de uma requisicao dizem: o metodo, o endereco e os cabecalhos.
pub open spec fn inicio_de(ls: Seq<Seq<char>>) -> Result<
    (Seq<char>, Seq<char>, Map<Seq<char>, Seq<char>>),
    ErroRequisicao,
> {
    match primeira_linha(linha_ou_vazia(ls, 0)) {
        Err(e) => Err(e),
        Ok((m, u)) => match cabecalhos_em(ls, 1, octetos(linha_ou_vazia(ls, 0)), Map::empty()) {
            Err(e) => Err(e),
            Ok(c) => Ok((m, u, c)),
        },
    }
}

proof fn lema_aparado_vazio()
    ensures
        texto::aparado(Seq::<char>::empty()).len() == 0,
        octetos(Seq::<char>::empty()) == 0,
{
    let v = Seq::<char>::empty();
    assert(texto::aparado_inicio(v) =~= v);
}

fn ler_primeira(l: &str) -> (r: Result<(String, String), ErroRequisicao>)
    ensures
        match r {
            Ok((m, u)) => primeira_linha(l@) == Ok::<_, ErroRequisicao>((m@, u@)),
            Err(e) => primeira_linha(l@) == Err::<(Seq<char>, Seq<char>), _>(e),
        },
        r is Ok ==> octetos(l@) <= LIMITE_LINHA,
{
    if l.as_bytes().len() > LIMITE_LINHA {
        return Err(ErroRequisicao::CabecalhosGrandes);
    }
    let aparada = busca::aparar_texto(l);
    let cs = texto::caracteres(aparada.as_str());
    let ps = lsp::separar_palavras(&cs);
    let ghost t = texto::textos(ps@);
    assert(t.len() == ps@.len());
    if ps.len() != 3 {
        return Err(ErroRequisicao::Invalida);
    }
    assert(t[0] == ps@[0]@ && t[1] == ps@[1]@ && t[2] == ps@[2]@);
    let versao = texto::caracteres(ps[2].as_str());
    let http = texto::caracteres("HTTP/1.");
    if !busca::comeca_com(&versao, &http) {
        return Err(ErroRequisicao::Invalida);
    }
    Ok((ps[0].clone(), ps[1].clone()))
}

/// Le o inicio de uma requisicao das linhas dela. O corpo fica vazio.
pub fn ler_requisicao(linhas: &Vec<String>) -> (r: Result<Requisicao, ErroRequisicao>)
    ensures
        match inicio_de(texto::textos(linhas@)) {
            Ok((m, u, c)) => r matches Ok(q) && q.metodo@ == m && q.caminho_url@ == fastcgi::sem_query(u)
                && q.query_str@ == fastcgi::so_query(u) && fastcgi::mapa_de_textos(q.cabecalhos@) == c
                && q.corpo@.len() == 0,
            Err(e) => r matches Err(f) && f == e,
        },
{
    let ghost ls = texto::textos(linhas@);
    assert(ls.len() == linhas@.len());
    let vazia = String::new();
    assert(vazia@ =~= Seq::<char>::empty());
    let primeira: &String = if linhas.len() > 0 {
        &linhas[0]
    } else {
        &vazia
    };
    assert(primeira@ == linha_ou_vazia(ls, 0));
    let (metodo, url) = match ler_primeira(primeira.as_str()) {
        Ok(x) => x,
        Err(e) => return Err(e),
    };
    let mut cabecalhos: Tabela<String> = Tabela::nova();
    assert(fastcgi::mapa_de_textos(cabecalhos@) =~= Map::<Seq<char>, Seq<char>>::empty());
    let mut total: usize = primeira.as_str().as_bytes().len();
    let ghost total0 = total as int;
    let mut i: usize = 1;
    loop
        invariant_except_break
            cabecalhos_em(ls, 1, total0, Map::empty()) == cabecalhos_em(
                ls,
                i as int,
                total as int,
                fastcgi::mapa_de_textos(cabecalhos@),
            ),
        invariant
            ls == texto::textos(linhas@),
            ls.len() == linhas@.len(),
            1 <= i <= linhas@.len() + 1,
            total <= LIMITE_CABECALHOS,
            primeira_linha(linha_ou_vazia(ls, 0)) == Ok::<_, ErroRequisicao>((metodo@, url@)),
            total0 == octetos(linha_ou_vazia(ls, 0)),
        ensures
            cabecalhos_em(ls, 1, total0, Map::empty()) == Ok::<_, ErroRequisicao>(
                fastcgi::mapa_de_textos(cabecalhos@),
            ),
        decreases linhas@.len() + 1 - i,
    {
        if i >= linhas.len() {
            proof {
                lema_aparado_vazio();
            }
            break;
        }
        assert(linha_ou_vazia(ls, i as int) == linhas@[i as int]@);
        let n = linhas[i].as_str().as_bytes().len();
        if n > LIMITE_LINHA || n > LIMITE_CABECALHOS - total {
            return Err(ErroRequisicao::CabecalhosGrandes);
        }
        let l = busca::aparar_texto(linhas[i].as_str());
        if l.as_str().is_empty() {
            break;
        }
        let ghost antes = cabecalhos@;
        if let Some((k, v)) = busca::partir(l.as_str(), ':') {
            let ka = busca::aparar_texto(k.as_str());
            let chave = busca::minusculas(ka.as_str());
            let valor = busca::aparar_texto(v.as_str());
            cabecalhos.inserir(chave, valor);
            assert(fastcgi::mapa_de_textos(cabecalhos@) =~= fastcgi::mapa_de_textos(antes).insert(chave@, valor@));
        }
        total = total + n;
        i += 1;
    }
    let (caminho_url, query_str) = match busca::partir(url.as_str(), '?') {
        Some((c, q)) => (c, q),
        None => (url.clone(), String::new()),
    };
    assert(query_str@ =~= fastcgi::so_query(url@));
    Ok(Requisicao { metodo, caminho_url, query_str, cabecalhos, corpo: Vec::new() })
}

/// Quantos bytes de corpo se esperam, pelos cabecalhos, com o limite dado.
pub open spec fn corpo_esperado(m: Map<Seq<char>, String>, limite: usize) -> Result<int, ErroRequisicao> {
    if fastcgi::param(m, "transfer-encoding"@) matches Some(v) && !busca::iguais_sem_caixa(v, "identity"@) {
        Err(ErroRequisicao::CodificacaoNaoSuportada)
    } else {
        match fastcgi::param(m, "content-length"@) {
            None => Ok(0),
            Some(v) => match busca::lido_natural(v, usize::MAX as nat) {
                None => Err(ErroRequisicao::Invalida),
                Some(n) => if n > limite {
                    Err(ErroRequisicao::CorpoGrande)
                } else {
                    Ok(n as int)
                },
            },
        }
    }
}

/// Quantos bytes de corpo se esperam.
pub fn tamanho_do_corpo(cabecalhos: &Tabela<String>, limite: usize) -> (r: Result<usize, ErroRequisicao>)
    ensures
        match r {
            Ok(n) => corpo_esperado(cabecalhos@, limite) == Ok::<_, ErroRequisicao>(n as int),
            Err(e) => corpo_esperado(cabecalhos@, limite) == Err::<int, _>(e),
        },
{
    if let Some(v) = cabecalhos.obter("transfer-encoding") {
        if !busca::igual_sem_caixa(v.as_str(), "identity") {
            return Err(ErroRequisicao::CodificacaoNaoSuportada);
        }
    }
    match cabecalhos.obter("content-length") {
        None => Ok(0),
        Some(v) => match busca::ler_natural(v.as_str(), usize::MAX as u64) {
            None => Err(ErroRequisicao::Invalida),
            Some(n) => if n > limite as u64 {
                Err(ErroRequisicao::CorpoGrande)
            } else {
                Ok(n as usize)
            },
        },
    }
}

// ---- Formularios ------------------------------------------------------------------------

/// Procura bytes; uma procura vazia acha sempre o inicio.
pub fn encontrar_bytes(haystack: &[u8], needle: &[u8]) -> (r: Option<usize>)
    ensures
        match r {
            Some(i) => if needle@.len() == 0 {
                i == 0
            } else {
                busca::primeira(haystack@, needle@, 0) == Some(i as int)
            },
            None => needle@.len() > 0 && busca::primeira(haystack@, needle@, 0) is None,
        },
{
    if needle.len() == 0 {
        return Some(0);
    }
    busca::achar_bytes(haystack, needle, 0)
}

/// O parametro de um cabecalho a partir da parte `i`.
pub open spec fn parametro_em(ps: Seq<Seq<char>>, i: int, nome: Seq<char>) -> Option<Seq<char>>
    decreases ps.len() - i,
{
    if i < 0 || i >= ps.len() {
        None
    } else {
        match busca::duas_partes(texto::aparado(ps[i]), '=') {
            Some((k, v)) => if busca::iguais_sem_caixa(k, nome) {
                Some(busca::sem_pontas(texto::aparado(v), '"'))
            } else {
                parametro_em(ps, i + 1, nome)
            },
            None => parametro_em(ps, i + 1, nome),
        }
    }
}

/// O parametro de um cabecalho: o que se segue ao primeiro ponto e virgula.
pub open spec fn parametro_de(cabecalho: Seq<char>, nome: Seq<char>) -> Option<Seq<char>> {
    parametro_em(busca::partes(cabecalho, ';', 0), 1, nome)
}

fn sem_aspas(s: &str) -> (r: String)
    ensures
        r@ == busca::sem_pontas(texto::aparado(s@), '"'),
{
    let cs = texto::caracteres(s);
    texto::de_caracteres(busca::aparar_de(texto::aparar(&cs), '"'))
}

/// Le o parametro de um cabecalho, sem as aspas.
pub fn parametro_cabecalho(cabecalho: &str, nome: &str) -> (r: Option<String>)
    ensures
        match r {
            Some(v) => parametro_de(cabecalho@, nome@) == Some(v@),
            None => parametro_de(cabecalho@, nome@) is None,
        },
{
    let cs = texto::caracteres(cabecalho);
    let ps = busca::separar(&cs, ';');
    let ghost t = texto::textos(ps@);
    let mut i: usize = 1;
    while i < ps.len()
        invariant
            1 <= i <= ps@.len(),
            t == texto::textos(ps@),
            t.len() == ps@.len(),
            parametro_de(cabecalho@, nome@) == parametro_em(t, i as int, nome@),
        decreases ps@.len() - i,
    {
        assert(t[i as int] == ps@[i as int]@);
        let par = busca::aparar_texto(ps[i].as_str());
        if let Some((k, v)) = busca::partir(par.as_str(), '=') {
            if busca::igual_sem_caixa(k.as_str(), nome) {
                return Some(sem_aspas(v.as_str()));
            }
        }
        i += 1;
    }
    None
}

/// A marca que separa as partes, a partir da parte `i` do tipo do conteudo.
pub open spec fn fronteira_em(ps: Seq<Seq<char>>, i: int) -> Option<Seq<char>>
    decreases ps.len() - i,
{
    if i < 0 || i >= ps.len() {
        None
    } else {
        let p = texto::aparado(ps[i]);
        if busca::comeca(p, "boundary="@) {
            Some(busca::sem_pontas(p.skip(9), '"'))
        } else {
            fronteira_em(ps, i + 1)
        }
    }
}

/// O delimitador das partes de um formulario, se o tipo do conteudo diz um aceitavel.
pub open spec fn delimitador_de(tipo: Seq<char>) -> Option<Seq<u8>> {
    match fronteira_em(busca::partes(tipo, ';', 0), 0) {
        Some(f) => if f.len() == 0 || octetos(f) > 200 {
            None
        } else {
            Some(utf8::encode_utf8("--"@ + f))
        },
        None => None,
    }
}

fn achar_fronteira(tipo: &str) -> (r: Option<String>)
    ensures
        match r {
            Some(f) => fronteira_em(busca::partes(tipo@, ';', 0), 0) == Some(f@),
            None => fronteira_em(busca::partes(tipo@, ';', 0), 0) is None,
        },
{
    let cs = texto::caracteres(tipo);
    let ps = busca::separar(&cs, ';');
    let marca = texto::caracteres("boundary=");
    let ghost t = texto::textos(ps@);
    proof {
        reveal_strlit("boundary=");
    }
    let mut i: usize = 0;
    while i < ps.len()
        invariant
            i <= ps@.len(),
            t == texto::textos(ps@),
            t.len() == ps@.len(),
            marca@ == "boundary="@,
            marca@.len() == 9,
            fronteira_em(busca::partes(tipo@, ';', 0), 0) == fronteira_em(t, i as int),
        decreases ps@.len() - i,
    {
        assert(t[i as int] == ps@[i as int]@);
        let pc = texto::caracteres(ps[i].as_str());
        let p = texto::aparar(&pc);
        if busca::comeca_com(p, &marca) {
            let resto = vstd::slice::slice_subrange(p, 9, p.len());
            assert(resto@ =~= p@.skip(9));
            return Some(texto::de_caracteres(busca::aparar_de(resto, '"')));
        }
        i += 1;
    }
    None
}

/// Os dois hifens que fecham um formulario.
pub open spec fn hifens() -> Seq<u8> {
    seq![45u8, 45u8]
}

/// Uma quebra de linha.
pub open spec fn quebra() -> Seq<u8> {
    seq![13u8, 10u8]
}

/// Uma linha em branco.
pub open spec fn linha_em_branco() -> Seq<u8> {
    seq![13u8, 10u8, 13u8, 10u8]
}

/// Uma parte sem a quebra de linha do fim.
pub open spec fn sem_quebra(p: Seq<u8>) -> Seq<u8> {
    if busca::termina(p, quebra()) {
        p.take(p.len() - 2)
    } else {
        p
    }
}

/// As partes de um corpo a partir da posicao `i`, depois das que ja estao em `acc`.
pub open spec fn partes_do_corpo(b: Seq<u8>, d: Seq<u8>, i: int, acc: Seq<Seq<u8>>) -> Seq<Seq<u8>>
    decreases b.len() - i,
{
    if i < 0 || i > b.len() || d.len() == 0 {
        acc
    } else {
        proof {
            busca::lema_primeira(b, d, i);
        }
        match busca::primeira(b, d, i) {
            None => acc,
            Some(p) => {
                let q = p + d.len();
                if busca::ocorre(b, hifens(), q) {
                    acc
                } else {
                    let inicio = if busca::ocorre(b, quebra(), q) {
                        q + 2
                    } else {
                        q
                    };
                    proof {
                        busca::lema_primeira(b, d, inicio);
                    }
                    match busca::primeira(b, d, inicio) {
                        None => acc,
                        Some(f) => partes_do_corpo(b, d, f, acc.push(sem_quebra(b.subrange(inicio, f)))),
                    }
                }
            },
        }
    }
}

/// Um arquivo enviado num formulario.
pub struct Arquivo {
    pub nome: String,
    pub tipo: String,
    pub dados: Vec<u8>,
}

/// Um arquivo visto como valor matematico.
pub ghost struct ArquivoVisto {
    pub nome: Seq<char>,
    pub tipo: Seq<char>,
    pub dados: Seq<u8>,
}

/// O que um arquivo representa.
pub open spec fn arquivo_visto(a: Arquivo) -> ArquivoVisto {
    ArquivoVisto { nome: a.nome@, tipo: a.tipo@, dados: a.dados@ }
}

/// Os arquivos de uma tabela.
pub open spec fn arquivos_vistos(m: Map<Seq<char>, Arquivo>) -> Map<Seq<char>, ArquivoVisto> {
    Map::new(|k: Seq<char>| m.dom().contains(k), |k: Seq<char>| arquivo_visto(m[k]))
}

/// A linha de disposicao a partir da linha `i`, ou vazia.
pub open spec fn disposicao_em(ls: Seq<Seq<char>>, i: int) -> Seq<char>
    decreases ls.len() - i,
{
    if i < 0 || i >= ls.len() {
        Seq::empty()
    } else if busca::comeca(busca::minusculas_ascii(ls[i]), "content-disposition:"@) {
        ls[i]
    } else {
        disposicao_em(ls, i + 1)
    }
}

/// O tipo declarado a partir da linha `i`, ou o de costume.
pub open spec fn tipo_em(ls: Seq<Seq<char>>, i: int) -> Seq<char>
    decreases ls.len() - i,
{
    if i < 0 || i >= ls.len() {
        "application/octet-stream"@
    } else {
        match busca::duas_partes(ls[i], ':') {
            Some((k, v)) => if busca::iguais_sem_caixa(k, "content-type"@) {
                texto::aparado(v)
            } else {
                tipo_em(ls, i + 1)
            },
            None => tipo_em(ls, i + 1),
        }
    }
}

/// O que um formulario traz: os campos e os arquivos.
#[verifier::ext_equal]
pub ghost struct Formulario {
    pub campos: Map<Seq<char>, Seq<char>>,
    pub arquivos: Map<Seq<char>, ArquivoVisto>,
}

/// O formulario com mais uma parte. Uma parte sem cabecalho ou sem nome nao conta.
pub open spec fn com_parte(f: Formulario, p: Seq<u8>) -> Formulario {
    match busca::primeira(p, linha_em_branco(), 0) {
        None => f,
        Some(s) => {
            let ls = texto::linhas(busca::texto_de(p.take(s)), 0);
            let dados = p.skip(s + 4);
            let disposicao = disposicao_em(ls, 0);
            match parametro_de(disposicao, "name"@) {
                None => f,
                Some(nome) => match parametro_de(disposicao, "filename"@) {
                    Some(arquivo) => Formulario {
                        arquivos: f.arquivos.insert(
                            nome,
                            ArquivoVisto { nome: arquivo, tipo: tipo_em(ls, 0), dados },
                        ),
                        ..f
                    },
                    None => Formulario { campos: f.campos.insert(nome, busca::texto_de(dados)), ..f },
                },
            }
        },
    }
}

/// O formulario das primeiras `n` partes.
pub open spec fn formulario_de(ps: Seq<Seq<u8>>, n: int) -> Formulario
    decreases n,
{
    if n <= 0 || n > ps.len() {
        Formulario { campos: Map::empty(), arquivos: Map::empty() }
    } else {
        com_parte(formulario_de(ps, n - 1), ps[n - 1])
    }
}

/// O formulario que um corpo traz.
pub open spec fn multipart(corpo: Seq<u8>, tipo: Seq<char>) -> Formulario {
    match delimitador_de(tipo) {
        None => Formulario { campos: Map::empty(), arquivos: Map::empty() },
        Some(d) => {
            let ps = partes_do_corpo(corpo, d, 0, Seq::empty());
            formulario_de(ps, ps.len() as int)
        },
    }
}

fn achar_disposicao(ls: &Vec<String>) -> (r: String)
    ensures
        r@ == disposicao_em(texto::textos(ls@), 0),
{
    let ghost t = texto::textos(ls@);
    let marca = texto::caracteres("content-disposition:");
    let mut i: usize = 0;
    while i < ls.len()
        invariant
            i <= ls@.len(),
            t == texto::textos(ls@),
            marca@ == "content-disposition:"@,
            disposicao_em(t, 0) == disposicao_em(t, i as int),
        decreases ls@.len() - i,
    {
        assert(t[i as int] == ls@[i as int]@);
        let m = busca::em_minusculas(ls[i].as_str());
        let c = texto::caracteres(m.as_str());
        if busca::comeca_com(&c, &marca) {
            return ls[i].clone();
        }
        i += 1;
    }
    assert(t.len() == ls@.len());
    let r = String::new();
    assert(r@ =~= Seq::<char>::empty());
    r
}

fn achar_tipo(ls: &Vec<String>) -> (r: String)
    ensures
        r@ == tipo_em(texto::textos(ls@), 0),
{
    let ghost t = texto::textos(ls@);
    let mut i: usize = 0;
    while i < ls.len()
        invariant
            i <= ls@.len(),
            t == texto::textos(ls@),
            tipo_em(t, 0) == tipo_em(t, i as int),
        decreases ls@.len() - i,
    {
        assert(t[i as int] == ls@[i as int]@);
        if let Some((k, v)) = busca::partir(ls[i].as_str(), ':') {
            if busca::igual_sem_caixa(k.as_str(), "content-type") {
                return busca::aparar_texto(v.as_str());
            }
        }
        i += 1;
    }
    assert(t.len() == ls@.len());
    "application/octet-stream".to_owned()
}

fn acrescentar_parte(p: &[u8], campos: &mut Tabela<String>, arquivos: &mut Tabela<Arquivo>)
    ensures
        (Formulario {
            campos: fastcgi::mapa_de_textos(final(campos)@),
            arquivos: arquivos_vistos(final(arquivos)@),
        }) == com_parte(
            Formulario {
                campos: fastcgi::mapa_de_textos(old(campos)@),
                arquivos: arquivos_vistos(old(arquivos)@),
            },
            p@,
        ),
{
    let mut branco: Vec<u8> = Vec::new();
    branco.push(13);
    branco.push(10);
    branco.push(13);
    branco.push(10);
    assert(branco@ =~= linha_em_branco());
    let s = match busca::achar_bytes(p, &branco, 0) {
        Some(s) => s,
        None => return,
    };
    let cabeca = vstd::slice::slice_subrange(p, 0, s);
    assert(cabeca@ =~= p@.take(s as int));
    let cabecalhos = busca::de_bytes(cabeca);
    let cs = texto::caracteres(cabecalhos.as_str());
    let ls = texto::separar_linhas(&cs);
    assert(p@.len() == p.len());
    proof {
        busca::lema_primeira(p@, linha_em_branco(), 0);
    }
    let dados = vstd::slice::slice_subrange(p, s + 4, p.len());
    assert(dados@ =~= p@.skip(s + 4));
    let disposicao = achar_disposicao(&ls);
    let nome = match parametro_cabecalho(disposicao.as_str(), "name") {
        Some(n) => n,
        None => return,
    };
    match parametro_cabecalho(disposicao.as_str(), "filename") {
        Some(arquivo) => {
            let tipo = achar_tipo(&ls);
            let a = Arquivo { nome: arquivo, tipo, dados: busca::copia(dados) };
            let ghost antes = arquivos@;
            arquivos.inserir(nome, a);
            assert(arquivos_vistos(arquivos@) =~= arquivos_vistos(antes).insert(nome@, arquivo_visto(a)));
        },
        None => {
            let valor = busca::de_bytes(dados);
            let ghost antes = campos@;
            campos.inserir(nome, valor);
            assert(fastcgi::mapa_de_textos(campos@) =~= fastcgi::mapa_de_textos(antes).insert(nome@, valor@));
        },
    }
}

fn comeca_em(b: &[u8], i: usize, x: u8, y: u8) -> (r: bool)
    ensures
        r == busca::ocorre(b@, seq![x, y], i as int),
{
    if i > b.len() || b.len() - i < 2 {
        return false;
    }
    let ghost s = b@.subrange(i as int, i + 2);
    assert(s[0] == b@[i as int] && s[1] == b@[i + 1]);
    if b[i] == x && b[i + 1] == y {
        assert(s =~= seq![x, y]);
        true
    } else {
        assert(seq![x, y][0] == x && seq![x, y][1] == y);
        false
    }
}

proof fn lema_formulario(ps: Seq<Seq<u8>>, p: Seq<u8>)
    ensures
        formulario_de(ps.push(p), (ps.len() + 1) as int) == com_parte(formulario_de(ps, ps.len() as int), p),
{
    lema_formulario_prefixo(ps, p, ps.len() as int);
}

proof fn lema_formulario_prefixo(ps: Seq<Seq<u8>>, p: Seq<u8>, n: int)
    requires
        0 <= n <= ps.len(),
    ensures
        formulario_de(ps.push(p), n) == formulario_de(ps, n),
    decreases n,
{
    if n > 0 {
        lema_formulario_prefixo(ps, p, n - 1);
    }
}

/// Separa um formulario em campos e arquivos. Um nome repetido fica com o ultimo valor.
pub fn parsear_multipart(corpo: &[u8], content_type: &str) -> (r: (Tabela<String>, Tabela<Arquivo>))
    ensures
        (Formulario { campos: fastcgi::mapa_de_textos(r.0@), arquivos: arquivos_vistos(r.1@) }) == multipart(
            corpo@,
            content_type@,
        ),
{
    let mut campos: Tabela<String> = Tabela::nova();
    let mut arquivos: Tabela<Arquivo> = Tabela::nova();
    assert(fastcgi::mapa_de_textos(campos@) =~= Map::<Seq<char>, Seq<char>>::empty());
    assert(arquivos_vistos(arquivos@) =~= Map::<Seq<char>, ArquivoVisto>::empty());
    let fronteira = match achar_fronteira(content_type) {
        Some(f) => f,
        None => return (campos, arquivos),
    };
    if fronteira.as_str().is_empty() || fronteira.as_str().as_bytes().len() > 200 {
        return (campos, arquivos);
    }
    let mut marca = "--".to_owned();
    marca.append(fronteira.as_str());
    let d = marca.as_str().as_bytes();
    let ghost delim = utf8::encode_utf8("--"@ + fronteira@);
    proof {
        reveal_strlit("--");
        assert(d@ == delim);
        utf8::encode_utf8_first_scalar(marca@);
        assert(delim.len() > 0) by {
            let m = "--"@ + fronteira@;
            assert(m.len() > 0);
            assert(utf8::encode_utf8(m) == utf8::encode_scalar(m[0] as u32) + utf8::encode_utf8(m.drop_first()));
        }
    }
    let mut cursor: usize = 0;
    let ghost mut ps: Seq<Seq<u8>> = Seq::empty();
    loop
        invariant_except_break
            partes_do_corpo(corpo@, delim, 0, Seq::empty()) == partes_do_corpo(corpo@, delim, cursor as int, ps),
        invariant
            d@ == delim,
            delim.len() > 0,
            corpo@.len() == corpo.len(),
            cursor <= corpo@.len(),
            delimitador_de(content_type@) == Some(delim),
            (Formulario { campos: fastcgi::mapa_de_textos(campos@), arquivos: arquivos_vistos(arquivos@) })
                == formulario_de(ps, ps.len() as int),
        ensures
            partes_do_corpo(corpo@, delim, 0, Seq::empty()) == ps,
        decreases corpo@.len() - cursor,
    {
        proof {
            busca::lema_primeira(corpo@, delim, cursor as int);
        }
        let p = match busca::achar_bytes(corpo, d, cursor) {
            Some(p) => p,
            None => {
                break;
            },
        };
        let q: usize = p + d.len();
        if comeca_em(corpo, q, 45, 45) {
            break;
        }
        let inicio: usize = if comeca_em(corpo, q, 13, 10) {
            q + 2
        } else {
            q
        };
        proof {
            busca::lema_primeira(corpo@, delim, inicio as int);
        }
        let f = match busca::achar_bytes(corpo, d, inicio) {
            Some(f) => f,
            None => {
                break;
            },
        };
        let mut fim: usize = f;
        let ghost bruta = corpo@.subrange(inicio as int, f as int);
        if f - inicio >= 2 && comeca_em(corpo, f - 2, 13, 10) {
            assert(bruta.subrange(bruta.len() - 2, bruta.len() as int) =~= corpo@.subrange(f - 2, f as int));
            fim = f - 2;
        } else {
            assert(!busca::termina(bruta, quebra())) by {
                if busca::termina(bruta, quebra()) {
                    assert(bruta.subrange(bruta.len() - 2, bruta.len() as int) =~= corpo@.subrange(f - 2, f as int));
                }
            }
        }
        let parte = vstd::slice::slice_subrange(corpo, inicio, fim);
        assert(parte@ =~= sem_quebra(bruta));
        acrescentar_parte(parte, &mut campos, &mut arquivos);
        proof {
            lema_formulario(ps, parte@);
            ps = ps.push(parte@);
        }
        cursor = f;
    }
    (campos, arquivos)
}

} // verus!
