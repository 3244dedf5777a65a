//! O protocolo FastCGI: registros, parametros e o andamento de uma conexao.

use vstd::prelude::*;
use vstd::utf8;
use crate::busca;
use crate::servidor;
use crate::tabela::Tabela;
use crate::texto;

verus! {

pub const FCGI_BEGIN_REQUEST: u8 = 1;

pub const FCGI_END_REQUEST: u8 = 3;

pub const FCGI_PARAMS: u8 = 4;

pub const FCGI_STDIN: u8 = 5;

pub const FCGI_STDOUT: u8 = 6;

/// O maior conteudo de um registro.
pub const MAIOR_CONTEUDO: usize = 0xFFFF;

/// O maior tamanho dos parametros de uma requisicao.
pub const LIMITE_PARAMS: usize = 65536;

// ---- Registros --------------------------------------------------------------------------

/// Um registro lido.
pub struct Registro {
    pub tipo: u8,
    pub id: u16,
    pub corpo: Vec<u8>,
}

/// O numero de dois bytes, o mais significativo primeiro.
pub open spec fn dezesseis(a: u8, b: u8) -> int {
    a * 256 + b
}

/// O registro que comeca na posicao `i` e onde ele acaba, se os bytes chegam: o tipo, o
/// numero da requisicao, o conteudo e a posicao seguinte.
pub open spec fn registro_em(b: Seq<u8>, i: int) -> Option<(u8, int, Seq<u8>, int)> {
    if i < 0 || i + 8 > b.len() {
        None
    } else {
        let n = dezesseis(b[i + 4], b[i + 5]);
        let fim = i + 8 + n + b[i + 6];
        if fim > b.len() {
            None
        } else {
            Some((b[i + 1], dezesseis(b[i + 2], b[i + 3]), b.subrange(i + 8, i + 8 + n), fim))
        }
    }
}

/// Le o registro que comeca em `pos`. Sem bytes bastantes, nao ha registro.
pub fn ler_record(dados: &[u8], pos: usize) -> (r: Option<(Registro, usize)>)
    ensures
        match r {
            Some((reg, fim)) => registro_em(dados@, pos as int) == Some(
                (reg.tipo, reg.id as int, reg.corpo@, fim as int),
            ),
            None => registro_em(dados@, pos as int) is None,
        },
{
    if pos > dados.len() || dados.len() - pos < 8 {
        return None;
    }
    let id: u16 = dados[pos + 2] as u16 * 256 + dados[pos + 3] as u16;
    let n: usize = dados[pos + 4] as usize * 256 + dados[pos + 5] as usize;
    let enchimento: usize = dados[pos + 6] as usize;
    let resto: usize = dados.len() - pos - 8;
    if n > resto || enchimento > resto - n {
        return None;
    }
    let corpo = busca::copia(vstd::slice::slice_subrange(dados, pos + 8, pos + 8 + n));
    Some((Registro { tipo: dados[pos + 1], id, corpo }, pos + 8 + n + enchimento))
}

/// Quantos bytes de enchimento levam o conteudo a um multiplo de oito.
pub open spec fn enchimento(n: int) -> int {
    (8 - n % 8) % 8
}

/// Os bytes de um registro de conteudo `d`.
pub open spec fn registro(tipo: u8, id: u16, d: Seq<u8>) -> Seq<u8> {
    seq![
        1u8,
        tipo,
        (id / 256) as u8,
        (id % 256) as u8,
        (d.len() / 256) as u8,
        (d.len() % 256) as u8,
        enchimento(d.len() as int) as u8,
        0u8,
    ] + d + Seq::new(enchimento(d.len() as int) as nat, |i: int| 0u8)
}

/// Os bytes dos registros que levam o conteudo `d`: um so, se ele cabe num registro.
pub open spec fn registros(tipo: u8, id: u16, d: Seq<u8>) -> Seq<u8>
    decreases d.len(),
{
    if d.len() <= 0xFFFF {
        registro(tipo, id, d)
    } else {
        registro(tipo, id, d.take(0xFFFF)) + registros(tipo, id, d.skip(0xFFFF))
    }
}

fn acrescentar_registro(saida: &mut Vec<u8>, tipo: u8, id: u16, d: &[u8])
    requires
        d@.len() <= 0xFFFF,
    ensures
        final(saida)@ == old(saida)@ + registro(tipo, id, d@),
{
    let ghost antes = saida@;
    let n: usize = d.len();
    let sobra: usize = (8 - n % 8) % 8;
    saida.push(1);
    saida.push(tipo);
    saida.push((id / 256) as u8);
    saida.push((id % 256) as u8);
    saida.push((n / 256) as u8);
    saida.push((n % 256) as u8);
    saida.push(sobra as u8);
    saida.push(0);
    let ghost cab = seq![
        1u8,
        tipo,
        (id / 256) as u8,
        (id % 256) as u8,
        (d@.len() / 256) as u8,
        (d@.len() % 256) as u8,
        enchimento(d@.len() as int) as u8,
        0u8,
    ];
    assert(saida@ =~= antes + cab);
    busca::acrescentar_bytes(saida, d);
    let ghost meio = saida@;
    for k in 0..sobra
        invariant
            saida@ == meio + Seq::new(k as nat, |i: int| 0u8),
    {
        saida.push(0);
        assert(Seq::new((k + 1) as nat, |i: int| 0u8) =~= Seq::new(k as nat, |i: int| 0u8).push(0u8));
    }
    assert(saida@ =~= antes + registro(tipo, id, d@));
}

/// Escreve um conteudo em registros de no maximo 65535 bytes. Um conteudo vazio da um
/// registro vazio.
pub fn escrever_record(tipo: u8, id: u16, dados: &[u8]) -> (r: Vec<u8>)
    ensures
        r@ == registros(tipo, id, dados@),
{
    let mut r: Vec<u8> = Vec::new();
    let mut i: usize = 0;
    assert(dados@.skip(0) =~= dados@);
    while dados.len() - i > MAIOR_CONTEUDO
        invariant
            i <= dados@.len(),
            r@ + registros(tipo, id, dados@.skip(i as int)) == registros(tipo, id, dados@),
        decreases dados@.len() - i,
    {
        let ghost d = dados@.skip(i as int);
        let ghost antes = r@;
        let parte = vstd::slice::slice_subrange(dados, i, i + MAIOR_CONTEUDO);
        acrescentar_registro(&mut r, tipo, id, parte);
        proof {
            assert(parte@ =~= d.take(0xFFFF));
            assert(d.skip(0xFFFF) =~= dados@.skip(i + 0xFFFF));
            assert(r@ + registros(tipo, id, dados@.skip(i + 0xFFFF)) =~= antes + registros(tipo, id, d));
        }
        i += MAIOR_CONTEUDO;
    }
    let resto = vstd::slice::slice_subrange(dados, i, dados.len());
    assert(resto@ =~= dados@.skip(i as int));
    acrescentar_registro(&mut r, tipo, id, resto);
    r
}

/// O que se escreve num registro e o que dele se le: ler os bytes de um registro, seguidos
/// de quaisquer outros, da o tipo, o numero e o conteudo, e deixa os outros.
pub proof fn lei_registro(tipo: u8, id: u16, d: Seq<u8>, resto: Seq<u8>)
    requires
        d.len() <= 0xFFFF,
    ensures
        registro_em(registro(tipo, id, d) + resto, 0) == Some(
            (tipo, id as int, d, registro(tipo, id, d).len() as int),
        ),
{
    let r = registro(tipo, id, d);
    let b = r + resto;
    let n = d.len() as int;
    let e = enchimento(n);
    assert(0 <= e < 8);
    assert(r.len() == 8 + n + e);
    assert(b[2] == (id / 256) as u8 && b[3] == (id % 256) as u8);
    assert(dezesseis(b[2], b[3]) == id as int);
    assert(dezesseis(b[4], b[5]) == n);
    assert(b[6] == e as u8);
    assert(b.subrange(8, 8 + n) =~= d);
}

// ---- Parametros -------------------------------------------------------------------------

/// O comprimento que comeca na posicao `i` e quantos bytes ele ocupa: um, se for menor do
/// que 128, ou quatro, com o bit mais alto aceso.
pub open spec fn comprimento_em(b: Seq<u8>, i: int) -> Option<(int, int)> {
    if i < 0 || i >= b.len() {
        None
    } else if b[i] < 128 {
        Some((b[i] as int, 1))
    } else if i + 3 < b.len() {
        Some(((b[i] - 128) * 0x100_0000 + b[i + 1] * 0x1_0000 + b[i + 2] * 0x100 + b[i + 3], 4))
    } else {
        None
    }
}

/// Le um comprimento.
pub fn fcgi_len(buf: &[u8], pos: usize) -> (r: Option<(usize, usize)>)
    ensures
        match r {
            Some((n, d)) => comprimento_em(buf@, pos as int) == Some((n as int, d as int)) && pos + d <= buf@.len()
                && n < 0x8000_0000,
            None => comprimento_em(buf@, pos as int) is None,
        },
{
    if pos >= buf.len() {
        return None;
    }
    let primeiro = buf[pos];
    if primeiro < 128 {
        return Some((primeiro as usize, 1));
    }
    if buf.len() - pos < 4 {
        return None;
    }
    let v: u32 = (primeiro - 128) as u32 * 0x100_0000 + buf[pos + 1] as u32 * 0x1_0000 + buf[pos + 2] as u32
        * 0x100 + buf[pos + 3] as u32;
    Some((v as usize, 4))
}

/// Por que um bloco de parametros nao se decodifica.
pub enum ErroParams {
    Truncado,
    TamanhoInvalido,
}

/// Os parametros a partir da posicao `i`, acrescentados aos que ja havia.
pub open spec fn params_em(b: Seq<u8>, i: int, m: Map<Seq<char>, Seq<char>>) -> Result<
    Map<Seq<char>, Seq<char>>,
    ErroParams,
>
    decreases b.len() - i,
{
    if i < 0 || i >= b.len() {
        Ok(m)
    } else {
        match comprimento_em(b, i) {
            None => Err(ErroParams::Truncado),
            Some((n, d1)) => match comprimento_em(b, i + d1) {
                None => Err(ErroParams::Truncado),
                Some((v, d2)) => {
                    let p = i + d1 + d2;
                    if p + n + v > b.len() {
                        Err(ErroParams::TamanhoInvalido)
                    } else {
                        params_em(
                            b,
                            p + n + v,
                            m.insert(
                                busca::texto_de(b.subrange(p, p + n)),
                                busca::texto_de(b.subrange(p + n, p + n + v)),
                            ),
                        )
                    }
                },
            },
        }
    }
}

/// Uma tabela de textos, vista como mapa de textos.
pub open spec fn mapa_de_textos(m: Map<Seq<char>, String>) -> Map<Seq<char>, Seq<char>> {
    Map::new(|k: Seq<char>| m.dom().contains(k), |k: Seq<char>| m[k]@)
}

/// A mensagem de um erro de parametros.
pub open spec fn mensagem_params(e: ErroParams) -> Seq<char> {
    match e {
        ErroParams::Truncado => "PARAMS truncado"@,
        ErroParams::TamanhoInvalido => "PARAMS com tamanho invalido"@,
    }
}

/// Decodifica os pares de nome e valor. Um nome repetido fica com o ultimo valor.
pub fn decodificar_params(dados: &[u8]) -> (r: Result<Tabela<String>, String>)
    ensures
        match r {
            Ok(t) => params_em(dados@, 0, Map::empty()) == Ok::<_, ErroParams>(mapa_de_textos(t@)),
            Err(m) => params_em(dados@, 0, Map::empty()) matches Err(e) && m@ == mensagem_params(e),
        },
{
    let mut t: Tabela<String> = Tabela::nova();
    let mut i: usize = 0;
    assert(mapa_de_textos(t@) =~= Map::<Seq<char>, Seq<char>>::empty());
    while i < dados.len()
        invariant
            i <= dados@.len(),
            params_em(dados@, 0, Map::empty()) == params_em(dados@, i as int, mapa_de_textos(t@)),
        decreases dados@.len() - i,
    {
        let (n, d1) = match fcgi_len(dados, i) {
            Some(x) => x,
            None => return Err("PARAMS truncado".to_owned()),
        };
        let (v, d2) = match fcgi_len(dados, i + d1) {
            Some(x) => x,
            None => return Err("PARAMS truncado".to_owned()),
        };
        let p: usize = i + d1 + d2;
        let resto: usize = dados.len() - p;
        if n > resto || v > resto - n {
            return Err("PARAMS com tamanho invalido".to_owned());
        }
        let nome = busca::de_bytes(vstd::slice::slice_subrange(dados, p, p + n));
        let valor = busca::de_bytes(vstd::slice::slice_subrange(dados, p + n, p + n + v));
        let ghost antes = t@;
        t.inserir(nome, valor);
        assert(mapa_de_textos(t@) =~= mapa_de_textos(antes).insert(nome@, valor@));
        i = p + n + v;
    }
    Ok(t)
}

// ---- A requisicao -----------------------------------------------------------------------

/// O que a conexao pede que se execute.
pub struct Pedido {
    pub metodo: String,
    pub caminho: String,
    pub query: String,
    pub cabecalhos: Tabela<String>,
}

/// O valor de um parametro.
pub open spec fn param(m: Map<Seq<char>, String>, k: Seq<char>) -> Option<Seq<char>> {
    if m.dom().contains(k) {
        Some(m[k]@)
    } else {
        None
    }
}

/// O endereco pedido: o caminho extra, se nao for vazio; senao o endereco, o nome do
/// script ou `/`.
pub open spec fn endereco(m: Map<Seq<char>, String>) -> Seq<char> {
    match param(m, "PATH_INFO"@) {
        Some(v) if v.len() > 0 => v,
        _ => match param(m, "REQUEST_URI"@) {
            Some(v) => v,
            None => match param(m, "SCRIPT_NAME"@) {
                Some(v) => v,
                None => "/"@,
            },
        },
    }
}

/// O que vem antes da interrogacao.
pub open spec fn sem_query(uri: Seq<char>) -> Seq<char> {
    match busca::duas_partes(uri, '?') {
        Some((c, _)) => c,
        None => uri,
    }
}

/// O que vem depois da interrogacao.
pub open spec fn so_query(uri: Seq<char>) -> Seq<char> {
    match busca::duas_partes(uri, '?') {
        Some((_, q)) => q,
        None => Seq::empty(),
    }
}

/// Uma palavra com a inicial maiuscula e o resto em minusculas.
pub open spec fn capitalizada(p: Seq<char>) -> Seq<char> {
    if p.len() == 0 {
        Seq::empty()
    } else {
        busca::maiusculas_de(seq![p[0]]) + busca::minusculas_de(p.skip(1))
    }
}

/// As palavras capitalizadas.
pub open spec fn capitalizadas(v: Seq<Seq<char>>) -> Seq<Seq<char>> {
    v.map(|i: int, p: Seq<char>| capitalizada(p))
}

/// O nome do cabecalho que um parametro `HTTP_...` representa.
pub open spec fn nome_cabecalho(resto: Seq<char>) -> Seq<char> {
    busca::minusculas_ascii(busca::juntos(capitalizadas(busca::partes(resto, '_', 0)), "-"@))
}

fn capitalizar(p: &str) -> (r: String)
    ensures
        r@ == capitalizada(p@),
{
    let v = texto::caracteres(p);
    if v.len() == 0 {
        return String::new();
    }
    let mut inicial = String::new();
    inicial.push(v[0]);
    assert(inicial@ =~= seq![p@[0]]);
    let resto = texto::de_caracteres(vstd::slice::slice_subrange(&v, 1, v.len()));
    assert(resto@ =~= p@.skip(1));
    let mut r = busca::maiusculas(inicial.as_str());
    let minusculas = busca::minusculas(resto.as_str());
    r.append(minusculas.as_str());
    r
}

/// O nome de cabecalho de um parametro, sem o prefixo `HTTP_`.
pub fn cabecalho_de(resto: &str) -> (r: String)
    ensures
        r@ == nome_cabecalho(resto@),
{
    let v = texto::caracteres(resto);
    let ps = busca::separar(&v, '_');
    let mut palavras: Vec<String> = Vec::new();
    let ghost t = texto::textos(ps@);
    for i in 0..ps.len()
        invariant
            t == texto::textos(ps@),
            palavras@.len() == i,
            forall|k: int| 0 <= k < i ==> (#[trigger] palavras@[k])@ == capitalizada(t[k]),
    {
        palavras.push(capitalizar(ps[i].as_str()));
    }
    assert(texto::textos(palavras@) =~= capitalizadas(t));
    let junto = busca::juntar(&palavras, "-");
    busca::em_minusculas(junto.as_str())
}

/// Os cabecalhos que os parametros de nomes `ns` trazem, na ordem deles: os `HTTP_...`.
pub open spec fn cabecalhos_de(m: Map<Seq<char>, String>, ns: Seq<Seq<char>>) -> Map<Seq<char>, Seq<char>>
    decreases ns.len(),
{
    if ns.len() == 0 {
        Map::empty()
    } else {
        let antes = cabecalhos_de(m, ns.drop_last());
        if busca::comeca(ns.last(), "HTTP_"@) {
            antes.insert(nome_cabecalho(ns.last().skip(5)), m[ns.last()]@)
        } else {
            antes
        }
    }
}

/// Um mapa com mais uma chave, se ha o que guardar nela.
pub open spec fn com_param(m: Map<Seq<char>, Seq<char>>, k: Seq<char>, v: Option<Seq<char>>) -> Map<
    Seq<char>,
    Seq<char>,
> {
    match v {
        Some(x) => m.insert(k, x),
        None => m,
    }
}

fn copia_de(t: &Tabela<String>, nome: &str) -> (r: Option<String>)
    ensures
        match r {
            Some(s) => param(t@, nome@) == Some(s@),
            None => param(t@, nome@) is None,
        },
{
    match t.obter(nome) {
        Some(s) => Some(s.clone()),
        None => None,
    }
}

fn juntar_cabecalhos(params: &Tabela<String>) -> (r: Tabela<String>)
    ensures
        mapa_de_textos(r@) == cabecalhos_de(params@, params.nomes()),
{
    let mut r: Tabela<String> = Tabela::nova();
    let prefixo = texto::caracteres("HTTP_");
    let ghost ns = params.nomes();
    let n = params.tamanho();
    assert(mapa_de_textos(r@) =~= Map::<Seq<char>, Seq<char>>::empty());
    proof {
        reveal_strlit("HTTP_");
    }
    for i in 0..n
        invariant
            n == ns.len(),
            ns == params.nomes(),
            prefixo@ == "HTTP_"@,
            prefixo@.len() == 5,
            mapa_de_textos(r@) == cabecalhos_de(params@, ns.take(i as int)),
    {
        let (nome, valor) = params.par(i);
        let v = texto::caracteres(nome.as_str());
        assert(ns.take(i + 1).drop_last() =~= ns.take(i as int));
        assert(ns.take(i + 1).last() == nome@);
        if busca::comeca_com(&v, &prefixo) {
            let resto = texto::de_caracteres(vstd::slice::slice_subrange(&v, 5, v.len()));
            assert(resto@ =~= nome@.skip(5));
            let chave = cabecalho_de(resto.as_str());
            let copia = valor.clone();
            let ghost antes = r@;
            r.inserir(chave, copia);
            assert(mapa_de_textos(r@) =~= mapa_de_textos(antes).insert(chave@, copia@));
        }
    }
    assert(ns.take(ns.len() as int) =~= ns);
    r
}

/// O pedido que os parametros descrevem.
pub fn pedido_de(params: &Tabela<String>) -> (r: Pedido)
    ensures
        r.metodo@ == (match param(params@, "REQUEST_METHOD"@) {
            Some(v) => v,
            None => "GET"@,
        }),
        r.caminho@ == sem_query(endereco(params@)),
        r.query@ == (match param(params@, "QUERY_STRING"@) {
            Some(v) => v,
            None => so_query(endereco(params@)),
        }),
        mapa_de_textos(r.cabecalhos@) == com_param(
            com_param(
                cabecalhos_de(params@, params.nomes()),
                "content-type"@,
                param(params@, "CONTENT_TYPE"@),
            ),
            "content-length"@,
            param(params@, "CONTENT_LENGTH"@),
        ),
{
    let metodo = match copia_de(params, "REQUEST_METHOD") {
        Some(v) => v,
        None => "GET".to_owned(),
    };
    let extra = match copia_de(params, "PATH_INFO") {
        Some(v) => v,
        None => String::new(),
    };
    let uri = if !extra.as_str().is_empty() {
        extra
    } else {
        match copia_de(params, "REQUEST_URI") {
            Some(v) => v,
            None => match copia_de(params, "SCRIPT_NAME") {
                Some(v) => v,
                None => "/".to_owned(),
            },
        }
    };
    assert(uri@ == endereco(params@));
    let (caminho, depois) = match busca::partir(uri.as_str(), '?') {
        Some((c, q)) => (c, q),
        None => (uri.clone(), String::new()),
    };
    let query = match copia_de(params, "QUERY_STRING") {
        Some(v) => v,
        None => depois,
    };
    let mut cabecalhos = juntar_cabecalhos(params);
    let ghost c0 = cabecalhos@;
    if let Some(v) = copia_de(params, "CONTENT_TYPE") {
        cabecalhos.inserir("content-type".to_owned(), v);
        assert(mapa_de_textos(cabecalhos@) =~= mapa_de_textos(c0).insert("content-type"@, v@));
    }
    let ghost c1 = cabecalhos@;
    if let Some(v) = copia_de(params, "CONTENT_LENGTH") {
        cabecalhos.inserir("content-length".to_owned(), v);
        assert(mapa_de_textos(cabecalhos@) =~= mapa_de_textos(c1).insert("content-length"@, v@));
    }
    Pedido { metodo, caminho, query, cabecalhos }
}

// ---- O andamento de uma conexao ---------------------------------------------------------

/// Em que ponto de uma requisicao a conexao esta.
pub enum Fase {
    /// A espera de uma requisicao.
    Espera,
    /// A receber os parametros.
    Params { id: u16, manter: bool, bruto: Vec<u8> },
    /// A receber o corpo.
    Entrada { id: u16, manter: bool, params: Tabela<String>, corpo: Vec<u8> },
}

/// O que fazer depois de um registro.
pub enum Acao {
    /// Ler o proximo registro.
    Continuar,
    /// Enviar estes bytes e fechar a conexao.
    Recusar(Vec<u8>),
    /// Fechar a conexao.
    Fechar,
    /// Executar a requisicao; se nao for para manter a conexao, fecha-la depois da resposta.
    Executar { id: u16, manter: bool, params: Tabela<String>, corpo: Vec<u8> },
}

/// O que um registro faz numa conexao a espera de uma requisicao. So um pedido de inicio
/// conta; um de papel desconhecido e recusado.
pub fn avancar_espera(r: &Registro) -> (s: (Fase, Acao))
    ensures
        r.tipo != FCGI_BEGIN_REQUEST ==> s.0 is Espera && s.1 is Continuar,
        r.tipo == FCGI_BEGIN_REQUEST && (r.corpo@.len() < 3 || dezesseis(r.corpo@[0], r.corpo@[1]) != 1)
            ==> s.0 is Espera && (s.1 matches Acao::Recusar(b) && b@ == registros(
            FCGI_END_REQUEST,
            r.id,
            seq![0u8, 0u8, 0u8, 0u8, 3u8, 0u8, 0u8, 0u8],
        )),
        r.tipo == FCGI_BEGIN_REQUEST && r.corpo@.len() >= 3 && dezesseis(r.corpo@[0], r.corpo@[1]) == 1
            ==> s.1 is Continuar && (s.0 matches Fase::Params { id, manter, bruto } && id == r.id && manter == (
        r.corpo@[2] % 2 == 1) && bruto@.len() == 0),
{
    if r.tipo != FCGI_BEGIN_REQUEST {
        return (Fase::Espera, Acao::Continuar);
    }
    if r.corpo.len() < 3 || r.corpo[0] as u16 * 256 + r.corpo[1] as u16 != 1 {
        let mut fim: Vec<u8> = Vec::new();
        fim.push(0);
        fim.push(0);
        fim.push(0);
        fim.push(0);
        fim.push(3);
        fim.push(0);
        fim.push(0);
        fim.push(0);
        assert(fim@ =~= seq![0u8, 0u8, 0u8, 0u8, 3u8, 0u8, 0u8, 0u8]);
        return (Fase::Espera, Acao::Recusar(escrever_record(FCGI_END_REQUEST, r.id, &fim)));
    }
    let manter = r.corpo[2] % 2 == 1;
    (Fase::Params { id: r.id, manter, bruto: Vec::new() }, Acao::Continuar)
}

/// O que um registro faz enquanto se recebem os parametros. Os de outro tipo ou de outra
/// requisicao nao contam.
pub fn avancar_params(id: u16, manter: bool, bruto: Vec<u8>, r: &Registro) -> (s: (Fase, Acao))
    ensures
        (r.tipo != FCGI_PARAMS || r.id != id) ==> s.1 is Continuar && (s.0 matches Fase::Params {
            id: i,
            manter: m,
            bruto: b,
        } && i == id && m == manter && b@ == bruto@),
        r.tipo == FCGI_PARAMS && r.id == id && r.corpo@.len() > 0 && bruto@.len() + r.corpo@.len()
            <= LIMITE_PARAMS ==> s.1 is Continuar && (s.0 matches Fase::Params { id: i, manter: m, bruto: b } && i
            == id && m == manter && b@ == bruto@ + r.corpo@),
        r.tipo == FCGI_PARAMS && r.id == id && r.corpo@.len() > 0 && bruto@.len() + r.corpo@.len()
            > LIMITE_PARAMS ==> s.1 is Fechar,
        r.tipo == FCGI_PARAMS && r.id == id && r.corpo@.len() == 0 ==> match params_em(
            bruto@,
            0,
            Map::empty(),
        ) {
            Ok(p) => s.1 is Continuar && (s.0 matches Fase::Entrada { id: i, manter: m, params: t, corpo: c } && i
                == id && m == manter && mapa_de_textos(t@) == p && c@.len() == 0),
            Err(_) => s.1 is Fechar,
        },
{
    if r.tipo != FCGI_PARAMS || r.id != id {
        return (Fase::Params { id, manter, bruto }, Acao::Continuar);
    }
    if r.corpo.len() == 0 {
        return match decodificar_params(&bruto) {
            Ok(params) => (Fase::Entrada { id, manter, params, corpo: Vec::new() }, Acao::Continuar),
            Err(_) => (Fase::Espera, Acao::Fechar),
        };
    }
    if bruto.len() > LIMITE_PARAMS || r.corpo.len() > LIMITE_PARAMS - bruto.len() {
        return (Fase::Espera, Acao::Fechar);
    }
    let mut bruto = bruto;
    busca::acrescentar_bytes(&mut bruto, &r.corpo);
    (Fase::Params { id, manter, bruto }, Acao::Continuar)
}

/// O que um registro faz enquanto se recebe o corpo, de no maximo `limite` bytes.
pub fn avancar_entrada(
    id: u16,
    manter: bool,
    params: Tabela<String>,
    corpo: Vec<u8>,
    r: &Registro,
    limite: usize,
) -> (s: (Fase, Acao))
    ensures
        (r.tipo != FCGI_STDIN || r.id != id) ==> s.1 is Continuar && (s.0 matches Fase::Entrada {
            id: i,
            manter: m,
            params: t,
            corpo: c,
        } && i == id && m == manter && t == params && c@ == corpo@),
        r.tipo == FCGI_STDIN && r.id == id && r.corpo@.len() > 0 && corpo@.len() + r.corpo@.len() <= limite
            ==> s.1 is Continuar && (s.0 matches Fase::Entrada { id: i, manter: m, params: t, corpo: c } && i == id
            && m == manter && t == params && c@ == corpo@ + r.corpo@),
        r.tipo == FCGI_STDIN && r.id == id && r.corpo@.len() > 0 && corpo@.len() + r.corpo@.len() > limite
            ==> s.1 is Fechar,
        r.tipo == FCGI_STDIN && r.id == id && r.corpo@.len() == 0 ==> s.0 is Espera && (s.1 matches Acao::Executar {
            id: i,
            manter: m,
            params: t,
            corpo: c,
        } && i == id && m == manter && t == params && c@ == corpo@),
{
    if r.tipo != FCGI_STDIN || r.id != id {
        return (Fase::Entrada { id, manter, params, corpo }, Acao::Continuar);
    }
    if r.corpo.len() == 0 {
        return (Fase::Espera, Acao::Executar { id, manter, params, corpo });
    }
    if corpo.len() > limite || r.corpo.len() > limite - corpo.len() {
        return (Fase::Espera, Acao::Fechar);
    }
    let mut corpo = corpo;
    busca::acrescentar_bytes(&mut corpo, &r.corpo);
    (Fase::Entrada { id, manter, params, corpo }, Acao::Continuar)
}

// ---- A resposta -------------------------------------------------------------------------

/// As linhas de cabecalho.
pub open spec fn linhas_cabecalho(hs: Seq<(String, String)>) -> Seq<char>
    decreases hs.len(),
{
    if hs.len() == 0 {
        Seq::empty()
    } else {
        linhas_cabecalho(hs.drop_last()) + hs.last().0@ + ": "@ + hs.last().1@ + "\r\n"@
    }
}

/// Acrescenta as linhas de cabecalho a um texto.
pub fn acrescentar_cabecalhos(s: &mut String, hs: &Vec<(String, String)>)
    ensures
        final(s)@ == old(s)@ + linhas_cabecalho(hs@),
{
    let ghost antes = s@;
    for i in 0..hs.len()
        invariant
            s@ == antes + linhas_cabecalho(hs@.take(i as int)),
    {
        let ghost meio = s@;
        s.append(hs[i].0.as_str());
        s.append(": ");
        s.append(hs[i].1.as_str());
        s.append("\r\n");
        proof {
            let t = hs@.take(i + 1);
            assert(t.drop_last() =~= hs@.take(i as int));
            assert(t.last() == hs@[i as int]);
            assert(s@ =~= antes + linhas_cabecalho(t));
        }
    }
    assert(hs@.take(hs@.len() as int) =~= hs@);
}

/// O cabecalho CGI de uma resposta.
pub open spec fn cabecalho_cgi(status: u16, hs: Seq<(String, String)>) -> Seq<char> {
    "Status: "@ + texto::decimal(status as nat) + " "@ + servidor::nome_status(status) + "\r\n"@
        + linhas_cabecalho(hs) + "\r\n"@
}

/// O conteudo de uma resposta: o cabecalho CGI e o corpo.
pub fn resposta_cgi(status: u16, hs: &Vec<(String, String)>, corpo: &[u8]) -> (r: Vec<u8>)
    ensures
        r@ == utf8::encode_utf8(cabecalho_cgi(status, hs@)) + corpo@,
{
    let mut s = "Status: ".to_owned();
    let numero = texto::natural(status as u64);
    s.append(numero.as_str());
    s.append(" ");
    s.append(servidor::texto_status(status));
    s.append("\r\n");
    acrescentar_cabecalhos(&mut s, hs);
    s.append("\r\n");
    assert(s@ =~= cabecalho_cgi(status, hs@));
    let mut r: Vec<u8> = Vec::new();
    busca::acrescentar_texto(&mut r, s.as_str());
    busca::acrescentar_bytes(&mut r, corpo);
    assert(r@ =~= utf8::encode_utf8(cabecalho_cgi(status, hs@)) + corpo@);
    r
}

/// Os bytes que respondem a uma requisicao: a saida, a saida vazia que a encerra e o fim.
pub fn encerrar(id: u16, conteudo: &[u8]) -> (r: Vec<u8>)
    ensures
        r@ == registros(FCGI_STDOUT, id, conteudo@) + registro(FCGI_STDOUT, id, Seq::empty()) + registro(
            FCGI_END_REQUEST,
            id,
            seq![0u8, 0u8, 0u8, 0u8, 0u8, 0u8, 0u8, 0u8],
        ),
{
    let mut r = escrever_record(FCGI_STDOUT, id, conteudo);
    let vazio: Vec<u8> = Vec::new();
    acrescentar_registro(&mut r, FCGI_STDOUT, id, &vazio);
    let mut zeros: Vec<u8> = Vec::new();
    for i in 0..8usize
        invariant
            zeros@ == Seq::new(i as nat, |k: int| 0u8),
    {
        zeros.push(0);
        assert(zeros@ =~= Seq::new((i + 1) as nat, |k: int| 0u8));
    }
    assert(vazio@ =~= Seq::<u8>::empty());
    assert(zeros@ =~= seq![0u8, 0u8, 0u8, 0u8, 0u8, 0u8, 0u8, 0u8]);
    acrescentar_registro(&mut r, FCGI_END_REQUEST, id, &zeros);
    r
}

/// O que ha num caminho que o servidor da frente diz; de um arquivo, com a sua extensao.
pub enum NoDisco {
    Nada,
    Pasta,
    Arquivo(Option<String>),
}

/// Se um caminho pode ser o alvo de uma requisicao: uma pasta, ou um arquivo de programa.
pub open spec fn serve_de_alvo(d: NoDisco) -> bool {
    match d {
        NoDisco::Nada => false,
        NoDisco::Pasta => true,
        NoDisco::Arquivo(Some(e)) => e@ == "pep"@ || e@ == "phtml"@,
        NoDisco::Arquivo(None) => false,
    }
}

/// O alvo de uma requisicao: o script ou a pasta que o servidor da frente nomeia, se serve, a raiz
/// que ele diz, se e uma pasta, ou o alvo do processo.
pub fn alvo_da_requisicao(nomeado: Option<(&str, &NoDisco)>, raiz: Option<(&str, bool)>, script: &str) -> (r: String)
    ensures
        r@ == (if nomeado is Some && serve_de_alvo(*nomeado->Some_0.1) {
            nomeado->Some_0.0@
        } else if raiz is Some && raiz->Some_0.1 {
            raiz->Some_0.0@
        } else {
            script@
        }),
{
    if let Some((s, d)) = nomeado {
        let serve = match d {
            NoDisco::Nada => false,
            NoDisco::Pasta => true,
            NoDisco::Arquivo(Some(e)) => e.as_str().eq("pep") || e.as_str().eq("phtml"),
            NoDisco::Arquivo(None) => false,
        };
        if serve {
            return s.to_owned();
        }
    }
    if let Some((d, pasta)) = raiz {
        if pasta {
            return d.to_owned();
        }
    }
    script.to_owned()
}

} // verus!
