//! As variaveis que um programa recebe: as de uma requisicao e as da linha de comando.

use vstd::prelude::*;
use crate::ambiente;
use crate::busca;
use crate::conversao::{valor_para_vm, vm_para_valor};
use crate::conversao;
use crate::decimal::Decimal;
use crate::fastcgi;
use crate::json::{json_deserializar_val, Lido};
use crate::json;
use crate::requisicao::{parsear_multipart, Arquivo, Requisicao};
use crate::requisicao;
use crate::servidor::{parsear_query, url_decodificar};
use crate::servidor;
use crate::tabela::Tabela;
use crate::texto;
use crate::valor::{Ambiente, Valor};
use crate::valor;
use crate::vm::VmValor;
use crate::vm;

verus! {

// ---- Tabelas como valores ----------------------------------------------------------------

/// Se um valor e um mapa com o que uma tabela guarda, e nada mais.
pub open spec fn representa(v: vm::Visto, m: Map<Seq<char>, vm::Visto>) -> bool {
    match v {
        vm::Visto::Mapa(ps) => vm::distintas(ps) && forall|k: Seq<char>| #[trigger]
            vm::valor_de(ps, k) == if m.dom().contains(k) {
                Some(m[k])
            } else {
                None
            },
        _ => false,
    }
}

/// Uma tabela de textos como tabela de valores.
pub open spec fn de_textos(m: Map<Seq<char>, Seq<char>>) -> Map<Seq<char>, vm::Visto> {
    m.map_values(|s: Seq<char>| vm::Visto::Str(s))
}

/// Um arquivo enviado, como valor.
pub open spec fn valor_do_arquivo(a: requisicao::ArquivoVisto) -> vm::Visto {
    vm::Visto::Mapa(
        seq![
            ("nome"@, vm::Visto::Str(a.nome)),
            ("tipo"@, vm::Visto::Str(a.tipo)),
            ("tamanho"@, vm::Visto::Int(a.dados.len() as i64)),
            ("dados"@, vm::Visto::Bytes(a.dados)),
        ],
    )
}

/// Os arquivos enviados, como tabela de valores.
pub open spec fn de_arquivos(m: Map<Seq<char>, requisicao::ArquivoVisto>) -> Map<Seq<char>, vm::Visto> {
    m.map_values(|a: requisicao::ArquivoVisto| valor_do_arquivo(a))
}

proof fn lema_representa(ps: Seq<(Seq<char>, vm::Visto)>, nomes: Seq<Seq<char>>, m: Map<Seq<char>, vm::Visto>)
    requires
        ps.len() == nomes.len(),
        nomes.no_duplicates(),
        forall|k: Seq<char>| m.dom().contains(k) <==> #[trigger] nomes.contains(k),
        forall|i: int| 0 <= i < ps.len() ==> (#[trigger] ps[i]).0 == nomes[i] && ps[i].1 == m[nomes[i]],
    ensures
        representa(vm::Visto::Mapa(ps), m),
{
    assert forall|k: Seq<char>| #[trigger]
        vm::valor_de(ps, k) == if m.dom().contains(k) {
            Some(m[k])
        } else {
            None
        } by {
        vm::lema_lugar(ps, k, 0);
        if m.dom().contains(k) {
            assert(nomes.contains(k));
            let j = nomes.index_of(k);
            assert(ps[j].0 == k);
        } else if vm::lugar(ps, k, 0) is Some {
            let j = vm::lugar(ps, k, 0)->Some_0;
            assert(nomes.contains(nomes[j]));
        }
    }
}

/// Um mapa com o que uma tabela de textos guarda.
fn mapa_de_tabela(t: &Tabela<String>) -> (r: VmValor)
    ensures
        representa(r@, de_textos(fastcgi::mapa_de_textos(t@))),
{
    let cs = t.chaves();
    let mut m: Vec<(String, VmValor)> = Vec::new();
    let n = t.tamanho();
    let mut i: usize = 0;
    while i < n
        invariant
            i <= n,
            n == t.nomes().len(),
            m@.len() == i,
            forall|k: int|
                0 <= k < i ==> (#[trigger] m@[k]).0@ == t.nomes()[k] && t@.dom().contains(t.nomes()[k]) && m@[k].1@
                    == vm::Visto::Str(t@[t.nomes()[k]]@),
        decreases n - i,
    {
        let (k, v) = t.par(i);
        m.push((k.clone(), VmValor::Str(v.clone())));
        i += 1;
    }
    let r = VmValor::Mapa(m);
    proof {
        lema_representa(r@->Mapa_0, t.nomes(), de_textos(fastcgi::mapa_de_textos(t@)));
    }
    r
}

/// Um arquivo enviado, como valor.
fn arquivo_como_valor(a: &Arquivo) -> (r: VmValor)
    ensures
        r@ == valor_do_arquivo(requisicao::arquivo_visto(*a)),
{
    let mut m: Vec<(String, VmValor)> = Vec::new();
    m.push(("nome".to_owned(), VmValor::Str(a.nome.clone())));
    m.push(("tipo".to_owned(), VmValor::Str(a.tipo.clone())));
    m.push(("tamanho".to_owned(), VmValor::Int(a.dados.len() as i64)));
    m.push(("dados".to_owned(), VmValor::Bytes(busca::copia(a.dados.as_slice()))));
    assert(m@[0].1@ == vm::Visto::Str(a.nome@));
    assert(m@[1].1@ == vm::Visto::Str(a.tipo@));
    assert(m@[2].1@ == vm::Visto::Int(a.dados@.len() as i64));
    assert(m@[3].1@ == vm::Visto::Bytes(a.dados@));
    let r = VmValor::Mapa(m);
    assert(r@->Mapa_0 =~= valor_do_arquivo(requisicao::arquivo_visto(*a))->Mapa_0);
    r
}

/// Um mapa com os arquivos de uma tabela.
fn mapa_de_arquivos(t: &Tabela<Arquivo>) -> (r: VmValor)
    ensures
        representa(r@, de_arquivos(requisicao::arquivos_vistos(t@))),
{
    let cs = t.chaves();
    let mut m: Vec<(String, VmValor)> = Vec::new();
    let n = t.tamanho();
    let mut i: usize = 0;
    while i < n
        invariant
            i <= n,
            n == t.nomes().len(),
            m@.len() == i,
            forall|k: int|
                0 <= k < i ==> (#[trigger] m@[k]).0@ == t.nomes()[k] && t@.dom().contains(t.nomes()[k]) && m@[k].1@
                    == valor_do_arquivo(requisicao::arquivo_visto(t@[t.nomes()[k]])),
        decreases n - i,
    {
        let (k, v) = t.par(i);
        m.push((k.clone(), arquivo_como_valor(v)));
        i += 1;
    }
    let r = VmValor::Mapa(m);
    proof {
        lema_representa(r@->Mapa_0, t.nomes(), de_arquivos(requisicao::arquivos_vistos(t@)));
    }
    r
}

// ---- Os cookies --------------------------------------------------------------------------

/// Os cookies das partes a partir de `i`; um nome repetido fica com o ultimo valor.
pub open spec fn cookies_em(ps: Seq<Seq<char>>, decodifica: bool, i: int, m: Map<Seq<char>, Seq<char>>) -> Map<
    Seq<char>,
    Seq<char>,
>
    decreases ps.len() - i,
{
    if i < 0 || i >= ps.len() {
        m
    } else {
        cookies_em(
            ps,
            decodifica,
            i + 1,
            match busca::duas_partes(texto::aparado(ps[i]), '=') {
                Some((k, v)) => m.insert(
                    texto::aparado(k),
                    if decodifica {
                        servidor::url_texto(texto::aparado(v))
                    } else {
                        texto::aparado(v)
                    },
                ),
                None => m,
            },
        )
    }
}

/// Os cookies de um cabecalho.
pub open spec fn cookies_de(s: Seq<char>, decodifica: bool) -> Map<Seq<char>, Seq<char>> {
    cookies_em(busca::partes(s, ';', 0), decodifica, 0, Map::empty())
}

/// Le os cookies de um cabecalho.
fn ler_cookies(s: &str, decodifica: bool) -> (r: Tabela<String>)
    ensures
        fastcgi::mapa_de_textos(r@) == cookies_de(s@, decodifica),
{
    let mut m: Tabela<String> = Tabela::nova();
    assert(fastcgi::mapa_de_textos(m@) =~= Map::<Seq<char>, Seq<char>>::empty());
    let cs = texto::caracteres(s);
    let ps = busca::separar(&cs, ';');
    let ghost t = texto::textos(ps@);
    let mut i: usize = 0;
    while i < ps.len()
        invariant
            i <= ps@.len(),
            t == texto::textos(ps@),
            cookies_em(t, decodifica, 0, Map::empty()) == cookies_em(
                t,
                decodifica,
                i as int,
                fastcgi::mapa_de_textos(m@),
            ),
        decreases ps@.len() - i,
    {
        assert(t[i as int] == ps@[i as int]@);
        let ghost antes = m@;
        let a = busca::aparar_texto(ps[i].as_str());
        if let Some((k, v)) = busca::partir(a.as_str(), '=') {
            let nome = busca::aparar_texto(k.as_str());
            let bruto = busca::aparar_texto(v.as_str());
            let valor = if decodifica {
                url_decodificar(bruto.as_str())
            } else {
                bruto
            };
            let ghost (nv, vv) = (nome@, valor@);
            m.inserir(nome, valor);
            assert(fastcgi::mapa_de_textos(m@) =~= fastcgi::mapa_de_textos(antes).insert(nv, vv));
        }
        i += 1;
    }
    assert(t.len() == ps@.len());
    m
}

// ---- O contexto de uma requisicao --------------------------------------------------------

/// As variaveis de uma requisicao; ou o numero que falta saber para ler o corpo; ou nada que se
/// possa ler.
pub enum Contexto {
    Pronto(Vec<(String, VmValor)>),
    Falta(String),
    Panico,
}

/// O cabecalho com um nome, ou vazio.
pub open spec fn cabecalho_ou_vazio(m: Map<Seq<char>, String>, k: Seq<char>) -> Seq<char> {
    if m.dom().contains(k) {
        m[k]@
    } else {
        Seq::empty()
    }
}

/// O cabecalho com um nome, ou vazio.
fn ler_cabecalho<'a>(t: &'a Tabela<String>, k: &str) -> (r: &'a str)
    ensures
        r@ == cabecalho_ou_vazio(t@, k@),
{
    match t.obter(k) {
        Some(s) => s.as_str(),
        None => {
            proof {
                reveal_strlit("");
            }
            assert(""@ =~= Seq::<char>::empty());
            ""
        },
    }
}

/// O formulario de um corpo, pelo tipo dele: o de um endereco, o de varias partes, ou nenhum.
pub open spec fn formulario(tipo: Seq<char>, corpo: Seq<u8>) -> requisicao::Formulario {
    if busca::contem(tipo, "application/x-www-form-urlencoded"@) || tipo.len() == 0 {
        requisicao::Formulario { campos: servidor::query_de(busca::texto_de(corpo)), arquivos: Map::empty() }
    } else if busca::contem(tipo, "multipart/form-data"@) {
        requisicao::multipart(corpo, tipo)
    } else {
        requisicao::Formulario { campos: Map::empty(), arquivos: Map::empty() }
    }
}

/// O que se le de um corpo JSON: o valor dele, ou nulo se nao e JSON.
pub open spec fn corpo_json(tipo: Seq<char>, corpo: Seq<u8>, ns: json::Numeros) -> json::LidoVisto {
    if busca::contem(tipo, "application/json"@) {
        match json::json_lido(busca::texto_de(corpo), ns) {
            json::LidoVisto::Falha(_) => json::LidoVisto::Pronto(valor::Dado::Nulo),
            l => l,
        }
    } else {
        json::LidoVisto::Pronto(valor::Dado::Nulo)
    }
}

/// Os nomes das variaveis de uma requisicao.
pub open spec fn nomes_do_contexto() -> Seq<Seq<char>> {
    seq![
        "_GET"@,
        "_CORPO_BRUTO"@,
        "_POST"@,
        "_ARQUIVOS"@,
        "_CORPO_JSON"@,
        "_URL"@,
        "_METODO"@,
        "_SESSAO_ID"@,
        "_SERVIDOR"@,
        "_COOKIE"@,
        "_CABECALHOS"@,
        "_REQUISICAO"@,
        "_PARAMS"@,
    ]
}

/// Se as variaveis sao as de uma requisicao, numa sessao, com os parametros da rota e o corpo
/// JSON lido.
pub open spec fn contexto_de(
    g: Seq<(Seq<char>, vm::Visto)>,
    req: Requisicao,
    sessao: Seq<char>,
    params: Map<Seq<char>, Seq<char>>,
    corpo: valor::Dado,
) -> bool {
    let tipo = cabecalho_ou_vazio(req.cabecalhos@, "content-type"@);
    let f = formulario(tipo, req.corpo@);
    &&& g.len() == 13
    &&& forall|i: int| 0 <= i < 13 ==> (#[trigger] g[i]).0 == nomes_do_contexto()[i]
    &&& representa(g[0].1, de_textos(servidor::query_de(req.query_str@)))
    &&& g[1].1 == vm::Visto::Bytes(req.corpo@)
    &&& representa(g[2].1, de_textos(f.campos))
    &&& representa(g[3].1, de_arquivos(f.arquivos))
    &&& g[4].1 == conversao::visto_de(corpo)
    &&& g[5].1 == vm::Visto::Str(req.caminho_url@)
    &&& g[6].1 == vm::Visto::Str(req.metodo@)
    &&& g[7].1 == vm::Visto::Str(sessao)
    &&& g[8].1 == vm::Visto::Bool(true)
    &&& representa(g[9].1, de_textos(cookies_de(cabecalho_ou_vazio(req.cabecalhos@, "cookie"@), false)))
    &&& representa(g[10].1, de_textos(fastcgi::mapa_de_textos(req.cabecalhos@)))
    &&& g[11].1 == vm::Visto::Mapa(
        seq![
            ("metodo"@, vm::Visto::Str(req.metodo@)),
            ("url"@, vm::Visto::Str(req.caminho_url@)),
            ("query"@, vm::Visto::Str(req.query_str@)),
        ],
    )
    &&& representa(g[12].1, de_textos(params))
}

/// O formulario de um corpo: os campos e os arquivos.
fn ler_formulario(tipo: &str, corpo: &Vec<u8>) -> (r: (Tabela<String>, Tabela<Arquivo>))
    ensures
        fastcgi::mapa_de_textos(r.0@) == formulario(tipo@, corpo@).campos,
        requisicao::arquivos_vistos(r.1@) == formulario(tipo@, corpo@).arquivos,
{
    let t: Tabela<Arquivo> = Tabela::nova();
    assert(requisicao::arquivos_vistos(t@) =~= Map::<Seq<char>, requisicao::ArquivoVisto>::empty());
    if busca::contem_texto(tipo, "application/x-www-form-urlencoded") || tipo.is_empty() {
        let s = busca::de_bytes(corpo.as_slice());
        (parsear_query(s.as_str()), t)
    } else if busca::contem_texto(tipo, "multipart/form-data") {
        parsear_multipart(corpo.as_slice(), tipo)
    } else {
        let c: Tabela<String> = Tabela::nova();
        assert(fastcgi::mapa_de_textos(c@) =~= Map::<Seq<char>, Seq<char>>::empty());
        (c, t)
    }
}

/// O que se le de um corpo JSON.
fn ler_corpo_json(tipo: &str, corpo: &Vec<u8>, ns: &Vec<(String, Option<Decimal>)>) -> (r: Lido)
    ensures
        r@ == corpo_json(tipo@, corpo@, json::numeros_vistos(ns@)),
{
    if busca::contem_texto(tipo, "application/json") {
        let s = busca::de_bytes(corpo.as_slice());
        match json_deserializar_val(s.as_str(), ns) {
            Lido::Falha(_) => Lido::Pronto(Valor::Nulo),
            l => l,
        }
    } else {
        Lido::Pronto(Valor::Nulo)
    }
}

/// As variaveis de uma requisicao. Um numero com ponto do corpo JSON que falta em `ns` e pedido.
pub fn construir_contexto_http(
    req: &Requisicao,
    sessao: &str,
    params: &Tabela<String>,
    ns: &Vec<(String, Option<Decimal>)>,
) -> (r: Contexto)
    ensures
        match corpo_json(cabecalho_ou_vazio(req.cabecalhos@, "content-type"@), req.corpo@, json::numeros_vistos(ns@)) {
            json::LidoVisto::Pronto(d) => r matches Contexto::Pronto(g) && contexto_de(
                vm::pares_vistos(g@),
                *req,
                sessao@,
                fastcgi::mapa_de_textos(params@),
                d,
            ),
            json::LidoVisto::Falta(l) => r matches Contexto::Falta(s) && s@ == l,
            json::LidoVisto::Panico => r is Panico,
            json::LidoVisto::Falha(_) => false,
        },
{
    let tipo = ler_cabecalho(&req.cabecalhos, "content-type");
    let corpo = match ler_corpo_json(tipo, &req.corpo, ns) {
        Lido::Pronto(v) => v,
        Lido::Falta(s) => {
            return Contexto::Falta(s);
        },
        _ => {
            return Contexto::Panico;
        },
    };
    let (campos, arquivos) = ler_formulario(tipo, &req.corpo);
    let query = parsear_query(req.query_str.as_str());
    let cookies = ler_cookies(ler_cabecalho(&req.cabecalhos, "cookie"), false);
    let mut requisicao: Vec<(String, VmValor)> = Vec::new();
    requisicao.push(("metodo".to_owned(), VmValor::Str(req.metodo.clone())));
    requisicao.push(("url".to_owned(), VmValor::Str(req.caminho_url.clone())));
    requisicao.push(("query".to_owned(), VmValor::Str(req.query_str.clone())));
    assert(requisicao@[0].1@ == vm::Visto::Str(req.metodo@));
    assert(requisicao@[1].1@ == vm::Visto::Str(req.caminho_url@));
    assert(requisicao@[2].1@ == vm::Visto::Str(req.query_str@));
    let requisicao = VmValor::Mapa(requisicao);
    assert(requisicao@->Mapa_0 =~= seq![
        ("metodo"@, vm::Visto::Str(req.metodo@)),
        ("url"@, vm::Visto::Str(req.caminho_url@)),
        ("query"@, vm::Visto::Str(req.query_str@)),
    ]);
    let mut g: Vec<(String, VmValor)> = Vec::new();
    g.push(("_GET".to_owned(), mapa_de_tabela(&query)));
    g.push(("_CORPO_BRUTO".to_owned(), VmValor::Bytes(busca::copia(req.corpo.as_slice()))));
    g.push(("_POST".to_owned(), mapa_de_tabela(&campos)));
    g.push(("_ARQUIVOS".to_owned(), mapa_de_arquivos(&arquivos)));
    g.push(("_CORPO_JSON".to_owned(), valor_para_vm(&corpo)));
    g.push(("_URL".to_owned(), VmValor::Str(req.caminho_url.clone())));
    g.push(("_METODO".to_owned(), VmValor::Str(req.metodo.clone())));
    g.push(("_SESSAO_ID".to_owned(), VmValor::Str(sessao.to_owned())));
    g.push(("_SERVIDOR".to_owned(), VmValor::Bool(true)));
    g.push(("_COOKIE".to_owned(), mapa_de_tabela(&cookies)));
    g.push(("_CABECALHOS".to_owned(), mapa_de_tabela(&req.cabecalhos)));
    g.push(("_REQUISICAO".to_owned(), requisicao));
    g.push(("_PARAMS".to_owned(), mapa_de_tabela(params)));
    Contexto::Pronto(g)
}

// ---- O contexto da linha de comando ------------------------------------------------------

/// O que o processo recebe do servidor que o chamou: cada parte pode faltar.
pub struct Chamada {
    pub em_servidor: bool,
    pub url: Option<String>,
    pub metodo: Option<String>,
    pub query: Option<String>,
    pub post: Option<String>,
    pub cookie: Option<String>,
}

/// Um texto, ou outro se falta.
pub open spec fn ou(s: Option<String>, padrao: Seq<char>) -> Seq<char> {
    match s {
        Some(t) => t@,
        None => padrao,
    }
}

/// Um texto, ou outro se falta.
fn texto_ou(s: &Option<String>, padrao: &str) -> (r: String)
    ensures
        r@ == ou(*s, padrao@),
{
    match s {
        Some(t) => t.clone(),
        None => padrao.to_owned(),
    }
}

/// Se um valor do interpretador e o mapa do que uma tabela guarda.
pub open spec fn representa_dado(d: valor::Dado, m: Map<Seq<char>, vm::Visto>) -> bool {
    exists|v: vm::Visto| #[trigger] representa(v, m) && d == conversao::dado_de(v)
}

/// Se as variaveis sao as que a linha de comando da a um programa.
pub open spec fn variaveis_de(g: Seq<(Seq<char>, valor::Dado)>, c: Chamada) -> bool {
    let url = ou(c.url, ""@);
    let metodo = ou(c.metodo, "GET"@);
    let query = ou(c.query, ""@);
    let cookie = ou(c.cookie, ""@);
    let get = servidor::query_de(query);
    let post = servidor::query_de(ou(c.post, ""@));
    &&& g.len() == 8
    &&& g[0] == ("_SERVIDOR"@, valor::Dado::Booleano(c.em_servidor))
    &&& g[1] == ("_URL"@, valor::Dado::Texto(url))
    &&& g[2] == ("_METODO"@, valor::Dado::Texto(metodo))
    &&& g[3].0 == "_GET"@ && representa_dado(g[3].1, de_textos(get))
    &&& g[4].0 == "_POST"@ && representa_dado(g[4].1, de_textos(post))
    &&& g[5].0 == "_REQUEST"@ && representa_dado(g[5].1, de_textos(get.union_prefer_right(post)))
    &&& g[6].0 == "_COOKIE"@ && representa_dado(g[6].1, de_textos(cookies_de(cookie, true)))
    &&& g[7] == (
        "_SERVER"@,
        valor::Dado::Mapa(
            seq![
                ("REQUEST_METHOD"@, valor::Dado::Texto(metodo)),
                ("REQUEST_URI"@, valor::Dado::Texto(url)),
                ("QUERY_STRING"@, valor::Dado::Texto(query)),
                ("HTTP_COOKIE"@, valor::Dado::Texto(cookie)),
            ],
        ),
    )
}

/// Um mapa do interpretador com o que uma tabela de textos guarda.
fn dado_de_tabela(t: &Tabela<String>) -> (r: Valor)
    ensures
        representa_dado(r@, de_textos(fastcgi::mapa_de_textos(t@))),
{
    let v = mapa_de_tabela(t);
    let r = vm_para_valor(&v);
    assert(representa(v@, de_textos(fastcgi::mapa_de_textos(t@))));
    r
}

/// Poe numa tabela o que outra guarda; um nome repetido fica com o valor da outra.
fn unir(a: &mut Tabela<String>, b: &Tabela<String>)
    ensures
        fastcgi::mapa_de_textos(final(a)@) == fastcgi::mapa_de_textos(old(a)@).union_prefer_right(
            fastcgi::mapa_de_textos(b@),
        ),
{
    let cs = b.chaves();
    let n = b.tamanho();
    let ghost ma = fastcgi::mapa_de_textos(a@);
    let ghost mb = fastcgi::mapa_de_textos(b@);
    let mut i: usize = 0;
    while i < n
        invariant
            i <= n,
            n == b.nomes().len(),
            mb == fastcgi::mapa_de_textos(b@),
            forall|k: Seq<char>| #[trigger] fastcgi::mapa_de_textos(a@).dom().contains(k) <==> ma.dom().contains(k)
                || exists|j: int| 0 <= j < i && #[trigger] b.nomes()[j] == k,
            forall|j: int| 0 <= j < i ==> #[trigger] fastcgi::mapa_de_textos(a@)[b.nomes()[j]] == mb[b.nomes()[j]],
            forall|k: Seq<char>|
                ma.dom().contains(k) && !mb.dom().contains(k) ==> #[trigger] fastcgi::mapa_de_textos(a@)[k] == ma[k],
        decreases n - i,
    {
        let ghost antes = a@;
        let ghost x = fastcgi::mapa_de_textos(a@);
        let (k, v) = b.par(i);
        let ghost (kv, vv) = (k@, v@);
        a.inserir(k.clone(), v.clone());
        let ghost y = fastcgi::mapa_de_textos(a@);
        assert(y =~= x.insert(kv, vv));
        assert(mb[kv] == vv && b.nomes()[i as int] == kv);
        i += 1;
    }
    let ghost y = fastcgi::mapa_de_textos(a@);
    proof {
        assert forall|k: Seq<char>| y.dom().contains(k) <==> ma.union_prefer_right(mb).dom().contains(k) by {
            assert(mb.dom().contains(k) <==> b@.dom().contains(k));
            assert(b@.dom().contains(k) <==> b.nomes().contains(k));
        }
        assert forall|k: Seq<char>| y.dom().contains(k) implies y[k] == ma.union_prefer_right(mb)[k] by {
            assert(mb.dom().contains(k) <==> b.nomes().contains(k));
            if mb.dom().contains(k) {
                let j = b.nomes().index_of(k);
                assert(b.nomes()[j] == k);
            }
        }
        assert(y =~= ma.union_prefer_right(mb));
    }
}

/// As variaveis que a linha de comando da a um programa.
pub fn variaveis_do_servidor(c: &Chamada) -> (r: Vec<(String, Valor)>)
    ensures
        variaveis_de(valor::pares_vistos(r@), *c),
{
    let url = texto_ou(&c.url, "");
    let metodo = texto_ou(&c.metodo, "GET");
    let query = texto_ou(&c.query, "");
    let post = texto_ou(&c.post, "");
    let cookie = texto_ou(&c.cookie, "");
    let get_t = parsear_query(query.as_str());
    let post_t = parsear_query(post.as_str());
    let mut todos = parsear_query(query.as_str());
    unir(&mut todos, &post_t);
    let cookies = ler_cookies(cookie.as_str(), true);
    let mut s: Vec<(String, Valor)> = Vec::new();
    s.push(("REQUEST_METHOD".to_owned(), Valor::Texto(metodo.clone())));
    s.push(("REQUEST_URI".to_owned(), Valor::Texto(url.clone())));
    s.push(("QUERY_STRING".to_owned(), Valor::Texto(query.clone())));
    s.push(("HTTP_COOKIE".to_owned(), Valor::Texto(cookie.clone())));
    assert(s@[0].1@ == valor::Dado::Texto(metodo@));
    assert(s@[1].1@ == valor::Dado::Texto(url@));
    assert(s@[2].1@ == valor::Dado::Texto(query@));
    assert(s@[3].1@ == valor::Dado::Texto(cookie@));
    let s = Valor::Mapa(s);
    assert(s@->Mapa_0 =~= seq![
        ("REQUEST_METHOD"@, valor::Dado::Texto(metodo@)),
        ("REQUEST_URI"@, valor::Dado::Texto(url@)),
        ("QUERY_STRING"@, valor::Dado::Texto(query@)),
        ("HTTP_COOKIE"@, valor::Dado::Texto(cookie@)),
    ]);
    let mut g: Vec<(String, Valor)> = Vec::new();
    g.push(("_SERVIDOR".to_owned(), Valor::Booleano(c.em_servidor)));
    g.push(("_URL".to_owned(), Valor::Texto(url)));
    g.push(("_METODO".to_owned(), Valor::Texto(metodo)));
    g.push(("_GET".to_owned(), dado_de_tabela(&get_t)));
    g.push(("_POST".to_owned(), dado_de_tabela(&post_t)));
    g.push(("_REQUEST".to_owned(), dado_de_tabela(&todos)));
    g.push(("_COOKIE".to_owned(), dado_de_tabela(&cookies)));
    g.push(("_SERVER".to_owned(), s));
    g
}

/// O ambiente com as primeiras `n` variaveis definidas.
pub open spec fn definidas(e: Seq<valor::Escopo>, g: Seq<(Seq<char>, valor::Dado)>, n: int) -> Seq<valor::Escopo>
    decreases n,
{
    if n <= 0 || n > g.len() {
        e
    } else {
        ambiente::definido(definidas(e, g, n - 1), g[n - 1].0, g[n - 1].1)
    }
}

/// Define num ambiente as variaveis que a linha de comando da.
pub fn injetar_contexto_servidor(amb: &mut Ambiente, c: &Chamada)
    ensures
        exists|g: Seq<(Seq<char>, valor::Dado)>| #[trigger]
            variaveis_de(g, *c) && final(amb)@ == definidas(old(amb)@, g, g.len() as int),
{
    let vs = variaveis_do_servidor(c);
    let ghost g = valor::pares_vistos(vs@);
    let ghost o = amb@;
    let mut i: usize = 0;
    while i < vs.len()
        invariant
            i <= vs@.len(),
            g == valor::pares_vistos(vs@),
            amb@ == definidas(o, g, i as int),
        decreases vs@.len() - i,
    {
        assert(g[i as int] == (vs@[i as int].0@, vs@[i as int].1@));
        amb.definir(vs[i].0.clone(), vs[i].1.clone());
        i += 1;
    }
    assert(variaveis_de(g, *c) && amb@ == definidas(o, g, g.len() as int));
}

} // verus!
