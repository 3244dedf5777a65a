//! O atendimento de uma requisicao: o que se faz com ela e o que se responde.

use vstd::prelude::*;
use vstd::utf8;
use crate::busca;
use crate::fastcgi;
use crate::globais::reservar_websocket;
use crate::globais;
use crate::http;
use crate::ordem;
use crate::requisicao::{resposta_de_erro, ErroRequisicao, Requisicao};
use crate::servidor::{
    detectar_mime,
    encontrar_rota,
    escrever_resposta,
    metodos_rota,
    pagina_erro,
    pagina_erro_pep,
    Rota,
};
use crate::servidor;
use crate::tabela::Tabela;
use crate::texto;
use crate::vm::VmValor;
use crate::vm;

verus! {

// ---- As respostas ------------------------------------------------------------------------

/// Uma resposta: o codigo, o tipo do conteudo, o corpo, os outros cabecalhos, e se o corpo vai.
pub struct Resposta {
    pub codigo: u16,
    pub tipo: String,
    pub corpo: Vec<u8>,
    pub extras: Vec<(String, String)>,
    pub enviar_corpo: bool,
}

/// Uma resposta, vista.
pub ghost struct RespostaVista {
    pub codigo: u16,
    pub tipo: Seq<char>,
    pub corpo: Seq<u8>,
    pub extras: Seq<(Seq<char>, Seq<char>)>,
    pub enviar_corpo: bool,
}

/// O tipo de um texto simples.
pub open spec fn tipo_simples() -> Seq<char> {
    "text/plain; charset=utf-8"@
}

/// O tipo de uma pagina.
pub open spec fn tipo_pagina() -> Seq<char> {
    "text/html; charset=utf-8"@
}

/// Os metodos com que se pede uma pagina.
pub open spec fn metodos_de_pagina() -> Seq<char> {
    "GET, HEAD, POST, PUT, PATCH, DELETE, OPTIONS"@
}

impl Resposta {
    pub open spec fn view(&self) -> RespostaVista {
        RespostaVista {
            codigo: self.codigo,
            tipo: self.tipo@,
            corpo: self.corpo@,
            extras: http::vistos(self.extras@),
            enviar_corpo: self.enviar_corpo,
        }
    }

    /// Os bytes da resposta.
    pub fn bytes(&self) -> (r: Vec<u8>)
        ensures
            r@ == utf8::encode_utf8(
                servidor::cabecalho_http(self.codigo, self.tipo@, self.corpo@.len(), self.extras@),
            ) + if self.enviar_corpo {
                self.corpo@
            } else {
                Seq::empty()
            },
    {
        escrever_resposta(
            self.codigo,
            self.tipo.as_str(),
            self.corpo.as_slice(),
            &self.extras,
            self.enviar_corpo,
        )
    }
}

/// Uma resposta so com texto.
pub open spec fn de_texto(codigo: u16, tipo: Seq<char>, s: Seq<char>, enviar_corpo: bool) -> RespostaVista {
    RespostaVista { codigo, tipo, corpo: utf8::encode_utf8(s), extras: Seq::empty(), enviar_corpo }
}

/// Uma resposta so com texto.
fn resposta_texto(codigo: u16, tipo: &str, s: &str, enviar_corpo: bool) -> (r: Resposta)
    ensures
        r@ == de_texto(codigo, tipo@, s@, enviar_corpo),
{
    let mut corpo: Vec<u8> = Vec::new();
    busca::acrescentar_texto(&mut corpo, s);
    assert(corpo@ =~= utf8::encode_utf8(s@));
    let extras: Vec<(String, String)> = Vec::new();
    assert(http::vistos(extras@) =~= Seq::empty());
    Resposta { codigo, tipo: tipo.to_owned(), corpo, extras, enviar_corpo }
}

/// A resposta que diz que metodos um caminho oferece.
pub open spec fn de_metodos(codigo: u16, ms: Seq<char>, s: Seq<u8>, enviar_corpo: bool) -> RespostaVista {
    RespostaVista { codigo, tipo: tipo_simples(), corpo: s, extras: seq![("Allow"@, ms)], enviar_corpo }
}

/// O cabecalho que diz que metodos um caminho oferece.
fn cabecalho_metodos(ms: &str) -> (r: Vec<(String, String)>)
    ensures
        http::vistos(r@) == seq![("Allow"@, ms@)],
{
    let mut v: Vec<(String, String)> = Vec::new();
    v.push(("Allow".to_owned(), ms.to_owned()));
    assert(http::vistos(v@) =~= seq![("Allow"@, ms@)]);
    v
}

/// A resposta que diz que metodos um caminho oferece.
fn resposta_metodos(codigo: u16, ms: &str, s: &str, enviar_corpo: bool) -> (r: Resposta)
    ensures
        r@ == de_metodos(codigo, ms@, utf8::encode_utf8(s@), enviar_corpo),
{
    let mut corpo: Vec<u8> = Vec::new();
    busca::acrescentar_texto(&mut corpo, s);
    assert(corpo@ =~= utf8::encode_utf8(s@));
    Resposta {
        codigo,
        tipo: "text/plain; charset=utf-8".to_owned(),
        corpo,
        extras: cabecalho_metodos(ms),
        enviar_corpo,
    }
}

/// A resposta a uma requisicao que nao se le.
pub fn resposta_da_falha(e: ErroRequisicao) -> (r: Resposta)
    ensures
        match e {
            ErroRequisicao::Invalida => r@ == de_texto(400, tipo_simples(), "Requisicao invalida"@, true),
            ErroRequisicao::CabecalhosGrandes => r@ == de_texto(431, tipo_simples(), "Cabecalhos muito grandes"@, true),
            ErroRequisicao::CorpoGrande => r@ == de_texto(
                413,
                tipo_simples(),
                "Corpo da requisicao muito grande"@,
                true,
            ),
            ErroRequisicao::CodificacaoNaoSuportada => r@ == de_texto(
                501,
                tipo_simples(),
                "Transfer-Encoding nao suportado"@,
                true,
            ),
        },
{
    let (codigo, mensagem) = resposta_de_erro(e);
    resposta_texto(codigo, "text/plain; charset=utf-8", mensagem, true)
}

/// A resposta quando nao se pode abrir o canal de eventos.
pub fn resposta_sem_eventos() -> (r: Resposta)
    ensures
        r@ == de_texto(500, tipo_simples(), "Erro SSE"@, true),
{
    resposta_texto(500, "text/plain; charset=utf-8", "Erro SSE", true)
}

// ---- A decisao ---------------------------------------------------------------------------

/// O que se faz com uma requisicao.
pub enum Acao {
    Responder(Resposta),
    WebSocketRota { rota: usize, params: Tabela<String> },
    WebSocketPagina { arquivo: String, params: Tabela<String> },
    Eventos { rota: usize, params: Tabela<String> },
    Rota { rota: usize, params: Tabela<String> },
    Pagina { arquivo: String, params: Tabela<String> },
    Publico,
}

/// Os parametros de um caminho.
pub type Parametros = Map<Seq<char>, Seq<char>>;

/// O que se faz com uma requisicao, visto.
pub ghost enum AcaoVista {
    Responder(RespostaVista),
    WebSocketRota { rota: int, params: Parametros },
    WebSocketPagina { arquivo: Seq<char>, params: Parametros },
    Eventos { rota: int, params: Parametros },
    Rota { rota: int, params: Parametros },
    Pagina { arquivo: Seq<char>, params: Parametros },
    Publico,
}

impl Acao {
    pub open spec fn view(&self) -> AcaoVista {
        match self {
            Acao::Responder(r) => AcaoVista::Responder(r@),
            Acao::WebSocketRota { rota, params } => AcaoVista::WebSocketRota {
                rota: *rota as int,
                params: fastcgi::mapa_de_textos(params@),
            },
            Acao::WebSocketPagina { arquivo, params } => AcaoVista::WebSocketPagina {
                arquivo: arquivo@,
                params: fastcgi::mapa_de_textos(params@),
            },
            Acao::Eventos { rota, params } => AcaoVista::Eventos {
                rota: *rota as int,
                params: fastcgi::mapa_de_textos(params@),
            },
            Acao::Rota { rota, params } => AcaoVista::Rota {
                rota: *rota as int,
                params: fastcgi::mapa_de_textos(params@),
            },
            Acao::Pagina { arquivo, params } => AcaoVista::Pagina {
                arquivo: arquivo@,
                params: fastcgi::mapa_de_textos(params@),
            },
            Acao::Publico => AcaoVista::Publico,
        }
    }
}

/// Um cabecalho de uma requisicao.
pub open spec fn cabecalho(req: Requisicao, k: Seq<char>) -> Option<Seq<char>> {
    if req.cabecalhos@.dom().contains(k) {
        Some(req.cabecalhos@[k]@)
    } else {
        None
    }
}

/// Se a requisicao pede uma conexao de WebSocket.
pub open spec fn pede_websocket(req: Requisicao) -> bool {
    &&& cabecalho(req, "upgrade"@) matches Some(v) && busca::iguais_sem_caixa(v, "websocket"@)
    &&& cabecalho(req, "sec-websocket-key"@) matches Some(c) && c.len() > 0
}

/// Se a requisicao aceita eventos.
pub open spec fn aceita_eventos(req: Requisicao) -> bool {
    cabecalho(req, "accept"@) matches Some(v) && busca::contem(v, "text/event-stream"@)
}

/// A rota que atende um metodo e um caminho, com os parametros.
pub open spec fn rota_de<H>(rs: Seq<Rota<H>>, metodo: Seq<char>, caminho: Seq<char>) -> Option<(int, Parametros)> {
    match servidor::rota_em(rs, metodo, caminho, 0) {
        Some(i) => Some((i, servidor::combinacao(rs[i].padrao@, caminho)->Some_0)),
        None => None,
    }
}

/// O metodo pelo qual se procura a rota: `HEAD` usa as de `GET`.
pub open spec fn metodo_da_busca(metodo: Seq<char>) -> Seq<char> {
    if metodo == "HEAD"@ {
        "GET"@
    } else {
        metodo
    }
}

/// Se uma lista e a dos metodos que um caminho oferece.
pub open spec fn sao_os_metodos<H>(ms: Seq<Seq<char>>, rs: Seq<Rota<H>>, caminho: Seq<char>) -> bool {
    &&& ordem::ordenada(ms)
    &&& forall|m: Seq<char>| #[trigger] ms.contains(m) <==> servidor::oferecido(rs, caminho, m)
}

/// A pagina que atende o caminho, vista.
pub open spec fn pagina_vista(p: Option<(String, Tabela<String>)>) -> Option<(Seq<char>, Parametros)> {
    match p {
        Some((a, t)) => Some((a@, fastcgi::mapa_de_textos(t@))),
        None => None,
    }
}

/// A acao de um WebSocket, se ainda cabe uma conexao.
pub open spec fn se_cabe(cabe: bool, a: AcaoVista) -> AcaoVista {
    if cabe {
        a
    } else {
        AcaoVista::Responder(de_texto(503, tipo_simples(), "Limite de WebSockets atingido"@, true))
    }
}

/// O que se faz com uma requisicao, dadas as rotas, os metodos do caminho, a pagina que o atende
/// e se ainda cabe uma conexao de WebSocket.
pub open spec fn acao_de<H>(
    req: Requisicao,
    rs: Seq<Rota<H>>,
    ms: Seq<Seq<char>>,
    pagina: Option<(Seq<char>, Parametros)>,
    cabe: bool,
) -> AcaoVista {
    let metodo = req.metodo@;
    let caminho = req.caminho_url@;
    let com_corpo = metodo != "HEAD"@;
    let lista = busca::juntos(ms, ", "@);
    if busca::contem(caminho, ".."@) || caminho.contains('\0') {
        AcaoVista::Responder(de_texto(403, tipo_pagina(), servidor::html_erro(403, caminho), com_corpo))
    } else if pede_websocket(req) {
        match rota_de(rs, metodo, caminho) {
            Some((rota, params)) => se_cabe(cabe, AcaoVista::WebSocketRota { rota, params }),
            None => match pagina {
                Some((arquivo, params)) => se_cabe(cabe, AcaoVista::WebSocketPagina { arquivo, params }),
                None => AcaoVista::Responder(
                    de_texto(404, tipo_pagina(), servidor::html_erro(404, caminho), com_corpo),
                ),
            },
        }
    } else if metodo == "OPTIONS"@ && ms.len() > 0 {
        AcaoVista::Responder(de_metodos(204, lista, Seq::empty(), false))
    } else {
        match rota_de(rs, metodo_da_busca(metodo), caminho) {
            Some((rota, params)) => if aceita_eventos(req) {
                AcaoVista::Eventos { rota, params }
            } else {
                AcaoVista::Rota { rota, params }
            },
            None => if ms.len() > 0 {
                AcaoVista::Responder(
                    de_metodos(405, lista, utf8::encode_utf8("Metodo nao permitido"@), com_corpo),
                )
            } else {
                match pagina {
                    Some((arquivo, params)) => if metodo == "OPTIONS"@ {
                        AcaoVista::Responder(de_metodos(204, metodos_de_pagina(), Seq::empty(), false))
                    } else {
                        AcaoVista::Pagina { arquivo, params }
                    },
                    None => AcaoVista::Publico,
                }
            },
        }
    }
}

/// Se um texto tem um caractere.
fn tem_caractere(s: &str, c: char) -> (r: bool)
    ensures
        r == s@.contains(c),
{
    let v = texto::caracteres(s);
    let p = texto::achar(&v, c, 0);
    proof {
        texto::lema_proximo(s@, c, 0);
    }
    if p < v.len() {
        assert(s@[p as int] == c);
        true
    } else {
        false
    }
}

/// Se a requisicao pede uma conexao de WebSocket.
fn quer_websocket(req: &Requisicao) -> (r: bool)
    ensures
        r == pede_websocket(*req),
{
    let upgrade = match req.cabecalhos.obter("upgrade") {
        Some(v) => busca::igual_sem_caixa(v.as_str(), "websocket"),
        None => false,
    };
    let chave = match req.cabecalhos.obter("sec-websocket-key") {
        Some(v) => !v.as_str().is_empty(),
        None => false,
    };
    upgrade && chave
}

/// Se a requisicao aceita eventos.
fn quer_eventos(req: &Requisicao) -> (r: bool)
    ensures
        r == aceita_eventos(*req),
{
    match req.cabecalhos.obter("accept") {
        Some(v) => busca::contem_texto(v.as_str(), "text/event-stream"),
        None => false,
    }
}

/// A resposta quando nao cabe mais uma conexao.
fn resposta_lotada() -> (r: Resposta)
    ensures
        r@ == de_texto(503, tipo_simples(), "Limite de WebSockets atingido"@, true),
{
    resposta_texto(503, "text/plain; charset=utf-8", "Limite de WebSockets atingido", true)
}

/// O que um WebSocket faz com a requisicao.
fn tratar_websocket<H>(
    req: &Requisicao,
    rotas: &Vec<Rota<H>>,
    pagina: Option<(String, Tabela<String>)>,
    ativos: &mut usize,
    limite: Option<&str>,
    Ghost(ms): Ghost<Seq<Seq<char>>>,
) -> (r: Acao)
    requires
        pede_websocket(*req),
        !busca::contem(req.caminho_url@, ".."@) && !req.caminho_url@.contains('\0'),
    ensures
        r@ == acao_de(*req, rotas@, ms, pagina_vista(pagina), *old(ativos) < limite_visto(limite)),
        *final(ativos) == if r is WebSocketRota || r is WebSocketPagina {
            *old(ativos) + 1
        } else {
            *old(ativos) as int
        },
{
    if let Some((rota, params)) = encontrar_rota(rotas, req.metodo.as_str(), req.caminho_url.as_str()) {
        if reservar_websocket(ativos, limite) {
            return Acao::WebSocketRota { rota, params };
        }
        return Acao::Responder(resposta_lotada());
    }
    match pagina {
        Some((arquivo, params)) => if reservar_websocket(ativos, limite) {
            Acao::WebSocketPagina { arquivo, params }
        } else {
            Acao::Responder(resposta_lotada())
        },
        None => Acao::Responder(
            resposta_texto(
                404,
                "text/html; charset=utf-8",
                pagina_erro(404, req.caminho_url.as_str()).as_str(),
                !req.metodo.as_str().eq("HEAD"),
            ),
        ),
    }
}

/// Quantas conexoes de WebSocket cabem.
pub open spec fn limite_visto(limite: Option<&str>) -> int {
    globais::limite_websockets(
        match limite {
            Some(s) => Some(s@),
            None => None,
        },
    )
}

/// Decide o que se faz com uma requisicao. A pagina e a que atende o caminho, se ha; `ativos`
/// conta as conexoes de WebSocket, e cresce quando se abre mais uma.
pub fn tratar<H>(
    req: &Requisicao,
    rotas: &Vec<Rota<H>>,
    pagina: Option<(String, Tabela<String>)>,
    ativos: &mut usize,
    limite: Option<&str>,
) -> (r: Acao)
    ensures
        exists|ms: Seq<Seq<char>>| #[trigger]
            sao_os_metodos(ms, rotas@, req.caminho_url@) && r@ == acao_de(
                *req,
                rotas@,
                ms,
                pagina_vista(pagina),
                *old(ativos) < limite_visto(limite),
            ),
        *final(ativos) == if r is WebSocketRota || r is WebSocketPagina {
            *old(ativos) + 1
        } else {
            *old(ativos) as int
        },
{
    let ms = metodos_rota(rotas, req.caminho_url.as_str());
    let ghost vs = texto::textos(ms@);
    assert(sao_os_metodos(vs, rotas@, req.caminho_url@));
    assert(vs.len() == ms@.len());
    let com_corpo = !req.metodo.as_str().eq("HEAD");
    proof {
        reveal_strlit("");
        assert(""@ =~= Seq::<char>::empty());
        lema_vazio();
    }
    if busca::contem_texto(req.caminho_url.as_str(), "..") || tem_caractere(req.caminho_url.as_str(), '\0') {
        return Acao::Responder(
            resposta_texto(
                403,
                "text/html; charset=utf-8",
                pagina_erro(403, req.caminho_url.as_str()).as_str(),
                com_corpo,
            ),
        );
    }
    if quer_websocket(req) {
        return tratar_websocket(req, rotas, pagina, ativos, limite, Ghost(vs));
    }
    let lista = busca::juntar(&ms, ", ");
    if req.metodo.as_str().eq("OPTIONS") && ms.len() > 0 {
        return Acao::Responder(resposta_metodos(204, lista.as_str(), "", false));
    }
    let metodo = if req.metodo.as_str().eq("HEAD") {
        "GET"
    } else {
        req.metodo.as_str()
    };
    if let Some((rota, params)) = encontrar_rota(rotas, metodo, req.caminho_url.as_str()) {
        return if quer_eventos(req) {
            Acao::Eventos { rota, params }
        } else {
            Acao::Rota { rota, params }
        };
    }
    if ms.len() > 0 {
        return Acao::Responder(resposta_metodos(405, lista.as_str(), "Metodo nao permitido", com_corpo));
    }
    match pagina {
        Some((arquivo, params)) => if req.metodo.as_str().eq("OPTIONS") {
            Acao::Responder(
                resposta_metodos(204, "GET, HEAD, POST, PUT, PATCH, DELETE, OPTIONS", "", false),
            )
        } else {
            Acao::Pagina { arquivo, params }
        },
        None => Acao::Publico,
    }
}

/// Nenhum caractere, nenhum byte.
proof fn lema_vazio()
    ensures
        utf8::encode_utf8(Seq::<char>::empty()) == Seq::<u8>::empty(),
{
    reveal_with_fuel(utf8::encode_utf8, 1);
}

// ---- A conclusao de um programa ----------------------------------------------------------

/// Como acabou um programa que atende uma requisicao.
pub enum Resultado {
    Valor(VmValor),
    Falha(String),
    Panico,
}

/// O corpo com o que um programa devolve: so conta se o corpo esta vazio.
pub open spec fn com_retorno(corpo: Seq<u8>, v: vm::Visto) -> Seq<u8> {
    if corpo.len() > 0 {
        corpo
    } else {
        match v {
            vm::Visto::Null => corpo,
            vm::Visto::Bytes(b) => b,
            _ => utf8::encode_utf8(vm::texto_de(v)),
        }
    }
}

/// Poe no corpo vazio o que um programa devolve.
pub fn preencher_corpo_com_retorno(corpo: &mut Vec<u8>, valor: VmValor)
    ensures
        final(corpo)@ == com_retorno(old(corpo)@, valor@),
{
    if corpo.len() > 0 {
        return;
    }
    match &valor {
        VmValor::Null => {},
        VmValor::Bytes(b) => {
            busca::acrescentar_bytes(corpo, b.as_slice());
            assert(corpo@ =~= b@);
        },
        _ => {
            let s = valor.texto();
            busca::acrescentar_texto(corpo, s.as_str());
            assert(corpo@ =~= utf8::encode_utf8(s@));
        },
    }
}

/// O codigo, os cabecalhos e o corpo de uma resposta.
pub type Partes = (u16, Seq<(Seq<char>, Seq<char>)>, Seq<u8>);

/// O que um programa respondeu, visto.
pub open spec fn partes_vistas(p: (u16, Vec<(String, String)>, Vec<u8>)) -> Partes {
    (p.0, http::vistos(p.1@), p.2@)
}

/// A resposta depois de um programa acabar. De uma falha fica o que ja se escreveu ou, se nada
/// se escreveu, uma pagina com a mensagem.
pub open spec fn concluida(f: Resultado, p: Partes) -> Partes {
    match f {
        Resultado::Valor(v) => (p.0, p.1, com_retorno(p.2, v@)),
        Resultado::Falha(e) => if p.2.len() == 0 {
            (500, Seq::empty(), utf8::encode_utf8(servidor::html_erro_pep(e@)))
        } else {
            (500, p.1, p.2)
        },
        Resultado::Panico => (500, Seq::empty(), utf8::encode_utf8(servidor::html_erro_pep("Erro interno (panic)"@))),
    }
}

/// A resposta de uma pagina de erro de execucao.
fn resposta_de_falha(e: &str) -> (r: (u16, Vec<(String, String)>, Vec<u8>))
    ensures
        partes_vistas(r) == (500u16, Seq::<(Seq<char>, Seq<char>)>::empty(), utf8::encode_utf8(servidor::html_erro_pep(e@))),
{
    let s = pagina_erro_pep(e);
    let mut corpo: Vec<u8> = Vec::new();
    busca::acrescentar_texto(&mut corpo, s.as_str());
    assert(corpo@ =~= utf8::encode_utf8(s@));
    let hs: Vec<(String, String)> = Vec::new();
    assert(http::vistos(hs@) =~= Seq::empty());
    (500, hs, corpo)
}

/// Conclui a resposta de um programa.
pub fn concluir(f: Resultado, resposta: (u16, Vec<(String, String)>, Vec<u8>)) -> (r: (
    u16,
    Vec<(String, String)>,
    Vec<u8>,
))
    ensures
        partes_vistas(r) == concluida(f, partes_vistas(resposta)),
{
    let (status, hs, corpo) = resposta;
    match f {
        Resultado::Valor(v) => {
            let mut c = corpo;
            preencher_corpo_com_retorno(&mut c, v);
            (status, hs, c)
        },
        Resultado::Falha(e) => if corpo.len() == 0 {
            resposta_de_falha(e.as_str())
        } else {
            (500, hs, corpo)
        },
        Resultado::Panico => resposta_de_falha("Erro interno (panic)"),
    }
}

/// Os cabecalhos que nao dizem o tipo do conteudo.
pub open spec fn sem_tipo(hs: Seq<(Seq<char>, Seq<char>)>) -> Seq<(Seq<char>, Seq<char>)>
    decreases hs.len(),
{
    if hs.len() == 0 {
        hs
    } else if busca::iguais_sem_caixa(hs.last().0, "content-type"@) {
        sem_tipo(hs.drop_last())
    } else {
        sem_tipo(hs.drop_last()).push(hs.last())
    }
}

/// O tipo do conteudo que os cabecalhos dizem: o ultimo; se nenhum diz, o de uma pagina.
pub open spec fn tipo_dos(hs: Seq<(Seq<char>, Seq<char>)>) -> Seq<char>
    decreases hs.len(),
{
    if hs.len() == 0 {
        tipo_pagina()
    } else if busca::iguais_sem_caixa(hs.last().0, "content-type"@) {
        hs.last().1
    } else {
        tipo_dos(hs.drop_last())
    }
}

/// A resposta de um programa: primeiro o cookie da sessao, depois os cabecalhos dele.
pub fn montar_resposta(req: &Requisicao, cookie: String, partes: (u16, Vec<(String, String)>, Vec<u8>)) -> (r: Resposta)
    ensures
        r@ == (RespostaVista {
            codigo: partes.0,
            tipo: tipo_dos(http::vistos(partes.1@)),
            corpo: partes.2@,
            extras: seq![("Set-Cookie"@, cookie@)] + sem_tipo(http::vistos(partes.1@)),
            enviar_corpo: req.metodo@ != "HEAD"@,
        }),
{
    let (codigo, hs, corpo) = partes;
    let ghost hv = http::vistos(hs@);
    let ghost primeiro = ("Set-Cookie"@, cookie@);
    let mut extras: Vec<(String, String)> = Vec::new();
    let mut tipo = "text/html; charset=utf-8".to_owned();
    extras.push(("Set-Cookie".to_owned(), cookie));
    assert(http::vistos(extras@) =~= seq![primeiro] + sem_tipo(hv.take(0)));
    let mut i: usize = 0;
    while i < hs.len()
        invariant
            i <= hs@.len(),
            hv == http::vistos(hs@),
            http::vistos(extras@) == seq![primeiro] + sem_tipo(hv.take(i as int)),
            tipo@ == tipo_dos(hv.take(i as int)),
        decreases hs@.len() - i,
    {
        let ghost antes = extras@;
        assert(hv.take(i + 1).drop_last() =~= hv.take(i as int));
        assert(hv[i as int] == (hs@[i as int].0@, hs@[i as int].1@));
        if busca::igual_sem_caixa(hs[i].0.as_str(), "content-type") {
            tipo = hs[i].1.clone();
        } else {
            extras.push((hs[i].0.clone(), hs[i].1.clone()));
            assert(http::vistos(extras@) =~= http::vistos(antes).push(hv[i as int]));
            assert(http::vistos(extras@) =~= seq![primeiro] + sem_tipo(hv.take(i + 1)));
        }
        i += 1;
    }
    assert(hv.take(hv.len() as int) =~= hv);
    Resposta { codigo, tipo, corpo, extras, enviar_corpo: !req.metodo.as_str().eq("HEAD") }
}

/// Um arquivo publico: a extensao dele e o que se leu.
pub struct ArquivoPublico {
    pub extensao: String,
    pub conteudo: Result<Vec<u8>, String>,
}

/// A resposta com um arquivo publico. Uma pagina nunca se serve como esta.
pub open spec fn publico_servido(req: Requisicao, a: Option<ArquivoPublico>) -> RespostaVista {
    let com_corpo = req.metodo@ != "HEAD"@;
    match a {
        None => de_texto(404, tipo_pagina(), servidor::html_erro(404, req.caminho_url@), com_corpo),
        Some(f) => if f.extensao@ == "phtml"@ || f.extensao@ == "pep"@ {
            de_texto(404, tipo_simples(), "Nao encontrado"@, com_corpo)
        } else {
            match f.conteudo {
                Ok(b) => RespostaVista {
                    codigo: 200,
                    tipo: servidor::mime_de(f.extensao@),
                    corpo: b@,
                    extras: Seq::empty(),
                    enviar_corpo: com_corpo,
                },
                Err(e) => de_texto(500, tipo_simples(), e@, com_corpo),
            }
        },
    }
}

/// Responde com um arquivo publico.
pub fn servir_publico(req: &Requisicao, arquivo: Option<ArquivoPublico>) -> (r: Resposta)
    ensures
        r@ == publico_servido(*req, arquivo),
{
    let com_corpo = !req.metodo.as_str().eq("HEAD");
    match arquivo {
        None => resposta_texto(
            404,
            "text/html; charset=utf-8",
            pagina_erro(404, req.caminho_url.as_str()).as_str(),
            com_corpo,
        ),
        Some(f) => if f.extensao.as_str().eq("phtml") || f.extensao.as_str().eq("pep") {
            resposta_texto(404, "text/plain; charset=utf-8", "Nao encontrado", com_corpo)
        } else {
            match f.conteudo {
                Ok(b) => {
                    let extras: Vec<(String, String)> = Vec::new();
                    assert(http::vistos(extras@) =~= Seq::empty());
                    Resposta {
                        codigo: 200,
                        tipo: detectar_mime(f.extensao.as_str()).to_owned(),
                        corpo: b,
                        extras,
                        enviar_corpo: com_corpo,
                    }
                },
                Err(e) => resposta_texto(500, "text/plain; charset=utf-8", e.as_str(), com_corpo),
            }
        },
    }
}

// ---- A cadeia de intermediarios ----------------------------------------------------------

/// O que corre a seguir ao atender uma rota: um intermediario, o que atende a rota, ou nada,
/// porque o ultimo intermediario nao chamou `proximo`.
#[derive(Debug, Clone, Copy, PartialEq, Eq, Structural)]
pub enum PassoCadeia {
    Intermediario(usize),
    Handler,
    Interrompida,
}

/// O que corre depois de `feitos` intermediarios, de `total`, o ultimo dos quais chamou ou nao
/// `proximo`.
pub fn passo_cadeia(feitos: usize, total: usize, chamou: bool) -> (r: PassoCadeia)
    ensures
        r == if feitos > 0 && !chamou {
            PassoCadeia::Interrompida
        } else if feitos < total {
            PassoCadeia::Intermediario(feitos)
        } else {
            PassoCadeia::Handler
        },
{
    if feitos > 0 && !chamou {
        PassoCadeia::Interrompida
    } else if feitos < total {
        PassoCadeia::Intermediario(feitos)
    } else {
        PassoCadeia::Handler
    }
}

// ---- FastCGI -----------------------------------------------------------------------------

/// O que se faz com um pedido FastCGI: responder, chamar uma rota ou executar um arquivo.
pub enum AcaoFastcgi {
    Responder((u16, Vec<(String, String)>, Vec<u8>)),
    Rota { rota: usize, params: Tabela<String> },
    Arquivo { caminho: String, params: Tabela<String> },
}

/// O que se faz com um pedido FastCGI, visto.
pub ghost enum AcaoFastcgiVista {
    Responder(Partes),
    Rota { rota: int, params: Parametros },
    Arquivo { caminho: Seq<char>, params: Parametros },
}

impl AcaoFastcgi {
    pub open spec fn view(&self) -> AcaoFastcgiVista {
        match self {
            AcaoFastcgi::Responder(p) => AcaoFastcgiVista::Responder(partes_vistas(*p)),
            AcaoFastcgi::Rota { rota, params } => AcaoFastcgiVista::Rota {
                rota: *rota as int,
                params: fastcgi::mapa_de_textos(params@),
            },
            AcaoFastcgi::Arquivo { caminho, params } => AcaoFastcgiVista::Arquivo {
                caminho: caminho@,
                params: fastcgi::mapa_de_textos(params@),
            },
        }
    }
}

/// O que se faz com um pedido FastCGI. Se o alvo nao e uma pasta, executa-se ele mesmo.
pub open spec fn acao_fastcgi<H>(
    alvo: Seq<char>,
    pasta: bool,
    metodo: Seq<char>,
    caminho: Seq<char>,
    rs: Seq<Rota<H>>,
    ms: Seq<Seq<char>>,
    pagina: Option<(Seq<char>, Parametros)>,
) -> AcaoFastcgiVista {
    let lista = seq![("Allow"@, busca::juntos(ms, ", "@))];
    if !pasta {
        AcaoFastcgiVista::Arquivo { caminho: alvo, params: Map::empty() }
    } else if metodo == "OPTIONS"@ && ms.len() > 0 {
        AcaoFastcgiVista::Responder((204, lista, Seq::empty()))
    } else {
        match rota_de(rs, metodo_da_busca(metodo), caminho) {
            Some((rota, params)) => AcaoFastcgiVista::Rota { rota, params },
            None => if ms.len() > 0 {
                AcaoFastcgiVista::Responder((405, lista, utf8::encode_utf8("Metodo nao permitido"@)))
            } else {
                match pagina {
                    Some((arquivo, params)) => if metodo == "OPTIONS"@ {
                        AcaoFastcgiVista::Responder((204, seq![("Allow"@, metodos_de_pagina())], Seq::empty()))
                    } else {
                        AcaoFastcgiVista::Arquivo { caminho: arquivo, params }
                    },
                    None => AcaoFastcgiVista::Responder(
                        (404, seq![("Content-Type"@, tipo_simples())], utf8::encode_utf8("Nao encontrado"@)),
                    ),
                }
            },
        }
    }
}

/// Os bytes de um texto.
fn bytes_de(s: &str) -> (r: Vec<u8>)
    ensures
        r@ == utf8::encode_utf8(s@),
{
    let mut v: Vec<u8> = Vec::new();
    busca::acrescentar_texto(&mut v, s);
    assert(v@ =~= utf8::encode_utf8(s@));
    v
}

/// Decide o que se faz com um pedido FastCGI. A pagina e a que atende o caminho na pasta.
pub fn executar_pep_fastcgi<H>(
    script_ou_raiz: &str,
    pasta: bool,
    metodo: &str,
    caminho_url: &str,
    rotas: &Vec<Rota<H>>,
    pagina: Option<(String, Tabela<String>)>,
) -> (r: AcaoFastcgi)
    ensures
        exists|ms: Seq<Seq<char>>| #[trigger]
            sao_os_metodos(ms, rotas@, caminho_url@) && r@ == acao_fastcgi(
                script_ou_raiz@,
                pasta,
                metodo@,
                caminho_url@,
                rotas@,
                ms,
                pagina_vista(pagina),
            ),
{
    let ms = metodos_rota(rotas, caminho_url);
    let ghost vs = texto::textos(ms@);
    assert(sao_os_metodos(vs, rotas@, caminho_url@));
    assert(vs.len() == ms@.len());
    let vazio: Vec<u8> = Vec::new();
    if !pasta {
        let params: Tabela<String> = Tabela::nova();
        assert(fastcgi::mapa_de_textos(params@) =~= Map::<Seq<char>, Seq<char>>::empty());
        return AcaoFastcgi::Arquivo { caminho: script_ou_raiz.to_owned(), params };
    }
    let lista = busca::juntar(&ms, ", ");
    if metodo.eq("OPTIONS") && ms.len() > 0 {
        return AcaoFastcgi::Responder((204, cabecalho_metodos(lista.as_str()), vazio));
    }
    let busca_por = if metodo.eq("HEAD") {
        "GET"
    } else {
        metodo
    };
    if let Some((rota, params)) = encontrar_rota(rotas, busca_por, caminho_url) {
        return AcaoFastcgi::Rota { rota, params };
    }
    if ms.len() > 0 {
        return AcaoFastcgi::Responder((405, cabecalho_metodos(lista.as_str()), bytes_de("Metodo nao permitido")));
    }
    match pagina {
        Some((caminho, params)) => if metodo.eq("OPTIONS") {
            AcaoFastcgi::Responder(
                (204, cabecalho_metodos("GET, HEAD, POST, PUT, PATCH, DELETE, OPTIONS"), vazio),
            )
        } else {
            AcaoFastcgi::Arquivo { caminho, params }
        },
        None => {
            let mut hs: Vec<(String, String)> = Vec::new();
            hs.push(("Content-Type".to_owned(), "text/plain; charset=utf-8".to_owned()));
            assert(http::vistos(hs@) =~= seq![("Content-Type"@, tipo_simples())]);
            AcaoFastcgi::Responder((404, hs, bytes_de("Nao encontrado")))
        },
    }
}

/// A resposta de um programa a um pedido FastCGI: no fim, o cookie da sessao; o corpo nao vai
/// se o metodo e `HEAD`.
pub fn concluir_fastcgi(metodo: &str, cookie: String, partes: (u16, Vec<(String, String)>, Vec<u8>)) -> (r: (
    u16,
    Vec<(String, String)>,
    Vec<u8>,
))
    ensures
        partes_vistas(r) == (
            partes.0,
            http::vistos(partes.1@).push(("Set-Cookie"@, cookie@)),
            if metodo@ == "HEAD"@ {
                Seq::empty()
            } else {
                partes.2@
            },
        ),
{
    let (status, hs, corpo) = partes;
    let mut v = hs;
    let ghost c = cookie@;
    v.push(("Set-Cookie".to_owned(), cookie));
    assert(http::vistos(v@) =~= http::vistos(hs@).push(("Set-Cookie"@, c)));
    if metodo.eq("HEAD") {
        (status, v, Vec::new())
    } else {
        (status, v, corpo)
    }
}

/// Uma tabela com os nomes em minusculas.
pub fn nomes_em_minusculas(t: &Tabela<String>) -> (r: Tabela<String>)
    ensures
        forall|k: Seq<char>| #[trigger] r@.dom().contains(k) <==> exists|n: Seq<char>| #[trigger]
            t@.dom().contains(n) && busca::minusculas_ascii(n) == k,
        forall|k: Seq<char>| #[trigger] r@.dom().contains(k) ==> exists|n: Seq<char>| #[trigger]
            t@.dom().contains(n) && busca::minusculas_ascii(n) == k && r@[k]@ == t@[n]@,
{
    let cs = t.chaves();
    let mut m: Tabela<String> = Tabela::nova();
    let n = t.tamanho();
    let mut i: usize = 0;
    while i < n
        invariant
            i <= n,
            n == t.nomes().len(),
            forall|k: Seq<char>| #[trigger] m@.dom().contains(k) ==> exists|j: int|
                0 <= j < i && t@.dom().contains(#[trigger] t.nomes()[j]) && busca::minusculas_ascii(t.nomes()[j]) == k
                    && m@[k]@ == t@[t.nomes()[j]]@,
            forall|j: int| 0 <= j < i ==> m@.dom().contains(busca::minusculas_ascii(#[trigger] t.nomes()[j])),
        decreases n - i,
    {
        let ghost antes = m@;
        let (k, v) = t.par(i);
        let ghost kv = busca::minusculas_ascii(k@);
        let baixo = busca::em_minusculas(k.as_str());
        m.inserir(baixo, v.clone());
        assert forall|x: Seq<char>| #[trigger] m@.dom().contains(x) implies exists|j: int|
            0 <= j < i + 1 && t@.dom().contains(#[trigger] t.nomes()[j]) && busca::minusculas_ascii(t.nomes()[j]) == x
                && m@[x]@ == t@[t.nomes()[j]]@ by {
            if x == kv {
                assert(t.nomes()[i as int] == k@);
            } else {
                assert(antes.dom().contains(x));
            }
        }
        i += 1;
    }
    assert forall|n: Seq<char>| #[trigger] t@.dom().contains(n) implies m@.dom().contains(
        busca::minusculas_ascii(n),
    ) by {
        assert(t.nomes().contains(n));
        let j = t.nomes().index_of(n);
        assert(t.nomes()[j] == n);
    }
    m
}

// ---- Leis --------------------------------------------------------------------------------

/// `HEAD` segue o mesmo caminho que `GET`: a mesma rota ou pagina, com os mesmos parametros.
pub proof fn lei_head<H>(
    req: Requisicao,
    outra: Requisicao,
    rs: Seq<Rota<H>>,
    ms: Seq<Seq<char>>,
    pagina: Option<(Seq<char>, Parametros)>,
    cabe: bool,
)
    requires
        req.metodo@ == "HEAD"@,
        outra.metodo@ == "GET"@,
        req.caminho_url@ == outra.caminho_url@,
        req.cabecalhos == outra.cabecalhos,
        !pede_websocket(req),
    ensures
        match acao_de(outra, rs, ms, pagina, cabe) {
            AcaoVista::Responder(r) => acao_de(req, rs, ms, pagina, cabe) == AcaoVista::Responder(
                RespostaVista { enviar_corpo: false, ..r },
            ),
            a => acao_de(req, rs, ms, pagina, cabe) == a,
        },
{
    reveal_strlit("HEAD");
    reveal_strlit("GET");
    reveal_strlit("OPTIONS");
    assert("HEAD"@.len() == 4 && "GET"@.len() == 3 && "OPTIONS"@.len() == 7);
}

/// Um caminho com `..` e sempre recusado, qualquer que seja a rota, a pagina ou o metodo.
pub proof fn lei_recusa<H>(
    req: Requisicao,
    rs: Seq<Rota<H>>,
    ms: Seq<Seq<char>>,
    pagina: Option<(Seq<char>, Parametros)>,
    cabe: bool,
)
    requires
        busca::contem(req.caminho_url@, ".."@),
    ensures
        acao_de(req, rs, ms, pagina, cabe) matches AcaoVista::Responder(r) && r.codigo == 403,
{
}

} // verus!
