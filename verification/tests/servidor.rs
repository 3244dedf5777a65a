//! O servidor: requisicoes, rotas, paginas, respostas, sessoes e protocolos.

use pep::atendimento::{
    concluir, concluir_fastcgi, executar_pep_fastcgi, montar_resposta, nomes_em_minusculas, passo_cadeia,
    preencher_corpo_com_retorno, resposta_da_falha, resposta_sem_eventos, servir_publico, tratar, Acao, AcaoFastcgi,
    ArquivoPublico, PassoCadeia, Resultado,
};
use pep::contexto::{construir_contexto_http, injetar_contexto_servidor, Chamada, Contexto};
use pep::fastcgi::{alvo_da_requisicao, decodificar_params, NoDisco};
use pep::globais::{
    global_apagar, global_definir, global_existe, global_listar, global_obter, liberar_websocket, limpar_proximo,
    modelo_definir, modelo_obter, modelo_remover, modelos_listar, proximo_foi_chamado, registrar_middleware,
    reservar_websocket, sinalizar_proximo, sse_enviar, sse_enviar_evento, sse_fechar, sse_iniciar, Eventos, Globais,
    Proximo,
};
use pep::http::{fazer, http_escrever_corpo, iniciar_contexto_servidor, drenar_resposta, ContextoHttp, Efeito};
use pep::paginas::{
    arquivo_para_padrao, descobrir_paginas, e_template, encontrar_pagina, relativo_publico, resolver_arquivo_publico,
    resolver_script_na_raiz, Entrada, LugarPublico, Pasta,
};
use pep::requisicao::{
    encontrar_bytes, ler_requisicao, parametro_cabecalho, parsear_multipart, tamanho_do_corpo, ErroRequisicao,
    Requisicao,
};
use pep::servidor::{
    combinar_padrao, cookie_sessao, detectar_mime, encontrar_rota, escrever_resposta, extrair_cookie, id_sessao_valido,
    metodos_rota, nova_sessao_id, obter_ou_criar_sessao, pagina_erro, pagina_erro_pep, parsear_query, registrar_rota,
    texto_status, url_decodificar, Rota,
};
use pep::sessoes::Repositorio;
use pep::tabela::Tabela;
use pep::valor::{Ambiente, Valor};
use pep::vm::VmValor;

fn tabela(pares: &[(&str, &str)]) -> Tabela<String> {
    let mut t = Tabela::nova();
    for (k, v) in pares {
        t.inserir(k.to_string(), v.to_string());
    }
    t
}

fn pedido(metodo: &str, caminho: &str, cabecalhos: &[(&str, &str)]) -> Requisicao {
    Requisicao {
        metodo: metodo.to_string(),
        caminho_url: caminho.to_string(),
        query_str: String::new(),
        cabecalhos: tabela(cabecalhos),
        corpo: Vec::new(),
    }
}

fn rotas(lista: &[(&str, &str)]) -> Vec<Rota<usize>> {
    let mut rs = Vec::new();
    for (i, (m, p)) in lista.iter().enumerate() {
        registrar_rota(&mut rs, m.to_string(), p.to_string(), i);
    }
    rs
}

fn linhas(ls: &[&str]) -> Vec<String> {
    ls.iter().map(|l| l.to_string()).collect()
}

fn arquivo(raiz: &str, nome: &str) -> Entrada {
    Entrada { nome: nome.to_string(), arquivo: true, alvo: Some(format!("{}/{}", raiz, nome)), pasta: None }
}

fn pasta(raiz: &str, nome: &str, entradas: Vec<Entrada>) -> Entrada {
    Entrada {
        nome: nome.to_string(),
        arquivo: false,
        alvo: Some(format!("{}/{}", raiz, nome)),
        pasta: Some(Pasta { entradas }),
    }
}

#[test]
fn rejeita_params_truncados() {
    assert!(decodificar_params(&[0x80]).is_err());
}

#[test]
fn decodifica_params_simples() {
    let dados = [3u8, 3, b'F', b'O', b'O', b'b', b'a', b'r'];
    let params = match decodificar_params(&dados) {
        Ok(p) => p,
        Err(e) => panic!("{}", e),
    };
    assert_eq!(params.obter("FOO").map(String::as_str), Some("bar"));
}

#[test]
fn retorno_texto_preenche_corpo_vazio() {
    let mut corpo = Vec::new();
    preencher_corpo_com_retorno(&mut corpo, VmValor::Str("ola".to_string()));
    assert_eq!(corpo, b"ola");
}

#[test]
fn retorno_nao_muda_um_corpo_escrito() {
    let mut corpo = b"ja".to_vec();
    preencher_corpo_com_retorno(&mut corpo, VmValor::Str("ola".to_string()));
    assert_eq!(corpo, b"ja");
    let mut corpo = Vec::new();
    preencher_corpo_com_retorno(&mut corpo, VmValor::Null);
    assert!(corpo.is_empty());
    preencher_corpo_com_retorno(&mut corpo, VmValor::Bytes(vec![1, 2]));
    assert_eq!(corpo, vec![1, 2]);
    let mut corpo = Vec::new();
    preencher_corpo_com_retorno(&mut corpo, VmValor::Int(42));
    assert_eq!(corpo, b"42");
}

#[test]
fn multipart_separa_campos_e_arquivos() {
    let corpo = b"--abc\r\nContent-Disposition: form-data; name=\"titulo\"\r\n\r\nOi\r\n--abc\r\nContent-Disposition: form-data; name=\"foto\"; filename=\"a.txt\"\r\nContent-Type: text/plain\r\n\r\ndados\r\n--abc--\r\n";
    let (campos, arquivos) = parsear_multipart(corpo, "multipart/form-data; boundary=abc");
    assert_eq!(campos.obter("titulo").map(String::as_str), Some("Oi"));
    let foto = arquivos.obter("foto").unwrap();
    assert_eq!(foto.nome, "a.txt");
    assert_eq!(foto.tipo, "text/plain");
    assert_eq!(foto.dados, b"dados");
}

#[test]
fn somente_public_e_resolvido_como_estatico() {
    let publico = "/site/public";
    let achado = LugarPublico {
        pasta: false,
        alvo: Some("/site/public/app.js".to_string()),
        html: None,
        htm: None,
    };
    assert!(resolver_arquivo_publico("/public/app.js", publico, &achado).is_some());
    let nada = LugarPublico { pasta: false, alvo: None, html: None, htm: None };
    assert!(resolver_arquivo_publico("/segredo.txt", publico, &nada).is_none());
    let fora = LugarPublico { pasta: false, alvo: Some("/site/segredo.txt".to_string()), html: None, htm: None };
    assert!(resolver_arquivo_publico("/segredo.txt", publico, &fora).is_none());
}

#[test]
fn sessao_exige_256_bits_em_hex() {
    assert!(id_sessao_valido(&"a".repeat(64)));
    assert!(!id_sessao_valido("abc"));
    assert!(!id_sessao_valido(&"z".repeat(64)));
}

#[test]
fn roteamento_por_arquivos_prioriza_rota_fixa() {
    let pages = Pasta {
        entradas: vec![pasta(
            "/p",
            "usuarios",
            vec![arquivo("/p/usuarios", "[id].pep"), arquivo("/p/usuarios", "novo.pep")],
        )],
    };
    let rotas = descobrir_paginas(&pages);
    assert_eq!(rotas[0].padrao, "/usuarios/novo");
    assert_eq!(
        combinar_padrao(&rotas[1].padrao, "/usuarios/42").unwrap().obter("id").map(String::as_str),
        Some("42")
    );
    let (i, params) = encontrar_pagina(&rotas, "/usuarios/7").unwrap();
    assert_eq!(i, 1);
    assert_eq!(params.obter("id").map(String::as_str), Some("7"));
    assert_eq!(rotas[1].partes, vec!["usuarios", "[id].pep"]);
}

#[test]
fn raiz_documental_funciona_como_php() {
    let raiz = Pasta {
        entradas: vec![
            pasta("/d", "produto", vec![arquivo("/d/produto", "[id].pep")]),
            pasta("/d", "blog", vec![arquivo("/d/blog", "index.phtml")]),
            arquivo("/d", "index.pep"),
        ],
    };
    assert!(resolver_script_na_raiz("/d", &raiz, "/").unwrap().0.ends_with("index.pep"));
    let (_, params) = resolver_script_na_raiz("/d", &raiz, "/produto/42").unwrap();
    assert_eq!(params.obter("id").map(String::as_str), Some("42"));
    assert!(resolver_script_na_raiz("/d", &raiz, "/blog").unwrap().0.ends_with("index.phtml"));
    assert!(resolver_script_na_raiz("/d", &raiz, "/index.pep").is_some());
    assert!(resolver_script_na_raiz("/d", &raiz, "/blog/../index.pep").is_none());
    assert!(resolver_script_na_raiz("/d", &raiz, "/nada/aqui").is_none());
}

#[test]
fn script_fora_da_raiz_nao_se_executa() {
    let mut e = arquivo("/d", "a.pep");
    e.alvo = Some("/outra/a.pep".to_string());
    let raiz = Pasta { entradas: vec![e] };
    assert!(resolver_script_na_raiz("/d", &raiz, "/a").is_none());
    let raiz = Pasta { entradas: vec![arquivo("/d", "a.pep")] };
    assert_eq!(resolver_script_na_raiz("/d", &raiz, "/a").unwrap().0, "/d/a.pep");
}

#[test]
fn pasta_entre_colchetes_da_um_parametro() {
    let raiz = Pasta {
        entradas: vec![pasta("/d", "[loja]", vec![arquivo("/d/[loja]", "index.pep"), arquivo("/d/[loja]", "sobre.phtml")])],
    };
    let (s, p) = resolver_script_na_raiz("/d", &raiz, "/sul/sobre").unwrap();
    assert_eq!(s, "/d/[loja]/sobre.phtml");
    assert_eq!(p.obter("loja").map(String::as_str), Some("sul"));
    let (s, p) = resolver_script_na_raiz("/d", &raiz, "/norte").unwrap();
    assert_eq!(s, "/d/[loja]/index.pep");
    assert_eq!(p.obter("loja").map(String::as_str), Some("norte"));
}

#[test]
fn padroes_dos_arquivos() {
    let p = |ns: &[&str]| arquivo_para_padrao(&linhas(ns));
    assert_eq!(p(&["index.pep"]), "/");
    assert_eq!(p(&["sobre.pep"]), "/sobre");
    assert_eq!(p(&["api", "ping.pep"]), "/api/ping");
    assert_eq!(p(&["api", "tarefas", "index.pep"]), "/api/tarefas");
    assert_eq!(p(&["usuario", "[id].pep"]), "/usuario/:id");
    assert!(e_template("a/b.phtml"));
    assert!(e_template("b.htm"));
    assert!(!e_template("b.pep"));
    assert!(!e_template(".html"));
}

#[test]
fn caminho_publico_relativo() {
    assert_eq!(relativo_publico("/public/a%20b.css").as_deref(), Some("a b.css"));
    assert_eq!(relativo_publico("/x/y.js").as_deref(), Some("x/y.js"));
    assert!(relativo_publico("/public//etc/x").is_none());
    assert!(relativo_publico("/a/../b").is_none());
    let l = LugarPublico {
        pasta: true,
        alvo: None,
        html: Some("/r/public/index.html".to_string()),
        htm: Some("/r/public/index.htm".to_string()),
    };
    assert_eq!(resolver_arquivo_publico("/", "/r/public", &l).as_deref(), Some("/r/public/index.html"));
}

#[test]
fn le_a_primeira_linha_e_os_cabecalhos() {
    let r = match ler_requisicao(&linhas(&["POST /a/b?x=1&y=2 HTTP/1.1", "Host: local", "Content-Length: 5", ""])) {
        Ok(r) => r,
        Err(_) => panic!("era requisicao"),
    };
    assert_eq!(r.metodo, "POST");
    assert_eq!(r.caminho_url, "/a/b");
    assert_eq!(r.query_str, "x=1&y=2");
    assert_eq!(r.cabecalhos.obter("host").map(String::as_str), Some("local"));
    assert_eq!(tamanho_do_corpo(&r.cabecalhos, 10), Ok(5));
    assert_eq!(tamanho_do_corpo(&r.cabecalhos, 4), Err(ErroRequisicao::CorpoGrande));
    assert_eq!(
        tamanho_do_corpo(&tabela(&[("transfer-encoding", "chunked")]), 4),
        Err(ErroRequisicao::CodificacaoNaoSuportada)
    );
    assert!(matches!(ler_requisicao(&linhas(&["GET"])), Err(ErroRequisicao::Invalida)));
    let muitas = format!("X: {}", "a".repeat(8000));
    let mut ls = vec!["GET / HTTP/1.1".to_string()];
    for _ in 0..20 {
        ls.push(muitas.clone());
    }
    assert!(matches!(ler_requisicao(&ls), Err(ErroRequisicao::CabecalhosGrandes)));
    assert_eq!(resposta_da_falha(ErroRequisicao::CabecalhosGrandes).codigo, 431);
    assert_eq!(resposta_da_falha(ErroRequisicao::Invalida).corpo, b"Requisicao invalida");
    assert_eq!(resposta_sem_eventos().codigo, 500);
}

#[test]
fn pecas_de_cabecalhos_e_bytes() {
    assert_eq!(encontrar_bytes(b"abcabc", b"ca"), Some(2));
    assert_eq!(encontrar_bytes(b"abc", b"x"), None);
    assert_eq!(parametro_cabecalho("form-data; name=\"a\"", "name").as_deref(), Some("a"));
    assert_eq!(extrair_cookie("a=1; pep_sessao=z", "pep_sessao").as_deref(), Some("z"));
    assert_eq!(url_decodificar("a%20b+c%C3%A9"), "a b c\u{e9}");
    let q = parsear_query("a=1&b=x%26y&c&a=2");
    assert_eq!(q.obter("a").map(String::as_str), Some("2"));
    assert_eq!(q.obter("b").map(String::as_str), Some("x&y"));
    assert_eq!(q.obter("c").map(String::as_str), Some(""));
    assert_eq!(texto_status(404), "Not Found");
    assert_eq!(detectar_mime("css"), "text/css; charset=utf-8");
    assert_eq!(detectar_mime("qualquer"), "application/octet-stream");
    assert!(pagina_erro(404, "/x").contains("<code>/x</code>"));
    assert!(pagina_erro_pep("<a>").contains("&lt;a&gt;"));
}

#[test]
fn resposta_em_bytes() {
    let extras = vec![("X".to_string(), "1".to_string())];
    let r = String::from_utf8(escrever_resposta(200, "text/plain", b"oi", &extras, true)).unwrap();
    assert_eq!(
        r,
        "HTTP/1.1 200 OK\r\nContent-Type: text/plain\r\nContent-Length: 2\r\nConnection: close\r\nX: 1\r\n\r\noi"
    );
    let r = String::from_utf8(escrever_resposta(200, "text/plain", b"oi", &Vec::new(), false)).unwrap();
    assert!(r.ends_with("Content-Length: 2\r\nConnection: close\r\n\r\n"));
}

#[test]
fn rotas_por_metodo_e_padrao() {
    let rs = rotas(&[("GET", "/a/:id"), ("POST", "/a/:id"), ("*", "/livre/*")]);
    let (i, p) = encontrar_rota(&rs, "get", "/a/5").unwrap();
    assert_eq!(i, 0);
    assert_eq!(p.obter("id").map(String::as_str), Some("5"));
    assert_eq!(encontrar_rota(&rs, "DELETE", "/livre/x/y").map(|x| x.0), Some(2));
    assert!(encontrar_rota(&rs, "PUT", "/a/5").is_none());
    assert_eq!(metodos_rota(&rs, "/a/5"), vec!["GET", "HEAD", "OPTIONS", "POST"]);
    assert!(metodos_rota(&rs, "/nada").is_empty());
}

#[test]
fn decisoes_do_atendimento() {
    let rs = rotas(&[("GET", "/a"), ("POST", "/b")]);
    let mut n = 0;
    match tratar(&pedido("GET", "/../x", &[]), &rs, None, &mut n, None) {
        Acao::Responder(r) => assert_eq!(r.codigo, 403),
        _ => panic!("era recusa"),
    }
    assert!(matches!(tratar(&pedido("GET", "/a", &[]), &rs, None, &mut n, None), Acao::Rota { rota: 0, .. }));
    assert!(matches!(tratar(&pedido("HEAD", "/a", &[]), &rs, None, &mut n, None), Acao::Rota { rota: 0, .. }));
    assert!(matches!(
        tratar(&pedido("GET", "/a", &[("accept", "text/event-stream")]), &rs, None, &mut n, None),
        Acao::Eventos { rota: 0, .. }
    ));
    match tratar(&pedido("OPTIONS", "/a", &[]), &rs, None, &mut n, None) {
        Acao::Responder(r) => {
            assert_eq!(r.codigo, 204);
            assert_eq!(r.extras, vec![("Allow".to_string(), "GET, HEAD, OPTIONS".to_string())]);
        }
        _ => panic!("era resposta"),
    }
    match tratar(&pedido("GET", "/b", &[]), &rs, None, &mut n, None) {
        Acao::Responder(r) => {
            assert_eq!(r.codigo, 405);
            assert_eq!(r.corpo, b"Metodo nao permitido");
        }
        _ => panic!("era resposta"),
    }
    let pagina = Some(("/p/x.pep".to_string(), tabela(&[("id", "1")])));
    match tratar(&pedido("GET", "/x", &[]), &rs, pagina, &mut n, None) {
        Acao::Pagina { arquivo, params } => {
            assert_eq!(arquivo, "/p/x.pep");
            assert_eq!(params.obter("id").map(String::as_str), Some("1"));
        }
        _ => panic!("era pagina"),
    }
    assert!(matches!(tratar(&pedido("GET", "/x", &[]), &rs, None, &mut n, None), Acao::Publico));
    assert_eq!(n, 0);
}

#[test]
fn websockets_contam_ate_o_limite() {
    let rs = rotas(&[("GET", "/ws")]);
    let req = pedido("GET", "/ws", &[("upgrade", "WebSocket"), ("sec-websocket-key", "k")]);
    let mut n = 0;
    assert!(matches!(tratar(&req, &rs, None, &mut n, Some("1")), Acao::WebSocketRota { rota: 0, .. }));
    assert_eq!(n, 1);
    match tratar(&req, &rs, None, &mut n, Some("1")) {
        Acao::Responder(r) => assert_eq!(r.codigo, 503),
        _ => panic!("era resposta"),
    }
    assert_eq!(n, 1);
    liberar_websocket(&mut n);
    assert_eq!(n, 0);
    let outra = pedido("GET", "/nada", &[("upgrade", "websocket"), ("sec-websocket-key", "k")]);
    match tratar(&outra, &rs, None, &mut n, None) {
        Acao::Responder(r) => assert_eq!(r.codigo, 404),
        _ => panic!("era resposta"),
    }
    let mut m = 127;
    assert!(reservar_websocket(&mut m, None));
    assert!(!reservar_websocket(&mut m, None));
    assert!(!reservar_websocket(&mut m, Some("x")));
}

#[test]
fn conclusao_de_um_programa() {
    let (c, h, b) = concluir(Resultado::Valor(VmValor::Str("oi".to_string())), (201, Vec::new(), Vec::new()));
    assert_eq!((c, h.len(), b), (201, 0, b"oi".to_vec()));
    let hs = vec![("X".to_string(), "1".to_string())];
    let (c, h, b) = concluir(Resultado::Falha("<e>".to_string()), (200, hs, Vec::new()));
    assert_eq!((c, h.len()), (500, 0));
    assert!(String::from_utf8(b).unwrap().contains("&lt;e&gt;"));
    let hs = vec![("X".to_string(), "1".to_string())];
    let (c, h, b) = concluir(Resultado::Falha("e".to_string()), (200, hs, b"parte".to_vec()));
    assert_eq!((c, h.len(), b), (500, 1, b"parte".to_vec()));
    let (c, _, b) = concluir(Resultado::Panico, (200, Vec::new(), b"parte".to_vec()));
    assert_eq!(c, 500);
    assert!(String::from_utf8(b).unwrap().contains("Erro interno (panic)"));
}

#[test]
fn resposta_montada_com_sessao() {
    let hs = vec![
        ("content-type".to_string(), "a/b".to_string()),
        ("X".to_string(), "1".to_string()),
        ("Content-Type".to_string(), "c/d".to_string()),
    ];
    let r = montar_resposta(&pedido("HEAD", "/", &[]), "c=1".to_string(), (200, hs, b"x".to_vec()));
    assert_eq!(r.tipo, "c/d");
    assert!(!r.enviar_corpo);
    assert_eq!(
        r.extras,
        vec![("Set-Cookie".to_string(), "c=1".to_string()), ("X".to_string(), "1".to_string())]
    );
    let texto = String::from_utf8(r.bytes()).unwrap();
    assert!(texto.starts_with("HTTP/1.1 200 OK\r\nContent-Type: c/d\r\nContent-Length: 1\r\n"));
}

#[test]
fn arquivos_publicos_e_paginas_escondidas() {
    let req = pedido("GET", "/a.css", &[]);
    let r = servir_publico(&req, Some(ArquivoPublico { extensao: "css".to_string(), conteudo: Ok(b"x".to_vec()) }));
    assert_eq!((r.codigo, r.tipo.as_str()), (200, "text/css; charset=utf-8"));
    let r = servir_publico(&req, Some(ArquivoPublico { extensao: "pep".to_string(), conteudo: Ok(b"x".to_vec()) }));
    assert_eq!((r.codigo, r.corpo.as_slice()), (404, &b"Nao encontrado"[..]));
    let r = servir_publico(&req, Some(ArquivoPublico { extensao: "css".to_string(), conteudo: Err("ruim".to_string()) }));
    assert_eq!((r.codigo, r.corpo.as_slice()), (500, &b"ruim"[..]));
    assert_eq!(servir_publico(&req, None).codigo, 404);
}

#[test]
fn cadeia_para_sem_proximo() {
    assert_eq!(passo_cadeia(0, 2, false), PassoCadeia::Intermediario(0));
    assert_eq!(passo_cadeia(1, 2, true), PassoCadeia::Intermediario(1));
    assert_eq!(passo_cadeia(1, 2, false), PassoCadeia::Interrompida);
    assert_eq!(passo_cadeia(2, 2, true), PassoCadeia::Handler);
    let mut p = Proximo { chamado: false };
    sinalizar_proximo(&mut p);
    assert!(proximo_foi_chamado(&p));
    limpar_proximo(&mut p);
    assert!(!proximo_foi_chamado(&p));
    let mut cadeia = Vec::new();
    registrar_middleware(&mut cadeia, VmValor::Int(1));
    assert_eq!(cadeia.len(), 1);
}

#[test]
fn decisoes_do_fastcgi() {
    let rs = rotas(&[("GET", "/a")]);
    match executar_pep_fastcgi("/s.pep", false, "GET", "/a", &rs, None) {
        AcaoFastcgi::Arquivo { caminho, .. } => assert_eq!(caminho, "/s.pep"),
        _ => panic!("era arquivo"),
    }
    assert!(matches!(executar_pep_fastcgi("/r", true, "HEAD", "/a", &rs, None), AcaoFastcgi::Rota { rota: 0, .. }));
    match executar_pep_fastcgi("/r", true, "POST", "/a", &rs, None) {
        AcaoFastcgi::Responder((c, h, b)) => {
            assert_eq!(c, 405);
            assert_eq!(h[0].1, "GET, HEAD, OPTIONS");
            assert_eq!(b, b"Metodo nao permitido");
        }
        _ => panic!("era resposta"),
    }
    match executar_pep_fastcgi("/r", true, "GET", "/x", &rs, None) {
        AcaoFastcgi::Responder((c, h, b)) => {
            assert_eq!((c, b), (404, b"Nao encontrado".to_vec()));
            assert_eq!(h[0].0, "Content-Type");
        }
        _ => panic!("era resposta"),
    }
    let (c, h, b) = concluir_fastcgi("HEAD", "k=1".to_string(), (200, Vec::new(), b"x".to_vec()));
    assert_eq!((c, b.len()), (200, 0));
    assert_eq!(h, vec![("Set-Cookie".to_string(), "k=1".to_string())]);
    let t = nomes_em_minusculas(&tabela(&[("HOST", "a")]));
    assert_eq!(t.obter("host").map(String::as_str), Some("a"));
    assert!(t.obter("HOST").is_none());
}

#[test]
fn contexto_de_uma_requisicao() {
    let mut req = pedido("POST", "/x", &[("content-type", "application/json"), ("cookie", "a=1; b=2")]);
    req.query_str = "q=z".to_string();
    req.corpo = b"{\"n\": 3}".to_vec();
    let g = match construir_contexto_http(&req, "sid", &tabela(&[("id", "9")]), &Vec::new()) {
        Contexto::Pronto(g) => g,
        _ => panic!("era contexto"),
    };
    let obter = |k: &str| g.iter().find(|p| p.0 == k).map(|p| p.1.texto());
    assert_eq!(g.len(), 13);
    assert_eq!(obter("_URL").as_deref(), Some("/x"));
    assert_eq!(obter("_SESSAO_ID").as_deref(), Some("sid"));
    assert_eq!(obter("_GET").as_deref(), Some("{q: \"z\"}"));
    assert_eq!(obter("_CORPO_JSON").as_deref(), Some("{n: 3}"));
    assert_eq!(obter("_PARAMS").as_deref(), Some("{id: \"9\"}"));
    assert_eq!(obter("_COOKIE").as_deref(), Some("{a: \"1\", b: \"2\"}"));
    assert_eq!(obter("_POST").as_deref(), Some("{}"));
    req.corpo = b"1.5".to_vec();
    assert!(matches!(construir_contexto_http(&req, "s", &tabela(&[]), &Vec::new()), Contexto::Falta(_)));
}

#[test]
fn contexto_da_linha_de_comando() {
    let mut amb = Ambiente::novo();
    let c = Chamada {
        em_servidor: true,
        url: Some("/u".to_string()),
        metodo: None,
        query: Some("a=1&b=2".to_string()),
        post: Some("b=3".to_string()),
        cookie: Some("c=%41".to_string()),
    };
    injetar_contexto_servidor(&mut amb, &c);
    assert_eq!(amb.obter("_METODO").unwrap().texto(), "GET");
    assert_eq!(amb.obter("_REQUEST").unwrap().texto(), "{a: \"1\", b: \"3\"}");
    assert_eq!(amb.obter("_COOKIE").unwrap().texto(), "{c: \"A\"}");
    assert!(matches!(amb.obter("_SERVIDOR"), Some(Valor::Booleano(true))));
}

#[test]
fn valores_da_aplicacao_com_prazo() {
    let mut g = Globais::novos();
    global_definir(&mut g, "a".to_string(), VmValor::Int(1), None, 0);
    global_definir(&mut g, "b".to_string(), VmValor::Int(2), Some(1), 0);
    assert!(matches!(global_obter(&g, "a", u128::MAX), Some(VmValor::Int(1))));
    assert!(global_existe(&g, "b", 1_000_000_000));
    assert!(!global_existe(&g, "b", 1_000_000_001));
    assert_eq!(global_listar(&g), vec!["a", "b"]);
    global_apagar(&mut g, "a");
    assert!(!global_existe(&g, "a", 0));
}

#[test]
fn modelos_guardados() {
    let mut m = Tabela::nova();
    modelo_definir(&mut m, "x".to_string(), Valor::Inteiro(7));
    assert!(matches!(modelo_obter(&m, "x"), Some(Valor::Inteiro(7))));
    assert_eq!(modelos_listar(&m), vec!["x"]);
    modelo_remover(&mut m, "x");
    assert!(modelo_obter(&m, "x").is_none());
}

#[test]
fn eventos_do_servidor() {
    let mut e = Eventos { aberto: true };
    assert!(sse_iniciar(&e).unwrap().contains("text/event-stream"));
    assert_eq!(sse_enviar(&e, &VmValor::Int(5)).as_deref(), Some("data: 5\n\n"));
    assert_eq!(sse_enviar(&e, &VmValor::Null).as_deref(), Some("data: null\n\n"));
    assert_eq!(sse_enviar(&e, &VmValor::Bool(true)).as_deref(), Some("data: true\n\n"));
    let lista = VmValor::Lista(vec![VmValor::Str("a\"b".to_string()), VmValor::Null]);
    assert_eq!(sse_enviar(&e, &lista).as_deref(), Some("data: [\"a\\\"b\",null]\n\n"));
    assert_eq!(
        sse_enviar_evento(&e, "nada", &VmValor::Null).as_deref(),
        Some("event: nada\ndata: nulo\n\n")
    );
    assert_eq!(
        sse_enviar_evento(&e, "novo", &VmValor::Str("x".to_string())).as_deref(),
        Some("event: novo\ndata: x\n\n")
    );
    sse_fechar(&mut e);
    assert!(sse_iniciar(&e).is_none());
    assert!(sse_enviar(&e, &VmValor::Null).is_none());
}

#[test]
fn sessoes_novas_e_do_cookie() {
    let a = nova_sessao_id().unwrap();
    let b = nova_sessao_id().unwrap();
    assert!(id_sessao_valido(&a));
    assert_ne!(a, b);
    let cab = format!("pep_sessao={}", a);
    assert_eq!(obter_ou_criar_sessao(Some(&cab)), Some(a.clone()));
    assert!(id_sessao_valido(&obter_ou_criar_sessao(Some("pep_sessao=x")).unwrap()));
    assert_eq!(cookie_sessao("i", None, None), "pep_sessao=i; Path=/; HttpOnly; SameSite=Lax");
    assert!(cookie_sessao("i", None, Some("https")).ends_with("; Secure"));
}

#[test]
fn dados_de_sessao_expiram() {
    let mut r: Repositorio<i64> = Repositorio::novo(1);
    r.definir("s", "k".to_string(), 5, 0);
    assert_eq!(r.obter("s", "k", 59_999_999_999), Some(&5));
    assert_eq!(r.obter("s", "k", 60_000_000_000), None);
    r.definir("s", "k".to_string(), 6, 0);
    r.migrar("s", "t", 1);
    assert_eq!(r.obter("t", "k", 2), Some(&6));
    assert!(!r.existe("s", 2));
    assert_eq!(r.total_ativas(2), 1);
}

#[test]
fn cabecalhos_e_corpo_da_resposta() {
    let mut c = ContextoHttp::novo();
    iniciar_contexto_servidor(&mut c);
    http_escrever_corpo(&mut c, b"oi");
    let r = fazer(&mut c, "status", &vec![Valor::Inteiro(404)]);
    assert!(matches!(r, Some(Efeito::Nada)));
    let r = fazer(&mut c, "cabecalho", &vec![Valor::Texto("X".to_string()), Valor::Texto("a\nb".to_string())]);
    assert!(matches!(r, Some(Efeito::Falha(_))));
    let (s, _, corpo) = drenar_resposta(&mut c);
    assert_eq!((s, corpo), (404, b"oi".to_vec()));
    assert!(fazer(&mut c, "outra", &Vec::new()).is_none());
}

#[test]
fn alvo_do_fastcgi() {
    let pep = NoDisco::Arquivo(Some("pep".to_string()));
    let php = NoDisco::Arquivo(Some("php".to_string()));
    assert_eq!(alvo_da_requisicao(Some(("/a.pep", &pep)), Some(("/r", true)), "/s"), "/a.pep");
    assert_eq!(alvo_da_requisicao(Some(("/a.php", &php)), Some(("/r", true)), "/s"), "/r");
    assert_eq!(alvo_da_requisicao(Some(("/d", &NoDisco::Pasta)), None, "/s"), "/d");
    assert_eq!(alvo_da_requisicao(Some(("/x", &NoDisco::Nada)), Some(("/r", false)), "/s"), "/s");
    assert_eq!(alvo_da_requisicao(None, None, "/s"), "/s");
}

#[test]
fn identificador_de_bytes() {
    let b: Vec<u8> = (0..32).map(|i| i * 8).collect();
    let id = pep::servidor::id_de_bytes(&b);
    assert!(id.starts_with("000810182028"));
    assert!(pep::servidor::id_sessao_valido(&id));
}
