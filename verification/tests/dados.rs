//! Textos, tabelas, JSON, datas, resumos, documentos, tensores e o resto da biblioteca nativa.

use pep::fastcgi::decodificar_params;
use pep::modulos::{escolher, incluir, localizar_modulo, lugares_da_importacao, lugares_da_maquina};
use pep::autodiff::{ativar, conferir_dois, estado_inicial, folha, produzir};
use pep::nativas_sessao::{
    csrf_token, csrf_verificar, sessao_definir, sessao_destruir, sessao_iniciar, sessao_obter, sessao_regenerar,
    sessao_remover, sessao_renovar,
};
use pep::sessoes::Repositorio;
use pep::autodiff;
use pep::conversao::{valor_para_vm, vm_para_valor};
use pep::csv::{csv_campo_serializar, csv_ler_mapas, csv_parsear_texto};
use pep::datas::{data_hora, eh_bissexto, escrever_data, escrever_duracao, timestamp_para_data};
use pep::decimal::Decimal;
use pep::documentos::{argumentos_ocr, argumentos_pdf, canais_da_imagem, parsear_query_valor, Canais};
use pep::ffi;
use pep::formatacao::{formatar_numero_br, formatar_padrao, Escrito};
use pep::formato::{completo, contar_delimitadores_fora_de_strings, formatar_codigo, gerar_documentacao};
use pep::json::{json_deserializar_val, valor_para_json, Lido};
use pep::lsp::{descrever, linha_da_mensagem, palavra_em, simbolos, validar};
use pep::md5::{escrever_hexadecimal, md5_simples};
use pep::meia::{aleatorio_u64, f16_bits_para_f64, f64_para_f16_bits};
use pep::mmap::{mmap_fechar, mmap_ler_bytes, mmap_tamanho, Mapas};
use pep::nativas_arvore::{chamar_nativa, Chamado};
use pep::ordem::ordenar;
use pep::pdf::{ocr_paginas, reunir_paginas, OpcoesOcr};
use pep::quantizacao::{guardar, ler, Quantizado};
use pep::template::{compilar_bytecode_str, converter_para_programa, verificar};
use pep::valor::{Ambiente, Valor};
use pep::vm::VmValor;
use pep::websocket::{chave_aceita, escrever_frame, ler_frame};

fn t(s: &str) -> Valor {
    Valor::Texto(s.to_string())
}

fn num(x: f64) -> Valor {
    Valor::Numero(Decimal { bits: x.to_bits(), texto: format!("{}", x) })
}

/// O valor que uma funcao nativa da.
fn valor(nome: &str, args: Vec<Valor>) -> String {
    match chamar_nativa(nome, &args) {
        Chamado::Feito(pep::aplicar::Feito::Valor(v)) => v.texto(),
        _ => panic!("{} nao deu um valor", nome),
    }
}

/// A falha que uma funcao nativa da.
fn falha(nome: &str, args: Vec<Valor>) -> String {
    match chamar_nativa(nome, &args) {
        Chamado::Feito(pep::aplicar::Feito::Falha(m)) => m,
        _ => panic!("{} nao falhou", nome),
    }
}

#[test]
fn rejeita_simbolo_inseguro() {
    let b = ffi::nenhuma();
    assert!(ffi::chamar(&b, 999, "funcao;comando").unwrap_err().contains("simbolo invalido"));
}

#[test]
fn encontra_palavra_no_cursor() {
    assert_eq!(palavra_em("var resposta = tamanho(lista)", 0, 18).as_deref(), Some("tamanho"));
}

#[test]
fn valida_codigo_pep() {
    assert!(validar("var x = 1\nimprimir(x)").is_ok());
    assert!(validar("var =").is_err());
}

#[test]
fn ocr_valida_opcoes_antes_de_executar_ferramentas() {
    let opcoes = OpcoesOcr { dpi: 20, ..OpcoesOcr::default() };
    let erro = ocr_paginas("qualquer.pdf", &opcoes, false).unwrap_err();
    assert!(erro.contains("dpi deve estar entre 72 e 600"));
}

#[test]
fn descricoes_e_simbolos() {
    assert!(descrever("se").contains("palavra-chave"));
    let s = simbolos("funcao soma(a, b) { }\nvar total = 1");
    assert_eq!(s[0].nome, "soma");
    assert_eq!(s[1].linha, 1);
    assert_eq!(linha_da_mensagem("Linha 7: erro aqui"), 7);
    assert_eq!(linha_da_mensagem("erro sem linha"), 1);
}

#[test]
fn paginas_de_um_documento() {
    let r = reunir_paginas("a.pdf", vec![Ok("x".to_string()), Err("ruim".to_string())]);
    assert!(r.unwrap_err().contains("ruim"));
    let (c, s) = argumentos_pdf(&vec![t("a.pdf"), t("z")], "pdf_informacoes").unwrap();
    assert_eq!((c.as_str(), s.as_deref()), ("a.pdf", Some("z")));
    assert_eq!(
        argumentos_pdf(&vec![Valor::Inteiro(1)], "pdf_x").unwrap_err(),
        "pdf_x: caminho deve ser texto, recebeu 1"
    );
}

#[test]
fn opcoes_de_reconhecimento() {
    let m = Valor::Mapa(vec![
        ("dpi".to_string(), num(150.0)),
        ("psm".to_string(), Valor::Inteiro(6)),
        ("idioma".to_string(), t("eng")),
    ]);
    let (c, o) = match argumentos_ocr(&vec![t("a.pdf"), m], "pdf_ocr_texto") {
        Ok(x) => x,
        Err(e) => panic!("{}", e),
    };
    assert_eq!((c.as_str(), o.dpi, o.psm, o.idioma.as_str()), ("a.pdf", 150, 6, "eng"));
    let m = Valor::Mapa(vec![("psm".to_string(), num(3.5))]);
    assert!(argumentos_ocr(&vec![t("a"), m], "f").is_err());
    let m = Valor::Mapa(vec![("psm".to_string(), Valor::Inteiro(256))]);
    assert!(argumentos_ocr(&vec![t("a"), m], "f").is_err());
}

#[test]
fn textos_e_listas() {
    assert_eq!(valor("maiusculas", vec![t("ol\u{e1}")]), "OL\u{c1}");
    assert_eq!(valor("tamanho", vec![t("abc")]), "3");
    assert_eq!(valor("ordenar", vec![Valor::Lista(vec![Valor::Inteiro(3), Valor::Inteiro(1), Valor::Inteiro(2)])]), "[1, 2, 3]");
    assert_eq!(valor("url_codificar", vec![t("a b&c")]), "a%20b%26c");
    assert_eq!(valor("url_decodificar_texto", vec![t("a%20b%26c")]), "a b&c");
    assert_eq!(ordenar(vec!["b".to_string(), "a".to_string()]), vec!["a", "b"]);
    assert!(falha("tamanho", vec![]).contains("requer 1 argumento, recebeu 0"));
}

#[test]
fn resumos_e_codificacoes() {
    assert_eq!(
        valor("sha256", vec![t("abc")]),
        "ba7816bf8f01cfea414140de5dae2223b00361a396177a9cb410ff61f20015ad"
    );
    assert_eq!(valor("base64_codificar", vec![t("abc")]), "YWJj");
    assert_eq!(valor("base64_decodificar", vec![t("YWJj")]), "abc");
    assert_eq!(
        valor("hmac_sha256", vec![t("The quick brown fox jumps over the lazy dog"), t("key")]),
        "f7bc83f430538424b13298e6aa6fb143ef4d59a14946175997479dbc2d1a3cd8"
    );
    assert_eq!(escrever_hexadecimal(255), "ff");
    assert_ne!(md5_simples(b"a"), md5_simples(b"b"));
}

#[test]
fn expressoes_regulares() {
    assert_eq!(valor("regex_combinar", vec![t("([a-z])([0-9]+)"), t("a1b22")]), "[\"a1\", \"a\", \"1\"]");
    assert_eq!(valor("regex_combinar", vec![t("x"), t("a1b22")]), "nulo");
    assert_eq!(valor("regex_substituir", vec![t("[0-9]+"), t("#"), t("a1b22")]), "a#b#");
    assert_eq!(valor("regex_dividir", vec![t("[0-9]+"), t("a1b22c")]), "[\"a\", \"b\", \"c\"]");
    assert!(matches!(
        chamar_nativa("regex_combinar", &vec![t("("), t("a")]),
        Chamado::Feito(pep::aplicar::Feito::Falha(_))
    ));
}

#[test]
fn caracteres_fora_do_ascii() {
    assert_eq!(valor("minusculas", vec![t("OL\u{c1}")]), "ol\u{e1}");
    assert_eq!(valor("regex_combinar_tudo", vec![t("[0-9]+"), t("a1b22")]), "[\"1\", \"22\"]");
    match json_deserializar_val("\"\\u00e9\"", &Vec::new()) {
        Lido::Pronto(v) => assert_eq!(v.texto(), "\u{e9}"),
        _ => panic!("era um texto"),
    }
    let p = decodificar_params(&[1, 1, b'a', 0xff]).unwrap();
    assert_eq!(p.obter("a").map(|s| s.as_str()), Some("\u{fffd}"));
}

#[test]
fn tabelas_separadas_por_virgulas() {
    let l = csv_parsear_texto("a,b\n\"x,1\",\"d\"\"q\"\n");
    assert_eq!(l[1].texto(), "[\"x,1\", \"d\"q\"]");
    assert_eq!(csv_campo_serializar("a,\"b"), "\"a,\"\"b\"");
    let m = csv_ler_mapas("n,i\nana,3\n");
    assert_eq!(m[0].texto(), "{i: \"3\", n: \"ana\"}");
}

#[test]
fn json_vai_e_volta() {
    let v = Valor::Lista(vec![Valor::Inteiro(1), t("a\"\n"), Valor::Nulo, Valor::Booleano(true)]);
    let s = valor_para_json(&v);
    assert_eq!(s, "[1,\"a\\\"\\n\",null,true]");
    match json_deserializar_val(&s, &Vec::new()) {
        Lido::Pronto(w) => assert_eq!(w.texto(), v.texto()),
        _ => panic!("era valor"),
    }
    assert!(matches!(json_deserializar_val("", &Vec::new()), Lido::Falha(_)));
    match json_deserializar_val("1.5", &Vec::new()) {
        Lido::Falta(l) => {
            assert_eq!(l, "1.5");
            let d = Decimal { bits: 1.5f64.to_bits(), texto: "1.5".to_string() };
            assert!(matches!(json_deserializar_val("1.5", &vec![(l, Some(d))]), Lido::Pronto(Valor::Numero(_))));
        }
        _ => panic!("faltava um numero"),
    }
}

#[test]
fn datas_do_calendario() {
    assert!(eh_bissexto(2000) && !eh_bissexto(1900) && eh_bissexto(2024));
    assert_eq!(timestamp_para_data(0), (1970, 1, 1));
    assert_eq!(timestamp_para_data(951782400), (2000, 2, 29));
    assert_eq!(data_hora(86399), "1970-01-01 23:59:59");
}

#[test]
fn lacunas_e_numeros_escritos() {
    let m = vec![("nome".to_string(), t("Ana"))];
    match formatar_padrao("Oi {nome}!", &m, &Vec::new()) {
        Escrito::Pronto(s) => assert_eq!(s, "Oi Ana!"),
        _ => panic!("faltou"),
    }
    assert_eq!(formatar_numero_br("1234567.50", true, 2), "-1.234.567,50");
}

#[test]
fn formato_do_codigo() {
    assert_eq!(contar_delimitadores_fora_de_strings("f(\"{\") {"), (1, 0, 1, 1));
    assert!(completo("se a { b }"));
    assert!(!completo("se a {"));
    assert_eq!(formatar_codigo("se a {\nb\n}\n"), "se a {\n    b\n}\n");
    let p = match pep::fonte::analisar("funcao f(a) { }") {
        Ok(p) => p,
        Err(_) => panic!("era programa"),
    };
    assert!(gerar_documentacao("x.pep", &p).contains("f"));
}

#[test]
fn templates_viram_programas() {
    let p = converter_para_programa("<b><?= x ?></b>").unwrap();
    assert_eq!(p, "escrever(\"<b>\")\nescrever(x)\nescrever(\"</b>\")\n");
    assert_eq!(converter_para_programa("<?= x ?>").unwrap(), "escrever(x)\n");
    assert_eq!(converter_para_programa("a } b").unwrap(), "escrever(\"a } b\")\n");
    assert_eq!(converter_para_programa("a { } b").unwrap(), "escrever(\"a {{ }} b\")\n");
    assert!(verificar("<? se a { ?>x<? } ?>").is_ok());
    assert!(verificar("<? se a {").is_err());
    assert!(compilar_bytecode_str("oi <?= 1 + 1 ?>", true).is_ok());
    assert!(compilar_bytecode_str("retornar 1", false).is_ok());
    assert!(compilar_bytecode_str("retornar (", false).is_err());
}

#[test]
fn quadros_de_websocket() {
    assert_eq!(chave_aceita("dGhlIHNhbXBsZSBub25jZQ=="), "s3pPLMBiTxaQ9kYGzzhZRbK+xOo=");
    let f = escrever_frame(1, b"oi");
    assert_eq!(f, vec![0x81, 2, b'o', b'i']);
    let mascarado = [0x81u8, 0x82, 1, 2, 3, 4, b'o' ^ 1, b'i' ^ 2];
    let (op, dados, fim) = ler_frame(&mascarado, 0).unwrap();
    assert_eq!((op, dados, fim), (1, b"oi".to_vec(), 8));
    assert!(ler_frame(&[0x81], 0).is_none());
}

#[test]
fn meia_precisao_vai_e_volta() {
    assert_eq!(f64_para_f16_bits(1.0f32.to_bits()), 0x3c00);
    assert_eq!(f16_bits_para_f64(0x3c00), 1.0f32.to_bits());
    assert_eq!(f64_para_f16_bits(70000.0f32.to_bits()), 0x7c00);
    assert_eq!(f64_para_f16_bits((-2.5f32).to_bits()), 0xc100);
    assert_eq!(f16_bits_para_f64(0xc100), (-2.5f32).to_bits());
    assert_eq!(f64_para_f16_bits(f32::NAN.to_bits()) & 0x7e00, 0x7e00);
    assert_eq!(f64_para_f16_bits(0), 0);
}

#[test]
fn numeros_ao_acaso_nao_param_em_zero() {
    let mut s = 0;
    let a = aleatorio_u64(&mut s, 12345);
    assert_eq!(s, a);
    assert_ne!(a, 0);
    let b = aleatorio_u64(&mut s, 0);
    assert_ne!(a, b);
    let mut outra = 1;
    assert_eq!(aleatorio_u64(&mut outra, 9), 1082269761);
}

#[test]
fn valores_passam_de_uma_maquina_a_outra() {
    let v = VmValor::Mapa(vec![("a".to_string(), VmValor::Lista(vec![VmValor::Int(1), VmValor::Null]))]);
    assert_eq!(vm_para_valor(&v).texto(), v.texto());
    assert_eq!(valor_para_vm(&vm_para_valor(&v)).texto(), v.texto());
    let f = VmValor::Funcao { params: Vec::new(), corpo: Vec::new() };
    assert!(matches!(vm_para_valor(&f), Valor::Nulo));
}

#[test]
fn ambientes_aninhados() {
    let mut a = Ambiente::vazio();
    a.definir("x".to_string(), Valor::Inteiro(1));
    let mut b = Ambiente::filho(a);
    b.definir("x".to_string(), Valor::Inteiro(2));
    assert!(matches!(b.obter("x"), Some(Valor::Inteiro(2))));
    assert!(!b.atribuir("y", Valor::Nulo));
    assert!(matches!(Ambiente::novo().obter("tamanho"), Some(Valor::FuncaoNativa(_))));
}

#[test]
fn mapas_de_arquivos() {
    let mut m = Mapas::novo();
    let id = m.mmap_abrir(vec![1, 2, 3, 4]);
    assert_eq!(mmap_tamanho(&m, id), Ok(4));
    assert_eq!(mmap_ler_bytes(&m, id, 1, 2), Ok(vec![2, 3]));
    assert!(mmap_ler_bytes(&m, id, 3, 2).is_err());
    mmap_fechar(&mut m, id);
    assert!(mmap_tamanho(&m, id).is_err());
}

#[test]
fn fita_de_derivadas() {
    let mut e = autodiff::estado_inicial();
    autodiff::ativar(&mut e);
    assert!(autodiff::esta_gravando(&e));
    let a = autodiff::novo_tensor(&mut e, vec![1]);
    let b = autodiff::registrar_op(&mut e, vec![a], vec![1]);
    assert_ne!(a, b);
    assert!(autodiff::retropropagar(&mut e, b).is_ok());
    autodiff::limpar(&mut e);
    assert!(autodiff::obter_grad(&e, a).is_none());
}

#[test]
fn entrada_por_chave() {
    assert_eq!(parsear_query_valor("a=1&&b=x%20y&a=2", "a").texto(), "1");
    assert_eq!(parsear_query_valor("a=1&b=x%20y", "b").texto(), "x y");
    assert!(matches!(parsear_query_valor("a=1", "z"), Valor::Nulo));
}

#[test]
fn marca_so_serve_uma_vez() {
    let mut repo: Repositorio<Valor> = Repositorio::novo(30);
    assert_eq!(csrf_token(&mut repo, "s1", "novo", "marca".to_string(), 5), "marca");
    assert!(!csrf_verificar(&mut repo, "s1", &t("outra"), 6));
    assert!(!csrf_verificar(&mut repo, "s2", &t("marca"), 6));
    assert!(csrf_verificar(&mut repo, "s1", &t("marca"), 6));
    assert!(!csrf_verificar(&mut repo, "s1", &t("marca"), 6));
}

#[test]
fn sessao_da_requisicao() {
    let mut repo: Repositorio<Valor> = Repositorio::novo(30);
    assert_eq!(sessao_iniciar(&mut repo, "", "n1", 0), "n1");
    sessao_definir(&mut repo, "n1", "x", "k".to_string(), Valor::Inteiro(7), 0);
    assert_eq!(sessao_obter(&repo, "n1", "k", 1).texto(), "7");
    assert_eq!(sessao_obter(&repo, "", "k", 1).texto(), "nulo");
    let mut atual = "n1".to_string();
    sessao_regenerar(&mut repo, &mut atual, "n2".to_string(), 1);
    assert_eq!(atual, "n2");
    assert_eq!(sessao_obter(&repo, "n1", "k", 1).texto(), "nulo");
    let minuto: u64 = 60_000_000_000;
    sessao_renovar(&mut repo, &atual, &vec![Valor::Inteiro(1)], 1);
    assert_eq!(sessao_obter(&repo, "n2", "k", minuto).texto(), "7");
    assert_eq!(sessao_obter(&repo, "n2", "k", minuto + 1).texto(), "nulo");
    assert_eq!(sessao_remover(&mut repo, "n2", "k").texto(), "7");
    sessao_destruir(&mut repo, "n2");
    assert!(!repo.existe("n2", 1));
}

#[test]
fn argumentos_das_funcoes_pedidas() {
    assert_eq!(falha("escrever_arquivo", vec![t("a")]), "'escrever_arquivo' requer 2 argumentos, recebeu 1");
    assert_eq!(falha("escrever_arquivo", vec![Valor::Inteiro(1), t("a")]), "escrever_arquivo(caminho, conteudo)");
    assert_eq!(falha("ffi_permitida", vec![t("a")]), "ffi_permitida() nao recebe argumentos");
    assert_eq!(
        falha("ffi_chamar", vec![Valor::Inteiro(0), t("f"), Valor::Nulo]),
        "ffi_chamar: biblioteca deve ser inteiro positivo, recebeu 0"
    );
    assert_eq!(falha("mmap_ler_f32", vec![Valor::Inteiro(1)]), "mmap_ler_f32(id, offset, count)");
    assert_eq!(
        falha("mmap_tensor_f64", vec![Valor::Inteiro(1), t("x"), t("y"), t("z")]),
        "mmap_tensor_f64: offset deve ser inteiro, recebeu x"
    );
    assert_eq!(
        falha("pdf_extrair_pagina", vec![t("a.pdf"), num(1.5)]),
        "pdf_extrair_pagina: pagina deve ser inteiro positivo, recebeu 1.5"
    );
    assert!(matches!(chamar_nativa("pdf_extrair_pagina", &vec![t("a.pdf"), num(2.0)]), Chamado::Pedida));
    assert!(matches!(
        chamar_nativa("imagem_salvar", &vec![t("a"), Valor::Bytes(vec![1]), num(0.0), Valor::Inteiro(1)]),
        Chamado::Pedida
    ));
}

#[test]
fn operacoes_na_fita() {
    let mut e = estado_inicial();
    let x = VmValor::Tensor { shape: vec![2, 3], dados: Vec::new(), marca: 0 };
    assert_eq!(folha(&mut e, &x, "grad_soma"), Ok(0));
    assert_eq!(
        folha(&mut e, &VmValor::Int(4), "grad_soma"),
        Err("grad_soma: requer tensor ou tensor_grad, recebeu 4".to_string())
    );
    assert_eq!(produzir(&mut e, vec![0, 0], vec![2, 3]), 1);
    assert!(e.tape.is_empty());
    ativar(&mut e);
    assert_eq!(produzir(&mut e, vec![0, 1], vec![2, 2]), 2);
    assert_eq!(e.tape[0].entradas_ids, vec![0, 1]);
    assert_eq!(conferir_dois("grad_matmul", &vec![2, 3], &vec![3, 4]), Ok(vec![2, 4]));
    assert_eq!(
        conferir_dois("grad_matmul", &vec![2, 3], &vec![2, 4]),
        Err("grad_matmul: dims incompat\u{ed}veis 2x3 @ 2x4".to_string())
    );
    assert_eq!(
        conferir_dois("grad_soma", &vec![2], &vec![3]),
        Err("grad_soma: shapes incompat\u{ed}veis [2] vs [3]".to_string())
    );
}

#[test]
fn bibliotecas_que_se_fecham() {
    let mut b = pep::ffi::nenhuma();
    let id = pep::ffi::registrar(&mut b);
    assert!(pep::ffi::chamar(&b, id, "soma").is_ok());
    assert!(pep::ffi::fechar(&mut b, id));
    assert!(pep::ffi::chamar(&b, id, "soma").is_err());
    assert!(!pep::ffi::fechar(&mut b, id));
}

#[test]
fn arquivos_que_um_programa_pede() {
    let dirs = vec!["/a".to_string(), "/b/".to_string()];
    let ls = lugares_da_maquina(&dirs, "/c", "m.pep");
    assert_eq!(
        ls,
        vec!["/b/pep_modules/m.pep", "/b/m.pep", "/a/pep_modules/m.pep", "/a/m.pep", "/c/pep_modules/m.pep"]
    );
    assert!(lugares_da_maquina(&dirs, "/c", "/m.pep").is_empty());
    assert_eq!(escolher(&ls, &vec![false, false, true, true, false]).as_deref(), Some("/a/pep_modules/m.pep"));
    assert_eq!(escolher(&ls, &vec![false; 5]), None);
    let acima = vec!["/x/y".to_string(), "/x".to_string(), "/".to_string()];
    assert_eq!(
        lugares_da_importacao("/x/y", &acima, "z"),
        vec!["/x/y/z", "/x/y/pep_modules/z", "/x/pep_modules/z", "/pep_modules/z"]
    );
    assert_eq!(localizar_modulo("/z", "/z.pep"), vec!["/z", "/z.pep", "/z/mod.pep", "/z/index.pep"]);
}

#[test]
fn inclusoes_executam_uma_vez() {
    let mut feitos: Vec<String> = Vec::new();
    let k = || Ok("/a.pep".to_string());
    assert_eq!(incluir(&mut feitos, "a.pep", false, true, k()), Ok(Some("/a.pep".to_string())));
    assert_eq!(incluir(&mut feitos, "./a.pep", true, true, k()), Ok(None));
    assert_eq!(incluir(&mut feitos, "b", false, false, k()), Ok(None));
    assert_eq!(
        incluir(&mut feitos, "b", true, false, k()),
        Err("requerer 'b': arquivo n\u{e3}o encontrado".to_string())
    );
    assert_eq!(incluir(&mut feitos, "b", true, true, Err("x".to_string())), Err("incluir 'b': x".to_string()));
}

#[test]
fn mensagens_de_sintaxe() {
    let erro = |t: &str, valor: &str| match pep::fonte::analisar(t) {
        Ok(_) => panic!("era um erro"),
        Err(e) => pep::mensagens::mensagem_fonte(&e, valor),
    };
    assert_eq!(erro("var 1 = 2", ""), "Linha 1: esperava um nome, mas encontrei Inteiro(1)");
    assert_eq!(erro("se a \"b\"", "\"b\""), "Linha 1: esperava ChaveEsq, mas encontrei Texto(\"b\")");
    let de_template = match verificar("<? se a {") {
        Ok(_) => panic!("era um erro"),
        Err(e) => pep::mensagens::mensagem_template(&e, ""),
    };
    assert_eq!(de_template, "Tag de codigo PEP nao fechada (linha 1)");
    let sintaxe = match verificar("<? var 1 ?>") {
        Ok(_) => panic!("era um erro"),
        Err(e) => pep::mensagens::mensagem_template(&e, ""),
    };
    assert!(sintaxe.starts_with("Erro de sintaxe no template: Linha 1: "));
}

#[test]
fn argumentos_das_contas() {
    assert_eq!(valor("arredondar", vec![Valor::Inteiro(3)]), "3");
    assert_eq!(falha("arredondar", vec![Valor::Nulo]), "arredondar(n) ou arredondar(n, casas_decimais)");
    assert_eq!(falha("aleatorio_inteiro", vec![Valor::Inteiro(1)]), "'aleatorio_inteiro' requer 2 argumentos, recebeu 1");
    assert_eq!(falha("aleatorio_inteiro", vec![Valor::Inteiro(1), Valor::Nulo]), "aleatorio_inteiro(min, max)");
    assert_eq!(
        falha("formatar_numero", vec![Valor::Inteiro(1), Valor::Inteiro(-1)]),
        "'formatar_numero' requer casas inteiras, recebeu -1"
    );
}

#[test]
fn csv_escrito_e_lido_e_o_mesmo() {
    let t = |x: &str| Valor::Texto(x.to_string());
    let linhas = vec![
        Valor::Lista(vec![t("a,b"), t("c\"d"), t("")]),
        Valor::Lista(vec![t("")]),
        Valor::Lista(vec![t("x\r\ny"), t("z")]),
    ];
    let texto = pep::csv::csv_serializar_linhas(&linhas);
    assert_eq!(texto, "\"a,b\",\"c\"\"d\",\n\n\"x\r\ny\",z\n");
    let lidas = pep::csv::csv_parsear_texto(&texto);
    assert_eq!(Valor::Lista(lidas).texto(), Valor::Lista(linhas).texto());
    assert!(pep::csv::csv_parsear_texto("").is_empty());
}

#[test]
fn json_escrito_e_lido_e_o_mesmo() {
    let t = |x: &str| Valor::Texto(x.to_string());
    let v = Valor::Lista(vec![
        Valor::Nulo,
        Valor::Booleano(false),
        Valor::Inteiro(i64::MIN),
        t("a\\\"\n,]"),
        Valor::Lista(vec![]),
        Valor::Mapa(vec![("k:,\"".to_string(), Valor::Inteiro(1)), ("a".to_string(), Valor::Mapa(vec![]))]),
    ]);
    let texto = pep::json::valor_para_json(&v);
    assert_eq!(
        texto,
        "[null,false,-9223372036854775808,\"a\\\\\\\"\\n,]\",[],{\"a\":{},\"k:,\\\"\":1}]"
    );
    match pep::json::json_deserializar_val(&texto, &Vec::new()) {
        pep::json::Lido::Pronto(w) => assert_eq!(pep::json::valor_para_json(&w), texto),
        _ => panic!("era JSON"),
    }
}

#[test]
fn formatar_duas_vezes_e_formatar_uma() {
    let codigo = "se a {\r\n  imprimir(\"}\")\n\n } senao {\nb\n}";
    let uma = formatar_codigo(codigo);
    assert_eq!(uma, "se a {\n    imprimir(\"}\")\n\n} senao {\n    b\n}\n");
    assert_eq!(formatar_codigo(&uma), uma);
}

#[test]
fn texto_de_template_sai_como_esta() {
    for texto in ["a } b", "{ } {{ }}", "}}", "aspas \" e \\ barra\n'", "\"\"\"", "{x}"] {
        let p = match pep::template::compilar(texto) {
            Ok(p) => p,
            Err(_) => panic!("era um template"),
        };
        assert_eq!(p.len(), 1);
        assert!(format!("{:?}", p[0]).contains(&format!("args: [Texto({:?})]", texto)), "{:?}", p[0]);
    }
}

#[test]
fn ordenar_textos_e_numeros() {
    let t = |x: &str| Valor::Texto(x.to_string());
    assert_eq!(valor("ordenar", vec![Valor::Lista(vec![t("b"), t("a"), t("ab")])]), "[\"a\", \"ab\", \"b\"]");
    assert_eq!(valor("ordenar", vec![Valor::Lista(vec![num(2.5), num(-1.5), num(0.25)])]), "[-1.5, 0.25, 2.5]");
}

#[test]
fn tensor_com_gradiente_e_tensor_nas_outras_operacoes() {
    let d = |x: f64| Decimal { bits: x.to_bits(), texto: format!("{}", x) };
    let g = || VmValor::TensorGrad { shape: vec![2], dados: vec![d(1.0), d(2.0)], id: 1, marca: 0 };
    let soma = pep::tensor::vm_tensor_reducao_global(g(), pep::tensor::OpTensor::SomaTotal, "tensor_soma_total");
    assert!(matches!(soma, pep::operacoes::Saida::Pede(_)));
    let eixo = pep::tensor::vm_tensor_reducao_eixo(
        g(),
        VmValor::Int(0),
        pep::tensor::OpTensor::SomaTotal,
        "tensor_soma_eixo",
    );
    assert!(matches!(eixo, pep::operacoes::Saida::Pede(_)));
    let mut m = pep::maquina::Maquina::nova(None);
    let mut chama = |nome: &str, args: Vec<VmValor>| match m.chamar_nativa(nome, args) {
        pep::operacoes::Saida::Valor(v) => v.texto(),
        _ => panic!("{} nao deu um valor", nome),
    };
    assert_eq!(chama("tensor_shape", vec![g()]), "[2]");
    assert_eq!(chama("tensor_ndim", vec![g()]), "1");
    assert_eq!(chama("tensor_tamanho", vec![g()]), "2");
    assert_eq!(chama("tensor_para_lista", vec![g()]), "[1, 2]");
    assert_eq!(chama("mat_para_lista", vec![g()]), "[1, 2]");
    let nova = VmValor::Lista(vec![VmValor::Num(d(2.0)), VmValor::Num(d(1.0))]);
    let forma = VmValor::Tensor { shape: vec![2, 1], dados: vec![d(1.0), d(2.0)], marca: 0 }.texto();
    assert_eq!(chama("tensor_reshape", vec![g(), nova]), forma);
    let texto = pep::tensor::vm_tensor_reducao_global(VmValor::Null, pep::tensor::OpTensor::SomaTotal, "tensor_soma_total");
    assert!(matches!(texto, pep::operacoes::Saida::Falha(m) if m == "tensor_soma_total: requer tensor, recebeu nulo"));
}

#[test]
fn datas_e_duracoes_escritas() {
    assert_eq!(escrever_data(2024, 3, 7, 8, 5, 9), "2024-03-07 08:05:09");
    assert_eq!(escrever_data(33, 12, 31, 23, 59, 59), "0033-12-31 23:59:59");
    assert_eq!(escrever_duracao(false, 0, 3, 4, 5), "3:04:05");
    assert_eq!(escrever_duracao(true, 2, 1, 0, 30), "-49:00:30");
}

#[test]
fn constantes_da_biblioteca() {
    assert_eq!(valor("pi", vec![]), format!("{}", std::f64::consts::PI));
    assert_eq!(valor("infinito", vec![]), format!("{}", f64::INFINITY));
}

#[test]
fn canais_de_uma_imagem() {
    assert_eq!(canais_da_imagem(12, 2, 2), Ok(Canais::Rgb));
    assert_eq!(canais_da_imagem(16, 2, 2), Ok(Canais::Rgba));
    assert_eq!(
        canais_da_imagem(8, 2, 2),
        Err("imagem_salvar: 2 canais nao suportado (use 3=RGB ou 4=RGBA)".to_string())
    );
}

#[test]
fn argumentos_das_derivadas() {
    assert!(autodiff::conferir_quantos("grad_soma", 2).is_ok());
    assert_eq!(autodiff::conferir_quantos("grad_soma", 1), Err("grad_soma: requer 2 argumentos".to_string()));
    assert_eq!(autodiff::conferir_quantos("grad_relu", 0), Err("grad_relu: requer 1 argumento".to_string()));
    assert_eq!(
        autodiff::conferir_quantos("grad_escalar_mul", 1),
        Err("grad_escalar_mul(tensor_grad, escalar)".to_string())
    );
    assert_eq!(
        autodiff::conferir_quantos("grad_de", 3),
        Err("'grad_de' requer 1 argumento, recebeu 3".to_string())
    );
    assert_eq!(autodiff::ler_escalar(&VmValor::Int(2)), Ok(2.0f64.to_bits()));
    assert_eq!(
        autodiff::ler_escalar(&VmValor::Null),
        Err("grad_escalar_mul: esperado número, recebeu nulo".to_string())
    );
}

#[test]
fn tensores_em_menos_bits() {
    let f16 = guardar(Quantizado::F16 { bits: vec![0x3C00, 0x00FF], shape: vec![2] });
    match &f16 {
        Valor::Mapa(m) => assert!(matches!(&m[0].1, Valor::Bytes(b) if *b == vec![0x00, 0x3C, 0xFF, 0x00])),
        _ => panic!("era um mapa"),
    }
    assert!(matches!(
        ler("tensor_dequantizar_f16", &f16),
        Ok(Quantizado::F16 { bits, shape }) if bits == vec![0x3C00, 0x00FF] && shape == vec![2]
    ));
    assert!(matches!(chamar_nativa("tensor_dequantizar_f16", &vec![f16.clone()]), Chamado::Pedida));
    assert_eq!(falha("tensor_dequantizar_int8", vec![f16.clone()]), "tensor_dequantizar_int8: campo 'escala' ausente");
    assert_eq!(
        falha("tensor_dequantizar_int8", vec![]),
        "'tensor_dequantizar_int8' requer 1 argumento, recebeu 0"
    );
    assert_eq!(
        falha("tensor_dequantizar_f16", vec![Valor::Inteiro(1)]),
        "'tensor_dequantizar_f16' requer mapa de quantizacao, recebeu 1"
    );
    assert_eq!(falha("tensor_dequantizar_f16", vec![Valor::Mapa(vec![])]), "tensor_dequantizar_f16: campo 'dados' ausente");
    let par = |k: &str, v: Valor| (k.to_string(), v);
    let impar = Valor::Mapa(vec![par("dados", Valor::Bytes(vec![1])), par("shape", Valor::Lista(vec![]))]);
    assert_eq!(
        falha("tensor_dequantizar_f16", vec![impar]),
        "tensor_dequantizar_f16: bytes deve ter comprimento par"
    );
    let sem = Valor::Mapa(vec![par("dados", Valor::Bytes(vec![])), par("shape", Valor::Lista(vec![t("x")]))]);
    assert_eq!(falha("tensor_dequantizar_f16", vec![sem]), "shape deve ser lista de inteiros");
    let escala = Decimal { bits: 0.5f64.to_bits(), texto: "0.5".to_string() };
    let int8 = guardar(Quantizado::Int8 { bytes: vec![1, 2], escala, zero: -3, shape: vec![2] });
    assert!(matches!(
        ler("tensor_dequantizar_int8", &int8),
        Ok(Quantizado::Int8 { bytes, escala, zero, shape })
            if bytes == vec![1, 2] && escala.texto == "0.5" && zero == -3 && shape == vec![2]
    ));
}
