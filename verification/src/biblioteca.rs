//! Os nomes das funcoes nativas que todo programa tem a mao.

use vstd::prelude::*;
use crate::texto;

verus! {

/// Parte 1 dos nomes.
pub open spec fn nomes_1() -> Seq<Seq<char>> {
    seq![
        "imprimir"@,
        "escrever"@,
        "nova_linha"@,
        "entrada"@,
        "texto"@,
        "numero"@,
        "inteiro"@,
        "tipo"@,
        "booleano"@,
    ]
}

fn parte_1() -> (r: Vec<String>)
    ensures
        texto::textos(r@) == nomes_1(),
{
    let mut r: Vec<String> = Vec::new();
    r.push("imprimir".to_owned());
    r.push("escrever".to_owned());
    r.push("nova_linha".to_owned());
    r.push("entrada".to_owned());
    r.push("texto".to_owned());
    r.push("numero".to_owned());
    r.push("inteiro".to_owned());
    r.push("tipo".to_owned());
    r.push("booleano".to_owned());
    assert(texto::textos(r@) =~= nomes_1());
    r
}

/// Parte 2 dos nomes.
pub open spec fn nomes_2() -> Seq<Seq<char>> {
    seq![
        "tamanho"@,
        "adicionar"@,
        "remover"@,
        "intervalo"@,
        "ordenar"@,
        "inverter_lista"@,
        "contem"@,
        "indice_de"@,
        "fatiar"@,
        "mapear"@,
        "filtrar"@,
        "reduzir"@,
        "mapa"@,
        "mapa_definir"@,
        "mapa_obter"@,
        "mapa_tem"@,
        "mapa_remover"@,
        "mapa_chaves"@,
        "mapa_valores"@,
        "mapa_para_lista"@,
    ]
}

fn parte_2() -> (r: Vec<String>)
    ensures
        texto::textos(r@) == nomes_2(),
{
    let mut r: Vec<String> = Vec::new();
    r.push("tamanho".to_owned());
    r.push("adicionar".to_owned());
    r.push("remover".to_owned());
    r.push("intervalo".to_owned());
    r.push("ordenar".to_owned());
    r.push("inverter_lista".to_owned());
    r.push("contem".to_owned());
    r.push("indice_de".to_owned());
    r.push("fatiar".to_owned());
    r.push("mapear".to_owned());
    r.push("filtrar".to_owned());
    r.push("reduzir".to_owned());
    r.push("mapa".to_owned());
    r.push("mapa_definir".to_owned());
    r.push("mapa_obter".to_owned());
    r.push("mapa_tem".to_owned());
    r.push("mapa_remover".to_owned());
    r.push("mapa_chaves".to_owned());
    r.push("mapa_valores".to_owned());
    r.push("mapa_para_lista".to_owned());
    assert(texto::textos(r@) =~= nomes_2());
    r
}

/// Parte 3 dos nomes.
pub open spec fn nomes_3() -> Seq<Seq<char>> {
    seq![
        "maiusculas"@,
        "minusculas"@,
        "aparar"@,
        "aparar_esquerda"@,
        "aparar_direita"@,
        "substituir"@,
        "dividir"@,
        "juntar"@,
        "comeca_com"@,
        "começa_com"@,
        "termina_com"@,
        "contem_texto"@,
        "posicao"@,
        "sub_texto"@,
        "inverter_texto"@,
        "repetir"@,
        "html_escapar"@,
        "url_codificar"@,
        "url_decodificar_texto"@,
    ]
}

fn parte_3() -> (r: Vec<String>)
    ensures
        texto::textos(r@) == nomes_3(),
{
    let mut r: Vec<String> = Vec::new();
    r.push("maiusculas".to_owned());
    r.push("minusculas".to_owned());
    r.push("aparar".to_owned());
    r.push("aparar_esquerda".to_owned());
    r.push("aparar_direita".to_owned());
    r.push("substituir".to_owned());
    r.push("dividir".to_owned());
    r.push("juntar".to_owned());
    r.push("comeca_com".to_owned());
    r.push("começa_com".to_owned());
    r.push("termina_com".to_owned());
    r.push("contem_texto".to_owned());
    r.push("posicao".to_owned());
    r.push("sub_texto".to_owned());
    r.push("inverter_texto".to_owned());
    r.push("repetir".to_owned());
    r.push("html_escapar".to_owned());
    r.push("url_codificar".to_owned());
    r.push("url_decodificar_texto".to_owned());
    assert(texto::textos(r@) =~= nomes_3());
    r
}

/// Parte 4 dos nomes.
pub open spec fn nomes_4() -> Seq<Seq<char>> {
    seq![
        "raiz"@,
        "potencia"@,
        "absoluto"@,
        "arredondar"@,
        "piso"@,
        "teto"@,
        "minimo"@,
        "maximo"@,
        "aleatorio"@,
        "aleatorio_inteiro"@,
        "seno"@,
        "cosseno"@,
        "tangente"@,
        "logaritmo"@,
        "pi"@,
        "infinito"@,
        "eh_numero"@,
        "truncar"@,
    ]
}

fn parte_4() -> (r: Vec<String>)
    ensures
        texto::textos(r@) == nomes_4(),
{
    let mut r: Vec<String> = Vec::new();
    r.push("raiz".to_owned());
    r.push("potencia".to_owned());
    r.push("absoluto".to_owned());
    r.push("arredondar".to_owned());
    r.push("piso".to_owned());
    r.push("teto".to_owned());
    r.push("minimo".to_owned());
    r.push("maximo".to_owned());
    r.push("aleatorio".to_owned());
    r.push("aleatorio_inteiro".to_owned());
    r.push("seno".to_owned());
    r.push("cosseno".to_owned());
    r.push("tangente".to_owned());
    r.push("logaritmo".to_owned());
    r.push("pi".to_owned());
    r.push("infinito".to_owned());
    r.push("eh_numero".to_owned());
    r.push("truncar".to_owned());
    assert(texto::textos(r@) =~= nomes_4());
    r
}

/// Parte 5 dos nomes.
pub open spec fn nomes_5() -> Seq<Seq<char>> {
    seq![
        "ler_arquivo"@,
        "escrever_arquivo"@,
        "escrever_arquivo_bytes"@,
        "acrescentar_arquivo"@,
        "arquivo_existe"@,
        "apagar_arquivo"@,
        "listar_arquivos"@,
        "criar_diretorio"@,
        "eh_arquivo"@,
        "eh_diretorio"@,
        "csv_ler"@,
        "csv_ler_mapa"@,
        "csv_escrever"@,
        "csv_parsear"@,
        "csv_serializar"@,
        "json_serializar"@,
        "json_deserializar"@,
    ]
}

fn parte_5() -> (r: Vec<String>)
    ensures
        texto::textos(r@) == nomes_5(),
{
    let mut r: Vec<String> = Vec::new();
    r.push("ler_arquivo".to_owned());
    r.push("escrever_arquivo".to_owned());
    r.push("escrever_arquivo_bytes".to_owned());
    r.push("acrescentar_arquivo".to_owned());
    r.push("arquivo_existe".to_owned());
    r.push("apagar_arquivo".to_owned());
    r.push("listar_arquivos".to_owned());
    r.push("criar_diretorio".to_owned());
    r.push("eh_arquivo".to_owned());
    r.push("eh_diretorio".to_owned());
    r.push("csv_ler".to_owned());
    r.push("csv_ler_mapa".to_owned());
    r.push("csv_escrever".to_owned());
    r.push("csv_parsear".to_owned());
    r.push("csv_serializar".to_owned());
    r.push("json_serializar".to_owned());
    r.push("json_deserializar".to_owned());
    assert(texto::textos(r@) =~= nomes_5());
    r
}

/// Parte 6 dos nomes.
pub open spec fn nomes_6() -> Seq<Seq<char>> {
    seq![
        "data_hora"@,
        "timestamp"@,
        "dormir"@,
        "formatar_numero"@,
        "formatar_data"@,
        "sessao_iniciar"@,
        "sessao_obter"@,
        "sessao_definir"@,
        "sessao_remover"@,
        "sessao_destruir"@,
        "sessao_renovar"@,
        "sessao_regenerar"@,
        "sessao_listar_chaves"@,
        "sessao_obter_tudo"@,
        "csrf_token"@,
        "csrf_verificar"@,
        "cookie_obter"@,
        "cookie_definir"@,
        "rota"@,
    ]
}

fn parte_6() -> (r: Vec<String>)
    ensures
        texto::textos(r@) == nomes_6(),
{
    let mut r: Vec<String> = Vec::new();
    r.push("data_hora".to_owned());
    r.push("timestamp".to_owned());
    r.push("dormir".to_owned());
    r.push("formatar_numero".to_owned());
    r.push("formatar_data".to_owned());
    r.push("sessao_iniciar".to_owned());
    r.push("sessao_obter".to_owned());
    r.push("sessao_definir".to_owned());
    r.push("sessao_remover".to_owned());
    r.push("sessao_destruir".to_owned());
    r.push("sessao_renovar".to_owned());
    r.push("sessao_regenerar".to_owned());
    r.push("sessao_listar_chaves".to_owned());
    r.push("sessao_obter_tudo".to_owned());
    r.push("csrf_token".to_owned());
    r.push("csrf_verificar".to_owned());
    r.push("cookie_obter".to_owned());
    r.push("cookie_definir".to_owned());
    r.push("rota".to_owned());
    assert(texto::textos(r@) =~= nomes_6());
    r
}

/// Parte 7 dos nomes.
pub open spec fn nomes_7() -> Seq<Seq<char>> {
    seq![
        "cabecalho"@,
        "status"@,
        "redirecionar"@,
        "json_responder"@,
        "entrada_get"@,
        "entrada_post"@,
        "obter"@,
        "obter_url"@,
        "postar_url"@,
        "Erro"@,
        "tipo_erro"@,
        "mensagem_erro"@,
        "pilha_erro"@,
    ]
}

fn parte_7() -> (r: Vec<String>)
    ensures
        texto::textos(r@) == nomes_7(),
{
    let mut r: Vec<String> = Vec::new();
    r.push("cabecalho".to_owned());
    r.push("status".to_owned());
    r.push("redirecionar".to_owned());
    r.push("json_responder".to_owned());
    r.push("entrada_get".to_owned());
    r.push("entrada_post".to_owned());
    r.push("obter".to_owned());
    r.push("obter_url".to_owned());
    r.push("postar_url".to_owned());
    r.push("Erro".to_owned());
    r.push("tipo_erro".to_owned());
    r.push("mensagem_erro".to_owned());
    r.push("pilha_erro".to_owned());
    assert(texto::textos(r@) =~= nomes_7());
    r
}

/// Parte 8 dos nomes.
pub open spec fn nomes_8() -> Seq<Seq<char>> {
    seq![
        "vec_soma"@,
        "vec_sub"@,
        "vec_mul"@,
        "vec_div"@,
        "produto_interno"@,
        "norma"@,
        "normalizar"@,
        "produto_vetorial"@,
        "matriz"@,
        "mat_de"@,
        "mat_obter"@,
        "mat_definir"@,
        "mat_soma"@,
        "mat_sub"@,
        "mat_mul"@,
        "mat_transpor"@,
        "mat_identidade"@,
        "mat_linhas"@,
        "mat_colunas"@,
        "mat_para_lista"@,
    ]
}

fn parte_8() -> (r: Vec<String>)
    ensures
        texto::textos(r@) == nomes_8(),
{
    let mut r: Vec<String> = Vec::new();
    r.push("vec_soma".to_owned());
    r.push("vec_sub".to_owned());
    r.push("vec_mul".to_owned());
    r.push("vec_div".to_owned());
    r.push("produto_interno".to_owned());
    r.push("norma".to_owned());
    r.push("normalizar".to_owned());
    r.push("produto_vetorial".to_owned());
    r.push("matriz".to_owned());
    r.push("mat_de".to_owned());
    r.push("mat_obter".to_owned());
    r.push("mat_definir".to_owned());
    r.push("mat_soma".to_owned());
    r.push("mat_sub".to_owned());
    r.push("mat_mul".to_owned());
    r.push("mat_transpor".to_owned());
    r.push("mat_identidade".to_owned());
    r.push("mat_linhas".to_owned());
    r.push("mat_colunas".to_owned());
    r.push("mat_para_lista".to_owned());
    assert(texto::textos(r@) =~= nomes_8());
    r
}

/// Parte 9 dos nomes.
pub open spec fn nomes_9() -> Seq<Seq<char>> {
    seq![
        "tensor"@,
        "tensor_de"@,
        "tensor_zeros"@,
        "tensor_uns"@,
        "tensor_shape"@,
        "tensor_ndim"@,
        "tensor_tamanho"@,
        "tensor_reshape"@,
        "tensor_transpor"@,
        "tensor_para_lista"@,
        "tensor_soma"@,
        "tensor_sub"@,
        "tensor_mul"@,
        "tensor_div"@,
        "tensor_potencia"@,
        "tensor_neg"@,
        "tensor_exp"@,
        "tensor_log"@,
        "tensor_raiz"@,
        "tensor_relu"@,
    ]
}

fn parte_9() -> (r: Vec<String>)
    ensures
        texto::textos(r@) == nomes_9(),
{
    let mut r: Vec<String> = Vec::new();
    r.push("tensor".to_owned());
    r.push("tensor_de".to_owned());
    r.push("tensor_zeros".to_owned());
    r.push("tensor_uns".to_owned());
    r.push("tensor_shape".to_owned());
    r.push("tensor_ndim".to_owned());
    r.push("tensor_tamanho".to_owned());
    r.push("tensor_reshape".to_owned());
    r.push("tensor_transpor".to_owned());
    r.push("tensor_para_lista".to_owned());
    r.push("tensor_soma".to_owned());
    r.push("tensor_sub".to_owned());
    r.push("tensor_mul".to_owned());
    r.push("tensor_div".to_owned());
    r.push("tensor_potencia".to_owned());
    r.push("tensor_neg".to_owned());
    r.push("tensor_exp".to_owned());
    r.push("tensor_log".to_owned());
    r.push("tensor_raiz".to_owned());
    r.push("tensor_relu".to_owned());
    assert(texto::textos(r@) =~= nomes_9());
    r
}

/// Parte 10 dos nomes.
pub open spec fn nomes_10() -> Seq<Seq<char>> {
    seq![
        "tensor_sigmoid"@,
        "tensor_tanh"@,
        "tensor_softmax"@,
        "tensor_media"@,
        "tensor_soma_total"@,
        "tensor_max"@,
        "tensor_min"@,
        "tensor_soma_eixo"@,
        "tensor_media_eixo"@,
        "tensor_concatenar"@,
        "tensor_matmul"@,
        "tensor_quantizar_int8"@,
        "tensor_dequantizar_int8"@,
        "tensor_quantizar_f16"@,
        "tensor_dequantizar_f16"@,
        "imagem_ler"@,
        "imagem_ler_tensor"@,
        "imagem_tensor_para_rgb"@,
        "imagem_salvar"@,
        "imagem_largura"@,
    ]
}

fn parte_10() -> (r: Vec<String>)
    ensures
        texto::textos(r@) == nomes_10(),
{
    let mut r: Vec<String> = Vec::new();
    r.push("tensor_sigmoid".to_owned());
    r.push("tensor_tanh".to_owned());
    r.push("tensor_softmax".to_owned());
    r.push("tensor_media".to_owned());
    r.push("tensor_soma_total".to_owned());
    r.push("tensor_max".to_owned());
    r.push("tensor_min".to_owned());
    r.push("tensor_soma_eixo".to_owned());
    r.push("tensor_media_eixo".to_owned());
    r.push("tensor_concatenar".to_owned());
    r.push("tensor_matmul".to_owned());
    r.push("tensor_quantizar_int8".to_owned());
    r.push("tensor_dequantizar_int8".to_owned());
    r.push("tensor_quantizar_f16".to_owned());
    r.push("tensor_dequantizar_f16".to_owned());
    r.push("imagem_ler".to_owned());
    r.push("imagem_ler_tensor".to_owned());
    r.push("imagem_tensor_para_rgb".to_owned());
    r.push("imagem_salvar".to_owned());
    r.push("imagem_largura".to_owned());
    assert(texto::textos(r@) =~= nomes_10());
    r
}

/// Parte 11 dos nomes.
pub open spec fn nomes_11() -> Seq<Seq<char>> {
    seq![
        "imagem_altura"@,
        "imagem_info"@,
        "pdf_informacoes"@,
        "pdf_numero_paginas"@,
        "pdf_extrair_texto"@,
        "pdf_extrair_pagina"@,
        "pdf_extrair_paginas"@,
        "pdf_ocr_disponivel"@,
        "pdf_ocr_texto"@,
        "pdf_ocr_paginas"@,
        "pdf_extrair_texto_com_ocr"@,
        "ffi_permitida"@,
        "ffi_carregar"@,
        "ffi_chamar"@,
        "ffi_fechar"@,
    ]
}

fn parte_11() -> (r: Vec<String>)
    ensures
        texto::textos(r@) == nomes_11(),
{
    let mut r: Vec<String> = Vec::new();
    r.push("imagem_altura".to_owned());
    r.push("imagem_info".to_owned());
    r.push("pdf_informacoes".to_owned());
    r.push("pdf_numero_paginas".to_owned());
    r.push("pdf_extrair_texto".to_owned());
    r.push("pdf_extrair_pagina".to_owned());
    r.push("pdf_extrair_paginas".to_owned());
    r.push("pdf_ocr_disponivel".to_owned());
    r.push("pdf_ocr_texto".to_owned());
    r.push("pdf_ocr_paginas".to_owned());
    r.push("pdf_extrair_texto_com_ocr".to_owned());
    r.push("ffi_permitida".to_owned());
    r.push("ffi_carregar".to_owned());
    r.push("ffi_chamar".to_owned());
    r.push("ffi_fechar".to_owned());
    assert(texto::textos(r@) =~= nomes_11());
    r
}

/// Parte 12 dos nomes.
pub open spec fn nomes_12() -> Seq<Seq<char>> {
    seq![
        "bytes_de_texto"@,
        "bytes_para_texto"@,
        "bytes_tamanho"@,
        "bytes_fatia"@,
        "bytes_de_lista"@,
        "bytes_para_lista"@,
        "bytes_base64"@,
        "bytes_para_hex"@,
        "bytes_concatenar"@,
        "bytes_obter"@,
        "corpo_bruto"@,
        "modelo_carregar"@,
        "modelo_obter"@,
        "modelo_existe"@,
        "modelo_listar"@,
        "modelo_descarregar"@,
    ]
}

fn parte_12() -> (r: Vec<String>)
    ensures
        texto::textos(r@) == nomes_12(),
{
    let mut r: Vec<String> = Vec::new();
    r.push("bytes_de_texto".to_owned());
    r.push("bytes_para_texto".to_owned());
    r.push("bytes_tamanho".to_owned());
    r.push("bytes_fatia".to_owned());
    r.push("bytes_de_lista".to_owned());
    r.push("bytes_para_lista".to_owned());
    r.push("bytes_base64".to_owned());
    r.push("bytes_para_hex".to_owned());
    r.push("bytes_concatenar".to_owned());
    r.push("bytes_obter".to_owned());
    r.push("corpo_bruto".to_owned());
    r.push("modelo_carregar".to_owned());
    r.push("modelo_obter".to_owned());
    r.push("modelo_existe".to_owned());
    r.push("modelo_listar".to_owned());
    r.push("modelo_descarregar".to_owned());
    assert(texto::textos(r@) =~= nomes_12());
    r
}

/// Parte 13 dos nomes.
pub open spec fn nomes_13() -> Seq<Seq<char>> {
    seq![
        "ws_aceitar"@,
        "ws_receber"@,
        "ws_enviar"@,
        "ws_enviar_bytes"@,
        "ws_fechar"@,
        "ws_id"@,
        "ws_conexoes"@,
        "ws_enviar_para"@,
        "ws_broadcast"@,
        "mmap_abrir"@,
        "mmap_fechar"@,
        "mmap_tamanho"@,
        "mmap_ler_f32"@,
        "mmap_ler_f64"@,
        "mmap_tensor_f32"@,
        "mmap_tensor_f64"@,
        "mmap_ler_bytes"@,
    ]
}

fn parte_13() -> (r: Vec<String>)
    ensures
        texto::textos(r@) == nomes_13(),
{
    let mut r: Vec<String> = Vec::new();
    r.push("ws_aceitar".to_owned());
    r.push("ws_receber".to_owned());
    r.push("ws_enviar".to_owned());
    r.push("ws_enviar_bytes".to_owned());
    r.push("ws_fechar".to_owned());
    r.push("ws_id".to_owned());
    r.push("ws_conexoes".to_owned());
    r.push("ws_enviar_para".to_owned());
    r.push("ws_broadcast".to_owned());
    r.push("mmap_abrir".to_owned());
    r.push("mmap_fechar".to_owned());
    r.push("mmap_tamanho".to_owned());
    r.push("mmap_ler_f32".to_owned());
    r.push("mmap_ler_f64".to_owned());
    r.push("mmap_tensor_f32".to_owned());
    r.push("mmap_tensor_f64".to_owned());
    r.push("mmap_ler_bytes".to_owned());
    assert(texto::textos(r@) =~= nomes_13());
    r
}

/// Parte 14 dos nomes.
pub open spec fn nomes_14() -> Seq<Seq<char>> {
    seq![
        "capturar_saida"@,
        "formatar"@,
        "regex_combinar"@,
        "regex_combinar_tudo"@,
        "regex_substituir"@,
        "regex_dividir"@,
        "base64_codificar"@,
        "base64_decodificar"@,
        "sha256"@,
        "md5"@,
        "hmac_sha256"@,
        "bd_conectar"@,
        "bd_consultar"@,
        "bd_executar"@,
        "bd_fechar"@,
        "sqlite_conectar"@,
        "sqlite_consultar"@,
        "sqlite_executar"@,
        "sqlite_fechar"@,
    ]
}

fn parte_14() -> (r: Vec<String>)
    ensures
        texto::textos(r@) == nomes_14(),
{
    let mut r: Vec<String> = Vec::new();
    r.push("capturar_saida".to_owned());
    r.push("formatar".to_owned());
    r.push("regex_combinar".to_owned());
    r.push("regex_combinar_tudo".to_owned());
    r.push("regex_substituir".to_owned());
    r.push("regex_dividir".to_owned());
    r.push("base64_codificar".to_owned());
    r.push("base64_decodificar".to_owned());
    r.push("sha256".to_owned());
    r.push("md5".to_owned());
    r.push("hmac_sha256".to_owned());
    r.push("bd_conectar".to_owned());
    r.push("bd_consultar".to_owned());
    r.push("bd_executar".to_owned());
    r.push("bd_fechar".to_owned());
    r.push("sqlite_conectar".to_owned());
    r.push("sqlite_consultar".to_owned());
    r.push("sqlite_executar".to_owned());
    r.push("sqlite_fechar".to_owned());
    assert(texto::textos(r@) =~= nomes_14());
    r
}

/// Todos os nomes das funcoes nativas.
pub open spec fn nomes_nativos() -> Seq<Seq<char>> {
    nomes_1() + nomes_2() + nomes_3() + nomes_4() + nomes_5() + nomes_6() + nomes_7() + nomes_8() + nomes_9() + nomes_10() + nomes_11() + nomes_12() + nomes_13() + nomes_14()
}

fn juntar(a: &mut Vec<String>, b: Vec<String>)
    ensures
        texto::textos(final(a)@) == texto::textos(old(a)@) + texto::textos(b@),
{
    let ghost antes = texto::textos(a@);
    let ghost bs = texto::textos(b@);
    let mut i: usize = 0;
    assert(antes =~= antes + bs.take(0));
    while i < b.len()
        invariant
            i <= b@.len(),
            bs == texto::textos(b@),
            texto::textos(a@) == antes + bs.take(i as int),
        decreases b@.len() - i,
    {
        let ghost o = a@;
        a.push(b[i].clone());
        assert(texto::textos(a@) =~= texto::textos(o).push(bs[i as int]));
        assert(texto::textos(a@) =~= antes + bs.take(i + 1));
        i += 1;
    }
    assert(bs.take(i as int) =~= bs);
}

/// Todos os nomes das funcoes nativas.
pub fn listar_nativos() -> (r: Vec<String>)
    ensures
        texto::textos(r@) == nomes_nativos(),
{
    let mut r = parte_1();
    juntar(&mut r, parte_2());
    juntar(&mut r, parte_3());
    juntar(&mut r, parte_4());
    juntar(&mut r, parte_5());
    juntar(&mut r, parte_6());
    juntar(&mut r, parte_7());
    juntar(&mut r, parte_8());
    juntar(&mut r, parte_9());
    juntar(&mut r, parte_10());
    juntar(&mut r, parte_11());
    juntar(&mut r, parte_12());
    juntar(&mut r, parte_13());
    juntar(&mut r, parte_14());
    r
}

} // verus!
