use lopdf::content::{Content, Operation};
use lopdf::{Dictionary, Document, Object, Stream};
use pep::pdf::{
    conferir_pagina, extrair_pagina, extrair_paginas, extrair_texto, informacoes, numero_paginas, InformacoesPdf,
};

fn dicionario(pares: Vec<(&str, Object)>) -> Dictionary {
    let mut d = Dictionary::new();
    for (k, v) in pares {
        d.set(k, v);
    }
    d
}

fn criar_pdf() -> Vec<u8> {
    let mut doc = Document::with_version("1.5");
    let pages_id = doc.new_object_id();
    let font_id = doc.add_object(dicionario(vec![
        ("Type", "Font".into()),
        ("Subtype", "Type1".into()),
        ("BaseFont", "Courier".into()),
    ]));
    let fontes = dicionario(vec![("F1", font_id.into())]);
    let resources_id = doc.add_object(dicionario(vec![("Font", Object::Dictionary(fontes))]));
    let content = Content {
        operations: vec![
            Operation::new("BT", vec![]),
            Operation::new("Tf", vec!["F1".into(), 12.into()]),
            Operation::new("Td", vec![50.into(), 700.into()]),
            Operation::new("Tj", vec![Object::string_literal("Texto PDF em PEP")]),
            Operation::new("ET", vec![]),
        ],
    };
    let content_id = doc.add_object(Stream::new(Dictionary::new(), content.encode().unwrap()));
    let page_id = doc.add_object(dicionario(vec![
        ("Type", "Page".into()),
        ("Parent", pages_id.into()),
        ("Contents", content_id.into()),
    ]));
    doc.objects.insert(
        pages_id,
        Object::Dictionary(dicionario(vec![
            ("Type", "Pages".into()),
            ("Kids", Object::Array(vec![page_id.into()])),
            ("Count", 1.into()),
            ("Resources", resources_id.into()),
            ("MediaBox", Object::Array(vec![0.into(), 0.into(), 595.into(), 842.into()])),
        ])),
    );
    let catalog_id = doc.add_object(dicionario(vec![("Type", "Catalog".into()), ("Pages", pages_id.into())]));
    let info_id = doc.add_object(dicionario(vec![("Title", Object::string_literal("Teste PEP"))]));
    doc.trailer.set("Root", catalog_id);
    doc.trailer.set("Info", info_id);
    let mut bytes: Vec<u8> = Vec::new();
    doc.save_to(&mut bytes).unwrap();
    bytes
}

fn metadados(b: &[u8]) -> Result<InformacoesPdf, String> {
    let m = Document::load_metadata_mem(b).map_err(|e| e.to_string())?;
    Ok(InformacoesPdf {
        titulo: m.title,
        autor: m.author,
        assunto: m.subject,
        palavras_chave: m.keywords,
        criador: m.creator,
        produtor: m.producer,
        data_criacao: m.creation_date,
        data_modificacao: m.modification_date,
        paginas: m.page_count,
        versao: m.version,
    })
}

fn abrir(b: &[u8]) -> Result<Vec<Result<String, String>>, String> {
    let d = Document::load_mem(b).map_err(|e| e.to_string())?;
    Ok(d.get_pages().keys().map(|n| d.extract_text(&[*n]).map_err(|e| e.to_string())).collect())
}

fn abrir_pagina(b: &[u8], n: u32) -> Result<Option<Result<String, String>>, String> {
    let d = Document::load_mem(b).map_err(|e| e.to_string())?;
    if !d.get_pages().contains_key(&n) {
        return Ok(None);
    }
    Ok(Some(d.extract_text(&[n]).map_err(|e| e.to_string())))
}

#[test]
fn le_informacoes_e_extrai_texto() {
    let bytes = criar_pdf();
    let info = informacoes("a.pdf", metadados(&bytes)).unwrap();
    assert_eq!(info.paginas, 1);
    assert_eq!(info.titulo.as_deref(), Some("Teste PEP"));
    assert!(extrair_pagina("a.pdf", 1, abrir_pagina(&bytes, 1)).unwrap().contains("Texto PDF em PEP"));
    assert!(extrair_texto("a.pdf", abrir(&bytes)).unwrap().contains("Texto PDF em PEP"));
    assert!(extrair_pagina("a.pdf", 2, abrir_pagina(&bytes, 2)).is_err());
}

#[test]
fn pdf_conta_e_separa_as_paginas() {
    let bytes = criar_pdf();
    assert_eq!(numero_paginas("a.pdf", metadados(&bytes)), Ok(1));
    let paginas = extrair_paginas("a.pdf", abrir(&bytes)).unwrap();
    assert_eq!(paginas.len(), 1);
    assert!(paginas[0].contains("Texto PDF em PEP"));
}

#[test]
fn pdf_diz_cada_erro() {
    let e = informacoes("x.pdf", metadados(b"nada")).err().unwrap();
    assert!(e.starts_with("pdf_informacoes('x.pdf'): "));
    assert_eq!(extrair_texto("x.pdf", Err("ruim".to_string())), Err("pdf_abrir('x.pdf'): ruim".to_string()));
    let paginas = vec![Ok("a".to_string()), Err("b".to_string()), Err("c".to_string())];
    assert_eq!(extrair_paginas("x.pdf", Ok(paginas)), Err("pdf_extrair_pagina('x.pdf', 2): b".to_string()));
    assert_eq!(conferir_pagina(0), Err("pdf_extrair_pagina: a numeracao comeca em 1".to_string()));
    assert_eq!(conferir_pagina(1), Ok(()));
    assert_eq!(
        extrair_pagina("x.pdf", 7, Ok(None)),
        Err("pdf_extrair_pagina('x.pdf'): pagina 7 inexistente".to_string())
    );
    assert_eq!(
        extrair_pagina("x.pdf", 3, Ok(Some(Err("c".to_string())))),
        Err("pdf_extrair_pagina('x.pdf', 3): c".to_string())
    );
}
