//! Documentos PDF: informacoes, texto das paginas e reconhecimento de texto em imagens.

use vstd::prelude::*;
use crate::busca;
use crate::texto;

verus! {

/// As informacoes de um documento.
pub struct InformacoesPdf {
    pub titulo: Option<String>,
    pub autor: Option<String>,
    pub assunto: Option<String>,
    pub palavras_chave: Option<String>,
    pub criador: Option<String>,
    pub produtor: Option<String>,
    pub data_criacao: Option<String>,
    pub data_modificacao: Option<String>,
    pub paginas: u32,
    pub versao: String,
}

/// As opcoes do reconhecimento de texto.
pub struct OpcoesOcr {
    pub idioma: String,
    pub dpi: u32,
    pub psm: u8,
    pub senha: Option<String>,
}

impl Default for OpcoesOcr {
    fn default() -> (r: Self)
        ensures
            r.idioma@ == "por"@,
            r.dpi == 300,
            r.psm == 3,
            r.senha is None,
    {
        OpcoesOcr { idioma: "por".to_owned(), dpi: 300, psm: 3, senha: None }
    }
}

/// Que ferramentas de reconhecimento ha.
pub struct DisponibilidadeOcr {
    pub disponivel: bool,
    pub tesseract: bool,
    pub pdftoppm: bool,
}

/// Um texto que pode faltar.
pub open spec fn talvez(s: Option<String>) -> Option<Seq<char>> {
    match s {
        Some(t) => Some(t@),
        None => None,
    }
}

// ---- A leitura --------------------------------------------------------------------------

/// O que o texto de uma pagina representa.
pub open spec fn pagina_vista(r: Result<String, String>) -> Result<Seq<char>, Seq<char>> {
    match r {
        Ok(s) => Ok(s@),
        Err(e) => Err(e@),
    }
}

/// O que os textos das paginas representam.
pub open spec fn paginas_vistas(v: Seq<Result<String, String>>) -> Seq<Result<Seq<char>, Seq<char>>> {
    v.map(|i: int, r: Result<String, String>| pagina_vista(r))
}

/// A mensagem de um erro de leitura.
pub open spec fn mensagem_erro(operacao: Seq<char>, caminho: Seq<char>, e: Seq<char>) -> Seq<char> {
    operacao + "('"@ + caminho + "'): "@ + e
}

/// A mensagem de um erro de leitura.
pub fn erro(caminho: &str, operacao: &str, e: &str) -> (r: String)
    ensures
        r@ == mensagem_erro(operacao@, caminho@, e@),
{
    let mut r = operacao.to_owned();
    r.append("('");
    r.append(caminho);
    r.append("'): ");
    r.append(e);
    r
}

/// As informacoes lidas do documento que esta num arquivo; um erro da leitura diz o caminho.
pub fn informacoes(caminho: &str, lidas: Result<InformacoesPdf, String>) -> (r: Result<InformacoesPdf, String>)
    ensures
        match lidas {
            Ok(i) => r == Ok::<_, String>(i),
            Err(e) => r matches Err(s) && s@ == mensagem_erro("pdf_informacoes"@, caminho@, e@),
        },
{
    match lidas {
        Ok(i) => Ok(i),
        Err(e) => Err(erro(caminho, "pdf_informacoes", e.as_str())),
    }
}

/// O numero de paginas do documento que esta num arquivo.
pub fn numero_paginas(caminho: &str, lidas: Result<InformacoesPdf, String>) -> (r: Result<u32, String>)
    ensures
        match lidas {
            Ok(i) => r == Ok::<_, String>(i.paginas),
            Err(e) => r matches Err(s) && s@ == mensagem_erro("pdf_informacoes"@, caminho@, e@),
        },
{
    match informacoes(caminho, lidas) {
        Ok(i) => Ok(i.paginas),
        Err(e) => Err(e),
    }
}

/// A mensagem do erro de uma pagina.
pub open spec fn erro_de_pagina(caminho: Seq<char>, numero: nat, e: Seq<char>) -> Seq<char> {
    "pdf_extrair_pagina('"@ + caminho + "', "@ + texto::decimal(numero) + "): "@ + e
}

fn mensagem_pagina(caminho: &str, numero: u64, e: &str) -> (r: String)
    ensures
        r@ == erro_de_pagina(caminho@, numero as nat, e@),
{
    let mut r = "pdf_extrair_pagina('".to_owned();
    r.append(caminho);
    r.append("', ");
    let n = texto::natural(numero);
    r.append(n.as_str());
    r.append("): ");
    r.append(e);
    r
}

/// A primeira pagina, a partir da posicao `i`, cujo texto nao se le.
pub open spec fn primeira_falha(v: Seq<Result<Seq<char>, Seq<char>>>, i: int) -> Option<int>
    decreases v.len() - i,
{
    if i < 0 || i >= v.len() {
        None
    } else if v[i] is Err {
        Some(i)
    } else {
        primeira_falha(v, i + 1)
    }
}

/// Os textos de todas as paginas, ou o erro da primeira que nao se le.
pub open spec fn textos_ou_erro(caminho: Seq<char>, v: Seq<Result<Seq<char>, Seq<char>>>) -> Result<
    Seq<Seq<char>>,
    Seq<char>,
> {
    match primeira_falha(v, 0) {
        Some(i) => Err(erro_de_pagina(caminho, (i + 1) as nat, v[i]->Err_0)),
        None => Ok(v.map(|i: int, r: Result<Seq<char>, Seq<char>>| r->Ok_0)),
    }
}

/// Os textos de todas as paginas lidas, ou o erro da primeira que nao se le.
pub fn reunir_paginas(caminho: &str, lidas: Vec<Result<String, String>>) -> (r: Result<Vec<String>, String>)
    ensures
        match r {
            Ok(v) => textos_ou_erro(caminho@, paginas_vistas(lidas@)) == Ok::<_, Seq<char>>(texto::textos(v@)),
            Err(e) => textos_ou_erro(caminho@, paginas_vistas(lidas@)) == Err::<Seq<Seq<char>>, _>(e@),
        },
{
    let ghost t = paginas_vistas(lidas@);
    let mut v: Vec<String> = Vec::new();
    let mut i: usize = 0;
    while i < lidas.len()
        invariant
            i <= lidas@.len(),
            t == paginas_vistas(lidas@),
            v@.len() == i,
            primeira_falha(t, 0) == primeira_falha(t, i as int),
            forall|k: int| 0 <= k < i ==> t[k] == Ok::<Seq<char>, Seq<char>>((#[trigger] v@[k])@),
        decreases lidas@.len() - i,
    {
        assert(t[i as int] == pagina_vista(lidas@[i as int]));
        match &lidas[i] {
            Ok(s) => {
                v.push(s.clone());
            },
            Err(e) => {
                return Err(mensagem_pagina(caminho, i as u64 + 1, e.as_str()));
            },
        }
        i += 1;
    }
    assert(texto::textos(v@) =~= t.map(|i: int, r: Result<Seq<char>, Seq<char>>| r->Ok_0));
    Ok(v)
}

/// O texto de cada pagina do documento aberto de um arquivo; `aberto` tem o texto lido de cada
/// pagina, na ordem delas.
pub fn extrair_paginas(caminho: &str, aberto: Result<Vec<Result<String, String>>, String>) -> (r: Result<
    Vec<String>,
    String,
>)
    ensures
        match aberto {
            Ok(p) => match r {
                Ok(v) => textos_ou_erro(caminho@, paginas_vistas(p@)) == Ok::<_, Seq<char>>(texto::textos(v@)),
                Err(e) => textos_ou_erro(caminho@, paginas_vistas(p@)) == Err::<Seq<Seq<char>>, _>(e@),
            },
            Err(e) => r matches Err(s) && s@ == mensagem_erro("pdf_abrir"@, caminho@, e@),
        },
{
    match aberto {
        Ok(lidas) => reunir_paginas(caminho, lidas),
        Err(e) => Err(erro(caminho, "pdf_abrir", e.as_str())),
    }
}

/// O texto de todas as paginas, uma por linha.
pub fn extrair_texto(caminho: &str, aberto: Result<Vec<Result<String, String>>, String>) -> (r: Result<
    String,
    String,
>)
    ensures
        match aberto {
            Ok(p) => match textos_ou_erro(caminho@, paginas_vistas(p@)) {
                Ok(v) => r matches Ok(s) && s@ == busca::juntos(v, "\n"@),
                Err(e) => r matches Err(s) && s@ == e,
            },
            Err(e) => r matches Err(s) && s@ == mensagem_erro("pdf_abrir"@, caminho@, e@),
        },
{
    match extrair_paginas(caminho, aberto) {
        Ok(v) => Ok(busca::juntar(&v, "\n")),
        Err(e) => Err(e),
    }
}

/// Se um numero pode ser o de uma pagina: as paginas contam-se de um. Pergunta-se antes de abrir
/// o documento.
pub fn conferir_pagina(pagina: u32) -> (r: Result<(), String>)
    ensures
        if pagina == 0 {
            r matches Err(s) && s@ == "pdf_extrair_pagina: a numeracao comeca em 1"@
        } else {
            r is Ok
        },
{
    if pagina == 0 {
        return Err("pdf_extrair_pagina: a numeracao comeca em 1".to_owned());
    }
    Ok(())
}

/// O texto de uma pagina do documento aberto de um arquivo; `aberta` e a pagina, se o documento a
/// tem.
pub fn extrair_pagina(caminho: &str, pagina: u32, aberta: Result<Option<Result<String, String>>, String>) -> (r: Result<
    String,
    String,
>)
    ensures
        if pagina == 0 {
            r matches Err(s) && s@ == "pdf_extrair_pagina: a numeracao comeca em 1"@
        } else {
            match aberta {
                Ok(Some(Ok(t))) => r matches Ok(s) && s@ == t@,
                Ok(Some(Err(e))) => r matches Err(s) && s@ == erro_de_pagina(caminho@, pagina as nat, e@),
                Ok(None) => r matches Err(s) && s@ == "pdf_extrair_pagina('"@ + caminho@ + "'): pagina "@
                    + texto::decimal(pagina as nat) + " inexistente"@,
                Err(e) => r matches Err(s) && s@ == mensagem_erro("pdf_abrir"@, caminho@, e@),
            }
        },
{
    match conferir_pagina(pagina) {
        Ok(_) => {},
        Err(e) => return Err(e),
    }
    match aberta {
        Ok(Some(Ok(t))) => Ok(t),
        Ok(Some(Err(e))) => Err(mensagem_pagina(caminho, pagina as u64, e.as_str())),
        Ok(None) => {
            let mut m = "pdf_extrair_pagina('".to_owned();
            m.append(caminho);
            m.append("'): pagina ");
            let n = texto::natural(pagina as u64);
            m.append(n.as_str());
            m.append(" inexistente");
            Err(m)
        },
        Err(e) => Err(erro(caminho, "pdf_abrir", e.as_str())),
    }
}

// ---- O reconhecimento -------------------------------------------------------------------

/// O programa a executar: o da configuracao, se nao for so de espacos, ou o de costume.
pub fn executavel(config: Option<String>, padrao: &str) -> (r: String)
    ensures
        r@ == (match config {
            Some(s) => if texto::aparado(s@).len() == 0 {
                padrao@
            } else {
                s@
            },
            None => padrao@,
        }),
{
    match config {
        Some(s) => {
            let a = busca::aparar_texto(s.as_str());
            if a.as_str().is_empty() {
                padrao.to_owned()
            } else {
                s
            }
        },
        None => padrao.to_owned(),
    }
}

/// Se ha como reconhecer texto: so com as duas ferramentas.
pub fn disponibilidade_ocr(tesseract: bool, pdftoppm: bool) -> (r: DisponibilidadeOcr)
    ensures
        r.disponivel == (tesseract && pdftoppm),
        r.tesseract == tesseract,
        r.pdftoppm == pdftoppm,
{
    DisponibilidadeOcr { disponivel: tesseract && pdftoppm, tesseract, pdftoppm }
}

/// Por que as opcoes nao servem.
pub open spec fn opcoes_recusadas(o: OpcoesOcr) -> Option<Seq<char>> {
    if texto::aparado(o.idioma@).len() == 0 || vstd::utf8::encode_utf8(o.idioma@).len() > 64 {
        Some("pdf_ocr: idioma invalido"@)
    } else if o.dpi < 72 || o.dpi > 600 {
        Some("pdf_ocr: dpi deve estar entre 72 e 600"@)
    } else if o.psm > 13 {
        Some("pdf_ocr: psm deve estar entre 0 e 13"@)
    } else {
        None
    }
}

/// Verifica as opcoes do reconhecimento.
pub fn validar_opcoes_ocr(opcoes: &OpcoesOcr) -> (r: Result<(), String>)
    ensures
        match r {
            Ok(_) => opcoes_recusadas(*opcoes) is None,
            Err(m) => opcoes_recusadas(*opcoes) == Some(m@),
        },
{
    let aparado = busca::aparar_texto(opcoes.idioma.as_str());
    if aparado.as_str().is_empty() || opcoes.idioma.as_str().as_bytes().len() > 64 {
        return Err("pdf_ocr: idioma invalido".to_owned());
    }
    if opcoes.dpi < 72 || opcoes.dpi > 600 {
        return Err("pdf_ocr: dpi deve estar entre 72 e 600".to_owned());
    }
    if opcoes.psm > 13 {
        return Err("pdf_ocr: psm deve estar entre 0 e 13".to_owned());
    }
    Ok(())
}

/// O que se decide antes de executar as ferramentas: as opcoes tem de servir e o arquivo de
/// existir.
pub fn ocr_paginas(caminho: &str, opcoes: &OpcoesOcr, existe: bool) -> (r: Result<(), String>)
    ensures
        match opcoes_recusadas(*opcoes) {
            Some(m) => r matches Err(e) && e@ == m,
            None => if existe {
                r is Ok
            } else {
                r matches Err(e) && e@ == "pdf_ocr('"@ + caminho@ + "'): arquivo nao encontrado"@
            },
        },
{
    match validar_opcoes_ocr(opcoes) {
        Ok(_) => {},
        Err(e) => return Err(e),
    }
    if !existe {
        let mut m = "pdf_ocr('".to_owned();
        m.append(caminho);
        m.append("'): arquivo nao encontrado");
        return Err(m);
    }
    Ok(())
}

/// A mensagem de uma ferramenta que falhou, pelo que ela escreveu.
pub fn erro_comando(nome: &str, saida: &[u8]) -> (r: String)
    ensures
        ({
            let t = texto::aparado(busca::texto_de(saida@));
            r@ == if t.len() == 0 {
                nome@ + " terminou com erro"@
            } else {
                nome@ + ": "@ + t
            }
        }),
{
    let t = busca::de_bytes(saida);
    let a = busca::aparar_texto(t.as_str());
    let mut r = nome.to_owned();
    if a.as_str().is_empty() {
        r.append(" terminou com erro");
    } else {
        r.append(": ");
        r.append(a.as_str());
    }
    r
}

/// O numero da pagina no nome de uma imagem: o que vem depois do ultimo hifen, ou o maior
/// numero se nao for um.
pub open spec fn numero_no_nome(s: Seq<char>) -> u32 {
    let ps = busca::partes(s, '-', 0);
    match busca::lido_natural(ps.last(), u32::MAX as nat) {
        Some(n) => n as u32,
        None => u32::MAX,
    }
}

/// O numero da pagina de uma imagem, pelo nome dela sem a extensao.
pub fn numero_imagem(nome: Option<&str>) -> (r: u32)
    ensures
        r == (match nome {
            Some(s) => numero_no_nome(s@),
            None => u32::MAX,
        }),
{
    match nome {
        Some(s) => {
            let cs = texto::caracteres(s);
            let ps = busca::separar(&cs, '-');
            assert(texto::textos(ps@).last() == ps@.last()@);
            match busca::ler_natural(ps[ps.len() - 1].as_str(), u32::MAX as u64) {
                Some(n) => n as u32,
                None => u32::MAX,
            }
        },
        None => u32::MAX,
    }
}

/// O texto reconhecido de todas as paginas.
pub fn ocr_texto(paginas: Result<Vec<String>, String>) -> (r: Result<String, String>)
    ensures
        match paginas {
            Ok(v) => r matches Ok(s) && s@ == busca::juntos(texto::textos(v@), "\n\n"@),
            Err(e) => r matches Err(s) && s@ == e@,
        },
{
    match paginas {
        Ok(v) => Ok(busca::juntar(&v, "\n\n")),
        Err(e) => Err(e),
    }
}

/// Se todas as paginas tem algum texto.
pub open spec fn todas_com_texto(v: Seq<Seq<char>>) -> bool {
    forall|i: int| 0 <= i < v.len() ==> texto::aparado(#[trigger] v[i]).len() > 0
}

/// Os textos, com os das paginas em branco trocados pelos reconhecidos.
pub open spec fn completados(v: Seq<Seq<char>>, ocr: Seq<Seq<char>>) -> Seq<Seq<char>> {
    v.map(
        |i: int, t: Seq<char>|
            if texto::aparado(t).len() > 0 {
                t
            } else if i < ocr.len() {
                ocr[i]
            } else {
                Seq::empty()
            },
    )
}

/// Se e preciso reconhecer: ha alguma pagina em branco.
pub fn precisa_ocr(paginas: &Vec<String>) -> (r: bool)
    ensures
        r == !todas_com_texto(texto::textos(paginas@)),
{
    let ghost t = texto::textos(paginas@);
    for i in 0..paginas.len()
        invariant
            t == texto::textos(paginas@),
            forall|k: int| 0 <= k < i ==> texto::aparado(#[trigger] t[k]).len() > 0,
    {
        assert(t[i as int] == paginas@[i as int]@);
        let a = busca::aparar_texto(paginas[i].as_str());
        if a.as_str().is_empty() {
            return true;
        }
    }
    assert(t.len() == paginas@.len());
    false
}

/// O texto do documento, com o reconhecido nas paginas em branco. O reconhecimento so conta
/// se ha alguma.
pub fn extrair_texto_com_ocr(paginas: Result<Vec<String>, String>, ocr: Result<Vec<String>, String>) -> (r: Result<
    String,
    String,
>)
    ensures
        match paginas {
            Err(e) => r matches Err(s) && s@ == e@,
            Ok(v) => if todas_com_texto(texto::textos(v@)) {
                r matches Ok(s) && s@ == busca::juntos(texto::textos(v@), "\n"@)
            } else {
                match ocr {
                    Err(e) => r matches Err(s) && s@ == e@,
                    Ok(o) => r matches Ok(s) && s@ == busca::juntos(
                        completados(texto::textos(v@), texto::textos(o@)),
                        "\n"@,
                    ),
                }
            },
        },
{
    let v = match paginas {
        Ok(v) => v,
        Err(e) => return Err(e),
    };
    if !precisa_ocr(&v) {
        return Ok(busca::juntar(&v, "\n"));
    }
    let o = match ocr {
        Ok(o) => o,
        Err(e) => return Err(e),
    };
    let ghost t = texto::textos(v@);
    let ghost u = texto::textos(o@);
    let mut juntas: Vec<String> = Vec::new();
    for i in 0..v.len()
        invariant
            t == texto::textos(v@),
            u == texto::textos(o@),
            u.len() == o@.len(),
            juntas@.len() == i,
            forall|k: int| 0 <= k < i ==> (#[trigger] juntas@[k])@ == completados(t, u)[k],
    {
        assert(t[i as int] == v@[i as int]@);
        let a = busca::aparar_texto(v[i].as_str());
        if !a.as_str().is_empty() {
            juntas.push(v[i].clone());
        } else if i < o.len() {
            assert(u[i as int] == o@[i as int]@);
            juntas.push(o[i].clone());
        } else {
            let vazio = String::new();
            assert(vazio@ =~= Seq::<char>::empty());
            juntas.push(vazio);
        }
    }
    assert(texto::textos(juntas@) =~= completados(t, u));
    Ok(busca::juntar(&juntas, "\n"))
}

} // verus!
