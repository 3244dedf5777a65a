//! As mensagens dos erros de sintaxe de um programa ou de um template.

use vstd::prelude::*;
use crate::fonte::{mensagem, ErroFonte, FalhaFonte};
use crate::fonte;
use crate::sintaxe::{ErroSintaxe, ErroSintaxeDe, Simbolo};
use crate::template::{mensagem_tag, ErroTemplate};
use crate::template;
use crate::texto;
use crate::token::{Token, TokenDe};

verus! {

/// Um token, como se mostra. De um numero com ponto, um texto ou um nome mostra-se `valor`.
pub open spec fn token_mostrado(t: TokenDe<Seq<char>>, valor: Seq<char>) -> Seq<char> {
    match t {
        TokenDe::Inteiro(n) => "Inteiro("@ + texto::decimal_int(n as int) + ")"@,
        TokenDe::Numero(_) => "Numero("@ + valor + ")"@,
        TokenDe::Texto(_) => "Texto("@ + valor + ")"@,
        TokenDe::Identificador(_) => "Identificador("@ + valor + ")"@,
        TokenDe::Verdadeiro => "Verdadeiro"@,
        TokenDe::Falso => "Falso"@,
        TokenDe::Nulo => "Nulo"@,
        TokenDe::Var => "Var"@,
        TokenDe::Se => "Se"@,
        TokenDe::Senao => "Senao"@,
        TokenDe::Enquanto => "Enquanto"@,
        TokenDe::Para => "Para"@,
        TokenDe::Funcao => "Funcao"@,
        TokenDe::Retornar => "Retornar"@,
        TokenDe::Imprimir => "Imprimir"@,
        TokenDe::Pare => "Pare"@,
        TokenDe::Continue => "Continue"@,
        TokenDe::Tentar => "Tentar"@,
        TokenDe::Capturar => "Capturar"@,
        TokenDe::Finalmente => "Finalmente"@,
        TokenDe::Lancar => "Lancar"@,
        TokenDe::Escolher => "Escolher"@,
        TokenDe::Caso => "Caso"@,
        TokenDe::Padrao => "Padrao"@,
        TokenDe::De => "De"@,
        TokenDe::Ate => "Ate"@,
        TokenDe::Passo => "Passo"@,
        TokenDe::Em => "Em"@,
        TokenDe::Importar => "Importar"@,
        TokenDe::Incluir => "Incluir"@,
        TokenDe::Requerer => "Requerer"@,
        TokenDe::Como => "Como"@,
        TokenDe::PontoPontoPonto => "PontoPontoPonto"@,
        TokenDe::Mais => "Mais"@,
        TokenDe::Menos => "Menos"@,
        TokenDe::Estrela => "Estrela"@,
        TokenDe::Barra => "Barra"@,
        TokenDe::BarraBarra => "BarraBarra"@,
        TokenDe::Percentual => "Percentual"@,
        TokenDe::MaisIgual => "MaisIgual"@,
        TokenDe::MenosIgual => "MenosIgual"@,
        TokenDe::EstrelaIgual => "EstrelaIgual"@,
        TokenDe::BarraIgual => "BarraIgual"@,
        TokenDe::PercentualIgual => "PercentualIgual"@,
        TokenDe::Igual => "Igual"@,
        TokenDe::DiferenteDe => "DiferenteDe"@,
        TokenDe::MenorQue => "MenorQue"@,
        TokenDe::MaiorQue => "MaiorQue"@,
        TokenDe::MenorOuIgual => "MenorOuIgual"@,
        TokenDe::MaiorOuIgual => "MaiorOuIgual"@,
        TokenDe::E => "E"@,
        TokenDe::Ou => "Ou"@,
        TokenDe::Nao => "Nao"@,
        TokenDe::Atribuicao => "Atribuicao"@,
        TokenDe::ParenEsq => "ParenEsq"@,
        TokenDe::ParenDir => "ParenDir"@,
        TokenDe::ChaveEsq => "ChaveEsq"@,
        TokenDe::ChaveDir => "ChaveDir"@,
        TokenDe::ColcheteEsq => "ColcheteEsq"@,
        TokenDe::ColcheteDir => "ColcheteDir"@,
        TokenDe::Virgula => "Virgula"@,
        TokenDe::PontoEVirgula => "PontoEVirgula"@,
        TokenDe::Ponto => "Ponto"@,
        TokenDe::DoisPontos => "DoisPontos"@,
        TokenDe::NullCoalescente => "NullCoalescente"@,
        TokenDe::PontoOpcional => "PontoOpcional"@,
        TokenDe::Seta => "Seta"@,
        TokenDe::NovaLinha => "NovaLinha"@,
        TokenDe::FimDeArquivo => "FimDeArquivo"@,
    }
}

fn entre(a: &str, meio: &str) -> (r: String)
    ensures
        r@ == a@ + meio@ + ")"@,
{
    let mut r = a.to_owned();
    r.append(meio);
    r.append(")");
    r
}

/// Um token, como se mostra.
pub fn mostrar_token(t: &Token, valor: &str) -> (r: String)
    ensures
        r@ == token_mostrado(t@, valor@),
{
    let nome: &str = match t {
        TokenDe::Inteiro(n) => return entre("Inteiro(", texto::inteiro(*n).as_str()),
        TokenDe::Numero(_) => return entre("Numero(", valor),
        TokenDe::Texto(_) => return entre("Texto(", valor),
        TokenDe::Identificador(_) => return entre("Identificador(", valor),
        TokenDe::Verdadeiro => "Verdadeiro",
        TokenDe::Falso => "Falso",
        TokenDe::Nulo => "Nulo",
        TokenDe::Var => "Var",
        TokenDe::Se => "Se",
        TokenDe::Senao => "Senao",
        TokenDe::Enquanto => "Enquanto",
        TokenDe::Para => "Para",
        TokenDe::Funcao => "Funcao",
        TokenDe::Retornar => "Retornar",
        TokenDe::Imprimir => "Imprimir",
        TokenDe::Pare => "Pare",
        TokenDe::Continue => "Continue",
        TokenDe::Tentar => "Tentar",
        TokenDe::Capturar => "Capturar",
        TokenDe::Finalmente => "Finalmente",
        TokenDe::Lancar => "Lancar",
        TokenDe::Escolher => "Escolher",
        TokenDe::Caso => "Caso",
        TokenDe::Padrao => "Padrao",
        TokenDe::De => "De",
        TokenDe::Ate => "Ate",
        TokenDe::Passo => "Passo",
        TokenDe::Em => "Em",
        TokenDe::Importar => "Importar",
        TokenDe::Incluir => "Incluir",
        TokenDe::Requerer => "Requerer",
        TokenDe::Como => "Como",
        TokenDe::PontoPontoPonto => "PontoPontoPonto",
        TokenDe::Mais => "Mais",
        TokenDe::Menos => "Menos",
        TokenDe::Estrela => "Estrela",
        TokenDe::Barra => "Barra",
        TokenDe::BarraBarra => "BarraBarra",
        TokenDe::Percentual => "Percentual",
        TokenDe::MaisIgual => "MaisIgual",
        TokenDe::MenosIgual => "MenosIgual",
        TokenDe::EstrelaIgual => "EstrelaIgual",
        TokenDe::BarraIgual => "BarraIgual",
        TokenDe::PercentualIgual => "PercentualIgual",
        TokenDe::Igual => "Igual",
        TokenDe::DiferenteDe => "DiferenteDe",
        TokenDe::MenorQue => "MenorQue",
        TokenDe::MaiorQue => "MaiorQue",
        TokenDe::MenorOuIgual => "MenorOuIgual",
        TokenDe::MaiorOuIgual => "MaiorOuIgual",
        TokenDe::E => "E",
        TokenDe::Ou => "Ou",
        TokenDe::Nao => "Nao",
        TokenDe::Atribuicao => "Atribuicao",
        TokenDe::ParenEsq => "ParenEsq",
        TokenDe::ParenDir => "ParenDir",
        TokenDe::ChaveEsq => "ChaveEsq",
        TokenDe::ChaveDir => "ChaveDir",
        TokenDe::ColcheteEsq => "ColcheteEsq",
        TokenDe::ColcheteDir => "ColcheteDir",
        TokenDe::Virgula => "Virgula",
        TokenDe::PontoEVirgula => "PontoEVirgula",
        TokenDe::Ponto => "Ponto",
        TokenDe::DoisPontos => "DoisPontos",
        TokenDe::NullCoalescente => "NullCoalescente",
        TokenDe::PontoOpcional => "PontoOpcional",
        TokenDe::Seta => "Seta",
        TokenDe::NovaLinha => "NovaLinha",
        TokenDe::FimDeArquivo => "FimDeArquivo",
    };
    nome.to_owned()
}

/// Um sinal, como se mostra.
pub open spec fn simbolo_mostrado(s: Simbolo) -> Seq<char> {
    match s {
        Simbolo::ParenEsq => "ParenEsq"@,
        Simbolo::ParenDir => "ParenDir"@,
        Simbolo::ChaveEsq => "ChaveEsq"@,
        Simbolo::ChaveDir => "ChaveDir"@,
        Simbolo::ColcheteDir => "ColcheteDir"@,
        Simbolo::Ate => "Ate"@,
        Simbolo::DoisPontos => "DoisPontos"@,
        Simbolo::Seta => "Seta"@,
    }
}

fn mostrar_simbolo(s: Simbolo) -> (r: String)
    ensures
        r@ == simbolo_mostrado(s),
{
    let nome: &str = match s {
        Simbolo::ParenEsq => "ParenEsq",
        Simbolo::ParenDir => "ParenDir",
        Simbolo::ChaveEsq => "ChaveEsq",
        Simbolo::ChaveDir => "ChaveDir",
        Simbolo::ColcheteDir => "ColcheteDir",
        Simbolo::Ate => "Ate",
        Simbolo::DoisPontos => "DoisPontos",
        Simbolo::Seta => "Seta",
    };
    nome.to_owned()
}

/// O que se diz depois da linha.
pub open spec fn na_linha(linha: usize, dito: Seq<char>) -> Seq<char> {
    "Linha "@ + texto::decimal(linha as nat) + dito
}

fn dizer_na_linha(linha: usize, dito: &str) -> (r: String)
    ensures
        r@ == na_linha(linha, dito@),
{
    let mut r = "Linha ".to_owned();
    r.append(texto::natural(linha as u64).as_str());
    r.append(dito);
    r
}

fn juntar_dois(a: &str, b: &str) -> (r: String)
    ensures
        r@ == a@ + b@,
{
    let mut r = a.to_owned();
    r.append(b);
    r
}

/// A mensagem de um erro de sintaxe; `valor` e como se mostra o que o token encontrado traz.
pub open spec fn de_sintaxe(e: ErroSintaxeDe<Seq<char>>, valor: Seq<char>) -> Seq<char> {
    match e {
        ErroSintaxeDe::Lexico(l) => fonte::mensagem_de(l),
        ErroSintaxeDe::Esperava { linha, esperado, encontrado } => na_linha(
            linha,
            ": esperava "@ + simbolo_mostrado(esperado) + ", mas encontrei "@ + token_mostrado(encontrado, valor),
        ),
        ErroSintaxeDe::EsperavaNome { linha, encontrado } => na_linha(
            linha,
            ": esperava um nome, mas encontrei "@ + token_mostrado(encontrado, valor),
        ),
        ErroSintaxeDe::ParaSemFonte { linha } => na_linha(
            linha,
            ": 'para' espera 'em' (lista) ou 'de' (intervalo)"@,
        ),
        ErroSintaxeDe::VariadicoNaoUltimo { linha } => na_linha(
            linha,
            ": parametro variadic '...' deve ser o ultimo"@,
        ),
        ErroSintaxeDe::CasoInvalido { linha, encontrado } => na_linha(
            linha,
            ": esperava 'caso' ou 'padrao' em 'escolher', encontrei "@ + token_mostrado(encontrado, valor),
        ),
        ErroSintaxeDe::ImportarSemTexto { linha } => na_linha(
            linha,
            ": importar espera um texto com o caminho do arquivo"@,
        ),
        ErroSintaxeDe::IncluirSemTexto { linha } => na_linha(
            linha,
            ": incluir/requerer espera um texto com o caminho do arquivo"@,
        ),
        ErroSintaxeDe::CompostoInvalido { linha } => na_linha(
            linha,
            ": lado esquerdo invalido para operador composto"@,
        ),
        ErroSintaxeDe::AtribuicaoInvalida { linha } => na_linha(
            linha,
            ": lado esquerdo da atribuicao invalido"@,
        ),
        ErroSintaxeDe::ChaveInvalida { linha, encontrado } => na_linha(
            linha,
            ": chave de mapa invalida: "@ + token_mostrado(encontrado, valor),
        ),
        ErroSintaxeDe::ExpressaoInesperada { linha, encontrado } => na_linha(
            linha,
            ": expressao inesperada: "@ + token_mostrado(encontrado, valor),
        ),
    }
}

/// A mensagem de um erro de sintaxe; `valor` e como se mostra o que o token encontrado traz.
pub fn mensagem_sintaxe(e: &ErroSintaxe, valor: &str) -> (r: String)
    ensures
        r@ == de_sintaxe(e@, valor@),
{
    match e {
        ErroSintaxeDe::Lexico(l) => mensagem(l),
        ErroSintaxeDe::Esperava { linha, esperado, encontrado } => {
            let mut d = ": esperava ".to_owned();
            d.append(mostrar_simbolo(*esperado).as_str());
            d.append(", mas encontrei ");
            d.append(mostrar_token(encontrado, valor).as_str());
            dizer_na_linha(*linha, d.as_str())
        },
        ErroSintaxeDe::EsperavaNome { linha, encontrado } => {
            let d = juntar_dois(": esperava um nome, mas encontrei ", mostrar_token(encontrado, valor).as_str());
            dizer_na_linha(*linha, d.as_str())
        },
        ErroSintaxeDe::ParaSemFonte { linha } => dizer_na_linha(*linha, ": 'para' espera 'em' (lista) ou 'de' (intervalo)"),
        ErroSintaxeDe::VariadicoNaoUltimo { linha } => dizer_na_linha(*linha, ": parametro variadic '...' deve ser o ultimo"),
        ErroSintaxeDe::CasoInvalido { linha, encontrado } => {
            let d = juntar_dois(": esperava 'caso' ou 'padrao' em 'escolher', encontrei ", mostrar_token(encontrado, valor).as_str());
            dizer_na_linha(*linha, d.as_str())
        },
        ErroSintaxeDe::ImportarSemTexto { linha } => dizer_na_linha(*linha, ": importar espera um texto com o caminho do arquivo"),
        ErroSintaxeDe::IncluirSemTexto { linha } => dizer_na_linha(*linha, ": incluir/requerer espera um texto com o caminho do arquivo"),
        ErroSintaxeDe::CompostoInvalido { linha } => dizer_na_linha(*linha, ": lado esquerdo invalido para operador composto"),
        ErroSintaxeDe::AtribuicaoInvalida { linha } => dizer_na_linha(*linha, ": lado esquerdo da atribuicao invalido"),
        ErroSintaxeDe::ChaveInvalida { linha, encontrado } => {
            let d = juntar_dois(": chave de mapa invalida: ", mostrar_token(encontrado, valor).as_str());
            dizer_na_linha(*linha, d.as_str())
        },
        ErroSintaxeDe::ExpressaoInesperada { linha, encontrado } => {
            let d = juntar_dois(": expressao inesperada: ", mostrar_token(encontrado, valor).as_str());
            dizer_na_linha(*linha, d.as_str())
        },
    }
}

/// A mensagem de um texto que nao e programa.
pub open spec fn da_fonte(e: FalhaFonte, valor: Seq<char>) -> Seq<char> {
    match e {
        FalhaFonte::Lexico(l) => fonte::mensagem_de(l),
        FalhaFonte::Sintaxe(x) => de_sintaxe(x, valor),
        FalhaFonte::Compilacao(m) => m,
    }
}

/// A mensagem de um texto que nao e programa.
pub fn mensagem_fonte(e: &ErroFonte, valor: &str) -> (r: String)
    ensures
        r@ == da_fonte(e@, valor@),
{
    match e {
        ErroFonte::Lexico(l) => mensagem(l),
        ErroFonte::Sintaxe(x) => mensagem_sintaxe(x, valor),
        ErroFonte::Compilacao(m) => m.clone(),
    }
}

/// A mensagem de um template que nao e programa: um erro de sintaxe diz que e de um template.
pub fn mensagem_template(e: &ErroTemplate, valor: &str) -> (r: String)
    ensures
        r@ == (match e {
            ErroTemplate::Tag(t) => template::frase_da_tag(*t),
            ErroTemplate::Fonte(ErroFonte::Compilacao(m)) => m@,
            ErroTemplate::Fonte(f) => "Erro de sintaxe no template: "@ + da_fonte(f@, valor@),
            ErroTemplate::Grande => "Template grande demais"@,
        }),
{
    match e {
        ErroTemplate::Tag(t) => mensagem_tag(t),
        ErroTemplate::Fonte(ErroFonte::Compilacao(m)) => m.clone(),
        ErroTemplate::Fonte(f) => juntar_dois("Erro de sintaxe no template: ", mensagem_fonte(f, valor).as_str()),
        ErroTemplate::Grande => "Template grande demais".to_owned(),
    }
}

} // verus!
