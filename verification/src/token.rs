//! Os tokens da linguagem.

use vstd::prelude::*;

verus! {

/// Um token, com os seus textos representados por `T`: `String` no codigo,
/// `Seq<char>` nos contratos. Um numero com ponto guarda o seu lexema.
#[derive(Debug, PartialEq)]
pub enum TokenDe<T> {
    Inteiro(i64),
    Numero(T),
    Texto(T),
    Identificador(T),
    Verdadeiro,
    Falso,
    Nulo,
    Var,
    Se,
    Senao,
    Enquanto,
    Para,
    Funcao,
    Retornar,
    Imprimir,
    Pare,
    Continue,
    Tentar,
    Capturar,
    Finalmente,
    Lancar,
    Escolher,
    Caso,
    Padrao,
    De,
    Ate,
    Passo,
    Em,
    Importar,
    Incluir,
    Requerer,
    Como,
    PontoPontoPonto,
    Mais,
    Menos,
    Estrela,
    Barra,
    BarraBarra,
    Percentual,
    MaisIgual,
    MenosIgual,
    EstrelaIgual,
    BarraIgual,
    PercentualIgual,
    Igual,
    DiferenteDe,
    MenorQue,
    MaiorQue,
    MenorOuIgual,
    MaiorOuIgual,
    E,
    Ou,
    Nao,
    Atribuicao,
    ParenEsq,
    ParenDir,
    ChaveEsq,
    ChaveDir,
    ColcheteEsq,
    ColcheteDir,
    Virgula,
    PontoEVirgula,
    Ponto,
    DoisPontos,
    NullCoalescente,
    PontoOpcional,
    Seta,
    NovaLinha,
    FimDeArquivo,
}

/// O token que a analise lexica produz.
pub type Token = TokenDe<String>;

impl TokenDe<String> {
    /// O token com os seus textos como sequencias de caracteres.
    pub open spec fn view(&self) -> TokenDe<Seq<char>> {
        match self {
            TokenDe::Inteiro(n) => TokenDe::Inteiro(*n),
            TokenDe::Numero(t) => TokenDe::Numero(t@),
            TokenDe::Texto(t) => TokenDe::Texto(t@),
            TokenDe::Identificador(t) => TokenDe::Identificador(t@),
            TokenDe::Verdadeiro => TokenDe::Verdadeiro,
            TokenDe::Falso => TokenDe::Falso,
            TokenDe::Nulo => TokenDe::Nulo,
            TokenDe::Var => TokenDe::Var,
            TokenDe::Se => TokenDe::Se,
            TokenDe::Senao => TokenDe::Senao,
            TokenDe::Enquanto => TokenDe::Enquanto,
            TokenDe::Para => TokenDe::Para,
            TokenDe::Funcao => TokenDe::Funcao,
            TokenDe::Retornar => TokenDe::Retornar,
            TokenDe::Imprimir => TokenDe::Imprimir,
            TokenDe::Pare => TokenDe::Pare,
            TokenDe::Continue => TokenDe::Continue,
            TokenDe::Tentar => TokenDe::Tentar,
            TokenDe::Capturar => TokenDe::Capturar,
            TokenDe::Finalmente => TokenDe::Finalmente,
            TokenDe::Lancar => TokenDe::Lancar,
            TokenDe::Escolher => TokenDe::Escolher,
            TokenDe::Caso => TokenDe::Caso,
            TokenDe::Padrao => TokenDe::Padrao,
            TokenDe::De => TokenDe::De,
            TokenDe::Ate => TokenDe::Ate,
            TokenDe::Passo => TokenDe::Passo,
            TokenDe::Em => TokenDe::Em,
            TokenDe::Importar => TokenDe::Importar,
            TokenDe::Incluir => TokenDe::Incluir,
            TokenDe::Requerer => TokenDe::Requerer,
            TokenDe::Como => TokenDe::Como,
            TokenDe::PontoPontoPonto => TokenDe::PontoPontoPonto,
            TokenDe::Mais => TokenDe::Mais,
            TokenDe::Menos => TokenDe::Menos,
            TokenDe::Estrela => TokenDe::Estrela,
            TokenDe::Barra => TokenDe::Barra,
            TokenDe::BarraBarra => TokenDe::BarraBarra,
            TokenDe::Percentual => TokenDe::Percentual,
            TokenDe::MaisIgual => TokenDe::MaisIgual,
            TokenDe::MenosIgual => TokenDe::MenosIgual,
            TokenDe::EstrelaIgual => TokenDe::EstrelaIgual,
            TokenDe::BarraIgual => TokenDe::BarraIgual,
            TokenDe::PercentualIgual => TokenDe::PercentualIgual,
            TokenDe::Igual => TokenDe::Igual,
            TokenDe::DiferenteDe => TokenDe::DiferenteDe,
            TokenDe::MenorQue => TokenDe::MenorQue,
            TokenDe::MaiorQue => TokenDe::MaiorQue,
            TokenDe::MenorOuIgual => TokenDe::MenorOuIgual,
            TokenDe::MaiorOuIgual => TokenDe::MaiorOuIgual,
            TokenDe::E => TokenDe::E,
            TokenDe::Ou => TokenDe::Ou,
            TokenDe::Nao => TokenDe::Nao,
            TokenDe::Atribuicao => TokenDe::Atribuicao,
            TokenDe::ParenEsq => TokenDe::ParenEsq,
            TokenDe::ParenDir => TokenDe::ParenDir,
            TokenDe::ChaveEsq => TokenDe::ChaveEsq,
            TokenDe::ChaveDir => TokenDe::ChaveDir,
            TokenDe::ColcheteEsq => TokenDe::ColcheteEsq,
            TokenDe::ColcheteDir => TokenDe::ColcheteDir,
            TokenDe::Virgula => TokenDe::Virgula,
            TokenDe::PontoEVirgula => TokenDe::PontoEVirgula,
            TokenDe::Ponto => TokenDe::Ponto,
            TokenDe::DoisPontos => TokenDe::DoisPontos,
            TokenDe::NullCoalescente => TokenDe::NullCoalescente,
            TokenDe::PontoOpcional => TokenDe::PontoOpcional,
            TokenDe::Seta => TokenDe::Seta,
            TokenDe::NovaLinha => TokenDe::NovaLinha,
            TokenDe::FimDeArquivo => TokenDe::FimDeArquivo,
        }
    }
}

impl Clone for TokenDe<String> {
    fn clone(&self) -> (r: Self)
        ensures
            r@ == self@,
    {
        match self {
            TokenDe::Inteiro(n) => TokenDe::Inteiro(*n),
            TokenDe::Numero(t) => TokenDe::Numero(t.clone()),
            TokenDe::Texto(t) => TokenDe::Texto(t.clone()),
            TokenDe::Identificador(t) => TokenDe::Identificador(t.clone()),
            TokenDe::Verdadeiro => TokenDe::Verdadeiro,
            TokenDe::Falso => TokenDe::Falso,
            TokenDe::Nulo => TokenDe::Nulo,
            TokenDe::Var => TokenDe::Var,
            TokenDe::Se => TokenDe::Se,
            TokenDe::Senao => TokenDe::Senao,
            TokenDe::Enquanto => TokenDe::Enquanto,
            TokenDe::Para => TokenDe::Para,
            TokenDe::Funcao => TokenDe::Funcao,
            TokenDe::Retornar => TokenDe::Retornar,
            TokenDe::Imprimir => TokenDe::Imprimir,
            TokenDe::Pare => TokenDe::Pare,
            TokenDe::Continue => TokenDe::Continue,
            TokenDe::Tentar => TokenDe::Tentar,
            TokenDe::Capturar => TokenDe::Capturar,
            TokenDe::Finalmente => TokenDe::Finalmente,
            TokenDe::Lancar => TokenDe::Lancar,
            TokenDe::Escolher => TokenDe::Escolher,
            TokenDe::Caso => TokenDe::Caso,
            TokenDe::Padrao => TokenDe::Padrao,
            TokenDe::De => TokenDe::De,
            TokenDe::Ate => TokenDe::Ate,
            TokenDe::Passo => TokenDe::Passo,
            TokenDe::Em => TokenDe::Em,
            TokenDe::Importar => TokenDe::Importar,
            TokenDe::Incluir => TokenDe::Incluir,
            TokenDe::Requerer => TokenDe::Requerer,
            TokenDe::Como => TokenDe::Como,
            TokenDe::PontoPontoPonto => TokenDe::PontoPontoPonto,
            TokenDe::Mais => TokenDe::Mais,
            TokenDe::Menos => TokenDe::Menos,
            TokenDe::Estrela => TokenDe::Estrela,
            TokenDe::Barra => TokenDe::Barra,
            TokenDe::BarraBarra => TokenDe::BarraBarra,
            TokenDe::Percentual => TokenDe::Percentual,
            TokenDe::MaisIgual => TokenDe::MaisIgual,
            TokenDe::MenosIgual => TokenDe::MenosIgual,
            TokenDe::EstrelaIgual => TokenDe::EstrelaIgual,
            TokenDe::BarraIgual => TokenDe::BarraIgual,
            TokenDe::PercentualIgual => TokenDe::PercentualIgual,
            TokenDe::Igual => TokenDe::Igual,
            TokenDe::DiferenteDe => TokenDe::DiferenteDe,
            TokenDe::MenorQue => TokenDe::MenorQue,
            TokenDe::MaiorQue => TokenDe::MaiorQue,
            TokenDe::MenorOuIgual => TokenDe::MenorOuIgual,
            TokenDe::MaiorOuIgual => TokenDe::MaiorOuIgual,
            TokenDe::E => TokenDe::E,
            TokenDe::Ou => TokenDe::Ou,
            TokenDe::Nao => TokenDe::Nao,
            TokenDe::Atribuicao => TokenDe::Atribuicao,
            TokenDe::ParenEsq => TokenDe::ParenEsq,
            TokenDe::ParenDir => TokenDe::ParenDir,
            TokenDe::ChaveEsq => TokenDe::ChaveEsq,
            TokenDe::ChaveDir => TokenDe::ChaveDir,
            TokenDe::ColcheteEsq => TokenDe::ColcheteEsq,
            TokenDe::ColcheteDir => TokenDe::ColcheteDir,
            TokenDe::Virgula => TokenDe::Virgula,
            TokenDe::PontoEVirgula => TokenDe::PontoEVirgula,
            TokenDe::Ponto => TokenDe::Ponto,
            TokenDe::DoisPontos => TokenDe::DoisPontos,
            TokenDe::NullCoalescente => TokenDe::NullCoalescente,
            TokenDe::PontoOpcional => TokenDe::PontoOpcional,
            TokenDe::Seta => TokenDe::Seta,
            TokenDe::NovaLinha => TokenDe::NovaLinha,
            TokenDe::FimDeArquivo => TokenDe::FimDeArquivo,
        }
    }
}

/// Um token com a linha e a coluna em que comeca e o texto dessa linha.
#[derive(Debug, Clone)]
pub struct TokenComPosicao {
    pub token: Token,
    pub linha: usize,
    pub coluna: usize,
    pub contexto: String,
}

/// O que um `TokenComPosicao` representa.
pub struct TokenSituado {
    pub token: TokenDe<Seq<char>>,
    pub linha: int,
    pub coluna: int,
    pub contexto: Seq<char>,
}

impl TokenComPosicao {
    pub open spec fn view(&self) -> TokenSituado {
        TokenSituado {
            token: self.token@,
            linha: self.linha as int,
            coluna: self.coluna as int,
            contexto: self.contexto@,
        }
    }
}

/// O que uma lista de tokens representa.
pub open spec fn situados(v: Seq<TokenComPosicao>) -> Seq<TokenSituado> {
    v.map(|i: int, t: TokenComPosicao| t@)
}

} // verus!
