//! Analise lexica: do codigo-fonte aos tokens.

use vstd::prelude::*;
use crate::texto;
use crate::token::{Token, TokenComPosicao, TokenDe, TokenSituado};

verus! {

/// Se o caractere tem a propriedade Alphabetic do Unicode.
pub uninterp spec fn alfabetico(c: char) -> bool;

/// `char::is_alphabetic`: a propriedade Alphabetic; entre os caracteres ASCII tem-na
/// as letras e so elas.
#[verifier::external_body]
pub(crate) fn eh_alfabetico(c: char) -> (r: bool)
    ensures
        r == alfabetico(c),
        (c as u32) < 128 ==> r == ('a' <= c <= 'z' || 'A' <= c <= 'Z'),
{
    c.is_alphabetic()
}

/// Por que um codigo-fonte nao se divide em tokens.
#[derive(Debug, Clone, Copy, PartialEq, Eq, Structural)]
pub enum ErroLexico {
    /// Um texto entre aspas triplas que nao fecha ate a linha dada.
    TriplaAberta { linha: usize },
    /// Um texto entre aspas que nao fecha ate a linha dada.
    TextoAberto { linha: usize },
    /// O codigo acaba logo depois de uma barra invertida.
    EscapeIncompleto,
    /// A indentacao comum de um texto triplo acaba no meio de um caractere.
    RecuoPartido { linha: usize },
    /// Dois pontos finais sem o terceiro.
    PontoPonto { linha: usize },
    /// `?` sem `?` nem `.` depois.
    Interrogacao { linha: usize },
    /// `!` sem `=` depois.
    Exclamacao { linha: usize },
    /// Um caractere que nao comeca nenhum token.
    Desconhecido { caractere: char, linha: usize, coluna: usize },
}

// ---- Posicao ------------------------------------------------------------------

/// A linha da posicao `p`, a contar de um.
pub open spec fn linha_em(s: Seq<char>, p: int) -> int
    decreases p,
{
    if p <= 0 {
        1
    } else if s[p - 1] == '\n' {
        linha_em(s, p - 1) + 1
    } else {
        linha_em(s, p - 1)
    }
}

/// A coluna da posicao `p`, a contar de um.
pub open spec fn coluna_em(s: Seq<char>, p: int) -> int
    decreases p,
{
    if p <= 0 {
        1
    } else if s[p - 1] == '\n' {
        1
    } else {
        coluna_em(s, p - 1) + 1
    }
}

pub proof fn lema_posicao(s: Seq<char>, p: int)
    requires
        0 <= p,
    ensures
        1 <= linha_em(s, p) <= p + 1,
        1 <= coluna_em(s, p) <= p + 1,
    decreases p,
{
    if p > 0 {
        lema_posicao(s, p - 1);
    }
}

/// O texto da linha `n`, vazio se ela nao existe.
pub open spec fn contexto_de(s: Seq<char>, n: int) -> Seq<char> {
    let ls = texto::linhas(s, 0);
    let i = if n >= 1 {
        n - 1
    } else {
        0
    };
    if i < ls.len() {
        ls[i]
    } else {
        Seq::empty()
    }
}

// ---- Numeros ------------------------------------------------------------------

pub open spec fn digito(c: char) -> bool {
    '0' <= c <= '9'
}

pub open spec fn digito_hex(c: char) -> bool {
    digito(c) || 'a' <= c <= 'f' || 'A' <= c <= 'F'
}

/// O valor de um algarismo decimal ou hexadecimal.
pub open spec fn valor_digito(c: char) -> int {
    if digito(c) {
        c as int - 48
    } else if 'a' <= c <= 'f' {
        c as int - 87
    } else {
        c as int - 55
    }
}

/// O valor de uma sequencia de algarismos na base dada.
pub open spec fn valor(s: Seq<char>, base: int) -> int
    decreases s.len(),
{
    if s.len() == 0 {
        0
    } else {
        valor(s.drop_last(), base) * base + valor_digito(s.last())
    }
}

/// O inteiro que os algarismos representam, ou zero se nao ha algarismos ou se ele
/// nao cabe em 64 bits com sinal.
pub open spec fn inteiro_lido(s: Seq<char>, base: int) -> i64 {
    if s.len() == 0 || valor(s, base) > i64::MAX {
        0
    } else {
        valor(s, base) as i64
    }
}

/// O fim da sequencia de algarismos hexadecimais que comeca em `p`.
pub open spec fn fim_hex(s: Seq<char>, p: int) -> int
    decreases s.len() - p,
{
    if 0 <= p < s.len() && digito_hex(s[p]) {
        fim_hex(s, p + 1)
    } else {
        p
    }
}

/// O fim de um numero decimal que continua em `p`, e se ele tem ponto.
pub open spec fn fim_numero(s: Seq<char>, p: int, ponto: bool) -> (int, bool)
    decreases s.len() - p,
{
    if 0 <= p < s.len() && digito(s[p]) {
        fim_numero(s, p + 1, ponto)
    } else if 0 <= p < s.len() && s[p] == '.' && !ponto {
        fim_numero(s, p + 1, true)
    } else {
        (p, ponto)
    }
}

/// O caractere da posicao `p` e `c`.
pub open spec fn ha(s: Seq<char>, p: int, c: char) -> bool {
    0 <= p < s.len() && s[p] == c
}

/// O numero que comeca em `p` e a posicao seguinte a ele.
pub open spec fn numero_em(s: Seq<char>, p: int) -> (TokenDe<Seq<char>>, int) {
    if ha(s, p, '0') && (ha(s, p + 1, 'x') || ha(s, p + 1, 'X')) {
        let q = fim_hex(s, p + 2);
        (TokenDe::Inteiro(inteiro_lido(s.subrange(p + 2, q), 16)), q)
    } else {
        let (q, ponto) = fim_numero(s, p, false);
        if ponto {
            (TokenDe::Numero(s.subrange(p, q)), q)
        } else {
            (TokenDe::Inteiro(inteiro_lido(s.subrange(p, q), 10)), q)
        }
    }
}

// ---- Textos -------------------------------------------------------------------

/// O que uma barra invertida seguida de `c` acrescenta a um texto.
pub open spec fn escape(c: char) -> Seq<char> {
    if c == 'n' {
        seq!['\n']
    } else if c == 't' {
        seq!['\t']
    } else if c == '"' || c == '\\' || c == '\'' || c == '{' || c == '}' {
        seq![c]
    } else {
        seq!['\\', c]
    }
}

/// O texto entre aspas `d` cujo conteudo continua em `p`, depois de lido `acc`.
pub open spec fn texto_em(s: Seq<char>, p: int, d: char, acc: Seq<char>) -> Result<
    (Seq<char>, int),
    ErroLexico,
>
    decreases s.len() - p,
{
    if p < 0 || p >= s.len() {
        Err(ErroLexico::TextoAberto { linha: linha_em(s, s.len() as int) as usize })
    } else if s[p] == d {
        Ok((acc, p + 1))
    } else if s[p] == '\\' {
        if p + 1 >= s.len() {
            Err(ErroLexico::EscapeIncompleto)
        } else {
            texto_em(s, p + 2, d, acc + escape(s[p + 1]))
        }
    } else {
        texto_em(s, p + 1, d, acc.push(s[p]))
    }
}

/// Ha tres `d` seguidos em `p`.
pub open spec fn tres(s: Seq<char>, p: int, d: char) -> bool {
    ha(s, p, d) && ha(s, p + 1, d) && ha(s, p + 2, d)
}

/// A primeira posicao a partir de `p` com tres `d` seguidos, ou o comprimento.
pub open spec fn fim_tripla(s: Seq<char>, p: int, d: char) -> int
    decreases s.len() - p,
{
    if p < 0 || p >= s.len() {
        s.len() as int
    } else if tres(s, p, d) {
        p
    } else {
        fim_tripla(s, p + 1, d)
    }
}

/// Quantos bytes o caractere ocupa em UTF-8.
pub open spec fn largura(c: char) -> int {
    if (c as u32) < 0x80 {
        1
    } else if (c as u32) < 0x800 {
        2
    } else if (c as u32) < 0x10000 {
        3
    } else {
        4
    }
}

/// Quantos bytes o texto ocupa em UTF-8.
pub open spec fn octetos(s: Seq<char>) -> int
    decreases s.len(),
{
    if s.len() == 0 {
        0
    } else {
        octetos(s.drop_last()) + largura(s.last())
    }
}

/// Quantos caracteres, a contar de `i`, somam exatamente `k` bytes.
pub open spec fn corte(s: Seq<char>, i: int, k: int) -> Option<int>
    decreases s.len() - i,
{
    if k == 0 {
        Some(i)
    } else if k < 0 || i < 0 || i >= s.len() {
        None
    } else {
        corte(s, i + 1, k - largura(s[i]))
    }
}

/// A indentacao de uma linha em bytes; uma linha em branco nao tem indentacao.
pub open spec fn recuo(l: Seq<char>) -> Option<int> {
    if texto::inicio_util(l, 0) >= l.len() {
        None
    } else {
        Some(octetos(l.take(texto::inicio_util(l, 0))))
    }
}

/// A menor indentacao das primeiras `n` linhas, sem contar as linhas em branco.
pub open spec fn recuo_minimo(ls: Seq<Seq<char>>, n: int) -> Option<int>
    decreases n,
{
    if n <= 0 {
        None
    } else {
        match (recuo_minimo(ls, n - 1), recuo(ls[n - 1])) {
            (None, r) => r,
            (r, None) => r,
            (Some(a), Some(b)) => Some(
                if b < a {
                    b
                } else {
                    a
                },
            ),
        }
    }
}

/// Uma linha sem os primeiros `k` bytes, se ela os tem; se nao, sem os espacos iniciais.
pub open spec fn sem_recuo(l: Seq<char>, k: int) -> Option<Seq<char>> {
    if octetos(l) >= k {
        match corte(l, 0, k) {
            Some(i) => Some(l.skip(i)),
            None => None,
        }
    } else {
        Some(texto::aparado_inicio(l))
    }
}

/// As primeiras `n` linhas sem os primeiros `k` bytes de cada uma, juntas por quebras.
pub open spec fn sem_recuos(ls: Seq<Seq<char>>, k: int, n: int) -> Option<Seq<char>>
    decreases n,
{
    if n <= 0 {
        Some(Seq::empty())
    } else {
        match (sem_recuos(ls, k, n - 1), sem_recuo(ls[n - 1], k)) {
            (Some(a), Some(b)) => Some(
                if n == 1 {
                    b
                } else {
                    a.push('\n') + b
                },
            ),
            _ => None,
        }
    }
}

/// O fim de `s[..f]` sem as quebras e os espacos finais.
pub open spec fn fim_sem_quebras(s: Seq<char>, f: int) -> int
    decreases f,
{
    if f <= 0 || f > s.len() {
        0
    } else if s[f - 1] == '\n' || s[f - 1] == ' ' {
        fim_sem_quebras(s, f - 1)
    } else {
        f
    }
}

/// O texto sem a quebra inicial.
pub open spec fn sem_quebra_inicial(s: Seq<char>) -> Seq<char> {
    let a = if ha(s, 0, '\n') {
        s.skip(1)
    } else {
        s
    };
    if ha(a, 0, '\r') && ha(a, 1, '\n') {
        a.skip(2)
    } else {
        a
    }
}

/// O conteudo de um texto triplo sem a quebra inicial, a indentacao comum e os espacos
/// finais; `None` quando a indentacao comum acaba no meio de um caractere.
pub open spec fn dedentado(s: Seq<char>) -> Option<Seq<char>> {
    let b = sem_quebra_inicial(s);
    let ls = texto::linhas(b, 0);
    if ls.len() == 0 {
        Some(b)
    } else {
        let k = match recuo_minimo(ls, ls.len() as int) {
            Some(k) => k,
            None => 0,
        };
        match sem_recuos(ls, k, ls.len() as int) {
            Some(r) => Some(r.take(fim_sem_quebras(r, r.len() as int))),
            None => None,
        }
    }
}

/// O texto que comeca pela aspa em `p`.
pub open spec fn literal_em(s: Seq<char>, p: int) -> Result<(TokenDe<Seq<char>>, int), ErroLexico> {
    let d = s[p];
    if tres(s, p, d) {
        let q = fim_tripla(s, p + 3, d);
        if q >= s.len() {
            Err(ErroLexico::TriplaAberta { linha: linha_em(s, s.len() as int) as usize })
        } else {
            match dedentado(s.subrange(p + 3, q)) {
                Some(t) => Ok((TokenDe::Texto(t), q + 3)),
                None => Err(ErroLexico::RecuoPartido { linha: linha_em(s, q + 3) as usize }),
            }
        }
    } else {
        match texto_em(s, p + 1, d, Seq::empty()) {
            Ok((t, q)) => Ok((TokenDe::Texto(t), q)),
            Err(e) => Err(e),
        }
    }
}

// ---- Identificadores ----------------------------------------------------------

pub open spec fn letra(c: char) -> bool {
    alfabetico(c) || c == '_' || digito(c)
}

/// O fim do nome que continua em `p`.
pub open spec fn fim_nome(s: Seq<char>, p: int) -> int
    decreases s.len() - p,
{
    if 0 <= p < s.len() && letra(s[p]) {
        fim_nome(s, p + 1)
    } else {
        p
    }
}

/// A palavra-chave que o nome e, ou o identificador.
pub open spec fn palavra(t: Seq<char>) -> TokenDe<Seq<char>> {
    if t == "var"@ {
        TokenDe::Var
    } else if t == "se"@ {
        TokenDe::Se
    } else if t == "senao"@ {
        TokenDe::Senao
    } else if t == "enquanto"@ {
        TokenDe::Enquanto
    } else if t == "para"@ {
        TokenDe::Para
    } else if t == "em"@ {
        TokenDe::Em
    } else if t == "funcao"@ {
        TokenDe::Funcao
    } else if t == "retornar"@ {
        TokenDe::Retornar
    } else if t == "imprimir"@ {
        TokenDe::Imprimir
    } else if t == "verdadeiro"@ {
        TokenDe::Verdadeiro
    } else if t == "falso"@ {
        TokenDe::Falso
    } else if t == "nulo"@ {
        TokenDe::Nulo
    } else if t == "e"@ {
        TokenDe::E
    } else if t == "ou"@ {
        TokenDe::Ou
    } else if t == "nao"@ {
        TokenDe::Nao
    } else if t == "pare"@ {
        TokenDe::Pare
    } else if t == "continue"@ {
        TokenDe::Continue
    } else if t == "tentar"@ {
        TokenDe::Tentar
    } else if t == "capturar"@ {
        TokenDe::Capturar
    } else if t == "finalmente"@ {
        TokenDe::Finalmente
    } else if t == "lancar"@ {
        TokenDe::Lancar
    } else if t == "escolher"@ {
        TokenDe::Escolher
    } else if t == "caso"@ {
        TokenDe::Caso
    } else if t == "padrao"@ {
        TokenDe::Padrao
    } else if t == "de"@ {
        TokenDe::De
    } else if t == "ate"@ {
        TokenDe::Ate
    } else if t == "passo"@ {
        TokenDe::Passo
    } else if t == "importar"@ {
        TokenDe::Importar
    } else if t == "incluir"@ {
        TokenDe::Incluir
    } else if t == "requerer"@ {
        TokenDe::Requerer
    } else if t == "como"@ {
        TokenDe::Como
    } else {
        TokenDe::Identificador(t)
    }
}

// ---- Tokens -------------------------------------------------------------------

/// O fim dos espacos que comecam em `p`.
pub open spec fn fim_espacos(s: Seq<char>, p: int) -> int
    decreases s.len() - p,
{
    if 0 <= p < s.len() && (s[p] == ' ' || s[p] == '\t' || s[p] == '\r' || s[p] == '\u{feff}') {
        fim_espacos(s, p + 1)
    } else {
        p
    }
}

/// O sinal que comeca em `p`: um token de pontuacao ou um operador.
pub open spec fn sinal_em(s: Seq<char>, p: int) -> Result<(TokenDe<Seq<char>>, int), ErroLexico> {
    let c = s[p];
    let linha = linha_em(s, p) as usize;
    if c == '+' {
        if ha(s, p + 1, '=') {
            Ok((TokenDe::MaisIgual, p + 2))
        } else {
            Ok((TokenDe::Mais, p + 1))
        }
    } else if c == '-' {
        if ha(s, p + 1, '=') {
            Ok((TokenDe::MenosIgual, p + 2))
        } else {
            Ok((TokenDe::Menos, p + 1))
        }
    } else if c == '*' {
        if ha(s, p + 1, '=') {
            Ok((TokenDe::EstrelaIgual, p + 2))
        } else {
            Ok((TokenDe::Estrela, p + 1))
        }
    } else if c == '/' {
        if ha(s, p + 1, '/') {
            Ok((TokenDe::BarraBarra, p + 2))
        } else if ha(s, p + 1, '=') {
            Ok((TokenDe::BarraIgual, p + 2))
        } else {
            Ok((TokenDe::Barra, p + 1))
        }
    } else if c == '%' {
        if ha(s, p + 1, '=') {
            Ok((TokenDe::PercentualIgual, p + 2))
        } else {
            Ok((TokenDe::Percentual, p + 1))
        }
    } else if c == '(' {
        Ok((TokenDe::ParenEsq, p + 1))
    } else if c == ')' {
        Ok((TokenDe::ParenDir, p + 1))
    } else if c == '{' {
        Ok((TokenDe::ChaveEsq, p + 1))
    } else if c == '}' {
        Ok((TokenDe::ChaveDir, p + 1))
    } else if c == '[' {
        Ok((TokenDe::ColcheteEsq, p + 1))
    } else if c == ']' {
        Ok((TokenDe::ColcheteDir, p + 1))
    } else if c == ',' {
        Ok((TokenDe::Virgula, p + 1))
    } else if c == ';' {
        Ok((TokenDe::PontoEVirgula, p + 1))
    } else if c == '.' {
        if ha(s, p + 1, '.') {
            if ha(s, p + 2, '.') {
                Ok((TokenDe::PontoPontoPonto, p + 3))
            } else {
                Err(ErroLexico::PontoPonto { linha })
            }
        } else {
            Ok((TokenDe::Ponto, p + 1))
        }
    } else if c == ':' {
        Ok((TokenDe::DoisPontos, p + 1))
    } else if c == '?' {
        if ha(s, p + 1, '?') {
            Ok((TokenDe::NullCoalescente, p + 2))
        } else if ha(s, p + 1, '.') {
            Ok((TokenDe::PontoOpcional, p + 2))
        } else {
            Err(ErroLexico::Interrogacao { linha })
        }
    } else if c == '=' {
        if ha(s, p + 1, '=') {
            Ok((TokenDe::Igual, p + 2))
        } else if ha(s, p + 1, '>') {
            Ok((TokenDe::Seta, p + 2))
        } else {
            Ok((TokenDe::Atribuicao, p + 1))
        }
    } else if c == '!' {
        if ha(s, p + 1, '=') {
            Ok((TokenDe::DiferenteDe, p + 2))
        } else {
            Err(ErroLexico::Exclamacao { linha })
        }
    } else if c == '<' {
        if ha(s, p + 1, '=') {
            Ok((TokenDe::MenorOuIgual, p + 2))
        } else {
            Ok((TokenDe::MenorQue, p + 1))
        }
    } else if c == '>' {
        if ha(s, p + 1, '=') {
            Ok((TokenDe::MaiorOuIgual, p + 2))
        } else {
            Ok((TokenDe::MaiorQue, p + 1))
        }
    } else {
        Err(ErroLexico::Desconhecido { caractere: c, linha, coluna: coluna_em(s, p) as usize })
    }
}

/// O token que comeca em `p`, onde nao ha espaco nem comentario, e a posicao seguinte.
pub open spec fn token_em(s: Seq<char>, p: int) -> Result<(TokenDe<Seq<char>>, int), ErroLexico> {
    let c = s[p];
    if c == '\n' {
        Ok((TokenDe::NovaLinha, p + 1))
    } else if digito(c) {
        Ok(numero_em(s, p))
    } else if c == '"' || c == '\'' {
        literal_em(s, p)
    } else if alfabetico(c) || c == '_' {
        let q = fim_nome(s, p);
        Ok((palavra(s.subrange(p, q)), q))
    } else {
        sinal_em(s, p)
    }
}

/// O token `t` com a posicao `p`.
pub open spec fn situado(s: Seq<char>, t: TokenDe<Seq<char>>, p: int) -> TokenSituado {
    TokenSituado {
        token: t,
        linha: linha_em(s, p),
        coluna: coluna_em(s, p),
        contexto: contexto_de(s, linha_em(s, p)),
    }
}

/// Os tokens do codigo `s` a partir de `p`, depois dos que ja estao em `acc`. O ultimo
/// e sempre `FimDeArquivo`.
pub open spec fn tokens_em(s: Seq<char>, p: int, acc: Seq<TokenSituado>) -> Result<
    Seq<TokenSituado>,
    ErroLexico,
>
    decreases s.len() - p,
{
    if p < 0 || p > s.len() {
        Ok(acc)
    } else {
        proof {
            lema_fim_espacos(s, p);
        }
        let i = fim_espacos(s, p);
        if i >= s.len() {
            Ok(acc.push(situado(s, TokenDe::FimDeArquivo, i)))
        } else if s[i] == '#' {
            proof {
                texto::lema_proximo(s, '\n', i);
            }
            tokens_em(s, texto::proximo(s, '\n', i), acc)
        } else {
            proof {
                lema_token_avanca(s, i);
            }
            match token_em(s, i) {
                Ok((t, q)) => tokens_em(s, q, acc.push(situado(s, t, i))),
                Err(e) => Err(e),
            }
        }
    }
}

/// Os tokens de um codigo-fonte.
pub open spec fn tokens_de(s: Seq<char>) -> Result<Seq<TokenSituado>, ErroLexico> {
    tokens_em(s, 0, Seq::empty())
}

// ---- Progresso ----------------------------------------------------------------

pub proof fn lema_fim_espacos(s: Seq<char>, p: int)
    requires
        0 <= p <= s.len(),
    ensures
        p <= fim_espacos(s, p) <= s.len(),
    decreases s.len() - p,
{
    if p < s.len() && (s[p] == ' ' || s[p] == '\t' || s[p] == '\r' || s[p] == '\u{feff}') {
        lema_fim_espacos(s, p + 1);
    }
}

pub proof fn lema_fim_hex(s: Seq<char>, p: int)
    requires
        0 <= p <= s.len(),
    ensures
        p <= fim_hex(s, p) <= s.len(),
    decreases s.len() - p,
{
    if p < s.len() && digito_hex(s[p]) {
        lema_fim_hex(s, p + 1);
    }
}

pub proof fn lema_fim_numero(s: Seq<char>, p: int, ponto: bool)
    requires
        0 <= p <= s.len(),
    ensures
        p <= fim_numero(s, p, ponto).0 <= s.len(),
        p < s.len() && digito(s[p]) ==> p < fim_numero(s, p, ponto).0,
    decreases s.len() - p,
{
    if p < s.len() && digito(s[p]) {
        lema_fim_numero(s, p + 1, ponto);
    } else if p < s.len() && s[p] == '.' && !ponto {
        lema_fim_numero(s, p + 1, true);
    }
}

pub proof fn lema_fim_nome(s: Seq<char>, p: int)
    requires
        0 <= p <= s.len(),
    ensures
        p <= fim_nome(s, p) <= s.len(),
        p < s.len() && letra(s[p]) ==> p < fim_nome(s, p),
    decreases s.len() - p,
{
    if p < s.len() && letra(s[p]) {
        lema_fim_nome(s, p + 1);
    }
}

pub proof fn lema_fim_tripla(s: Seq<char>, p: int, d: char)
    requires
        0 <= p <= s.len(),
    ensures
        p <= fim_tripla(s, p, d) <= s.len(),
        fim_tripla(s, p, d) < s.len() ==> tres(s, fim_tripla(s, p, d), d),
    decreases s.len() - p,
{
    if p < s.len() && !tres(s, p, d) {
        lema_fim_tripla(s, p + 1, d);
    }
}

/// O conteudo lido nunca e mais longo do que o trecho de que vem.
pub proof fn lema_texto_em(s: Seq<char>, p: int, d: char, acc: Seq<char>)
    requires
        0 <= p <= s.len(),
    ensures
        match texto_em(s, p, d, acc) {
            Ok((t, q)) => p < q <= s.len() && t.len() - acc.len() <= q - p - 1,
            Err(_) => true,
        },
    decreases s.len() - p,
{
    if p < s.len() && s[p] != d {
        if s[p] == '\\' {
            if p + 1 < s.len() {
                lema_texto_em(s, p + 2, d, acc + escape(s[p + 1]));
            }
        } else {
            lema_texto_em(s, p + 1, d, acc.push(s[p]));
        }
    }
}

/// A soma dos comprimentos das linhas e das quebras entre elas.
pub open spec fn extensao(ls: Seq<Seq<char>>, n: int) -> int
    decreases n,
{
    if n <= 0 {
        0
    } else if n == 1 {
        ls[0].len() as int
    } else {
        extensao(ls, n - 1) + 1 + ls[n - 1].len()
    }
}

pub proof fn lema_corte(s: Seq<char>, i: int, k: int)
    requires
        0 <= i <= s.len(),
        corte(s, i, k) is Some,
    ensures
        i <= corte(s, i, k)->0 <= s.len(),
    decreases s.len() - i,
{
    if k != 0 {
        lema_corte(s, i + 1, k - largura(s[i]));
    }
}

proof fn lema_sem_recuos(ls: Seq<Seq<char>>, k: int, n: int)
    requires
        0 <= n <= ls.len(),
        sem_recuos(ls, k, n) is Some,
    ensures
        sem_recuos(ls, k, n)->0.len() <= extensao(ls, n),
    decreases n,
{
    if n > 0 {
        lema_sem_recuos(ls, k, n - 1);
        let l = ls[n - 1];
        if octetos(l) >= k {
            lema_corte(l, 0, k);
        } else {
            texto::lema_inicio_util(l, 0);
        }
    }
}

proof fn lema_extensao_prefixo(a: Seq<char>, ls: Seq<Seq<char>>, n: int)
    requires
        0 <= n <= ls.len(),
    ensures
        extensao(seq![a] + ls, n + 1) == a.len() + if n == 0 {
            0
        } else {
            extensao(ls, n) + 1
        },
    decreases n,
{
    if n > 0 {
        lema_extensao_prefixo(a, ls, n - 1);
        assert((seq![a] + ls)[n] == ls[n - 1]);
    }
    assert((seq![a] + ls)[0] == a);
}

pub proof fn lema_extensao_linhas(s: Seq<char>, i: int)
    requires
        0 <= i <= s.len(),
    ensures
        extensao(texto::linhas(s, i), texto::linhas(s, i).len() as int) <= s.len() - i,
    decreases s.len() - i,
{
    if i < s.len() {
        texto::lema_proximo(s, '\n', i);
        let f = texto::proximo(s, '\n', i);
        if f >= s.len() {
            assert(texto::linhas(s, i)[0] == s.subrange(i, s.len() as int));
        } else {
            lema_extensao_linhas(s, f + 1);
            let a = texto::sem_retorno(s.subrange(i, f));
            let r = texto::linhas(s, f + 1);
            lema_extensao_prefixo(a, r, r.len() as int);
        }
    }
}

proof fn lema_fim_sem_quebras(s: Seq<char>, f: int)
    requires
        0 <= f <= s.len(),
    ensures
        0 <= fim_sem_quebras(s, f) <= f,
    decreases f,
{
    if f > 0 && (s[f - 1] == '\n' || s[f - 1] == ' ') {
        lema_fim_sem_quebras(s, f - 1);
    }
}

/// Tirar a indentacao nunca alonga o texto.
pub proof fn lema_dedentado(s: Seq<char>)
    ensures
        dedentado(s) is Some ==> dedentado(s)->0.len() <= s.len(),
{
    let b = sem_quebra_inicial(s);
    let ls = texto::linhas(b, 0);
    lema_extensao_linhas(b, 0);
    if ls.len() > 0 {
        let k = match recuo_minimo(ls, ls.len() as int) {
            Some(k) => k,
            None => 0,
        };
        if sem_recuos(ls, k, ls.len() as int) is Some {
            lema_sem_recuos(ls, k, ls.len() as int);
            let r = sem_recuos(ls, k, ls.len() as int)->0;
            lema_fim_sem_quebras(r, r.len() as int);
        }
    }
}

/// Todo token consome ao menos um caractere, e um texto e ao menos dois caracteres mais
/// curto do que o trecho de que vem.
pub proof fn lema_token_avanca(s: Seq<char>, p: int)
    requires
        0 <= p < s.len(),
    ensures
        match token_em(s, p) {
            Ok((t, q)) => {
                &&& p < q <= s.len()
                &&& t matches TokenDe::Texto(x) ==> x.len() + 2 <= q - p
                &&& !(t is FimDeArquivo)
            },
            Err(_) => true,
        },
{
    let c = s[p];
    if c == '\n' {
    } else if digito(c) {
        if ha(s, p + 1, 'x') || ha(s, p + 1, 'X') {
            lema_fim_hex(s, p + 2);
        }
        lema_fim_numero(s, p, false);
    } else if c == '"' || c == '\'' {
        if tres(s, p, c) {
            lema_fim_tripla(s, p + 3, c);
            let q = fim_tripla(s, p + 3, c);
            if q < s.len() {
                lema_dedentado(s.subrange(p + 3, q));
            }
        } else {
            lema_texto_em(s, p + 1, c, Seq::empty());
        }
    } else if alfabetico(c) || c == '_' {
        lema_fim_nome(s, p);
    }
}

// ---- O analisador ---------------------------------------------------------------

/// O analisador lexico: o codigo, a posicao corrente e as linhas do codigo.
pub struct Lexer {
    fonte: Vec<char>,
    pos: usize,
    pub linha: usize,
    coluna: usize,
    linhas_fonte: Vec<String>,
}

/// A palavra-chave que o nome e, ou o identificador.
fn classificar(s: String) -> (r: Token)
    ensures
        r@ == palavra(s@),
{
    let t = s.as_str();
    if t.eq("var") {
        TokenDe::Var
    } else if t.eq("se") {
        TokenDe::Se
    } else if t.eq("senao") {
        TokenDe::Senao
    } else if t.eq("enquanto") {
        TokenDe::Enquanto
    } else if t.eq("para") {
        TokenDe::Para
    } else if t.eq("em") {
        TokenDe::Em
    } else if t.eq("funcao") {
        TokenDe::Funcao
    } else if t.eq("retornar") {
        TokenDe::Retornar
    } else if t.eq("imprimir") {
        TokenDe::Imprimir
    } else if t.eq("verdadeiro") {
        TokenDe::Verdadeiro
    } else if t.eq("falso") {
        TokenDe::Falso
    } else if t.eq("nulo") {
        TokenDe::Nulo
    } else if t.eq("e") {
        TokenDe::E
    } else if t.eq("ou") {
        TokenDe::Ou
    } else if t.eq("nao") {
        TokenDe::Nao
    } else if t.eq("pare") {
        TokenDe::Pare
    } else if t.eq("continue") {
        TokenDe::Continue
    } else if t.eq("tentar") {
        TokenDe::Tentar
    } else if t.eq("capturar") {
        TokenDe::Capturar
    } else if t.eq("finalmente") {
        TokenDe::Finalmente
    } else if t.eq("lancar") {
        TokenDe::Lancar
    } else if t.eq("escolher") {
        TokenDe::Escolher
    } else if t.eq("caso") {
        TokenDe::Caso
    } else if t.eq("padrao") {
        TokenDe::Padrao
    } else if t.eq("de") {
        TokenDe::De
    } else if t.eq("ate") {
        TokenDe::Ate
    } else if t.eq("passo") {
        TokenDe::Passo
    } else if t.eq("importar") {
        TokenDe::Importar
    } else if t.eq("incluir") {
        TokenDe::Incluir
    } else if t.eq("requerer") {
        TokenDe::Requerer
    } else if t.eq("como") {
        TokenDe::Como
    } else {
        TokenDe::Identificador(s)
    }
}

fn eh_digito(c: char) -> (r: bool)
    ensures
        r == digito(c),
{
    '0' <= c && c <= '9'
}

fn eh_digito_hex(c: char) -> (r: bool)
    ensures
        r == digito_hex(c),
{
    eh_digito(c) || ('a' <= c && c <= 'f') || ('A' <= c && c <= 'F')
}

/// O valor de um algarismo.
pub(crate) fn valor_de(c: char) -> (r: u64)
    requires
        digito_hex(c),
    ensures
        r == valor_digito(c),
        r < 16,
        digito(c) ==> r < 10,
{
    let n: u32 = c as u32;
    if eh_digito(c) {
        (n - 48) as u64
    } else if 'a' <= c && c <= 'f' {
        (n - 87) as u64
    } else {
        (n - 55) as u64
    }
}

proof fn lema_valor_cresce(s: Seq<char>, base: int)
    requires
        base == 10 || base == 16,
        s.len() > 0,
        digito_hex(s.last()),
        0 <= valor(s.drop_last(), base),
    ensures
        valor(s, base) >= valor(s.drop_last(), base),
{
}

/// O inteiro que os algarismos representam, ou zero se nao ha algarismos ou se ele nao
/// cabe em 64 bits com sinal.
fn ler_inteiro(s: &[char], base: u64) -> (r: i64)
    requires
        base == 10 || base == 16,
        forall|k: int| 0 <= k < s@.len() ==> #[trigger] digito_hex(s@[k]),
    ensures
        r == inteiro_lido(s@, base as int),
{
    let limite: u64 = 0x7fff_ffff_ffff_ffff;
    let mut acc: u64 = 0;
    let mut cabe = true;
    let mut i: usize = 0;
    while i < s.len()
        invariant
            i <= s@.len(),
            base == 10 || base == 16,
            limite == i64::MAX,
            forall|k: int| 0 <= k < s@.len() ==> #[trigger] digito_hex(s@[k]),
            valor(s@.take(i as int), base as int) >= 0,
            cabe ==> acc <= limite && acc == valor(s@.take(i as int), base as int),
            !cabe ==> valor(s@.take(i as int), base as int) > i64::MAX,
        decreases s@.len() - i,
    {
        assert(digito_hex(s@[i as int]));
        let d = valor_de(s[i]);
        proof {
            assert(s@.take(i + 1).drop_last() == s@.take(i as int));
            assert(s@.take(i + 1).last() == s@[i as int]);
            lema_valor_cresce(s@.take(i + 1), base as int);
        }
        if cabe {
            if base == 10 {
                if acc > (limite - d) / 10 {
                    cabe = false;
                } else {
                    acc = acc * 10 + d;
                }
            } else if acc > (limite - d) / 16 {
                cabe = false;
            } else {
                acc = acc * 16 + d;
            }
        }
        i += 1;
    }
    assert(s@.take(s@.len() as int) == s@);
    if cabe {
        acc as i64
    } else {
        0
    }
}

/// Quantos bytes o caractere ocupa em UTF-8.
pub(crate) fn largura_de(c: char) -> (r: usize)
    ensures
        r == largura(c),
        1 <= r <= 4,
{
    let n: u32 = c as u32;
    if n < 0x80 {
        1
    } else if n < 0x800 {
        2
    } else if n < 0x10000 {
        3
    } else {
        4
    }
}

pub proof fn lema_octetos(s: Seq<char>)
    ensures
        s.len() <= octetos(s) <= 4 * s.len(),
    decreases s.len(),
{
    if s.len() > 0 {
        lema_octetos(s.drop_last());
    }
}

/// Quantos bytes os primeiros `n` caracteres ocupam.
fn contar_octetos(s: &[char], n: usize) -> (r: usize)
    requires
        n <= s@.len(),
        4 * s@.len() <= usize::MAX,
    ensures
        r == octetos(s@.take(n as int)),
{
    let mut total: usize = 0;
    let mut i: usize = 0;
    assert(octetos(s@.take(0)) == 0);
    while i < n
        invariant
            i <= n <= s@.len(),
            4 * s@.len() <= usize::MAX,
            total == octetos(s@.take(i as int)),
        decreases n - i,
    {
        proof {
            lema_octetos(s@.take(i as int));
            assert(s@.take(i + 1).drop_last() == s@.take(i as int));
        }
        total += largura_de(s[i]);
        i += 1;
    }
    total
}

/// Quantos caracteres iniciais somam exatamente `k` bytes.
fn cortar_em(s: &[char], k: usize) -> (r: Option<usize>)
    ensures
        match r {
            Some(i) => i <= s@.len() && corte(s@, 0, k as int) == Some(i as int),
            None => corte(s@, 0, k as int) is None,
        },
{
    let mut i: usize = 0;
    let mut falta: usize = k;
    loop
        invariant
            i <= s@.len(),
            corte(s@, 0, k as int) == corte(s@, i as int, falta as int),
        decreases s@.len() - i,
    {
        if falta == 0 {
            return Some(i);
        }
        if i >= s.len() {
            return None;
        }
        let l = largura_de(s[i]);
        if l > falta {
            assert(corte(s@, i + 1, falta - l) is None);
            return None;
        }
        falta -= l;
        i += 1;
    }
}

/// Remove a quebra inicial, a indentacao comum e os espacos finais de um texto triplo.
pub fn dedent_tripla(s: &[char]) -> (r: Option<String>)
    requires
        4 * s@.len() <= usize::MAX,
    ensures
        match r {
            Some(t) => dedentado(s@) == Some(t@),
            None => dedentado(s@) is None,
        },
{
    let n: usize = s.len();
    let i: usize = if n > 0 && s[0] == '\n' {
        1
    } else {
        0
    };
    let i2: usize = if n - i >= 2 && s[i] == '\r' && s[i + 1] == '\n' {
        i + 2
    } else {
        i
    };
    let b = vstd::slice::slice_subrange(s, i2, n);
    assert(b@ == sem_quebra_inicial(s@));
    let ls = texto::separar_linhas(b);
    let ghost lv = texto::textos(ls@);
    if ls.len() == 0 {
        return Some(texto::de_caracteres(b));
    }
    proof {
        texto::lema_comprimento_linhas(b@, 0);
    }
    let mut minimo: Option<usize> = None;
    let mut j: usize = 0;
    while j < ls.len()
        invariant
            j <= ls@.len(),
            lv == texto::textos(ls@),
            4 * b@.len() <= usize::MAX,
            forall|k: int| 0 <= k < lv.len() ==> #[trigger] lv[k].len() <= b@.len(),
            match minimo {
                Some(m) => recuo_minimo(lv, j as int) == Some(m as int),
                None => recuo_minimo(lv, j as int) is None,
            },
        decreases ls@.len() - j,
    {
        let l = texto::caracteres(ls[j].as_str());
        assert(l@ == lv[j as int]);
        let u = texto::pular_brancos(l.as_slice());
        if u < l.len() {
            let k = contar_octetos(l.as_slice(), u);
            minimo = match minimo {
                Some(m) if m <= k => Some(m),
                _ => Some(k),
            };
        }
        j += 1;
    }
    let k: usize = match minimo {
        Some(m) => m,
        None => 0,
    };
    let mut acc: Vec<char> = Vec::new();
    let mut j: usize = 0;
    while j < ls.len()
        invariant
            j <= ls@.len(),
            lv == texto::textos(ls@),
            4 * b@.len() <= usize::MAX,
            forall|k: int| 0 <= k < lv.len() ==> #[trigger] lv[k].len() <= b@.len(),
            sem_recuos(lv, k as int, j as int) == Some(acc@),
            b@ == sem_quebra_inicial(s@),
            lv == texto::linhas(b@, 0),
            lv.len() > 0,
            k as int == match recuo_minimo(lv, lv.len() as int) {
                Some(m) => m,
                None => 0,
            },
        decreases ls@.len() - j,
    {
        let l = texto::caracteres(ls[j].as_str());
        assert(l@ == lv[j as int]);
        let total = contar_octetos(l.as_slice(), l.len());
        assert(l@.take(l@.len() as int) == l@);
        let resto: Vec<char>;
        if total >= k {
            match cortar_em(l.as_slice(), k) {
                Some(c) => {
                    resto = vstd::slice::slice_to_vec(vstd::slice::slice_subrange(l.as_slice(), c, l.len()));
                    assert(resto@ == l@.skip(c as int));
                },
                None => {
                    proof {
                        lema_sem_recuos_falha(lv, k as int, j as int, lv.len() as int);
                    }
                    return None;
                },
            }
        } else {
            resto = vstd::slice::slice_to_vec(texto::aparar_inicio(l.as_slice()));
        }
        assert(sem_recuo(lv[j as int], k as int) == Some(resto@));
        if j == 0 {
            acc = resto;
        } else {
            let mut r = resto;
            acc.push('\n');
            acc.append(&mut r);
        }
        j += 1;
    }
    let mut f: usize = acc.len();
    while f > 0 && (acc[f - 1] == '\n' || acc[f - 1] == ' ')
        invariant
            f <= acc@.len(),
            fim_sem_quebras(acc@, acc@.len() as int) == fim_sem_quebras(acc@, f as int),
        decreases f,
    {
        f -= 1;
    }
    Some(texto::de_caracteres(vstd::slice::slice_subrange(acc.as_slice(), 0, f)))
}

proof fn lema_sem_recuos_falha(ls: Seq<Seq<char>>, k: int, j: int, n: int)
    requires
        0 <= j < n <= ls.len(),
        sem_recuo(ls[j], k) is None,
    ensures
        sem_recuos(ls, k, n) is None,
    decreases n,
{
    if n - 1 > j {
        lema_sem_recuos_falha(ls, k, j, n - 1);
    }
}

impl Lexer {
    /// O codigo que o analisador le.
    pub closed spec fn codigo(&self) -> Seq<char> {
        self.fonte@
    }

    /// A posicao corrente.
    pub closed spec fn posicao(&self) -> int {
        self.pos as int
    }

    /// A linha da posicao corrente.
    pub closed spec fn linha_corrente(&self) -> int {
        self.linha as int
    }

    /// A linha e a coluna sao as da posicao corrente, e as linhas sao as do codigo.
    pub closed spec fn bem_formado(&self) -> bool {
        &&& self.pos <= self.fonte@.len()
        &&& 4 * self.fonte@.len() < usize::MAX
        &&& self.linha == linha_em(self.fonte@, self.pos as int)
        &&& self.coluna == coluna_em(self.fonte@, self.pos as int)
        &&& texto::textos(self.linhas_fonte@) == texto::linhas(self.fonte@, 0)
    }

    /// Um analisador no inicio do codigo.
    pub fn novo(codigo: &str) -> (r: Self)
        requires
            4 * codigo@.len() < usize::MAX,
        ensures
            r.bem_formado(),
            r.codigo() == codigo@,
            r.posicao() == 0,
            r.linha_corrente() == 1,
    {
        let fonte = texto::caracteres(codigo);
        let linhas_fonte = texto::separar_linhas(fonte.as_slice());
        Lexer { fonte, pos: 0, linha: 1, coluna: 1, linhas_fonte }
    }

    /// O texto da linha dada, vazio se ela nao existe.
    fn contexto(&self, linha: usize) -> (r: String)
        requires
            self.bem_formado(),
        ensures
            r@ == contexto_de(self.fonte@, linha as int),
    {
        let i: usize = if linha >= 1 {
            linha - 1
        } else {
            0
        };
        if i < self.linhas_fonte.len() {
            proof {
                assert(texto::textos(self.linhas_fonte@)[i as int] == self.linhas_fonte@[i as int]@);
            }
            self.linhas_fonte[i].clone()
        } else {
            String::new()
        }
    }

    fn atual(&self) -> (r: Option<char>)
        ensures
            r == if self.pos < self.fonte@.len() {
                Some(self.fonte@[self.pos as int])
            } else {
                None
            },
    {
        if self.pos < self.fonte.len() {
            Some(self.fonte[self.pos])
        } else {
            None
        }
    }

    /// Se o caractere `k` posicoes adiante e `c`.
    fn adiante(&self, k: usize, c: char) -> (r: bool)
        requires
            self.bem_formado(),
            k <= 2,
        ensures
            r == ha(self.fonte@, self.pos + k, c),
    {
        let n = self.fonte.len();
        n - self.pos > k && self.fonte[self.pos + k] == c
    }

    /// Passa ao caractere seguinte.
    fn avancar(&mut self) -> (c: char)
        requires
            old(self).bem_formado(),
            old(self).pos < old(self).fonte@.len(),
        ensures
            final(self).bem_formado(),
            final(self).fonte@ == old(self).fonte@,
            final(self).pos == old(self).pos + 1,
            c == old(self).fonte@[old(self).pos as int],
    {
        proof {
            lema_posicao(self.fonte@, self.pos as int);
        }
        let c = self.fonte[self.pos];
        self.pos += 1;
        if c == '\n' {
            self.linha += 1;
            self.coluna = 1;
        } else {
            self.coluna += 1;
        }
        c
    }

    /// Passa `k` caracteres adiante.
    fn avancar_varios(&mut self, k: usize)
        requires
            old(self).bem_formado(),
            old(self).pos + k <= old(self).fonte@.len(),
        ensures
            final(self).bem_formado(),
            final(self).fonte@ == old(self).fonte@,
            final(self).pos == old(self).pos + k,
        decreases k,
    {
        if k > 0 {
            self.avancar();
            self.avancar_varios(k - 1);
        }
    }

    fn pular_espacos(&mut self)
        requires
            old(self).bem_formado(),
        ensures
            final(self).bem_formado(),
            final(self).fonte@ == old(self).fonte@,
            final(self).pos == fim_espacos(old(self).fonte@, old(self).pos as int),
    {
        let ghost s = self.fonte@;
        let ghost p = self.pos as int;
        while matches!(self.atual(), Some(' ') | Some('\t') | Some('\r') | Some('\u{feff}'))
            invariant
                self.bem_formado(),
                self.fonte@ == s,
                fim_espacos(s, p) == fim_espacos(s, self.pos as int),
            decreases s.len() - self.pos,
        {
            self.avancar();
        }
    }

    /// Salta o comentario que comeca na posicao corrente.
    fn pular_comentario(&mut self)
        requires
            old(self).bem_formado(),
        ensures
            final(self).bem_formado(),
            final(self).fonte@ == old(self).fonte@,
            final(self).pos == texto::proximo(old(self).fonte@, '\n', old(self).pos as int),
    {
        let ghost s = self.fonte@;
        let ghost p = self.pos as int;
        while self.pos < self.fonte.len() && self.fonte[self.pos] != '\n'
            invariant
                self.bem_formado(),
                self.fonte@ == s,
                texto::proximo(s, '\n', p) == texto::proximo(s, '\n', self.pos as int),
            decreases s.len() - self.pos,
        {
            self.avancar();
        }
    }

    fn ler_numero(&mut self) -> (r: Token)
        requires
            old(self).bem_formado(),
            old(self).pos < old(self).fonte@.len(),
        ensures
            final(self).bem_formado(),
            final(self).fonte@ == old(self).fonte@,
            numero_em(old(self).fonte@, old(self).pos as int) == (r@, final(self).pos as int),
    {
        let ghost s = self.fonte@;
        let ghost p = self.pos as int;
        if self.adiante(0, '0') && (self.adiante(1, 'x') || self.adiante(1, 'X')) {
            self.avancar();
            self.avancar();
            let ini = self.pos;
            while self.pos < self.fonte.len() && eh_digito_hex(self.fonte[self.pos])
                invariant
                    self.bem_formado(),
                    self.fonte@ == s,
                    ini == p + 2,
                    ini <= self.pos,
                    fim_hex(s, p + 2) == fim_hex(s, self.pos as int),
                    forall|k: int| ini <= k < self.pos ==> #[trigger] digito_hex(s[k]),
                decreases s.len() - self.pos,
            {
                self.avancar();
            }
            let lexema = vstd::slice::slice_subrange(self.fonte.as_slice(), ini, self.pos);
            assert forall|k: int| 0 <= k < lexema@.len() implies #[trigger] digito_hex(lexema@[k]) by {
                assert(digito_hex(s[ini + k]));
            }
            return TokenDe::Inteiro(ler_inteiro(lexema, 16));
        }
        let ini = self.pos;
        let mut tem_ponto = false;
        loop
            invariant
                self.bem_formado(),
                self.fonte@ == s,
                ini == p,
                ini <= self.pos,
                fim_numero(s, p, false) == fim_numero(s, self.pos as int, tem_ponto),
                !tem_ponto ==> forall|k: int| ini <= k < self.pos ==> #[trigger] digito(s[k]),
            ensures
                self.bem_formado(),
                self.fonte@ == s,
                ini == p,
                ini <= self.pos,
                fim_numero(s, p, false) == (self.pos as int, tem_ponto),
                !tem_ponto ==> forall|k: int| ini <= k < self.pos ==> #[trigger] digito(s[k]),
            decreases s.len() - self.pos,
        {
            if self.pos < self.fonte.len() && eh_digito(self.fonte[self.pos]) {
                self.avancar();
            } else if self.pos < self.fonte.len() && self.fonte[self.pos] == '.' && !tem_ponto {
                tem_ponto = true;
                self.avancar();
            } else {
                break;
            }
        }
        let lexema = vstd::slice::slice_subrange(self.fonte.as_slice(), ini, self.pos);
        if tem_ponto {
            TokenDe::Numero(texto::de_caracteres(lexema))
        } else {
            assert forall|k: int| 0 <= k < lexema@.len() implies #[trigger] digito_hex(lexema@[k]) by {
                assert(digito(s[ini + k]));
            }
            TokenDe::Inteiro(ler_inteiro(lexema, 10))
        }
    }

    fn ler_texto_ou_tripla(&mut self) -> (r: Result<Token, ErroLexico>)
        requires
            old(self).bem_formado(),
            old(self).pos < old(self).fonte@.len(),
        ensures
            final(self).bem_formado(),
            final(self).fonte@ == old(self).fonte@,
            match r {
                Ok(t) => literal_em(old(self).fonte@, old(self).pos as int) == Ok::<
                    (TokenDe<Seq<char>>, int),
                    ErroLexico,
                >((t@, final(self).pos as int)),
                Err(e) => literal_em(old(self).fonte@, old(self).pos as int) == Err::<
                    (TokenDe<Seq<char>>, int),
                    ErroLexico,
                >(e),
            },
    {
        let d = self.fonte[self.pos];
        if self.adiante(0, d) && self.adiante(1, d) && self.adiante(2, d) {
            self.avancar_varios(3);
            self.ler_texto_tripla(d)
        } else {
            self.ler_texto()
        }
    }

    /// Le o conteudo de um texto triplo, com as tres aspas iniciais ja lidas.
    fn ler_texto_tripla(&mut self, delimitador: char) -> (r: Result<Token, ErroLexico>)
        requires
            old(self).bem_formado(),
            old(self).pos >= 3,
            tres(old(self).fonte@, old(self).pos - 3, delimitador),
        ensures
            final(self).bem_formado(),
            final(self).fonte@ == old(self).fonte@,
            match r {
                Ok(t) => literal_em(old(self).fonte@, old(self).pos - 3) == Ok::<
                    (TokenDe<Seq<char>>, int),
                    ErroLexico,
                >((t@, final(self).pos as int)),
                Err(e) => literal_em(old(self).fonte@, old(self).pos - 3) == Err::<
                    (TokenDe<Seq<char>>, int),
                    ErroLexico,
                >(e),
            },
    {
        let ghost s = self.fonte@;
        let ini = self.pos;
        while !(self.adiante(0, delimitador) && self.adiante(1, delimitador) && self.adiante(
            2,
            delimitador,
        ))
            invariant
                self.bem_formado(),
                self.fonte@ == s,
                s == old(self).fonte@,
                ini == old(self).pos,
                ini <= self.pos,
                ini >= 3,
                tres(s, ini - 3, delimitador),
                fim_tripla(s, ini as int, delimitador) == fim_tripla(s, self.pos as int, delimitador),
            decreases s.len() - self.pos,
        {
            if self.pos >= self.fonte.len() {
                return Err(ErroLexico::TriplaAberta { linha: self.linha });
            }
            self.avancar();
        }
        let fim = self.pos;
        self.avancar_varios(3);
        match dedent_tripla(vstd::slice::slice_subrange(self.fonte.as_slice(), ini, fim)) {
            Some(t) => Ok(TokenDe::Texto(t)),
            None => Err(ErroLexico::RecuoPartido { linha: self.linha }),
        }
    }

    /// Le um texto entre aspas simples ou duplas.
    fn ler_texto(&mut self) -> (r: Result<Token, ErroLexico>)
        requires
            old(self).bem_formado(),
            old(self).pos < old(self).fonte@.len(),
            !tres(
                old(self).fonte@,
                old(self).pos as int,
                old(self).fonte@[old(self).pos as int],
            ),
        ensures
            final(self).bem_formado(),
            final(self).fonte@ == old(self).fonte@,
            match r {
                Ok(t) => literal_em(old(self).fonte@, old(self).pos as int) == Ok::<
                    (TokenDe<Seq<char>>, int),
                    ErroLexico,
                >((t@, final(self).pos as int)),
                Err(e) => literal_em(old(self).fonte@, old(self).pos as int) == Err::<
                    (TokenDe<Seq<char>>, int),
                    ErroLexico,
                >(e),
            },
    {
        let ghost f = self.fonte@;
        let ghost p = self.pos as int;
        let d = self.avancar();
        let mut s = String::new();
        loop
            invariant_except_break
                texto_em(f, p + 1, d, Seq::empty()) == texto_em(f, self.pos as int, d, s@),
            invariant
                self.bem_formado(),
                self.fonte@ == f,
                f == old(self).fonte@,
                p == old(self).pos,
                0 <= p < f.len(),
                d == f[p],
                !tres(f, p, d),
            ensures
                texto_em(f, p + 1, d, Seq::empty()) == Ok::<(Seq<char>, int), ErroLexico>(
                    (s@, self.pos as int),
                ),
            decreases f.len() - self.pos,
        {
            if self.pos >= self.fonte.len() {
                return Err(ErroLexico::TextoAberto { linha: self.linha });
            }
            let c = self.avancar();
            if c == d {
                break;
            }
            if c == '\\' {
                if self.pos >= self.fonte.len() {
                    return Err(ErroLexico::EscapeIncompleto);
                }
                let ghost antes = s@;
                let e = self.avancar();
                if e == 'n' {
                    s.push('\n');
                } else if e == 't' {
                    s.push('\t');
                } else if e == '"' || e == '\\' || e == '\'' || e == '{' || e == '}' {
                    s.push(e);
                } else {
                    s.push('\\');
                    s.push(e);
                }
                assert(s@ == antes + escape(e));
            } else {
                s.push(c);
            }
        }
        Ok(TokenDe::Texto(s))
    }

    fn ler_identificador(&mut self) -> (r: Token)
        requires
            old(self).bem_formado(),
        ensures
            final(self).bem_formado(),
            final(self).fonte@ == old(self).fonte@,
            final(self).pos == fim_nome(old(self).fonte@, old(self).pos as int),
            r@ == palavra(old(self).fonte@.subrange(old(self).pos as int, final(self).pos as int)),
    {
        let ghost s = self.fonte@;
        let ini = self.pos;
        while self.pos < self.fonte.len() && (eh_alfabetico(self.fonte[self.pos])
            || self.fonte[self.pos] == '_' || eh_digito(self.fonte[self.pos]))
            invariant
                self.bem_formado(),
                self.fonte@ == s,
                ini <= self.pos,
                fim_nome(s, ini as int) == fim_nome(s, self.pos as int),
            decreases s.len() - self.pos,
        {
            self.avancar();
        }
        classificar(
            texto::de_caracteres(vstd::slice::slice_subrange(self.fonte.as_slice(), ini, self.pos)),
        )
    }

    /// Le um sinal de pontuacao ou um operador.
    fn ler_sinal(&mut self) -> (r: Result<Token, ErroLexico>)
        requires
            old(self).bem_formado(),
            old(self).pos < old(self).fonte@.len(),
        ensures
            final(self).bem_formado(),
            final(self).fonte@ == old(self).fonte@,
            match r {
                Ok(t) => sinal_em(old(self).fonte@, old(self).pos as int) == Ok::<
                    (TokenDe<Seq<char>>, int),
                    ErroLexico,
                >((t@, final(self).pos as int)),
                Err(e) => sinal_em(old(self).fonte@, old(self).pos as int) == Err::<
                    (TokenDe<Seq<char>>, int),
                    ErroLexico,
                >(e),
            },
    {
        let linha = self.linha;
        let c = self.fonte[self.pos];
        let igual = self.adiante(1, '=');
        let (t, k): (Token, usize) = match c {
            '+' => if igual {
                (TokenDe::MaisIgual, 2)
            } else {
                (TokenDe::Mais, 1)
            },
            '-' => if igual {
                (TokenDe::MenosIgual, 2)
            } else {
                (TokenDe::Menos, 1)
            },
            '*' => if igual {
                (TokenDe::EstrelaIgual, 2)
            } else {
                (TokenDe::Estrela, 1)
            },
            '/' => if self.adiante(1, '/') {
                (TokenDe::BarraBarra, 2)
            } else if igual {
                (TokenDe::BarraIgual, 2)
            } else {
                (TokenDe::Barra, 1)
            },
            '%' => if igual {
                (TokenDe::PercentualIgual, 2)
            } else {
                (TokenDe::Percentual, 1)
            },
            '(' => (TokenDe::ParenEsq, 1),
            ')' => (TokenDe::ParenDir, 1),
            '{' => (TokenDe::ChaveEsq, 1),
            '}' => (TokenDe::ChaveDir, 1),
            '[' => (TokenDe::ColcheteEsq, 1),
            ']' => (TokenDe::ColcheteDir, 1),
            ',' => (TokenDe::Virgula, 1),
            ';' => (TokenDe::PontoEVirgula, 1),
            '.' => if self.adiante(1, '.') {
                if self.adiante(2, '.') {
                    (TokenDe::PontoPontoPonto, 3)
                } else {
                    return Err(ErroLexico::PontoPonto { linha });
                }
            } else {
                (TokenDe::Ponto, 1)
            },
            ':' => (TokenDe::DoisPontos, 1),
            '?' => if self.adiante(1, '?') {
                (TokenDe::NullCoalescente, 2)
            } else if self.adiante(1, '.') {
                (TokenDe::PontoOpcional, 2)
            } else {
                return Err(ErroLexico::Interrogacao { linha });
            },
            '=' => if igual {
                (TokenDe::Igual, 2)
            } else if self.adiante(1, '>') {
                (TokenDe::Seta, 2)
            } else {
                (TokenDe::Atribuicao, 1)
            },
            '!' => if igual {
                (TokenDe::DiferenteDe, 2)
            } else {
                return Err(ErroLexico::Exclamacao { linha });
            },
            '<' => if igual {
                (TokenDe::MenorOuIgual, 2)
            } else {
                (TokenDe::MenorQue, 1)
            },
            '>' => if igual {
                (TokenDe::MaiorOuIgual, 2)
            } else {
                (TokenDe::MaiorQue, 1)
            },
            _ => {
                return Err(ErroLexico::Desconhecido { caractere: c, linha, coluna: self.coluna });
            },
        };
        self.avancar_varios(k);
        Ok(t)
    }

    /// Le o token que comeca na posicao corrente, onde nao ha espaco nem comentario.
    fn ler_token(&mut self) -> (r: Result<Token, ErroLexico>)
        requires
            old(self).bem_formado(),
            old(self).pos < old(self).fonte@.len(),
        ensures
            final(self).bem_formado(),
            final(self).fonte@ == old(self).fonte@,
            match r {
                Ok(t) => token_em(old(self).fonte@, old(self).pos as int) == Ok::<
                    (TokenDe<Seq<char>>, int),
                    ErroLexico,
                >((t@, final(self).pos as int)),
                Err(e) => token_em(old(self).fonte@, old(self).pos as int) == Err::<
                    (TokenDe<Seq<char>>, int),
                    ErroLexico,
                >(e),
            },
    {
        let c = self.fonte[self.pos];
        if c == '\n' {
            self.avancar();
            Ok(TokenDe::NovaLinha)
        } else if eh_digito(c) {
            Ok(self.ler_numero())
        } else if c == '"' || c == '\'' {
            self.ler_texto_ou_tripla()
        } else if eh_alfabetico(c) || c == '_' {
            Ok(self.ler_identificador())
        } else {
            self.ler_sinal()
        }
    }

    /// Divide o codigo, a partir da posicao corrente, em tokens. O ultimo e
    /// `FimDeArquivo`.
    pub fn tokenizar(&mut self) -> (r: Result<Vec<TokenComPosicao>, ErroLexico>)
        requires
            old(self).bem_formado(),
        ensures
            final(self).bem_formado(),
            final(self).codigo() == old(self).codigo(),
            r is Ok ==> final(self).posicao() == old(self).codigo().len(),
            match r {
                Ok(v) => tokens_em(old(self).codigo(), old(self).posicao(), Seq::empty()) == Ok::<
                    Seq<TokenSituado>,
                    ErroLexico,
                >(crate::token::situados(v@)),
                Err(e) => tokens_em(old(self).codigo(), old(self).posicao(), Seq::empty()) == Err::<
                    Seq<TokenSituado>,
                    ErroLexico,
                >(e),
            },
    {
        let ghost s = self.fonte@;
        let ghost p0 = self.pos as int;
        let mut tokens: Vec<TokenComPosicao> = Vec::new();
        assert(crate::token::situados(tokens@) == Seq::<TokenSituado>::empty());
        loop
            invariant
                self.bem_formado(),
                self.fonte@ == s,
                s == old(self).codigo(),
                p0 == old(self).posicao(),
                tokens_em(s, p0, Seq::empty()) == tokens_em(s, self.pos as int, crate::token::situados(tokens@)),
            decreases s.len() - self.pos,
        {
            let ghost p = self.pos as int;
            proof {
                lema_fim_espacos(s, p);
            }
            self.pular_espacos();
            let ghost i = self.pos as int;
            let linha = self.linha;
            let coluna = self.coluna;
            let ghost antes = tokens@;
            if self.pos >= self.fonte.len() {
                let contexto = self.contexto(linha);
                tokens.push(
                    TokenComPosicao { token: TokenDe::FimDeArquivo, linha, coluna, contexto },
                );
                assert(crate::token::situados(tokens@) == crate::token::situados(antes).push(situado(s, TokenDe::FimDeArquivo, i)));
                return Ok(tokens);
            }
            if self.fonte[self.pos] == '#' {
                proof {
                    texto::lema_proximo(s, '\n', i);
                }
                self.pular_comentario();
                continue;
            }
            proof {
                lema_token_avanca(s, i);
            }
            match self.ler_token() {
                Ok(token) => {
                    let contexto = self.contexto(linha);
                    tokens.push(TokenComPosicao { token, linha, coluna, contexto });
                    assert(crate::token::situados(tokens@) == crate::token::situados(antes).push(situado(s, token@, i)));
                },
                Err(e) => {
                    return Err(e);
                },
            }
        }
    }
}

} // verus!
