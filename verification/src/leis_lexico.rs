//! Leis da analise lexica: escrever um token e le-lo de volta da o mesmo token.

use vstd::prelude::*;
use crate::lexer;
use crate::lexer::ErroLexico;
use crate::texto;
use crate::token::{TokenDe, TokenSituado};

verus! {

/// Leu-se o token `t`, e o que se segue esta em `q`.
pub open spec fn lido(t: TokenDe<Seq<char>>, q: int) -> Result<(TokenDe<Seq<char>>, int), ErroLexico> {
    Ok((t, q))
}

/// O sinal com que se escreve um token.
pub open spec fn sinal(t: TokenDe<Seq<char>>) -> Option<Seq<char>> {
    match t {
        TokenDe::Mais => Some(seq!['+']),
        TokenDe::Menos => Some(seq!['-']),
        TokenDe::Estrela => Some(seq!['*']),
        TokenDe::Barra => Some(seq!['/']),
        TokenDe::BarraBarra => Some(seq!['/', '/']),
        TokenDe::Percentual => Some(seq!['%']),
        TokenDe::MaisIgual => Some(seq!['+', '=']),
        TokenDe::MenosIgual => Some(seq!['-', '=']),
        TokenDe::EstrelaIgual => Some(seq!['*', '=']),
        TokenDe::BarraIgual => Some(seq!['/', '=']),
        TokenDe::PercentualIgual => Some(seq!['%', '=']),
        TokenDe::Igual => Some(seq!['=', '=']),
        TokenDe::DiferenteDe => Some(seq!['!', '=']),
        TokenDe::MenorQue => Some(seq!['<']),
        TokenDe::MaiorQue => Some(seq!['>']),
        TokenDe::MenorOuIgual => Some(seq!['<', '=']),
        TokenDe::MaiorOuIgual => Some(seq!['>', '=']),
        TokenDe::Atribuicao => Some(seq!['=']),
        TokenDe::ParenEsq => Some(seq!['(']),
        TokenDe::ParenDir => Some(seq![')']),
        TokenDe::ChaveEsq => Some(seq!['{']),
        TokenDe::ChaveDir => Some(seq!['}']),
        TokenDe::ColcheteEsq => Some(seq!['[']),
        TokenDe::ColcheteDir => Some(seq![']']),
        TokenDe::Virgula => Some(seq![',']),
        TokenDe::PontoEVirgula => Some(seq![';']),
        TokenDe::Ponto => Some(seq!['.']),
        TokenDe::PontoPontoPonto => Some(seq!['.', '.', '.']),
        TokenDe::DoisPontos => Some(seq![':']),
        TokenDe::NullCoalescente => Some(seq!['?', '?']),
        TokenDe::PontoOpcional => Some(seq!['?', '.']),
        TokenDe::Seta => Some(seq!['=', '>']),
        _ => None,
    }
}

/// Depois de um sinal nao vem um caractere que o continue.
pub open spec fn solto(s: Seq<char>, p: int) -> bool {
    p < s.len() ==> s[p] != '=' && s[p] != '/' && s[p] != '.' && s[p] != '?' && s[p] != '>'
}

/// Um sinal escrito em `p`, sem nada que o continue, le-se como o seu token, qualquer que seja o texto em
/// volta.
pub proof fn lei_sinal(s: Seq<char>, p: int, t: TokenDe<Seq<char>>)
    requires
        sinal(t) is Some,
        0 <= p,
        p + sinal(t)->Some_0.len() <= s.len(),
        s.subrange(p, p + sinal(t)->Some_0.len()) == sinal(t)->Some_0,
        solto(s, p + sinal(t)->Some_0.len()),
    ensures
        lexer::sinal_em(s, p) == lido(t, p + sinal(t)->Some_0.len()),
{
    let w = sinal(t)->Some_0;
    let u = s.subrange(p, p + w.len());
    assert(s[p] == u[0] && u[0] == w[0]);
    if w.len() >= 2 {
        assert(s[p + 1] == u[1] && u[1] == w[1]);
    }
    if w.len() >= 3 {
        assert(s[p + 2] == u[2] && u[2] == w[2]);
    }
}

/// Um nome ou palavra reservada vai ate ao primeiro caractere que nao e letra, algarismo nem sublinhado.
pub proof fn lei_nome(s: Seq<char>, p: int, q: int)
    requires
        0 <= p < q <= s.len(),
        lexer::alfabetico(s[p]) || s[p] == '_',
        !lexer::digito(s[p]),
        s[p] != '\n',
        s[p] != '"',
        s[p] != '\'',
        forall|i: int| p <= i < q ==> lexer::alfabetico(#[trigger] s[i]) || s[i] == '_' || '0' <= s[i] <= '9',
        q < s.len() ==> !lexer::alfabetico(s[q]) && s[q] != '_' && !('0' <= s[q] <= '9'),
    ensures
        lexer::token_em(s, p) == lido(lexer::palavra(s.subrange(p, q)), q),
{
    lema_fim_nome(s, p, q);
}

proof fn lema_fim_nome(s: Seq<char>, p: int, q: int)
    requires
        0 <= p <= q <= s.len(),
        forall|i: int| p <= i < q ==> lexer::letra(#[trigger] s[i]),
        q < s.len() ==> !lexer::letra(s[q]),
    ensures
        lexer::fim_nome(s, p) == q,
    decreases q - p,
{
    if p < q {
        lema_fim_nome(s, p + 1, q);
    }
}

/// A palavra reservada de um token.
pub open spec fn reservada(t: TokenDe<Seq<char>>) -> Option<Seq<char>> {
    match t {
        TokenDe::Var => Some("var"@),
        TokenDe::Se => Some("se"@),
        TokenDe::Senao => Some("senao"@),
        TokenDe::Enquanto => Some("enquanto"@),
        TokenDe::Para => Some("para"@),
        TokenDe::Em => Some("em"@),
        TokenDe::Funcao => Some("funcao"@),
        TokenDe::Retornar => Some("retornar"@),
        TokenDe::Imprimir => Some("imprimir"@),
        TokenDe::Verdadeiro => Some("verdadeiro"@),
        TokenDe::Falso => Some("falso"@),
        TokenDe::Nulo => Some("nulo"@),
        TokenDe::E => Some("e"@),
        TokenDe::Ou => Some("ou"@),
        TokenDe::Nao => Some("nao"@),
        TokenDe::Pare => Some("pare"@),
        TokenDe::Continue => Some("continue"@),
        TokenDe::Tentar => Some("tentar"@),
        TokenDe::Capturar => Some("capturar"@),
        TokenDe::Finalmente => Some("finalmente"@),
        TokenDe::Lancar => Some("lancar"@),
        TokenDe::Escolher => Some("escolher"@),
        TokenDe::Caso => Some("caso"@),
        TokenDe::Padrao => Some("padrao"@),
        TokenDe::De => Some("de"@),
        TokenDe::Ate => Some("ate"@),
        TokenDe::Passo => Some("passo"@),
        TokenDe::Importar => Some("importar"@),
        TokenDe::Incluir => Some("incluir"@),
        TokenDe::Requerer => Some("requerer"@),
        TokenDe::Como => Some("como"@),
        _ => None,
    }
}

proof fn lema_literais()
    ensures
        "var"@.len() == 3,
        "var"@[0] == 'v',
        "var"@[1] == 'a',
        "var"@[2] == 'r',
        "se"@.len() == 2,
        "se"@[0] == 's',
        "se"@[1] == 'e',
        "senao"@.len() == 5,
        "senao"@[0] == 's',
        "senao"@[1] == 'e',
        "senao"@[2] == 'n',
        "senao"@[3] == 'a',
        "enquanto"@.len() == 8,
        "enquanto"@[0] == 'e',
        "enquanto"@[1] == 'n',
        "enquanto"@[2] == 'q',
        "enquanto"@[3] == 'u',
        "para"@.len() == 4,
        "para"@[0] == 'p',
        "para"@[1] == 'a',
        "para"@[2] == 'r',
        "para"@[3] == 'a',
        "em"@.len() == 2,
        "em"@[0] == 'e',
        "em"@[1] == 'm',
        "funcao"@.len() == 6,
        "funcao"@[0] == 'f',
        "funcao"@[1] == 'u',
        "funcao"@[2] == 'n',
        "funcao"@[3] == 'c',
        "retornar"@.len() == 8,
        "retornar"@[0] == 'r',
        "retornar"@[1] == 'e',
        "retornar"@[2] == 't',
        "retornar"@[3] == 'o',
        "imprimir"@.len() == 8,
        "imprimir"@[0] == 'i',
        "imprimir"@[1] == 'm',
        "imprimir"@[2] == 'p',
        "imprimir"@[3] == 'r',
        "verdadeiro"@.len() == 10,
        "verdadeiro"@[0] == 'v',
        "verdadeiro"@[1] == 'e',
        "verdadeiro"@[2] == 'r',
        "verdadeiro"@[3] == 'd',
        "falso"@.len() == 5,
        "falso"@[0] == 'f',
        "falso"@[1] == 'a',
        "falso"@[2] == 'l',
        "falso"@[3] == 's',
        "nulo"@.len() == 4,
        "nulo"@[0] == 'n',
        "nulo"@[1] == 'u',
        "nulo"@[2] == 'l',
        "nulo"@[3] == 'o',
        "e"@.len() == 1,
        "e"@[0] == 'e',
        "ou"@.len() == 2,
        "ou"@[0] == 'o',
        "ou"@[1] == 'u',
        "nao"@.len() == 3,
        "nao"@[0] == 'n',
        "nao"@[1] == 'a',
        "nao"@[2] == 'o',
        "pare"@.len() == 4,
        "pare"@[0] == 'p',
        "pare"@[1] == 'a',
        "pare"@[2] == 'r',
        "pare"@[3] == 'e',
        "continue"@.len() == 8,
        "continue"@[0] == 'c',
        "continue"@[1] == 'o',
        "continue"@[2] == 'n',
        "continue"@[3] == 't',
        "tentar"@.len() == 6,
        "tentar"@[0] == 't',
        "tentar"@[1] == 'e',
        "tentar"@[2] == 'n',
        "tentar"@[3] == 't',
        "capturar"@.len() == 8,
        "capturar"@[0] == 'c',
        "capturar"@[1] == 'a',
        "capturar"@[2] == 'p',
        "capturar"@[3] == 't',
        "finalmente"@.len() == 10,
        "finalmente"@[0] == 'f',
        "finalmente"@[1] == 'i',
        "finalmente"@[2] == 'n',
        "finalmente"@[3] == 'a',
        "lancar"@.len() == 6,
        "lancar"@[0] == 'l',
        "lancar"@[1] == 'a',
        "lancar"@[2] == 'n',
        "lancar"@[3] == 'c',
        "escolher"@.len() == 8,
        "escolher"@[0] == 'e',
        "escolher"@[1] == 's',
        "escolher"@[2] == 'c',
        "escolher"@[3] == 'o',
        "caso"@.len() == 4,
        "caso"@[0] == 'c',
        "caso"@[1] == 'a',
        "caso"@[2] == 's',
        "caso"@[3] == 'o',
        "padrao"@.len() == 6,
        "padrao"@[0] == 'p',
        "padrao"@[1] == 'a',
        "padrao"@[2] == 'd',
        "padrao"@[3] == 'r',
        "de"@.len() == 2,
        "de"@[0] == 'd',
        "de"@[1] == 'e',
        "ate"@.len() == 3,
        "ate"@[0] == 'a',
        "ate"@[1] == 't',
        "ate"@[2] == 'e',
        "passo"@.len() == 5,
        "passo"@[0] == 'p',
        "passo"@[1] == 'a',
        "passo"@[2] == 's',
        "passo"@[3] == 's',
        "importar"@.len() == 8,
        "importar"@[0] == 'i',
        "importar"@[1] == 'm',
        "importar"@[2] == 'p',
        "importar"@[3] == 'o',
        "incluir"@.len() == 7,
        "incluir"@[0] == 'i',
        "incluir"@[1] == 'n',
        "incluir"@[2] == 'c',
        "incluir"@[3] == 'l',
        "requerer"@.len() == 8,
        "requerer"@[0] == 'r',
        "requerer"@[1] == 'e',
        "requerer"@[2] == 'q',
        "requerer"@[3] == 'u',
        "como"@.len() == 4,
        "como"@[0] == 'c',
        "como"@[1] == 'o',
        "como"@[2] == 'm',
        "como"@[3] == 'o',
{
    reveal_strlit("var");
    reveal_strlit("se");
    reveal_strlit("senao");
    reveal_strlit("enquanto");
    reveal_strlit("para");
    reveal_strlit("em");
    reveal_strlit("funcao");
    reveal_strlit("retornar");
    reveal_strlit("imprimir");
    reveal_strlit("verdadeiro");
    reveal_strlit("falso");
    reveal_strlit("nulo");
    reveal_strlit("e");
    reveal_strlit("ou");
    reveal_strlit("nao");
    reveal_strlit("pare");
    reveal_strlit("continue");
    reveal_strlit("tentar");
    reveal_strlit("capturar");
    reveal_strlit("finalmente");
    reveal_strlit("lancar");
    reveal_strlit("escolher");
    reveal_strlit("caso");
    reveal_strlit("padrao");
    reveal_strlit("de");
    reveal_strlit("ate");
    reveal_strlit("passo");
    reveal_strlit("importar");
    reveal_strlit("incluir");
    reveal_strlit("requerer");
    reveal_strlit("como");
}

/// Cada palavra reservada da o seu token, e qualquer outra palavra da o identificador dela.
#[verifier::rlimit(60)]
pub proof fn lei_palavra(t: TokenDe<Seq<char>>, w: Seq<char>)
    ensures
        reservada(t) == Some(w) ==> lexer::palavra(w) == t,
        (forall|u: TokenDe<Seq<char>>| #[trigger] reservada(u) != Some(w)) ==> lexer::palavra(w)
            == TokenDe::Identificador(w),
{
    lema_literais();
    let p = lexer::palavra(w);
    if !(p is Identificador) {
        assert(reservada(p) == Some(w));
    }
}

proof fn lema_valor(n: nat)
    ensures
        lexer::valor(texto::decimal(n), 10) == n,
    decreases n,
{
    texto::lema_decimal_algarismos(n);
    let d = texto::decimal(n);
    if n < 10 {
        assert(d.drop_last() =~= Seq::<char>::empty());
        assert(lexer::valor(d.drop_last(), 10) == 0);
    } else {
        lema_valor(n / 10);
        assert(d.drop_last() =~= texto::decimal(n / 10));
    }
}

proof fn lema_fim_numero(s: Seq<char>, p: int, q: int)
    requires
        0 <= p <= q <= s.len(),
        forall|i: int| p <= i < q ==> '0' <= #[trigger] s[i] <= '9',
        q < s.len() ==> !('0' <= s[q] <= '9') && s[q] != '.',
    ensures
        lexer::fim_numero(s, p, false) == (q, false),
    decreases q - p,
{
    if p < q {
        lema_fim_numero(s, p + 1, q);
    }
}

/// Um inteiro escrito em decimal le-se como o mesmo inteiro.
pub proof fn lei_inteiro(s: Seq<char>, p: int, n: i64)
    requires
        n >= 0,
        0 <= p,
        ({
            let q = p + texto::decimal(n as nat).len();
            &&& q <= s.len()
            &&& s.subrange(p, q) == texto::decimal(n as nat)
            &&& q < s.len() ==> !('0' <= s[q] <= '9') && s[q] != '.' && s[q] != 'x' && s[q] != 'X'
        }),
    ensures
        lexer::token_em(s, p) == lido(TokenDe::Inteiro(n), p + texto::decimal(n as nat).len()),
{
    let d = texto::decimal(n as nat);
    let q = p + d.len();
    texto::lema_decimal_algarismos(n as nat);
    assert forall|i: int| p <= i < q implies '0' <= #[trigger] s[i] <= '9' by {
        assert(s.subrange(p, q)[i - p] == d[i - p]);
        assert('0' <= d[i - p] <= '9');
    }
    lema_fim_numero(s, p, q);
    lema_valor(n as nat);
    assert(!lexer::ha(s, p + 1, 'x') && !lexer::ha(s, p + 1, 'X'));
}

/// Um texto com as aspas e as barras precedidas de uma barra.
pub open spec fn citado(t: Seq<char>) -> Seq<char>
    decreases t.len(),
{
    if t.len() == 0 {
        Seq::empty()
    } else if t[0] == '"' || t[0] == '\\' {
        seq!['\\', t[0]] + citado(t.skip(1))
    } else {
        seq![t[0]] + citado(t.skip(1))
    }
}

proof fn lema_citado(s: Seq<char>, p: int, t: Seq<char>, acc: Seq<char>)
    requires
        0 <= p,
        p + citado(t).len() < s.len(),
        s.subrange(p, p + citado(t).len()) == citado(t),
        s[p + citado(t).len()] == '"',
    ensures
        lexer::texto_em(s, p, '"', acc) == Ok::<(Seq<char>, int), ErroLexico>((acc + t, p + citado(t).len() + 1)),
    decreases t.len(),
{
    let c = citado(t);
    let u = s.subrange(p, p + c.len());
    if t.len() == 0 {
        assert(acc + t =~= acc);
    } else {
        let r = t.skip(1);
        let k: int = if t[0] == '"' || t[0] == '\\' {
            2
        } else {
            1
        };
        assert(s[p] == u[0] && u[0] == c[0]);
        if k == 2 {
            assert(s[p + 1] == u[1] && u[1] == c[1]);
        }
        assert(c.skip(k) =~= citado(r));
        assert(s.subrange(p + k, p + k + citado(r).len()) =~= u.skip(k));
        lema_citado(s, p + k, r, acc.push(t[0]));
        assert(acc.push(t[0]) + r =~= acc + t);
        if k == 2 {
            assert(acc + lexer::escape(t[0]) =~= acc.push(t[0]));
        }
    }
}

/// Um texto qualquer, escrito entre aspas com as aspas e as barras dele precedidas de uma barra, le-se
/// como o mesmo texto.
pub proof fn lei_texto(s: Seq<char>, p: int, t: Seq<char>)
    requires
        0 <= p,
        p + citado(t).len() + 2 <= s.len(),
        s[p] == '"',
        s.subrange(p + 1, p + 1 + citado(t).len()) == citado(t),
        s[p + 1 + citado(t).len()] == '"',
        p + citado(t).len() + 2 < s.len() ==> s[p + citado(t).len() + 2] != '"',
    ensures
        lexer::token_em(s, p) == lido(TokenDe::Texto(t), p + citado(t).len() + 2),
{
    lema_citado(s, p + 1, t, Seq::empty());
    assert(Seq::<char>::empty() + t =~= t);
    let c = citado(t);
    if c.len() > 0 {
        assert(s.subrange(p + 1, p + 1 + c.len())[0] == s[p + 1]);
        assert(c[0] != '"');
    }
    assert(!lexer::tres(s, p, '"'));
}

/// `\n` e `\t` dentro de um texto sao a quebra de linha e a tabulacao.
pub proof fn lei_escapes(s: Seq<char>, p: int, d: char, acc: Seq<char>)
    requires
        0 <= p,
        p + 1 < s.len(),
        s[p] == '\\',
        d != '\\',
    ensures
        s[p + 1] == 'n' ==> lexer::texto_em(s, p, d, acc) == lexer::texto_em(s, p + 2, d, acc.push('\n')),
        s[p + 1] == 't' ==> lexer::texto_em(s, p, d, acc) == lexer::texto_em(s, p + 2, d, acc.push('\t')),
{
    if s[p + 1] == 'n' {
        assert(acc + lexer::escape('n') =~= acc.push('\n'));
    }
    if s[p + 1] == 't' {
        assert(acc + lexer::escape('t') =~= acc.push('\t'));
    }
}

/// Os espacos entre tokens e o que vai de `#` ate ao fim da linha nao dao tokens.
pub proof fn lei_ignorado(s: Seq<char>, p: int, q: int, acc: Seq<TokenSituado>)
    requires
        0 <= p < q <= s.len(),
        s[p] == ' ' && q == p + 1 || s[p] == '#' && (q < s.len() ==> s[q] == '\n') && forall|i: int|
            p <= i < q ==> #[trigger] s[i] != '\n',
    ensures
        lexer::tokens_em(s, p, acc) == lexer::tokens_em(s, q, acc),
{
    if s[p] == ' ' {
        lexer::lema_fim_espacos(s, q);
        assert(lexer::fim_espacos(s, p) == lexer::fim_espacos(s, q));
        if q == s.len() {
            assert(lexer::fim_espacos(s, q) == q);
        }
    } else {
        assert(lexer::fim_espacos(s, p) == p);
        lema_proximo(s, p, q);
    }
}

proof fn lema_proximo(s: Seq<char>, p: int, q: int)
    requires
        0 <= p <= q <= s.len(),
        q < s.len() ==> s[q] == '\n',
        forall|i: int| p <= i < q ==> #[trigger] s[i] != '\n',
    ensures
        texto::proximo(s, '\n', p) == q,
    decreases q - p,
{
    if p < q {
        lema_proximo(s, p + 1, q);
    }
}

/// Os tokens saem pela ordem em que estao, cada um com a linha e a coluna onde comeca.
pub proof fn lei_ordem(s: Seq<char>, p: int, t: TokenDe<Seq<char>>, q: int, acc: Seq<TokenSituado>)
    requires
        0 <= p < s.len(),
        s[p] != ' ' && s[p] != '\t' && s[p] != '\r' && s[p] != '\u{feff}' && s[p] != '#',
        lexer::token_em(s, p) == lido(t, q),
    ensures
        p < q <= s.len(),
        exists|x: TokenSituado|
            lexer::tokens_em(s, p, acc) == #[trigger] lexer::tokens_em(s, q, acc.push(x)) && x.token == t && x.linha
                == lexer::linha_em(s, p) && x.coluna == lexer::coluna_em(s, p),
{
    lexer::lema_token_avanca(s, p);
    assert(lexer::fim_espacos(s, p) == p);
    let x = lexer::situado(s, t, p);
    assert(lexer::tokens_em(s, p, acc) == lexer::tokens_em(s, q, acc.push(x)));
}

/// Dois lugares sem quebra de linha entre eles estao na mesma linha, e as colunas diferem no que os
/// separa; depois de uma quebra comeca a linha seguinte, na coluna um.
pub proof fn lei_posicao(s: Seq<char>, p: int, q: int)
    requires
        0 <= p <= q <= s.len(),
        forall|i: int| p <= i < q ==> #[trigger] s[i] != '\n',
    ensures
        lexer::linha_em(s, q) == lexer::linha_em(s, p),
        lexer::coluna_em(s, q) == lexer::coluna_em(s, p) + (q - p),
        q < s.len() && s[q] == '\n' ==> lexer::linha_em(s, q + 1) == lexer::linha_em(s, p) + 1 && lexer::coluna_em(s, q + 1) == 1,
        lexer::linha_em(s, 0) == 1,
        lexer::coluna_em(s, 0) == 1,
    decreases q - p,
{
    if p < q {
        lei_posicao(s, p, q - 1);
    }
    if q < s.len() && s[q] == '\n' {
        assert(s[q + 1 - 1] == '\n');
        assert(lexer::linha_em(s, q + 1) == lexer::linha_em(s, q) + 1);
        assert(lexer::coluna_em(s, q + 1) == 1);
    }
}

} // verus!
