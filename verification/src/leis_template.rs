//! O texto de um template escreve-se como esta.

use vstd::prelude::*;
use crate::ast::ArvoreExpr;
use crate::busca;
use crate::lexer;
use crate::sintaxe;
use crate::template;
use crate::token::{TokenDe, TokenSituado};

verus! {

/// O que a analise lexica deixa de um caractere escrito num literal.
pub open spec fn no_token(c: char, chaves: bool) -> Seq<char> {
    if chaves && (c == '{' || c == '}') {
        seq![c, c]
    } else {
        seq![c]
    }
}

/// O que ela deixa dos primeiros `n` caracteres.
pub open spec fn no_token_ate(t: Seq<char>, n: int, chaves: bool) -> Seq<char>
    decreases n,
{
    if n <= 0 || n > t.len() {
        Seq::empty()
    } else {
        no_token_ate(t, n - 1, chaves) + no_token(t[n - 1], chaves)
    }
}

/// O texto do token de um literal.
pub open spec fn texto_do_token(t: Seq<char>) -> Seq<char> {
    no_token_ate(t, t.len() as int, t.contains('{'))
}

proof fn lema_escapado(t: Seq<char>, n: int, m: int, chaves: bool)
    requires
        0 <= n < m <= t.len(),
    ensures
        busca::esta_em(
            template::escapado_ate(t, m, chaves),
            template::escapado_ate(t, n, chaves).len() as int,
            template::no_literal(t[n], chaves),
        ),
        template::escapado_ate(t, n + 1, chaves).len() == template::escapado_ate(t, n, chaves).len()
            + template::no_literal(t[n], chaves).len(),
    decreases m,
{
    let a = template::escapado_ate(t, m - 1, chaves);
    let s = template::escapado_ate(t, m, chaves);
    assert(s == a + template::no_literal(t[m - 1], chaves));
    if n < m - 1 {
        lema_escapado(t, n, m - 1, chaves);
        assert(busca::esta_em(s, 0, a));
        busca::lema_esta_dentro(
            s,
            0,
            a,
            template::escapado_ate(t, n, chaves).len() as int,
            template::no_literal(t[n], chaves),
        );
    }
}

proof fn lema_no_token(t: Seq<char>, n: int, m: int, chaves: bool)
    requires
        0 <= n < m <= t.len(),
    ensures
        busca::esta_em(
            no_token_ate(t, m, chaves),
            no_token_ate(t, n, chaves).len() as int,
            no_token(t[n], chaves),
        ),
        no_token_ate(t, n + 1, chaves).len() == no_token_ate(t, n, chaves).len() + no_token(t[n], chaves).len(),
    decreases m,
{
    let a = no_token_ate(t, m - 1, chaves);
    let s = no_token_ate(t, m, chaves);
    assert(s == a + no_token(t[m - 1], chaves));
    if n < m - 1 {
        lema_no_token(t, n, m - 1, chaves);
        assert(busca::esta_em(s, 0, a));
        busca::lema_esta_dentro(s, 0, a, no_token_ate(t, n, chaves).len() as int, no_token(t[n], chaves));
    }
}

proof fn lema_lido(p: Seq<char>, i: int, t: Seq<char>, n: int, chaves: bool)
    requires
        0 <= n <= t.len(),
        busca::esta_em(p, i, template::escapado_ate(t, t.len() as int, chaves) + seq!['"']),
    ensures
        lexer::texto_em(
            p,
            i + template::escapado_ate(t, n, chaves).len(),
            '"',
            no_token_ate(t, n, chaves),
        ) == Ok::<_, lexer::ErroLexico>(
            (
                no_token_ate(t, t.len() as int, chaves),
                i + template::escapado_ate(t, t.len() as int, chaves).len() + 1,
            ),
        ),
    decreases t.len() - n,
{
    let e = template::escapado_ate(t, t.len() as int, chaves);
    let k = i + template::escapado_ate(t, n, chaves).len();
    let acc = no_token_ate(t, n, chaves);
    busca::lema_esta_em(p, i, e, seq!['"']);
    if n == t.len() {
        assert(p[i + e.len() + 0] == seq!['"'][0]);
    } else {
        let c = t[n];
        let x = template::no_literal(c, chaves);
        lema_escapado(t, n, t.len() as int, chaves);
        busca::lema_esta_dentro(p, i, e, template::escapado_ate(t, n, chaves).len() as int, x);
        assert(p[k + 0] == x[0]);
        if x.len() == 2 {
            assert(p[k + 1] == x[1]);
        }
        assert(no_token_ate(t, n + 1, chaves) == acc + no_token(c, chaves));
        lema_lido(p, i, t, n + 1, chaves);
        if chaves && (c == '{' || c == '}') {
            assert(acc.push(c).push(c) =~= acc + no_token(c, chaves));
            assert(lexer::texto_em(p, k, '"', acc) == lexer::texto_em(p, k + 1, '"', acc.push(c)));
            assert(lexer::texto_em(p, k + 1, '"', acc.push(c)) == lexer::texto_em(
                p,
                k + 2,
                '"',
                acc.push(c).push(c),
            ));
        } else if c == '\\' || c == '"' {
            assert(lexer::escape(c) =~= no_token(c, chaves));
        } else {
            assert(acc.push(c) =~= acc + no_token(c, chaves));
        }
    }
}

proof fn lema_partes(t: Seq<char>, n: int)
    requires
        0 <= n <= t.len(),
    ensures
        sintaxe::partes_em(
            no_token_ate(t, t.len() as int, true),
            no_token_ate(t, n, true).len() as int,
            Seq::empty(),
            t.take(n),
        ) == Ok::<_, sintaxe::Falha>(sintaxe::com_texto(Seq::empty(), t)),
    decreases t.len() - n,
{
    let u = no_token_ate(t, t.len() as int, true);
    let k = no_token_ate(t, n, true).len() as int;
    if n == t.len() {
        assert(t.take(n) =~= t);
    } else {
        let c = t[n];
        let x = no_token(c, true);
        lema_no_token(t, n, t.len() as int, true);
        assert(u[k + 0] == x[0]);
        if x.len() == 2 {
            assert(u[k + 1] == x[1]);
        }
        lema_partes(t, n + 1);
        assert(t.take(n).push(c) =~= t.take(n + 1));
    }
}

proof fn lema_sem_chaves(t: Seq<char>, n: int)
    requires
        0 <= n <= t.len(),
    ensures
        no_token_ate(t, n, false) == t.take(n),
    decreases n,
{
    if n > 0 {
        lema_sem_chaves(t, n - 1);
        assert(t.take(n - 1) + seq![t[n - 1]] =~= t.take(n));
    } else {
        assert(t.take(0) =~= Seq::<char>::empty());
    }
}

/// O literal com que um template escreve um texto acaba no parentese que fecha a chamada, com o que
/// o texto tiver de aspas, barras e quebras.
pub proof fn lei_texto_literal(t: Seq<char>)
    requires
        t.len() > 0,
    ensures
        ({
            let p = template::linhas_da_parte(template::Parte::Texto(t));
            &&& p == "escrever(\""@ + template::escapado(t) + "\")\n"@
            &&& lexer::literal_em(p, 9) == Ok::<_, lexer::ErroLexico>((TokenDe::Texto(texto_do_token(t)), p.len() - 2))
            &&& p[p.len() - 2] == ')'
        }),
{
    let p = template::linhas_da_parte(template::Parte::Texto(t));
    let chaves = t.contains('{');
    let e = template::escapado(t);
    reveal_strlit("escrever(\"");
    reveal_strlit("\")\n");
    let a = "escrever(\""@;
    let z = "\")\n"@;
    assert(a.len() == 10 && a[9] == '"');
    assert(z.len() == 3 && z[0] == '"' && z[1] == ')');
    assert(p == a + e + z);
    assert(p[9] == '"');
    assert forall|k: int| 0 <= k < (e + seq!['"']).len() implies p[10 + k] == #[trigger] (e + seq!['"'])[k] by {
        if k < e.len() {
            assert(p[10 + k] == e[k]);
        } else {
            assert(p[10 + k] == z[0]);
        }
    }
    lema_escapado(t, 0, t.len() as int, chaves);
    assert(template::escapado_ate(t, 0, chaves).len() == 0);
    assert(e[0] == template::no_literal(t[0], chaves)[0]);
    assert(p[10] == e[0]);
    assert(!lexer::tres(p, 9, '"'));
    lema_lido(p, 10, t, 0, chaves);
    assert(no_token_ate(t, 0, chaves) == Seq::<char>::empty());
    assert(p[(10 + e.len() + 1) as int] == z[1]);
}

proof fn lema_interpolada(t: Seq<char>)
    requires
        t.contains('{'),
    ensures
        texto_do_token(t).contains('{'),
        sintaxe::interpolada(texto_do_token(t)) == Ok::<_, sintaxe::Falha>(ArvoreExpr::Texto(t)),
{
    let u = texto_do_token(t);
    let n = choose|n: int| 0 <= n < t.len() && t[n] == '{';
    lema_no_token(t, n, t.len() as int, true);
    let k = no_token_ate(t, n, true).len() as int;
    assert(u[k + 0] == no_token(t[n], true)[0]);
    lema_partes(t, 0);
    assert(t.take(0) =~= Seq::<char>::empty());
    assert(no_token_ate(t, 0, true).len() == 0);
    assert(sintaxe::com_texto(Seq::empty(), t) =~= seq![ArvoreExpr::Texto(t)]);
}

/// A expressao do literal com que um template escreve um texto e o texto, com as chaves que tiver.
pub proof fn lei_expressao_literal(t: Seq<char>, ts: Seq<TokenSituado>, i: int)
    requires
        sintaxe::tok(ts, i) == TokenDe::Texto(texto_do_token(t)),
    ensures
        sintaxe::primario_em(ts, i) == Ok::<_, sintaxe::Falha>((ArvoreExpr::Texto(t), i + 1)),
{
    if t.contains('{') {
        lema_interpolada(t);
    } else {
        lema_sem_chaves(t, t.len() as int);
        assert(t.take(t.len() as int) =~= t);
    }
}

} // verus!
