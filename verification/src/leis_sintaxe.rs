//! Leis da gramatica: que arvore dao os tokens de cada construcao.

use vstd::prelude::*;
use crate::ast::{ArvoreExpr, ArvoreInstr, ArvoreParam, OpBinario, OpUnario};
use crate::sintaxe;
use crate::sintaxe::{Conector, Simbolo};
use crate::token::{TokenDe, TokenSituado};

verus! {

// ---- Operadores -------------------------------------------------------------------------

/// Os tokens com que se escreve um operador.
pub open spec fn escrito(c: Conector) -> Seq<TokenDe<Seq<char>>> {
    match c {
        Conector::Coalescente => seq![TokenDe::NullCoalescente],
        Conector::Binario(op) => match op {
            OpBinario::Ou => seq![TokenDe::Ou],
            OpBinario::E => seq![TokenDe::E],
            OpBinario::Igual => seq![TokenDe::Igual],
            OpBinario::DiferenteDe => seq![TokenDe::DiferenteDe],
            OpBinario::Em => seq![TokenDe::Em],
            OpBinario::NaoEm => seq![TokenDe::Nao, TokenDe::Em],
            OpBinario::MenorQue => seq![TokenDe::MenorQue],
            OpBinario::MaiorQue => seq![TokenDe::MaiorQue],
            OpBinario::MenorOuIgual => seq![TokenDe::MenorOuIgual],
            OpBinario::MaiorOuIgual => seq![TokenDe::MaiorOuIgual],
            OpBinario::Soma => seq![TokenDe::Mais],
            OpBinario::Subtracao => seq![TokenDe::Menos],
            OpBinario::Multiplicacao => seq![TokenDe::Estrela],
            OpBinario::Divisao => seq![TokenDe::Barra],
            OpBinario::DivisaoInteira => seq![TokenDe::BarraBarra],
            OpBinario::Modulo => seq![TokenDe::Percentual],
        },
    }
}

/// Com que forca um operador prende os seus lados: `* / // %` mais do que `+ -`, estes mais do que `< >
/// <= >=`, estes mais do que `== != em` e `nao em`, estes mais do que `e`, e este mais do que `ou` e `??`.
pub open spec fn forca(c: Conector) -> int {
    match c {
        Conector::Coalescente => 0,
        Conector::Binario(op) => match op {
            OpBinario::Multiplicacao | OpBinario::Divisao | OpBinario::DivisaoInteira | OpBinario::Modulo => 5,
            OpBinario::Soma | OpBinario::Subtracao => 4,
            OpBinario::MenorQue | OpBinario::MaiorQue | OpBinario::MenorOuIgual | OpBinario::MaiorOuIgual => 3,
            OpBinario::Igual | OpBinario::DiferenteDe | OpBinario::Em | OpBinario::NaoEm => 2,
            OpBinario::E => 1,
            OpBinario::Ou => 0,
        },
    }
}

/// A arvore de um operador entre duas expressoes.
pub open spec fn entre(a: ArvoreExpr, c: Conector, b: ArvoreExpr) -> ArvoreExpr {
    match c {
        Conector::Coalescente => ArvoreExpr::NullCoalescente { esq: Box::new(a), dir: Box::new(b) },
        Conector::Binario(op) => ArvoreExpr::BinOp { esq: Box::new(a), op, dir: Box::new(b) },
    }
}

/// Um token que nao continua uma expressao.
pub open spec fn fecha(t: TokenDe<Seq<char>>) -> bool {
    match t {
        TokenDe::NovaLinha | TokenDe::PontoEVirgula | TokenDe::FimDeArquivo | TokenDe::ParenDir | TokenDe::ColcheteDir
        | TokenDe::ChaveDir | TokenDe::ChaveEsq | TokenDe::Virgula | TokenDe::DoisPontos | TokenDe::Ate
        | TokenDe::Passo => true,
        _ => false,
    }
}

/// A expressao que um token sozinho representa, se representa alguma: um literal ou um nome.
pub open spec fn atomo(t: TokenDe<Seq<char>>) -> Option<ArvoreExpr> {
    match t {
        TokenDe::Inteiro(n) => Some(ArvoreExpr::Inteiro(n)),
        TokenDe::Numero(s) => Some(ArvoreExpr::Numero(s)),
        TokenDe::Texto(s) => if s.contains('{') {
            None
        } else {
            Some(ArvoreExpr::Texto(s))
        },
        TokenDe::Verdadeiro => Some(ArvoreExpr::Booleano(true)),
        TokenDe::Falso => Some(ArvoreExpr::Booleano(false)),
        TokenDe::Nulo => Some(ArvoreExpr::Nulo),
        TokenDe::Identificador(n) => Some(ArvoreExpr::Variavel(n)),
        _ => None,
    }
}

/// Em `i` esta o operador.
pub open spec fn esta(ts: Seq<TokenSituado>, i: int, c: Conector) -> bool {
    forall|k: int| 0 <= k < escrito(c).len() ==> sintaxe::tok(ts, i + k) == #[trigger] escrito(c)[k]
}

proof fn lema_esta(ts: Seq<TokenSituado>, i: int, c: Conector)
    requires
        esta(ts, i, c),
    ensures
        forall|n: int|
            0 <= n < 6 ==> #[trigger] sintaxe::operador(ts, i, n) == (if n == forca(c) {
                Some((c, escrito(c).len() as int))
            } else {
                None
            }),
{
    assert(sintaxe::tok(ts, i + 0) == escrito(c)[0]);
    if c == Conector::Binario(OpBinario::NaoEm) {
        assert(sintaxe::tok(ts, i + 1) == escrito(c)[1]);
    }
}

proof fn lema_fecha(ts: Seq<TokenSituado>, i: int)
    requires
        fecha(sintaxe::tok(ts, i)),
    ensures
        forall|n: int| 0 <= n < 6 ==> (#[trigger] sintaxe::operador(ts, i, n)) is None,
{
}

/// Sem operador de precedencia `n` a `m` a seguir, a expressao de precedencia `m` e a de precedencia `n`.
proof fn lema_sobe(ts: Seq<TokenSituado>, i: int, n: int, m: int, e: ArvoreExpr, j: int)
    requires
        0 <= n <= m <= 6,
        i < j <= ts.len(),
        sintaxe::binario_em(ts, i, m) == Ok::<(ArvoreExpr, int), sintaxe::Falha>((e, j)),
        forall|k: int| n <= k < m ==> (#[trigger] sintaxe::operador(ts, j, k)) is None,
    ensures
        sintaxe::binario_em(ts, i, n) == Ok::<(ArvoreExpr, int), sintaxe::Falha>((e, j)),
    decreases m - n,
{
    if n < m {
        lema_sobe(ts, i, n + 1, m, e, j);
        assert(sintaxe::operador(ts, j, n) is None);
        assert(sintaxe::resto_binario(ts, j, n, e) == Ok::<(ArvoreExpr, int), sintaxe::Falha>((e, j)));
    }
}

/// Um operador de precedencia `n` entre duas expressoes mais fortes, sem outro a seguir.
proof fn lema_une(
    ts: Seq<TokenSituado>,
    i: int,
    n: int,
    a: ArvoreExpr,
    j: int,
    c: Conector,
    k: int,
    b: ArvoreExpr,
    l: int,
)
    requires
        0 <= n < 6,
        i < j,
        0 < k,
        j + k < l <= ts.len(),
        sintaxe::binario_em(ts, i, n + 1) == Ok::<(ArvoreExpr, int), sintaxe::Falha>((a, j)),
        sintaxe::operador(ts, j, n) == Some((c, k)),
        sintaxe::binario_em(ts, j + k, n + 1) == Ok::<(ArvoreExpr, int), sintaxe::Falha>((b, l)),
        sintaxe::operador(ts, l, n) is None,
    ensures
        sintaxe::binario_em(ts, i, n) == Ok::<(ArvoreExpr, int), sintaxe::Falha>((entre(a, c, b), l)),
{
    assert(sintaxe::ligada(c, a, b) == entre(a, c, b));
    assert(sintaxe::resto_binario(ts, l, n, entre(a, c, b)) == Ok::<(ArvoreExpr, int), sintaxe::Falha>(
        (entre(a, c, b), l),
    ));
    assert(sintaxe::resto_binario(ts, j, n, a) == Ok::<(ArvoreExpr, int), sintaxe::Falha>((entre(a, c, b), l)));
}

/// Dois operadores entre tres expressoes sem operadores: o mais forte prende a do meio, e de dois da
/// mesma forca o primeiro.
#[verifier::spinoff_prover]
pub proof fn lei_precedencia(
    ts: Seq<TokenSituado>,
    i: int,
    a: ArvoreExpr,
    j: int,
    o1: Conector,
    b: ArvoreExpr,
    k: int,
    o2: Conector,
    c: ArvoreExpr,
    l: int,
)
    requires
        0 <= i < j,
        sintaxe::unario_em(ts, i) == Ok::<(ArvoreExpr, int), sintaxe::Falha>((a, j)),
        esta(ts, j, o1),
        j + escrito(o1).len() < k,
        sintaxe::unario_em(ts, j + escrito(o1).len()) == Ok::<(ArvoreExpr, int), sintaxe::Falha>((b, k)),
        esta(ts, k, o2),
        k + escrito(o2).len() < l <= ts.len(),
        sintaxe::unario_em(ts, k + escrito(o2).len()) == Ok::<(ArvoreExpr, int), sintaxe::Falha>((c, l)),
        fecha(sintaxe::tok(ts, l)),
    ensures
        sintaxe::expr_em(ts, i) == Ok::<(ArvoreExpr, int), sintaxe::Falha>(
            (
                if forca(o2) > forca(o1) {
                    entre(a, o1, entre(b, o2, c))
                } else {
                    entre(entre(a, o1, b), o2, c)
                },
                l,
            ),
        ),
{
    let n1 = forca(o1);
    let n2 = forca(o2);
    let k1 = escrito(o1).len() as int;
    let k2 = escrito(o2).len() as int;
    lema_mais_forte(ts, i);
    lema_mais_forte(ts, j + k1);
    lema_mais_forte(ts, k + k2);
    lema_operandos(ts, i, a, j, o1, b, k, o2, c, l);
    if n2 > n1 {
        lema_forte(ts, i, a, j, o1, b, k, o2, c, l);
        lema_toda(ts, i, entre(a, o1, entre(b, o2, c)), l);
    } else {
        if n2 < n1 {
            lema_fraco(ts, i, a, j, o1, b, k, o2, c, l);
        } else {
            lema_igual(ts, i, a, j, o1, b, k, o2, c, l);
        }
        lema_toda(ts, i, entre(entre(a, o1, b), o2, c), l);
    }
}

/// Os tres operandos, lidos na precedencia mais forte, com os operadores entre eles.
spec fn operandos(
    ts: Seq<TokenSituado>,
    i: int,
    a: ArvoreExpr,
    j: int,
    o1: Conector,
    b: ArvoreExpr,
    k: int,
    o2: Conector,
    c: ArvoreExpr,
    l: int,
) -> bool {
    let k1 = escrito(o1).len() as int;
    let k2 = escrito(o2).len() as int;
    &&& 0 <= i < j
    &&& j + k1 < k
    &&& k + k2 < l <= ts.len()
    &&& k1 > 0
    &&& k2 > 0
    &&& sintaxe::binario_em(ts, i, 6) == Ok::<(ArvoreExpr, int), sintaxe::Falha>((a, j))
    &&& sintaxe::binario_em(ts, j + k1, 6) == Ok::<(ArvoreExpr, int), sintaxe::Falha>((b, k))
    &&& sintaxe::binario_em(ts, k + k2, 6) == Ok::<(ArvoreExpr, int), sintaxe::Falha>((c, l))
    &&& forall|n: int|
        0 <= n < 6 ==> #[trigger] sintaxe::operador(ts, j, n) == (if n == forca(o1) {
            Some((o1, k1))
        } else {
            None
        })
    &&& forall|n: int|
        0 <= n < 6 ==> #[trigger] sintaxe::operador(ts, k, n) == (if n == forca(o2) {
            Some((o2, k2))
        } else {
            None
        })
    &&& forall|n: int| 0 <= n < 6 ==> (#[trigger] sintaxe::operador(ts, l, n)) is None
}

proof fn lema_mais_forte(ts: Seq<TokenSituado>, i: int)
    ensures
        sintaxe::binario_em(ts, i, 6) == sintaxe::unario_em(ts, i),
{
}

proof fn lema_operandos(
    ts: Seq<TokenSituado>,
    i: int,
    a: ArvoreExpr,
    j: int,
    o1: Conector,
    b: ArvoreExpr,
    k: int,
    o2: Conector,
    c: ArvoreExpr,
    l: int,
)
    requires
        0 <= i < j,
        sintaxe::binario_em(ts, i, 6) == Ok::<(ArvoreExpr, int), sintaxe::Falha>((a, j)),
        esta(ts, j, o1),
        j + escrito(o1).len() < k,
        sintaxe::binario_em(ts, j + escrito(o1).len(), 6) == Ok::<(ArvoreExpr, int), sintaxe::Falha>((b, k)),
        esta(ts, k, o2),
        k + escrito(o2).len() < l <= ts.len(),
        sintaxe::binario_em(ts, k + escrito(o2).len(), 6) == Ok::<(ArvoreExpr, int), sintaxe::Falha>((c, l)),
        fecha(sintaxe::tok(ts, l)),
    ensures
        operandos(ts, i, a, j, o1, b, k, o2, c, l),
{
    lema_esta(ts, j, o1);
    lema_esta(ts, k, o2);
    lema_fecha(ts, l);
}

proof fn lema_toda(ts: Seq<TokenSituado>, i: int, e: ArvoreExpr, l: int)
    requires
        sintaxe::binario_em(ts, i, 0) == Ok::<(ArvoreExpr, int), sintaxe::Falha>((e, l)),
        fecha(sintaxe::tok(ts, l)),
    ensures
        sintaxe::expr_em(ts, i) == Ok::<(ArvoreExpr, int), sintaxe::Falha>((e, l)),
{
}

proof fn lema_forte(
    ts: Seq<TokenSituado>,
    i: int,
    a: ArvoreExpr,
    j: int,
    o1: Conector,
    b: ArvoreExpr,
    k: int,
    o2: Conector,
    c: ArvoreExpr,
    l: int,
)
    requires
        operandos(ts, i, a, j, o1, b, k, o2, c, l),
        forca(o2) > forca(o1),
    ensures
        sintaxe::binario_em(ts, i, 0) == Ok::<(ArvoreExpr, int), sintaxe::Falha>((entre(a, o1, entre(b, o2, c)), l)),
{
    let n1 = forca(o1);
    let n2 = forca(o2);
    let k1 = escrito(o1).len() as int;
    let k2 = escrito(o2).len() as int;
    lema_sobe(ts, i, n1 + 1, 6, a, j);
    lema_sobe(ts, j + k1, n2 + 1, 6, b, k);
    lema_sobe(ts, k + k2, n2 + 1, 6, c, l);
    lema_une(ts, j + k1, n2, b, k, o2, k2, c, l);
    lema_sobe(ts, j + k1, n1 + 1, n2, entre(b, o2, c), l);
    lema_une(ts, i, n1, a, j, o1, k1, entre(b, o2, c), l);
    lema_sobe(ts, i, 0, n1, entre(a, o1, entre(b, o2, c)), l);
}

proof fn lema_fraco(
    ts: Seq<TokenSituado>,
    i: int,
    a: ArvoreExpr,
    j: int,
    o1: Conector,
    b: ArvoreExpr,
    k: int,
    o2: Conector,
    c: ArvoreExpr,
    l: int,
)
    requires
        operandos(ts, i, a, j, o1, b, k, o2, c, l),
        forca(o2) < forca(o1),
    ensures
        sintaxe::binario_em(ts, i, 0) == Ok::<(ArvoreExpr, int), sintaxe::Falha>((entre(entre(a, o1, b), o2, c), l)),
{
    let n1 = forca(o1);
    let n2 = forca(o2);
    let k1 = escrito(o1).len() as int;
    let k2 = escrito(o2).len() as int;
    lema_sobe(ts, i, n1 + 1, 6, a, j);
    lema_sobe(ts, j + k1, n1 + 1, 6, b, k);
    lema_une(ts, i, n1, a, j, o1, k1, b, k);
    lema_sobe(ts, i, n2 + 1, n1, entre(a, o1, b), k);
    lema_sobe(ts, k + k2, n2 + 1, 6, c, l);
    lema_une(ts, i, n2, entre(a, o1, b), k, o2, k2, c, l);
    lema_sobe(ts, i, 0, n2, entre(entre(a, o1, b), o2, c), l);
}

proof fn lema_igual(
    ts: Seq<TokenSituado>,
    i: int,
    a: ArvoreExpr,
    j: int,
    o1: Conector,
    b: ArvoreExpr,
    k: int,
    o2: Conector,
    c: ArvoreExpr,
    l: int,
)
    requires
        operandos(ts, i, a, j, o1, b, k, o2, c, l),
        forca(o2) == forca(o1),
    ensures
        sintaxe::binario_em(ts, i, 0) == Ok::<(ArvoreExpr, int), sintaxe::Falha>((entre(entre(a, o1, b), o2, c), l)),
{
    let n1 = forca(o1);
    let k1 = escrito(o1).len() as int;
    let k2 = escrito(o2).len() as int;
    let e = entre(entre(a, o1, b), o2, c);
    lema_sobe(ts, i, n1 + 1, 6, a, j);
    lema_sobe(ts, j + k1, n1 + 1, 6, b, k);
    lema_sobe(ts, k + k2, n1 + 1, 6, c, l);
    assert(sintaxe::operador(ts, j, n1) == Some((o1, k1)));
    assert(sintaxe::operador(ts, k, n1) == Some((o2, k2)));
    assert(sintaxe::operador(ts, l, n1) is None);
    assert(sintaxe::ligada(o1, a, b) == entre(a, o1, b));
    assert(sintaxe::ligada(o2, entre(a, o1, b), c) == e);
    assert(sintaxe::resto_binario(ts, l, n1, e) == Ok::<(ArvoreExpr, int), sintaxe::Falha>((e, l)));
    assert(sintaxe::resto_binario(ts, k, n1, entre(a, o1, b)) == Ok::<(ArvoreExpr, int), sintaxe::Falha>((e, l)));
    assert(sintaxe::resto_binario(ts, j, n1, a) == Ok::<(ArvoreExpr, int), sintaxe::Falha>((e, l)));
    assert(sintaxe::binario_em(ts, i, n1) == Ok::<(ArvoreExpr, int), sintaxe::Falha>((e, l)));
    lema_sobe(ts, i, 0, n1, e, l);
}

/// Um operador entre duas expressoes sem operadores da a arvore dele com os lados pela ordem.
pub proof fn lei_operador(
    ts: Seq<TokenSituado>,
    i: int,
    a: ArvoreExpr,
    j: int,
    o: Conector,
    b: ArvoreExpr,
    k: int,
)
    requires
        0 <= i < j,
        sintaxe::unario_em(ts, i) == Ok::<(ArvoreExpr, int), sintaxe::Falha>((a, j)),
        esta(ts, j, o),
        j + escrito(o).len() < k <= ts.len(),
        sintaxe::unario_em(ts, j + escrito(o).len()) == Ok::<(ArvoreExpr, int), sintaxe::Falha>((b, k)),
        fecha(sintaxe::tok(ts, k)),
    ensures
        sintaxe::expr_em(ts, i) == Ok::<(ArvoreExpr, int), sintaxe::Falha>((entre(a, o, b), k)),
{
    let n = forca(o);
    let k1 = escrito(o).len() as int;
    lema_esta(ts, j, o);
    lema_fecha(ts, k);
    assert(sintaxe::binario_em(ts, i, 6) == sintaxe::unario_em(ts, i));
    assert(sintaxe::binario_em(ts, j + k1, 6) == sintaxe::unario_em(ts, j + k1));
    lema_sobe(ts, i, n + 1, 6, a, j);
    lema_sobe(ts, j + k1, n + 1, 6, b, k);
    lema_une(ts, i, n, a, j, o, k1, b, k);
    lema_sobe(ts, i, 0, n, entre(a, o, b), k);
    lema_toda(ts, i, entre(a, o, b), k);
}

/// Uma expressao sem operadores, seguida do que nao a continua, e a expressao toda.
pub proof fn lei_sozinha(ts: Seq<TokenSituado>, i: int, a: ArvoreExpr, j: int)
    requires
        0 <= i < j <= ts.len(),
        sintaxe::unario_em(ts, i) == Ok::<(ArvoreExpr, int), sintaxe::Falha>((a, j)),
        fecha(sintaxe::tok(ts, j)),
    ensures
        sintaxe::expr_em(ts, i) == Ok::<(ArvoreExpr, int), sintaxe::Falha>((a, j)),
{
    lema_fecha(ts, j);
    assert(sintaxe::binario_em(ts, i, 6) == sintaxe::unario_em(ts, i));
    lema_sobe(ts, i, 0, 6, a, j);
    lema_toda(ts, i, a, j);
}

/// O que pode vir depois de uma expressao elementar sem a continuar: o que fecha uma expressao ou um
/// operador.
pub open spec fn separa(ts: Seq<TokenSituado>, i: int) -> bool {
    fecha(sintaxe::tok(ts, i)) || sintaxe::tok(ts, i) is Atribuicao || sintaxe::composto(sintaxe::tok(ts, i)) is Some
        || exists|c: Conector| esta(ts, i, c)
}

proof fn lema_separa(ts: Seq<TokenSituado>, i: int)
    requires
        separa(ts, i),
    ensures
        !(sintaxe::tok(ts, i) is ParenEsq),
        !(sintaxe::tok(ts, i) is ColcheteEsq),
        !(sintaxe::tok(ts, i) is Ponto),
        !(sintaxe::tok(ts, i) is PontoOpcional),
        !(sintaxe::tok(ts, i) is Seta),
{
    if exists|c: Conector| esta(ts, i, c) {
        let c = choose|c: Conector| esta(ts, i, c);
        assert(sintaxe::tok(ts, i + 0) == escrito(c)[0]);
    }
}

/// Um literal ou um nome, seguido do que nao o continua, da a sua arvore.
pub proof fn lei_atomo(ts: Seq<TokenSituado>, i: int)
    requires
        0 <= i < ts.len(),
        atomo(sintaxe::tok(ts, i)) is Some,
        separa(ts, i + 1),
    ensures
        sintaxe::unario_em(ts, i) == Ok::<(ArvoreExpr, int), sintaxe::Falha>((atomo(sintaxe::tok(ts, i))->Some_0, i + 1)),
{
    lema_separa(ts, i + 1);
    let e = atomo(sintaxe::tok(ts, i))->Some_0;
    assert(sintaxe::primario_em(ts, i) == Ok::<(ArvoreExpr, int), sintaxe::Falha>((e, i + 1)));
    lema_sem_sufixo(ts, i + 1, e);
    assert(sintaxe::chamada_em(ts, i) == Ok::<(ArvoreExpr, int), sintaxe::Falha>((e, i + 1)));
}

pub proof fn lema_sem_sufixo(ts: Seq<TokenSituado>, i: int, e: ArvoreExpr)
    requires
        separa(ts, i),
    ensures
        sintaxe::resto_chamada(ts, i, e) == Ok::<(ArvoreExpr, int), sintaxe::Falha>((e, i)),
{
    lema_separa(ts, i);
    assert(sintaxe::sufixo_em(ts, i, e) == Ok::<(Option<ArvoreExpr>, int), sintaxe::Falha>((None, i)));
}

/// Entre operandos de um so token, `a + b * c` e `a + (b * c)` e `a * b + c` e `(a * b) + c`; o mesmo com
/// `-` no lugar de `+` e com `/`, `//` e `%` no lugar de `*`.
pub proof fn lei_produto_antes_da_soma(ts: Seq<TokenSituado>, i: int, soma: OpBinario, produto: OpBinario)
    requires
        0 <= i,
        i + 5 < ts.len(),
        soma == OpBinario::Soma || soma == OpBinario::Subtracao,
        produto == OpBinario::Multiplicacao || produto == OpBinario::Divisao || produto == OpBinario::DivisaoInteira
            || produto == OpBinario::Modulo,
        atomo(ts[i].token) is Some,
        atomo(ts[i + 2].token) is Some,
        atomo(ts[i + 4].token) is Some,
        fecha(ts[i + 5].token),
    ensures
        ({
            let a = atomo(ts[i].token)->Some_0;
            let b = atomo(ts[i + 2].token)->Some_0;
            let c = atomo(ts[i + 4].token)->Some_0;
            let s: TokenDe<Seq<char>> = match soma {
                OpBinario::Soma => TokenDe::Mais,
                _ => TokenDe::Menos,
            };
            let p: TokenDe<Seq<char>> = match produto {
                OpBinario::Multiplicacao => TokenDe::Estrela,
                OpBinario::Divisao => TokenDe::Barra,
                OpBinario::DivisaoInteira => TokenDe::BarraBarra,
                _ => TokenDe::Percentual,
            };
            &&& ts[i + 1].token == s && ts[i + 3].token == p ==> sintaxe::expr_em(ts, i) == Ok::<
                (ArvoreExpr, int),
                sintaxe::Falha,
            >(
                (
                    ArvoreExpr::BinOp {
                        esq: Box::new(a),
                        op: soma,
                        dir: Box::new(ArvoreExpr::BinOp { esq: Box::new(b), op: produto, dir: Box::new(c) }),
                    },
                    i + 5,
                ),
            )
            &&& ts[i + 1].token == p && ts[i + 3].token == s ==> sintaxe::expr_em(ts, i) == Ok::<
                (ArvoreExpr, int),
                sintaxe::Falha,
            >(
                (
                    ArvoreExpr::BinOp {
                        esq: Box::new(ArvoreExpr::BinOp { esq: Box::new(a), op: produto, dir: Box::new(b) }),
                        op: soma,
                        dir: Box::new(c),
                    },
                    i + 5,
                ),
            )
        }),
{
    let cs = Conector::Binario(soma);
    let cp = Conector::Binario(produto);
    let a = atomo(ts[i].token)->Some_0;
    let b = atomo(ts[i + 2].token)->Some_0;
    let c = atomo(ts[i + 4].token)->Some_0;
    if ts[i + 1].token == escrito(cs)[0] && ts[i + 3].token == escrito(cp)[0] {
        assert(esta(ts, i + 1, cs));
        assert(esta(ts, i + 3, cp));
        lei_atomo(ts, i);
        lei_atomo(ts, i + 2);
        lei_atomo(ts, i + 4);
        lei_precedencia(ts, i, a, i + 1, cs, b, i + 3, cp, c, i + 5);
    }
    if ts[i + 1].token == escrito(cp)[0] && ts[i + 3].token == escrito(cs)[0] {
        assert(esta(ts, i + 1, cp));
        assert(esta(ts, i + 3, cs));
        lei_atomo(ts, i);
        lei_atomo(ts, i + 2);
        lei_atomo(ts, i + 4);
        lei_precedencia(ts, i, a, i + 1, cp, b, i + 3, cs, c, i + 5);
    }
}

} // verus!
