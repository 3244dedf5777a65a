//! Templates: texto com codigo embutido entre `<?pep` e `?>`, `<?` e `?>`, `<?=` e `?>`.
//!
//! Um template torna-se um programa so: o texto e escrito, o codigo fica como esta e as
//! expressoes sao escritas. Assim um bloco pode comecar numa marca e acabar noutra.

use vstd::prelude::*;
use crate::ast;
use crate::ast::{ArvoreInstr, Programa};
use crate::busca;
use crate::bytecode::Op;
use crate::bytecode;
use crate::fonte;
use crate::fonte::{ErroFonte, FalhaFonte};
use crate::texto;

verus! {

/// Uma parte de um template.
#[derive(Debug)]
pub enum Segmento {
    Texto(String),
    Codigo(String),
    Expressao(String),
}

/// Uma parte de um template, vista como valor matematico.
pub ghost enum Parte {
    Texto(Seq<char>),
    Codigo(Seq<char>),
    Expressao(Seq<char>),
}

impl Segmento {
    pub open spec fn view(&self) -> Parte {
        match self {
            Segmento::Texto(t) => Parte::Texto(t@),
            Segmento::Codigo(t) => Parte::Codigo(t@),
            Segmento::Expressao(t) => Parte::Expressao(t@),
        }
    }
}

/// As partes que os segmentos representam.
pub open spec fn partes_de(v: Seq<Segmento>) -> Seq<Parte> {
    v.map(|i: int, s: Segmento| s@)
}

/// Que marca comeca uma parte.
#[derive(Debug, Copy, Clone, PartialEq, Eq, Structural)]
pub enum TipoTag {
    CodigoLongo,
    CodigoCurto,
    Expressao,
}

/// Uma marca que nao fecha, na linha dada.
#[derive(Debug, Copy, Clone, PartialEq, Eq, Structural)]
pub enum TagAberta {
    Expressao { linha: usize },
    Codigo { linha: usize },
}

/// A primeira marca curta a partir de `i`: `<?` que nao seja `<?=` nem `<?pep`.
pub open spec fn tag_curta(s: Seq<char>, i: int) -> Option<int>
    decreases s.len() - i,
{
    if i < 0 || i > s.len() {
        None
    } else {
        proof {
            lema_literais();
            busca::lema_primeira(s, "<?"@, i);
        }
        match busca::primeira(s, "<?"@, i) {
            None => None,
            Some(p) => if !busca::ocorre(s, "<?="@, p) && !busca::ocorre(s, "<?pep"@, p) {
                Some(p)
            } else {
                tag_curta(s, p + 2)
            },
        }
    }
}

/// A menor de duas posicoes com o seu tipo.
pub open spec fn menor(a: Option<(int, TipoTag)>, p: Option<int>, t: TipoTag) -> Option<(int, TipoTag)> {
    match (a, p) {
        (Some((x, u)), Some(y)) => if y < x {
            Some((y, t))
        } else {
            Some((x, u))
        },
        (None, Some(y)) => Some((y, t)),
        (_, None) => a,
    }
}

/// A primeira marca a partir de `i`.
pub open spec fn proxima_tag(s: Seq<char>, i: int) -> Option<(int, TipoTag)> {
    menor(
        menor(
            menor(None, busca::primeira(s, "<?pep"@, i), TipoTag::CodigoLongo),
            busca::primeira(s, "<?="@, i),
            TipoTag::Expressao,
        ),
        tag_curta(s, i),
        TipoTag::CodigoCurto,
    )
}

/// Quantos caracteres tem a marca.
pub open spec fn largura(t: TipoTag) -> int {
    match t {
        TipoTag::CodigoLongo => 5,
        TipoTag::CodigoCurto => 2,
        TipoTag::Expressao => 3,
    }
}

/// Quantas quebras de linha ha.
pub open spec fn quebras(s: Seq<char>) -> int
    decreases s.len(),
{
    if s.len() == 0 {
        0
    } else {
        quebras(s.drop_last()) + if s.last() == '\n' {
            1int
        } else {
            0int
        }
    }
}

/// As partes a partir da posicao `i`, que esta na linha dada, depois das que ja estao em
/// `acc`.
pub open spec fn segmentos_em(s: Seq<char>, i: int, linha: int, acc: Seq<Parte>) -> Result<Seq<Parte>, TagAberta>
    decreases s.len() - i,
{
    if i < 0 || i >= s.len() {
        Ok(acc)
    } else {
        proof {
            lema_proxima(s, i);
        }
        match proxima_tag(s, i) {
            None => Ok(acc.push(Parte::Texto(s.subrange(i, s.len() as int)))),
            Some((p, t)) => {
                let texto = s.subrange(i, p);
                let acc1 = if p > i {
                    acc.push(Parte::Texto(texto))
                } else {
                    acc
                };
                let l = linha + quebras(texto);
                let c = p + largura(t);
                proof {
                    busca::lema_primeira(s, "?>"@, c);
                }
                match busca::primeira(s, "?>"@, c) {
                    None => Err(
                        if t == TipoTag::Expressao {
                            TagAberta::Expressao { linha: l as usize }
                        } else {
                            TagAberta::Codigo { linha: l as usize }
                        },
                    ),
                    Some(f) => {
                        let dentro = s.subrange(c, f);
                        let parte = if t == TipoTag::Expressao {
                            Parte::Expressao(texto::aparado(dentro))
                        } else {
                            Parte::Codigo(dentro)
                        };
                        segmentos_em(s, f + 2, l + quebras(dentro), acc1.push(parte))
                    },
                }
            },
        }
    }
}

/// As partes de um template.
pub open spec fn segmentos(s: Seq<char>) -> Result<Seq<Parte>, TagAberta> {
    segmentos_em(s, 0, 1, Seq::empty())
}

pub proof fn lema_literais()
    ensures
        "<?"@.len() == 2,
        "<?="@.len() == 3,
        "<?pep"@.len() == 5,
        "?>"@.len() == 2,
{
    reveal_strlit("<?");
    reveal_strlit("<?=");
    reveal_strlit("<?pep");
    reveal_strlit("?>");
}

proof fn lema_curta(s: Seq<char>, i: int)
    requires
        0 <= i <= s.len(),
    ensures
        tag_curta(s, i) matches Some(p) ==> i <= p && p + 2 <= s.len(),
    decreases s.len() - i,
{
    lema_literais();
    busca::lema_primeira(s, "<?"@, i);
    match busca::primeira(s, "<?"@, i) {
        None => {},
        Some(p) => {
            if busca::ocorre(s, "<?="@, p) || busca::ocorre(s, "<?pep"@, p) {
                lema_curta(s, p + 2);
            }
        },
    }
}

pub proof fn lema_proxima(s: Seq<char>, i: int)
    requires
        0 <= i <= s.len(),
    ensures
        proxima_tag(s, i) matches Some((p, t)) ==> i <= p && p + largura(t) <= s.len(),
        "?>"@.len() == 2,
{
    lema_literais();
    lema_curta(s, i);
    busca::lema_primeira(s, "<?pep"@, i);
    busca::lema_primeira(s, "<?="@, i);
}

/// Procura a primeira marca curta.
pub fn encontrar_tag_curta(s: &[char], de: usize) -> (r: Option<usize>)
    requires
        de <= s@.len(),
    ensures
        match r {
            Some(p) => tag_curta(s@, de as int) == Some(p as int),
            None => tag_curta(s@, de as int) is None,
        },
{
    let abre = texto::caracteres("<?");
    let igual = texto::caracteres("<?=");
    let longa = texto::caracteres("<?pep");
    let mut i: usize = de;
    proof {
        lema_literais();
    }
    loop
        invariant
            i <= s@.len(),
            abre@ == "<?"@,
            igual@ == "<?="@,
            longa@ == "<?pep"@,
            "<?"@.len() == 2,
            tag_curta(s@, de as int) == tag_curta(s@, i as int),
        decreases s@.len() - i,
    {
        proof {
            busca::lema_primeira(s@, "<?"@, i as int);
        }
        match busca::achar_texto(s, &abre, i) {
            None => {
                return None;
            },
            Some(p) => {
                if !busca::ocorre_em(s, &igual, p) && !busca::ocorre_em(s, &longa, p) {
                    return Some(p);
                }
                assert(s@.len() == s.len());
                i = p + 2;
            },
        }
    }
}

fn mais_perto(a: Option<(usize, TipoTag)>, p: Option<usize>, t: TipoTag) -> (r: Option<(usize, TipoTag)>)
    ensures
        tag_vista(r) == menor(tag_vista(a), posicao_vista(p), t),
{
    match (a, p) {
        (Some((x, u)), Some(y)) => if y < x {
            Some((y, t))
        } else {
            Some((x, u))
        },
        (None, Some(y)) => Some((y, t)),
        (_, None) => a,
    }
}

spec fn tag_vista(a: Option<(usize, TipoTag)>) -> Option<(int, TipoTag)> {
    match a {
        Some((x, t)) => Some((x as int, t)),
        None => None,
    }
}

spec fn posicao_vista(a: Option<usize>) -> Option<int> {
    match a {
        Some(x) => Some(x as int),
        None => None,
    }
}

fn achar_tag(s: &[char], i: usize) -> (r: Option<(usize, TipoTag)>)
    requires
        i <= s@.len(),
    ensures
        tag_vista(r) == proxima_tag(s@, i as int),
{
    let longa = texto::caracteres("<?pep");
    let igual = texto::caracteres("<?=");
    let a = mais_perto(None, busca::achar_texto(s, &longa, i), TipoTag::CodigoLongo);
    let b = mais_perto(a, busca::achar_texto(s, &igual, i), TipoTag::Expressao);
    mais_perto(b, encontrar_tag_curta(s, i), TipoTag::CodigoCurto)
}

/// Conta as quebras de linha.
pub fn conta_linhas(s: &[char]) -> (r: usize)
    ensures
        r == quebras(s@),
        r <= s@.len(),
{
    let mut n: usize = 0;
    for i in 0..s.len()
        invariant
            n == quebras(s@.take(i as int)),
            n <= i,
    {
        assert(s@.take(i + 1).drop_last() =~= s@.take(i as int));
        if s[i] == '\n' {
            n += 1;
        }
    }
    assert(s@.take(s@.len() as int) =~= s@);
    n
}

/// Divide um template em partes.
pub fn segmentar(fonte: &str) -> (r: Result<Vec<Segmento>, TagAberta>)
    requires
        fonte@.len() < usize::MAX,
    ensures
        match r {
            Ok(v) => segmentos(fonte@) == Ok::<_, TagAberta>(partes_de(v@)),
            Err(e) => segmentos(fonte@) == Err::<Seq<Parte>, _>(e),
        },
{
    let s = texto::caracteres(fonte);
    let fecha = texto::caracteres("?>");
    let mut v: Vec<Segmento> = Vec::new();
    let mut i: usize = 0;
    let mut linha: usize = 1;
    assert(partes_de(v@) =~= Seq::<Parte>::empty());
    while i < s.len()
        invariant
            s@ == fonte@,
            fecha@ == "?>"@,
            i <= s@.len(),
            s@.len() < usize::MAX,
            1 <= linha <= i + 1,
            segmentos(fonte@) == segmentos_em(s@, i as int, linha as int, partes_de(v@)),
        decreases s@.len() - i,
    {
        proof {
            lema_proxima(s@, i as int);
        }
        let ghost acc = partes_de(v@);
        match achar_tag(&s, i) {
            None => {
                let t = texto::de_caracteres(vstd::slice::slice_subrange(&s, i, s.len()));
                v.push(Segmento::Texto(t));
                assert(partes_de(v@) =~= acc.push(Parte::Texto(t@)));
                return Ok(v);
            },
            Some((p, tipo)) => {
                let antes = vstd::slice::slice_subrange(&s, i, p);
                if p > i {
                    let t = texto::de_caracteres(antes);
                    v.push(Segmento::Texto(t));
                    assert(partes_de(v@) =~= acc.push(Parte::Texto(t@)));
                }
                let ghost acc1 = partes_de(v@);
                let l: usize = linha + conta_linhas(antes);
                let c: usize = p + match tipo {
                    TipoTag::CodigoLongo => 5,
                    TipoTag::CodigoCurto => 2,
                    TipoTag::Expressao => 3,
                };
                match busca::achar_texto(&s, &fecha, c) {
                    None => {
                        return Err(
                            match tipo {
                                TipoTag::Expressao => TagAberta::Expressao { linha: l },
                                _ => TagAberta::Codigo { linha: l },
                            },
                        );
                    },
                    Some(f) => {
                        let dentro = vstd::slice::slice_subrange(&s, c, f);
                        let seg = match tipo {
                            TipoTag::Expressao => Segmento::Expressao(texto::de_caracteres(texto::aparar(dentro))),
                            _ => Segmento::Codigo(texto::de_caracteres(dentro)),
                        };
                        let ghost parte = seg@;
                        v.push(seg);
                        assert(partes_de(v@) =~= acc1.push(parte));
                        linha = l + conta_linhas(dentro);
                        i = f + 2;
                    },
                }
            },
        }
    }
    Ok(v)
}

/// Como um caractere se escreve num literal; as chaves dobram-se num literal que as interpola.
pub open spec fn no_literal(c: char, chaves: bool) -> Seq<char> {
    if c == '\\' {
        seq!['\\', '\\']
    } else if c == '"' {
        seq!['\\', '"']
    } else if chaves && (c == '{' || c == '}') {
        seq![c, c]
    } else {
        seq![c]
    }
}

/// Como os primeiros `n` caracteres de um texto se escrevem num literal.
pub open spec fn escapado_ate(t: Seq<char>, n: int, chaves: bool) -> Seq<char>
    decreases n,
{
    if n <= 0 || n > t.len() {
        Seq::empty()
    } else {
        escapado_ate(t, n - 1, chaves) + no_literal(t[n - 1], chaves)
    }
}

/// O texto escrito como literal: com `\` e `"` escapados e as chaves dobradas. So um literal com
/// `{` interpola, e so nele se dobram.
pub open spec fn escapado(t: Seq<char>) -> Seq<char> {
    escapado_ate(t, t.len() as int, t.contains('{'))
}

/// Escapa um texto para um literal.
pub fn escapar(t: &str) -> (r: String)
    ensures
        r@ == escapado(t@),
{
    let cs = texto::caracteres(t);
    let mut chaves = false;
    for i in 0..cs.len()
        invariant
            cs@ == t@,
            chaves == exists|k: int| 0 <= k < i && #[trigger] cs@[k] == '{',
    {
        if cs[i] == '{' {
            chaves = true;
        }
    }
    assert(chaves == t@.contains('{'));
    let mut v: Vec<char> = Vec::new();
    for i in 0..cs.len()
        invariant
            cs@ == t@,
            v@ == escapado_ate(t@, i as int, chaves),
    {
        let ghost antes = v@;
        let c = cs[i];
        if c == '\\' || c == '"' {
            v.push('\\');
        } else if chaves && (c == '{' || c == '}') {
            v.push(c);
        }
        v.push(c);
        assert(v@ =~= antes + no_literal(c, chaves));
    }
    texto::de_caracteres(v.as_slice())
}

/// As linhas de programa de uma parte.
pub open spec fn linhas_da_parte(p: Parte) -> Seq<char> {
    match p {
        Parte::Texto(t) => if t.len() == 0 {
            Seq::empty()
        } else {
            "escrever(\""@ + escapado(t) + "\")\n"@
        },
        Parte::Codigo(c) => c + "\n"@,
        Parte::Expressao(e) => "escrever("@ + e + ")\n"@,
    }
}

/// O programa das primeiras partes.
pub open spec fn programa_das_partes(ps: Seq<Parte>) -> Seq<char>
    decreases ps.len(),
{
    if ps.len() == 0 {
        Seq::empty()
    } else {
        programa_das_partes(ps.drop_last()) + linhas_da_parte(ps.last())
    }
}

/// O programa em que um template se torna.
pub open spec fn convertido(s: Seq<char>) -> Result<Seq<char>, TagAberta> {
    match segmentos(s) {
        Ok(ps) => Ok(programa_das_partes(ps)),
        Err(e) => Err(e),
    }
}

/// Converte um template em programa.
pub fn converter_para_programa(fonte: &str) -> (r: Result<String, TagAberta>)
    requires
        fonte@.len() < usize::MAX,
    ensures
        match r {
            Ok(p) => convertido(fonte@) == Ok::<_, TagAberta>(p@),
            Err(e) => convertido(fonte@) == Err::<Seq<char>, _>(e),
        },
{
    let v = match segmentar(fonte) {
        Ok(v) => v,
        Err(e) => return Err(e),
    };
    let ghost ps = partes_de(v@);
    let mut programa = String::new();
    for i in 0..v.len()
        invariant
            ps == partes_de(v@),
            programa@ == programa_das_partes(ps.take(i as int)),
    {
        let ghost antes = programa@;
        assert(ps.take(i + 1).drop_last() =~= ps.take(i as int));
        assert(ps.take(i + 1).last() == v@[i as int]@);
        match &v[i] {
            Segmento::Texto(t) => {
                if !t.as_str().is_empty() {
                    programa.append("escrever(\"");
                    let e = escapar(t.as_str());
                    programa.append(e.as_str());
                    programa.append("\")\n");
                }
            },
            Segmento::Codigo(c) => {
                programa.append(c.as_str());
                programa.append("\n");
            },
            Segmento::Expressao(e) => {
                programa.append("escrever(");
                programa.append(e.as_str());
                programa.append(")\n");
            },
        }
        assert(programa@ =~= antes + linhas_da_parte(v@[i as int]@));
    }
    assert(ps.take(ps.len() as int) =~= ps);
    Ok(programa)
}

/// Por que um template nao e um programa.
pub enum ErroTemplate {
    Tag(TagAberta),
    Fonte(ErroFonte),
    /// O programa em que o template se torna nao cabe.
    Grande,
}

/// Analisa o programa em que um template se torna.
pub fn compilar(fonte: &str) -> (r: Result<Programa, ErroTemplate>)
    requires
        fonte@.len() < usize::MAX,
    ensures
        match convertido(fonte@) {
            Ok(p) => match r {
                Ok(v) => fonte::programa_de(p) == Ok::<_, FalhaFonte>(ast::instrs(v@)),
                Err(ErroTemplate::Fonte(e)) => fonte::programa_de(p) == Err::<Seq<ArvoreInstr>, _>(e@),
                Err(ErroTemplate::Grande) => 4 * p.len() >= usize::MAX,
                Err(ErroTemplate::Tag(_)) => false,
            },
            Err(t) => r matches Err(ErroTemplate::Tag(e)) && e == t,
        },
{
    match converter_para_programa(fonte) {
        Ok(p) => {
            let cs = texto::caracteres(p.as_str());
            if cs.len() > (usize::MAX - 1) / 4 {
                return Err(ErroTemplate::Grande);
            }
            match fonte::analisar(p.as_str()) {
                Ok(v) => Ok(v),
                Err(e) => Err(ErroTemplate::Fonte(e)),
            }
        },
        Err(e) => Err(ErroTemplate::Tag(e)),
    }
}

/// Verifica um template sem o executar.
pub fn verificar(fonte: &str) -> (r: Result<(), ErroTemplate>)
    requires
        fonte@.len() < usize::MAX,
    ensures
        match convertido(fonte@) {
            Ok(p) => match r {
                Ok(_) => fonte::programa_de(p) is Ok,
                Err(ErroTemplate::Fonte(e)) => fonte::programa_de(p) == Err::<Seq<ArvoreInstr>, _>(e@),
                Err(ErroTemplate::Grande) => 4 * p.len() >= usize::MAX,
                Err(ErroTemplate::Tag(_)) => false,
            },
            Err(t) => r matches Err(ErroTemplate::Tag(e)) && e == t,
        },
{
    match compilar(fonte) {
        Ok(_) => Ok(()),
        Err(e) => Err(e),
    }
}

/// Analisa e compila um programa ou um template.
pub fn compilar_bytecode_str(fonte: &str, e_template: bool) -> (r: Result<Vec<Op>, ErroTemplate>)
    requires
        4 * fonte@.len() < usize::MAX,
    ensures
        ({
            let p = if e_template {
                convertido(fonte@)
            } else {
                Ok(fonte@)
            };
            match p {
                Err(t) => r matches Err(ErroTemplate::Tag(e)) && e == t,
                Ok(s) => match (fonte::programa_de(s), r) {
                    (_, Err(ErroTemplate::Grande)) => 4 * s.len() >= usize::MAX,
                    (_, Err(ErroTemplate::Tag(_))) => false,
                    (Err(f), _) => r matches Err(ErroTemplate::Fonte(e)) && e@ == f,
                    (Ok(p), Ok(ops)) => fonte::codigo_de(p) == Ok::<_, FalhaFonte>(bytecode::comandos(ops@)),
                    (Ok(p), Err(ErroTemplate::Fonte(e))) => fonte::codigo_de(p) == Err::<Seq<bytecode::Comando>, _>(e@),
                },
            }
        }),
{
    let programa = if e_template {
        match compilar(fonte) {
            Ok(p) => p,
            Err(e) => return Err(e),
        }
    } else {
        match fonte::analisar(fonte) {
            Ok(p) => p,
            Err(e) => return Err(ErroTemplate::Fonte(e)),
        }
    };
    match fonte::gerar(&programa) {
        Ok(ops) => Ok(ops),
        Err(e) => Err(ErroTemplate::Fonte(e)),
    }
}

/// A mensagem de uma marca que nao fecha.
pub open spec fn frase_da_tag(e: TagAberta) -> Seq<char> {
    match e {
        TagAberta::Expressao { linha } => "Tag '<?=' nao fechada (linha "@ + texto::decimal(linha as nat) + ")"@,
        TagAberta::Codigo { linha } => "Tag de codigo PEP nao fechada (linha "@ + texto::decimal(linha as nat) + ")"@,
    }
}

/// A mensagem de uma marca que nao fecha.
pub fn mensagem_tag(e: &TagAberta) -> (r: String)
    ensures
        r@ == frase_da_tag(*e),
{
    let (inicio, linha) = match e {
        TagAberta::Expressao { linha } => ("Tag '<?=' nao fechada (linha ", *linha),
        TagAberta::Codigo { linha } => ("Tag de codigo PEP nao fechada (linha ", *linha),
    };
    let mut m = inicio.to_owned();
    let n = texto::natural(linha as u64);
    m.append(n.as_str());
    m.append(")");
    m
}

/// Um template sem marcas torna-se um programa que escreve o texto dele.
pub proof fn lei_sem_marcas(s: Seq<char>)
    requires
        s.len() > 0,
        proxima_tag(s, 0) is None,
    ensures
        convertido(s) == Ok::<Seq<char>, TagAberta>("escrever(\""@ + escapado(s) + "\")\n"@),
{
    let ps = seq![Parte::Texto(s)];
    assert(s.subrange(0, s.len() as int) =~= s);
    assert(Seq::<Parte>::empty().push(Parte::Texto(s)) =~= ps);
    assert(ps.drop_last() =~= Seq::<Parte>::empty());
    assert(programa_das_partes(ps.drop_last()) =~= Seq::<char>::empty());
    assert(programa_das_partes(ps) =~= linhas_da_parte(Parte::Texto(s)));
}

} // verus!
