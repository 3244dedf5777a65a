//! Ferramentas sobre o codigo-fonte: contagem de delimitadores, formatacao e documentacao.

use vstd::prelude::*;
use crate::ast;
use crate::ast::{ArvoreInstr, ArvoreParam, Instrucao, Parametro, Programa};
use crate::busca;
use crate::texto;

verus! {

/// O que se sabe ao ler um texto: quantas chaves e parenteses abriram e fecharam, e se se
/// esta dentro de um texto entre aspas.
#[derive(Copy, Clone, PartialEq, Eq, Structural)]
pub struct Contagem {
    pub chaves_ab: usize,
    pub chaves_fe: usize,
    pub parens_ab: usize,
    pub parens_fe: usize,
    pub em_texto: bool,
    pub delimitador: char,
    pub escape: bool,
}

/// Nada lido.
pub open spec fn inicio() -> Contagem {
    Contagem {
        chaves_ab: 0,
        chaves_fe: 0,
        parens_ab: 0,
        parens_fe: 0,
        em_texto: false,
        delimitador: '"',
        escape: false,
    }
}

/// O que se sabe depois de mais um caractere.
pub open spec fn lido(k: Contagem, c: char) -> Contagem {
    if k.escape {
        Contagem { escape: false, ..k }
    } else if k.em_texto {
        if c == '\\' {
            Contagem { escape: true, ..k }
        } else if c == k.delimitador {
            Contagem { em_texto: false, ..k }
        } else {
            k
        }
    } else if c == '"' || c == '\'' {
        Contagem { em_texto: true, delimitador: c, ..k }
    } else if c == '{' {
        Contagem { chaves_ab: (k.chaves_ab + 1) as usize, ..k }
    } else if c == '}' {
        Contagem { chaves_fe: (k.chaves_fe + 1) as usize, ..k }
    } else if c == '(' {
        Contagem { parens_ab: (k.parens_ab + 1) as usize, ..k }
    } else if c == ')' {
        Contagem { parens_fe: (k.parens_fe + 1) as usize, ..k }
    } else {
        k
    }
}

/// O que se sabe depois de ler um texto.
pub open spec fn contagem(s: Seq<char>) -> Contagem
    decreases s.len(),
{
    if s.len() == 0 {
        inicio()
    } else {
        lido(contagem(s.drop_last()), s.last())
    }
}

/// Conta as chaves e os parenteses que nao estao dentro de textos: chaves que abrem e
/// fecham, parenteses que abrem e fecham.
pub fn contar_delimitadores_fora_de_strings(s: &str) -> (r: (usize, usize, usize, usize))
    requires
        s@.len() < usize::MAX,
    ensures
        r.0 == contagem(s@).chaves_ab,
        r.1 == contagem(s@).chaves_fe,
        r.2 == contagem(s@).parens_ab,
        r.3 == contagem(s@).parens_fe,
        r.0 <= s@.len(),
        r.1 <= s@.len(),
{
    let v = texto::caracteres(s);
    let mut k = Contagem {
        chaves_ab: 0,
        chaves_fe: 0,
        parens_ab: 0,
        parens_fe: 0,
        em_texto: false,
        delimitador: '"',
        escape: false,
    };
    for i in 0..v.len()
        invariant
            v@ == s@,
            s@.len() < usize::MAX,
            k == contagem(s@.take(i as int)),
            k.chaves_ab <= i,
            k.chaves_fe <= i,
            k.parens_ab <= i,
            k.parens_fe <= i,
    {
        let c = v[i];
        assert(s@.take(i + 1).drop_last() =~= s@.take(i as int));
        assert(s@.take(i + 1).last() == c);
        if k.escape {
            k.escape = false;
        } else if k.em_texto {
            if c == '\\' {
                k.escape = true;
            } else if c == k.delimitador {
                k.em_texto = false;
            }
        } else if c == '"' || c == '\'' {
            k.em_texto = true;
            k.delimitador = c;
        } else if c == '{' {
            k.chaves_ab = k.chaves_ab + 1;
        } else if c == '}' {
            k.chaves_fe = k.chaves_fe + 1;
        } else if c == '(' {
            k.parens_ab = k.parens_ab + 1;
        } else if c == ')' {
            k.parens_fe = k.parens_fe + 1;
        }
    }
    assert(s@.take(s@.len() as int) =~= s@);
    (k.chaves_ab, k.chaves_fe, k.parens_ab, k.parens_fe)
}

/// Se o codigo digitado ja esta completo: tantas chaves e parenteses abriram quantos
/// fecharam.
pub fn completo(s: &str) -> (r: bool)
    requires
        s@.len() < usize::MAX,
    ensures
        r == (contagem(s@).chaves_ab == contagem(s@).chaves_fe && contagem(s@).parens_ab
            == contagem(s@).parens_fe),
{
    let (a, b, c, d) = contar_delimitadores_fora_de_strings(s);
    a == b && c == d
}

// ---- Formatacao -------------------------------------------------------------------------

/// Quantas chaves que fecham comecam a linha.
pub open spec fn fechos(s: Seq<char>) -> int
    decreases s.len(),
{
    if s.len() > 0 && s[0] == '}' {
        1 + fechos(s.skip(1))
    } else {
        0
    }
}

/// A diferenca, ou zero.
pub open spec fn menos(a: int, b: int) -> int {
    if a < b {
        0
    } else {
        a - b
    }
}

/// O recuo de um nivel.
pub open spec fn recuo(nivel: int) -> Seq<char>
    decreases nivel,
{
    if nivel <= 0 {
        Seq::empty()
    } else {
        recuo(nivel - 1) + "    "@
    }
}

/// O texto formatado e o nivel depois das primeiras `n` linhas.
pub open spec fn formatado(ls: Seq<Seq<char>>, n: int) -> (Seq<char>, int)
    decreases n,
{
    if n <= 0 || n > ls.len() {
        (Seq::empty(), 0)
    } else {
        let (antes, nivel) = formatado(ls, n - 1);
        let t = texto::aparado(ls[n - 1]);
        if t.len() == 0 {
            (antes.push('\n'), nivel)
        } else {
            let f = fechos(t);
            let aqui = menos(nivel, f);
            let k = contagem(t);
            (
                (antes + recuo(aqui) + t).push('\n'),
                menos(aqui + k.chaves_ab, menos(k.chaves_fe as int, f)),
            )
        }
    }
}

fn contar_fechos(s: &[char]) -> (r: usize)
    ensures
        r == fechos(s@),
        r <= s@.len(),
{
    let mut i: usize = 0;
    assert(s@.skip(0) =~= s@);
    while i < s.len() && s[i] == '}'
        invariant
            i <= s@.len(),
            fechos(s@) == i + fechos(s@.skip(i as int)),
        decreases s@.len() - i,
    {
        assert(s@.skip(i as int).skip(1) =~= s@.skip(i + 1));
        i += 1;
    }
    i
}

fn recuar(s: &mut String, nivel: usize)
    ensures
        final(s)@ == old(s)@ + recuo(nivel as int),
{
    let ghost antes = s@;
    assert(antes + recuo(0) =~= antes);
    for i in 0..nivel
        invariant
            s@ == antes + recuo(i as int),
    {
        s.append("    ");
        assert(s@ =~= antes + recuo(i + 1));
    }
}

/// Soma dos comprimentos das primeiras `n` linhas.
spec fn total(ls: Seq<Seq<char>>, n: int) -> int
    decreases n,
{
    if n <= 0 || n > ls.len() {
        0
    } else {
        total(ls, n - 1) + ls[n - 1].len()
    }
}

proof fn lema_total(s: Seq<char>, i: int)
    requires
        0 <= i <= s.len(),
    ensures
        total(texto::linhas(s, i), texto::linhas(s, i).len() as int) <= s.len() - i,
    decreases s.len() - i,
{
    let ls = texto::linhas(s, i);
    if i < s.len() {
        texto::lema_proximo(s, '\n', i);
        let f = texto::proximo(s, '\n', i);
        if f < s.len() {
            let resto = texto::linhas(s, f + 1);
            lema_total(s, f + 1);
            lema_total_soma(ls[0], resto, resto.len() as int);
            assert(ls =~= seq![ls[0]] + resto);
        } else {
            assert(ls =~= seq![s.subrange(i, s.len() as int)]);
            assert(total(ls, 0) == 0);
        }
    } else {
        assert(ls.len() == 0);
    }
}

proof fn lema_total_soma(a: Seq<char>, resto: Seq<Seq<char>>, n: int)
    requires
        0 <= n <= resto.len(),
    ensures
        total(seq![a] + resto, n + 1) == a.len() + total(resto, n),
    decreases n,
{
    let v = seq![a] + resto;
    if n > 0 {
        lema_total_soma(a, resto, n - 1);
        assert(v[n] == resto[n - 1]);
    } else {
        assert(v[0] == a);
        assert(total(v, 0) == 0);
    }
}

proof fn lema_total_parcial(ls: Seq<Seq<char>>, a: int, b: int)
    requires
        0 <= a <= b <= ls.len(),
    ensures
        0 <= total(ls, a) <= total(ls, b),
    decreases b - a, b,
{
    if a < b {
        lema_total_parcial(ls, a, b - 1);
    } else if a > 0 {
        lema_total_parcial(ls, a - 1, a - 1);
    }
}

/// Formata um codigo: cada linha aparada e recuada pelo nivel de chaves.
pub fn formatar_codigo(codigo: &str) -> (r: String)
    requires
        codigo@.len() < usize::MAX,
    ensures
        r@ == formatado(texto::linhas(codigo@, 0), texto::linhas(codigo@, 0).len() as int).0,
{
    let cs = texto::caracteres(codigo);
    let ls = texto::separar_linhas(&cs);
    let ghost t = texto::linhas(codigo@, 0);
    let mut saida = String::new();
    let mut nivel: usize = 0;
    proof {
        lema_total(codigo@, 0);
        assert(texto::textos(ls@).len() == ls@.len());
        assert(saida@ =~= formatado(t, 0).0);
    }
    for i in 0..ls.len()
        invariant
            t == texto::textos(ls@),
            t.len() == ls@.len(),
            total(t, t.len() as int) <= codigo@.len(),
            codigo@.len() < usize::MAX,
            saida@ == formatado(t, i as int).0,
            nivel == formatado(t, i as int).1,
            nivel <= total(t, i as int),
    {
        assert(t[i as int] == ls@[i as int]@);
        proof {
            lema_total_parcial(t, i + 1, t.len() as int);
            lema_total_parcial(t, 0, i as int);
            texto::lema_inicio_util(ls@[i as int]@, 0);
            texto::lema_fim_util(
                texto::aparado_inicio(ls@[i as int]@),
                texto::aparado_inicio(ls@[i as int]@).len() as int,
            );
        }
        let linha = texto::caracteres(ls[i].as_str());
        let aparada = texto::aparar(&linha);
        let ghost a = aparada@;
        assert(a.len() <= t[i as int].len());
        if aparada.len() == 0 {
            saida.push('\n');
        } else {
            let f = contar_fechos(aparada);
            let aqui: usize = if nivel < f {
                0
            } else {
                nivel - f
            };
            recuar(&mut saida, aqui);
            let copia = texto::de_caracteres(aparada);
            saida.append(copia.as_str());
            saida.push('\n');
            let (abertas, fechadas, _, _) = contar_delimitadores_fora_de_strings(copia.as_str());
            let n: usize = aqui + abertas;
            let g: usize = if fechadas < f {
                0
            } else {
                fechadas - f
            };
            nivel = if n < g {
                0
            } else {
                n - g
            };
        }
    }
    saida
}

// ---- Documentacao -----------------------------------------------------------------------

/// Como um parametro aparece na documentacao.
pub open spec fn parametro_escrito(p: ArvoreParam) -> Seq<char> {
    if p.variadic {
        "..."@ + p.nome
    } else if p.padrao is Some {
        p.nome + "=..."@
    } else {
        p.nome
    }
}

/// A linha e a instrucao que ela traz.
pub open spec fn interna(a: ArvoreInstr) -> (Option<usize>, ArvoreInstr) {
    match a {
        ArvoreInstr::Localizada { linha, instrucao, .. } => (Some(linha), *instrucao),
        _ => (None, a),
    }
}

/// A documentacao de uma instrucao, se ela define uma funcao.
pub open spec fn documentada(a: ArvoreInstr) -> Option<Seq<char>> {
    let (linha, i) = interna(a);
    match i {
        ArvoreInstr::Funcao { nome, parametros, .. } => {
            let ps = busca::juntos(parametros.map(|k: int, p: ArvoreParam| parametro_escrito(p)), ", "@);
            Some(
                "## `"@ + nome + "`\n\n"@ + "```pep\nfuncao "@ + nome + "("@ + ps + ")\n```\n\n"@ + match linha {
                    Some(l) => "Definida na linha "@ + texto::decimal(l as nat) + ".\n\n"@,
                    None => Seq::empty(),
                },
            )
        },
        _ => None,
    }
}

/// A documentacao das primeiras `n` instrucoes e se ha nelas alguma funcao.
pub open spec fn documentadas(p: Seq<ArvoreInstr>, n: int) -> (Seq<char>, bool)
    decreases n,
{
    if n <= 0 || n > p.len() {
        (Seq::empty(), false)
    } else {
        let (antes, achou) = documentadas(p, n - 1);
        match documentada(p[n - 1]) {
            Some(d) => (antes + d, true),
            None => (antes, achou),
        }
    }
}

/// A documentacao de um programa.
pub open spec fn documentacao(arquivo: Seq<char>, p: Seq<ArvoreInstr>) -> Seq<char> {
    let (d, achou) = documentadas(p, p.len() as int);
    "# Documentacao de `"@ + arquivo + "`\n\n"@ + d + if achou {
        Seq::empty()
    } else {
        "Nenhuma funcao publica encontrada.\n"@
    }
}

fn escrever_parametro(p: &Parametro) -> (r: String)
    ensures
        r@ == parametro_escrito(p@),
{
    if p.variadic {
        let mut r = "...".to_owned();
        r.append(p.nome.as_str());
        r
    } else if p.padrao.is_some() {
        let mut r = p.nome.clone();
        r.append("=...");
        r
    } else {
        p.nome.clone()
    }
}

fn documentar(nome: &String, parametros: &Vec<Parametro>, linha: Option<usize>) -> (r: String)
    ensures
        r@ == "## `"@ + nome@ + "`\n\n"@ + "```pep\nfuncao "@ + nome@ + "("@ + busca::juntos(
            ast::params(parametros@).map(|k: int, p: ArvoreParam| parametro_escrito(p)),
            ", "@,
        ) + ")\n```\n\n"@ + match linha {
            Some(l) => "Definida na linha "@ + texto::decimal(l as nat) + ".\n\n"@,
            None => Seq::empty(),
        },
{
    let mut r = "## `".to_owned();
    r.append(nome.as_str());
    r.append("`\n\n");
    r.append("```pep\nfuncao ");
    r.append(nome.as_str());
    r.append("(");
    let mut ps: Vec<String> = Vec::new();
    let ghost t = ast::params(parametros@);
    for i in 0..parametros.len()
        invariant
            t == ast::params(parametros@),
            ps@.len() == i,
            forall|k: int| 0 <= k < i ==> (#[trigger] ps@[k])@ == parametro_escrito(t[k]),
    {
        assert(t[i as int] == parametros@[i as int]@);
        ps.push(escrever_parametro(&parametros[i]));
    }
    assert(texto::textos(ps@) =~= t.map(|k: int, p: ArvoreParam| parametro_escrito(p)));
    let juntos = busca::juntar(&ps, ", ");
    r.append(juntos.as_str());
    r.append(")\n```\n\n");
    let ghost antes = r@;
    match linha {
        Some(l) => {
            r.append("Definida na linha ");
            let n = texto::natural(l as u64);
            r.append(n.as_str());
            r.append(".\n\n");
            assert(r@ =~= antes + ("Definida na linha "@ + texto::decimal(l as nat) + ".\n\n"@));
        },
        None => {
            assert(r@ =~= antes + Seq::<char>::empty());
        },
    }
    r
}

/// Gera a documentacao das funcoes de um programa.
pub fn gerar_documentacao(arquivo: &str, programa: &Programa) -> (r: String)
    ensures
        r@ == documentacao(arquivo@, ast::instrs(programa@)),
{
    let mut doc = "# Documentacao de `".to_owned();
    doc.append(arquivo);
    doc.append("`\n\n");
    let ghost base = doc@;
    let ghost p = ast::instrs(programa@);
    let mut achou = false;
    assert(doc@ =~= base + documentadas(p, 0).0);
    for i in 0..programa.len()
        invariant
            p == ast::instrs(programa@),
            doc@ == base + documentadas(p, i as int).0,
            achou == documentadas(p, i as int).1,
    {
        let instr = &programa[i];
        assert(p[i as int] == instr@);
        let ghost antes = doc@;
        match instr {
            Instrucao::Localizada { linha, instrucao, contexto } => {
                assert(instr@ == ArvoreInstr::Localizada {
                    linha: *linha,
                    contexto: contexto@,
                    instrucao: Box::new(instrucao@),
                });
                if let Instrucao::Funcao { nome, parametros, corpo } = &**instrucao {
                    assert(instrucao@ == ArvoreInstr::Funcao {
                        nome: nome@,
                        parametros: ast::params(parametros@),
                        corpo: ast::instrs(corpo@),
                    });
                    let d = documentar(nome, parametros, Some(*linha));
                    doc.append(d.as_str());
                    achou = true;
                    assert(doc@ =~= base + documentadas(p, i + 1).0);
                }
            },
            Instrucao::Funcao { nome, parametros, corpo } => {
                assert(instr@ == ArvoreInstr::Funcao {
                    nome: nome@,
                    parametros: ast::params(parametros@),
                    corpo: ast::instrs(corpo@),
                });
                let d = documentar(nome, parametros, None);
                doc.append(d.as_str());
                achou = true;
                assert(doc@ =~= base + documentadas(p, i + 1).0);
            },
            _ => {},
        }
    }
    let ghost meio = doc@;
    if !achou {
        doc.append("Nenhuma funcao publica encontrada.\n");
    }
    assert(doc@ =~= documentacao(arquivo@, p));
    doc
}

} // verus!
