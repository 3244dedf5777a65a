//! Leis dos caminhos, das rotas, das queries e dos cookies.

use vstd::prelude::*;
use crate::busca;
use crate::servidor;
use crate::texto;

verus! {

/// Nenhum caractere do texto e `c`.
pub open spec fn sem(s: Seq<char>, c: char) -> bool {
    forall|i: int| 0 <= i < s.len() ==> #[trigger] s[i] != c
}

/// Nenhum dos textos tem `c`.
pub open spec fn todos_sem(v: Seq<Seq<char>>, c: char) -> bool {
    forall|i: int| 0 <= i < v.len() ==> sem(#[trigger] v[i], c)
}

proof fn lema_juntos_frente(v: Seq<Seq<char>>, sep: Seq<char>)
    requires
        v.len() >= 2,
    ensures
        busca::juntos(v, sep) == v[0] + sep + busca::juntos(v.skip(1), sep),
    decreases v.len(),
{
    let r = v.skip(1);
    assert(r.last() == v.last());
    if v.len() == 2 {
        assert(v.drop_last() =~= seq![v[0]]);
        assert(busca::juntos(v.drop_last(), sep) == v[0]);
        assert(busca::juntos(r, sep) == v[1]);
        assert(busca::juntos(v, sep) =~= v[0] + sep + busca::juntos(r, sep));
    } else {
        let d = v.drop_last();
        lema_juntos_frente(d, sep);
        assert(d.skip(1) =~= r.drop_last());
        assert(d[0] == v[0]);
        assert(busca::juntos(v, sep) =~= v[0] + sep + busca::juntos(r, sep));
    }
}

proof fn lema_proximo_em(s: Seq<char>, c: char, i: int, f: int)
    requires
        0 <= i <= f <= s.len(),
        forall|k: int| i <= k < f ==> s[k] != c,
        f < s.len() ==> s[f] == c,
    ensures
        texto::proximo(s, c, i) == f,
    decreases f - i,
{
    if i < f {
        lema_proximo_em(s, c, i + 1, f);
    }
}

proof fn lema_partes(s: Seq<char>, i: int, v: Seq<Seq<char>>, c: char)
    requires
        v.len() > 0,
        0 <= i <= s.len(),
        todos_sem(v, c),
        s.skip(i) == busca::juntos(v, seq![c]),
    ensures
        busca::partes(s, c, i) == v,
    decreases v.len(),
{
    let f = i + v[0].len();
    let t = s.skip(i);
    assert forall|k: int| 0 <= k < t.len() implies s[i + k] == #[trigger] t[k] by {}
    assert(sem(v[0], c));
    if v.len() == 1 {
        assert(t == v[0]);
        assert forall|k: int| i <= k < f implies s[k] != c by {
            assert(t[k - i] == s[k]);
        }
        lema_proximo_em(s, c, i, f);
        assert(s.subrange(i, s.len() as int) =~= v[0]);
        assert(busca::partes(s, c, i) =~= v);
    } else {
        lema_juntos_frente(v, seq![c]);
        let r = v.skip(1);
        assert(t == v[0] + seq![c] + busca::juntos(r, seq![c]));
        assert(t[v[0].len() as int] == c);
        assert forall|k: int| i <= k < f implies s[k] != c by {
            assert(t[k - i] == v[0][k - i]);
            assert(t[k - i] == s[k]);
        }
        lema_proximo_em(s, c, i, f);
        assert(s.subrange(i, f) =~= v[0]);
        assert(t.skip(v[0].len() as int + 1) =~= busca::juntos(r, seq![c]));
        assert(s.skip(f + 1) =~= t.skip(v[0].len() as int + 1));
        assert(todos_sem(r, c));
        lema_partes(s, f + 1, r, c);
        assert(busca::partes(s, c, i) =~= v);
    }
}

/// Juntar textos com um caractere que nao esta em nenhum deles e separa-los por ele da os mesmos
/// textos, pela mesma ordem.
pub proof fn lei_juntar_e_separar(v: Seq<Seq<char>>, c: char)
    requires
        v.len() > 0,
        todos_sem(v, c),
    ensures
        busca::partes(busca::juntos(v, seq![c]), c, 0) == v,
{
    let s = busca::juntos(v, seq![c]);
    assert(s.skip(0) =~= s);
    lema_partes(s, 0, v, c);
}

proof fn lema_separar(s: Seq<char>, c: char, i: int)
    requires
        0 <= i <= s.len(),
    ensures
        busca::partes(s, c, i).len() > 0,
        todos_sem(busca::partes(s, c, i), c),
        busca::juntos(busca::partes(s, c, i), seq![c]) == s.skip(i),
    decreases s.len() - i,
{
    texto::lema_proximo(s, c, i);
    let f = texto::proximo(s, c, i);
    let v = busca::partes(s, c, i);
    if f >= s.len() {
        assert(s.subrange(i, s.len() as int) =~= s.skip(i));
        assert(v[0] == s.skip(i));
        assert(sem(s.skip(i), c)) by {
            assert forall|k: int| 0 <= k < s.skip(i).len() implies #[trigger] s.skip(i)[k] != c by {
                assert(s[i + k] != c);
            }
        }
    } else {
        lema_separar(s, c, f + 1);
        let r = busca::partes(s, c, f + 1);
        assert(v =~= seq![s.subrange(i, f)] + r);
        assert(v.skip(1) =~= r);
        lema_juntos_frente(v, seq![c]);
        assert(s.skip(i) =~= s.subrange(i, f) + seq![c] + s.skip(f + 1));
        assert forall|j: int| 0 <= j < v.len() implies sem(#[trigger] v[j], c) by {
            if j > 0 {
                assert(v[j] == r[j - 1]);
            } else {
                assert forall|k: int| 0 <= k < v[0].len() implies #[trigger] v[0][k] != c by {
                    assert(s[i + k] != c);
                }
            }
        }
    }
}

/// Separar um texto por um caractere e voltar a juntar as partes com ele da o mesmo texto, e nenhuma
/// das partes tem o caractere.
pub proof fn lei_separar_e_juntar(s: Seq<char>, c: char)
    ensures
        busca::juntos(busca::partes(s, c, 0), seq![c]) == s,
        todos_sem(busca::partes(s, c, 0), c),
        busca::partes(s, c, 0).len() > 0,
{
    lema_separar(s, c, 0);
    assert(s.skip(0) =~= s);
}

proof fn lema_nao_vazios(v: Seq<Seq<char>>)
    requires
        forall|i: int| 0 <= i < v.len() ==> (#[trigger] v[i]).len() > 0,
    ensures
        busca::nao_vazios(v) == v,
    decreases v.len(),
{
    if v.len() > 0 {
        lema_nao_vazios(v.drop_last());
        assert(v.drop_last().push(v.last()) =~= v);
    } else {
        assert(v =~= Seq::empty());
    }
}

/// Os segmentos de um caminho sao os textos que estao entre as barras, pela ordem, com ou sem barra
/// no comeco e no fim.
pub proof fn lei_segmentos(v: Seq<Seq<char>>)
    requires
        v.len() > 0,
        todos_sem(v, '/'),
        forall|i: int| 0 <= i < v.len() ==> (#[trigger] v[i]).len() > 0,
    ensures
        ({
            let s = busca::juntos(v, seq!['/']);
            &&& servidor::segmentos(s) == v
            &&& servidor::segmentos(seq!['/'] + s) == v
            &&& servidor::segmentos(s + seq!['/']) == v
            &&& servidor::segmentos(seq!['/'] + s + seq!['/']) == v
        }),
        servidor::segmentos(seq!['/']).len() == 0,
{
    let b = seq!['/'];
    let s = busca::juntos(v, b);
    lei_juntar_e_separar(v, '/');
    lema_nao_vazios(v);
    busca::lema_juntos(v, b, 0);
    busca::lema_juntos(v, b, v.len() - 1);
    assert(sem(v[0], '/') && sem(v.last(), '/'));
    assert(v[0].len() > 0 && v[v.len() - 1].len() > 0);
    let n = busca::inicio_de(v, b, v.len() - 1);
    assert(s[0int + 0] == v[0][0]);
    assert(s[n + (v.last().len() - 1)] == v.last()[v.last().len() - 1]);
    assert(s[0] != '/');
    assert(s.last() != '/');
    assert(busca::sem_pontas(s, '/') == s);
    assert((b + s).skip(1) =~= s);
    assert(busca::sem_pontas(b + s, '/') == s) by {
        reveal_with_fuel(busca::sem_pontas, 2);
    }
    assert((s + b).drop_last() =~= s);
    assert((s + b)[0] == s[0]);
    assert(busca::sem_pontas(s + b, '/') == s) by {
        reveal_with_fuel(busca::sem_pontas, 2);
    }
    assert((b + s + b).skip(1) =~= s + b);
    assert(busca::sem_pontas(b + s + b, '/') == s) by {
        reveal_with_fuel(busca::sem_pontas, 3);
    }
    let vazio = Seq::<char>::empty();
    assert(b.skip(1) =~= vazio);
    assert(busca::sem_pontas(b, '/') == vazio) by {
        reveal_with_fuel(busca::sem_pontas, 2);
    }
    assert(texto::proximo(vazio, '/', 0) == 0);
    assert(vazio.subrange(0, 0) =~= vazio);
    let um = seq![vazio];
    assert(busca::partes(vazio, '/', 0) == um);
    assert(um.drop_last() =~= Seq::<Seq<char>>::empty());
    assert(busca::nao_vazios(um) == busca::nao_vazios(um.drop_last()));
    assert(busca::nao_vazios(um.drop_last()).len() == 0);
}

/// Se o segmento de um padrao e o parametro `nome`.
pub open spec fn parametro(p: Seq<char>, nome: Seq<char>) -> bool {
    p == seq![':'] + nome
}

/// Se o segmento de um padrao e um parametro.
pub open spec fn e_parametro(p: Seq<char>) -> bool {
    exists|nome: Seq<char>| parametro(p, nome)
}

proof fn lema_parametro(p: Seq<char>)
    ensures
        e_parametro(p) == (p.len() > 0 && p[0] == ':'),
        e_parametro(p) ==> parametro(p, p.skip(1)),
        forall|nome: Seq<char>| #[trigger] parametro(p, nome) ==> nome == p.skip(1),
{
    if p.len() > 0 && p[0] == ':' {
        assert(p =~= seq![':'] + p.skip(1));
        assert(parametro(p, p.skip(1)));
    }
    assert forall|nome: Seq<char>| #[trigger] parametro(p, nome) implies p.len() > 0 && p[0] == ':' && nome == p.skip(1) by {
        assert(p.skip(1) =~= nome);
        assert(p[0] == ':');
    }
}

proof fn lema_combinados(ps: Seq<Seq<char>>, cs: Seq<Seq<char>>, n: int)
    requires
        ps.len() == cs.len(),
        0 <= n <= ps.len(),
    ensures
        servidor::combinados(ps, cs, n) is Some <==> forall|k: int|
            0 <= k < n ==> e_parametro(ps[k]) || #[trigger] ps[k] == cs[k],
    decreases n,
{
    if n > 0 {
        lema_combinados(ps, cs, n - 1);
        lema_parametro(ps[n - 1]);
    }
}

proof fn lema_valores(ps: Seq<Seq<char>>, cs: Seq<Seq<char>>, n: int, nome: Seq<char>)
    requires
        ps.len() == cs.len(),
        0 <= n <= ps.len(),
        servidor::combinados(ps, cs, n) is Some,
    ensures
        ({
            let m = servidor::combinados(ps, cs, n)->Some_0;
            &&& forall|k: int|
                0 <= k < n && parametro(#[trigger] ps[k], nome) && (forall|j: int|
                    k < j < n ==> !parametro(#[trigger] ps[j], nome)) ==> m.contains_key(nome) && m[nome]
                    == servidor::url_texto(cs[k])
            &&& m.contains_key(nome) ==> exists|k: int| 0 <= k < n && parametro(#[trigger] ps[k], nome)
        }),
    decreases n,
{
    if n > 0 {
        lema_valores(ps, cs, n - 1, nome);
        lema_parametro(ps[n - 1]);
        let m = servidor::combinados(ps, cs, n)->Some_0;
        let a = servidor::combinados(ps, cs, n - 1)->Some_0;
        assert forall|k: int|
            0 <= k < n && parametro(#[trigger] ps[k], nome) && (forall|j: int|
                k < j < n ==> !parametro(#[trigger] ps[j], nome)) implies m.contains_key(nome) && m[nome]
            == servidor::url_texto(cs[k]) by {
            if k < n - 1 {
                assert(!parametro(ps[n - 1], nome));
                assert(a.contains_key(nome) && a[nome] == servidor::url_texto(cs[k]));
                if e_parametro(ps[n - 1]) {
                    assert(parametro(ps[n - 1], ps[n - 1].skip(1)));
                }
            }
        }
        if m.contains_key(nome) {
            if parametro(ps[n - 1], nome) {
            } else {
                if e_parametro(ps[n - 1]) {
                    assert(parametro(ps[n - 1], ps[n - 1].skip(1)));
                }
                assert(a.contains_key(nome));
            }
        }
    }
}

/// Um caminho combina com um padrao sem `/*` no fim se tem tantos segmentos quantos ele e cada
/// segmento do padrao ou e um parametro ou e igual ao do caminho.
pub proof fn lei_rota(padrao: Seq<char>, caminho: Seq<char>)
    requires
        !busca::termina(padrao, "/*"@),
    ensures
        ({
            let ps = servidor::segmentos(padrao);
            let cs = servidor::segmentos(caminho);
            servidor::combinacao(padrao, caminho) is Some <==> ps.len() == cs.len() && forall|k: int|
                0 <= k < ps.len() ==> e_parametro(ps[k]) || #[trigger] ps[k] == cs[k]
        }),
{
    let ps = servidor::segmentos(padrao);
    let cs = servidor::segmentos(caminho);
    if ps.len() == cs.len() {
        lema_combinados(ps, cs, ps.len() as int);
    }
}

/// Cada parametro de uma rota vale o segmento do caminho que esta no mesmo lugar, decodificado, e o
/// ultimo de um nome repetido e o que fica; nao ha outros parametros.
pub proof fn lei_parametros(padrao: Seq<char>, caminho: Seq<char>, nome: Seq<char>)
    requires
        !busca::termina(padrao, "/*"@),
        servidor::combinacao(padrao, caminho) is Some,
    ensures
        ({
            let ps = servidor::segmentos(padrao);
            let cs = servidor::segmentos(caminho);
            let m = servidor::combinacao(padrao, caminho)->Some_0;
            &&& forall|k: int|
                0 <= k < ps.len() && (#[trigger] ps[k]) == seq![':'] + nome && (forall|j: int|
                    k < j < ps.len() ==> #[trigger] ps[j] != seq![':'] + nome) ==> m.contains_key(nome) && m[nome]
                    == servidor::url_texto(cs[k])
            &&& m.contains_key(nome) ==> exists|k: int| 0 <= k < ps.len() && #[trigger] ps[k] == seq![':'] + nome
        }),
{
    let ps = servidor::segmentos(padrao);
    let cs = servidor::segmentos(caminho);
    let m = servidor::combinacao(padrao, caminho)->Some_0;
    lema_valores(ps, cs, ps.len() as int, nome);
    assert forall|k: int|
        0 <= k < ps.len() && (#[trigger] ps[k]) == seq![':'] + nome && (forall|j: int|
            k < j < ps.len() ==> #[trigger] ps[j] != seq![':'] + nome) implies m.contains_key(nome) && m[nome]
        == servidor::url_texto(cs[k]) by {
        assert(parametro(ps[k], nome));
    }
    if m.contains_key(nome) {
        let k = choose|k: int| 0 <= k < ps.len() && parametro(#[trigger] ps[k], nome);
        assert(ps[k] == seq![':'] + nome);
    }
}

/// Um padrao que acaba em `/*` combina com todos os caminhos que comecam pelo que esta antes, e so
/// com eles, sem parametros.
pub proof fn lei_coringa(antes: Seq<char>, caminho: Seq<char>)
    ensures
        ({
            let r = servidor::combinacao(antes + seq!['/', '*'], caminho);
            &&& r is Some <==> exists|resto: Seq<char>| caminho == #[trigger] (antes + resto)
            &&& r is Some ==> r->Some_0 == Map::<Seq<char>, Seq<char>>::empty()
        }),
{
    reveal_strlit("/*");
    let p = antes + seq!['/', '*'];
    assert("/*"@ =~= seq!['/', '*']);
    assert(p.subrange(p.len() - 2, p.len() as int) =~= seq!['/', '*']);
    assert(busca::termina(p, "/*"@));
    assert(p.take(p.len() - 2) =~= antes);
    if busca::comeca(caminho, antes) {
        assert(caminho =~= antes + caminho.skip(antes.len() as int));
    }
    if exists|resto: Seq<char>| caminho == #[trigger] (antes + resto) {
        let resto = choose|resto: Seq<char>| caminho == #[trigger] (antes + resto);
        assert(caminho.subrange(0, antes.len() as int) =~= antes);
    }
}

proof fn lema_rota_em<H>(rs: Seq<servidor::Rota<H>>, metodo: Seq<char>, caminho: Seq<char>, i: int)
    requires
        0 <= i <= rs.len(),
    ensures
        match servidor::rota_em(rs, metodo, caminho, i) {
            Some(k) => i <= k < rs.len() && servidor::atende(rs[k], metodo) && servidor::combinacao(
                rs[k].padrao@,
                caminho,
            ) is Some && forall|j: int|
                i <= j < k ==> !(servidor::atende(#[trigger] rs[j], metodo) && servidor::combinacao(
                    rs[j].padrao@,
                    caminho,
                ) is Some),
            None => forall|j: int|
                i <= j < rs.len() ==> !(servidor::atende(#[trigger] rs[j], metodo) && servidor::combinacao(
                    rs[j].padrao@,
                    caminho,
                ) is Some),
        },
    decreases rs.len() - i,
{
    if i < rs.len() {
        lema_rota_em(rs, metodo, caminho, i + 1);
    }
}

/// A rota de um pedido e a primeira, pela ordem em que foram registradas, que combina com o caminho e
/// e do metodo, ou de `*`; o metodo nao distingue maiusculas. Se nenhuma serve, nao ha rota.
pub proof fn lei_primeira_rota<H>(rs: Seq<servidor::Rota<H>>, metodo: Seq<char>, caminho: Seq<char>, k: int)
    requires
        0 <= k < rs.len(),
    ensures
        ({
            let serve = |j: int|
                {
                    &&& servidor::combinacao(rs[j].padrao@, caminho) is Some
                    &&& rs[j].metodo@ == seq!['*'] || busca::iguais_sem_caixa(rs[j].metodo@, metodo)
                };
            &&& servidor::rota_em(rs, metodo, caminho, 0) == Some(k) <==> serve(k) && forall|j: int|
                0 <= j < k ==> !#[trigger] serve(j)
            &&& servidor::rota_em(rs, metodo, caminho, 0) is None <==> forall|j: int|
                0 <= j < rs.len() ==> !#[trigger] serve(j)
        }),
{
    reveal_strlit("*");
    assert("*"@ =~= seq!['*']);
    lema_rota_em(rs, metodo, caminho, 0);
    let serve = |j: int|
        {
            &&& servidor::combinacao(rs[j].padrao@, caminho) is Some
            &&& rs[j].metodo@ == seq!['*'] || busca::iguais_sem_caixa(rs[j].metodo@, metodo)
        };
    assert forall|j: int| 0 <= j < rs.len() implies (servidor::atende(#[trigger] rs[j], metodo) && servidor::combinacao(
        rs[j].padrao@,
        caminho,
    ) is Some) == serve(j) by {}
    match servidor::rota_em(rs, metodo, caminho, 0) {
        Some(i) => {
            assert(serve(i));
            assert forall|j: int| 0 <= j < i implies !#[trigger] serve(j) by {
                assert(!(servidor::atende(rs[j], metodo) && servidor::combinacao(rs[j].padrao@, caminho) is Some));
            }
        },
        None => {
            assert forall|j: int| 0 <= j < rs.len() implies !#[trigger] serve(j) by {
                assert(!(servidor::atende(rs[j], metodo) && servidor::combinacao(rs[j].padrao@, caminho) is Some));
            }
        },
    }
}

/// Dois textos sao iguais sem diferenca de maiusculas se tem o mesmo comprimento e em cada lugar o
/// mesmo caractere, ou a mesma letra de `a` a `z`.
pub proof fn lei_sem_caixa(a: Seq<char>, b: Seq<char>)
    ensures
        busca::iguais_sem_caixa(a, b) <==> a.len() == b.len() && forall|i: int|
            0 <= i < a.len() ==> {
                ||| #[trigger] a[i] == b[i]
                ||| 'A' <= a[i] <= 'Z' && b[i] as int == a[i] as int + 32
                ||| 'A' <= b[i] <= 'Z' && a[i] as int == b[i] as int + 32
            },
{
    let x = busca::minusculas_ascii(a);
    let y = busca::minusculas_ascii(b);
    assert(x.len() == a.len() && y.len() == b.len());
    assert forall|i: int| 0 <= i < a.len() implies #[trigger] x[i] == busca::minuscula(a[i]) by {}
    assert forall|i: int| 0 <= i < b.len() implies #[trigger] y[i] == busca::minuscula(b[i]) by {}
    if busca::iguais_sem_caixa(a, b) {
        assert forall|i: int| 0 <= i < a.len() implies {
            ||| #[trigger] a[i] == b[i]
            ||| 'A' <= a[i] <= 'Z' && b[i] as int == a[i] as int + 32
            ||| 'A' <= b[i] <= 'Z' && a[i] as int == b[i] as int + 32
        } by {
            assert(x[i] == y[i]);
        }
    } else if a.len() == b.len() && forall|i: int|
        0 <= i < a.len() ==> {
            ||| #[trigger] a[i] == b[i]
            ||| 'A' <= a[i] <= 'Z' && b[i] as int == a[i] as int + 32
            ||| 'A' <= b[i] <= 'Z' && a[i] as int == b[i] as int + 32
        } {
        assert(x =~= y);
    }
}

/// O nome de uma parte de uma query: o que esta antes do primeiro `=`.
pub open spec fn nome_da_parte(p: Seq<char>) -> Seq<char> {
    servidor::url_texto(p.take(texto::proximo(p, '=', 0)))
}

proof fn lema_query(ps: Seq<Seq<char>>, i: int, m: Map<Seq<char>, Seq<char>>, n: int)
    requires
        0 <= i <= ps.len(),
        0 <= n < ps.len(),
        forall|j: int| n < j < ps.len() && (#[trigger] ps[j]).len() > 0 ==> nome_da_parte(ps[j]) != nome_da_parte(ps[n]),
        texto::proximo(ps[n], '=', 0) < ps[n].len(),
        n < i ==> m.contains_key(nome_da_parte(ps[n])) && m[nome_da_parte(ps[n])] == servidor::url_texto(
            ps[n].skip(texto::proximo(ps[n], '=', 0) + 1),
        ),
    ensures
        servidor::query_em(ps, i, m).contains_key(nome_da_parte(ps[n])),
        servidor::query_em(ps, i, m)[nome_da_parte(ps[n])] == servidor::url_texto(
            ps[n].skip(texto::proximo(ps[n], '=', 0) + 1),
        ),
    decreases ps.len() - i,
{
    if i < ps.len() {
        let f = texto::proximo(ps[i], '=', 0);
        texto::lema_proximo(ps[i], '=', 0);
        let novo = match busca::duas_partes(ps[i], '=') {
            Some((k, v)) => m.insert(servidor::url_texto(k), servidor::url_texto(v)),
            None => if ps[i].len() > 0 {
                m.insert(servidor::url_texto(ps[i]), Seq::empty())
            } else {
                m
            },
        };
        assert(ps[i].take(ps[i].len() as int) =~= ps[i]);
        lema_query(ps, i + 1, novo, n);
    }
}

/// Numa query, a parte `nome=valor` da ao nome o valor, os dois decodificados, se nao ha depois dela
/// outra com o mesmo nome; um nome pode ter qualquer coisa menos `=` e `&`, e um valor qualquer coisa
/// menos `&`.
pub proof fn lei_query(v: Seq<Seq<char>>, n: int, nome: Seq<char>, valor: Seq<char>)
    requires
        todos_sem(v, '&'),
        0 <= n < v.len(),
        v[n] == nome + seq!['='] + valor,
        sem(nome, '='),
        forall|j: int|
            n < j < v.len() && (#[trigger] v[j]).len() > 0 ==> nome_da_parte(v[j]) != servidor::url_texto(nome),
    ensures
        ({
            let q = servidor::query_de(busca::juntos(v, seq!['&']));
            q.contains_key(servidor::url_texto(nome)) && q[servidor::url_texto(nome)] == servidor::url_texto(valor)
        }),
{
    let s = busca::juntos(v, seq!['&']);
    lei_juntar_e_separar(v, '&');
    busca::lema_juntos(v, seq!['&'], n);
    assert(s.len() > 0);
    assert forall|k: int| 0 <= k < nome.len() implies v[n][k] != '=' by {
        assert(nome[k] != '=');
    }
    lema_proximo_em(v[n], '=', 0, nome.len() as int);
    assert(v[n].take(nome.len() as int) =~= nome);
    assert(v[n].skip(nome.len() as int + 1) =~= valor);
    lema_query(v, 0, Map::empty(), n);
}

proof fn lema_cookie(ps: Seq<Seq<char>>, i: int, nome: Seq<char>, n: int)
    requires
        0 <= i <= n < ps.len(),
        forall|j: int|
            0 <= j < n ==> match busca::duas_partes(texto::aparado(#[trigger] ps[j]), '=') {
                Some((k, v)) => texto::aparado(k) != nome,
                None => true,
            },
        busca::duas_partes(texto::aparado(ps[n]), '=') is Some,
        texto::aparado(busca::duas_partes(texto::aparado(ps[n]), '=')->Some_0.0) == nome,
    ensures
        servidor::cookie_em(ps, i, nome) == Some(
            texto::aparado(busca::duas_partes(texto::aparado(ps[n]), '=')->Some_0.1),
        ),
    decreases n - i,
{
    if i < n {
        lema_cookie(ps, i + 1, nome, n);
    }
}

/// O valor de um cookie e o da primeira parte do cabecalho que e `nome=valor`, sem os espacos em volta
/// da parte, do nome e do valor.
pub proof fn lei_cookie(ps: Seq<Seq<char>>, n: int, nome: Seq<char>, valor: Seq<char>)
    requires
        todos_sem(ps, ';'),
        0 <= n < ps.len(),
        texto::aparado(ps[n]) == nome + seq!['='] + valor,
        sem(nome, '='),
        texto::aparado(nome) == nome,
        forall|j: int, k: Seq<char>, v: Seq<char>|
            0 <= j < n && texto::aparado(#[trigger] ps[j]) == #[trigger] (k + seq!['='] + v) ==> texto::aparado(k)
                != nome,
    ensures
        servidor::cookie_de(busca::juntos(ps, seq![';']), nome) == Some(texto::aparado(valor)),
{
    lei_juntar_e_separar(ps, ';');
    let a = texto::aparado(ps[n]);
    assert forall|k: int| 0 <= k < nome.len() implies a[k] != '=' by {
        assert(nome[k] != '=');
    }
    lema_proximo_em(a, '=', 0, nome.len() as int);
    assert(a.take(nome.len() as int) =~= nome);
    assert(a.skip(nome.len() as int + 1) =~= valor);
    assert forall|j: int| 0 <= j < n implies match busca::duas_partes(texto::aparado(#[trigger] ps[j]), '=') {
        Some((k, v)) => texto::aparado(k) != nome,
        None => true,
    } by {
        let b = texto::aparado(ps[j]);
        let f = texto::proximo(b, '=', 0);
        texto::lema_proximo(b, '=', 0);
        if f < b.len() {
            assert(b =~= b.take(f) + seq!['='] + b.skip(f + 1));
        }
    }
    lema_cookie(ps, 0, nome, n);
}

} // verus!
