//! O que se le de uma tabela escrita e a tabela.

use vstd::prelude::*;
use crate::busca;
use crate::csv;
use crate::nativas_textos;
use crate::nativas_valores;
use crate::valor;

verus! {

/// Como um caractere fica entre aspas.
spec fn dobrado(c: char) -> Seq<char> {
    if c == '"' {
        "\"\""@
    } else {
        seq![c]
    }
}

proof fn lema_trocado(f: Seq<char>, n: int)
    requires
        0 <= n < f.len(),
    ensures
        busca::esta_em(
            busca::trocado(f, '"', "\"\""@),
            busca::trocado(f.take(n), '"', "\"\""@).len() as int,
            dobrado(f[n]),
        ),
        busca::trocado(f.take(n + 1), '"', "\"\""@).len() == busca::trocado(f.take(n), '"', "\"\""@).len()
            + dobrado(f[n]).len(),
    decreases f.len(),
{
    let d = f.drop_last();
    let t = busca::trocado(f, '"', "\"\""@);
    let td = busca::trocado(d, '"', "\"\""@);
    assert(t =~= td + dobrado(f.last()));
    if n == f.len() - 1 {
        assert(f.take(n) =~= d);
        assert(f.take(n + 1) =~= f);
    } else {
        lema_trocado(d, n);
        assert(d.take(n) =~= f.take(n));
        assert(d.take(n + 1) =~= f.take(n + 1));
        assert(busca::esta_em(t, 0, td));
        busca::lema_esta_dentro(t, 0, td, busca::trocado(d.take(n), '"', "\"\""@).len() as int, dobrado(f[n]));
    }
}

proof fn lema_aspas(s: Seq<char>, i: int, f: Seq<char>, n: int, acc: Seq<char>)
    requires
        0 <= n <= f.len(),
        busca::esta_em(s, i, busca::trocado(f, '"', "\"\""@) + seq!['"']),
        i + busca::trocado(f, '"', "\"\""@).len() + 1 < s.len(),
        s[i + busca::trocado(f, '"', "\"\""@).len() + 1] != '"',
    ensures
        csv::entre_aspas(s, i + busca::trocado(f.take(n), '"', "\"\""@).len(), acc) == (
            acc + f.skip(n),
            i + busca::trocado(f, '"', "\"\""@).len() + 1,
        ),
    decreases f.len() - n,
{
    let t = busca::trocado(f, '"', "\"\""@);
    let k = busca::trocado(f.take(n), '"', "\"\""@).len() as int;
    busca::lema_esta_em(s, i, t, seq!['"']);
    reveal_strlit("\"\"");
    if n == f.len() {
        assert(f.take(n) =~= f);
        assert(s[i + t.len() + 0] == seq!['"'][0]);
        assert(acc + f.skip(n) =~= acc);
    } else {
        lema_trocado(f, n);
        busca::lema_esta_dentro(s, i, t, k, dobrado(f[n]));
        let e = dobrado(f[n]);
        assert(s[i + k + 0] == e[0]);
        if f[n] == '"' {
            assert(s[i + k + 1] == e[1]);
        }
        lema_aspas(s, i, f, n + 1, acc.push(f[n]));
        assert(acc.push(f[n]) + f.skip(n + 1) =~= acc + f.skip(n));
    }
}

proof fn lema_ate_ao_fim(s: Seq<char>, i: int, e: int)
    requires
        0 <= i <= e < s.len(),
        s[e] == ',' || csv::quebra(s[e]),
        forall|k: int| i <= k < e ==> #[trigger] s[k] != ',' && !csv::quebra(s[k]),
    ensures
        csv::fim_do_campo(s, i) == e,
    decreases e - i,
{
    if i < e {
        lema_ate_ao_fim(s, i + 1, e);
    }
}

proof fn lema_campo(s: Seq<char>, i: int, f: Seq<char>)
    requires
        busca::esta_em(s, i, csv::campo_escrito(f)),
        i + csv::campo_escrito(f).len() < s.len(),
        s[i + csv::campo_escrito(f).len()] == ',' || s[i + csv::campo_escrito(f).len()] == '\n',
    ensures
        csv::campo_em(s, i) == (f, i + csv::campo_escrito(f).len()),
{
    let c = csv::campo_escrito(f);
    let e = i + c.len();
    if csv::quer_aspas(f) {
        let t = busca::trocado(f, '"', "\"\""@);
        assert(c =~= seq!['"'] + (t + seq!['"']));
        busca::lema_esta_em(s, i, seq!['"'], t + seq!['"']);
        assert(s[i + 0] == seq!['"'][0]);
        assert(f.take(0) =~= Seq::<char>::empty());
        assert(busca::trocado(f.take(0), '"', "\"\""@).len() == 0);
        lema_aspas(s, i + 1, f, 0, Seq::empty());
        assert(Seq::<char>::empty() + f.skip(0) =~= f);
    } else {
        assert forall|k: int| i <= k < e implies #[trigger] s[k] != ',' && !csv::quebra(s[k]) && s[k] != '"' by {
            assert(s[i + (k - i)] == c[k - i]);
            assert(f.contains(f[k - i]));
        }
        lema_ate_ao_fim(s, i, e);
        assert(s.subrange(i, e) =~= f) by {
            assert forall|k: int| 0 <= k < f.len() implies s[i + k] == #[trigger] f[k] by {
                assert(s[i + k] == c[k]);
            }
        }
    }
}

proof fn lema_linha(s: Seq<char>, i: int, l: Seq<Seq<char>>, n: int, acc: Seq<Seq<char>>)
    requires
        0 <= n < l.len(),
        busca::esta_em(s, i, busca::juntos(csv::campos_escritos(l), ","@)),
        i + busca::juntos(csv::campos_escritos(l), ","@).len() < s.len(),
        s[i + busca::juntos(csv::campos_escritos(l), ","@).len()] == '\n',
    ensures
        csv::linha_em(s, i + busca::inicio_de(csv::campos_escritos(l), ","@, n), acc) == (
            acc + l.skip(n),
            i + busca::juntos(csv::campos_escritos(l), ","@).len(),
        ),
    decreases l.len() - n,
{
    let c = csv::campos_escritos(l);
    let j = busca::juntos(c, ","@);
    let p = busca::inicio_de(c, ","@, n);
    busca::lema_juntos(c, ","@, n);
    busca::lema_esta_dentro(s, i, j, p, c[n]);
    assert(c[n] == csv::campo_escrito(l[n]));
    reveal_strlit(",");
    if n + 1 < l.len() {
        busca::lema_esta_dentro(s, i, j, p + c[n].len(), ","@);
        assert(s[i + (p + c[n].len()) + 0] == ","@[0]);
        lema_campo(s, i + p, l[n]);
        lema_linha(s, i, l, n + 1, acc.push(l[n]));
        assert(acc.push(l[n]) + l.skip(n + 1) =~= acc + l.skip(n));
    } else {
        lema_campo(s, i + p, l[n]);
        assert(acc.push(l[n]) =~= acc + l.skip(n));
    }
}

proof fn lema_prefixo(v: Seq<valor::Dado>, n: int, m: int)
    requires
        0 <= n < m <= v.len(),
    ensures
        busca::esta_em(
            csv::tabela_escrita(v, m),
            csv::tabela_escrita(v, n).len() as int,
            csv::linha_escrita(v[n]) + "\n"@,
        ),
        csv::tabela_escrita(v, n + 1).len() == csv::tabela_escrita(v, n).len() + csv::linha_escrita(v[n]).len()
            + "\n"@.len(),
    decreases m,
{
    let a = csv::tabela_escrita(v, m - 1);
    let l = csv::linha_escrita(v[m - 1]) + "\n"@;
    let t = csv::tabela_escrita(v, m);
    assert(t =~= a + l);
    if n < m - 1 {
        lema_prefixo(v, n, m - 1);
        assert(busca::esta_em(t, 0, a));
        busca::lema_esta_dentro(t, 0, a, csv::tabela_escrita(v, n).len() as int, csv::linha_escrita(v[n]) + "\n"@);
    }
}

proof fn lema_tabela(t: Seq<Seq<Seq<char>>>, n: int, acc: Seq<Seq<Seq<char>>>)
    requires
        0 <= n < t.len(),
        forall|i: int| 0 <= i < t.len() ==> (#[trigger] t[i]).len() > 0,
        t.last() != seq![Seq::<char>::empty()],
    ensures
        ({
            let v = csv::em_listas(t);
            let s = csv::tabela_escrita(v, v.len() as int);
            csv::linhas_em(s, csv::tabela_escrita(v, n).len() as int, acc) == acc + t.skip(n)
        }),
    decreases t.len() - n,
{
    let v = csv::em_listas(t);
    let s = csv::tabela_escrita(v, v.len() as int);
    let p = csv::tabela_escrita(v, n).len() as int;
    let l = t[n];
    lema_linha_de(t, n);
    let j = busca::juntos(csv::campos_escritos(l), ","@);
    lema_prefixo(v, n, v.len() as int);
    busca::lema_esta_em(s, p, j, "\n"@);
    reveal_strlit("\n");
    assert(s[p + j.len() + 0] == "\n"@[0]);
    lema_linha(s, p, l, 0, Seq::empty());
    assert(Seq::<Seq<char>>::empty() + l.skip(0) =~= l);
    let q = p + j.len();
    assert(csv::linha_em(s, p, Seq::empty()) == (l, q));
    assert(csv::depois_da_quebra(s, q) == q + 1);
    if n + 1 < t.len() {
        lema_prefixo(v, n + 1, v.len() as int);
        lema_tabela(t, n + 1, acc.push(l));
        assert(acc.push(l) + t.skip(n + 1) =~= acc + t.skip(n));
    } else {
        assert(q + 1 == s.len());
        if l.len() == 1 && l[0].len() == 0 {
            assert(l[0] =~= Seq::<char>::empty());
            assert(l =~= seq![Seq::<char>::empty()]);
        }
        assert(acc.push(l) =~= acc + t.skip(n));
    }
}

proof fn lema_linha_de(t: Seq<Seq<Seq<char>>>, n: int)
    requires
        0 <= n < t.len(),
    ensures
        csv::linha_escrita(csv::em_listas(t)[n]) == busca::juntos(csv::campos_escritos(t[n]), ","@),
{
    let d = nativas_valores::em_valores(t[n]);
    assert(csv::em_listas(t)[n] == valor::Dado::Lista(d));
    assert(nativas_textos::textos_de(d) =~= t[n]);
}

/// O que se le de uma tabela escrita, com campos de qualquer texto, sao as mesmas linhas. Fica de
/// fora uma tabela que acaba numa linha de um campo vazio, que nao conta ao ler, e uma cujo primeiro
/// campo comeca pela marca de ordem dos bytes, que se tira.
pub proof fn lei_csv(t: Seq<Seq<Seq<char>>>)
    requires
        forall|i: int| 0 <= i < t.len() ==> (#[trigger] t[i]).len() > 0,
        t.len() > 0 ==> t.last() != seq![Seq::<char>::empty()],
        t.len() > 0 && t[0][0].len() > 0 ==> t[0][0][0] != '\u{FEFF}',
    ensures
        ({
            let v = csv::em_listas(t);
            csv::em_listas(csv::tabela(csv::tabela_escrita(v, v.len() as int))) == v
        }),
{
    let v = csv::em_listas(t);
    let s = csv::tabela_escrita(v, v.len() as int);
    if t.len() == 0 {
        assert(s =~= Seq::<char>::empty());
        assert(csv::campo_em(s, 0).0 =~= Seq::<char>::empty());
        assert(csv::linha_em(s, 0, Seq::empty()) == (Seq::<Seq<char>>::empty().push(csv::campo_em(s, 0).0), 0int));
        assert(csv::tabela(s) =~= t);
    } else {
        lema_tabela(t, 0, Seq::empty());
        assert(csv::tabela_escrita(v, 0).len() == 0);
        assert(Seq::<Seq<Seq<char>>>::empty() + t.skip(0) =~= t);
        lema_linha_de(t, 0);
        let c = csv::campos_escritos(t[0]);
        let j = busca::juntos(c, ","@);
        lema_prefixo(v, 0, v.len() as int);
        busca::lema_esta_em(s, 0, j, "\n"@);
        busca::lema_juntos(c, ","@, 0);
        busca::lema_esta_dentro(s, 0, j, 0, c[0]);
        assert(c[0] == csv::campo_escrito(t[0][0]));
        reveal_strlit(",");
        reveal_strlit("\n");
        if c[0].len() > 0 {
            assert(s[0] == c[0][0]);
        } else if t[0].len() > 1 {
            busca::lema_esta_dentro(s, 0, j, c[0].len() as int, ","@);
            assert(s[0] == ","@[0]);
        } else {
            assert(s[j.len() as int] == "\n"@[0]);
        }
        assert(csv::sem_marca(s) == s);
    }
}

} // verus!
