//! O que a formatacao de um codigo mantem.

use vstd::prelude::*;
use crate::busca;
use crate::formato;
use crate::texto;

verus! {

/// Uma linha formatada: recuada pelo nivel em que esta, se nao e so de espacos.
spec fn linha_formatada(ls: Seq<Seq<char>>, i: int) -> Seq<char> {
    let t = texto::aparado(ls[i]);
    if t.len() == 0 {
        Seq::empty()
    } else {
        formato::recuo(formato::menos(formato::formatado(ls, i).1, formato::fechos(t))) + t
    }
}

/// As linhas formatadas.
spec fn linhas_formatadas(ls: Seq<Seq<char>>) -> Seq<Seq<char>> {
    Seq::new(ls.len(), |i: int| linha_formatada(ls, i))
}

/// Se nenhuma linha tem uma quebra.
spec fn sem_quebras(ls: Seq<Seq<char>>) -> bool {
    forall|i: int, k: int| 0 <= i < ls.len() && 0 <= k < ls[i].len() ==> #[trigger] ls[i][k] != '\n'
}

proof fn lema_linhas_sem_quebras(s: Seq<char>, i: int)
    requires
        0 <= i <= s.len(),
    ensures
        sem_quebras(texto::linhas(s, i)),
    decreases s.len() - i,
{
    if i < s.len() {
        texto::lema_proximo(s, '\n', i);
        let f = texto::proximo(s, '\n', i);
        let ls = texto::linhas(s, i);
        if f < s.len() {
            lema_linhas_sem_quebras(s, f + 1);
            let resto = texto::linhas(s, f + 1);
            assert forall|j: int, k: int| 0 <= j < ls.len() && 0 <= k < ls[j].len() implies #[trigger] ls[j][k]
                != '\n' by {
                if j == 0 {
                    assert(ls[0][k] == s[i + k]);
                } else {
                    assert(ls[j] == resto[j - 1]);
                    assert(resto[j - 1][k] != '\n');
                }
            }
        } else {
            assert forall|j: int, k: int| 0 <= j < ls.len() && 0 <= k < ls[j].len() implies #[trigger] ls[j][k]
                != '\n' by {
                assert(ls[j][k] == s[i + k]);
            }
        }
    }
}

proof fn lema_recuo(n: int)
    ensures
        forall|k: int| 0 <= k < formato::recuo(n).len() ==> #[trigger] formato::recuo(n)[k] == ' ',
    decreases n,
{
    reveal_strlit("    ");
    if n > 0 {
        lema_recuo(n - 1);
        let a = formato::recuo(n - 1);
        let r = formato::recuo(n);
        assert("    "@[0] == ' ' && "    "@[1] == ' ' && "    "@[2] == ' ' && "    "@[3] == ' ');
        assert forall|k: int| 0 <= k < r.len() implies #[trigger] r[k] == ' ' by {
            if k < a.len() {
                assert(r[k] == a[k]);
            } else {
                assert(r[k] == "    "@[k - a.len()]);
            }
        }
    }
}

proof fn lema_linha_formatada(ls: Seq<Seq<char>>, i: int)
    requires
        0 <= i < ls.len(),
        sem_quebras(ls),
    ensures
        texto::aparado(linha_formatada(ls, i)) == texto::aparado(ls[i]),
        texto::sem_retorno(linha_formatada(ls, i)) == linha_formatada(ls, i),
        forall|k: int| 0 <= k < linha_formatada(ls, i).len() ==> #[trigger] linha_formatada(ls, i)[k] != '\n',
{
    let t = texto::aparado(ls[i]);
    let w = linha_formatada(ls, i);
    let (a, b) = texto::lema_aparado_pontas(ls[i]);
    if t.len() == 0 {
        assert(texto::aparado(w) =~= Seq::<char>::empty()) by {
            texto::lema_aparado_pontas(w);
        }
        assert(t =~= Seq::<char>::empty());
    } else {
        let n = formato::menos(formato::formatado(ls, i).1, formato::fechos(t));
        let r = formato::recuo(n);
        lema_recuo(n);
        assert forall|k: int| 0 <= k < r.len() implies texto::espaco(#[trigger] w[k]) by {
            assert(w[k] == r[k]);
        }
        assert(w[r.len() as int] == t[0]);
        assert(w.last() == t.last());
        texto::lema_aparado_recuado(w, r.len() as int);
        assert(w.skip(r.len() as int) =~= t);
        assert(texto::espaco('\r'));
        assert forall|k: int| 0 <= k < w.len() implies #[trigger] w[k] != '\n' by {
            if k < r.len() {
                assert(w[k] == r[k]);
            } else {
                assert(w[k] == t[k - r.len()]);
                assert(t[k - r.len()] == ls[i][a + k - r.len()]);
            }
        }
    }
}

proof fn lema_prefixo(ls: Seq<Seq<char>>, n: int, m: int)
    requires
        0 <= n < m <= ls.len(),
    ensures
        busca::esta_em(
            formato::formatado(ls, m).0,
            formato::formatado(ls, n).0.len() as int,
            linha_formatada(ls, n).push('\n'),
        ),
        formato::formatado(ls, n + 1).0.len() == formato::formatado(ls, n).0.len() + linha_formatada(ls, n).len() + 1,
    decreases m,
{
    let a = formato::formatado(ls, m - 1).0;
    let l = linha_formatada(ls, m - 1).push('\n');
    let t = formato::formatado(ls, m).0;
    assert(t =~= a + l);
    if n < m - 1 {
        lema_prefixo(ls, n, m - 1);
        assert(busca::esta_em(t, 0, a));
        busca::lema_esta_dentro(
            t,
            0,
            a,
            formato::formatado(ls, n).0.len() as int,
            linha_formatada(ls, n).push('\n'),
        );
    }
}

proof fn lema_linhas_do_formatado(ls: Seq<Seq<char>>, n: int)
    requires
        0 <= n <= ls.len(),
        sem_quebras(ls),
    ensures
        texto::linhas(formato::formatado(ls, ls.len() as int).0, formato::formatado(ls, n).0.len() as int)
            == linhas_formatadas(ls).skip(n),
    decreases ls.len() - n,
{
    let s = formato::formatado(ls, ls.len() as int).0;
    let p = formato::formatado(ls, n).0.len() as int;
    let ws = linhas_formatadas(ls);
    if n == ls.len() {
        assert(ws.skip(n) =~= Seq::<Seq<char>>::empty());
    } else {
        let w = linha_formatada(ls, n);
        lema_prefixo(ls, n, ls.len() as int);
        lema_linha_formatada(ls, n);
        let l = w.push('\n');
        let f = p + w.len();
        assert(s[p + w.len()] == l[w.len() as int]);
        assert forall|k: int| p <= k < f implies #[trigger] s[k] != '\n' by {
            assert(s[p + (k - p)] == l[k - p]);
            assert(l[k - p] == w[k - p]);
        }
        texto::lema_proximo(s, '\n', p);
        assert(texto::proximo(s, '\n', p) == f);
        assert(s.subrange(p, f) =~= w) by {
            assert forall|k: int| 0 <= k < w.len() implies s[p + k] == #[trigger] w[k] by {
                assert(s[p + k] == l[k]);
            }
        }
        lema_linhas_do_formatado(ls, n + 1);
        assert(seq![w] + ws.skip(n + 1) =~= ws.skip(n));
    }
}

proof fn lema_mesmas(a: Seq<Seq<char>>, b: Seq<Seq<char>>, n: int)
    requires
        a.len() == b.len(),
        0 <= n <= a.len(),
        forall|i: int| 0 <= i < a.len() ==> texto::aparado(#[trigger] a[i]) == texto::aparado(b[i]),
    ensures
        formato::formatado(a, n) == formato::formatado(b, n),
    decreases n,
{
    if n > 0 {
        lema_mesmas(a, b, n - 1);
        assert(texto::aparado(a[n - 1]) == texto::aparado(b[n - 1]));
    }
}

/// O codigo formatado.
pub open spec fn formatado(s: Seq<char>) -> Seq<char> {
    formato::formatado(texto::linhas(s, 0), texto::linhas(s, 0).len() as int).0
}

/// Formatar mantem as linhas, sem contar os espacos nas pontas, e formatar o que ja esta formatado
/// nao muda nada.
pub proof fn lei_formatar(s: Seq<char>)
    ensures
        texto::linhas(formatado(s), 0).len() == texto::linhas(s, 0).len(),
        forall|i: int|
            0 <= i < texto::linhas(s, 0).len() ==> texto::aparado(#[trigger] texto::linhas(formatado(s), 0)[i])
                == texto::aparado(texto::linhas(s, 0)[i]),
        formatado(formatado(s)) == formatado(s),
{
    let ls = texto::linhas(s, 0);
    let ws = linhas_formatadas(ls);
    lema_linhas_sem_quebras(s, 0);
    lema_linhas_do_formatado(ls, 0);
    assert(ws.skip(0) =~= ws);
    assert forall|i: int| 0 <= i < ls.len() implies texto::aparado(#[trigger] ws[i]) == texto::aparado(ls[i]) by {
        lema_linha_formatada(ls, i);
    }
    lema_mesmas(ws, ls, ls.len() as int);
}

} // verus!
