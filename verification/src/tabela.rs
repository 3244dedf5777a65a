//! Tabelas de nomes: para cada nome, no maximo um valor.

use vstd::prelude::*;
use crate::texto;

verus! {

/// Uma tabela, como lista de pares em que nenhum nome se repete.
pub struct Tabela<V> {
    pares: Vec<(String, V)>,
}

/// A posicao do nome na lista de pares, a partir de `i`.
pub open spec fn posicao<V>(ps: Seq<(String, V)>, k: Seq<char>, i: int) -> Option<int>
    decreases ps.len() - i,
{
    if i < 0 || i >= ps.len() {
        None
    } else if ps[i].0@ == k {
        Some(i)
    } else {
        posicao(ps, k, i + 1)
    }
}

proof fn lema_posicao<V>(ps: Seq<(String, V)>, k: Seq<char>, i: int)
    requires
        0 <= i <= ps.len(),
    ensures
        match posicao(ps, k, i) {
            Some(j) => i <= j < ps.len() && ps[j].0@ == k && forall|m: int|
                i <= m < j ==> (#[trigger] ps[m]).0@ != k,
            None => forall|m: int| i <= m < ps.len() ==> (#[trigger] ps[m]).0@ != k,
        },
    decreases ps.len() - i,
{
    if i < ps.len() && ps[i].0@ != k {
        lema_posicao(ps, k, i + 1);
    }
}

impl<V> Tabela<V> {
    /// Nenhum nome se repete.
    #[verifier::type_invariant]
    pub closed spec fn bem_formada(self) -> bool {
        forall|i: int, j: int|
            0 <= i < j < self.pares@.len() ==> (#[trigger] self.pares@[i]).0@ != (
            #[trigger] self.pares@[j]).0@
    }

    /// O que cada nome guarda.
    pub closed spec fn view(&self) -> Map<Seq<char>, V> {
        Map::new(
            |k: Seq<char>| posicao(self.pares@, k, 0) is Some,
            |k: Seq<char>| self.pares@[posicao(self.pares@, k, 0)->Some_0].1,
        )
    }

    /// Os nomes, na ordem em que entraram.
    pub closed spec fn nomes(&self) -> Seq<Seq<char>> {
        self.pares@.map(|i: int, p: (String, V)| p.0@)
    }

    /// Uma tabela vazia.
    pub fn nova() -> (r: Self)
        ensures
            r@ == Map::<Seq<char>, V>::empty(),
    {
        let r = Tabela { pares: Vec::new() };
        assert(r@ =~= Map::<Seq<char>, V>::empty());
        r
    }

    /// A posicao de um nome.
    fn procurar(&self, nome: &str) -> (r: Option<usize>)
        ensures
            match r {
                Some(i) => posicao(self.pares@, nome@, 0) == Some(i as int) && i < self.pares@.len(),
                None => posicao(self.pares@, nome@, 0) is None,
            },
    {
        let mut i: usize = 0;
        while i < self.pares.len()
            invariant
                i <= self.pares@.len(),
                posicao(self.pares@, nome@, 0) == posicao(self.pares@, nome@, i as int),
            decreases self.pares@.len() - i,
        {
            if self.pares[i].0.as_str().eq(nome) {
                return Some(i);
            }
            i += 1;
        }
        None
    }

    /// O valor de um nome.
    pub fn obter(&self, nome: &str) -> (r: Option<&V>)
        ensures
            match r {
                Some(v) => self@.dom().contains(nome@) && *v == self@[nome@],
                None => !self@.dom().contains(nome@),
            },
    {
        match self.procurar(nome) {
            Some(i) => Some(&self.pares[i].1),
            None => None,
        }
    }

    /// Se ha um valor para o nome.
    pub fn tem(&self, nome: &str) -> (r: bool)
        ensures
            r == self@.dom().contains(nome@),
    {
        self.procurar(nome).is_some()
    }

    /// Guarda um valor; o que havia com o mesmo nome se perde.
    pub fn inserir(&mut self, nome: String, valor: V)
        ensures
            final(self)@ == old(self)@.insert(nome@, valor),
    {
        proof {
            use_type_invariant(&*self);
        }
        let ghost antes = self.pares@;
        let mut pares: Vec<(String, V)> = Vec::new();
        match self.procurar(nome.as_str()) {
            Some(i) => {
                std::mem::swap(&mut self.pares, &mut pares);
                pares.set(i, (nome, valor));
                proof {
                    lema_posicao(antes, nome@, 0);
                    let depois = pares@;
                    assert forall|a: int, b: int| 0 <= a < b < depois.len() implies (
                    #[trigger] depois[a]).0@ != (#[trigger] depois[b]).0@ by {
                        assert(antes[a].0@ != antes[b].0@);
                    }
                    assert forall|k: Seq<char>| #[trigger] posicao(depois, k, 0) == posicao(antes, k, 0) && (
                    posicao(antes, k, 0) is Some && k != nome@ ==> depois[posicao(antes, k, 0)->Some_0]
                        == antes[posicao(antes, k, 0)->Some_0]) by {
                        lema_posicao(antes, k, 0);
                        lema_posicao(depois, k, 0);
                        assert forall|m: int| 0 <= m < antes.len() implies depois[m].0@ == (#[trigger] antes[m]).0@ by {}
                    }
                    assert(depois[i as int].1 == valor);
                }
                self.pares = pares;
            },
            None => {
                std::mem::swap(&mut self.pares, &mut pares);
                pares.push((nome, valor));
                proof {
                    lema_posicao(antes, nome@, 0);
                    let depois = pares@;
                    assert forall|k: Seq<char>| #[trigger] posicao(depois, k, 0) == (if k == nome@ {
                        Some(antes.len() as int)
                    } else {
                        posicao(antes, k, 0)
                    }) && (posicao(antes, k, 0) is Some ==> depois[posicao(antes, k, 0)->Some_0]
                        == antes[posicao(antes, k, 0)->Some_0]) by {
                        lema_posicao(antes, k, 0);
                        lema_posicao(depois, k, 0);
                        assert(depois[antes.len() as int].0@ == nome@);
                        assert forall|m: int| 0 <= m < antes.len() implies depois[m] == #[trigger] antes[m] by {}
                    }
                }
                self.pares = pares;
            },
        }
        assert(self@ =~= old(self)@.insert(nome@, valor));
    }

    /// Retira um nome e devolve o que ele guardava.
    pub fn remover(&mut self, nome: &str) -> (r: Option<V>)
        ensures
            final(self)@ == old(self)@.remove(nome@),
            match r {
                Some(v) => old(self)@.dom().contains(nome@) && v == old(self)@[nome@],
                None => !old(self)@.dom().contains(nome@),
            },
    {
        proof {
            use_type_invariant(&*self);
        }
        let ghost antes = self.pares@;
        match self.procurar(nome) {
            Some(i) => {
                let mut pares: Vec<(String, V)> = Vec::new();
                std::mem::swap(&mut self.pares, &mut pares);
                let par = pares.remove(i);
                proof {
                    let depois = pares@;
                    lema_posicao(antes, nome@, 0);
                    assert forall|a: int, b: int| 0 <= a < b < depois.len() implies (
                    #[trigger] depois[a]).0@ != (#[trigger] depois[b]).0@ by {
                        let a2 = if a < i { a } else { a + 1 };
                        let b2 = if b < i { b } else { b + 1 };
                        assert(antes[a2].0@ != antes[b2].0@);
                    }
                    assert forall|k: Seq<char>| #[trigger] posicao(depois, k, 0) == (if k == nome@ {
                        None
                    } else {
                        match posicao(antes, k, 0) {
                            Some(j) => Some(if j < i { j } else { j - 1 }),
                            None => None,
                        }
                    }) && (posicao(antes, k, 0) is Some && k != nome@ ==> depois[posicao(depois, k, 0)->Some_0]
                        == antes[posicao(antes, k, 0)->Some_0]) by {
                        lema_posicao(antes, k, 0);
                        lema_posicao(depois, k, 0);
                        assert forall|m: int| 0 <= m < depois.len() implies #[trigger] depois[m] == antes[if m < i { m } else { m + 1 }] by {}
                        if k == nome@ {
                            assert forall|m: int| 0 <= m < depois.len() implies (#[trigger] depois[m]).0@ != k by {
                                let m2 = if m < i { m } else { m + 1 };
                                if m2 < i {
                                    assert(antes[m2].0@ != antes[i as int].0@);
                                } else {
                                    assert(antes[i as int].0@ != antes[m2].0@);
                                }
                            }
                        } else if posicao(antes, k, 0) is Some {
                            let j = posicao(antes, k, 0)->Some_0;
                            let d = if j < i { j } else { j - 1 };
                            assert(depois[d].0@ == k);
                            assert forall|m: int| 0 <= m < d implies (#[trigger] depois[m]).0@ != k by {
                                let m2 = if m < i { m } else { m + 1 };
                                assert(antes[m2].0@ != k);
                            }
                        } else {
                            assert forall|m: int| 0 <= m < depois.len() implies (#[trigger] depois[m]).0@ != k by {
                                let m2 = if m < i { m } else { m + 1 };
                                assert(antes[m2].0@ != k);
                            }
                        }
                    }
                }
                self.pares = pares;
                assert(self@ =~= old(self)@.remove(nome@));
                Some(par.1)
            },
            None => {
                assert(self@ =~= old(self)@.remove(nome@));
                None
            },
        }
    }

    /// Quantos nomes ha.
    pub fn tamanho(&self) -> (r: usize)
        ensures
            r == self.nomes().len(),
    {
        self.pares.len()
    }

    /// Os nomes. Cada um aparece uma vez; a ordem e a de entrada.
    pub fn chaves(&self) -> (r: Vec<String>)
        ensures
            texto::textos(r@) == self.nomes(),
            forall|k: Seq<char>| self@.dom().contains(k) <==> #[trigger] self.nomes().contains(k),
            self.nomes().no_duplicates(),
    {
        proof {
            use_type_invariant(self);
        }
        let mut r: Vec<String> = Vec::new();
        for i in 0..self.pares.len()
            invariant
                r@.len() == i,
                forall|j: int| 0 <= j < i ==> (#[trigger] r@[j])@ == self.pares@[j].0@,
        {
            r.push(self.pares[i].0.clone());
        }
        proof {
            self.lema_nomes();
            assert(texto::textos(r@) =~= self.nomes());
        }
        r
    }

    /// O nome e o valor de uma posicao.
    pub fn par(&self, i: usize) -> (r: (&String, &V))
        requires
            i < self.nomes().len(),
        ensures
            r.0@ == self.nomes()[i as int],
            self@.dom().contains(r.0@),
            *r.1 == self@[r.0@],
    {
        proof {
            use_type_invariant(self);
            lema_posicao(self.pares@, self.pares@[i as int].0@, 0);
        }
        (&self.pares[i].0, &self.pares[i].1)
    }

    /// Os nomes da lista sao os da tabela.
    pub proof fn lema_nomes(&self)
        requires
            self.bem_formada(),
        ensures
            forall|k: Seq<char>| self@.dom().contains(k) <==> #[trigger] self.nomes().contains(k),
            self.nomes().no_duplicates(),
    {
        assert forall|k: Seq<char>| self@.dom().contains(k) <==> #[trigger] self.nomes().contains(k) by {
            lema_posicao(self.pares@, k, 0);
            if self@.dom().contains(k) {
                let j = posicao(self.pares@, k, 0)->Some_0;
                assert(self.nomes()[j] == k);
            }
            if self.nomes().contains(k) {
                let j = choose|j: int| 0 <= j < self.nomes().len() && self.nomes()[j] == k;
                assert(self.pares@[j].0@ == k);
            }
        }
        assert forall|i: int, j: int| 0 <= i < self.nomes().len() && 0 <= j < self.nomes().len() && i != j implies
            self.nomes()[i] != self.nomes()[j] by {
            if i < j {
                assert(self.pares@[i].0@ != self.pares@[j].0@);
            } else {
                assert(self.pares@[j].0@ != self.pares@[i].0@);
            }
        }
    }
}

} // verus!
