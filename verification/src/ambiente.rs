//! Os ambientes do interpretador: procurar, definir e atribuir variaveis.

use vstd::prelude::*;
use crate::biblioteca;
use crate::texto;
use crate::valor::{achar_chave, copiar_escopos, guardar, Ambiente, Valor};
use crate::valor;

verus! {

/// O valor de um nome nos primeiros `n` escopos, do mais de dentro ao mais de fora.
pub open spec fn procurado(e: Seq<valor::Escopo>, nome: Seq<char>, n: int) -> Option<valor::Dado>
    decreases n,
{
    if n <= 0 || n > e.len() {
        None
    } else {
        match valor::valor_de(e[n - 1], nome) {
            Some(v) => Some(v),
            None => procurado(e, nome, n - 1),
        }
    }
}

/// O valor de um nome.
pub open spec fn obtido(e: Seq<valor::Escopo>, nome: Seq<char>) -> Option<valor::Dado> {
    procurado(e, nome, e.len() as int)
}

/// O ambiente com um nome definido no escopo de dentro.
pub open spec fn definido(e: Seq<valor::Escopo>, nome: Seq<char>, v: valor::Dado) -> Seq<valor::Escopo> {
    if e.len() == 0 {
        seq![valor::com_valor(Seq::empty(), nome, v)]
    } else {
        e.update(e.len() - 1, valor::com_valor(e.last(), nome, v))
    }
}

/// O ambiente com um valor novo para um nome ja definido nos primeiros `n` escopos.
pub open spec fn trocado(e: Seq<valor::Escopo>, nome: Seq<char>, v: valor::Dado, n: int) -> Option<Seq<valor::Escopo>>
    decreases n,
{
    if n <= 0 || n > e.len() {
        None
    } else if valor::lugar(e[n - 1], nome, 0) is Some {
        Some(e.update(n - 1, valor::com_valor(e[n - 1], nome, v)))
    } else {
        trocado(e, nome, v, n - 1)
    }
}

/// O ambiente com um valor novo para um nome ja definido.
pub open spec fn atribuido(e: Seq<valor::Escopo>, nome: Seq<char>, v: valor::Dado) -> Option<Seq<valor::Escopo>> {
    trocado(e, nome, v, e.len() as int)
}

/// O escopo com as primeiras `n` funcoes nativas.
pub open spec fn registrados(ns: Seq<Seq<char>>, n: int) -> valor::Escopo
    decreases n,
{
    if n <= 0 || n > ns.len() {
        Seq::empty()
    } else {
        valor::com_valor(registrados(ns, n - 1), ns[n - 1], valor::Dado::FuncaoNativa(ns[n - 1]))
    }
}

/// O ambiente de um programa que comeca: um escopo com as funcoes nativas.
pub open spec fn inicial() -> Seq<valor::Escopo> {
    seq![registrados(biblioteca::nomes_nativos(), biblioteca::nomes_nativos().len() as int)]
}

/// Um nome que um modulo mostra: sem sublinhado no inicio e sem ser funcao nativa.
pub open spec fn exportado(p: (Seq<char>, valor::Dado)) -> bool {
    !(p.0.len() > 0 && p.0[0] == '_') && !(p.1 is FuncaoNativa)
}

/// Os nomes que um modulo mostra.
pub open spec fn exportados(m: valor::Escopo) -> valor::Escopo
    decreases m.len(),
{
    if m.len() == 0 {
        Seq::empty()
    } else if exportado(m.last()) {
        exportados(m.drop_last()).push(m.last())
    } else {
        exportados(m.drop_last())
    }
}

/// Uma funcao com outro ambiente; outro valor fica como esta.
pub open spec fn com_ambiente(v: valor::Dado, e: Seq<valor::Escopo>) -> valor::Dado {
    match v {
        valor::Dado::Funcao { parametros, corpo, ambiente } => valor::Dado::Funcao { parametros, corpo, ambiente: e },
        _ => v,
    }
}

/// O escopo de dentro com as funcoes presas ao ambiente inteiro.
pub open spec fn funcoes_presas(m: valor::Escopo, e: Seq<valor::Escopo>) -> valor::Escopo {
    m.map_values(|p: (Seq<char>, valor::Dado)| (p.0, com_ambiente(p.1, e)))
}

/// O ambiente com as funcoes do escopo de dentro presas a ele.
pub open spec fn capturado(e: Seq<valor::Escopo>) -> Seq<valor::Escopo> {
    if e.len() == 0 {
        e
    } else {
        e.update(e.len() - 1, funcoes_presas(e.last(), e))
    }
}

impl Ambiente {
    pub open spec fn view(&self) -> Seq<valor::Escopo> {
        valor::escopos_vistos(self.escopos@)
    }

    /// Um ambiente sem nada.
    pub fn vazio() -> (r: Self)
        ensures
            r@ == seq![Seq::<(Seq<char>, valor::Dado)>::empty()],
    {
        let mut escopos: Vec<Vec<(String, Valor)>> = Vec::new();
        let e: Vec<(String, Valor)> = Vec::new();
        assert(valor::pares_vistos(e@) =~= Seq::empty());
        escopos.push(e);
        let r = Ambiente { escopos };
        assert(r@ =~= seq![Seq::<(Seq<char>, valor::Dado)>::empty()]);
        r
    }

    /// O ambiente de um programa que comeca.
    pub fn novo() -> (r: Self)
        ensures
            r@ == inicial(),
    {
        let ns = biblioteca::listar_nativos();
        let ghost t = texto::textos(ns@);
        let mut e: Vec<(String, Valor)> = Vec::new();
        assert(valor::pares_vistos(e@) =~= Seq::empty());
        let mut i: usize = 0;
        while i < ns.len()
            invariant
                i <= ns@.len(),
                t == texto::textos(ns@),
                valor::pares_vistos(e@) == registrados(t, i as int),
            decreases ns@.len() - i,
        {
            assert(t[i as int] == ns@[i as int]@);
            guardar(&mut e, ns[i].clone(), Valor::FuncaoNativa(ns[i].clone()));
            i += 1;
        }
        assert(t.len() == ns@.len());
        let mut escopos: Vec<Vec<(String, Valor)>> = Vec::new();
        escopos.push(e);
        let r = Ambiente { escopos };
        assert(r@ =~= inicial());
        r
    }

    /// Um ambiente dentro de outro.
    pub fn filho(pai: Ambiente) -> (r: Self)
        ensures
            r@ == pai@.push(Seq::empty()),
    {
        let mut escopos = pai.escopos;
        let ghost antes = valor::escopos_vistos(escopos@);
        let e: Vec<(String, Valor)> = Vec::new();
        assert(valor::pares_vistos(e@) =~= Seq::empty());
        escopos.push(e);
        let r = Ambiente { escopos };
        assert(r@ =~= antes.push(Seq::empty()));
        r
    }

    /// O valor de um nome.
    pub fn obter(&self, nome: &str) -> (r: Option<Valor>)
        ensures
            match r {
                Some(v) => obtido(self@, nome@) == Some(v@),
                None => obtido(self@, nome@) is None,
            },
    {
        let mut i: usize = self.escopos.len();
        while i > 0
            invariant
                i <= self.escopos@.len(),
                obtido(self@, nome@) == procurado(self@, nome@, i as int),
            decreases i,
        {
            assert(self@[i - 1] == valor::pares_vistos(self.escopos@[i - 1]@));
            let m = &self.escopos[i - 1];
            if let Some(k) = achar_chave(m, nome) {
                assert(valor::pares_vistos(m@)[k as int].1 == m@[k as int].1@);
                return Some(m[k].1.clone());
            }
            i -= 1;
        }
        None
    }

    /// Define um nome no escopo de dentro.
    pub fn definir(&mut self, nome: String, valor: Valor)
        ensures
            final(self)@ == definido(old(self)@, nome@, valor@),
    {
        let ghost antes = self@;
        let ghost nv = nome@;
        let ghost vv = valor@;
        let n = self.escopos.len();
        assert(antes.len() == n);
        let mut m: Vec<(String, Valor)> = match self.escopos.pop() {
            Some(m) => m,
            None => Vec::new(),
        };
        proof {
            if n > 0 {
                assert(antes[n - 1] == valor::pares_vistos(m@));
            } else {
                assert(valor::pares_vistos(m@) =~= Seq::empty());
            }
        }
        guardar(&mut m, nome, valor);
        self.escopos.push(m);
        assert(self@ =~= definido(antes, nv, vv));
    }

    /// Da um valor novo a um nome ja definido.
    pub fn atribuir(&mut self, nome: &str, valor: Valor) -> (r: bool)
        ensures
            match atribuido(old(self)@, nome@, valor@) {
                Some(e) => r && final(self)@ == e,
                None => !r && final(self)@ == old(self)@,
            },
    {
        let ghost antes = self@;
        let mut i: usize = self.escopos.len();
        while i > 0
            invariant
                i <= self.escopos@.len(),
                self@ == antes,
                antes == old(self)@,
                atribuido(antes, nome@, valor@) == trocado(antes, nome@, valor@, i as int),
            decreases i,
        {
            assert(self@[i - 1] == valor::pares_vistos(self.escopos@[i - 1]@));
            if achar_chave(&self.escopos[i - 1], nome).is_some() {
                let ghost vv = valor@;
                let mut m: Vec<(String, Valor)> = Vec::new();
                std::mem::swap(&mut self.escopos[i - 1], &mut m);
                assert(valor::pares_vistos(m@) == antes[i - 1]);
                guardar(&mut m, nome.to_owned(), valor);
                self.escopos.set(i - 1, m);
                assert(self@ =~= antes.update(i - 1, valor::com_valor(antes[i - 1], nome@, vv)));
                return true;
            }
            i -= 1;
        }
        false
    }

    /// Uma copia do ambiente.
    pub fn copia(&self) -> (r: Self)
        ensures
            r@ == self@,
    {
        Ambiente { escopos: copiar_escopos(&self.escopos) }
    }

    /// Os nomes que um modulo mostra: os do escopo de dentro.
    pub fn exportar_publicas(&self) -> (r: Vec<(String, Valor)>)
        ensures
            valor::pares_vistos(r@) == (if self@.len() == 0 {
                Seq::empty()
            } else {
                exportados(self@.last())
            }),
    {
        let mut r: Vec<(String, Valor)> = Vec::new();
        assert(valor::pares_vistos(r@) =~= Seq::empty());
        let n = self.escopos.len();
        assert(self@.len() == n);
        if n == 0 {
            return r;
        }
        let m = &self.escopos[n - 1];
        let ghost p = valor::pares_vistos(m@);
        assert(self@[n - 1] == p);
        let mut i: usize = 0;
        while i < m.len()
            invariant
                i <= m@.len(),
                p == valor::pares_vistos(m@),
                valor::pares_vistos(r@) == exportados(p.take(i as int)),
            decreases m@.len() - i,
        {
            assert(p.take(i + 1).drop_last() =~= p.take(i as int));
            assert(p.take(i + 1).last() == (m@[i as int].0@, m@[i as int].1@));
            let cs = texto::caracteres(m[i].0.as_str());
            let privado = cs.len() > 0 && cs[0] == '_';
            let nativa = match &m[i].1 {
                Valor::FuncaoNativa(_) => true,
                _ => false,
            };
            if !privado && !nativa {
                let ghost antes = r@;
                let k = m[i].0.clone();
                let v = m[i].1.clone();
                r.push((k, v));
                assert(valor::pares_vistos(r@) =~= valor::pares_vistos(antes).push(p[i as int]));
            }
            i += 1;
        }
        assert(p.take(i as int) =~= p);
        r
    }

    /// Prende as funcoes do escopo de dentro a este ambiente.
    pub fn capturar_funcoes(&mut self)
        ensures
            final(self)@ == capturado(old(self)@),
    {
        let ghost antes = self@;
        let n = self.escopos.len();
        assert(antes.len() == n);
        let foto = self.copia();
        let m: Vec<(String, Valor)> = match self.escopos.pop() {
            Some(m) => m,
            None => {
                assert(self@ =~= antes);
                return;
            },
        };
        let ghost p = valor::pares_vistos(m@);
        assert(antes[n - 1] == p);
        let mut r: Vec<(String, Valor)> = Vec::new();
        let mut i: usize = 0;
        while i < m.len()
            invariant
                i <= m@.len(),
                p == valor::pares_vistos(m@),
                foto@ == antes,
                r@.len() == i,
                forall|k: int|
                    0 <= k < i ==> (#[trigger] r@[k]).0@ == m@[k].0@ && r@[k].1@ == com_ambiente(m@[k].1@, antes),
            decreases m@.len() - i,
        {
            let k = m[i].0.clone();
            let v = match m[i].1.clone() {
                Valor::Funcao { parametros, corpo, ambiente } => Valor::Funcao {
                    parametros,
                    corpo,
                    ambiente: foto.copia(),
                },
                outro => outro,
            };
            r.push((k, v));
            i += 1;
        }
        assert(valor::pares_vistos(r@) =~= funcoes_presas(p, antes));
        self.escopos.push(r);
        assert(self@ =~= capturado(antes));
    }
}

proof fn lema_procurado(e: Seq<valor::Escopo>, f: Seq<valor::Escopo>, nome: Seq<char>, n: int)
    requires
        0 <= n <= e.len(),
        n <= f.len(),
        forall|i: int| 0 <= i < n ==> e[i] == f[i],
    ensures
        procurado(e, nome, n) == procurado(f, nome, n),
    decreases n,
{
    if n > 0 {
        lema_procurado(e, f, nome, n - 1);
    }
}

proof fn lema_valor_guardado(m: valor::Escopo, k: Seq<char>, v: valor::Dado, outra: Seq<char>)
    ensures
        valor::valor_de(valor::com_valor(m, k, v), k) == Some(v),
        outra != k ==> valor::valor_de(valor::com_valor(m, k, v), outra) == valor::valor_de(m, outra),
{
    let c = valor::com_valor(m, k, v);
    valor::lema_lugar(m, k, 0);
    valor::lema_lugar(c, k, 0);
    valor::lema_lugar(m, outra, 0);
    valor::lema_lugar(c, outra, 0);
    match valor::lugar(m, k, 0) {
        Some(i) => {
            assert(c[i] == (k, v));
            if let Some(j) = valor::lugar(m, outra, 0) {
                if outra != k {
                    assert(c[j] == m[j]);
                }
            }
        },
        None => {
            assert(c[m.len() as int] == (k, v));
            if let Some(j) = valor::lugar(m, outra, 0) {
                assert(c[j] == m[j]);
            }
        },
    }
}

/// Definir um nome e obte-lo da o valor definido, e os outros nomes dao o que davam.
pub proof fn lei_definir(e: Seq<valor::Escopo>, nome: Seq<char>, v: valor::Dado, outro: Seq<char>)
    requires
        e.len() > 0,
    ensures
        obtido(definido(e, nome, v), nome) == Some(v),
        outro != nome ==> obtido(definido(e, nome, v), outro) == obtido(e, outro),
{
    let d = definido(e, nome, v);
    lema_valor_guardado(e.last(), nome, v, outro);
    lema_procurado(d, e, outro, e.len() - 1);
}

proof fn lema_trocado(e: Seq<valor::Escopo>, nome: Seq<char>, v: valor::Dado, outro: Seq<char>, n: int)
    requires
        0 <= n <= e.len(),
    ensures
        (trocado(e, nome, v, n) is Some) == (procurado(e, nome, n) is Some),
        trocado(e, nome, v, n) matches Some(t) ==> t.len() == e.len() && procurado(t, nome, n) == Some(v) && (outro
            != nome ==> procurado(t, outro, n) == procurado(e, outro, n)) && forall|i: int|
            n <= i < e.len() ==> #[trigger] t[i] == e[i],
    decreases n,
{
    if n > 0 {
        if valor::lugar(e[n - 1], nome, 0) is Some {
            let t = e.update(n - 1, valor::com_valor(e[n - 1], nome, v));
            lema_valor_guardado(e[n - 1], nome, v, outro);
            lema_procurado(t, e, outro, n - 1);
        } else {
            lema_trocado(e, nome, v, outro, n - 1);
            if let Some(t) = trocado(e, nome, v, n - 1) {
                assert(t[n - 1] == e[n - 1]);
            }
        }
    }
}

/// Atribuir so serve a um nome definido; depois ele da o valor atribuido e os outros o que davam.
pub proof fn lei_atribuir(e: Seq<valor::Escopo>, nome: Seq<char>, v: valor::Dado, outro: Seq<char>)
    ensures
        (atribuido(e, nome, v) is Some) == (obtido(e, nome) is Some),
        atribuido(e, nome, v) matches Some(t) ==> obtido(t, nome) == Some(v) && (outro != nome ==> obtido(t, outro)
            == obtido(e, outro)),
{
    lema_trocado(e, nome, v, outro, e.len() as int);
}

/// O que se define num ambiente filho nao muda o que o pai da.
pub proof fn lei_filho(pai: Seq<valor::Escopo>, nome: Seq<char>, v: valor::Dado)
    ensures
        definido(pai.push(Seq::empty()), nome, v).drop_last() == pai,
        obtido(pai.push(Seq::empty()), nome) == obtido(pai, nome),
{
    let f = pai.push(Seq::<(Seq<char>, valor::Dado)>::empty());
    assert(definido(f, nome, v).drop_last() =~= pai);
    lema_procurado(f, pai, nome, pai.len() as int);
}

} // verus!
