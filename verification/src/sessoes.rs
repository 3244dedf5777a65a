//! As sessoes HTTP: dados por visitante, com prazo de validade.
//!
//! Os instantes contam-se em nanossegundos e sao dados por quem chama.

use vstd::prelude::*;
use crate::tabela::Tabela;
use crate::texto;

verus! {

/// Uma sessao.
pub struct Sessao<V> {
    dados: Tabela<V>,
    expira_em: u128,
    ttl: u128,
}

/// O que uma sessao guarda.
#[verifier::ext_equal]
pub ghost struct SessaoVista<V> {
    pub dados: Map<Seq<char>, V>,
    pub expira_em: int,
    pub ttl: int,
}

impl<V> Sessao<V> {
    pub closed spec fn view(&self) -> SessaoVista<V> {
        SessaoVista { dados: self.dados@, expira_em: self.expira_em as int, ttl: self.ttl as int }
    }
}

/// Todas as sessoes.
pub struct Repositorio<V> {
    sessoes: Tabela<Sessao<V>>,
    pub ttl_padrao: u128,
}

// ---- O modelo ---------------------------------------------------------------------------

/// As sessoes por identificador.
pub type Quadro<V> = Map<Seq<char>, SessaoVista<V>>;

/// Se ha sessao com esse identificador e ela nao expirou.
pub open spec fn ativa<V>(q: Quadro<V>, id: Seq<char>, agora: int) -> bool {
    q.dom().contains(id) && q[id].expira_em > agora
}

/// Uma sessao sem dados.
pub open spec fn vazia<V>(agora: int, ttl: int) -> SessaoVista<V> {
    SessaoVista { dados: Map::empty(), expira_em: agora + ttl, ttl }
}

/// As sessoes com uma ativa de identificador `id`: a que ja havia, ou uma nova.
pub open spec fn garantido<V>(q: Quadro<V>, id: Seq<char>, agora: int, ttl: int) -> Quadro<V> {
    if ativa(q, id, agora) {
        q
    } else {
        q.insert(id, vazia(agora, ttl))
    }
}

/// As sessoes com mais um dado numa delas.
pub open spec fn definido<V>(
    q: Quadro<V>,
    id: Seq<char>,
    chave: Seq<char>,
    valor: V,
    agora: int,
    ttl: int,
) -> Quadro<V> {
    let g = garantido(q, id, agora, ttl);
    g.insert(id, SessaoVista { dados: g[id].dados.insert(chave, valor), ..g[id] })
}

/// O dado de uma sessao ativa.
pub open spec fn obtido<V>(q: Quadro<V>, id: Seq<char>, chave: Seq<char>, agora: int) -> Option<V> {
    if ativa(q, id, agora) && q[id].dados.dom().contains(chave) {
        Some(q[id].dados[chave])
    } else {
        None
    }
}

/// As sessoes com uma delas mudada de identificador; se ela nao existe, ha uma com o novo.
pub open spec fn migrado<V>(q: Quadro<V>, antigo: Seq<char>, novo: Seq<char>, agora: int, ttl: int) -> Quadro<V> {
    if q.dom().contains(antigo) {
        q.remove(antigo).insert(novo, q[antigo])
    } else {
        garantido(q, novo, agora, ttl)
    }
}

/// As sessoes que nao expiraram.
pub open spec fn limpo<V>(q: Quadro<V>, agora: int) -> Quadro<V> {
    Map::new(|id: Seq<char>| ativa(q, id, agora), |id: Seq<char>| q[id])
}

/// Quantos dos identificadores sao de sessoes ativas.
pub open spec fn contagem<V>(q: Quadro<V>, ids: Seq<Seq<char>>, agora: int) -> nat
    decreases ids.len(),
{
    if ids.len() == 0 {
        0
    } else {
        contagem(q, ids.drop_last(), agora) + if ativa(q, ids.last(), agora) {
            1nat
        } else {
            0nat
        }
    }
}

/// Quantos nanossegundos ha em tantos minutos.
pub open spec fn minutos_em_nanos(m: int) -> int {
    m * 60_000_000_000
}

// ---- As leis ----------------------------------------------------------------------------

/// Le-se o que se escreveu, enquanto a sessao nao expira.
pub proof fn lei_ler_o_escrito<V>(
    q: Quadro<V>,
    id: Seq<char>,
    chave: Seq<char>,
    valor: V,
    agora: int,
    ttl: int,
    depois: int,
)
    requires
        agora <= depois,
        depois < garantido(q, id, agora, ttl)[id].expira_em,
    ensures
        obtido(definido(q, id, chave, valor, agora, ttl), id, chave, depois) == Some(valor),
{
}

/// Escrever um dado nao muda os outros, nem os das outras sessoes.
pub proof fn lei_escrita_local<V>(
    q: Quadro<V>,
    id: Seq<char>,
    chave: Seq<char>,
    valor: V,
    agora: int,
    ttl: int,
    outro: Seq<char>,
    k: Seq<char>,
)
    requires
        outro != id || k != chave,
        ttl >= 0,
    ensures
        obtido(definido(q, id, chave, valor, agora, ttl), outro, k, agora) == obtido(q, outro, k, agora),
{
}

/// Depois do prazo nada se le.
pub proof fn lei_expirada<V>(q: Quadro<V>, id: Seq<char>, chave: Seq<char>, agora: int)
    requires
        q.dom().contains(id) ==> q[id].expira_em <= agora,
    ensures
        obtido(q, id, chave, agora) is None,
{
}

/// Mudar o identificador de uma sessao leva os dados: o novo os tem e o antigo nao.
pub proof fn lei_migrar<V>(
    q: Quadro<V>,
    antigo: Seq<char>,
    novo: Seq<char>,
    chave: Seq<char>,
    agora: int,
    ttl: int,
)
    requires
        q.dom().contains(antigo),
        antigo != novo,
    ensures
        obtido(migrado(q, antigo, novo, agora, ttl), novo, chave, agora) == obtido(q, antigo, chave, agora),
        obtido(migrado(q, antigo, novo, agora, ttl), antigo, chave, agora) is None,
{
}

/// A limpeza nao muda o que se le.
pub proof fn lei_limpeza<V>(q: Quadro<V>, id: Seq<char>, chave: Seq<char>, agora: int, depois: int)
    requires
        agora <= depois,
    ensures
        obtido(limpo(q, agora), id, chave, depois) == obtido(q, id, chave, depois),
{
}

// ---- O repositorio ----------------------------------------------------------------------

impl<V> Repositorio<V> {
    /// As sessoes por identificador.
    pub closed spec fn view(&self) -> Quadro<V> {
        Map::new(
            |id: Seq<char>| self.sessoes@.dom().contains(id),
            |id: Seq<char>| self.sessoes@[id]@,
        )
    }

    /// O prazo de uma sessao nova.
    pub closed spec fn prazo(&self) -> int {
        self.ttl_padrao as int
    }

    /// Os identificadores.
    pub closed spec fn ids(&self) -> Seq<Seq<char>> {
        self.sessoes.nomes()
    }

    /// Um repositorio sem sessoes.
    pub fn novo(ttl_minutos: u64) -> (r: Self)
        ensures
            r@ == Map::<Seq<char>, SessaoVista<V>>::empty(),
            r.prazo() == minutos_em_nanos(ttl_minutos as int),
    {
        let r = Repositorio { sessoes: Tabela::nova(), ttl_padrao: ttl_minutos as u128 * 60_000_000_000 };
        assert(r@ =~= Map::<Seq<char>, SessaoVista<V>>::empty());
        r
    }

    fn valida(&self, id: &str, agora: u64) -> (r: bool)
        ensures
            r == ativa(self@, id@, agora as int),
    {
        match self.sessoes.obter(id) {
            Some(s) => s.expira_em > agora as u128,
            None => false,
        }
    }

    fn por(&mut self, id: String, s: Sessao<V>)
        ensures
            final(self)@ == old(self)@.insert(id@, s@),
            final(self).prazo() == old(self).prazo(),
    {
        self.sessoes.inserir(id, s);
        assert(self@ =~= old(self)@.insert(id@, s@));
    }

    fn tirar(&mut self, id: &str) -> (r: Option<Sessao<V>>)
        ensures
            final(self)@ == old(self)@.remove(id@),
            final(self).prazo() == old(self).prazo(),
            match r {
                Some(s) => old(self)@.dom().contains(id@) && s@ == old(self)@[id@],
                None => !old(self)@.dom().contains(id@),
            },
    {
        let r = self.sessoes.remover(id);
        assert(self@ =~= old(self)@.remove(id@));
        r
    }

    /// Garante que ha uma sessao ativa.
    pub fn garantir(&mut self, id: &str, agora: u64)
        requires
            old(self).prazo() <= minutos_em_nanos(u64::MAX as int),
        ensures
            final(self)@ == garantido(old(self)@, id@, agora as int, old(self).prazo()),
            final(self).prazo() == old(self).prazo(),
    {
        if !self.valida(id, agora) {
            let ttl = self.ttl_padrao;
            let nova = Sessao { dados: Tabela::nova(), expira_em: agora as u128 + ttl, ttl };
            assert(nova@ =~= vazia::<V>(agora as int, ttl as int));
            self.por(id.to_owned(), nova);
        }
    }

    /// O dado de uma sessao ativa.
    pub fn obter(&self, id: &str, chave: &str, agora: u64) -> (r: Option<&V>)
        ensures
            match r {
                Some(v) => obtido(self@, id@, chave@, agora as int) == Some(*v),
                None => obtido(self@, id@, chave@, agora as int) is None,
            },
    {
        match self.sessoes.obter(id) {
            Some(s) => if s.expira_em > agora as u128 {
                s.dados.obter(chave)
            } else {
                None
            },
            None => None,
        }
    }

    /// Guarda um dado numa sessao, que e criada se preciso.
    pub fn definir(&mut self, id: &str, chave: String, valor: V, agora: u64)
        requires
            old(self).prazo() <= minutos_em_nanos(u64::MAX as int),
        ensures
            final(self)@ == definido(
                old(self)@,
                id@,
                chave@,
                valor,
                agora as int,
                old(self).prazo(),
            ),
            final(self).prazo() == old(self).prazo(),
    {
        self.garantir(id, agora);
        let ghost g = self@;
        if let Some(s) = self.tirar(id) {
            let mut s = s;
            s.dados.inserir(chave, valor);
            self.por(id.to_owned(), s);
            assert(self@ =~= g.insert(id@, s@));
        }
    }

    /// Retira um dado de uma sessao, mesmo expirada, e devolve-o.
    pub fn remover(&mut self, id: &str, chave: &str) -> (r: Option<V>)
        ensures
            match r {
                Some(v) => old(self)@.dom().contains(id@) && old(self)@[id@].dados.dom().contains(chave@) && v
                    == old(self)@[id@].dados[chave@],
                None => !old(self)@.dom().contains(id@) || !old(self)@[id@].dados.dom().contains(chave@),
            },
            final(self)@ == (if old(self)@.dom().contains(id@) {
                old(self)@.insert(
                    id@,
                    SessaoVista { dados: old(self)@[id@].dados.remove(chave@), ..old(self)@[id@] },
                )
            } else {
                old(self)@
            }),
            final(self).prazo() == old(self).prazo(),
    {
        match self.tirar(id) {
            Some(s) => {
                let mut s = s;
                let r = s.dados.remover(chave);
                self.por(id.to_owned(), s);
                assert(self@ =~= old(self)@.insert(id@, s@));
                r
            },
            None => {
                assert(self@ =~= old(self)@);
                None
            },
        }
    }

    /// Acaba com uma sessao.
    pub fn destruir(&mut self, id: &str)
        ensures
            final(self)@ == old(self)@.remove(id@),
            final(self).prazo() == old(self).prazo(),
    {
        let _ = self.tirar(id);
    }

    /// Muda o identificador de uma sessao.
    pub fn migrar(&mut self, id_antigo: &str, id_novo: &str, agora: u64)
        requires
            old(self).prazo() <= minutos_em_nanos(u64::MAX as int),
        ensures
            final(self)@ == migrado(
                old(self)@,
                id_antigo@,
                id_novo@,
                agora as int,
                old(self).prazo(),
            ),
            final(self).prazo() == old(self).prazo(),
    {
        match self.tirar(id_antigo) {
            Some(s) => {
                self.por(id_novo.to_owned(), s);
            },
            None => {
                assert(self@ =~= old(self)@);
                self.garantir(id_novo, agora);
            },
        }
    }

    /// Recomeca o prazo de uma sessao.
    pub fn renovar(&mut self, id: &str, agora: u64)
        requires
            old(self)@.dom().contains(id@) ==> old(self)@[id@].ttl <= minutos_em_nanos(u64::MAX as int),
        ensures
            final(self)@ == (if old(self)@.dom().contains(id@) {
                old(self)@.insert(
                    id@,
                    SessaoVista { expira_em: agora + old(self)@[id@].ttl, ..old(self)@[id@] },
                )
            } else {
                old(self)@
            }),
            final(self).prazo() == old(self).prazo(),
    {
        match self.tirar(id) {
            Some(s) => {
                let mut s = s;
                s.expira_em = agora as u128 + s.ttl;
                self.por(id.to_owned(), s);
                assert(self@ =~= old(self)@.insert(id@, s@));
            },
            None => {
                assert(self@ =~= old(self)@);
            },
        }
    }

    /// Da a uma sessao outro prazo, que comeca agora.
    pub fn definir_ttl(&mut self, id: &str, minutos: u64, agora: u64)
        requires
            old(self).prazo() <= minutos_em_nanos(u64::MAX as int),
        ensures
            ({
                let g = garantido(old(self)@, id@, agora as int, old(self).prazo());
                let ttl = minutos_em_nanos(minutos as int);
                final(self)@ == g.insert(
                    id@,
                    SessaoVista { dados: g[id@].dados, expira_em: agora + ttl, ttl },
                )
            }),
            final(self).prazo() == old(self).prazo(),
    {
        self.garantir(id, agora);
        let ghost g = self@;
        if let Some(s) = self.tirar(id) {
            let mut s = s;
            s.ttl = minutos as u128 * 60_000_000_000;
            s.expira_em = agora as u128 + s.ttl;
            self.por(id.to_owned(), s);
            assert(self@ =~= g.insert(id@, s@));
        }
    }

    /// Os nomes dos dados de uma sessao ativa, cada um uma vez.
    pub fn listar_chaves(&self, id: &str, agora: u64) -> (r: Vec<String>)
        ensures
            texto::textos(r@).no_duplicates(),
            forall|k: Seq<char>| #[trigger] texto::textos(r@).contains(k) <==> obtido(
                self@,
                id@,
                k,
                agora as int,
            ) is Some,
    {
        match self.sessoes.obter(id) {
            Some(s) => if s.expira_em > agora as u128 {
                return s.dados.chaves();
            },
            None => {},
        }
        let r: Vec<String> = Vec::new();
        assert(texto::textos(r@) =~= Seq::<Seq<char>>::empty());
        r
    }

    /// Todos os dados de uma sessao ativa.
    pub fn obter_todos(&self, id: &str, agora: u64) -> (r: Option<&Tabela<V>>)
        ensures
            match r {
                Some(t) => ativa(self@, id@, agora as int) && t@ == self@[id@].dados,
                None => !ativa(self@, id@, agora as int),
            },
    {
        match self.sessoes.obter(id) {
            Some(s) => if s.expira_em > agora as u128 {
                Some(&s.dados)
            } else {
                None
            },
            None => None,
        }
    }

    /// Se ha uma sessao ativa.
    pub fn existe(&self, id: &str, agora: u64) -> (r: bool)
        ensures
            r == ativa(self@, id@, agora as int),
    {
        self.valida(id, agora)
    }

    /// Retira as sessoes expiradas.
    pub fn limpar_expiradas(&mut self, agora: u64)
        ensures
            final(self)@ == limpo(old(self)@, agora as int),
            final(self).prazo() == old(self).prazo(),
    {
        let ids = self.sessoes.chaves();
        let ghost q = self@;
        let ghost ns = texto::textos(ids@);
        let mut i: usize = 0;
        while i < ids.len()
            invariant
                i <= ids@.len(),
                ns == texto::textos(ids@),
                self.prazo() == old(self).prazo(),
                forall|k: Seq<char>| q.dom().contains(k) <==> #[trigger] ns.contains(k),
                forall|k: Seq<char>| #[trigger] self@.dom().contains(k) ==> q.dom().contains(k) && self@[k] == q[k],
                forall|k: Seq<char>|
                    #![trigger q.dom().contains(k)]
                    q.dom().contains(k) && !self@.dom().contains(k) ==> !ativa(q, k, agora as int),
                forall|j: int|
                    0 <= j < i ==> (self@.dom().contains(#[trigger] ns[j]) ==> ativa(q, ns[j], agora as int)),
                q == old(self)@,
            decreases ids@.len() - i,
        {
            assert(ns[i as int] == ids@[i as int]@);
            let ghost antes = self@;
            if !self.valida(ids[i].as_str(), agora) {
                let _ = self.tirar(ids[i].as_str());
                assert(ns.contains(ns[i as int]));
                assert(!antes.dom().contains(ns[i as int]) || !ativa(q, ns[i as int], agora as int));
            }
            i += 1;
        }
        proof {
            assert forall|k: Seq<char>| self@.dom().contains(k) implies ativa(q, k, agora as int) by {
                assert(ns.contains(k));
                let j = choose|j: int| 0 <= j < ns.len() && ns[j] == k;
                assert(ns[j] == k);
            }
            assert(self@ =~= limpo(q, agora as int));
        }
    }

    /// Quantas sessoes estao ativas.
    pub fn total_ativas(&self, agora: u64) -> (r: usize)
        ensures
            r == contagem(self@, self.ids(), agora as int),
    {
        let n = self.sessoes.tamanho();
        let ghost ns = self.ids();
        let mut total: usize = 0;
        for i in 0..n
            invariant
                n == ns.len(),
                ns == self.ids(),
                total <= i,
                total == contagem(self@, ns.take(i as int), agora as int),
        {
            let (id, s) = self.sessoes.par(i);
            assert(ns.take(i + 1).drop_last() =~= ns.take(i as int));
            assert(ns.take(i + 1).last() == id@);
            if s.expira_em > agora as u128 {
                total += 1;
            }
        }
        assert(ns.take(ns.len() as int) =~= ns);
        total
    }
}

// ---- A sessao da requisicao atual -------------------------------------------------------

/// Guarda o identificador da sessao da requisicao atual.
pub fn definir_sessao_atual(atual: &mut String, id: String)
    ensures
        final(atual)@ == id@,
{
    *atual = id;
}

/// O identificador da sessao da requisicao atual.
pub fn obter_sessao_atual(atual: &String) -> (r: String)
    ensures
        r@ == atual@,
{
    atual.clone()
}

} // verus!
