//! As funcoes nativas da sessao: o que cada uma le e escreve na sessao da requisicao atual.
//!
//! Os identificadores e as marcas novas, que sao ao acaso, sao dados por quem chama.

use vstd::prelude::*;
use crate::decimal;
use crate::nativas_arvore;
use crate::nativas_arvore::{querer, Chamado};
use crate::aplicar::Feito;
use crate::sessoes;
use crate::sessoes::Repositorio;
use crate::valor::Valor;
use crate::valor;

verus! {

/// O nome do dado em que fica a marca contra pedidos forjados.
pub open spec fn nome_da_marca() -> Seq<char> {
    "__csrf__"@
}

/// A sessao em que se escreve: a atual, ou uma nova se nao ha.
pub open spec fn identificador(atual: Seq<char>, novo: Seq<char>) -> Seq<char> {
    if atual.len() == 0 {
        novo
    } else {
        atual
    }
}

/// Um prazo que se pode somar a um instante.
pub open spec fn prazo_curto(p: int) -> bool {
    p <= sessoes::minutos_em_nanos(u64::MAX as int)
}

/// O valor que se le de um dado que pode faltar.
pub open spec fn lido(v: Option<Valor>) -> valor::Dado {
    match v {
        Some(x) => x@,
        None => valor::Dado::Nulo,
    }
}

fn vazio(s: &str) -> (r: bool)
    ensures
        r == (s@.len() == 0),
{
    proof {
        reveal_strlit("");
        assert(s@.len() == 0 ==> s@ =~= ""@);
    }
    s.eq("")
}

fn escolher(atual: &str, novo: &str) -> (r: String)
    ensures
        r@ == identificador(atual@, novo@),
{
    if vazio(atual) {
        novo.to_owned()
    } else {
        atual.to_owned()
    }
}

/// Garante que a sessao existe, e diz qual e.
pub fn sessao_iniciar(repo: &mut Repositorio<Valor>, atual: &str, novo: &str, agora: u64) -> (r: String)
    requires
        prazo_curto(old(repo).prazo()),
    ensures
        r@ == identificador(atual@, novo@),
        final(repo)@ == sessoes::garantido(old(repo)@, r@, agora as int, old(repo).prazo()),
        final(repo).prazo() == old(repo).prazo(),
{
    let id = escolher(atual, novo);
    repo.garantir(id.as_str(), agora);
    id
}

/// Um dado da sessao.
pub fn sessao_obter(repo: &Repositorio<Valor>, atual: &str, chave: &str, agora: u64) -> (r: Valor)
    ensures
        r@ == (if atual@.len() == 0 {
            valor::Dado::Nulo
        } else {
            lido(sessoes::obtido(repo@, atual@, chave@, agora as int))
        }),
{
    if vazio(atual) {
        return Valor::Nulo;
    }
    match repo.obter(atual, chave, agora) {
        Some(v) => v.clone(),
        None => Valor::Nulo,
    }
}

/// Guarda um dado na sessao.
pub fn sessao_definir(repo: &mut Repositorio<Valor>, atual: &str, novo: &str, chave: String, v: Valor, agora: u64)
    requires
        prazo_curto(old(repo).prazo()),
    ensures
        final(repo)@ == sessoes::definido(
            old(repo)@,
            identificador(atual@, novo@),
            chave@,
            v,
            agora as int,
            old(repo).prazo(),
        ),
        final(repo).prazo() == old(repo).prazo(),
{
    let id = escolher(atual, novo);
    repo.definir(id.as_str(), chave, v, agora);
}

/// As sessoes sem um dado numa delas.
pub open spec fn sem_dado(q: sessoes::Quadro<Valor>, id: Seq<char>, chave: Seq<char>) -> sessoes::Quadro<Valor> {
    if q.dom().contains(id) {
        q.insert(id, sessoes::SessaoVista { dados: q[id].dados.remove(chave), ..q[id] })
    } else {
        q
    }
}

/// Retira um dado da sessao, e da-o.
pub fn sessao_remover(repo: &mut Repositorio<Valor>, atual: &str, chave: &str) -> (r: Valor)
    ensures
        r@ == (if atual@.len() > 0 && old(repo)@.dom().contains(atual@) && old(repo)@[atual@].dados.dom().contains(
            chave@,
        ) {
            old(repo)@[atual@].dados[chave@]@
        } else {
            valor::Dado::Nulo
        }),
        final(repo)@ == (if atual@.len() == 0 {
            old(repo)@
        } else {
            sem_dado(old(repo)@, atual@, chave@)
        }),
        final(repo).prazo() == old(repo).prazo(),
{
    if vazio(atual) {
        return Valor::Nulo;
    }
    match repo.remover(atual, chave) {
        Some(v) => v,
        None => Valor::Nulo,
    }
}

/// Acaba com a sessao.
pub fn sessao_destruir(repo: &mut Repositorio<Valor>, atual: &str)
    ensures
        final(repo)@ == (if atual@.len() == 0 {
            old(repo)@
        } else {
            old(repo)@.remove(atual@)
        }),
        final(repo).prazo() == old(repo).prazo(),
{
    if !vazio(atual) {
        repo.destruir(atual);
    }
}

/// Os minutos que um argumento pede; nenhuns se ele nao e um numero positivo.
pub open spec fn minutos_de(a: Seq<valor::Dado>) -> Option<int> {
    if a.len() != 1 {
        None
    } else {
        match a[0] {
            valor::Dado::Inteiro(n) => if n > 0 {
                Some(n as int)
            } else {
                None
            },
            valor::Dado::Numero(b, _) => if decimal::menor(0, b) {
                Some(decimal::entre(decimal::truncado(b), 0, u64::MAX as int))
            } else {
                None
            },
            _ => None,
        }
    }
}

fn ler_minutos(v: &Valor) -> (r: Option<u64>)
    ensures
        match r {
            Some(n) => minutos_de(seq![v@]) == Some(n as int),
            None => minutos_de(seq![v@]) is None,
        },
{
    match v {
        Valor::Inteiro(n) => if *n > 0 {
            Some(*n as u64)
        } else {
            None
        },
        Valor::Numero(d) => if decimal::eh_menor(0, d.bits) {
            Some(decimal::para_natural(d.bits, u64::MAX))
        } else {
            None
        },
        _ => None,
    }
}

/// As sessoes com o prazo de uma delas recomecado, ou trocado.
pub open spec fn renovado(
    q: sessoes::Quadro<Valor>,
    id: Seq<char>,
    minutos: Option<int>,
    agora: int,
    prazo: int,
) -> sessoes::Quadro<Valor> {
    match minutos {
        Some(m) => {
            let g = sessoes::garantido(q, id, agora, prazo);
            let ttl = sessoes::minutos_em_nanos(m);
            g.insert(id, sessoes::SessaoVista { dados: g[id].dados, expira_em: agora + ttl, ttl })
        },
        None => if q.dom().contains(id) {
            q.insert(id, sessoes::SessaoVista { expira_em: agora + q[id].ttl, ..q[id] })
        } else {
            q
        },
    }
}

/// Recomeca o prazo da sessao, ou da-lhe outro.
pub fn sessao_renovar(repo: &mut Repositorio<Valor>, atual: &str, args: &Vec<Valor>, agora: u64) -> (r: Chamado)
    requires
        prazo_curto(old(repo).prazo()),
        old(repo)@.dom().contains(atual@) ==> prazo_curto(old(repo)@[atual@].ttl),
    ensures
        atual@.len() > 0 && args@.len() > 1 ==> r@ == nativas_arvore::quer("sessao_renovar"@, 1, args@.len())
            && final(repo)@ == old(repo)@,
        !(atual@.len() > 0 && args@.len() > 1) ==> r@ == nativas_arvore::da(valor::Dado::Nulo),
        atual@.len() == 0 ==> final(repo)@ == old(repo)@,
        atual@.len() > 0 && args@.len() <= 1 ==> final(repo)@ == renovado(
            old(repo)@,
            atual@,
            minutos_de(valor::vistos(args@)),
            agora as int,
            old(repo).prazo(),
        ),
        final(repo).prazo() == old(repo).prazo(),
{
    if vazio(atual) {
        return Chamado::Feito(Feito::Valor(Valor::Nulo));
    }
    if args.len() > 1 {
        return querer("sessao_renovar", 1, args.len());
    }
    let minutos = if args.len() == 1 {
        assert(valor::vistos(args@) =~= seq![args@[0]@]);
        ler_minutos(&args[0])
    } else {
        assert(valor::vistos(args@).len() == 0);
        None
    };
    match minutos {
        Some(m) => repo.definir_ttl(atual, m, agora),
        None => repo.renovar(atual, agora),
    }
    Chamado::Feito(Feito::Valor(Valor::Nulo))
}

/// Passa os dados da sessao para um identificador novo, que fica o atual.
pub fn sessao_regenerar(repo: &mut Repositorio<Valor>, atual: &mut String, novo: String, agora: u64)
    requires
        prazo_curto(old(repo).prazo()),
    ensures
        final(atual)@ == novo@,
        final(repo)@ == sessoes::migrado(old(repo)@, old(atual)@, novo@, agora as int, old(repo).prazo()),
        final(repo).prazo() == old(repo).prazo(),
{
    repo.migrar(atual.as_str(), novo.as_str(), agora);
    sessoes::definir_sessao_atual(atual, novo);
}

/// Faz uma marca nova e guarda-a na sessao.
pub fn csrf_token(repo: &mut Repositorio<Valor>, atual: &str, novo: &str, marca: String, agora: u64) -> (r: String)
    requires
        prazo_curto(old(repo).prazo()),
    ensures
        r@ == marca@,
        exists|v: Valor| #[trigger]
            v@ == valor::Dado::Texto(marca@) && final(repo)@ == sessoes::definido(
                old(repo)@,
                identificador(atual@, novo@),
                nome_da_marca(),
                v,
                agora as int,
                old(repo).prazo(),
            ),
        final(repo).prazo() == old(repo).prazo(),
{
    let r = marca.clone();
    let v = Valor::Texto(marca);
    let ghost g = v;
    sessao_definir(repo, atual, novo, "__csrf__".to_owned(), v, agora);
    assert(g@ == valor::Dado::Texto(marca@));
    r
}

/// Se a marca guardada numa sessao e a que se mostra.
pub open spec fn marca_certa(q: sessoes::Quadro<Valor>, atual: Seq<char>, v: valor::Dado, agora: int) -> bool {
    &&& v is Texto
    &&& atual.len() > 0
    &&& sessoes::obtido(q, atual, nome_da_marca(), agora) matches Some(m) && m@ == v
}

/// Confere uma marca. A marca certa so serve uma vez.
pub fn csrf_verificar(repo: &mut Repositorio<Valor>, atual: &str, v: &Valor, agora: u64) -> (r: bool)
    ensures
        r == marca_certa(old(repo)@, atual@, v@, agora as int),
        final(repo)@ == (if r {
            sem_dado(old(repo)@, atual@, nome_da_marca())
        } else {
            old(repo)@
        }),
        final(repo).prazo() == old(repo).prazo(),
{
    let t = match v {
        Valor::Texto(t) => t,
        _ => return false,
    };
    if vazio(atual) {
        return false;
    }
    let certa = match repo.obter(atual, "__csrf__", agora) {
        Some(Valor::Texto(m)) => m.as_str().eq(t.as_str()),
        _ => false,
    };
    if certa {
        let _ = repo.remover(atual, "__csrf__");
    }
    certa
}

/// A marca que se faz numa sessao e a que se confere nela, enquanto a sessao nao expira; e depois
/// de conferida nenhuma serve.
pub proof fn lei_marca(
    q: sessoes::Quadro<Valor>,
    atual: Seq<char>,
    v: Valor,
    outro: valor::Dado,
    agora: int,
    prazo: int,
    depois: int,
    fim: int,
)
    requires
        atual.len() > 0,
        v@ is Texto,
        agora <= depois <= fim,
        depois < sessoes::garantido(q, atual, agora, prazo)[atual].expira_em,
    ensures
        ({
            let d = sessoes::definido(q, atual, nome_da_marca(), v, agora, prazo);
            &&& marca_certa(d, atual, v@, depois)
            &&& outro != v@ ==> !marca_certa(d, atual, outro, depois)
            &&& !marca_certa(sem_dado(d, atual, nome_da_marca()), atual, outro, fim)
        }),
{
    sessoes::lei_ler_o_escrito(q, atual, nome_da_marca(), v, agora, prazo, depois);
}

} // verus!
