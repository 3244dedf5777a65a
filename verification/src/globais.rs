//! O estado que as requisicoes partilham: os valores da aplicacao, os modelos, a cadeia de
//! intermediarios, as conexoes de WebSocket abertas e o canal de eventos.

use vstd::prelude::*;
use crate::busca;
use crate::conversao;
use crate::json;
use crate::tabela::Tabela;
use crate::texto;
use crate::valor::Valor;
use crate::valor;
use crate::vm::VmValor;
use crate::vm;

verus! {

// ---- Os valores da aplicacao -------------------------------------------------------------

/// Um valor da aplicacao e o instante, em nanossegundos, depois do qual ele nao vale mais.
pub struct EntradaGlobal {
    pub valor: VmValor,
    pub expira: Option<u128>,
}

/// Os valores da aplicacao.
pub struct Globais {
    pub entradas: Tabela<EntradaGlobal>,
}

/// Um valor da aplicacao, visto, com o instante em que expira.
pub type GlobalVisto = (vm::Visto, Option<u128>);

impl Globais {
    pub open spec fn view(&self) -> Map<Seq<char>, GlobalVisto> {
        self.entradas@.map_values(|e: EntradaGlobal| (e.valor@, e.expira))
    }

    /// Nenhum valor.
    pub fn novos() -> (r: Self)
        ensures
            r@ == Map::<Seq<char>, GlobalVisto>::empty(),
    {
        let r = Globais { entradas: Tabela::nova() };
        assert(r@ =~= Map::<Seq<char>, GlobalVisto>::empty());
        r
    }
}

/// O valor de uma chave num instante: nenhum, se a chave nao existe ou se o instante ja passou
/// daquele em que o valor expira.
pub open spec fn vigente(g: Map<Seq<char>, GlobalVisto>, k: Seq<char>, agora: u128) -> Option<vm::Visto> {
    if !g.dom().contains(k) {
        None
    } else {
        match g[k].1 {
            Some(t) if agora > t => None,
            _ => Some(g[k].0),
        }
    }
}

/// O instante em que expira um valor que dura `ttl_seg` segundos a partir de `agora`.
pub open spec fn prazo(ttl_seg: Option<u64>, agora: u128) -> Option<u128> {
    match ttl_seg {
        Some(s) => Some((agora + s * 1000000000) as u128),
        None => None,
    }
}

/// Guarda um valor, com prazo ou sem ele. O que havia com a mesma chave se perde.
pub fn global_definir(g: &mut Globais, chave: String, valor: VmValor, ttl_seg: Option<u64>, agora: u128)
    requires
        ttl_seg is Some ==> agora + ttl_seg->Some_0 * 1000000000 <= u128::MAX,
    ensures
        final(g)@ == old(g)@.insert(chave@, (valor@, prazo(ttl_seg, agora))),
{
    let expira = match ttl_seg {
        Some(s) => Some(agora + s as u128 * 1000000000),
        None => None,
    };
    let ghost (v, k) = (valor@, chave@);
    g.entradas.inserir(chave, EntradaGlobal { valor, expira });
    assert(g@ =~= old(g)@.insert(k, (v, expira)));
}

/// O valor de uma chave, se ainda vale.
pub fn global_obter(g: &Globais, chave: &str, agora: u128) -> (r: Option<VmValor>)
    ensures
        match r {
            Some(v) => vigente(g@, chave@, agora) == Some(v@),
            None => vigente(g@, chave@, agora) is None,
        },
{
    match g.entradas.obter(chave) {
        Some(e) => match e.expira {
            Some(t) if agora > t => None,
            _ => Some(e.valor.clone()),
        },
        None => None,
    }
}

/// Apaga o valor de uma chave.
pub fn global_apagar(g: &mut Globais, chave: &str)
    ensures
        final(g)@ == old(g)@.remove(chave@),
{
    g.entradas.remover(chave);
    assert(g@ =~= old(g)@.remove(chave@));
}

/// Se ha valor para uma chave, e ele ainda vale.
pub fn global_existe(g: &Globais, chave: &str, agora: u128) -> (r: bool)
    ensures
        r == (vigente(g@, chave@, agora) is Some),
{
    global_obter(g, chave, agora).is_some()
}

/// As chaves, cada uma uma vez: tambem as dos valores que ja expiraram.
pub fn global_listar(g: &Globais) -> (r: Vec<String>)
    ensures
        texto::textos(r@).no_duplicates(),
        forall|k: Seq<char>| g@.dom().contains(k) <==> #[trigger] texto::textos(r@).contains(k),
{
    let r = g.entradas.chaves();
    assert forall|k: Seq<char>| g@.dom().contains(k) <==> #[trigger] texto::textos(r@).contains(k) by {
        assert(g@.dom().contains(k) <==> g.entradas@.dom().contains(k));
        assert(g.entradas@.dom().contains(k) <==> g.entradas.nomes().contains(k));
    }
    r
}

/// O que se le depois de guardar: na mesma chave, o valor guardado, ate o prazo dele e nunca
/// depois; em qualquer outra, o que se lia antes. Depois de apagar, nada.
pub proof fn lei_globais(g: Map<Seq<char>, GlobalVisto>, k: Seq<char>, outra: Seq<char>, v: vm::Visto, ttl: Option<u64>, quando: u128, agora: u128)
    requires
        ttl is Some ==> quando + ttl->Some_0 * 1000000000 <= u128::MAX,
    ensures
        vigente(g.insert(k, (v, prazo(ttl, quando))), k, agora) == if ttl is Some && agora > quando + ttl->Some_0
            * 1000000000 {
            None
        } else {
            Some(v)
        },
        outra != k ==> vigente(g.insert(k, (v, prazo(ttl, quando))), outra, agora) == vigente(g, outra, agora),
        vigente(g.remove(k), k, agora) is None,
        outra != k ==> vigente(g.remove(k), outra, agora) == vigente(g, outra, agora),
{
}

// ---- Os modelos --------------------------------------------------------------------------

/// O que cada modelo guarda.
pub open spec fn modelos_vistos(m: Map<Seq<char>, Valor>) -> Map<Seq<char>, valor::Dado> {
    m.map_values(|v: Valor| v@)
}

/// Guarda um modelo.
pub fn modelo_definir(modelos: &mut Tabela<Valor>, nome: String, valor: Valor)
    ensures
        final(modelos)@ == old(modelos)@.insert(nome@, valor),
{
    modelos.inserir(nome, valor);
}

/// Uma copia de um modelo, se existe.
pub fn modelo_obter(modelos: &Tabela<Valor>, nome: &str) -> (r: Option<Valor>)
    ensures
        match r {
            Some(v) => modelos@.dom().contains(nome@) && v@ == modelos_vistos(modelos@)[nome@],
            None => !modelos@.dom().contains(nome@),
        },
{
    match modelos.obter(nome) {
        Some(v) => Some(v.clone()),
        None => None,
    }
}

/// Esquece um modelo.
pub fn modelo_remover(modelos: &mut Tabela<Valor>, nome: &str)
    ensures
        final(modelos)@ == old(modelos)@.remove(nome@),
{
    modelos.remover(nome);
}

/// Os nomes dos modelos, cada um uma vez.
pub fn modelos_listar(modelos: &Tabela<Valor>) -> (r: Vec<String>)
    ensures
        texto::textos(r@).no_duplicates(),
        forall|k: Seq<char>| modelos@.dom().contains(k) <==> #[trigger] texto::textos(r@).contains(k),
{
    modelos.chaves()
}

// ---- A cadeia de intermediarios ----------------------------------------------------------

/// Acrescenta um intermediario ao fim da cadeia.
pub fn registrar_middleware(cadeia: &mut Vec<VmValor>, handler: VmValor)
    ensures
        final(cadeia)@ == old(cadeia)@.push(handler),
{
    cadeia.push(handler);
}

/// Se o intermediario que corre ja chamou `proximo`.
pub struct Proximo {
    pub chamado: bool,
}

/// Anota que o intermediario chamou `proximo`.
pub fn sinalizar_proximo(p: &mut Proximo)
    ensures
        final(p).chamado,
{
    p.chamado = true;
}

/// Esquece a chamada, antes de um intermediario correr.
pub fn limpar_proximo(p: &mut Proximo)
    ensures
        !final(p).chamado,
{
    p.chamado = false;
}

/// Se `proximo` foi chamado.
pub fn proximo_foi_chamado(p: &Proximo) -> (r: bool)
    ensures
        r == p.chamado,
{
    p.chamado
}

// ---- As conexoes de WebSocket ------------------------------------------------------------

/// Quantas conexoes cabem, se a configuracao nao diz outro numero.
pub const LIMITE_WEBSOCKETS: usize = 128;

/// Quantas conexoes cabem: o que `PEP_WS_MAX` diz, ou o limite comum.
pub open spec fn limite_websockets(config: Option<Seq<char>>) -> int {
    match config {
        Some(s) => match busca::lido_natural(s, usize::MAX as nat) {
            Some(n) => n as int,
            None => LIMITE_WEBSOCKETS as int,
        },
        None => LIMITE_WEBSOCKETS as int,
    }
}

/// Reserva uma conexao, se ainda cabe; a conta das abertas cresce de um.
pub fn reservar_websocket(ativos: &mut usize, config: Option<&str>) -> (r: bool)
    ensures
        r == (*old(ativos) < limite_websockets(match config {
            Some(s) => Some(s@),
            None => None,
        })),
        *final(ativos) == if r {
            *old(ativos) + 1
        } else {
            *old(ativos) as int
        },
{
    let maximo: usize = match config {
        Some(s) => match busca::ler_natural(s, usize::MAX as u64) {
            Some(n) => n as usize,
            None => LIMITE_WEBSOCKETS,
        },
        None => LIMITE_WEBSOCKETS,
    };
    if *ativos < maximo {
        *ativos = *ativos + 1;
        true
    } else {
        false
    }
}

/// Devolve uma conexao reservada.
pub fn liberar_websocket(ativos: &mut usize)
    requires
        *old(ativos) > 0,
    ensures
        *final(ativos) == *old(ativos) - 1,
{
    *ativos = *ativos - 1;
}

// ---- O canal de eventos ------------------------------------------------------------------

/// Se ha uma conexao que recebe eventos.
pub struct Eventos {
    pub aberto: bool,
}

/// O cabecalho com que a conexao passa a receber eventos.
pub open spec fn cabecalho_eventos() -> Seq<char> {
    "HTTP/1.1 200 OK\r\nContent-Type: text/event-stream; charset=utf-8\r\nCache-Control: no-cache\r\nConnection: keep-alive\r\nX-Accel-Buffering: no\r\n\r\n"@
}

/// O que se envia ao abrir o canal; nada, se nao ha conexao.
pub fn sse_iniciar(e: &Eventos) -> (r: Option<String>)
    ensures
        match r {
            Some(s) => e.aberto && s@ == cabecalho_eventos(),
            None => !e.aberto,
        },
{
    if e.aberto {
        Some(
            "HTTP/1.1 200 OK\r\nContent-Type: text/event-stream; charset=utf-8\r\nCache-Control: no-cache\r\nConnection: keep-alive\r\nX-Accel-Buffering: no\r\n\r\n".to_owned(),
        )
    } else {
        None
    }
}

/// O que vai num evento sem nome por um valor: um texto tal como e, outro valor em JSON.
pub open spec fn dados_do_evento(v: vm::Visto) -> Seq<char> {
    match v {
        vm::Visto::Str(s) => s,
        _ => json::json_de(conversao::dado_de(v)),
    }
}

fn dados_de(valor: &VmValor) -> (r: String)
    ensures
        r@ == dados_do_evento(valor@),
{
    match valor {
        VmValor::Str(s) => s.clone(),
        _ => {
            let v = conversao::vm_para_valor(valor);
            json::valor_para_json(&v)
        },
    }
}

/// O que se envia por um valor; nada, se nao ha conexao.
pub fn sse_enviar(e: &Eventos, valor: &VmValor) -> (r: Option<String>)
    ensures
        match r {
            Some(s) => e.aberto && s@ == "data: "@ + dados_do_evento(valor@) + "\n\n"@,
            None => !e.aberto,
        },
{
    if !e.aberto {
        return None;
    }
    let mut s = "data: ".to_owned();
    s.append(dados_de(valor).as_str());
    s.append("\n\n");
    Some(s)
}

/// O que se envia por um evento com nome: o nome e o que o valor mostra. Nada, se nao ha conexao.
pub fn sse_enviar_evento(e: &Eventos, evento: &str, valor: &VmValor) -> (r: Option<String>)
    ensures
        match r {
            Some(s) => e.aberto && s@ == "event: "@ + evento@ + "\ndata: "@ + vm::texto_de(valor@) + "\n\n"@,
            None => !e.aberto,
        },
{
    if !e.aberto {
        return None;
    }
    let mut s = "event: ".to_owned();
    s.append(evento);
    s.append("\ndata: ");
    s.append(valor.texto().as_str());
    s.append("\n\n");
    Some(s)
}

/// Fecha o canal: nada mais se envia.
pub fn sse_fechar(e: &mut Eventos)
    ensures
        !final(e).aberto,
{
    e.aberto = false;
}

} // verus!
