//! WebSocket: o aperto de maos, os quadros e as conexoes abertas.

use vstd::prelude::*;
use vstd::utf8;
use crate::busca;
use crate::cripto;
use crate::texto;

verus! {

/// Uma mensagem recebida.
pub enum WsMensagem {
    Texto(String),
    Binario(Vec<u8>),
    Fechado,
}

// ---- Numeros ----------------------------------------------------------------------------

/// Os `k` bytes de um numero, o mais significativo primeiro.
pub open spec fn bytes_de(n: int, k: nat) -> Seq<u8>
    decreases k,
{
    if k == 0 {
        Seq::empty()
    } else {
        bytes_de(n / 256, (k - 1) as nat).push((n % 256) as u8)
    }
}

/// O numero que os bytes representam.
pub open spec fn numero_de(b: Seq<u8>) -> int
    decreases b.len(),
{
    if b.len() == 0 {
        0
    } else {
        numero_de(b.drop_last()) * 256 + b.last()
    }
}

/// A maior quantidade que cabe em `k` bytes, mais um.
pub open spec fn limite_de(k: nat) -> int
    decreases k,
{
    if k == 0 {
        1
    } else {
        limite_de((k - 1) as nat) * 256
    }
}

/// Um numero volta dos seus bytes, se couber neles.
pub proof fn lei_numero(n: int, k: nat)
    requires
        0 <= n < limite_de(k),
    ensures
        bytes_de(n, k).len() == k,
        numero_de(bytes_de(n, k)) == n,
    decreases k,
{
    if k > 0 {
        lei_numero(n / 256, (k - 1) as nat);
        let b = bytes_de(n, k);
        assert(b.drop_last() =~= bytes_de(n / 256, (k - 1) as nat));
        assert(b.last() == (n % 256) as u8);
    }
}

proof fn lema_bytes(n: int, k: nat)
    ensures
        bytes_de(n, k).len() == k,
    decreases k,
{
    if k > 0 {
        lema_bytes(n / 256, (k - 1) as nat);
    }
}

fn acrescentar_numero(v: &mut Vec<u8>, n: u64, k: u8)
    ensures
        final(v)@ == old(v)@ + bytes_de(n as int, k as nat),
    decreases k,
{
    let ghost antes = v@;
    if k > 0 {
        acrescentar_numero(v, n / 256, k - 1);
        v.push((n % 256) as u8);
        assert(v@ =~= antes + bytes_de(n as int, k as nat));
    } else {
        assert(v@ =~= antes + bytes_de(n as int, k as nat));
    }
}

proof fn lema_numero(b: Seq<u8>)
    ensures
        0 <= numero_de(b) < limite_de(b.len()),
    decreases b.len(),
{
    if b.len() > 0 {
        lema_numero(b.drop_last());
    }
}

fn ler_numero(b: &[u8]) -> (r: u64)
    requires
        b@.len() <= 8,
    ensures
        r == numero_de(b@),
{
    let mut n: u64 = 0;
    for i in 0..b.len()
        invariant
            b@.len() <= 8,
            n == numero_de(b@.take(i as int)),
    {
        proof {
            lema_numero(b@.take(i as int));
            reveal_with_fuel(limite_de, 9);
            assert(b@.take(i as int).len() == i);
            assert(limite_de(i as nat) <= limite_de(7)) by {
                reveal_with_fuel(limite_de, 9);
            }
            assert(b@.take(i + 1).drop_last() =~= b@.take(i as int));
        }
        n = n * 256 + b[i] as u64;
    }
    assert(b@.take(b@.len() as int) =~= b@);
    n
}

// ---- Quadros ----------------------------------------------------------------------------

/// O comprimento de um quadro: um byte, ou 126 e dois bytes, ou 127 e oito.
pub open spec fn comprimento(n: nat) -> Seq<u8> {
    if n < 126 {
        seq![n as u8]
    } else if n < 65536 {
        seq![126u8] + bytes_de(n as int, 2)
    } else {
        seq![127u8] + bytes_de(n as int, 8)
    }
}

/// O quadro final de um tipo, sem mascara.
pub open spec fn quadro(opcode: u8, d: Seq<u8>) -> Seq<u8> {
    seq![(128 + opcode) as u8] + comprimento(d.len()) + d
}

/// Escreve um quadro.
pub fn escrever_frame(opcode: u8, dados: &[u8]) -> (r: Vec<u8>)
    requires
        opcode < 16,
    ensures
        r@ == quadro(opcode, dados@),
{
    let n: usize = dados.len();
    let mut r: Vec<u8> = Vec::new();
    r.push(128 + opcode);
    assert(r@ =~= seq![(128 + opcode) as u8]);
    if n < 126 {
        r.push(n as u8);
    } else if n < 65536 {
        r.push(126);
        acrescentar_numero(&mut r, n as u64, 2);
    } else {
        r.push(127);
        acrescentar_numero(&mut r, n as u64, 8);
    }
    assert(r@ =~= seq![(128 + opcode) as u8] + comprimento(dados@.len()));
    busca::acrescentar_bytes(&mut r, dados);
    r
}

/// Os dados com a mascara aplicada: cada byte combinado com um dos quatro da chave.
pub open spec fn mascarado(d: Seq<u8>, chave: Seq<u8>) -> Seq<u8> {
    Seq::new(d.len(), |i: int| d[i] ^ chave[i % 4])
}

/// Aplicar a mesma mascara duas vezes devolve os dados.
pub proof fn lei_mascara(d: Seq<u8>, chave: Seq<u8>)
    ensures
        mascarado(mascarado(d, chave), chave) == d,
{
    let x = mascarado(mascarado(d, chave), chave);
    assert forall|i: int| 0 <= i < d.len() implies x[i] == d[i] by {
        let a = d[i];
        let b = chave[i % 4];
        assert((a ^ b) ^ b == a) by (bit_vector);
    }
    assert(x =~= d);
}

/// Onde comecam a mascara ou os dados de um quadro e quantos dados ele tem, se os bytes do
/// comprimento chegam.
pub open spec fn tamanho_em(b: Seq<u8>, i: int) -> Option<(int, int)> {
    if i < 0 || i + 2 > b.len() {
        None
    } else {
        let n = b[i + 1] % 128;
        if n == 126 {
            if i + 4 > b.len() {
                None
            } else {
                Some((i + 4, numero_de(b.subrange(i + 2, i + 4))))
            }
        } else if n == 127 {
            if i + 10 > b.len() {
                None
            } else {
                Some((i + 10, numero_de(b.subrange(i + 2, i + 10))))
            }
        } else {
            Some((i + 2, n as int))
        }
    }
}

/// O quadro que comeca na posicao `i`: o tipo, os dados sem mascara e onde ele acaba.
pub open spec fn quadro_em(b: Seq<u8>, i: int) -> Option<(u8, Seq<u8>, int)> {
    match tamanho_em(b, i) {
        None => None,
        Some((p, n)) => if b[i + 1] >= 128 {
            if p + 4 + n > b.len() {
                None
            } else {
                Some(
                    (
                        b[i] % 16,
                        mascarado(b.subrange(p + 4, p + 4 + n), b.subrange(p, p + 4)),
                        p + 4 + n,
                    ),
                )
            }
        } else if p + n > b.len() {
            None
        } else {
            Some((b[i] % 16, b.subrange(p, p + n), p + n))
        },
    }
}

fn tamanho(b: &[u8], i: usize) -> (r: Option<(usize, u64)>)
    ensures
        match r {
            Some((p, n)) => tamanho_em(b@, i as int) == Some((p as int, n as int)) && i + 2 <= p <= b@.len(),
            None => tamanho_em(b@, i as int) is None,
        },
{
    if i > b.len() || b.len() - i < 2 {
        return None;
    }
    let n: u8 = b[i + 1] % 128;
    if n == 126 {
        if b.len() - i < 4 {
            return None;
        }
        Some((i + 4, ler_numero(vstd::slice::slice_subrange(b, i + 2, i + 4))))
    } else if n == 127 {
        if b.len() - i < 10 {
            return None;
        }
        Some((i + 10, ler_numero(vstd::slice::slice_subrange(b, i + 2, i + 10))))
    } else {
        Some((i + 2, n as u64))
    }
}

/// Le o quadro que comeca em `i`. Sem bytes bastantes, nao ha quadro.
pub fn ler_frame(b: &[u8], i: usize) -> (r: Option<(u8, Vec<u8>, usize)>)
    ensures
        match r {
            Some((op, d, fim)) => quadro_em(b@, i as int) == Some((op, d@, fim as int)),
            None => quadro_em(b@, i as int) is None,
        },
{
    let (p, n) = match tamanho(b, i) {
        Some(x) => x,
        None => return None,
    };
    let op: u8 = b[i] % 16;
    let resto: usize = b.len() - p;
    if b[i + 1] >= 128 {
        if resto < 4 || n > (resto - 4) as u64 {
            return None;
        }
        let q: usize = p + 4;
        let m: usize = n as usize;
        let chave = vstd::slice::slice_subrange(b, p, q);
        let bruto = vstd::slice::slice_subrange(b, q, q + m);
        let mut d: Vec<u8> = Vec::new();
        for k in 0..m
            invariant
                bruto@.len() == m,
                chave@.len() == 4,
                d@.len() == k,
                forall|j: int| 0 <= j < k ==> d@[j] == bruto@[j] ^ chave@[j % 4],
        {
            d.push(bruto[k] ^ chave[k % 4]);
        }
        assert(d@ =~= mascarado(bruto@, chave@));
        Some((op, d, q + m))
    } else {
        if n > resto as u64 {
            return None;
        }
        let m: usize = n as usize;
        let d = busca::copia(vstd::slice::slice_subrange(b, p, p + m));
        Some((op, d, p + m))
    }
}

/// O que se escreve num quadro e o que dele se le.
pub proof fn lei_quadro(opcode: u8, d: Seq<u8>, resto: Seq<u8>)
    requires
        opcode < 16,
        d.len() < 0x1_0000_0000_0000_0000,
    ensures
        quadro_em(quadro(opcode, d) + resto, 0) == Some((opcode, d, quadro(opcode, d).len() as int)),
{
    let q = quadro(opcode, d);
    let b = q + resto;
    let n = d.len() as int;
    let c = comprimento(d.len());
    assert(b[0] == 128 + opcode);
    assert(b[1] == c[0]);
    if n < 126 {
        assert(b.subrange(2, 2 + n) =~= d);
    } else if n < 65536 {
        reveal_with_fuel(limite_de, 3);
        lei_numero(n, 2);
        assert(b.subrange(2, 4) =~= bytes_de(n, 2));
        assert(b.subrange(4, 4 + n) =~= d);
    } else {
        reveal_with_fuel(limite_de, 9);
        lei_numero(n, 8);
        assert(b.subrange(2, 10) =~= bytes_de(n, 8));
        assert(b.subrange(10, 10 + n) =~= d);
    }
}

/// O que fazer com um quadro recebido.
pub enum Reacao {
    /// Entregar a mensagem.
    Entregar(WsMensagem),
    /// Enviar estes bytes e ler o proximo quadro.
    Responder(Vec<u8>),
    /// Enviar estes bytes e entregar o fecho.
    Fechar(Vec<u8>),
    /// Ler o proximo quadro.
    Ignorar,
}

/// O que um quadro pede: texto e dados se entregam, o fecho e o ping se respondem e os
/// outros nao contam.
pub fn reagir(opcode: u8, dados: Vec<u8>) -> (r: Reacao)
    ensures
        match r {
            Reacao::Entregar(WsMensagem::Texto(s)) => opcode == 1 && s@ == busca::texto_de(dados@),
            Reacao::Entregar(WsMensagem::Binario(d)) => opcode == 2 && d@ == dados@,
            Reacao::Entregar(WsMensagem::Fechado) => false,
            Reacao::Fechar(b) => opcode == 8 && b@ == quadro(8, Seq::empty()),
            Reacao::Responder(b) => opcode == 9 && b@ == quadro(10, dados@),
            Reacao::Ignorar => opcode != 1 && opcode != 2 && opcode != 8 && opcode != 9,
        },
{
    if opcode == 1 {
        Reacao::Entregar(WsMensagem::Texto(busca::de_bytes(&dados)))
    } else if opcode == 2 {
        Reacao::Entregar(WsMensagem::Binario(dados))
    } else if opcode == 8 {
        let vazio: Vec<u8> = Vec::new();
        assert(vazio@ =~= Seq::<u8>::empty());
        Reacao::Fechar(escrever_frame(8, &vazio))
    } else if opcode == 9 {
        Reacao::Responder(escrever_frame(10, &dados))
    } else {
        Reacao::Ignorar
    }
}

// ---- O aperto de maos -------------------------------------------------------------------

/// O identificador que o protocolo junta a chave do cliente.
pub open spec fn guid() -> Seq<char> {
    "258EAFA5-E914-47DA-95CA-C5AB0DC85B11"@
}

/// A resposta a chave do cliente.
pub open spec fn aceite(chave: Seq<char>) -> Seq<char> {
    cripto::base64_de(
        cripto::resumo_sha1(utf8::encode_utf8(texto::aparado(chave)) + utf8::encode_utf8(guid())),
    )
}

/// A resposta que troca de protocolo.
pub open spec fn troca_de_protocolo(aceite: Seq<char>) -> Seq<char> {
    "HTTP/1.1 101 Switching Protocols\r\nUpgrade: websocket\r\nConnection: Upgrade\r\nSec-WebSocket-Accept: "@
        + aceite + "\r\n\r\n"@
}

/// A chave que o servidor devolve.
pub fn chave_aceita(chave: &str) -> (r: String)
    ensures
        r@ == aceite(chave@),
{
    let aparada = busca::aparar_texto(chave);
    let mut b: Vec<u8> = Vec::new();
    busca::acrescentar_texto(&mut b, aparada.as_str());
    busca::acrescentar_texto(&mut b, "258EAFA5-E914-47DA-95CA-C5AB0DC85B11");
    assert(b@ =~= utf8::encode_utf8(texto::aparado(chave@)) + utf8::encode_utf8(guid()));
    let resumo = cripto::sha1(&b);
    cripto::base64_codificar(&resumo)
}

/// A resposta que troca de protocolo, com a chave ja aceita.
pub fn resposta_troca(aceite: &str) -> (r: String)
    ensures
        r@ == troca_de_protocolo(aceite@),
{
    let mut r =
        "HTTP/1.1 101 Switching Protocols\r\nUpgrade: websocket\r\nConnection: Upgrade\r\nSec-WebSocket-Accept: ".to_owned();
    r.append(aceite);
    r.append("\r\n\r\n");
    r
}

// ---- As conexoes ------------------------------------------------------------------------

/// As conexoes abertas de todo o servidor e o que se passa na atual.
pub struct EstadoWs {
    /// A chave da conexao HTTP a espera da troca de protocolo.
    pub pendente: Option<String>,
    /// A conexao atual.
    pub atual: Option<u64>,
    /// As conexoes abertas.
    pub abertas: Vec<u64>,
    /// O numero da proxima conexao.
    pub proxima: u64,
}

/// A lista sem as ocorrencias de um numero.
pub open spec fn sem(v: Seq<u64>, id: u64) -> Seq<u64>
    decreases v.len(),
{
    if v.len() == 0 {
        Seq::empty()
    } else if v.last() == id {
        sem(v.drop_last(), id)
    } else {
        sem(v.drop_last(), id).push(v.last())
    }
}

/// Retirar um numero deixa os outros e so eles.
pub proof fn lei_sem(v: Seq<u64>, id: u64)
    ensures
        forall|x: u64| #[trigger] sem(v, id).contains(x) <==> v.contains(x) && x != id,
    decreases v.len(),
{
    if v.len() > 0 {
        let a = v.drop_last();
        lei_sem(a, id);
        assert forall|x: u64| #[trigger] sem(v, id).contains(x) <==> v.contains(x) && x != id by {
            if v.contains(x) {
                let i = choose|i: int| 0 <= i < v.len() && v[i] == x;
                if i < a.len() {
                    assert(a[i] == x);
                    assert(a.contains(x));
                }
            }
            if a.contains(x) {
                let i = choose|i: int| 0 <= i < a.len() && a[i] == x;
                assert(v[i] == x);
            }
            assert(v.contains(v.last())) by {
                assert(v[v.len() - 1] == v.last());
            }
            let s = sem(a, id);
            if v.last() != id {
                assert(s.push(v.last()).contains(x) <==> s.contains(x) || x == v.last()) by {
                    if s.contains(x) {
                        let i = choose|i: int| 0 <= i < s.len() && s[i] == x;
                        assert(s.push(v.last())[i] == x);
                    }
                    if x == v.last() {
                        assert(s.push(v.last())[s.len() as int] == x);
                    }
                    if s.push(v.last()).contains(x) {
                        let i = choose|i: int| 0 <= i < s.len() + 1 && s.push(v.last())[i] == x;
                        if i < s.len() {
                            assert(s[i] == x);
                        }
                    }
                }
            }
        }
    }
}

fn retirar(v: &Vec<u64>, id: u64) -> (r: Vec<u64>)
    ensures
        r@ == sem(v@, id),
{
    let mut r: Vec<u64> = Vec::new();
    for i in 0..v.len()
        invariant
            r@ == sem(v@.take(i as int), id),
    {
        assert(v@.take(i + 1).drop_last() =~= v@.take(i as int));
        if v[i] != id {
            r.push(v[i]);
        }
    }
    assert(v@.take(v@.len() as int) =~= v@);
    r
}

/// Nenhuma conexao.
pub fn estado_inicial() -> (r: EstadoWs)
    ensures
        r.pendente is None,
        r.atual is None,
        r.abertas@.len() == 0,
        r.proxima == 1,
{
    EstadoWs { pendente: None, atual: None, abertas: Vec::new(), proxima: 1 }
}

/// Guarda a chave de uma conexao HTTP que pode trocar de protocolo.
pub fn definir_stream_http(e: &mut EstadoWs, ws_key: String)
    ensures
        final(e).pendente == Some(ws_key),
        final(e).atual == old(e).atual,
        final(e).abertas@ == old(e).abertas@,
        final(e).proxima == old(e).proxima,
{
    e.pendente = Some(ws_key);
}

/// Esquece a conexao atual, que deixa de estar aberta.
pub fn limpar_thread(e: &mut EstadoWs)
    ensures
        final(e).pendente is None,
        final(e).atual is None,
        final(e).abertas@ == (match old(e).atual {
            Some(id) => sem(old(e).abertas@, id),
            None => old(e).abertas@,
        }),
        final(e).proxima == old(e).proxima,
{
    e.pendente = None;
    if let Some(id) = e.atual {
        e.abertas = retirar(&e.abertas, id);
    }
    e.atual = None;
}

/// A resposta que troca de protocolo a conexao a espera, que deixa de esperar.
pub fn ws_aceitar(e: &mut EstadoWs) -> (r: Result<String, String>)
    ensures
        match old(e).pendente {
            Some(k) => r matches Ok(s) && s@ == troca_de_protocolo(aceite(k@)),
            None => r matches Err(m) && m@
                == "ws_aceitar: nao ha conexao HTTP pendente para upgrade (chamou ws_aceitar() fora de uma rota WebSocket?)"@,
        },
        final(e).pendente is None,
        final(e).atual == old(e).atual,
        final(e).abertas@ == old(e).abertas@,
        final(e).proxima == old(e).proxima,
{
    let mut pendente: Option<String> = None;
    std::mem::swap(&mut e.pendente, &mut pendente);
    match pendente {
        Some(k) => {
            let a = chave_aceita(k.as_str());
            Ok(resposta_troca(a.as_str()))
        },
        None => Err(
            "ws_aceitar: nao ha conexao HTTP pendente para upgrade (chamou ws_aceitar() fora de uma rota WebSocket?)".to_owned(),
        ),
    }
}

/// Depois de enviada a resposta, abre a conexao e da-lhe um numero.
pub fn ws_abrir(e: &mut EstadoWs) -> (id: u64)
    ensures
        id == old(e).proxima,
        final(e).atual == Some(id),
        final(e).abertas@ == sem(old(e).abertas@, id).push(id),
        final(e).proxima == (if id == u64::MAX {
            0
        } else {
            id + 1
        }),
        final(e).pendente == old(e).pendente,
{
    let id = e.proxima;
    e.proxima = if id == u64::MAX {
        0
    } else {
        id + 1
    };
    let mut abertas = retirar(&e.abertas, id);
    abertas.push(id);
    e.abertas = abertas;
    e.atual = Some(id);
    id
}

/// A mensagem a entregar: nenhuma sem conexao ou depois do fecho.
pub fn ws_receber(e: &EstadoWs, lida: WsMensagem) -> (r: Result<Option<WsMensagem>, String>)
    ensures
        r == Ok::<_, String>(
            if e.atual is None || lida is Fechado {
                None
            } else {
                Some(lida)
            },
        ),
{
    match (e.atual, lida) {
        (None, _) => Ok(None),
        (Some(_), WsMensagem::Fechado) => Ok(None),
        (Some(_), m) => Ok(Some(m)),
    }
}

/// O quadro que leva um texto pela conexao atual.
pub fn ws_enviar(e: &EstadoWs, msg: &str) -> (r: Result<Vec<u8>, String>)
    ensures
        match r {
            Ok(b) => e.atual is Some && b@ == quadro(1, utf8::encode_utf8(msg@)),
            Err(m) => e.atual is None && m@ == "ws_enviar: nenhuma conexao WebSocket ativa"@,
        },
{
    match e.atual {
        None => Err("ws_enviar: nenhuma conexao WebSocket ativa".to_owned()),
        Some(_) => Ok(escrever_frame(1, msg.as_bytes())),
    }
}

/// O quadro que leva dados pela conexao atual.
pub fn ws_enviar_bytes(e: &EstadoWs, dados: &[u8]) -> (r: Result<Vec<u8>, String>)
    ensures
        match r {
            Ok(b) => e.atual is Some && b@ == quadro(2, dados@),
            Err(m) => e.atual is None && m@ == "ws_enviar_bytes: nenhuma conexao WebSocket ativa"@,
        },
{
    match e.atual {
        None => Err("ws_enviar_bytes: nenhuma conexao WebSocket ativa".to_owned()),
        Some(_) => Ok(escrever_frame(2, dados)),
    }
}

/// Fecha a conexao atual: o quadro de fecho a enviar, se ha conexao.
pub fn ws_fechar(e: &mut EstadoWs) -> (r: Option<Vec<u8>>)
    ensures
        match old(e).atual {
            Some(id) => r matches Some(b) && b@ == quadro(8, Seq::empty()) && final(e).abertas@ == sem(
                old(e).abertas@,
                id,
            ),
            None => r is None && final(e).abertas@ == old(e).abertas@,
        },
        final(e).atual is None,
        final(e).pendente == old(e).pendente,
        final(e).proxima == old(e).proxima,
{
    match e.atual {
        Some(id) => {
            let vazio: Vec<u8> = Vec::new();
            assert(vazio@ =~= Seq::<u8>::empty());
            e.abertas = retirar(&e.abertas, id);
            e.atual = None;
            Some(escrever_frame(8, &vazio))
        },
        None => None,
    }
}

/// O numero da conexao atual.
pub fn ws_id(e: &EstadoWs) -> (r: Option<u64>)
    ensures
        r == e.atual,
{
    e.atual
}

/// Os numeros das conexoes abertas.
pub fn ws_conexoes(e: &EstadoWs) -> (r: Vec<u64>)
    ensures
        r@ == e.abertas@,
{
    let mut r: Vec<u64> = Vec::new();
    for i in 0..e.abertas.len()
        invariant
            r@ == e.abertas@.take(i as int),
    {
        r.push(e.abertas[i]);
        assert(e.abertas@.take(i + 1) =~= e.abertas@.take(i as int).push(e.abertas@[i as int]));
    }
    assert(e.abertas@.take(e.abertas@.len() as int) =~= e.abertas@);
    r
}

/// O quadro que leva um texto a uma conexao aberta qualquer.
pub fn ws_enviar_para(e: &EstadoWs, id: u64, msg: &str) -> (r: Result<Vec<u8>, String>)
    ensures
        match r {
            Ok(b) => e.abertas@.contains(id) && b@ == quadro(1, utf8::encode_utf8(msg@)),
            Err(m) => !e.abertas@.contains(id) && m@ == "ws_enviar_para: conexao "@ + texto::decimal(id as nat)
                + " nao encontrada (pode ja ter fechado)"@,
        },
{
    for i in 0..e.abertas.len()
        invariant
            forall|k: int| 0 <= k < i ==> e.abertas@[k] != id,
    {
        if e.abertas[i] == id {
            return Ok(escrever_frame(1, msg.as_bytes()));
        }
    }
    let mut m = "ws_enviar_para: conexao ".to_owned();
    let n = texto::natural(id);
    m.append(n.as_str());
    m.append(" nao encontrada (pode ja ter fechado)");
    Err(m)
}

/// O quadro que leva um texto a todas as conexoes abertas, e quais sao.
pub fn ws_broadcast(e: &EstadoWs, msg: &str) -> (r: (Vec<u64>, Vec<u8>))
    ensures
        r.0@ == e.abertas@,
        r.1@ == quadro(1, utf8::encode_utf8(msg@)),
{
    (ws_conexoes(e), escrever_frame(1, msg.as_bytes()))
}

/// Uma conexao que se abre fica aberta, e uma que se fecha deixa de estar.
pub proof fn lei_abre_e_fecha(abertas: Seq<u64>, id: u64)
    ensures
        sem(abertas, id).push(id).contains(id),
        !sem(sem(abertas, id).push(id), id).contains(id),
        sem(sem(abertas, id).push(id), id) == sem(sem(abertas, id), id),
{
    let s = sem(abertas, id);
    assert(s.push(id)[s.len() as int] == id);
    lei_sem(s.push(id), id);
    assert(s.push(id).drop_last() =~= s);
}

} // verus!
