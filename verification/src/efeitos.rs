//! As funcoes nativas que viram uma acao: rotas, estado global, resposta HTTP, eventos,
//! gradientes e saida.

use vstd::prelude::*;
use vstd::utf8;
use crate::busca;
use crate::decimal;
use crate::maquina;
use crate::nativas::{dizer_quer_um, falhar, recusar};
use crate::nativas;
use crate::operacoes::{dizer_nao_numero, em_numero, Pedido, Saida};
use crate::operacoes;
use crate::texto;
use crate::vm::VmValor;
use crate::vm;

verus! {

/// Uma acao pedida por uma funcao nativa.
#[derive(Debug)]
pub enum EfeitoNativa {
    Rota { metodo: String, padrao: String, handler: VmValor },
    GlobalDefinir { chave: String, valor: VmValor, ttl: Option<u64> },
    GlobalObter(String),
    GlobalApagar(String),
    GlobalExiste(String),
    GlobalListar,
    Status(u16),
    Cabecalho(String, String),
    Resposta { status: u16, cabecalhos: Vec<(String, String)>, corpo: Vec<u8> },
    Log(String),
    Usar(VmValor),
    Proximo,
    SseIniciar,
    SseEnviar(VmValor),
    SseEvento(String, VmValor),
    SseFechar,
    SegundoPlano(VmValor),
    GradAtivar,
    GradDesativar,
    GradLimpar,
    GradZerarTodos,
    GradZerar(usize),
    Imprimir(String),
}

/// O que uma acao representa.
pub ghost enum EfeitoVisto {
    Rota { metodo: Seq<char>, padrao: Seq<char>, handler: vm::Visto },
    GlobalDefinir { chave: Seq<char>, valor: vm::Visto, ttl: Option<u64> },
    GlobalObter(Seq<char>),
    GlobalApagar(Seq<char>),
    GlobalExiste(Seq<char>),
    GlobalListar,
    Status(u16),
    Cabecalho(Seq<char>, Seq<char>),
    Resposta { status: u16, cabecalhos: Seq<(Seq<char>, Seq<char>)>, corpo: Seq<u8> },
    Log(Seq<char>),
    Usar(vm::Visto),
    Proximo,
    SseIniciar,
    SseEnviar(vm::Visto),
    SseEvento(Seq<char>, vm::Visto),
    SseFechar,
    SegundoPlano(vm::Visto),
    GradAtivar,
    GradDesativar,
    GradLimpar,
    GradZerarTodos,
    GradZerar(usize),
    Imprimir(Seq<char>),
}

/// Pares de textos, vistos.
pub open spec fn pares_de_textos(v: Seq<(String, String)>) -> Seq<(Seq<char>, Seq<char>)> {
    v.map_values(|p: (String, String)| (p.0@, p.1@))
}

impl EfeitoNativa {
    pub open spec fn view(&self) -> EfeitoVisto {
        match self {
            EfeitoNativa::Rota { metodo, padrao, handler } => EfeitoVisto::Rota {
                metodo: metodo@,
                padrao: padrao@,
                handler: handler@,
            },
            EfeitoNativa::GlobalDefinir { chave, valor, ttl } => EfeitoVisto::GlobalDefinir {
                chave: chave@,
                valor: valor@,
                ttl: *ttl,
            },
            EfeitoNativa::GlobalObter(s) => EfeitoVisto::GlobalObter(s@),
            EfeitoNativa::GlobalApagar(s) => EfeitoVisto::GlobalApagar(s@),
            EfeitoNativa::GlobalExiste(s) => EfeitoVisto::GlobalExiste(s@),
            EfeitoNativa::GlobalListar => EfeitoVisto::GlobalListar,
            EfeitoNativa::Status(n) => EfeitoVisto::Status(*n),
            EfeitoNativa::Cabecalho(k, v) => EfeitoVisto::Cabecalho(k@, v@),
            EfeitoNativa::Resposta { status, cabecalhos, corpo } => EfeitoVisto::Resposta {
                status: *status,
                cabecalhos: pares_de_textos(cabecalhos@),
                corpo: corpo@,
            },
            EfeitoNativa::Log(s) => EfeitoVisto::Log(s@),
            EfeitoNativa::Usar(v) => EfeitoVisto::Usar(v@),
            EfeitoNativa::Proximo => EfeitoVisto::Proximo,
            EfeitoNativa::SseIniciar => EfeitoVisto::SseIniciar,
            EfeitoNativa::SseEnviar(v) => EfeitoVisto::SseEnviar(v@),
            EfeitoNativa::SseEvento(s, v) => EfeitoVisto::SseEvento(s@, v@),
            EfeitoNativa::SseFechar => EfeitoVisto::SseFechar,
            EfeitoNativa::SegundoPlano(v) => EfeitoVisto::SegundoPlano(v@),
            EfeitoNativa::GradAtivar => EfeitoVisto::GradAtivar,
            EfeitoNativa::GradDesativar => EfeitoVisto::GradDesativar,
            EfeitoNativa::GradLimpar => EfeitoVisto::GradLimpar,
            EfeitoNativa::GradZerarTodos => EfeitoVisto::GradZerarTodos,
            EfeitoNativa::GradZerar(id) => EfeitoVisto::GradZerar(*id),
            EfeitoNativa::Imprimir(s) => EfeitoVisto::Imprimir(s@),
        }
    }
}

/// Uma acao pedida.
pub open spec fn pede(e: EfeitoVisto) -> operacoes::SaidaVista {
    operacoes::SaidaVista::Pede(operacoes::PedidoVisto::Efeito(e))
}

fn pedir(e: EfeitoNativa) -> (r: Saida)
    ensures
        r@ == pede(e@),
{
    Saida::Pede(Pedido::Efeito(e))
}

/// Um numero como codigo de resposta.
pub open spec fn codigo_de(b: u64) -> u16 {
    decimal::entre(decimal::truncado(b), 0, 65535) as u16
}

fn em_codigo(b: u64) -> (r: u16)
    ensures
        r == codigo_de(b),
{
    decimal::para_natural(b, 65535) as u16
}

// ---- Estado global ----------------------------------------------------------------------

/// As acoes sobre o estado global e as rotas.
pub open spec fn de_estado(nome: Seq<char>, a: Seq<vm::Visto>) -> Option<operacoes::SaidaVista> {
    if nome == "rota"@ {
        Some(
            if a.len() != 3 {
                nativas::falha("'rota' requer 3 argumentos: metodo, padrao, handler"@)
            } else if !(a[0] is Str) {
                nativas::nao_serve("'rota' metodo deve ser texto, recebeu "@, a[0])
            } else if !(a[1] is Str) {
                nativas::nao_serve("'rota' caminho deve ser texto, recebeu "@, a[1])
            } else if !(a[2] is Funcao) {
                nativas::nao_serve("'rota' handler deve ser funcao, recebeu "@, a[2])
            } else {
                pede(
                    EfeitoVisto::Rota {
                        metodo: busca::maiusculas_de(a[0]->Str_0),
                        padrao: a[1]->Str_0,
                        handler: a[2],
                    },
                )
            },
        )
    } else if nome == "global_definir"@ {
        Some(
            if a.len() < 2 {
                nativas::falha("global_definir(chave, valor) ou global_definir(chave, valor, ttl_seg)"@)
            } else if !(a[0] is Str) {
                nativas::nao_serve("global_definir: chave deve ser texto, recebeu "@, a[0])
            } else if a.len() == 2 {
                pede(EfeitoVisto::GlobalDefinir { chave: a[0]->Str_0, valor: a[1], ttl: None })
            } else {
                match operacoes::numero_de(a[2]) {
                    None => nativas::falha("global_definir: "@ + operacoes::nao_e_numero(a[2])),
                    Some(b) => pede(
                        EfeitoVisto::GlobalDefinir {
                            chave: a[0]->Str_0,
                            valor: a[1],
                            ttl: Some(decimal::entre(decimal::truncado(b), 0, u64::MAX as int) as u64),
                        },
                    ),
                }
            },
        )
    } else if nome == "global_obter"@ || nome == "global_apagar"@ || nome == "global_existe"@ {
        Some(
            if a.len() != 1 {
                nativas::quer_um(nome, a.len())
            } else {
                match a[0] {
                    vm::Visto::Str(s) => pede(
                        if nome == "global_obter"@ {
                            EfeitoVisto::GlobalObter(s)
                        } else if nome == "global_apagar"@ {
                            EfeitoVisto::GlobalApagar(s)
                        } else {
                            EfeitoVisto::GlobalExiste(s)
                        },
                    ),
                    v => nativas::nao_serve(nome + ": chave deve ser texto, recebeu "@, v),
                }
            },
        )
    } else if nome == "global_listar"@ {
        Some(pede(EfeitoVisto::GlobalListar))
    } else {
        None
    }
}

fn fazer_rota(a: &Vec<VmValor>) -> (r: Saida)
    ensures
        Some(r@) == de_estado("rota"@, vm::vistos(a@)),
{
    let ghost vs = vm::vistos(a@);
    assert(vs.len() == a@.len());
    if a.len() != 3 {
        return falhar("'rota' requer 3 argumentos: metodo, padrao, handler");
    }
    assert(vs[0] == a@[0]@ && vs[1] == a@[1]@ && vs[2] == a@[2]@);
    let metodo = match &a[0] {
        VmValor::Str(s) => busca::maiusculas(s.as_str()),
        _ => return recusar("'rota' metodo deve ser texto, recebeu ", &a[0]),
    };
    let padrao = match &a[1] {
        VmValor::Str(s) => s.clone(),
        _ => return recusar("'rota' caminho deve ser texto, recebeu ", &a[1]),
    };
    match &a[2] {
        VmValor::Funcao { .. } => {},
        _ => return recusar("'rota' handler deve ser funcao, recebeu ", &a[2]),
    }
    pedir(EfeitoNativa::Rota { metodo, padrao, handler: a[2].clone() })
}

proof fn lema_nomes()
    ensures
        "rota"@ != "global_definir"@,
{
    reveal_strlit("rota");
    reveal_strlit("global_definir");
    assert("rota"@.len() == 4);
    assert("global_definir"@.len() == 14);
}

fn definir_global(a: &Vec<VmValor>) -> (r: Saida)
    ensures
        Some(r@) == de_estado("global_definir"@, vm::vistos(a@)),
{
    proof {
        lema_nomes();
    }
    let ghost vs = vm::vistos(a@);
    assert(vs.len() == a@.len());
    if a.len() < 2 {
        return falhar("global_definir(chave, valor) ou global_definir(chave, valor, ttl_seg)");
    }
    assert(vs[0] == a@[0]@ && vs[1] == a@[1]@);
    let chave = match &a[0] {
        VmValor::Str(s) => s.clone(),
        _ => return recusar("global_definir: chave deve ser texto, recebeu ", &a[0]),
    };
    if a.len() == 2 {
        return pedir(EfeitoNativa::GlobalDefinir { chave, valor: a[1].clone(), ttl: None });
    }
    assert(vs[2] == a@[2]@);
    match em_numero(&a[2]) {
        None => {
            let mut s = "global_definir: ".to_owned();
            s.append(dizer_nao_numero(&a[2]).as_str());
            Saida::Falha(s)
        },
        Some(b) => pedir(
            EfeitoNativa::GlobalDefinir { chave, valor: a[1].clone(), ttl: Some(decimal::para_natural(b, u64::MAX)) },
        ),
    }
}

fn com_estado(nome: &str, a: &Vec<VmValor>) -> (r: Option<Saida>)
    ensures
        nativas::talvez(r) == de_estado(nome@, vm::vistos(a@)),
{
    let n = a.len();
    let ghost vs = vm::vistos(a@);
    assert(vs.len() == n);
    assert(n > 0 ==> vs[0] == a@[0]@);
    if nome.eq("rota") {
        return Some(fazer_rota(a));
    }
    if nome.eq("global_definir") {
        return Some(definir_global(a));
    }
    let o = nome.eq("global_obter");
    let p = nome.eq("global_apagar");
    if o || p || nome.eq("global_existe") {
        if n != 1 {
            return Some(dizer_quer_um(nome, n));
        }
        return Some(
            match &a[0] {
                VmValor::Str(s) => pedir(
                    if o {
                        EfeitoNativa::GlobalObter(s.clone())
                    } else if p {
                        EfeitoNativa::GlobalApagar(s.clone())
                    } else {
                        EfeitoNativa::GlobalExiste(s.clone())
                    },
                ),
                _ => {
                    let mut inicio = nome.to_owned();
                    inicio.append(": chave deve ser texto, recebeu ");
                    recusar(inicio.as_str(), &a[0])
                },
            },
        );
    }
    if nome.eq("global_listar") {
        return Some(pedir(EfeitoNativa::GlobalListar));
    }
    None
}

// ---- Resposta HTTP ----------------------------------------------------------------------

/// Os cabecalhos de um mapa.
pub open spec fn cabecalhos_de(m: Seq<(Seq<char>, vm::Visto)>) -> Seq<(Seq<char>, Seq<char>)> {
    m.map_values(|p: (Seq<char>, vm::Visto)| (p.0, vm::texto_de(p.1)))
}

/// Os bytes de um corpo.
pub open spec fn bytes_do_corpo(v: vm::Visto) -> Seq<u8> {
    match v {
        vm::Visto::Bytes(b) => b,
        _ => utf8::encode_utf8(vm::texto_de(v)),
    }
}

fn listar_cabecalhos(m: &Vec<(String, VmValor)>) -> (r: Vec<(String, String)>)
    ensures
        pares_de_textos(r@) == cabecalhos_de(vm::pares_vistos(m@)),
{
    let mut r: Vec<(String, String)> = Vec::new();
    let mut i: usize = 0;
    while i < m.len()
        invariant
            i <= m@.len(),
            r@.len() == i,
            forall|k: int| 0 <= k < i ==> (#[trigger] r@[k]).0@ == m@[k].0@ && r@[k].1@ == vm::texto_de(m@[k].1@),
        decreases m@.len() - i,
    {
        let k = m[i].0.clone();
        let v = m[i].1.texto();
        r.push((k, v));
        i += 1;
    }
    assert(pares_de_textos(r@) =~= cabecalhos_de(vm::pares_vistos(m@)));
    r
}

/// Os bytes do corpo de uma resposta.
pub fn corpo_em_bytes(v: &VmValor) -> (r: Vec<u8>)
    ensures
        r@ == bytes_do_corpo(v@),
{
    match v {
        VmValor::Bytes(b) => busca::copia(b),
        _ => {
            let t = v.texto();
            busca::copia(t.as_str().as_bytes())
        },
    }
}

/// Uma resposta inteira.
pub open spec fn resposta(a: Seq<vm::Visto>) -> operacoes::SaidaVista {
    if a.len() < 2 {
        nativas::falha("resposta(corpo, status)"@)
    } else {
        match operacoes::numero_de(a[1]) {
            None => nativas::falha("resposta: status deve ser número — "@ + operacoes::nao_e_numero(a[1])),
            Some(b) => pede(
                EfeitoVisto::Resposta {
                    status: codigo_de(b),
                    cabecalhos: if a.len() > 2 && a[2] is Mapa {
                        cabecalhos_de(a[2]->Mapa_0)
                    } else {
                        Seq::empty()
                    },
                    corpo: bytes_do_corpo(a[0]),
                },
            ),
        }
    }
}

fn fazer_resposta(a: &Vec<VmValor>) -> (r: Saida)
    ensures
        r@ == resposta(vm::vistos(a@)),
{
    let ghost vs = vm::vistos(a@);
    assert(vs.len() == a@.len());
    if a.len() < 2 {
        return falhar("resposta(corpo, status)");
    }
    assert(vs[0] == a@[0]@ && vs[1] == a@[1]@);
    let b = match em_numero(&a[1]) {
        None => {
            let mut s = "resposta: status deve ser número — ".to_owned();
            s.append(dizer_nao_numero(&a[1]).as_str());
            return Saida::Falha(s);
        },
        Some(b) => b,
    };
    let mut cabecalhos: Vec<(String, String)> = Vec::new();
    assert(pares_de_textos(cabecalhos@) =~= Seq::empty());
    if a.len() > 2 {
        assert(vs[2] == a@[2]@);
        if let VmValor::Mapa(m) = &a[2] {
            cabecalhos = listar_cabecalhos(m);
        }
    }
    pedir(EfeitoNativa::Resposta { status: em_codigo(b), cabecalhos, corpo: corpo_em_bytes(&a[0]) })
}

/// As acoes sobre a resposta HTTP.
pub open spec fn de_resposta(nome: Seq<char>, a: Seq<vm::Visto>) -> Option<operacoes::SaidaVista> {
    if nome == "definir_status"@ {
        Some(
            if a.len() != 1 {
                nativas::quer_um(nome, a.len())
            } else {
                match operacoes::numero_de(a[0]) {
                    None => nativas::falha("definir_status: "@ + operacoes::nao_e_numero(a[0])),
                    Some(b) => pede(EfeitoVisto::Status(codigo_de(b))),
                }
            },
        )
    } else if nome == "definir_cabecalho"@ {
        Some(
            if a.len() < 2 {
                nativas::falha("definir_cabecalho(nome, valor)"@)
            } else {
                match a[0] {
                    vm::Visto::Str(k) => pede(EfeitoVisto::Cabecalho(k, vm::texto_de(a[1]))),
                    v => nativas::nao_serve("definir_cabecalho: nome deve ser texto, recebeu "@, v),
                }
            },
        )
    } else if nome == "resposta"@ {
        Some(resposta(a))
    } else {
        None
    }
}

fn com_resposta(nome: &str, a: &Vec<VmValor>) -> (r: Option<Saida>)
    ensures
        nativas::talvez(r) == de_resposta(nome@, vm::vistos(a@)),
{
    let n = a.len();
    let ghost vs = vm::vistos(a@);
    assert(vs.len() == n);
    assert(n > 0 ==> vs[0] == a@[0]@);
    assert(n > 1 ==> vs[1] == a@[1]@);
    if nome.eq("definir_status") {
        if n != 1 {
            return Some(dizer_quer_um(nome, n));
        }
        return Some(
            match em_numero(&a[0]) {
                None => {
                    let mut s = "definir_status: ".to_owned();
                    s.append(dizer_nao_numero(&a[0]).as_str());
                    Saida::Falha(s)
                },
                Some(b) => pedir(EfeitoNativa::Status(em_codigo(b))),
            },
        );
    }
    if nome.eq("definir_cabecalho") {
        if n < 2 {
            return Some(falhar("definir_cabecalho(nome, valor)"));
        }
        return Some(
            match &a[0] {
                VmValor::Str(k) => pedir(EfeitoNativa::Cabecalho(k.clone(), a[1].texto())),
                _ => recusar("definir_cabecalho: nome deve ser texto, recebeu ", &a[0]),
            },
        );
    }
    if nome.eq("resposta") {
        return Some(fazer_resposta(a));
    }
    None
}

// ---- Funcoes, eventos e saida -----------------------------------------------------------

/// As acoes que levam uma funcao ou um evento.
pub open spec fn de_evento(nome: Seq<char>, a: Seq<vm::Visto>) -> Option<operacoes::SaidaVista> {
    if nome == "usar"@ || nome == "executar_segundo_plano"@ {
        Some(
            if a.len() != 1 {
                nativas::quer_um(nome, a.len())
            } else if !(a[0] is Funcao) {
                nativas::nao_serve(nome + ": requer funcao, recebeu "@, a[0])
            } else if nome == "usar"@ {
                pede(EfeitoVisto::Usar(a[0]))
            } else {
                pede(EfeitoVisto::SegundoPlano(a[0]))
            },
        )
    } else if nome == "proximo"@ {
        Some(pede(EfeitoVisto::Proximo))
    } else if nome == "sse_iniciar"@ {
        Some(pede(EfeitoVisto::SseIniciar))
    } else if nome == "sse_enviar"@ {
        Some(
            if a.len() != 1 {
                nativas::quer_um(nome, a.len())
            } else {
                pede(EfeitoVisto::SseEnviar(a[0]))
            },
        )
    } else if nome == "sse_enviar_evento"@ {
        Some(
            if a.len() < 2 {
                nativas::falha("sse_enviar_evento(evento, dados)"@)
            } else {
                match a[0] {
                    vm::Visto::Str(s) => pede(EfeitoVisto::SseEvento(s, a[1])),
                    v => nativas::nao_serve("sse_enviar_evento: evento deve ser texto, recebeu "@, v),
                }
            },
        )
    } else if nome == "sse_fechar"@ {
        Some(pede(EfeitoVisto::SseFechar))
    } else {
        None
    }
}

fn com_evento(nome: &str, a: &Vec<VmValor>) -> (r: Option<Saida>)
    ensures
        nativas::talvez(r) == de_evento(nome@, vm::vistos(a@)),
{
    let n = a.len();
    let ghost vs = vm::vistos(a@);
    assert(vs.len() == n);
    assert(n > 0 ==> vs[0] == a@[0]@);
    assert(n > 1 ==> vs[1] == a@[1]@);
    let usar = nome.eq("usar");
    if usar || nome.eq("executar_segundo_plano") {
        if n != 1 {
            return Some(dizer_quer_um(nome, n));
        }
        match &a[0] {
            VmValor::Funcao { .. } => {},
            _ => {
                let mut inicio = nome.to_owned();
                inicio.append(": requer funcao, recebeu ");
                return Some(recusar(inicio.as_str(), &a[0]));
            },
        }
        return Some(
            if usar {
                pedir(EfeitoNativa::Usar(a[0].clone()))
            } else {
                pedir(EfeitoNativa::SegundoPlano(a[0].clone()))
            },
        );
    }
    if nome.eq("proximo") {
        return Some(pedir(EfeitoNativa::Proximo));
    }
    if nome.eq("sse_iniciar") {
        return Some(pedir(EfeitoNativa::SseIniciar));
    }
    if nome.eq("sse_enviar") {
        if n != 1 {
            return Some(dizer_quer_um(nome, n));
        }
        return Some(pedir(EfeitoNativa::SseEnviar(a[0].clone())));
    }
    if nome.eq("sse_enviar_evento") {
        if n < 2 {
            return Some(falhar("sse_enviar_evento(evento, dados)"));
        }
        return Some(
            match &a[0] {
                VmValor::Str(s) => pedir(EfeitoNativa::SseEvento(s.clone(), a[1].clone())),
                _ => recusar("sse_enviar_evento: evento deve ser texto, recebeu ", &a[0]),
            },
        );
    }
    if nome.eq("sse_fechar") {
        return Some(pedir(EfeitoNativa::SseFechar));
    }
    None
}

/// As acoes sobre os gradientes e a saida.
pub open spec fn de_saida(nome: Seq<char>, a: Seq<vm::Visto>) -> Option<operacoes::SaidaVista> {
    if nome == "grad_ativar"@ {
        Some(pede(EfeitoVisto::GradAtivar))
    } else if nome == "grad_desativar"@ {
        Some(pede(EfeitoVisto::GradDesativar))
    } else if nome == "grad_limpar"@ {
        Some(pede(EfeitoVisto::GradLimpar))
    } else if nome == "grad_zerar_todos"@ {
        Some(pede(EfeitoVisto::GradZerarTodos))
    } else if nome == "grad_zerar"@ {
        Some(
            if a.len() != 1 {
                nativas::quer_um(nome, a.len())
            } else {
                match a[0] {
                    vm::Visto::TensorGrad { id, .. } => pede(EfeitoVisto::GradZerar(id)),
                    v => nativas::nao_serve("grad_zerar: requer tensor_grad, recebeu "@, v),
                }
            },
        )
    } else if nome == "log"@ {
        Some(pede(EfeitoVisto::Log(busca::juntos(maquina::textos_de(a), " "@))))
    } else if nome == "escrever"@ {
        Some(pede(EfeitoVisto::Imprimir(busca::juntos(maquina::textos_de(a), ""@))))
    } else if nome == "imprimir"@ {
        Some(pede(EfeitoVisto::Imprimir(busca::juntos(maquina::textos_de(a), " "@) + "\n"@)))
    } else if nome == "nova_linha"@ {
        Some(pede(EfeitoVisto::Imprimir("\n"@)))
    } else {
        None
    }
}

fn com_saida(nome: &str, a: &Vec<VmValor>) -> (r: Option<Saida>)
    ensures
        nativas::talvez(r) == de_saida(nome@, vm::vistos(a@)),
{
    let n = a.len();
    let ghost vs = vm::vistos(a@);
    assert(vs.len() == n);
    assert(n > 0 ==> vs[0] == a@[0]@);
    if nome.eq("grad_ativar") {
        return Some(pedir(EfeitoNativa::GradAtivar));
    }
    if nome.eq("grad_desativar") {
        return Some(pedir(EfeitoNativa::GradDesativar));
    }
    if nome.eq("grad_limpar") {
        return Some(pedir(EfeitoNativa::GradLimpar));
    }
    if nome.eq("grad_zerar_todos") {
        return Some(pedir(EfeitoNativa::GradZerarTodos));
    }
    if nome.eq("grad_zerar") {
        if n != 1 {
            return Some(dizer_quer_um(nome, n));
        }
        return Some(
            match &a[0] {
                VmValor::TensorGrad { id, .. } => pedir(EfeitoNativa::GradZerar(*id)),
                _ => recusar("grad_zerar: requer tensor_grad, recebeu ", &a[0]),
            },
        );
    }
    if nome.eq("log") {
        let ts = maquina::escrever_textos(a);
        return Some(pedir(EfeitoNativa::Log(busca::juntar(&ts, " "))));
    }
    if nome.eq("escrever") {
        let ts = maquina::escrever_textos(a);
        return Some(pedir(EfeitoNativa::Imprimir(busca::juntar(&ts, ""))));
    }
    if nome.eq("imprimir") {
        let ts = maquina::escrever_textos(a);
        let mut s = busca::juntar(&ts, " ");
        s.append("\n");
        return Some(pedir(EfeitoNativa::Imprimir(s)));
    }
    if nome.eq("nova_linha") {
        return Some(pedir(EfeitoNativa::Imprimir("\n".to_owned())));
    }
    None
}

/// As funcoes que viram uma acao.
pub open spec fn de_efeito(nome: Seq<char>, a: Seq<vm::Visto>) -> Option<operacoes::SaidaVista> {
    match de_estado(nome, a) {
        Some(s) => Some(s),
        None => match de_resposta(nome, a) {
            Some(s) => Some(s),
            None => match de_evento(nome, a) {
                Some(s) => Some(s),
                None => de_saida(nome, a),
            },
        },
    }
}

/// Chama uma funcao que vira uma acao.
pub fn com_efeito(nome: &str, a: &Vec<VmValor>) -> (r: Option<Saida>)
    ensures
        nativas::talvez(r) == de_efeito(nome@, vm::vistos(a@)),
{
    if let Some(s) = com_estado(nome, a) {
        return Some(s);
    }
    if let Some(s) = com_resposta(nome, a) {
        return Some(s);
    }
    if let Some(s) = com_evento(nome, a) {
        return Some(s);
    }
    com_saida(nome, a)
}

} // verus!
