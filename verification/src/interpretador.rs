//! O interpretador da arvore: uma tarefa por passo, com o que nao se calcula aqui pedido a quem
//! o faz andar.

use vstd::prelude::*;
use crate::ambiente;
use crate::aplicar::{acessar, acessar_opcional, aplicar_op, e_verdadeiro, negar, trocar_item, Feito};
use crate::aplicar;
use crate::ast::{
    copiar_instrs,
    Expressao,
    Instrucao,
    OpBinario,
    OpUnario,
    Parametro,
};
use crate::ast;
use crate::busca;
use crate::conversao;
use crate::decimal::Decimal;
use crate::decimal;
use crate::nativas_arvore::{chamar_nativa, Chamado};
use crate::maquina;
use crate::nativas_arvore;
use crate::operacoes::{uma_letra, Conta};
use crate::tarefa::{Escolha, Ligacao, Modo, Percurso, Sinal, Tarefa};
use crate::tarefa;
use crate::tensor::PedidoTensor;
use crate::tensor;
use crate::texto;
use crate::valor::{copiar_pares, guardar, Ambiente, Valor};
use crate::valor;
use crate::vm::frase;
use crate::vm;

verus! {

// ---- Estado -----------------------------------------------------------------------------

/// O que o interpretador pede a quem o faz andar.
#[derive(Debug)]
pub enum Pedido {
    /// O numero de um lexema.
    Numero(String),
    /// Uma conta com numeros com ponto.
    Conta { op: Conta, a: u64, b: u64 },
    /// O simetrico de um numero com ponto.
    Negar(u64),
    /// Uma funcao nativa.
    Nativa { nome: String, args: Vec<Valor> },
    /// Uma conta com os numeros de tensores.
    Tensor(PedidoTensor),
    /// Escrever um texto na saida.
    Escrever(String),
    /// O programa de um modulo.
    Importar { caminho: String, alias: Option<String> },
    /// O programa de um arquivo a incluir.
    Incluir { caminho: String, obrigatorio: bool },
    /// Passar a guardar o que se escreve.
    IniciarSaida,
    /// Deixar de guardar o que se escreve, e dar o que foi guardado.
    TerminarSaida,
}

/// O que um pedido representa.
pub ghost enum PedidoVisto {
    Numero(Seq<char>),
    Conta { op: Conta, a: u64, b: u64 },
    Negar(u64),
    Nativa { nome: Seq<char>, args: Seq<valor::Dado> },
    Tensor(tensor::PedidoTensorVisto),
    Escrever(Seq<char>),
    Importar { caminho: Seq<char>, alias: Option<Seq<char>> },
    Incluir { caminho: Seq<char>, obrigatorio: bool },
    IniciarSaida,
    TerminarSaida,
}

impl Pedido {
    pub open spec fn view(&self) -> PedidoVisto {
        match self {
            Pedido::Numero(s) => PedidoVisto::Numero(s@),
            Pedido::Conta { op, a, b } => PedidoVisto::Conta { op: *op, a: *a, b: *b },
            Pedido::Negar(b) => PedidoVisto::Negar(*b),
            Pedido::Nativa { nome, args } => PedidoVisto::Nativa { nome: nome@, args: valor::vistos(args@) },
            Pedido::Tensor(p) => PedidoVisto::Tensor(p@),
            Pedido::Escrever(s) => PedidoVisto::Escrever(s@),
            Pedido::Importar { caminho, alias } => PedidoVisto::Importar {
                caminho: caminho@,
                alias: tarefa::texto_opcional(*alias),
            },
            Pedido::Incluir { caminho, obrigatorio } => PedidoVisto::Incluir {
                caminho: caminho@,
                obrigatorio: *obrigatorio,
            },
            Pedido::IniciarSaida => PedidoVisto::IniciarSaida,
            Pedido::TerminarSaida => PedidoVisto::TerminarSaida,
        }
    }
}

/// O interpretador.
pub struct Interpretador {
    pub ambiente: Ambiente,
    pub tarefas: Vec<Tarefa>,
    pub valores: Vec<Valor>,
    pub ambientes: Vec<Ambiente>,
    pub pilha_chamadas: Vec<(String, usize)>,
    pub linha_atual: usize,
    pub erro_usuario: Option<Valor>,
    pub contador_ops: u64,
    pub limite_ops: u64,
    pub modo: Modo,
    pub modulos: Vec<(String, Vec<(String, Valor)>)>,
    pub diretorios: Vec<String>,
    pub incluidos: Vec<String>,
}

/// O que o interpretador representa.
pub ghost struct Estado {
    pub ambiente: Seq<valor::Escopo>,
    pub tarefas: Seq<tarefa::TarefaVista>,
    pub valores: Seq<valor::Dado>,
    pub ambientes: Seq<Seq<valor::Escopo>>,
    pub chamadas: Seq<(Seq<char>, usize)>,
    pub linha: usize,
    pub erro: Option<valor::Dado>,
    pub ops: u64,
    pub limite: u64,
    pub modo: tarefa::ModoVisto,
    pub modulos: Seq<(Seq<char>, valor::Escopo)>,
    pub diretorios: Seq<Seq<char>>,
    pub incluidos: Seq<Seq<char>>,
}

/// Os ambientes vistos.
pub open spec fn ambientes_vistos(v: Seq<Ambiente>) -> Seq<Seq<valor::Escopo>> {
    v.map_values(|a: Ambiente| a@)
}

/// As chamadas vistas.
pub open spec fn chamadas_vistas(v: Seq<(String, usize)>) -> Seq<(Seq<char>, usize)> {
    v.map_values(|p: (String, usize)| (p.0@, p.1))
}

/// Os modulos vistos.
pub open spec fn modulos_vistos(v: Seq<(String, Vec<(String, Valor)>)>) -> Seq<(Seq<char>, valor::Escopo)> {
    v.map_values(|p: (String, Vec<(String, Valor)>)| (p.0@, valor::pares_vistos(p.1@)))
}

/// Um valor que pode faltar, visto.
pub open spec fn talvez(v: Option<Valor>) -> Option<valor::Dado> {
    match v {
        Some(x) => Some(x@),
        None => None,
    }
}

impl Interpretador {
    pub open spec fn view(&self) -> Estado {
        Estado {
            ambiente: self.ambiente@,
            tarefas: tarefa::vistas(self.tarefas@),
            valores: valor::vistos(self.valores@),
            ambientes: ambientes_vistos(self.ambientes@),
            chamadas: chamadas_vistas(self.pilha_chamadas@),
            linha: self.linha_atual,
            erro: talvez(self.erro_usuario),
            ops: self.contador_ops,
            limite: self.limite_ops,
            modo: self.modo@,
            modulos: modulos_vistos(self.modulos@),
            diretorios: texto::textos(self.diretorios@),
            incluidos: texto::textos(self.incluidos@),
        }
    }
}

/// O que um passo deu.
#[derive(Debug)]
pub enum Passo {
    /// Andou.
    Andou,
    /// Espera a resposta a um pedido.
    Pede(Pedido),
    /// Acabou, com um valor.
    Terminou(Valor),
    /// Falhou.
    Falhou(String),
    /// Nao ha como seguir.
    Panico,
}

/// O que um passo representa.
pub ghost enum PassoVisto {
    Andou,
    Pede(PedidoVisto),
    Terminou(valor::Dado),
    Falhou(Seq<char>),
    Panico,
}

impl Passo {
    pub open spec fn view(&self) -> PassoVisto {
        match self {
            Passo::Andou => PassoVisto::Andou,
            Passo::Pede(p) => PassoVisto::Pede(p@),
            Passo::Terminou(v) => PassoVisto::Terminou(v@),
            Passo::Falhou(m) => PassoVisto::Falhou(m@),
            Passo::Panico => PassoVisto::Panico,
        }
    }
}

// ---- Mudancas de estado -----------------------------------------------------------------

/// O estado com mais uma tarefa, a primeira a fazer.
pub open spec fn mais(s: Estado, t: tarefa::TarefaVista) -> Estado {
    Estado { tarefas: s.tarefas.push(t), ..s }
}

/// O estado com mais um valor.
pub open spec fn com(s: Estado, v: valor::Dado) -> Estado {
    Estado { valores: s.valores.push(v), ..s }
}

/// O estado sem os `n` valores de cima.
pub open spec fn sem(s: Estado, n: int) -> Estado {
    Estado { valores: s.valores.take(s.valores.len() - n), ..s }
}

/// Os `n` valores de cima, o mais antigo primeiro.
pub open spec fn topo(s: Estado, n: int) -> Seq<valor::Dado> {
    s.valores.skip(s.valores.len() - n)
}

/// O ambiente em que se esta.
pub open spec fn aqui(s: Estado) -> Seq<valor::Escopo> {
    s.ambientes.last()
}

/// O estado com outro ambiente.
pub open spec fn em(s: Estado, e: Seq<valor::Escopo>) -> Estado {
    Estado { ambientes: s.ambientes.update(s.ambientes.len() - 1, e), ..s }
}

/// O estado com um nome definido.
pub open spec fn define(s: Estado, nome: Seq<char>, v: valor::Dado) -> Estado {
    em(s, ambiente::definido(aqui(s), nome, v))
}

/// O estado com um sinal a subir.
pub open spec fn sinaliza(s: Estado, x: tarefa::SinalVisto) -> Estado {
    Estado { modo: tarefa::ModoVisto::Sinal(x), ..s }
}

/// O estado com uma falha a subir.
pub open spec fn falha(s: Estado, m: Seq<char>) -> Estado {
    Estado { modo: tarefa::ModoVisto::Falha(m), ..s }
}

/// O estado a andar.
pub open spec fn normal(s: Estado) -> Estado {
    Estado { modo: tarefa::ModoVisto::Anda, ..s }
}

/// Um estado e o que o passo deu.
pub type Depois = (Estado, PassoVisto);

/// Andou.
pub open spec fn andou(s: Estado) -> Depois {
    (s, PassoVisto::Andou)
}

/// Um resultado entregue.
pub open spec fn entrega(s: Estado, f: aplicar::FeitoVisto) -> Depois {
    match f {
        aplicar::FeitoVisto::Valor(v) => andou(com(s, v)),
        aplicar::FeitoVisto::Conta { op, a, b } => (s, PassoVisto::Pede(PedidoVisto::Conta { op, a, b })),
        aplicar::FeitoVisto::Negar(b) => (s, PassoVisto::Pede(PedidoVisto::Negar(b))),
        aplicar::FeitoVisto::Falha(m) => andou(falha(s, m)),
        aplicar::FeitoVisto::Panico => (s, PassoVisto::Panico),
    }
}

/// As tarefas com a avaliacao das expressoes a partir da `k`, a primeira por cima.
pub open spec fn avaliacoes(
    ts: Seq<tarefa::TarefaVista>,
    es: Seq<ast::ArvoreExpr>,
    k: int,
) -> Seq<tarefa::TarefaVista>
    decreases es.len() - k,
{
    if k < 0 || k >= es.len() {
        ts
    } else {
        avaliacoes(ts, es, k + 1).push(tarefa::TarefaVista::Avaliar(es[k]))
    }
}

/// O estado com uma tarefa por baixo da avaliacao de varias expressoes.
pub open spec fn avalia_antes(s: Estado, t: tarefa::TarefaVista, es: Seq<ast::ArvoreExpr>) -> Estado {
    Estado { tarefas: avaliacoes(s.tarefas.push(t), es, 0), ..s }
}

/// Uma tarefa depois da avaliacao de uma expressao.
pub open spec fn depois_de(s: Estado, t: tarefa::TarefaVista, e: ast::ArvoreExpr) -> Estado {
    mais(mais(s, t), tarefa::TarefaVista::Avaliar(e))
}

/// As expressoes dos valores de um mapa.
pub open spec fn valores_do_mapa(ps: Seq<(Seq<char>, ast::ArvoreExpr)>) -> Seq<ast::ArvoreExpr> {
    ps.map_values(|p: (Seq<char>, ast::ArvoreExpr)| p.1)
}

/// As chaves de um mapa.
pub open spec fn chaves_do_mapa(ps: Seq<(Seq<char>, ast::ArvoreExpr)>) -> Seq<Seq<char>> {
    ps.map_values(|p: (Seq<char>, ast::ArvoreExpr)| p.0)
}

/// Os parametros de uma funcao de seta.
pub open spec fn parametros_de_seta(ns: Seq<Seq<char>>) -> Seq<ast::ArvoreParam> {
    ns.map_values(|n: Seq<char>| ast::ArvoreParam { nome: n, padrao: None, variadic: false })
}

// ---- Expressoes -------------------------------------------------------------------------

/// O comeco da avaliacao de uma expressao.
#[verifier::opaque]
pub open spec fn avalia(s: Estado, e: ast::ArvoreExpr) -> Depois {
    match e {
        ast::ArvoreExpr::Inteiro(n) => andou(com(s, valor::Dado::Inteiro(n))),
        ast::ArvoreExpr::Numero(t) => (s, PassoVisto::Pede(PedidoVisto::Numero(t))),
        ast::ArvoreExpr::Texto(t) => andou(com(s, valor::Dado::Texto(t))),
        ast::ArvoreExpr::Booleano(b) => andou(com(s, valor::Dado::Booleano(b))),
        ast::ArvoreExpr::Nulo => andou(com(s, valor::Dado::Nulo)),
        ast::ArvoreExpr::FuncaoAnonima { parametros, corpo } => andou(
            com(s, valor::Dado::Funcao { parametros, corpo, ambiente: aqui(s) }),
        ),
        ast::ArvoreExpr::FuncaoSeta { parametros, corpo } => andou(
            com(
                s,
                valor::Dado::Funcao {
                    parametros: parametros_de_seta(parametros),
                    corpo: seq![ast::ArvoreInstr::Retornar(Some(*corpo))],
                    ambiente: aqui(s),
                },
            ),
        ),
        ast::ArvoreExpr::Lista(es) => andou(avalia_antes(s, tarefa::TarefaVista::FazLista(es.len() as int), es)),
        ast::ArvoreExpr::Mapa(ps) => andou(
            avalia_antes(s, tarefa::TarefaVista::FazMapa(chaves_do_mapa(ps)), valores_do_mapa(ps)),
        ),
        ast::ArvoreExpr::Variavel(n) => match ambiente::obtido(aqui(s), n) {
            Some(v) => andou(com(s, v)),
            None => andou(falha(s, "Variavel '"@ + n + "' nao definida"@)),
        },
        ast::ArvoreExpr::Atribuicao { nome, valor } => andou(
            depois_de(s, tarefa::TarefaVista::Atribui(nome), *valor),
        ),
        ast::ArvoreExpr::AtribuicaoIndexada { objeto, indice, valor } => {
            let var = match *objeto {
                ast::ArvoreExpr::Variavel(n) => Some(n),
                _ => None,
            };
            andou(
                mais(
                    mais(
                        depois_de(s, tarefa::TarefaVista::AtribuiIndice(var), *valor),
                        tarefa::TarefaVista::Avaliar(*indice),
                    ),
                    tarefa::TarefaVista::Avaliar(*objeto),
                ),
            )
        },
        ast::ArvoreExpr::UnOp { op, expr } => andou(depois_de(s, tarefa::TarefaVista::Unaria(op), *expr)),
        ast::ArvoreExpr::BinOp { esq, op, dir } => andou(
            match op {
                OpBinario::E => depois_de(s, tarefa::TarefaVista::CurtoE(*dir), *esq),
                OpBinario::Ou => depois_de(s, tarefa::TarefaVista::CurtoOu(*dir), *esq),
                _ => mais(
                    depois_de(s, tarefa::TarefaVista::Binaria(op), *dir),
                    tarefa::TarefaVista::Avaliar(*esq),
                ),
            },
        ),
        ast::ArvoreExpr::ChamadaFuncao { nome, args } => match ambiente::obtido(aqui(s), nome) {
            Some(f) => andou(
                avalia_antes(com(s, f), tarefa::TarefaVista::Chama(nome, args.len() as int), args),
            ),
            None => andou(falha(s, "Funcao '"@ + nome + "' nao definida"@)),
        },
        ast::ArvoreExpr::Chamada { funcao, args } => andou(
            mais(
                avalia_antes(s, tarefa::TarefaVista::Chama("<expressao>"@, args.len() as int), args),
                tarefa::TarefaVista::Avaliar(*funcao),
            ),
        ),
        ast::ArvoreExpr::Acesso { objeto, indice } => andou(
            mais(depois_de(s, tarefa::TarefaVista::Acessa, *indice), tarefa::TarefaVista::Avaliar(*objeto)),
        ),
        ast::ArvoreExpr::AcessoOpcional { objeto, chave } => andou(
            depois_de(s, tarefa::TarefaVista::AcessaOpcional(chave), *objeto),
        ),
        ast::ArvoreExpr::NullCoalescente { esq, dir } => andou(
            depois_de(s, tarefa::TarefaVista::Coalesce(*dir), *esq),
        ),
    }
}

// ---- Chamadas ---------------------------------------------------------------------------

/// Quantos argumentos sao precisos: os parametros sem padrao, sem contar o que recebe o resto.
pub open spec fn minimo(ps: Seq<ast::ArvoreParam>, n: int) -> int
    decreases n,
{
    if n <= 0 || n > ps.len() {
        0
    } else {
        minimo(ps, n - 1) + if ps[n - 1].padrao is None && !ps[n - 1].variadic {
            1int
        } else {
            0
        }
    }
}

/// Se o ultimo parametro recebe o resto dos argumentos.
pub open spec fn recebe_resto(ps: Seq<ast::ArvoreParam>) -> bool {
    ps.len() > 0 && ps.last().variadic
}

/// Quantos argumentos se esperam, em palavras.
pub open spec fn esperado(ps: Seq<ast::ArvoreParam>) -> Seq<char> {
    let m = minimo(ps, ps.len() as int);
    if recebe_resto(ps) {
        "ao menos "@ + texto::decimal(m as nat)
    } else if m == ps.len() {
        texto::decimal(m as nat)
    } else {
        texto::decimal(m as nat) + " a "@ + texto::decimal(ps.len())
    }
}

/// O ambiente com os nomes do inicio de um escopo que comecam com sublinhado.
pub open spec fn com_privados(e: Seq<valor::Escopo>, m: valor::Escopo, n: int) -> Seq<valor::Escopo>
    decreases n,
{
    if n <= 0 || n > m.len() {
        e
    } else {
        let r = com_privados(e, m, n - 1);
        if m[n - 1].0.len() > 0 && m[n - 1].0[0] == '_' {
            ambiente::definido(r, m[n - 1].0, m[n - 1].1)
        } else {
            r
        }
    }
}

/// O ambiente em que uma funcao comeca: dentro do seu, ou do de quem chama se o seu e vazio, com
/// os nomes privados de quem chama e o nome da propria funcao.
pub open spec fn ambiente_da_chamada(
    daqui: Seq<valor::Escopo>,
    nome: Seq<char>,
    f: valor::Dado,
    dela: Seq<valor::Escopo>,
) -> Seq<valor::Escopo> {
    let base = if dela.len() <= 1 && (dela.len() == 0 || dela[0].len() == 0) {
        daqui
    } else {
        dela
    };
    let m = if daqui.len() == 0 {
        Seq::empty()
    } else {
        daqui.last()
    };
    let e = com_privados(base.push(Seq::empty()), m, m.len() as int);
    if nome == "<expressao>"@ {
        e
    } else {
        ambiente::definido(e, nome, f)
    }
}

/// O comeco do corpo de uma funcao.
pub open spec fn comeca(
    s: Estado,
    nome: Seq<char>,
    corpo: Seq<ast::ArvoreInstr>,
    e: Seq<valor::Escopo>,
) -> Estado {
    mais(
        mais(
            Estado { chamadas: s.chamadas.push((nome, s.linha)), ambientes: s.ambientes.push(e), ..s },
            tarefa::TarefaVista::FimChamada,
        ),
        tarefa::TarefaVista::Bloco(corpo, 0),
    )
}

/// A ligacao com o parametro em que se vai ligado a um valor.
pub open spec fn ligado(l: tarefa::LigacaoVista, v: valor::Dado) -> tarefa::LigacaoVista {
    tarefa::LigacaoVista {
        i: l.i + 1,
        ambiente: ambiente::definido(l.ambiente, l.parametros[l.i].nome, v),
        ..l
    }
}

/// Liga o parametro em que se vai.
pub open spec fn liga(s: Estado, l: tarefa::LigacaoVista) -> Depois {
    if l.i >= l.parametros.len() {
        andou(comeca(s, l.nome, l.corpo, l.ambiente))
    } else {
        let p = l.parametros[l.i];
        if p.variadic {
            if l.i > l.args.len() {
                (s, PassoVisto::Panico)
            } else {
                andou(
                    comeca(
                        s,
                        l.nome,
                        l.corpo,
                        ambiente::definido(l.ambiente, p.nome, valor::Dado::Lista(l.args.skip(l.i))),
                    ),
                )
            }
        } else if l.i < l.args.len() {
            andou(mais(s, tarefa::TarefaVista::Liga(ligado(l, l.args[l.i]))))
        } else {
            match p.padrao {
                Some(e) => andou(depois_de(s, tarefa::TarefaVista::LigaCom(l), e)),
                None => andou(mais(s, tarefa::TarefaVista::Liga(ligado(l, valor::Dado::Nulo)))),
            }
        }
    }
}

/// A chamada de um valor com argumentos.
pub open spec fn chama(s: Estado, nome: Seq<char>, f: valor::Dado, args: Seq<valor::Dado>) -> Depois {
    match f {
        valor::Dado::FuncaoNativa(n) => chama_nativa(s, n, args),
        valor::Dado::Funcao { parametros, corpo, ambiente } => if args.len() < minimo(
            parametros,
            parametros.len() as int,
        ) || (!recebe_resto(parametros) && args.len() > parametros.len()) {
            andou(
                falha(
                    s,
                    "Funcao '"@ + nome + "' espera "@ + esperado(parametros) + " argumento(s), recebeu "@
                        + texto::decimal(args.len()),
                ),
            )
        } else {
            andou(
                mais(
                    s,
                    tarefa::TarefaVista::Liga(
                        tarefa::LigacaoVista {
                            nome,
                            parametros,
                            corpo,
                            args,
                            i: 0,
                            ambiente: ambiente_da_chamada(aqui(s), nome, f, ambiente),
                        },
                    ),
                ),
            )
        },
        _ => andou(falha(s, "'"@ + nome + "' nao e uma funcao"@)),
    }
}

/// Um percurso que comeca.
pub open spec fn percurso(f: valor::Dado, l: Seq<valor::Dado>) -> tarefa::PercursoVisto {
    tarefa::PercursoVisto { funcao: f, itens: l, i: 0, feitos: Seq::empty() }
}

/// A chamada de uma funcao nativa.
pub open spec fn chama_nativa(s: Estado, nome: Seq<char>, args: Seq<valor::Dado>) -> Depois {
    match nativas_arvore::nativa(nome, args) {
        nativas_arvore::ChamadoVisto::Feito(f) => entrega(s, f),
        nativas_arvore::ChamadoVisto::Pedida => (s, PassoVisto::Pede(PedidoVisto::Nativa { nome, args })),
        nativas_arvore::ChamadoVisto::Conta(p) => (s, PassoVisto::Pede(PedidoVisto::Tensor(p))),
        nativas_arvore::ChamadoVisto::Mapear(l, f) => andou(mais(s, tarefa::TarefaVista::Mapeia(percurso(f, l)))),
        nativas_arvore::ChamadoVisto::Filtrar(l, f) => andou(mais(s, tarefa::TarefaVista::Filtra(percurso(f, l)))),
        nativas_arvore::ChamadoVisto::Reduzir(l, f, v) => andou(
            mais(com(s, v), tarefa::TarefaVista::Reduz(percurso(f, l))),
        ),
        nativas_arvore::ChamadoVisto::Capturar(f) => (
            mais(mais(com(s, f), tarefa::TarefaVista::FimSaida), tarefa::TarefaVista::Chama("<capturar_saida>"@, 0)),
            PassoVisto::Pede(PedidoVisto::IniciarSaida),
        ),
        nativas_arvore::ChamadoVisto::Erro(tipo, mensagem) => andou(
            com(s, valor::Dado::Erro { tipo, mensagem, pilha: rasto(s.chamadas, s.linha) }),
        ),
        nativas_arvore::ChamadoVisto::Escrever(t) => (
            com(s, valor::Dado::Nulo),
            PassoVisto::Pede(PedidoVisto::Escrever(t)),
        ),
    }
}

/// O passo seguinte de um percurso: guarda o que a ultima chamada deu e faz a proxima.
pub open spec fn percorre(s: Estado, p: tarefa::PercursoVisto, filtra: bool) -> Depois {
    if p.i > 0 && s.valores.len() < 1 {
        (s, PassoVisto::Panico)
    } else {
        let feitos = if p.i <= 0 {
            p.feitos
        } else if !filtra {
            p.feitos.push(s.valores.last())
        } else if aplicar::verdadeiro(s.valores.last()) && p.i <= p.itens.len() {
            p.feitos.push(p.itens[p.i - 1])
        } else {
            p.feitos
        };
        let s1 = if p.i <= 0 {
            s
        } else {
            sem(s, 1)
        };
        if p.i < p.itens.len() {
            let q = tarefa::PercursoVisto { i: p.i + 1, feitos, ..p };
            andou(
                mais(
                    mais(
                        com(com(s1, p.funcao), p.itens[p.i]),
                        if filtra {
                            tarefa::TarefaVista::Filtra(q)
                        } else {
                            tarefa::TarefaVista::Mapeia(q)
                        },
                    ),
                    tarefa::TarefaVista::Chama("<expressao>"@, 1),
                ),
            )
        } else {
            andou(com(s1, valor::Dado::Lista(feitos)))
        }
    }
}

/// O passo seguinte de uma reducao: o acumulado esta por cima dos valores.
pub open spec fn reduz(s: Estado, p: tarefa::PercursoVisto) -> Depois {
    if s.valores.len() < 1 {
        (s, PassoVisto::Panico)
    } else if p.i < p.itens.len() {
        let acc = s.valores.last();
        andou(
            mais(
                mais(
                    com(com(com(sem(s, 1), p.funcao), acc), p.itens[p.i]),
                    tarefa::TarefaVista::Reduz(tarefa::PercursoVisto { i: p.i + 1, ..p }),
                ),
                tarefa::TarefaVista::Chama("<expressao>"@, 2),
            ),
        )
    } else {
        andou(s)
    }
}

/// Os nomes ligados a valores, por ordem.
pub open spec fn ligados(ks: Seq<Seq<char>>, vs: Seq<valor::Dado>, n: int) -> valor::Escopo
    decreases n,
{
    if n <= 0 || n > ks.len() || n > vs.len() {
        Seq::empty()
    } else {
        valor::com_valor(ligados(ks, vs, n - 1), ks[n - 1], vs[n - 1])
    }
}

/// Uma tarefa de expressao.
#[verifier::opaque]
pub open spec fn continua_expr(s: Estado, t: tarefa::TarefaVista) -> Depois {
    let n = s.valores.len();
    match t {
        tarefa::TarefaVista::FazLista(k) => if n < k {
            (s, PassoVisto::Panico)
        } else {
            andou(com(sem(s, k), valor::Dado::Lista(topo(s, k))))
        },
        tarefa::TarefaVista::FazMapa(ks) => if n < ks.len() {
            (s, PassoVisto::Panico)
        } else {
            andou(
                com(
                    sem(s, ks.len() as int),
                    valor::Dado::Mapa(ligados(ks, topo(s, ks.len() as int), ks.len() as int)),
                ),
            )
        },
        tarefa::TarefaVista::Atribui(nome) => if n < 1 {
            (s, PassoVisto::Panico)
        } else {
            match ambiente::atribuido(aqui(s), nome, s.valores.last()) {
                Some(e) => andou(em(s, e)),
                None => andou(
                    falha(
                        sem(s, 1),
                        "Variavel '"@ + nome + "' nao declarada. Use 'var "@ + nome + " = ...'"@,
                    ),
                ),
            }
        },
        tarefa::TarefaVista::AtribuiIndice(var) => if n < 3 {
            (s, PassoVisto::Panico)
        } else {
            let f = aplicar::trocado_em(s.valores[n - 3], s.valores[n - 2], s.valores[n - 1]);
            match f {
                aplicar::FeitoVisto::Valor(v) => {
                    let s1 = com(sem(s, 3), v);
                    match var {
                        Some(nome) => match ambiente::atribuido(aqui(s), nome, v) {
                            Some(e) => andou(em(s1, e)),
                            None => andou(s1),
                        },
                        None => andou(s1),
                    }
                },
                _ => entrega(sem(s, 3), f),
            }
        },
        tarefa::TarefaVista::Unaria(op) => if n < 1 {
            (s, PassoVisto::Panico)
        } else {
            match op {
                OpUnario::Negativo => entrega(sem(s, 1), aplicar::negado(s.valores.last())),
                OpUnario::Nao => andou(
                    com(sem(s, 1), valor::Dado::Booleano(!aplicar::verdadeiro(s.valores.last()))),
                ),
            }
        },
        tarefa::TarefaVista::Binaria(op) => if n < 2 {
            (s, PassoVisto::Panico)
        } else {
            entrega(sem(s, 2), aplicar::aplicado(op, s.valores[n - 2], s.valores[n - 1]))
        },
        tarefa::TarefaVista::CurtoE(dir) => if n < 1 {
            (s, PassoVisto::Panico)
        } else if !aplicar::verdadeiro(s.valores.last()) {
            andou(com(sem(s, 1), valor::Dado::Booleano(false)))
        } else {
            andou(depois_de(sem(s, 1), tarefa::TarefaVista::EmBooleano, dir))
        },
        tarefa::TarefaVista::CurtoOu(dir) => if n < 1 {
            (s, PassoVisto::Panico)
        } else if aplicar::verdadeiro(s.valores.last()) {
            andou(com(sem(s, 1), valor::Dado::Booleano(true)))
        } else {
            andou(depois_de(sem(s, 1), tarefa::TarefaVista::EmBooleano, dir))
        },
        tarefa::TarefaVista::EmBooleano => if n < 1 {
            (s, PassoVisto::Panico)
        } else {
            andou(com(sem(s, 1), valor::Dado::Booleano(aplicar::verdadeiro(s.valores.last()))))
        },
        tarefa::TarefaVista::Chama(nome, k) => if n < k + 1 {
            (s, PassoVisto::Panico)
        } else {
            chama(sem(s, k + 1), nome, s.valores[n - k - 1], topo(s, k))
        },
        tarefa::TarefaVista::Liga(l) => liga(s, l),
        tarefa::TarefaVista::LigaCom(l) => if n < 1 || l.i >= l.parametros.len() {
            (s, PassoVisto::Panico)
        } else {
            andou(mais(sem(s, 1), tarefa::TarefaVista::Liga(ligado(l, s.valores.last()))))
        },
        tarefa::TarefaVista::Acessa => if n < 2 {
            (s, PassoVisto::Panico)
        } else {
            entrega(sem(s, 2), aplicar::acessado(s.valores[n - 2], s.valores[n - 1]))
        },
        tarefa::TarefaVista::AcessaOpcional(k) => if n < 1 {
            (s, PassoVisto::Panico)
        } else {
            entrega(sem(s, 1), aplicar::acesso_opcional(s.valores.last(), k))
        },
        tarefa::TarefaVista::Coalesce(dir) => if n < 1 {
            (s, PassoVisto::Panico)
        } else if s.valores.last() is Nulo {
            andou(mais(sem(s, 1), tarefa::TarefaVista::Avaliar(dir)))
        } else {
            andou(s)
        },
        tarefa::TarefaVista::Mapeia(p) => percorre(s, p, false),
        tarefa::TarefaVista::Filtra(p) => percorre(s, p, true),
        tarefa::TarefaVista::Reduz(p) => reduz(s, p),
        tarefa::TarefaVista::FimSaida => if n < 1 {
            (s, PassoVisto::Panico)
        } else {
            (sem(s, 1), PassoVisto::Pede(PedidoVisto::TerminarSaida))
        },
        _ => (s, PassoVisto::Panico),
    }
}

// ---- Instrucoes -------------------------------------------------------------------------

/// O comeco de uma instrucao.
#[verifier::opaque]
pub open spec fn executa(s: Estado, x: ast::ArvoreInstr) -> Depois {
    match x {
        ast::ArvoreInstr::Localizada { linha, contexto, instrucao } => andou(
            mais(
                mais(Estado { linha, ..s }, tarefa::TarefaVista::FimLinha { linha, contexto }),
                tarefa::TarefaVista::Executar(*instrucao),
            ),
        ),
        ast::ArvoreInstr::Expressao(e) => andou(depois_de(s, tarefa::TarefaVista::Descarta, e)),
        ast::ArvoreInstr::DeclararVar { nome, valor } => match valor {
            Some(e) => andou(depois_de(s, tarefa::TarefaVista::Declara(nome), e)),
            None => andou(define(s, nome, valor::Dado::Nulo)),
        },
        ast::ArvoreInstr::Imprimir(args) => andou(
            avalia_antes(s, tarefa::TarefaVista::Escreve(args.len() as int), args),
        ),
        ast::ArvoreInstr::Se { condicao, entao, senao } => andou(
            depois_de(s, tarefa::TarefaVista::Decide(entao, senao), condicao),
        ),
        ast::ArvoreInstr::Enquanto { condicao, corpo } => andou(
            mais(s, tarefa::TarefaVista::Enquanto(condicao, corpo)),
        ),
        ast::ArvoreInstr::Para { variavel, iteravel, corpo } => andou(
            depois_de(s, tarefa::TarefaVista::PreparaPara(variavel, corpo), iteravel),
        ),
        ast::ArvoreInstr::ParaIntervalo { variavel, inicio, fim, passo, corpo } => {
            let s1 = mais(s, tarefa::TarefaVista::PreparaIntervalo(variavel, passo is Some, corpo));
            let s2 = match passo {
                Some(p) => mais(s1, tarefa::TarefaVista::Avaliar(p)),
                None => s1,
            };
            andou(mais(mais(s2, tarefa::TarefaVista::Avaliar(fim)), tarefa::TarefaVista::Avaliar(inicio)))
        },
        ast::ArvoreInstr::Escolher { expr, casos, padrao } => andou(
            depois_de(
                s,
                tarefa::TarefaVista::Escolhe(tarefa::EscolhaVista { casos, padrao, caso: 0, item: 0 }),
                expr,
            ),
        ),
        ast::ArvoreInstr::Funcao { nome, parametros, corpo } => andou(
            define(s, nome, valor::Dado::Funcao { parametros, corpo, ambiente: aqui(s) }),
        ),
        ast::ArvoreInstr::Retornar(v) => match v {
            Some(e) => andou(depois_de(s, tarefa::TarefaVista::Devolve, e)),
            None => andou(sinaliza(s, tarefa::SinalVisto::Retornar(valor::Dado::Nulo))),
        },
        ast::ArvoreInstr::Pare => andou(sinaliza(s, tarefa::SinalVisto::Pare)),
        ast::ArvoreInstr::Continue => andou(sinaliza(s, tarefa::SinalVisto::Continue)),
        ast::ArvoreInstr::Lancar(e) => andou(depois_de(s, tarefa::TarefaVista::Lanca, e)),
        ast::ArvoreInstr::Tentar { corpo, capturar, finalmente } => andou(
            mais(
                mais(
                    s,
                    tarefa::TarefaVista::FimTentar { capturar, finalmente, altura: s.valores.len() as int },
                ),
                tarefa::TarefaVista::Bloco(corpo, 0),
            ),
        ),
        ast::ArvoreInstr::Importar { caminho, alias } => (
            s,
            PassoVisto::Pede(PedidoVisto::Importar { caminho, alias }),
        ),
        ast::ArvoreInstr::Incluir { caminho, obrigatorio } => (
            s,
            PassoVisto::Pede(PedidoVisto::Incluir { caminho, obrigatorio }),
        ),
    }
}

/// A falha de um laco que passou do limite.
pub open spec fn laco_infinito(limite: u64) -> Seq<char> {
    "Limite de "@ + texto::decimal(limite as nat)
        + " operacoes excedido. Possivel loop infinito. Use PEP_MAX_OPS para ajustar."@
}

/// A falha de uma contagem que passou do limite.
pub open spec fn contagem_infinita(limite: u64) -> Seq<char> {
    "Limite de "@ + texto::decimal(limite as nat) + " operacoes excedido."@
}

/// Se mais uma volta passa do limite.
pub open spec fn passa_do_limite(s: Estado) -> bool {
    s.limite > 0 && s.ops + 1 > s.limite
}

/// Os limites de um intervalo.
pub open spec fn limites(a: valor::Dado, b: valor::Dado, c: valor::Dado) -> Option<(i64, i64, i64)> {
    match (a, b, c) {
        (valor::Dado::Inteiro(x), valor::Dado::Inteiro(y), valor::Dado::Inteiro(z)) => Some((x, y, z)),
        (valor::Dado::Numero(x, _), valor::Dado::Numero(y, _), valor::Dado::Numero(z, _)) => Some(
            (
                decimal::inteiro_de(x) as i64,
                decimal::inteiro_de(y) as i64,
                decimal::inteiro_de(z) as i64,
            ),
        ),
        (valor::Dado::Inteiro(x), valor::Dado::Numero(y, _), valor::Dado::Inteiro(z)) => Some(
            (x, decimal::inteiro_de(y) as i64, z),
        ),
        (valor::Dado::Numero(x, _), valor::Dado::Inteiro(y), valor::Dado::Inteiro(z)) => Some(
            (decimal::inteiro_de(x) as i64, y, z),
        ),
        _ => None,
    }
}

/// A soma com os limites dos inteiros.
pub open spec fn soma_limitada(a: i64, b: i64) -> i64 {
    decimal::entre(a + b, i64::MIN as int, i64::MAX as int) as i64
}

/// Os itens de um percurso por um valor.
pub open spec fn itens_de(v: valor::Dado) -> Option<Seq<valor::Dado>> {
    match v {
        valor::Dado::Lista(l) => Some(l),
        valor::Dado::Texto(t) => Some(t.map_values(|c: char| valor::Dado::Texto(seq![c]))),
        _ => None,
    }
}

/// Onde cada chamada estava, da mais de dentro a mais de fora.
pub open spec fn rasto(cs: Seq<(Seq<char>, usize)>, linha: usize) -> Seq<Seq<char>>
    decreases cs.len(),
{
    if cs.len() == 0 {
        Seq::empty()
    } else {
        seq![
            if linha > 0 {
                cs.last().0 + " (linha "@ + texto::decimal(linha as nat) + ")"@
            } else {
                cs.last().0
            },
        ] + rasto(cs.drop_last(), cs.last().1)
    }
}

/// O erro que um valor lancado e.
pub open spec fn erro_lancado(v: valor::Dado, pilha: Seq<Seq<char>>) -> valor::Dado {
    match v {
        valor::Dado::Erro { tipo, mensagem, .. } => valor::Dado::Erro { tipo, mensagem, pilha },
        _ => valor::Dado::Erro { tipo: "Erro"@, mensagem: valor::texto_de(v), pilha },
    }
}

/// A primeira linha de uma mensagem, sem o comeco "Erro na linha X: ".
pub open spec fn mensagem_limpa(m: Seq<char>) -> Seq<char> {
    let l = m.take(texto::proximo(m, '\n', 0));
    if busca::comeca(l, "Erro na linha "@) {
        match busca::primeira(l, ": "@, 0) {
            Some(i) => l.skip(i + 2),
            None => l,
        }
    } else {
        l
    }
}

/// O erro de uma falha que ninguem lancou.
pub open spec fn erro_da_falha(m: Seq<char>, linha: usize) -> valor::Dado {
    valor::Dado::Erro {
        tipo: "Erro"@,
        mensagem: mensagem_limpa(m),
        pilha: if linha > 0 {
            seq!["(linha "@ + texto::decimal(linha as nat) + ")"@]
        } else {
            Seq::empty()
        },
    }
}

/// O estado com menos valores, ate a altura dada.
pub open spec fn ate(s: Estado, altura: int) -> Estado {
    if 0 <= altura <= s.valores.len() {
        Estado { valores: s.valores.take(altura), ..s }
    } else {
        s
    }
}

/// O que fica por fazer quando um bloco protegido acaba: o bloco final, e voltar ao modo.
pub open spec fn finaliza(s: Estado, fin: Option<Seq<ast::ArvoreInstr>>, altura: int) -> Estado {
    match fin {
        Some(b) => mais(
            mais(normal(s), tarefa::TarefaVista::Restaura { modo: s.modo, altura }),
            tarefa::TarefaVista::Bloco(b, 0),
        ),
        None => s,
    }
}

/// Uma tarefa de instrucao.
#[verifier::opaque]
pub open spec fn continua_instr(s: Estado, t: tarefa::TarefaVista) -> Depois {
    let n = s.valores.len();
    match t {
        tarefa::TarefaVista::Bloco(b, i) => if 0 <= i < b.len() {
            andou(mais(mais(s, tarefa::TarefaVista::Bloco(b, i + 1)), tarefa::TarefaVista::Executar(b[i])))
        } else {
            andou(s)
        },
        tarefa::TarefaVista::Descarta => if n < 1 {
            (s, PassoVisto::Panico)
        } else {
            andou(sem(s, 1))
        },
        tarefa::TarefaVista::Declara(nome) => if n < 1 {
            (s, PassoVisto::Panico)
        } else {
            andou(define(sem(s, 1), nome, s.valores.last()))
        },
        tarefa::TarefaVista::Escreve(k) => if n < k {
            (s, PassoVisto::Panico)
        } else {
            (
                sem(s, k),
                PassoVisto::Pede(
                    PedidoVisto::Escrever(
                        busca::juntos(topo(s, k).map_values(|v: valor::Dado| valor::texto_de(v)), " "@) + "\n"@,
                    ),
                ),
            )
        },
        tarefa::TarefaVista::Decide(entao, senao) => if n < 1 {
            (s, PassoVisto::Panico)
        } else if aplicar::verdadeiro(s.valores.last()) {
            andou(mais(sem(s, 1), tarefa::TarefaVista::Bloco(entao, 0)))
        } else {
            match senao {
                Some(b) => andou(mais(sem(s, 1), tarefa::TarefaVista::Bloco(b, 0))),
                None => andou(sem(s, 1)),
            }
        },
        tarefa::TarefaVista::Enquanto(c, b) => if s.ops == u64::MAX {
            (s, PassoVisto::Panico)
        } else {
            let s1 = Estado { ops: (s.ops + 1) as u64, ..s };
            if passa_do_limite(s) {
                andou(falha(s1, laco_infinito(s.limite)))
            } else {
                andou(depois_de(s1, tarefa::TarefaVista::Testa(c, b), c))
            }
        },
        tarefa::TarefaVista::Testa(c, b) => if n < 1 {
            (s, PassoVisto::Panico)
        } else if aplicar::verdadeiro(s.valores.last()) {
            andou(
                mais(
                    mais(sem(s, 1), tarefa::TarefaVista::Enquanto(c, b)),
                    tarefa::TarefaVista::Bloco(b, 0),
                ),
            )
        } else {
            andou(sem(s, 1))
        },
        tarefa::TarefaVista::PreparaPara(var, b) => if n < 1 {
            (s, PassoVisto::Panico)
        } else {
            match itens_de(s.valores.last()) {
                Some(itens) => andou(
                    mais(sem(s, 1), tarefa::TarefaVista::Para { variavel: var, itens, i: 0, corpo: b }),
                ),
                None => andou(falha(sem(s, 1), "'para...em' requer uma lista ou texto"@)),
            }
        },
        tarefa::TarefaVista::Para { variavel, itens, i, corpo } => if 0 <= i < itens.len() {
            andou(
                mais(
                    mais(
                        define(s, variavel, itens[i]),
                        tarefa::TarefaVista::Para { variavel, itens, i: i + 1, corpo },
                    ),
                    tarefa::TarefaVista::Bloco(corpo, 0),
                ),
            )
        } else {
            andou(s)
        },
        tarefa::TarefaVista::PreparaIntervalo(var, tem_passo, b) => {
            let k: int = if tem_passo {
                3
            } else {
                2
            };
            if n < k {
                (s, PassoVisto::Panico)
            } else {
                let p = if tem_passo {
                    s.valores.last()
                } else {
                    valor::Dado::Inteiro(1)
                };
                match limites(s.valores[n - k], s.valores[n - k + 1], p) {
                    None => andou(falha(sem(s, k), "'para de ate' requer numeros inteiros"@)),
                    Some((x, y, z)) => if z == 0 {
                        andou(falha(sem(s, k), "passo nao pode ser zero"@))
                    } else {
                        andou(
                            mais(
                                sem(s, k),
                                tarefa::TarefaVista::Intervalo {
                                    variavel: var,
                                    atual: x,
                                    fim: y,
                                    passo: z,
                                    corpo: b,
                                },
                            ),
                        )
                    },
                }
            }
        },
        tarefa::TarefaVista::Intervalo { variavel, atual, fim, passo, corpo } => if s.ops == u64::MAX {
            (s, PassoVisto::Panico)
        } else {
            let s1 = Estado { ops: (s.ops + 1) as u64, ..s };
            if passa_do_limite(s) {
                andou(falha(s1, contagem_infinita(s.limite)))
            } else if (passo > 0 && atual <= fim) || (passo <= 0 && atual >= fim) {
                andou(
                    mais(
                        mais(
                            define(s1, variavel, valor::Dado::Inteiro(atual)),
                            tarefa::TarefaVista::Intervalo {
                                variavel,
                                atual: soma_limitada(atual, passo),
                                fim,
                                passo,
                                corpo,
                            },
                        ),
                        tarefa::TarefaVista::Bloco(corpo, 0),
                    ),
                )
            } else {
                andou(s1)
            }
        },
        tarefa::TarefaVista::Escolhe(x) => if n < 1 {
            (s, PassoVisto::Panico)
        } else if x.caso >= x.casos.len() {
            match x.padrao {
                Some(b) => andou(mais(sem(s, 1), tarefa::TarefaVista::Bloco(b, 0))),
                None => andou(sem(s, 1)),
            }
        } else if x.item >= x.casos[x.caso].0.len() {
            andou(
                mais(
                    s,
                    tarefa::TarefaVista::Escolhe(tarefa::EscolhaVista { caso: x.caso + 1, item: 0, ..x }),
                ),
            )
        } else {
            andou(depois_de(s, tarefa::TarefaVista::Compara(x), x.casos[x.caso].0[x.item]))
        },
        tarefa::TarefaVista::Compara(x) => if n < 2 || x.caso >= x.casos.len() || x.item >= x.casos[x.caso].0.len() {
            (s, PassoVisto::Panico)
        } else if valor::iguais(s.valores[n - 2], s.valores[n - 1]) {
            andou(mais(sem(s, 2), tarefa::TarefaVista::Bloco(x.casos[x.caso].1, 0)))
        } else {
            andou(
                mais(
                    sem(s, 1),
                    tarefa::TarefaVista::Escolhe(tarefa::EscolhaVista { item: x.item + 1, ..x }),
                ),
            )
        },
        tarefa::TarefaVista::Devolve => if n < 1 {
            (s, PassoVisto::Panico)
        } else {
            andou(sinaliza(sem(s, 1), tarefa::SinalVisto::Retornar(s.valores.last())))
        },
        tarefa::TarefaVista::Lanca => if n < 1 {
            (s, PassoVisto::Panico)
        } else {
            let e = erro_lancado(s.valores.last(), rasto(s.chamadas, s.linha));
            andou(falha(Estado { erro: Some(e), ..sem(s, 1) }, e->Erro_mensagem))
        },
        tarefa::TarefaVista::FimTentar { capturar, finalmente, altura } => andou(
            finaliza(Estado { erro: None, ..s }, finalmente, altura),
        ),
        tarefa::TarefaVista::FimCaptura { finalmente, altura } => andou(finaliza(s, finalmente, altura)),
        tarefa::TarefaVista::Restaura { modo, altura } => andou(Estado { modo, ..ate(s, altura) }),
        tarefa::TarefaVista::FimLinha { .. } => andou(s),
        tarefa::TarefaVista::FimChamada => fim_da_chamada(s, valor::Dado::Nulo),
        tarefa::TarefaVista::FimModulo { chave, alias } => fim_do_modulo(s, chave, alias),
        tarefa::TarefaVista::FimInclusao => andou(sem_diretorio(s)),
        _ => (s, PassoVisto::Panico),
    }
}

/// O estado sem o ambiente e a chamada de dentro.
pub open spec fn sai_da_chamada(s: Estado) -> Estado {
    Estado { ambientes: s.ambientes.drop_last(), chamadas: s.chamadas.drop_last(), ..s }
}

/// O fim de uma chamada que deu um valor.
pub open spec fn fim_da_chamada(s: Estado, v: valor::Dado) -> Depois {
    if s.ambientes.len() < 2 || s.chamadas.len() < 1 {
        (s, PassoVisto::Panico)
    } else {
        andou(com(normal(sai_da_chamada(s)), v))
    }
}

/// O estado sem o diretorio de dentro.
pub open spec fn sem_diretorio(s: Estado) -> Estado {
    Estado {
        diretorios: if s.diretorios.len() > 0 {
            s.diretorios.drop_last()
        } else {
            s.diretorios
        },
        ..s
    }
}

/// O ambiente com os primeiros `n` nomes de um modulo.
pub open spec fn com_nomes(e: Seq<valor::Escopo>, m: valor::Escopo, n: int) -> Seq<valor::Escopo>
    decreases n,
{
    if n <= 0 || n > m.len() {
        e
    } else {
        ambiente::definido(com_nomes(e, m, n - 1), m[n - 1].0, m[n - 1].1)
    }
}

/// O estado com um modulo importado.
pub open spec fn importa(s: Estado, alias: Option<Seq<char>>, m: valor::Escopo) -> Estado {
    match alias {
        Some(a) => define(s, a, valor::Dado::Mapa(m)),
        None => em(s, com_nomes(aqui(s), m, m.len() as int)),
    }
}

/// O que um modulo mostra.
pub open spec fn mostra(e: Seq<valor::Escopo>) -> valor::Escopo {
    let c = ambiente::capturado(e);
    if c.len() == 0 {
        Seq::empty()
    } else {
        ambiente::exportados(c.last())
    }
}

/// O fim de um modulo.
pub open spec fn fim_do_modulo(s: Estado, chave: Seq<char>, alias: Option<Seq<char>>) -> Depois {
    if s.ambientes.len() < 2 {
        (s, PassoVisto::Panico)
    } else {
        let m = mostra(aqui(s));
        let s1 = sem_diretorio(
            normal(
                Estado {
                    ambientes: s.ambientes.drop_last(),
                    modulos: s.modulos.push((chave, m)),
                    ..s
                },
            ),
        );
        andou(importa(s1, alias, m))
    }
}

// ---- Sinais e falhas --------------------------------------------------------------------

/// O que uma tarefa faz a um sinal que sobe por ela.
pub open spec fn com_sinal(s: Estado, t: tarefa::TarefaVista, x: tarefa::SinalVisto) -> Depois {
    match t {
        tarefa::TarefaVista::Enquanto(_, _) | tarefa::TarefaVista::Para { .. } | tarefa::TarefaVista::Intervalo {
            ..
        } => match x {
            tarefa::SinalVisto::Pare => andou(normal(s)),
            tarefa::SinalVisto::Continue => andou(mais(normal(s), t)),
            tarefa::SinalVisto::Retornar(_) => andou(s),
        },
        tarefa::TarefaVista::FimTentar { finalmente, altura, .. } => andou(
            finaliza(Estado { erro: None, ..s }, finalmente, altura),
        ),
        tarefa::TarefaVista::FimCaptura { finalmente, altura } => andou(finaliza(s, finalmente, altura)),
        tarefa::TarefaVista::Restaura { modo, altura } => andou(Estado { modo, ..ate(s, altura) }),
        tarefa::TarefaVista::FimChamada => fim_da_chamada(
            s,
            match x {
                tarefa::SinalVisto::Retornar(v) => v,
                _ => valor::Dado::Nulo,
            },
        ),
        tarefa::TarefaVista::FimModulo { chave, alias } => fim_do_modulo(s, chave, alias),
        tarefa::TarefaVista::FimInclusao => andou(normal(sem_diretorio(s))),
        _ => andou(s),
    }
}

/// Uma falha com a linha em que foi, se ainda nao a tem.
pub open spec fn com_linha(m: Seq<char>, linha: usize, contexto: Seq<char>) -> Seq<char> {
    if busca::comeca(m, "Erro na linha "@) {
        m
    } else {
        "Erro na linha "@ + texto::decimal(linha as nat) + ": "@ + m + "\n  -> "@ + texto::aparado(contexto)
    }
}

/// O que uma tarefa faz a uma falha que sobe por ela.
pub open spec fn com_falha(s: Estado, t: tarefa::TarefaVista, m: Seq<char>) -> Depois {
    match t {
        tarefa::TarefaVista::FimLinha { linha, contexto } => andou(falha(s, com_linha(m, linha, contexto))),
        tarefa::TarefaVista::FimTentar { capturar, finalmente, altura } => {
            let e = match s.erro {
                Some(v) => v,
                None => erro_da_falha(m, s.linha),
            };
            match capturar {
                Some((nome, b)) => {
                    let s1 = ate(normal(Estado { erro: None, ..s }), altura);
                    andou(
                        mais(
                            mais(define(s1, nome, e), tarefa::TarefaVista::FimCaptura { finalmente, altura }),
                            tarefa::TarefaVista::Bloco(b, 0),
                        ),
                    )
                },
                None => andou(finaliza(ate(Estado { erro: Some(e), ..s }, altura), finalmente, altura)),
            }
        },
        tarefa::TarefaVista::FimCaptura { finalmente, altura } => andou(finaliza(s, finalmente, altura)),
        tarefa::TarefaVista::Restaura { modo, altura } => andou(Estado { modo, ..ate(s, altura) }),
        tarefa::TarefaVista::FimChamada => if s.ambientes.len() < 2 || s.chamadas.len() < 1 {
            (s, PassoVisto::Panico)
        } else {
            andou(sai_da_chamada(s))
        },
        tarefa::TarefaVista::FimModulo { .. } => if s.ambientes.len() < 2 {
            (s, PassoVisto::Panico)
        } else {
            andou(sem_diretorio(Estado { ambientes: s.ambientes.drop_last(), ..s }))
        },
        tarefa::TarefaVista::FimInclusao => andou(sem_diretorio(s)),
        tarefa::TarefaVista::FimSaida => (s, PassoVisto::Pede(PedidoVisto::TerminarSaida)),
        _ => andou(s),
    }
}

/// Se uma tarefa e de expressao.
pub open spec fn de_expressao(t: tarefa::TarefaVista) -> bool {
    match t {
        tarefa::TarefaVista::FazLista(_) | tarefa::TarefaVista::FazMapa(_) | tarefa::TarefaVista::Atribui(_)
        | tarefa::TarefaVista::AtribuiIndice(_) | tarefa::TarefaVista::Unaria(_) | tarefa::TarefaVista::Binaria(_)
        | tarefa::TarefaVista::CurtoE(_) | tarefa::TarefaVista::CurtoOu(_) | tarefa::TarefaVista::EmBooleano
        | tarefa::TarefaVista::Chama(_, _) | tarefa::TarefaVista::Liga(_) | tarefa::TarefaVista::LigaCom(_)
        | tarefa::TarefaVista::Acessa | tarefa::TarefaVista::AcessaOpcional(_) | tarefa::TarefaVista::Coalesce(_)
        | tarefa::TarefaVista::Mapeia(_) | tarefa::TarefaVista::Filtra(_) | tarefa::TarefaVista::Reduz(_)
        | tarefa::TarefaVista::FimSaida => true,
        _ => false,
    }
}

/// Uma tarefa, com o interpretador a andar.
pub open spec fn continua(s: Estado, t: tarefa::TarefaVista) -> Depois {
    match t {
        tarefa::TarefaVista::Avaliar(e) => avalia(s, e),
        tarefa::TarefaVista::Executar(x) => executa(s, x),
        _ => if de_expressao(t) {
            continua_expr(s, t)
        } else {
            continua_instr(s, t)
        },
    }
}

/// O fim do programa: o que ele deu, e o ambiente em que ficou.
pub open spec fn termina(s: Estado) -> Depois {
    let s1 = Estado {
        ambiente: if s.ambientes.len() > 0 {
            s.ambientes[0]
        } else {
            s.ambiente
        },
        ..s
    };
    match s.modo {
        tarefa::ModoVisto::Falha(m) => (s1, PassoVisto::Falhou(m)),
        tarefa::ModoVisto::Sinal(tarefa::SinalVisto::Retornar(v)) => (s1, PassoVisto::Terminou(v)),
        _ => (s1, PassoVisto::Terminou(valor::Dado::Nulo)),
    }
}

/// Um passo do interpretador.
#[verifier::opaque]
pub open spec fn anda(s: Estado) -> Depois {
    if s.tarefas.len() == 0 {
        termina(s)
    } else if s.ambientes.len() == 0 {
        (s, PassoVisto::Panico)
    } else {
        let t = s.tarefas.last();
        let s1 = Estado { tarefas: s.tarefas.drop_last(), ..s };
        match s.modo {
            tarefa::ModoVisto::Anda => continua(s1, t),
            tarefa::ModoVisto::Sinal(x) => com_sinal(s1, t, x),
            tarefa::ModoVisto::Falha(m) => com_falha(s1, t, m),
        }
    }
}

/// Ate `k` passos, enquanto o interpretador anda.
pub open spec fn corre(s: Estado, k: int) -> Depois
    decreases k,
{
    if k <= 0 {
        andou(s)
    } else {
        let r = anda(s);
        if r.1 is Andou {
            corre(r.0, k - 1)
        } else {
            r
        }
    }
}

// ---- Execucao: mudancas de estado -------------------------------------------------------

proof fn lema_tarefas(v: Seq<Tarefa>, t: Tarefa)
    ensures
        tarefa::vistas(v.push(t)) == tarefa::vistas(v).push(t@),
{
    assert(tarefa::vistas(v.push(t)) =~= tarefa::vistas(v).push(t@));
}

proof fn lema_ambientes(v: Seq<Ambiente>, a: Ambiente)
    ensures
        ambientes_vistos(v.push(a)) == ambientes_vistos(v).push(a@),
{
    assert(ambientes_vistos(v.push(a)) =~= ambientes_vistos(v).push(a@));
}

impl Interpretador {
    fn mais_tarefa(&mut self, t: Tarefa)
        ensures
            final(self)@ == mais(old(self)@, t@),
    {
        proof {
            lema_tarefas(self.tarefas@, t);
        }
        self.tarefas.push(t);
    }

    fn por(&mut self, v: Valor)
        ensures
            final(self)@ == com(old(self)@, v@),
    {
        let ghost antes = self.valores@;
        let ghost x = v@;
        self.valores.push(v);
        assert(valor::vistos(self.valores@) =~= valor::vistos(antes).push(x));
    }

    fn tirar(&mut self) -> (r: Option<Valor>)
        ensures
            match r {
                Some(v) => old(self)@.valores.len() > 0 && v@ == old(self)@.valores.last() && final(self)@ == sem(
                    old(self)@,
                    1,
                ),
                None => old(self)@.valores.len() == 0 && final(self)@ == old(self)@,
            },
    {
        let ghost antes = self.valores@;
        let r = self.valores.pop();
        proof {
            if antes.len() > 0 {
                assert(valor::vistos(self.valores@) =~= valor::vistos(antes).take(antes.len() - 1));
            } else {
                assert(valor::vistos(self.valores@) =~= valor::vistos(antes));
            }
        }
        r
    }

    fn tirar_varios(&mut self, n: usize) -> (r: Option<Vec<Valor>>)
        ensures
            match r {
                Some(v) => old(self)@.valores.len() >= n && valor::vistos(v@) == topo(old(self)@, n as int) && v@.len()
                    == n && final(self)@ == sem(old(self)@, n as int),
                None => old(self)@.valores.len() < n && final(self)@ == old(self)@,
            },
    {
        let tamanho = self.valores.len();
        if tamanho < n {
            return None;
        }
        let ghost antes = self.valores@;
        let r = self.valores.split_off(tamanho - n);
        assert(valor::vistos(r@) =~= valor::vistos(antes).skip(tamanho - n));
        assert(valor::vistos(self.valores@) =~= valor::vistos(antes).take(tamanho - n));
        Some(r)
    }

    fn cortar(&mut self, altura: usize)
        ensures
            final(self)@ == ate(old(self)@, altura as int),
    {
        if altura <= self.valores.len() {
            let ghost antes = self.valores@;
            self.valores.truncate(altura);
            assert(valor::vistos(self.valores@) =~= valor::vistos(antes).take(altura as int));
        }
    }

    fn ambiente_aqui(&self) -> (r: Ambiente)
        requires
            self@.ambientes.len() > 0,
        ensures
            r@ == aqui(self@),
    {
        let n = self.ambientes.len();
        assert(self@.ambientes.len() == n);
        assert(self@.ambientes[n - 1] == self.ambientes@[n - 1]@);
        self.ambientes[n - 1].copia()
    }

    fn obter(&self, nome: &str) -> (r: Option<Valor>)
        requires
            self@.ambientes.len() > 0,
        ensures
            match r {
                Some(v) => ambiente::obtido(aqui(self@), nome@) == Some(v@),
                None => ambiente::obtido(aqui(self@), nome@) is None,
            },
    {
        let n = self.ambientes.len();
        assert(self@.ambientes.len() == n);
        assert(self@.ambientes[n - 1] == self.ambientes@[n - 1]@);
        self.ambientes[n - 1].obter(nome)
    }

    fn trocar_ambiente(&mut self, a: Ambiente)
        requires
            old(self)@.ambientes.len() > 0,
        ensures
            final(self)@ == em(old(self)@, a@),
    {
        let ghost antes = self@.ambientes;
        let ghost x = a@;
        let n = self.ambientes.len();
        assert(antes.len() == n);
        self.ambientes.set(n - 1, a);
        assert(ambientes_vistos(self.ambientes@) =~= antes.update(n - 1, x));
    }

    fn definir(&mut self, nome: String, v: Valor)
        requires
            old(self)@.ambientes.len() > 0,
        ensures
            final(self)@ == define(old(self)@, nome@, v@),
    {
        let mut a = self.ambiente_aqui();
        a.definir(nome, v);
        self.trocar_ambiente(a);
    }

    fn falhar(&mut self, m: String) -> (r: Passo)
        ensures
            (final(self)@, r@) == andou(falha(old(self)@, m@)),
    {
        self.modo = Modo::Falha(m);
        Passo::Andou
    }

    fn entregar(&mut self, f: Feito) -> (r: Passo)
        ensures
            (final(self)@, r@) == entrega(old(self)@, f@),
    {
        match f {
            Feito::Valor(v) => {
                self.por(v);
                Passo::Andou
            },
            Feito::Conta { op, a, b } => Passo::Pede(Pedido::Conta { op, a, b }),
            Feito::Negar(b) => Passo::Pede(Pedido::Negar(b)),
            Feito::Falha(m) => self.falhar(m),
            Feito::Panico => Passo::Panico,
        }
    }

    fn avaliar_depois(&mut self, t: Tarefa, e: Expressao) -> (r: Passo)
        ensures
            (final(self)@, r@) == andou(depois_de(old(self)@, t@, e@)),
    {
        self.mais_tarefa(t);
        self.mais_tarefa(Tarefa::Avaliar(e));
        Passo::Andou
    }

    fn avaliar_varias(&mut self, t: Tarefa, es: &Vec<Expressao>)
        ensures
            final(self)@ == avalia_antes(old(self)@, t@, ast::exprs(es@)),
    {
        let ghost s = self@;
        let ghost es_v = ast::exprs(es@);
        let ghost tv = t@;
        self.mais_tarefa(t);
        let mut i: usize = es.len();
        while i > 0
            invariant
                i <= es@.len(),
                es_v == ast::exprs(es@),
                self@ == (Estado { tarefas: avaliacoes(s.tarefas.push(tv), es_v, i as int), ..s }),
            decreases i,
        {
            assert(es_v[i - 1] == es@[i - 1]@);
            self.mais_tarefa(Tarefa::Avaliar(es[i - 1].clone()));
            i -= 1;
        }
    }
}

// ---- Execucao: expressoes ---------------------------------------------------------------

fn separar_mapa(ps: &Vec<(String, Expressao)>) -> (r: (Vec<String>, Vec<Expressao>))
    ensures
        texto::textos(r.0@) == chaves_do_mapa(ast::pares(ps@)),
        ast::exprs(r.1@) == valores_do_mapa(ast::pares(ps@)),
{
    let mut ks: Vec<String> = Vec::new();
    let mut es: Vec<Expressao> = Vec::new();
    let mut i: usize = 0;
    while i < ps.len()
        invariant
            i <= ps@.len(),
            ks@.len() == i,
            es@.len() == i,
            forall|k: int| 0 <= k < i ==> (#[trigger] ks@[k])@ == ps@[k].0@,
            forall|k: int| 0 <= k < i ==> (#[trigger] es@[k])@ == ps@[k].1@,
        decreases ps@.len() - i,
    {
        ks.push(ps[i].0.clone());
        es.push(ps[i].1.clone());
        i += 1;
    }
    assert(texto::textos(ks@) =~= chaves_do_mapa(ast::pares(ps@)));
    assert(ast::exprs(es@) =~= valores_do_mapa(ast::pares(ps@)));
    (ks, es)
}

fn fazer_parametros(ns: &Vec<String>) -> (r: Vec<Parametro>)
    ensures
        ast::params(r@) == parametros_de_seta(texto::textos(ns@)),
{
    let mut r: Vec<Parametro> = Vec::new();
    let mut i: usize = 0;
    while i < ns.len()
        invariant
            i <= ns@.len(),
            r@.len() == i,
            forall|k: int|
                0 <= k < i ==> (#[trigger] r@[k])@ == (ast::ArvoreParam {
                    nome: ns@[k]@,
                    padrao: None,
                    variadic: false,
                }),
        decreases ns@.len() - i,
    {
        r.push(Parametro { nome: ns[i].clone(), padrao: None, variadic: false });
        i += 1;
    }
    assert(ast::params(r@) =~= parametros_de_seta(texto::textos(ns@)));
    r
}

impl Interpretador {
    fn avaliar_seta(&mut self, parametros: Vec<String>, corpo: Expressao) -> (r: Passo)
        requires
            old(self)@.ambientes.len() > 0,
        ensures
            (final(self)@, r@) == andou(
                com(
                    old(self)@,
                    valor::Dado::Funcao {
                        parametros: parametros_de_seta(texto::textos(parametros@)),
                        corpo: seq![ast::ArvoreInstr::Retornar(Some(corpo@))],
                        ambiente: aqui(old(self)@),
                    },
                ),
            ),
    {
        let ps = fazer_parametros(&parametros);
        let ambiente = self.ambiente_aqui();
        let mut c: Vec<Instrucao> = Vec::new();
        let ghost cv = corpo@;
        c.push(Instrucao::Retornar(Some(corpo)));
        assert(ast::instrs(c@) =~= seq![ast::ArvoreInstr::Retornar(Some(cv))]);
        self.por(Valor::Funcao { parametros: ps, corpo: c, ambiente });
        Passo::Andou
    }

    fn avaliar_chamada(&mut self, nome: String, args: Vec<Expressao>) -> (r: Passo)
        requires
            old(self)@.ambientes.len() > 0,
        ensures
            (final(self)@, r@) == avalia(
                old(self)@,
                ast::ArvoreExpr::ChamadaFuncao { nome: nome@, args: ast::exprs(args@) },
            ),
    {
        proof {
            reveal(avalia);
        }
        match self.obter(nome.as_str()) {
            Some(f) => {
                self.por(f);
                let n = args.len();
                self.avaliar_varias(Tarefa::Chama(nome, n), &args);
                Passo::Andou
            },
            None => self.falhar(frase("Funcao '", nome.as_str(), "' nao definida")),
        }
    }

    fn avaliar_indexada(&mut self, objeto: Expressao, indice: Expressao, val: Expressao) -> (r: Passo)
        ensures
            (final(self)@, r@) == avalia(
                old(self)@,
                ast::ArvoreExpr::AtribuicaoIndexada {
                    objeto: Box::new(objeto@),
                    indice: Box::new(indice@),
                    valor: Box::new(val@),
                },
            ),
    {
        proof {
            reveal(avalia);
        }
        let var: Option<String> = match &objeto {
            Expressao::Variavel(n) => Some(n.clone()),
            _ => None,
        };
        self.mais_tarefa(Tarefa::AtribuiIndice(var));
        self.mais_tarefa(Tarefa::Avaliar(val));
        self.mais_tarefa(Tarefa::Avaliar(indice));
        self.mais_tarefa(Tarefa::Avaliar(objeto));
        Passo::Andou
    }

    fn avaliar_binaria(&mut self, esq: Expressao, op: OpBinario, dir: Expressao) -> (r: Passo)
        ensures
            (final(self)@, r@) == avalia(
                old(self)@,
                ast::ArvoreExpr::BinOp { esq: Box::new(esq@), op, dir: Box::new(dir@) },
            ),
    {
        proof {
            reveal(avalia);
        }
        match op {
            OpBinario::E => self.avaliar_depois(Tarefa::CurtoE(dir), esq),
            OpBinario::Ou => self.avaliar_depois(Tarefa::CurtoOu(dir), esq),
            _ => {
                self.mais_tarefa(Tarefa::Binaria(op));
                self.mais_tarefa(Tarefa::Avaliar(dir));
                self.mais_tarefa(Tarefa::Avaliar(esq));
                Passo::Andou
            },
        }
    }

    fn avaliar_lista(&mut self, es: Vec<Expressao>) -> (r: Passo)
        ensures
            (final(self)@, r@) == avalia(old(self)@, ast::ArvoreExpr::Lista(ast::exprs(es@))),
    {
        proof {
            reveal(avalia);
        }
        self.avaliar_varias(Tarefa::FazLista(es.len()), &es);
        Passo::Andou
    }

    fn avaliar_mapa(&mut self, ps: Vec<(String, Expressao)>) -> (r: Passo)
        ensures
            (final(self)@, r@) == avalia(old(self)@, ast::ArvoreExpr::Mapa(ast::pares(ps@))),
    {
        proof {
            reveal(avalia);
        }
        let (ks, es) = separar_mapa(&ps);
        self.avaliar_varias(Tarefa::FazMapa(ks), &es);
        Passo::Andou
    }

    fn avaliar_valor(&mut self, funcao: Expressao, args: Vec<Expressao>) -> (r: Passo)
        ensures
            (final(self)@, r@) == avalia(
                old(self)@,
                ast::ArvoreExpr::Chamada { funcao: Box::new(funcao@), args: ast::exprs(args@) },
            ),
    {
        proof {
            reveal(avalia);
        }
        self.avaliar_varias(Tarefa::Chama("<expressao>".to_owned(), args.len()), &args);
        self.mais_tarefa(Tarefa::Avaliar(funcao));
        Passo::Andou
    }

    /// Comeca a avaliar uma expressao.
    fn avaliar(&mut self, e: Expressao) -> (r: Passo)
        requires
            old(self)@.ambientes.len() > 0,
        ensures
            (final(self)@, r@) == avalia(old(self)@, e@),
    {
        match e {
            Expressao::Lista(es) => self.avaliar_lista(es),
            Expressao::Mapa(ps) => self.avaliar_mapa(ps),
            Expressao::AtribuicaoIndexada { objeto, indice, valor } => self.avaliar_indexada(
                *objeto,
                *indice,
                *valor,
            ),
            Expressao::BinOp { esq, op, dir } => self.avaliar_binaria(*esq, op, *dir),
            Expressao::ChamadaFuncao { nome, args } => self.avaliar_chamada(nome, args),
            Expressao::Chamada { funcao, args } => self.avaliar_valor(*funcao, args),
            _ => self.avaliar_simples(e),
        }
    }

    fn avaliar_simples(&mut self, e: Expressao) -> (r: Passo)
        requires
            old(self)@.ambientes.len() > 0,
            !(e is Lista || e is Mapa || e is AtribuicaoIndexada || e is BinOp || e is ChamadaFuncao || e is Chamada),
        ensures
            (final(self)@, r@) == avalia(old(self)@, e@),
    {
        proof {
            reveal(avalia);
        }
        match e {
            Expressao::Inteiro(n) => {
                self.por(Valor::Inteiro(n));
                Passo::Andou
            },
            Expressao::Numero(t) => Passo::Pede(Pedido::Numero(t)),
            Expressao::Texto(t) => {
                self.por(Valor::Texto(t));
                Passo::Andou
            },
            Expressao::Booleano(b) => {
                self.por(Valor::Booleano(b));
                Passo::Andou
            },
            Expressao::Nulo => {
                self.por(Valor::Nulo);
                Passo::Andou
            },
            Expressao::FuncaoAnonima { parametros, corpo } => {
                let ambiente = self.ambiente_aqui();
                self.por(Valor::Funcao { parametros, corpo, ambiente });
                Passo::Andou
            },
            Expressao::FuncaoSeta { parametros, corpo } => self.avaliar_seta(parametros, *corpo),
            Expressao::Variavel(n) => match self.obter(n.as_str()) {
                Some(v) => {
                    self.por(v);
                    Passo::Andou
                },
                None => self.falhar(frase("Variavel '", n.as_str(), "' nao definida")),
            },
            Expressao::Atribuicao { nome, valor } => self.avaliar_depois(Tarefa::Atribui(nome), *valor),
            Expressao::UnOp { op, expr } => self.avaliar_depois(Tarefa::Unaria(op), *expr),
            Expressao::Acesso { objeto, indice } => {
                self.mais_tarefa(Tarefa::Acessa);
                self.mais_tarefa(Tarefa::Avaliar(*indice));
                self.mais_tarefa(Tarefa::Avaliar(*objeto));
                Passo::Andou
            },
            Expressao::AcessoOpcional { objeto, chave } => self.avaliar_depois(Tarefa::AcessaOpcional(chave), *objeto),
            Expressao::NullCoalescente { esq, dir } => self.avaliar_depois(Tarefa::Coalesce(*dir), *esq),
            _ => Passo::Panico,
        }
    }
}

// ---- Execucao: chamadas -----------------------------------------------------------------

fn contar_minimo(ps: &Vec<Parametro>) -> (r: usize)
    ensures
        r == minimo(ast::params(ps@), ps@.len() as int),
        r <= ps@.len(),
{
    let ghost v = ast::params(ps@);
    let mut r: usize = 0;
    let mut i: usize = 0;
    while i < ps.len()
        invariant
            i <= ps@.len(),
            v == ast::params(ps@),
            r <= i,
            r == minimo(v, i as int),
        decreases ps@.len() - i,
    {
        assert(v[i as int] == ps@[i as int]@);
        if ps[i].padrao.is_none() && !ps[i].variadic {
            r += 1;
        }
        i += 1;
    }
    r
}

fn tem_resto(ps: &Vec<Parametro>) -> (r: bool)
    ensures
        r == recebe_resto(ast::params(ps@)),
{
    let n = ps.len();
    assert(ast::params(ps@).len() == n);
    if n == 0 {
        return false;
    }
    assert(ast::params(ps@)[n - 1] == ps@[n - 1]@);
    ps[n - 1].variadic
}

fn dizer_esperado(ps: &Vec<Parametro>, m: usize) -> (r: String)
    requires
        m == minimo(ast::params(ps@), ps@.len() as int),
    ensures
        r@ == esperado(ast::params(ps@)),
{
    let a = texto::natural(m as u64);
    assert(ast::params(ps@).len() == ps@.len());
    if tem_resto(ps) {
        let mut s = "ao menos ".to_owned();
        s.append(a.as_str());
        s
    } else if m == ps.len() {
        a
    } else {
        let b = texto::natural(ps.len() as u64);
        frase(a.as_str(), " a ", b.as_str())
    }
}

fn por_privados(e: &mut Ambiente, m: &Vec<(String, Valor)>)
    ensures
        final(e)@ == com_privados(old(e)@, valor::pares_vistos(m@), m@.len() as int),
{
    let ghost e0 = e@;
    let ghost p = valor::pares_vistos(m@);
    let mut i: usize = 0;
    while i < m.len()
        invariant
            i <= m@.len(),
            p == valor::pares_vistos(m@),
            e@ == com_privados(e0, p, i as int),
        decreases m@.len() - i,
    {
        assert(p[i as int] == (m@[i as int].0@, m@[i as int].1@));
        let cs = texto::caracteres(m[i].0.as_str());
        if cs.len() > 0 && cs[0] == '_' {
            e.definir(m[i].0.clone(), m[i].1.clone());
        }
        i += 1;
    }
}

fn montar_ambiente(daqui: Ambiente, nome: &str, f: Valor, dela: Ambiente) -> (r: Ambiente)
    ensures
        r@ == ambiente_da_chamada(daqui@, nome@, f@, dela@),
{
    let n = daqui.escopos.len();
    assert(daqui@.len() == n);
    let mut privados: Vec<(String, Valor)> = Vec::new();
    assert(valor::pares_vistos(privados@) =~= Seq::empty());
    if n > 0 {
        assert(daqui@[n - 1] == valor::pares_vistos(daqui.escopos@[n - 1]@));
        privados = copiar_pares(&daqui.escopos[n - 1]);
    }
    assert(valor::pares_vistos(privados@).len() == privados@.len());
    let k = dela.escopos.len();
    assert(dela@.len() == k);
    let vazio = if k == 0 {
        true
    } else if k == 1 {
        assert(dela@[0] == valor::pares_vistos(dela.escopos@[0]@));
        dela.escopos[0].len() == 0
    } else {
        false
    };
    let mut e = if vazio {
        Ambiente::filho(daqui)
    } else {
        Ambiente::filho(dela)
    };
    por_privados(&mut e, &privados);
    if !nome.eq("<expressao>") {
        e.definir(nome.to_owned(), f);
    }
    e
}

impl Interpretador {
    fn comecar(&mut self, nome: String, corpo: Vec<Instrucao>, e: Ambiente)
        ensures
            final(self)@ == comeca(old(self)@, nome@, ast::instrs(corpo@), e@),
    {
        let ghost s = self@;
        let ghost nv = nome@;
        let ghost cv = self.pilha_chamadas@;
        proof {
            lema_ambientes(self.ambientes@, e);
        }
        self.pilha_chamadas.push((nome, self.linha_atual));
        assert(chamadas_vistas(self.pilha_chamadas@) =~= chamadas_vistas(cv).push((nv, s.linha)));
        self.ambientes.push(e);
        self.mais_tarefa(Tarefa::FimChamada);
        self.mais_tarefa(Tarefa::Bloco(corpo, 0));
    }

    fn ligar(&mut self, l: Ligacao) -> (r: Passo)
        ensures
            (final(self)@, r@) == liga(old(self)@, l@),
    {
        let ghost lv = l@;
        assert(lv.parametros.len() == l.parametros@.len());
        assert(lv.args.len() == l.args@.len());
        let i = l.i;
        if i >= l.parametros.len() {
            self.comecar(l.nome, l.corpo, l.ambiente);
            return Passo::Andou;
        }
        assert(lv.parametros[i as int] == l.parametros@[i as int]@);
        let nome = l.parametros[i].nome.clone();
        let mut l = l;
        if l.parametros[i].variadic {
            if i > l.args.len() {
                return Passo::Panico;
            }
            let ghost av = l.args@;
            let resto = l.args.split_off(i);
            assert(valor::vistos(resto@) =~= valor::vistos(av).skip(i as int));
            l.ambiente.definir(nome, Valor::Lista(resto));
            self.comecar(l.nome, l.corpo, l.ambiente);
            return Passo::Andou;
        }
        if i < l.args.len() {
            assert(lv.args[i as int] == l.args@[i as int]@);
            let v = l.args[i].clone();
            l.ambiente.definir(nome, v);
            l.i = i + 1;
            assert(l@ == ligado(lv, lv.args[i as int]));
            self.mais_tarefa(Tarefa::Liga(l));
            return Passo::Andou;
        }
        let padrao = match &l.parametros[i].padrao {
            Some(e) => Some(e.clone()),
            None => None,
        };
        match padrao {
            Some(e) => self.avaliar_depois(Tarefa::LigaCom(l), e),
            None => {
                l.ambiente.definir(nome, Valor::Nulo);
                l.i = i + 1;
                assert(l@ == ligado(lv, valor::Dado::Nulo));
                self.mais_tarefa(Tarefa::Liga(l));
                Passo::Andou
            },
        }
    }

    fn chamar_nativa(&mut self, nome: String, args: Vec<Valor>) -> (r: Passo)
        ensures
            (final(self)@, r@) == chama_nativa(old(self)@, nome@, valor::vistos(args@)),
    {
        match chamar_nativa(nome.as_str(), &args) {
            Chamado::Feito(f) => self.entregar(f),
            Chamado::Pedida => Passo::Pede(Pedido::Nativa { nome, args }),
            Chamado::Conta(p) => Passo::Pede(Pedido::Tensor(p)),
            Chamado::Mapear(l, f) => {
                let p = Percurso { funcao: f, itens: l, i: 0, feitos: Vec::new() };
                assert(valor::vistos(p.feitos@) =~= Seq::empty());
                self.mais_tarefa(Tarefa::Mapeia(p));
                Passo::Andou
            },
            Chamado::Filtrar(l, f) => {
                let p = Percurso { funcao: f, itens: l, i: 0, feitos: Vec::new() };
                assert(valor::vistos(p.feitos@) =~= Seq::empty());
                self.mais_tarefa(Tarefa::Filtra(p));
                Passo::Andou
            },
            Chamado::Reduzir(l, f, v) => {
                let p = Percurso { funcao: f, itens: l, i: 0, feitos: Vec::new() };
                assert(valor::vistos(p.feitos@) =~= Seq::empty());
                self.por(v);
                self.mais_tarefa(Tarefa::Reduz(p));
                Passo::Andou
            },
            Chamado::Capturar(f) => {
                self.por(f);
                self.mais_tarefa(Tarefa::FimSaida);
                self.mais_tarefa(Tarefa::Chama("<capturar_saida>".to_owned(), 0));
                Passo::Pede(Pedido::IniciarSaida)
            },
            Chamado::Erro(tipo, mensagem) => {
                let pilha = capturar_pilha(&self.pilha_chamadas, self.linha_atual);
                self.por(Valor::Erro { tipo, mensagem, pilha });
                Passo::Andou
            },
            Chamado::Escrever(t) => {
                self.por(Valor::Nulo);
                Passo::Pede(Pedido::Escrever(t))
            },
        }
    }

    /// Chama um valor com argumentos.
    fn chamar_valor(&mut self, nome: String, funcao: Valor, args: Vec<Valor>) -> (r: Passo)
        requires
            old(self)@.ambientes.len() > 0,
        ensures
            (final(self)@, r@) == chama(old(self)@, nome@, funcao@, valor::vistos(args@)),
    {
        let copia = funcao.clone();
        match funcao {
            Valor::FuncaoNativa(n) => self.chamar_nativa(n, args),
            Valor::Funcao { parametros, corpo, ambiente } => {
                let m = contar_minimo(&parametros);
                assert(ast::params(parametros@).len() == parametros@.len());
                assert(valor::vistos(args@).len() == args@.len());
                if args.len() < m || (!tem_resto(&parametros) && args.len() > parametros.len()) {
                    let e = dizer_esperado(&parametros, m);
                    let n = texto::natural(args.len() as u64);
                    let mut s = frase("Funcao '", nome.as_str(), "' espera ");
                    s.append(e.as_str());
                    s.append(" argumento(s), recebeu ");
                    s.append(n.as_str());
                    return self.falhar(s);
                }
                let daqui = self.ambiente_aqui();
                let amb = montar_ambiente(daqui, nome.as_str(), copia, ambiente);
                let l = Ligacao { nome, parametros, corpo, args, i: 0, ambiente: amb };
                self.mais_tarefa(Tarefa::Liga(l));
                Passo::Andou
            },
            _ => self.falhar(frase("'", nome.as_str(), "' nao e uma funcao")),
        }
    }

    fn percorrer(&mut self, p: Percurso, filtra: bool) -> (r: Passo)
        ensures
            (final(self)@, r@) == percorre(old(self)@, p@, filtra),
    {
        let ghost pv = p@;
        let ghost s = self@;
        assert(pv.itens.len() == p.itens@.len());
        let mut p = p;
        let i = p.i;
        if i > 0 {
            match self.tirar() {
                None => return Passo::Panico,
                Some(v) => {
                    let ghost fv = p.feitos@;
                    if !filtra {
                        let ghost x = v@;
                        p.feitos.push(v);
                        assert(valor::vistos(p.feitos@) =~= valor::vistos(fv).push(x));
                    } else if e_verdadeiro(&v) && i <= p.itens.len() {
                        assert(pv.itens[i - 1] == p.itens@[i - 1]@);
                        let x = p.itens[i - 1].clone();
                        p.feitos.push(x);
                        assert(valor::vistos(p.feitos@) =~= valor::vistos(fv).push(pv.itens[i - 1]));
                    }
                },
            }
        }
        if i < p.itens.len() {
            assert(pv.itens[i as int] == p.itens@[i as int]@);
            self.por(p.funcao.clone());
            self.por(p.itens[i].clone());
            p.i = i + 1;
            if filtra {
                self.mais_tarefa(Tarefa::Filtra(p));
            } else {
                self.mais_tarefa(Tarefa::Mapeia(p));
            }
            self.mais_tarefa(Tarefa::Chama("<expressao>".to_owned(), 1));
        } else {
            self.por(Valor::Lista(p.feitos));
        }
        Passo::Andou
    }

    fn reduzir(&mut self, p: Percurso) -> (r: Passo)
        ensures
            (final(self)@, r@) == reduz(old(self)@, p@),
    {
        let ghost pv = p@;
        let ghost s = self@;
        assert(pv.itens.len() == p.itens@.len());
        let mut p = p;
        let i = p.i;
        let acc = match self.tirar() {
            None => return Passo::Panico,
            Some(v) => v,
        };
        if i < p.itens.len() {
            assert(pv.itens[i as int] == p.itens@[i as int]@);
            self.por(p.funcao.clone());
            self.por(acc);
            self.por(p.itens[i].clone());
            p.i = i + 1;
            self.mais_tarefa(Tarefa::Reduz(p));
            self.mais_tarefa(Tarefa::Chama("<expressao>".to_owned(), 2));
        } else {
            self.por(acc);
            assert(self@.valores =~= s.valores);
        }
        Passo::Andou
    }
}

// ---- Execucao: tarefas de expressao -----------------------------------------------------

fn ligar_nomes(ks: &Vec<String>, vs: &Vec<Valor>) -> (r: Vec<(String, Valor)>)
    requires
        ks@.len() == vs@.len(),
    ensures
        valor::pares_vistos(r@) == ligados(texto::textos(ks@), valor::vistos(vs@), ks@.len() as int),
{
    let ghost kt = texto::textos(ks@);
    let ghost vt = valor::vistos(vs@);
    let mut m: Vec<(String, Valor)> = Vec::new();
    assert(valor::pares_vistos(m@) =~= Seq::empty());
    let mut i: usize = 0;
    while i < ks.len()
        invariant
            i <= ks@.len(),
            ks@.len() == vs@.len(),
            kt == texto::textos(ks@),
            vt == valor::vistos(vs@),
            valor::pares_vistos(m@) == ligados(kt, vt, i as int),
        decreases ks@.len() - i,
    {
        assert(kt[i as int] == ks@[i as int]@ && vt[i as int] == vs@[i as int]@);
        guardar(&mut m, ks[i].clone(), vs[i].clone());
        i += 1;
    }
    m
}

impl Interpretador {
    fn fazer_mapa(&mut self, ks: Vec<String>) -> (r: Passo)
        ensures
            (final(self)@, r@) == continua_expr(
                old(self)@,
                tarefa::TarefaVista::FazMapa(texto::textos(ks@)),
            ),
    {
        proof {
            reveal(continua_expr);
        }
        assert(texto::textos(ks@).len() == ks@.len());
        match self.tirar_varios(ks.len()) {
            None => Passo::Panico,
            Some(vs) => {
                let m = ligar_nomes(&ks, &vs);
                self.por(Valor::Mapa(m));
                Passo::Andou
            },
        }
    }

    fn atribuir(&mut self, nome: String) -> (r: Passo)
        requires
            old(self)@.ambientes.len() > 0,
        ensures
            (final(self)@, r@) == continua_expr(old(self)@, tarefa::TarefaVista::Atribui(nome@)),
    {
        proof {
            reveal(continua_expr);
        }
        let ghost s = self@;
        let v = match self.tirar() {
            None => return Passo::Panico,
            Some(v) => v,
        };
        let mut a = self.ambiente_aqui();
        if a.atribuir(nome.as_str(), v.clone()) {
            self.trocar_ambiente(a);
            self.por(v);
            assert(self@.valores =~= s.valores);
            Passo::Andou
        } else {
            let mut m = frase("Variavel '", nome.as_str(), "' nao declarada. Use 'var ");
            m.append(nome.as_str());
            m.append(" = ...'");
            self.falhar(m)
        }
    }

    fn atribuir_indice(&mut self, var: Option<String>) -> (r: Passo)
        requires
            old(self)@.ambientes.len() > 0,
        ensures
            (final(self)@, r@) == continua_expr(
                old(self)@,
                tarefa::TarefaVista::AtribuiIndice(tarefa::texto_opcional(var)),
            ),
    {
        proof {
            reveal(continua_expr);
        }
        let ghost s = self@;
        let mut vs = match self.tirar_varios(3) {
            None => return Passo::Panico,
            Some(v) => v,
        };
        let ghost t = topo(s, 3);
        assert(t[0] == vs@[0]@ && t[1] == vs@[1]@ && t[2] == vs@[2]@);
        let val = vs.remove(2);
        let idx = vs.remove(1);
        let obj = vs.remove(0);
        match trocar_item(obj, &idx, val) {
            Feito::Valor(v) => {
                if let Some(nome) = var {
                    let mut a = self.ambiente_aqui();
                    if a.atribuir(nome.as_str(), v.clone()) {
                        self.trocar_ambiente(a);
                    }
                }
                self.por(v);
                Passo::Andou
            },
            f => self.entregar(f),
        }
    }

    fn curto(&mut self, dir: Expressao, ou: bool) -> (r: Passo)
        ensures
            (final(self)@, r@) == continua_expr(
                old(self)@,
                if ou {
                    tarefa::TarefaVista::CurtoOu(dir@)
                } else {
                    tarefa::TarefaVista::CurtoE(dir@)
                },
            ),
    {
        proof {
            reveal(continua_expr);
        }
        let v = match self.tirar() {
            None => return Passo::Panico,
            Some(v) => v,
        };
        if e_verdadeiro(&v) == ou {
            self.por(Valor::Booleano(ou));
            Passo::Andou
        } else {
            self.avaliar_depois(Tarefa::EmBooleano, dir)
        }
    }

    fn chamar_topo(&mut self, nome: String, k: usize) -> (r: Passo)
        requires
            old(self)@.ambientes.len() > 0,
        ensures
            (final(self)@, r@) == continua_expr(old(self)@, tarefa::TarefaVista::Chama(nome@, k as int)),
    {
        proof {
            reveal(continua_expr);
        }
        let ghost s = self@;
        let n = self.valores.len();
        assert(s.valores.len() == n);
        if n <= k {
            return Passo::Panico;
        }
        let args = match self.tirar_varios(k) {
            None => return Passo::Panico,
            Some(a) => a,
        };
        let f = match self.tirar() {
            None => return Passo::Panico,
            Some(f) => f,
        };
        assert(self@.valores =~= sem(s, k + 1).valores);
        self.chamar_valor(nome, f, args)
    }

    fn ligar_com(&mut self, l: Ligacao) -> (r: Passo)
        ensures
            (final(self)@, r@) == continua_expr(old(self)@, tarefa::TarefaVista::LigaCom(l@)),
    {
        proof {
            reveal(continua_expr);
        }
        let ghost lv = l@;
        assert(lv.parametros.len() == l.parametros@.len());
        if self.valores.len() < 1 || l.i >= l.parametros.len() {
            assert(self@.valores.len() == self.valores@.len());
            return Passo::Panico;
        }
        let v = match self.tirar() {
            None => return Passo::Panico,
            Some(v) => v,
        };
        let mut l = l;
        let i = l.i;
        assert(lv.parametros[i as int] == l.parametros@[i as int]@);
        let nome = l.parametros[i].nome.clone();
        let ghost x = v@;
        l.ambiente.definir(nome, v);
        l.i = i + 1;
        assert(l@ == ligado(lv, x));
        self.mais_tarefa(Tarefa::Liga(l));
        Passo::Andou
    }

    fn dois(&mut self, t: Tarefa) -> (r: Passo)
        requires
            t is Binaria || t is Acessa,
        ensures
            (final(self)@, r@) == continua_expr(old(self)@, t@),
    {
        proof {
            reveal(continua_expr);
        }
        let ghost s = self@;
        let vs = match self.tirar_varios(2) {
            None => return Passo::Panico,
            Some(v) => v,
        };
        let ghost tp = topo(s, 2);
        assert(tp[0] == vs@[0]@ && tp[1] == vs@[1]@);
        match t {
            Tarefa::Binaria(op) => self.entregar(aplicar_op(op, &vs[0], &vs[1])),
            _ => self.entregar(acessar(&vs[0], &vs[1])),
        }
    }

    fn um(&mut self, t: Tarefa) -> (r: Passo)
        requires
            t is Unaria || t is EmBooleano || t is AcessaOpcional || t is Coalesce || t is FimSaida,
        ensures
            (final(self)@, r@) == continua_expr(old(self)@, t@),
    {
        proof {
            reveal(continua_expr);
        }
        let ghost s = self@;
        let v = match self.tirar() {
            None => return Passo::Panico,
            Some(v) => v,
        };
        match t {
            Tarefa::Unaria(op) => match op {
                OpUnario::Negativo => self.entregar(negar(&v)),
                OpUnario::Nao => {
                    self.por(Valor::Booleano(!e_verdadeiro(&v)));
                    Passo::Andou
                },
            },
            Tarefa::EmBooleano => {
                self.por(Valor::Booleano(e_verdadeiro(&v)));
                Passo::Andou
            },
            Tarefa::AcessaOpcional(k) => self.entregar(acessar_opcional(&v, k.as_str())),
            Tarefa::Coalesce(dir) => match v {
                Valor::Nulo => {
                    self.mais_tarefa(Tarefa::Avaliar(dir));
                    Passo::Andou
                },
                _ => {
                    self.por(v);
                    assert(self@.valores =~= s.valores);
                    Passo::Andou
                },
            },
            _ => Passo::Pede(Pedido::TerminarSaida),
        }
    }

    fn fazer_lista(&mut self, k: usize) -> (r: Passo)
        ensures
            (final(self)@, r@) == continua_expr(old(self)@, tarefa::TarefaVista::FazLista(k as int)),
    {
        proof {
            reveal(continua_expr);
        }
        match self.tirar_varios(k) {
            None => Passo::Panico,
            Some(vs) => {
                self.por(Valor::Lista(vs));
                Passo::Andou
            },
        }
    }

    fn continuar_expr(&mut self, t: Tarefa) -> (r: Passo)
        requires
            old(self)@.ambientes.len() > 0,
            de_expressao(t@),
        ensures
            (final(self)@, r@) == continua_expr(old(self)@, t@),
    {
        match t {
            Tarefa::FazLista(k) => self.fazer_lista(k),
            Tarefa::FazMapa(ks) => self.fazer_mapa(ks),
            Tarefa::Atribui(nome) => self.atribuir(nome),
            Tarefa::AtribuiIndice(var) => self.atribuir_indice(var),
            Tarefa::CurtoE(dir) => self.curto(dir, false),
            Tarefa::CurtoOu(dir) => self.curto(dir, true),
            Tarefa::Chama(nome, k) => self.chamar_topo(nome, k),
            Tarefa::Liga(l) => {
                proof {
                    reveal(continua_expr);
                }
                self.ligar(l)
            },
            Tarefa::LigaCom(l) => self.ligar_com(l),
            Tarefa::Mapeia(p) => {
                proof {
                    reveal(continua_expr);
                }
                self.percorrer(p, false)
            },
            Tarefa::Filtra(p) => {
                proof {
                    reveal(continua_expr);
                }
                self.percorrer(p, true)
            },
            Tarefa::Reduz(p) => {
                proof {
                    reveal(continua_expr);
                }
                self.reduzir(p)
            },
            Tarefa::Binaria(op) => self.dois(Tarefa::Binaria(op)),
            Tarefa::Acessa => self.dois(Tarefa::Acessa),
            _ => self.um(t),
        }
    }
}

// ---- Execucao: instrucoes ---------------------------------------------------------------

impl Interpretador {
    fn executar_laco(&mut self, x: Instrucao) -> (r: Passo)
        requires
            x is Enquanto || x is Para || x is ParaIntervalo || x is Escolher || x is Tentar || x is Se,
        ensures
            (final(self)@, r@) == executa(old(self)@, x@),
    {
        proof {
            reveal(executa);
        }
        match x {
            Instrucao::Se { condicao, entao, senao } => self.avaliar_depois(Tarefa::Decide(entao, senao), condicao),
            Instrucao::Enquanto { condicao, corpo } => {
                self.mais_tarefa(Tarefa::Enquanto(condicao, corpo));
                Passo::Andou
            },
            Instrucao::Para { variavel, iteravel, corpo } => self.avaliar_depois(
                Tarefa::PreparaPara(variavel, corpo),
                iteravel,
            ),
            Instrucao::ParaIntervalo { variavel, inicio, fim, passo, corpo } => {
                self.mais_tarefa(Tarefa::PreparaIntervalo(variavel, passo.is_some(), corpo));
                if let Some(p) = passo {
                    self.mais_tarefa(Tarefa::Avaliar(p));
                }
                self.mais_tarefa(Tarefa::Avaliar(fim));
                self.mais_tarefa(Tarefa::Avaliar(inicio));
                Passo::Andou
            },
            Instrucao::Escolher { expr, casos, padrao } => self.avaliar_depois(
                Tarefa::Escolhe(Escolha { casos, padrao, caso: 0, item: 0 }),
                expr,
            ),
            Instrucao::Tentar { corpo, capturar, finalmente } => {
                let altura = self.valores.len();
                assert(self@.valores.len() == altura);
                self.mais_tarefa(Tarefa::FimTentar { capturar, finalmente, altura });
                self.mais_tarefa(Tarefa::Bloco(corpo, 0));
                Passo::Andou
            },
            _ => Passo::Panico,
        }
    }

    /// Comeca uma instrucao.
    fn executar_instrucao(&mut self, x: Instrucao) -> (r: Passo)
        requires
            old(self)@.ambientes.len() > 0,
        ensures
            (final(self)@, r@) == executa(old(self)@, x@),
    {
        match &x {
            Instrucao::Enquanto { .. } | Instrucao::Para { .. } | Instrucao::ParaIntervalo { .. }
            | Instrucao::Escolher { .. } | Instrucao::Tentar { .. } | Instrucao::Se { .. } => {
                return self.executar_laco(x);
            },
            _ => {},
        }
        proof {
            reveal(executa);
        }
        match x {
            Instrucao::Localizada { linha, contexto, instrucao } => {
                self.linha_atual = linha;
                self.mais_tarefa(Tarefa::FimLinha { linha, contexto });
                self.mais_tarefa(Tarefa::Executar(*instrucao));
                Passo::Andou
            },
            Instrucao::Expressao(e) => self.avaliar_depois(Tarefa::Descarta, e),
            Instrucao::DeclararVar { nome, valor } => match valor {
                Some(e) => self.avaliar_depois(Tarefa::Declara(nome), e),
                None => {
                    self.definir(nome, Valor::Nulo);
                    Passo::Andou
                },
            },
            Instrucao::Imprimir(args) => {
                self.avaliar_varias(Tarefa::Escreve(args.len()), &args);
                Passo::Andou
            },
            Instrucao::Funcao { nome, parametros, corpo } => {
                let ambiente = self.ambiente_aqui();
                self.definir(nome, Valor::Funcao { parametros, corpo, ambiente });
                Passo::Andou
            },
            Instrucao::Retornar(v) => match v {
                Some(e) => self.avaliar_depois(Tarefa::Devolve, e),
                None => {
                    self.modo = Modo::Sinal(Sinal::Retornar(Valor::Nulo));
                    Passo::Andou
                },
            },
            Instrucao::Pare => {
                self.modo = Modo::Sinal(Sinal::Pare);
                Passo::Andou
            },
            Instrucao::Continue => {
                self.modo = Modo::Sinal(Sinal::Continue);
                Passo::Andou
            },
            Instrucao::Lancar(e) => self.avaliar_depois(Tarefa::Lanca, e),
            Instrucao::Importar { caminho, alias } => Passo::Pede(Pedido::Importar { caminho, alias }),
            Instrucao::Incluir { caminho, obrigatorio } => Passo::Pede(Pedido::Incluir { caminho, obrigatorio }),
            _ => Passo::Panico,
        }
    }
}

fn escrever_textos(v: &Vec<Valor>) -> (r: Vec<String>)
    ensures
        texto::textos(r@) == valor::vistos(v@).map_values(|x: valor::Dado| valor::texto_de(x)),
{
    let mut r: Vec<String> = Vec::new();
    let mut i: usize = 0;
    while i < v.len()
        invariant
            i <= v@.len(),
            r@.len() == i,
            forall|k: int| 0 <= k < i ==> (#[trigger] r@[k])@ == valor::texto_de(v@[k]@),
        decreases v@.len() - i,
    {
        r.push(v[i].texto());
        i += 1;
    }
    assert(texto::textos(r@) =~= valor::vistos(v@).map_values(|x: valor::Dado| valor::texto_de(x)));
    r
}

fn ler_limites(a: &Valor, b: &Valor, c: &Valor) -> (r: Option<(i64, i64, i64)>)
    ensures
        r == limites(a@, b@, c@),
{
    match (a, b, c) {
        (Valor::Inteiro(x), Valor::Inteiro(y), Valor::Inteiro(z)) => Some((*x, *y, *z)),
        (Valor::Numero(x), Valor::Numero(y), Valor::Numero(z)) => Some(
            (decimal::para_inteiro(x.bits), decimal::para_inteiro(y.bits), decimal::para_inteiro(z.bits)),
        ),
        (Valor::Inteiro(x), Valor::Numero(y), Valor::Inteiro(z)) => Some((*x, decimal::para_inteiro(y.bits), *z)),
        (Valor::Numero(x), Valor::Inteiro(y), Valor::Inteiro(z)) => Some((decimal::para_inteiro(x.bits), *y, *z)),
        _ => None,
    }
}

fn somar_limitado(a: i64, b: i64) -> (r: i64)
    ensures
        r == soma_limitada(a, b),
{
    let s = a as i128 + b as i128;
    if s < i64::MIN as i128 {
        i64::MIN
    } else if s > i64::MAX as i128 {
        i64::MAX
    } else {
        s as i64
    }
}

fn listar_itens(v: Valor) -> (r: Option<Vec<Valor>>)
    ensures
        match r {
            Some(l) => itens_de(v@) == Some(valor::vistos(l@)),
            None => itens_de(v@) is None,
        },
{
    match v {
        Valor::Lista(l) => Some(l),
        Valor::Texto(t) => {
            let cs = texto::caracteres(t.as_str());
            let mut r: Vec<Valor> = Vec::new();
            let mut i: usize = 0;
            while i < cs.len()
                invariant
                    i <= cs@.len(),
                    r@.len() == i,
                    forall|k: int| 0 <= k < i ==> (#[trigger] r@[k])@ == valor::Dado::Texto(seq![cs@[k]]),
                decreases cs@.len() - i,
            {
                r.push(Valor::Texto(uma_letra(cs[i])));
                i += 1;
            }
            assert(valor::vistos(r@) =~= t@.map_values(|c: char| valor::Dado::Texto(seq![c])));
            Some(r)
        },
        _ => None,
    }
}

fn capturar_pilha(cs: &Vec<(String, usize)>, linha: usize) -> (r: Vec<String>)
    ensures
        texto::textos(r@) == rasto(chamadas_vistas(cs@), linha),
{
    let ghost v = chamadas_vistas(cs@);
    let mut r: Vec<String> = Vec::new();
    assert(texto::textos(r@) =~= Seq::<Seq<char>>::empty());
    let mut i: usize = cs.len();
    let mut l: usize = linha;
    assert(v.take(i as int) =~= v);
    assert(rasto(v, linha) =~= texto::textos(r@) + rasto(v.take(i as int), l));
    while i > 0
        invariant
            i <= cs@.len(),
            v == chamadas_vistas(cs@),
            rasto(v, linha) == texto::textos(r@) + rasto(v.take(i as int), l),
        decreases i,
    {
        let ghost w = v.take(i as int);
        assert(w.last() == (cs@[i - 1].0@, cs@[i - 1].1));
        assert(w.drop_last() =~= v.take(i - 1));
        let t = if l > 0 {
            let n = texto::natural(l as u64);
            let mut s = frase(cs[i - 1].0.as_str(), " (linha ", n.as_str());
            s.append(")");
            s
        } else {
            cs[i - 1].0.clone()
        };
        let ghost antes = r@;
        let ghost tv = t@;
        r.push(t);
        assert(texto::textos(r@) =~= texto::textos(antes).push(tv));
        assert(texto::textos(antes) + (seq![tv] + rasto(v.take(i - 1), cs@[i - 1].1)) =~= texto::textos(r@) + rasto(
            v.take(i - 1),
            cs@[i - 1].1,
        ));
        l = cs[i - 1].1;
        i -= 1;
    }
    assert(v.take(0) =~= Seq::empty());
    assert(rasto(v, linha) =~= texto::textos(r@));
    r
}

impl Interpretador {
    fn seguir_bloco(&mut self, b: Vec<Instrucao>, i: usize) -> (r: Passo)
        ensures
            (final(self)@, r@) == continua_instr(
                old(self)@,
                tarefa::TarefaVista::Bloco(ast::instrs(b@), i as int),
            ),
    {
        proof {
            reveal(continua_instr);
        }
        assert(ast::instrs(b@).len() == b@.len());
        if i < b.len() {
            assert(ast::instrs(b@)[i as int] == b@[i as int]@);
            let x = b[i].clone();
            self.mais_tarefa(Tarefa::Bloco(b, i + 1));
            self.mais_tarefa(Tarefa::Executar(x));
        }
        Passo::Andou
    }

    fn escrever(&mut self, k: usize) -> (r: Passo)
        ensures
            (final(self)@, r@) == continua_instr(old(self)@, tarefa::TarefaVista::Escreve(k as int)),
    {
        proof {
            reveal(continua_instr);
        }
        match self.tirar_varios(k) {
            None => Passo::Panico,
            Some(vs) => {
                let ts = escrever_textos(&vs);
                let mut s = busca::juntar(&ts, " ");
                s.append("\n");
                Passo::Pede(Pedido::Escrever(s))
            },
        }
    }

    fn seguir_enquanto(&mut self, c: Expressao, b: Vec<Instrucao>) -> (r: Passo)
        ensures
            (final(self)@, r@) == continua_instr(
                old(self)@,
                tarefa::TarefaVista::Enquanto(c@, ast::instrs(b@)),
            ),
    {
        proof {
            reveal(continua_instr);
        }
        if self.contador_ops == u64::MAX {
            return Passo::Panico;
        }
        self.contador_ops = self.contador_ops + 1;
        if self.limite_ops > 0 && self.contador_ops > self.limite_ops {
            let n = texto::natural(self.limite_ops);
            let s = frase(
                "Limite de ",
                n.as_str(),
                " operacoes excedido. Possivel loop infinito. Use PEP_MAX_OPS para ajustar.",
            );
            return self.falhar(s);
        }
        let cond = c.clone();
        self.avaliar_depois(Tarefa::Testa(c, b), cond)
    }

    fn seguir_para(&mut self, variavel: String, itens: Vec<Valor>, i: usize, corpo: Vec<Instrucao>) -> (r: Passo)
        requires
            old(self)@.ambientes.len() > 0,
        ensures
            (final(self)@, r@) == continua_instr(
                old(self)@,
                tarefa::TarefaVista::Para {
                    variavel: variavel@,
                    itens: valor::vistos(itens@),
                    i: i as int,
                    corpo: ast::instrs(corpo@),
                },
            ),
    {
        proof {
            reveal(continua_instr);
        }
        assert(valor::vistos(itens@).len() == itens@.len());
        if i < itens.len() {
            assert(valor::vistos(itens@)[i as int] == itens@[i as int]@);
            self.definir(variavel.clone(), itens[i].clone());
            let bloco = copiar_instrs(&corpo);
            self.mais_tarefa(Tarefa::Para { variavel, itens, i: i + 1, corpo });
            self.mais_tarefa(Tarefa::Bloco(bloco, 0));
        }
        Passo::Andou
    }

    fn preparar_intervalo(&mut self, variavel: String, tem_passo: bool, corpo: Vec<Instrucao>) -> (r: Passo)
        ensures
            (final(self)@, r@) == continua_instr(
                old(self)@,
                tarefa::TarefaVista::PreparaIntervalo(variavel@, tem_passo, ast::instrs(corpo@)),
            ),
    {
        proof {
            reveal(continua_instr);
        }
        let ghost s = self@;
        let k: usize = if tem_passo {
            3
        } else {
            2
        };
        let vs = match self.tirar_varios(k) {
            None => return Passo::Panico,
            Some(v) => v,
        };
        let ghost tp = topo(s, k as int);
        assert(tp[0] == vs@[0]@ && tp[1] == vs@[1]@);
        let p = if tem_passo {
            assert(tp[2] == vs@[2]@);
            vs[2].clone()
        } else {
            Valor::Inteiro(1)
        };
        match ler_limites(&vs[0], &vs[1], &p) {
            None => self.falhar("'para de ate' requer numeros inteiros".to_owned()),
            Some((x, y, z)) => if z == 0 {
                self.falhar("passo nao pode ser zero".to_owned())
            } else {
                self.mais_tarefa(Tarefa::Intervalo { variavel, atual: x, fim: y, passo: z, corpo });
                Passo::Andou
            },
        }
    }

    fn seguir_intervalo(&mut self, variavel: String, atual: i64, fim: i64, passo: i64, corpo: Vec<Instrucao>) -> (r:
        Passo)
        requires
            old(self)@.ambientes.len() > 0,
        ensures
            (final(self)@, r@) == continua_instr(
                old(self)@,
                tarefa::TarefaVista::Intervalo { variavel: variavel@, atual, fim, passo, corpo: ast::instrs(corpo@) },
            ),
    {
        proof {
            reveal(continua_instr);
        }
        if self.contador_ops == u64::MAX {
            return Passo::Panico;
        }
        self.contador_ops = self.contador_ops + 1;
        if self.limite_ops > 0 && self.contador_ops > self.limite_ops {
            let n = texto::natural(self.limite_ops);
            return self.falhar(frase("Limite de ", n.as_str(), " operacoes excedido."));
        }
        if (passo > 0 && atual <= fim) || (passo <= 0 && atual >= fim) {
            self.definir(variavel.clone(), Valor::Inteiro(atual));
            let bloco = copiar_instrs(&corpo);
            self.mais_tarefa(
                Tarefa::Intervalo { variavel, atual: somar_limitado(atual, passo), fim, passo, corpo },
            );
            self.mais_tarefa(Tarefa::Bloco(bloco, 0));
        }
        Passo::Andou
    }

    fn escolher(&mut self, x: Escolha) -> (r: Passo)
        ensures
            (final(self)@, r@) == continua_instr(old(self)@, tarefa::TarefaVista::Escolhe(x@)),
    {
        proof {
            reveal(continua_instr);
        }
        let ghost xv = x@;
        let ghost s = self@;
        assert(xv.casos.len() == x.casos@.len());
        assert(s.valores.len() == self.valores@.len());
        if self.valores.len() < 1 {
            return Passo::Panico;
        }
        let mut x = x;
        if x.caso >= x.casos.len() {
            let _v = self.tirar();
            if let Some(b) = x.padrao {
                self.mais_tarefa(Tarefa::Bloco(b, 0));
            }
            return Passo::Andou;
        }
        assert(xv.casos[x.caso as int] == (
            ast::exprs(x.casos@[x.caso as int].0@),
            ast::instrs(x.casos@[x.caso as int].1@),
        ));
        if x.item >= x.casos[x.caso].0.len() {
            x.caso = x.caso + 1;
            x.item = 0;
            self.mais_tarefa(Tarefa::Escolhe(x));
            return Passo::Andou;
        }
        let e = x.casos[x.caso].0[x.item].clone();
        self.avaliar_depois(Tarefa::Compara(x), e)
    }

    fn comparar_caso(&mut self, x: Escolha) -> (r: Passo)
        ensures
            (final(self)@, r@) == continua_instr(old(self)@, tarefa::TarefaVista::Compara(x@)),
    {
        proof {
            reveal(continua_instr);
        }
        let ghost xv = x@;
        let ghost s = self@;
        assert(xv.casos.len() == x.casos@.len());
        assert(s.valores.len() == self.valores@.len());
        let n = self.valores.len();
        if n < 2 || x.caso >= x.casos.len() {
            return Passo::Panico;
        }
        assert(xv.casos[x.caso as int].0.len() == x.casos@[x.caso as int].0@.len());
        if x.item >= x.casos[x.caso].0.len() {
            return Passo::Panico;
        }
        assert(s.valores[n - 2] == self.valores@[n - 2]@ && s.valores[n - 1] == self.valores@[n - 1]@);
        let iguais = self.valores[n - 2].igual(&self.valores[n - 1]);
        let mut x = x;
        let _v = self.tirar();
        if iguais {
            let _w = self.tirar();
            assert(self@.valores =~= sem(s, 2).valores);
            assert(xv.casos[x.caso as int].1 == ast::instrs(x.casos@[x.caso as int].1@));
            let b = copiar_instrs(&x.casos[x.caso].1);
            self.mais_tarefa(Tarefa::Bloco(b, 0));
        } else {
            x.item = x.item + 1;
            self.mais_tarefa(Tarefa::Escolhe(x));
        }
        Passo::Andou
    }

    fn lancar(&mut self) -> (r: Passo)
        ensures
            (final(self)@, r@) == continua_instr(old(self)@, tarefa::TarefaVista::Lanca),
    {
        proof {
            reveal(continua_instr);
        }
        let v = match self.tirar() {
            None => return Passo::Panico,
            Some(v) => v,
        };
        let pilha = capturar_pilha(&self.pilha_chamadas, self.linha_atual);
        let (tipo, mensagem) = match v {
            Valor::Erro { tipo, mensagem, .. } => (tipo, mensagem),
            _ => ("Erro".to_owned(), v.texto()),
        };
        let m = mensagem.clone();
        self.erro_usuario = Some(Valor::Erro { tipo, mensagem, pilha });
        self.falhar(m)
    }

    fn finalizar(&mut self, fin: Option<Vec<Instrucao>>, altura: usize)
        ensures
            final(self)@ == finaliza(old(self)@, tarefa::bloco_opcional(fin), altura as int),
    {
        if let Some(b) = fin {
            let mut m = Modo::Anda;
            std::mem::swap(&mut self.modo, &mut m);
            self.mais_tarefa(Tarefa::Restaura { modo: m, altura });
            self.mais_tarefa(Tarefa::Bloco(b, 0));
        }
    }

    fn sair_da_chamada(&mut self) -> (r: bool)
        ensures
            r == (old(self)@.ambientes.len() >= 2 && old(self)@.chamadas.len() >= 1),
            r ==> final(self)@ == sai_da_chamada(old(self)@),
            !r ==> final(self)@ == old(self)@,
    {
        let ghost s = self@;
        assert(s.ambientes.len() == self.ambientes@.len() && s.chamadas.len() == self.pilha_chamadas@.len());
        if self.ambientes.len() < 2 || self.pilha_chamadas.len() < 1 {
            return false;
        }
        let _a = self.ambientes.pop();
        let _c = self.pilha_chamadas.pop();
        assert(self@.ambientes =~= s.ambientes.drop_last());
        assert(self@.chamadas =~= s.chamadas.drop_last());
        true
    }

    fn terminar_chamada(&mut self, v: Valor) -> (r: Passo)
        ensures
            (final(self)@, r@) == fim_da_chamada(old(self)@, v@),
    {
        if !self.sair_da_chamada() {
            return Passo::Panico;
        }
        self.modo = Modo::Anda;
        self.por(v);
        Passo::Andou
    }

    fn sair_do_diretorio(&mut self)
        ensures
            final(self)@ == sem_diretorio(old(self)@),
    {
        let ghost s = self@;
        assert(s.diretorios.len() == self.diretorios@.len());
        let _d = self.diretorios.pop();
        proof {
            if s.diretorios.len() > 0 {
                assert(self@.diretorios =~= s.diretorios.drop_last());
            } else {
                assert(self@.diretorios =~= s.diretorios);
            }
        }
    }

    fn importar(&mut self, alias: Option<String>, m: Vec<(String, Valor)>)
        requires
            old(self)@.ambientes.len() > 0,
        ensures
            final(self)@ == importa(old(self)@, tarefa::texto_opcional(alias), valor::pares_vistos(m@)),
    {
        match alias {
            Some(a) => self.definir(a, Valor::Mapa(m)),
            None => {
                let mut e = self.ambiente_aqui();
                let ghost e0 = e@;
                let ghost p = valor::pares_vistos(m@);
                let mut i: usize = 0;
                while i < m.len()
                    invariant
                        i <= m@.len(),
                        p == valor::pares_vistos(m@),
                        e@ == com_nomes(e0, p, i as int),
                    decreases m@.len() - i,
                {
                    assert(p[i as int] == (m@[i as int].0@, m@[i as int].1@));
                    e.definir(m[i].0.clone(), m[i].1.clone());
                    i += 1;
                }
                assert(p.len() == m@.len());
                self.trocar_ambiente(e);
            },
        }
    }

    fn terminar_modulo(&mut self, chave: String, alias: Option<String>) -> (r: Passo)
        ensures
            (final(self)@, r@) == fim_do_modulo(old(self)@, chave@, tarefa::texto_opcional(alias)),
    {
        let ghost s = self@;
        let n = self.ambientes.len();
        assert(s.ambientes.len() == n);
        if n < 2 {
            return Passo::Panico;
        }
        assert(s.ambientes[n - 1] == self.ambientes@[n - 1]@);
        let mut e = match self.ambientes.pop() {
            Some(e) => e,
            None => return Passo::Panico,
        };
        assert(self@.ambientes =~= s.ambientes.drop_last());
        e.capturar_funcoes();
        let m = e.exportar_publicas();
        let ghost mv = valor::pares_vistos(m@);
        assert(mv == mostra(aqui(s)));
        let copia = copiar_pares(&m);
        let ghost ms = self.modulos@;
        let ghost cv = chave@;
        self.modulos.push((chave, copia));
        assert(modulos_vistos(self.modulos@) =~= modulos_vistos(ms).push((cv, mv)));
        self.modo = Modo::Anda;
        self.sair_do_diretorio();
        self.importar(alias, m);
        Passo::Andou
    }

    fn simples(&mut self, t: Tarefa) -> (r: Passo)
        requires
            old(self)@.ambientes.len() > 0,
            t is Descarta || t is Declara || t is Decide || t is Testa || t is PreparaPara || t is Devolve,
        ensures
            (final(self)@, r@) == continua_instr(old(self)@, t@),
    {
        proof {
            reveal(continua_instr);
        }
        let v = match self.tirar() {
            None => return Passo::Panico,
            Some(v) => v,
        };
        match t {
            Tarefa::Descarta => Passo::Andou,
            Tarefa::Declara(nome) => {
                self.definir(nome, v);
                Passo::Andou
            },
            Tarefa::Decide(entao, senao) => {
                if e_verdadeiro(&v) {
                    self.mais_tarefa(Tarefa::Bloco(entao, 0));
                } else if let Some(b) = senao {
                    self.mais_tarefa(Tarefa::Bloco(b, 0));
                }
                Passo::Andou
            },
            Tarefa::Testa(c, b) => {
                if e_verdadeiro(&v) {
                    let bloco = copiar_instrs(&b);
                    self.mais_tarefa(Tarefa::Enquanto(c, b));
                    self.mais_tarefa(Tarefa::Bloco(bloco, 0));
                }
                Passo::Andou
            },
            Tarefa::PreparaPara(variavel, corpo) => match listar_itens(v) {
                Some(itens) => {
                    self.mais_tarefa(Tarefa::Para { variavel, itens, i: 0, corpo });
                    Passo::Andou
                },
                None => self.falhar("'para...em' requer uma lista ou texto".to_owned()),
            },
            _ => {
                self.modo = Modo::Sinal(Sinal::Retornar(v));
                Passo::Andou
            },
        }
    }

    fn encerrar(&mut self, t: Tarefa) -> (r: Passo)
        requires
            t is FimTentar || t is FimCaptura || t is Restaura || t is FimLinha || t is FimChamada || t is FimModulo
                || t is FimInclusao,
        ensures
            (final(self)@, r@) == continua_instr(old(self)@, t@),
    {
        proof {
            reveal(continua_instr);
        }
        match t {
            Tarefa::FimTentar { finalmente, altura, .. } => {
                self.erro_usuario = None;
                self.finalizar(finalmente, altura);
                Passo::Andou
            },
            Tarefa::FimCaptura { finalmente, altura } => {
                self.finalizar(finalmente, altura);
                Passo::Andou
            },
            Tarefa::Restaura { modo, altura } => {
                self.cortar(altura);
                self.modo = modo;
                Passo::Andou
            },
            Tarefa::FimChamada => self.terminar_chamada(Valor::Nulo),
            Tarefa::FimModulo { chave, alias } => self.terminar_modulo(chave, alias),
            Tarefa::FimInclusao => {
                self.sair_do_diretorio();
                Passo::Andou
            },
            _ => Passo::Andou,
        }
    }

    fn continuar_instr(&mut self, t: Tarefa) -> (r: Passo)
        requires
            old(self)@.ambientes.len() > 0,
            !de_expressao(t@),
            !(t is Avaliar || t is Executar),
        ensures
            (final(self)@, r@) == continua_instr(old(self)@, t@),
    {
        match t {
            Tarefa::Bloco(b, i) => self.seguir_bloco(b, i),
            Tarefa::Escreve(k) => self.escrever(k),
            Tarefa::Enquanto(c, b) => self.seguir_enquanto(c, b),
            Tarefa::Para { variavel, itens, i, corpo } => self.seguir_para(variavel, itens, i, corpo),
            Tarefa::PreparaIntervalo(v, p, b) => self.preparar_intervalo(v, p, b),
            Tarefa::Intervalo { variavel, atual, fim, passo, corpo } => self.seguir_intervalo(
                variavel,
                atual,
                fim,
                passo,
                corpo,
            ),
            Tarefa::Escolhe(x) => self.escolher(x),
            Tarefa::Compara(x) => self.comparar_caso(x),
            Tarefa::Lanca => self.lancar(),
            Tarefa::Descarta | Tarefa::Declara(_) | Tarefa::Decide(_, _) | Tarefa::Testa(_, _)
            | Tarefa::PreparaPara(_, _) | Tarefa::Devolve => self.simples(t),
            _ => self.encerrar(t),
        }
    }
}

// ---- Execucao: sinais, falhas e passos --------------------------------------------------

fn por_linha(m: String, linha: usize, contexto: String) -> (r: String)
    ensures
        r@ == com_linha(m@, linha, contexto@),
{
    let v = texto::caracteres(m.as_str());
    let p = texto::caracteres("Erro na linha ");
    if busca::comeca_com(&v, &p) {
        m
    } else {
        let n = texto::natural(linha as u64);
        let mut s = frase("Erro na linha ", n.as_str(), ": ");
        s.append(m.as_str());
        s.append("\n  -> ");
        let c = busca::aparar_texto(contexto.as_str());
        s.append(c.as_str());
        s
    }
}

fn limpar_mensagem(m: &String) -> (r: String)
    ensures
        r@ == mensagem_limpa(m@),
{
    let v = texto::caracteres(m.as_str());
    let f = texto::achar(&v, '\n', 0);
    let l = vstd::slice::slice_subrange(&v, 0, f);
    assert(l@ =~= m@.take(f as int));
    let p = texto::caracteres("Erro na linha ");
    if busca::comeca_com(l, &p) {
        let dois_pontos = texto::caracteres(": ");
        proof {
            reveal_strlit(": ");
        }
        if let Some(i) = busca::achar_texto(l, &dois_pontos, 0) {
            let resto = vstd::slice::slice_subrange(l, i + 2, f);
            assert(resto@ =~= l@.skip(i + 2));
            return texto::de_caracteres(resto);
        }
    }
    texto::de_caracteres(l)
}

fn criar_erro(m: &String, linha: usize) -> (r: Valor)
    ensures
        r@ == erro_da_falha(m@, linha),
{
    let mensagem = limpar_mensagem(m);
    let mut pilha: Vec<String> = Vec::new();
    if linha > 0 {
        let n = texto::natural(linha as u64);
        pilha.push(frase("(linha ", n.as_str(), ")"));
        assert(texto::textos(pilha@) =~= seq!["(linha "@ + texto::decimal(linha as nat) + ")"@]);
    } else {
        assert(texto::textos(pilha@) =~= Seq::<Seq<char>>::empty());
    }
    Valor::Erro { tipo: "Erro".to_owned(), mensagem, pilha }
}

impl Interpretador {
    fn subir_sinal(&mut self, t: Tarefa, Ghost(x): Ghost<tarefa::SinalVisto>) -> (r: Passo)
        requires
            old(self)@.modo == tarefa::ModoVisto::Sinal(x),
        ensures
            (final(self)@, r@) == com_sinal(old(self)@, t@, x),
    {
        match t {
            Tarefa::Enquanto(_, _) | Tarefa::Para { .. } | Tarefa::Intervalo { .. } => {
                match &self.modo {
                    Modo::Sinal(Sinal::Pare) => {
                        self.modo = Modo::Anda;
                    },
                    Modo::Sinal(Sinal::Continue) => {
                        self.modo = Modo::Anda;
                        self.mais_tarefa(t);
                    },
                    _ => {},
                }
                Passo::Andou
            },
            Tarefa::FimTentar { finalmente, altura, .. } => {
                self.erro_usuario = None;
                self.finalizar(finalmente, altura);
                Passo::Andou
            },
            Tarefa::FimCaptura { finalmente, altura } => {
                self.finalizar(finalmente, altura);
                Passo::Andou
            },
            Tarefa::Restaura { modo, altura } => {
                self.cortar(altura);
                self.modo = modo;
                Passo::Andou
            },
            Tarefa::FimChamada => {
                if !self.sair_da_chamada() {
                    return Passo::Panico;
                }
                let mut m = Modo::Anda;
                std::mem::swap(&mut self.modo, &mut m);
                let v = match m {
                    Modo::Sinal(Sinal::Retornar(v)) => v,
                    _ => Valor::Nulo,
                };
                self.por(v);
                Passo::Andou
            },
            Tarefa::FimModulo { chave, alias } => self.terminar_modulo(chave, alias),
            Tarefa::FimInclusao => {
                self.modo = Modo::Anda;
                self.sair_do_diretorio();
                Passo::Andou
            },
            _ => Passo::Andou,
        }
    }

    fn falhar_tentar(
        &mut self,
        capturar: Option<(String, Vec<Instrucao>)>,
        finalmente: Option<Vec<Instrucao>>,
        altura: usize,
        Ghost(m): Ghost<Seq<char>>,
    ) -> (r: Passo)
        requires
            old(self)@.modo == tarefa::ModoVisto::Falha(m),
            old(self)@.ambientes.len() > 0,
        ensures
            (final(self)@, r@) == com_falha(
                old(self)@,
                (Tarefa::FimTentar { capturar, finalmente, altura })@,
                m,
            ),
    {
        let mut erro: Option<Valor> = None;
        std::mem::swap(&mut self.erro_usuario, &mut erro);
        let e = match erro {
            Some(v) => v,
            None => match &self.modo {
                Modo::Falha(m) => criar_erro(m, self.linha_atual),
                _ => Valor::Nulo,
            },
        };
        match capturar {
            Some((nome, b)) => {
                self.modo = Modo::Anda;
                self.cortar(altura);
                self.definir(nome, e);
                self.mais_tarefa(Tarefa::FimCaptura { finalmente, altura });
                self.mais_tarefa(Tarefa::Bloco(b, 0));
            },
            None => {
                self.erro_usuario = Some(e);
                self.cortar(altura);
                self.finalizar(finalmente, altura);
            },
        }
        Passo::Andou
    }

    fn subir_falha(&mut self, t: Tarefa, Ghost(m): Ghost<Seq<char>>) -> (r: Passo)
        requires
            old(self)@.modo == tarefa::ModoVisto::Falha(m),
            old(self)@.ambientes.len() > 0,
        ensures
            (final(self)@, r@) == com_falha(old(self)@, t@, m),
    {
        let ghost s = self@;
        match t {
            Tarefa::FimLinha { linha, contexto } => {
                let mut x = Modo::Anda;
                std::mem::swap(&mut self.modo, &mut x);
                if let Modo::Falha(m) = x {
                    self.modo = Modo::Falha(por_linha(m, linha, contexto));
                }
                Passo::Andou
            },
            Tarefa::FimTentar { capturar, finalmente, altura } => self.falhar_tentar(
                capturar,
                finalmente,
                altura,
                Ghost(m),
            ),
            Tarefa::FimCaptura { finalmente, altura } => {
                self.finalizar(finalmente, altura);
                Passo::Andou
            },
            Tarefa::Restaura { modo, altura } => {
                self.cortar(altura);
                self.modo = modo;
                Passo::Andou
            },
            Tarefa::FimChamada => {
                if self.sair_da_chamada() {
                    Passo::Andou
                } else {
                    Passo::Panico
                }
            },
            Tarefa::FimModulo { .. } => {
                assert(s.ambientes.len() == self.ambientes@.len());
                if self.ambientes.len() < 2 {
                    return Passo::Panico;
                }
                let _e = self.ambientes.pop();
                assert(self@.ambientes =~= s.ambientes.drop_last());
                self.sair_do_diretorio();
                Passo::Andou
            },
            Tarefa::FimInclusao => {
                self.sair_do_diretorio();
                Passo::Andou
            },
            Tarefa::FimSaida => Passo::Pede(Pedido::TerminarSaida),
            _ => Passo::Andou,
        }
    }

    fn terminar(&mut self) -> (r: Passo)
        ensures
            (final(self)@, r@) == termina(old(self)@),
    {
        assert(self@.ambientes.len() == self.ambientes@.len());
        if self.ambientes.len() > 0 {
            assert(self@.ambientes[0] == self.ambientes@[0]@);
            self.ambiente = self.ambientes[0].copia();
        }
        match &self.modo {
            Modo::Falha(m) => Passo::Falhou(m.clone()),
            Modo::Sinal(Sinal::Retornar(v)) => Passo::Terminou(v.clone()),
            _ => Passo::Terminou(Valor::Nulo),
        }
    }

    /// Um passo.
    pub fn avancar(&mut self) -> (r: Passo)
        ensures
            (final(self)@, r@) == anda(old(self)@),
    {
        proof {
            reveal(anda);
        }
        let ghost s = self@;
        assert(s.ambientes.len() == self.ambientes@.len() && s.tarefas.len() == self.tarefas@.len());
        let n = self.tarefas.len();
        if n == 0 {
            return self.terminar();
        }
        if self.ambientes.len() == 0 {
            return Passo::Panico;
        }
        assert(s.tarefas[n - 1] == self.tarefas@[n - 1]@);
        let t = match self.tarefas.pop() {
            Some(t) => t,
            None => return Passo::Panico,
        };
        assert(self@.tarefas =~= s.tarefas.drop_last());
        match &self.modo {
            Modo::Anda => match t {
                Tarefa::Avaliar(e) => self.avaliar(e),
                Tarefa::Executar(x) => self.executar_instrucao(x),
                Tarefa::FazLista(_) | Tarefa::FazMapa(_) | Tarefa::Atribui(_) | Tarefa::AtribuiIndice(_)
                | Tarefa::Unaria(_) | Tarefa::Binaria(_) | Tarefa::CurtoE(_) | Tarefa::CurtoOu(_)
                | Tarefa::EmBooleano | Tarefa::Chama(_, _) | Tarefa::Liga(_) | Tarefa::LigaCom(_) | Tarefa::Acessa
                | Tarefa::AcessaOpcional(_) | Tarefa::Coalesce(_) | Tarefa::Mapeia(_) | Tarefa::Filtra(_)
                | Tarefa::Reduz(_) | Tarefa::FimSaida => self.continuar_expr(t),
                _ => self.continuar_instr(t),
            },
            Modo::Sinal(x) => {
                let ghost xv = x@;
                self.subir_sinal(t, Ghost(xv))
            },
            Modo::Falha(m) => {
                let ghost mv = m@;
                self.subir_falha(t, Ghost(mv))
            },
        }
    }

    /// Ate `k` passos, enquanto o interpretador anda.
    pub fn correr(&mut self, k: u64) -> (r: Passo)
        ensures
            (final(self)@, r@) == corre(old(self)@, k as int),
    {
        let ghost s = self@;
        let mut i: u64 = k;
        while i > 0
            invariant
                i <= k,
                s == old(self)@,
                corre(s, k as int) == corre(self@, i as int),
            decreases i,
        {
            let p = self.avancar();
            match p {
                Passo::Andou => {},
                _ => return p,
            }
            i -= 1;
        }
        Passo::Andou
    }
}

// ---- Respostas --------------------------------------------------------------------------

/// O que se achou de um arquivo a executar.
#[derive(Debug)]
pub enum Arquivo {
    /// O arquivo nao existe.
    Ausente,
    /// Nao se chegou ao arquivo.
    Falha(String),
    /// O caminho completo do arquivo, o seu diretorio e o seu programa.
    Achado { chave: String, diretorio: String, programa: Result<Vec<Instrucao>, String> },
}

/// O que um arquivo achado representa.
pub ghost enum ArquivoVisto {
    Ausente,
    Falha(Seq<char>),
    Achado { chave: Seq<char>, diretorio: Seq<char>, programa: Result<Seq<ast::ArvoreInstr>, Seq<char>> },
}

/// A resposta a um pedido.
#[derive(Debug)]
pub enum Resposta {
    /// Um numero com ponto.
    Numero(Decimal),
    /// O que uma funcao nativa deu.
    Valor(Result<Valor, String>),
    /// Os numeros que uma conta deu.
    Numeros(Vec<Decimal>),
    /// O que foi guardado da saida.
    Texto(String),
    /// Um arquivo.
    Arquivo(Arquivo),
    /// Foi feito.
    Feito,
}

/// O que uma resposta representa.
pub ghost enum RespostaVista {
    Numero(u64, Seq<char>),
    Valor(Result<valor::Dado, Seq<char>>),
    Numeros(Seq<(u64, Seq<char>)>),
    Texto(Seq<char>),
    Arquivo(ArquivoVisto),
    Feito,
}

impl Arquivo {
    pub open spec fn view(&self) -> ArquivoVisto {
        match self {
            Arquivo::Ausente => ArquivoVisto::Ausente,
            Arquivo::Falha(m) => ArquivoVisto::Falha(m@),
            Arquivo::Achado { chave, diretorio, programa } => ArquivoVisto::Achado {
                chave: chave@,
                diretorio: diretorio@,
                programa: match programa {
                    Ok(p) => Ok(ast::instrs(p@)),
                    Err(m) => Err(m@),
                },
            },
        }
    }
}

impl Resposta {
    pub open spec fn view(&self) -> RespostaVista {
        match self {
            Resposta::Numero(d) => RespostaVista::Numero(d.bits, d.texto@),
            Resposta::Valor(r) => RespostaVista::Valor(
                match r {
                    Ok(v) => Ok(v@),
                    Err(m) => Err(m@),
                },
            ),
            Resposta::Numeros(d) => RespostaVista::Numeros(vm::numeros(d@)),
            Resposta::Texto(t) => RespostaVista::Texto(t@),
            Resposta::Arquivo(a) => RespostaVista::Arquivo(a@),
            Resposta::Feito => RespostaVista::Feito,
        }
    }
}

/// O que um modulo ja executado mostra; nada se ainda nao foi executado.
pub open spec fn modulo_de(ms: Seq<(Seq<char>, valor::Escopo)>, chave: Seq<char>) -> Option<valor::Escopo>
    decreases ms.len(),
{
    if ms.len() == 0 {
        None
    } else if ms.last().0 == chave {
        Some(ms.last().1)
    } else {
        modulo_de(ms.drop_last(), chave)
    }
}

/// Um arquivo que se importa: uma so vez por caminho.
pub open spec fn com_modulo(s: Estado, caminho: Seq<char>, alias: Option<Seq<char>>, a: ArquivoVisto) -> Depois {
    match a {
        ArquivoVisto::Ausente => (s, PassoVisto::Panico),
        ArquivoVisto::Falha(m) => andou(falha(s, m)),
        ArquivoVisto::Achado { chave, diretorio, programa } => match modulo_de(s.modulos, chave) {
            Some(m) => andou(importa(s, alias, m)),
            None => match programa {
                Err(m) => andou(falha(s, m)),
                Ok(p) => {
                    let s1 = Estado {
                        diretorios: s.diretorios.push(diretorio),
                        ambientes: s.ambientes.push(ambiente::inicial()),
                        ..s
                    };
                    andou(
                        mais(
                            mais(s1, tarefa::TarefaVista::FimModulo { chave, alias }),
                            tarefa::TarefaVista::Bloco(p, 0),
                        ),
                    )
                },
            },
        },
    }
}

/// Um arquivo que se inclui: uma so vez por caminho.
pub open spec fn com_inclusao(s: Estado, caminho: Seq<char>, obrigatorio: bool, a: ArquivoVisto) -> Depois {
    match a {
        ArquivoVisto::Ausente => if obrigatorio {
            andou(falha(s, "requerer '"@ + caminho + "': arquivo nao encontrado"@))
        } else {
            andou(s)
        },
        ArquivoVisto::Falha(m) => andou(falha(s, m)),
        ArquivoVisto::Achado { chave, diretorio, programa } => if s.incluidos.contains(chave) {
            andou(s)
        } else {
            let s1 = Estado { incluidos: s.incluidos.push(chave), ..s };
            match programa {
                Err(m) => andou(falha(s1, m)),
                Ok(p) => andou(
                    mais(
                        mais(
                            Estado { diretorios: s1.diretorios.push(diretorio), ..s1 },
                            tarefa::TarefaVista::FimInclusao,
                        ),
                        tarefa::TarefaVista::Bloco(p, 0),
                    ),
                ),
            }
        },
    }
}

/// Como o interpretador segue com a resposta a um pedido. Uma resposta de outro tipo nao serve.
pub open spec fn responde(s: Estado, p: PedidoVisto, r: RespostaVista) -> Depois {
    match (p, r) {
        (PedidoVisto::Numero(_), RespostaVista::Numero(b, t)) | (
            PedidoVisto::Conta { .. },
            RespostaVista::Numero(b, t),
        ) | (PedidoVisto::Negar(_), RespostaVista::Numero(b, t)) => andou(com(s, valor::Dado::Numero(b, t))),
        (PedidoVisto::Nativa { .. }, RespostaVista::Valor(v)) => match v {
            Ok(v) => andou(com(s, v)),
            Err(m) => andou(falha(s, m)),
        },
        (PedidoVisto::Tensor(p), RespostaVista::Numeros(d)) => match tensor::valor_da_conta(p, d) {
            Some(v) => andou(com(s, conversao::dado_de(v))),
            None => (s, PassoVisto::Panico),
        },
        (PedidoVisto::Escrever(_), RespostaVista::Feito) | (PedidoVisto::IniciarSaida, RespostaVista::Feito) => andou(
            s,
        ),
        (PedidoVisto::TerminarSaida, RespostaVista::Texto(t)) => match s.modo {
            tarefa::ModoVisto::Falha(_) => andou(s),
            _ => andou(com(s, valor::Dado::Texto(t))),
        },
        (PedidoVisto::Importar { caminho, alias }, RespostaVista::Arquivo(a)) => if s.ambientes.len() == 0 {
            (s, PassoVisto::Panico)
        } else {
            com_modulo(s, caminho, alias, a)
        },
        (PedidoVisto::Incluir { caminho, obrigatorio }, RespostaVista::Arquivo(a)) => com_inclusao(
            s,
            caminho,
            obrigatorio,
            a,
        ),
        _ => (s, PassoVisto::Panico),
    }
}

/// O comeco de um programa.
pub open spec fn comeca_programa(s: Estado, p: Seq<ast::ArvoreInstr>) -> Estado {
    Estado {
        tarefas: seq![tarefa::TarefaVista::Bloco(p, 0)],
        valores: Seq::empty(),
        ambientes: seq![s.ambiente],
        modo: tarefa::ModoVisto::Anda,
        ..s
    }
}

/// O comeco da chamada de um valor.
pub open spec fn comeca_chamada(s: Estado, nome: Seq<char>, f: valor::Dado, args: Seq<valor::Dado>) -> Estado {
    Estado {
        tarefas: seq![tarefa::TarefaVista::Devolve, tarefa::TarefaVista::Chama(nome, args.len() as int)],
        valores: seq![f] + args,
        ambientes: seq![s.ambiente],
        modo: tarefa::ModoVisto::Anda,
        ..s
    }
}

impl Interpretador {
    /// Um interpretador novo, com o limite de operacoes que a configuracao diz.
    pub fn novo(config: Option<&str>) -> (r: Self)
        ensures
            r@ == (Estado {
                ambiente: ambiente::inicial(),
                tarefas: Seq::empty(),
                valores: Seq::empty(),
                ambientes: Seq::empty(),
                chamadas: Seq::empty(),
                linha: 0,
                erro: None,
                ops: 0,
                limite: maquina::limite_de(
                    match config {
                        Some(s) => Some(s@),
                        None => None,
                    },
                ),
                modo: tarefa::ModoVisto::Anda,
                modulos: Seq::empty(),
                diretorios: Seq::empty(),
                incluidos: Seq::empty(),
            }),
    {
        let limite = match config {
            Some(s) => match busca::ler_natural(s, u64::MAX) {
                Some(n) => n,
                None => 10000000,
            },
            None => 10000000,
        };
        let r = Interpretador {
            ambiente: Ambiente::novo(),
            tarefas: Vec::new(),
            valores: Vec::new(),
            ambientes: Vec::new(),
            pilha_chamadas: Vec::new(),
            linha_atual: 0,
            erro_usuario: None,
            contador_ops: 0,
            limite_ops: limite,
            modo: Modo::Anda,
            modulos: Vec::new(),
            diretorios: Vec::new(),
            incluidos: Vec::new(),
        };
        assert(r@.tarefas =~= Seq::empty());
        assert(r@.valores =~= Seq::empty());
        assert(r@.ambientes =~= Seq::empty());
        assert(r@.chamadas =~= Seq::empty());
        assert(r@.modulos =~= Seq::empty());
        assert(r@.diretorios =~= Seq::empty());
        assert(r@.incluidos =~= Seq::empty());
        r
    }

    fn recomecar(&mut self)
        ensures
            final(self)@ == (Estado {
                tarefas: Seq::empty(),
                valores: Seq::empty(),
                ambientes: seq![old(self)@.ambiente],
                modo: tarefa::ModoVisto::Anda,
                ..old(self)@
            }),
    {
        self.tarefas = Vec::new();
        self.valores = Vec::new();
        let mut v: Vec<Ambiente> = Vec::new();
        v.push(self.ambiente.copia());
        self.ambientes = v;
        self.modo = Modo::Anda;
        assert(self@.tarefas =~= Seq::empty());
        assert(self@.valores =~= Seq::empty());
        assert(self@.ambientes =~= seq![old(self)@.ambiente]);
    }

    /// Comeca um programa de que nao se quer o valor.
    pub fn executar(&mut self, programa: &Vec<Instrucao>)
        ensures
            final(self)@ == comeca_programa(old(self)@, ast::instrs(programa@)),
    {
        self.executar_com_retorno(programa);
    }

    /// Comeca um programa; um `retornar` fora de funcoes e o valor com que ele termina.
    pub fn executar_com_retorno(&mut self, programa: &Vec<Instrucao>)
        ensures
            final(self)@ == comeca_programa(old(self)@, ast::instrs(programa@)),
    {
        self.recomecar();
        let b = copiar_instrs(programa);
        self.mais_tarefa(Tarefa::Bloco(b, 0));
        assert(self@.tarefas =~= seq![tarefa::TarefaVista::Bloco(ast::instrs(programa@), 0)]);
    }

    /// Comeca a chamada de um valor.
    pub fn chamar_valor_pub(&mut self, nome: &str, funcao: Valor, args: Vec<Valor>)
        ensures
            final(self)@ == comeca_chamada(old(self)@, nome@, funcao@, valor::vistos(args@)),
    {
        self.recomecar();
        let n = args.len();
        self.mais_tarefa(Tarefa::Devolve);
        self.mais_tarefa(Tarefa::Chama(nome.to_owned(), n));
        let mut a = args;
        let mut v: Vec<Valor> = Vec::new();
        let ghost f = funcao@;
        v.push(funcao);
        v.append(&mut a);
        self.valores = v;
        assert(self@.valores =~= seq![f] + valor::vistos(args@));
        assert(self@.tarefas =~= seq![
            tarefa::TarefaVista::Devolve,
            tarefa::TarefaVista::Chama(nome@, args@.len() as int),
        ]);
    }

    /// Passa a procurar arquivos a partir de um diretorio.
    pub fn entrar_diretorio_importacao(&mut self, dir: String)
        ensures
            final(self)@ == (Estado { diretorios: old(self)@.diretorios.push(dir@), ..old(self)@ }),
    {
        let ghost d = self.diretorios@;
        let ghost n = dir@;
        self.diretorios.push(dir);
        assert(texto::textos(self.diretorios@) =~= texto::textos(d).push(n));
    }

    /// Deixa o ultimo diretorio de onde se procuram arquivos.
    pub fn sair_diretorio_importacao(&mut self)
        ensures
            final(self)@ == sem_diretorio(old(self)@),
    {
        self.sair_do_diretorio();
    }

    /// Se um arquivo ja foi incluido.
    pub fn ja_incluido(&self, chave: &str) -> (r: bool)
        ensures
            r == self@.incluidos.contains(chave@),
    {
        let mut i: usize = 0;
        while i < self.incluidos.len()
            invariant
                i <= self.incluidos@.len(),
                forall|k: int| 0 <= k < i ==> (#[trigger] self@.incluidos[k]) != chave@,
            decreases self.incluidos@.len() - i,
        {
            if self.incluidos[i].as_str().eq(chave) {
                assert(self@.incluidos[i as int] == chave@);
                return true;
            }
            i += 1;
        }
        false
    }

    /// O que um modulo ja executado mostra.
    pub fn modulo_importado(&self, chave: &str) -> (r: Option<Vec<(String, Valor)>>)
        ensures
            match r {
                Some(m) => modulo_de(self@.modulos, chave@) == Some(valor::pares_vistos(m@)),
                None => modulo_de(self@.modulos, chave@) is None,
            },
    {
        let ghost ms = self@.modulos;
        let mut i: usize = self.modulos.len();
        assert(ms.take(i as int) =~= ms);
        while i > 0
            invariant
                i <= self.modulos@.len(),
                ms == self@.modulos,
                modulo_de(ms, chave@) == modulo_de(ms.take(i as int), chave@),
            decreases i,
        {
            let ghost w = ms.take(i as int);
            assert(w.last() == (self.modulos@[i - 1].0@, valor::pares_vistos(self.modulos@[i - 1].1@)));
            assert(w.drop_last() =~= ms.take(i - 1));
            if self.modulos[i - 1].0.as_str().eq(chave) {
                return Some(copiar_pares(&self.modulos[i - 1].1));
            }
            i -= 1;
        }
        None
    }

    fn receber_modulo(&mut self, caminho: String, alias: Option<String>, a: Arquivo) -> (r: Passo)
        requires
            old(self)@.ambientes.len() > 0,
        ensures
            (final(self)@, r@) == com_modulo(old(self)@, caminho@, tarefa::texto_opcional(alias), a@),
    {
        let ghost s = self@;
        match a {
            Arquivo::Ausente => Passo::Panico,
            Arquivo::Falha(m) => self.falhar(m),
            Arquivo::Achado { chave, diretorio, programa } => match self.modulo_importado(chave.as_str()) {
                Some(m) => {
                    self.importar(alias, m);
                    Passo::Andou
                },
                None => match programa {
                    Err(m) => self.falhar(m),
                    Ok(p) => {
                        self.entrar_diretorio_importacao(diretorio);
                        let ghost antes = self.ambientes@;
                        self.ambientes.push(Ambiente::novo());
                        assert(ambientes_vistos(self.ambientes@) =~= ambientes_vistos(antes).push(
                            ambiente::inicial(),
                        ));
                        self.mais_tarefa(Tarefa::FimModulo { chave, alias });
                        self.mais_tarefa(Tarefa::Bloco(p, 0));
                        Passo::Andou
                    },
                },
            },
        }
    }

    fn receber_inclusao(&mut self, caminho: String, obrigatorio: bool, a: Arquivo) -> (r: Passo)
        ensures
            (final(self)@, r@) == com_inclusao(old(self)@, caminho@, obrigatorio, a@),
    {
        match a {
            Arquivo::Ausente => if obrigatorio {
                self.falhar(frase("requerer '", caminho.as_str(), "': arquivo nao encontrado"))
            } else {
                Passo::Andou
            },
            Arquivo::Falha(m) => self.falhar(m),
            Arquivo::Achado { chave, diretorio, programa } => {
                if self.ja_incluido(chave.as_str()) {
                    return Passo::Andou;
                }
                let ghost antes = self.incluidos@;
                let ghost c = chave@;
                self.incluidos.push(chave);
                assert(texto::textos(self.incluidos@) =~= texto::textos(antes).push(c));
                match programa {
                    Err(m) => self.falhar(m),
                    Ok(p) => {
                        self.entrar_diretorio_importacao(diretorio);
                        self.mais_tarefa(Tarefa::FimInclusao);
                        self.mais_tarefa(Tarefa::Bloco(p, 0));
                        Passo::Andou
                    },
                }
            },
        }
    }

    /// Segue com a resposta a um pedido.
    pub fn responder(&mut self, p: Pedido, r: Resposta) -> (o: Passo)
        ensures
            (final(self)@, o@) == responde(old(self)@, p@, r@),
    {
        assert(self@.ambientes.len() == self.ambientes@.len());
        match (p, r) {
            (Pedido::Numero(_), Resposta::Numero(d)) | (Pedido::Conta { .. }, Resposta::Numero(d)) | (
                Pedido::Negar(_),
                Resposta::Numero(d),
            ) => {
                self.por(Valor::Numero(d));
                Passo::Andou
            },
            (Pedido::Nativa { .. }, Resposta::Valor(v)) => match v {
                Ok(v) => {
                    self.por(v);
                    Passo::Andou
                },
                Err(m) => self.falhar(m),
            },
            (Pedido::Tensor(p), Resposta::Numeros(d)) => match tensor::concluir(p, d) {
                Some(v) => {
                    self.por(conversao::vm_para_valor(&v));
                    Passo::Andou
                },
                None => Passo::Panico,
            },
            (Pedido::Escrever(_), Resposta::Feito) | (Pedido::IniciarSaida, Resposta::Feito) => Passo::Andou,
            (Pedido::TerminarSaida, Resposta::Texto(t)) => match &self.modo {
                Modo::Falha(_) => Passo::Andou,
                _ => {
                    self.por(Valor::Texto(t));
                    Passo::Andou
                },
            },
            (Pedido::Importar { caminho, alias }, Resposta::Arquivo(a)) => if self.ambientes.len() == 0 {
                Passo::Panico
            } else {
                self.receber_modulo(caminho, alias, a)
            },
            (Pedido::Incluir { caminho, obrigatorio }, Resposta::Arquivo(a)) => self.receber_inclusao(
                caminho,
                obrigatorio,
                a,
            ),
            _ => Passo::Panico,
        }
    }
}

// ---- Leis -------------------------------------------------------------------------------

/// Correr `a + b` passos e correr `a` e, se ainda se anda, mais `b`.
pub proof fn lei_correr(s: Estado, a: nat, b: nat)
    ensures
        corre(s, (a + b) as int) == (if corre(s, a as int).1 is Andou {
            corre(corre(s, a as int).0, b as int)
        } else {
            corre(s, a as int)
        }),
    decreases a,
{
    if a > 0 {
        let r = anda(s);
        if r.1 is Andou {
            lei_correr(r.0, (a - 1) as nat, b);
        }
    }
}

/// O bloco `finalmente` de um `tentar` sem `capturar` comeca sempre, como quer que o corpo acabe;
/// quando ele acaba, como quer que seja, volta o que subia antes dele.
pub proof fn lei_finalmente(s: Estado, b: Seq<ast::ArvoreInstr>, altura: int)
    requires
        s.ambientes.len() > 0,
        s.tarefas.len() > 0,
        s.tarefas.last() == (tarefa::TarefaVista::FimTentar { capturar: None, finalmente: Some(b), altura }),
    ensures
        anda(s).1 is Andou,
        anda(s).0.modo is Anda,
        anda(s).0.tarefas == s.tarefas.drop_last().push(
            tarefa::TarefaVista::Restaura { modo: s.modo, altura },
        ).push(tarefa::TarefaVista::Bloco(b, 0)),
        forall|t: Estado|
            t.ambientes.len() > 0 && t.tarefas == s.tarefas.drop_last().push(
                tarefa::TarefaVista::Restaura { modo: s.modo, altura },
            ) ==> (#[trigger] anda(t)).1 is Andou && anda(t).0.modo == s.modo && anda(t).0.tarefas
                == s.tarefas.drop_last(),
{
    reveal(anda);
    reveal(continua_instr);
    let ts = s.tarefas.drop_last();
    let re = tarefa::TarefaVista::Restaura { modo: s.modo, altura };
    assert(ts.push(re).drop_last() =~= ts);
    assert(ts.push(re).last() == re);
}

/// Uma falha dentro de um `tentar` com `capturar` nao passa dele: o bloco `capturar` comeca com o
/// erro no nome dado, e com os valores que havia antes do `tentar`.
pub proof fn lei_capturar(
    s: Estado,
    m: Seq<char>,
    nome: Seq<char>,
    b: Seq<ast::ArvoreInstr>,
    fin: Option<Seq<ast::ArvoreInstr>>,
    altura: int,
)
    requires
        s.ambientes.len() > 0,
        s.tarefas.len() > 0,
        s.modo == tarefa::ModoVisto::Falha(m),
        0 <= altura <= s.valores.len(),
        s.tarefas.last() == (tarefa::TarefaVista::FimTentar { capturar: Some((nome, b)), finalmente: fin, altura }),
    ensures
        anda(s).1 is Andou,
        anda(s).0.modo is Anda,
        anda(s).0.erro is None,
        anda(s).0.valores == s.valores.take(altura),
        aqui(anda(s).0) == ambiente::definido(
            aqui(s),
            nome,
            match s.erro {
                Some(v) => v,
                None => erro_da_falha(m, s.linha),
            },
        ),
        anda(s).0.tarefas.last() == tarefa::TarefaVista::Bloco(b, 0),
{
    reveal(anda);
}

/// O fim de uma chamada, como quer que ela acabe, devolve a quem chamou o seu ambiente.
pub proof fn lei_chamada(s: Estado)
    requires
        s.ambientes.len() >= 2,
        s.chamadas.len() >= 1,
        s.tarefas.len() > 0,
        s.tarefas.last() is FimChamada,
    ensures
        anda(s).1 is Andou,
        anda(s).0.ambientes == s.ambientes.drop_last(),
        anda(s).0.chamadas == s.chamadas.drop_last(),
        s.modo is Falha <==> anda(s).0.modo is Falha,
{
    reveal(anda);
    reveal(continua_instr);
}

/// A linha de uma falha e a da primeira instrucao por onde ela sobe.
pub proof fn lei_linha(m: Seq<char>, l1: usize, c1: Seq<char>, l2: usize, c2: Seq<char>)
    ensures
        com_linha(com_linha(m, l1, c1), l2, c2) == com_linha(m, l1, c1),
{
    let r = com_linha(m, l1, c1);
    if !busca::comeca(m, "Erro na linha "@) {
        let p = "Erro na linha "@;
        assert(r.subrange(0, p.len() as int) =~= p);
    }
}

proof fn lema_proxima_quebra(q: Seq<char>, m: Seq<char>, t: Seq<char>)
    requires
        forall|i: int| 0 <= i < q.len() ==> #[trigger] q[i] != '\n',
        t.len() > 0,
        t[0] == '\n',
    ensures
        texto::proximo(q + m + t, '\n', 0) == q.len() + texto::proximo(m, '\n', 0),
{
    let s = q + m + t;
    let n = texto::proximo(m, '\n', 0);
    texto::lema_proximo(s, '\n', 0);
    texto::lema_proximo(m, '\n', 0);
    let k = texto::proximo(s, '\n', 0);
    assert(s[q.len() + n] == '\n');
    if k < q.len() {
        assert(s[k] == q[k]);
    } else if k < q.len() + n {
        assert(s[k] == m[k - q.len()]);
    }
}

/// A mensagem de um erro capturado nao tem a linha que a falha ganhou ao subir.
pub proof fn lei_mensagem_limpa(m: Seq<char>, linha: usize, contexto: Seq<char>)
    requires
        !busca::comeca(m, "Erro na linha "@),
    ensures
        mensagem_limpa(com_linha(m, linha, contexto)) == m.take(texto::proximo(m, '\n', 0)),
{
    let p = "Erro na linha "@;
    let d = texto::decimal(linha as nat);
    let r = com_linha(m, linha, contexto);
    reveal_strlit("Erro na linha ");
    reveal_strlit(": ");
    reveal_strlit("\n  -> ");
    texto::lema_decimal_algarismos(linha as nat);
    let q = p + d + ": "@;
    let k = (p.len() + d.len()) as int;
    let n = texto::proximo(m, '\n', 0);
    texto::lema_proximo(m, '\n', 0);
    assert(r =~= q + m + ("\n  -> "@ + texto::aparado(contexto)));
    lema_proxima_quebra(q, m, "\n  -> "@ + texto::aparado(contexto));
    let l = r.take(q.len() + n);
    assert(l =~= q + m.take(n));
    assert(l.subrange(0, p.len() as int) =~= p);
    assert(l.subrange(k, k + 2) =~= ": "@);
    busca::lema_primeira(l, ": "@, 0);
    assert forall|j: int| 0 <= j < k implies !busca::ocorre(l, ": "@, j) by {
        assert(l[j] == q[j]);
        if busca::ocorre(l, ": "@, j) {
            assert(l.subrange(j, j + 2)[0] == ':');
        }
    }
    assert(l.skip(k + 2) =~= m.take(n));
    assert(texto::proximo(r, '\n', 0) == q.len() + n);
    assert(busca::comeca(l, p));
    assert(busca::ocorre(l, ": "@, k));
    assert(busca::primeira(l, ": "@, 0) == Some(k));
}

/// Um arquivo ja incluido nao se executa outra vez.
pub proof fn lei_incluir(s: Estado, caminho: Seq<char>, obrigatorio: bool, a: ArquivoVisto)
    requires
        a is Achado,
    ensures
        ({
            let r = com_inclusao(s, caminho, obrigatorio, a).0;
            com_inclusao(r, caminho, obrigatorio, a) == andou(r)
        }),
{
    let c = a->chave;
    if !s.incluidos.contains(c) {
        assert(s.incluidos.push(c).last() == c);
    }
}

} // verus!
