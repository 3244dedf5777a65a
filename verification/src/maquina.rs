//! A maquina de pilha: um passo por comando, com o que nao se calcula aqui pedido a quem a faz
//! andar.

use vstd::prelude::*;
use crate::busca;
use crate::bytecode::{copiar_ops, Op};
use crate::bytecode;
use crate::decimal::Decimal;
use crate::decimal;
use crate::dispositivos::Registro;
use crate::dispositivos;
use crate::nativas;
use crate::operacoes::{executar_binaria, negar, vm_set_index, Pedido, Saida};
use crate::operacoes;
use crate::tensor::PedidoTensor;
use crate::tensor;
use crate::texto;
use crate::vm::{achar_chave, copiar_pares, frase, guardar, VmValor};
use crate::vm;

verus! {

// ---- Quadros ----------------------------------------------------------------------------

/// O contador de um laco: o valor de agora, o fim e o passo, em inteiros ou em numeros com ponto.
#[derive(Debug, Clone, Copy)]
pub enum Contador {
    Inteiro(i64, i64, i64),
    Real(u64, u64, u64),
}

/// Um trecho de codigo em execucao.
#[derive(Debug)]
pub struct Quadro {
    pub ops: Vec<Op>,
    pub ip: usize,
    pub pilha: Vec<VmValor>,
    pub vars: Vec<(String, VmValor)>,
    pub capturas: Vec<usize>,
    pub contadores: Vec<Contador>,
}

/// Um mapa de nomes para valores, visto.
pub type Nomes = Seq<(Seq<char>, vm::Visto)>;

/// O que um quadro representa.
pub ghost struct QuadroVisto {
    pub codigo: Seq<bytecode::Comando>,
    pub ip: int,
    pub pilha: Seq<vm::Visto>,
    pub vars: Nomes,
    pub capturas: Seq<usize>,
    pub contadores: Seq<Contador>,
}

impl Quadro {
    pub open spec fn view(&self) -> QuadroVisto {
        QuadroVisto {
            codigo: bytecode::comandos(self.ops@),
            ip: self.ip as int,
            pilha: vm::vistos(self.pilha@),
            vars: vm::pares_vistos(self.vars@),
            capturas: self.capturas@,
            contadores: self.contadores@,
        }
    }
}

/// Um quadro novo.
pub open spec fn quadro_novo(codigo: Seq<bytecode::Comando>, vars: Nomes) -> QuadroVisto {
    QuadroVisto {
        codigo,
        ip: 0,
        pilha: Seq::empty(),
        vars,
        capturas: Seq::empty(),
        contadores: Seq::empty(),
    }
}

impl Quadro {
    /// Comeca um trecho de codigo.
    pub fn novo(ops: Vec<Op>, vars: Vec<(String, VmValor)>) -> (r: Self)
        ensures
            r@ == quadro_novo(bytecode::comandos(ops@), vm::pares_vistos(vars@)),
    {
        let q = Quadro { ops, ip: 0, pilha: Vec::new(), vars, capturas: Vec::new(), contadores: Vec::new() };
        assert(vm::vistos(q.pilha@) =~= Seq::empty());
        assert(q.capturas@ =~= Seq::empty());
        assert(q.contadores@ =~= Seq::empty());
        q
    }
}

/// O que um comando faz a um quadro.
pub ghost enum EfeitoVisto {
    /// O quadro segue.
    Segue(QuadroVisto),
    /// O quadro espera a resposta a um pedido.
    Pede(QuadroVisto, operacoes::PedidoVisto),
    /// O quadro espera o fim de um quadro novo, com estas variaveis e este codigo.
    Chama(QuadroVisto, Seq<bytecode::Comando>, Nomes),
    /// O quadro acabou, com um valor ou sem ele.
    Acaba(QuadroVisto, Option<vm::Visto>),
    /// O quadro falhou.
    Falha(QuadroVisto, Seq<char>),
    /// Nao ha como seguir.
    Panico,
}

/// O que um comando faz.
#[derive(Debug)]
pub enum Efeito {
    Segue,
    Pede(Pedido),
    Chama { corpo: Vec<Op>, vars: Vec<(String, VmValor)> },
    Acaba(Option<VmValor>),
    Falha(String),
    Panico,
}

/// Um valor que pode faltar, visto.
pub open spec fn talvez(v: Option<VmValor>) -> Option<vm::Visto> {
    match v {
        Some(x) => Some(x@),
        None => None,
    }
}

/// O que um efeito representa, com o quadro em que ficou.
pub open spec fn efeito(e: Efeito, q: QuadroVisto) -> EfeitoVisto {
    match e {
        Efeito::Segue => EfeitoVisto::Segue(q),
        Efeito::Pede(p) => EfeitoVisto::Pede(q, p@),
        Efeito::Chama { corpo, vars } => EfeitoVisto::Chama(
            q,
            bytecode::comandos(corpo@),
            vm::pares_vistos(vars@),
        ),
        Efeito::Acaba(v) => EfeitoVisto::Acaba(q, talvez(v)),
        Efeito::Falha(m) => EfeitoVisto::Falha(q, m@),
        Efeito::Panico => EfeitoVisto::Panico,
    }
}

// ---- A pilha ----------------------------------------------------------------------------

/// O quadro com outra pilha.
pub open spec fn com_pilha(q: QuadroVisto, p: Seq<vm::Visto>) -> QuadroVisto {
    QuadroVisto { pilha: p, ..q }
}

/// O quadro sem os `n` valores de cima.
pub open spec fn sem_topo(q: QuadroVisto, n: int) -> QuadroVisto {
    com_pilha(q, q.pilha.take(q.pilha.len() - n))
}

/// Os `n` valores de cima, o mais antigo primeiro.
pub open spec fn topo(q: QuadroVisto, n: int) -> Seq<vm::Visto> {
    q.pilha.skip(q.pilha.len() - n)
}

/// O quadro com mais um valor.
pub open spec fn com_topo(q: QuadroVisto, v: vm::Visto) -> QuadroVisto {
    com_pilha(q, q.pilha.push(v))
}

/// O quadro segue com mais um valor.
pub open spec fn poe(q: QuadroVisto, v: vm::Visto) -> EfeitoVisto {
    EfeitoVisto::Segue(com_topo(q, v))
}

/// Faltam valores na pilha.
pub open spec fn pilha_vazia() -> Seq<char> {
    "Pilha vazia (bug interno da VM)"@
}

/// O que a saida de uma operacao faz ao quadro.
pub open spec fn depois(q: QuadroVisto, s: operacoes::SaidaVista) -> EfeitoVisto {
    match s {
        operacoes::SaidaVista::Valor(v) => poe(q, v),
        operacoes::SaidaVista::Pede(p) => EfeitoVisto::Pede(q, p),
        operacoes::SaidaVista::Falha(m) => EfeitoVisto::Falha(q, m),
        operacoes::SaidaVista::Panico => EfeitoVisto::Panico,
    }
}

fn vazia() -> (r: Efeito)
    ensures
        r matches Efeito::Falha(m) && m@ == pilha_vazia(),
{
    Efeito::Falha("Pilha vazia (bug interno da VM)".to_owned())
}

/// O mesmo quadro, com a pilha que for.
pub open spec fn so_pilha(a: QuadroVisto, b: QuadroVisto) -> bool {
    b == com_pilha(a, b.pilha)
}

impl Quadro {
    fn empilhar(&mut self, v: VmValor)
        ensures
            final(self)@ == com_topo(old(self)@, v@),
    {
        let ghost antes = self.pilha@;
        let ghost x = v@;
        self.pilha.push(v);
        assert(vm::vistos(self.pilha@) =~= vm::vistos(antes).push(x));
    }

    fn desempilhar(&mut self) -> (r: Option<VmValor>)
        ensures
            match r {
                Some(v) => old(self)@.pilha.len() > 0 && v@ == old(self)@.pilha.last() && final(self)@ == sem_topo(
                    old(self)@,
                    1,
                ),
                None => old(self)@.pilha.len() == 0 && final(self)@ == old(self)@,
            },
    {
        let ghost antes = self.pilha@;
        let r = self.pilha.pop();
        proof {
            if antes.len() > 0 {
                assert(vm::vistos(self.pilha@) =~= vm::vistos(antes).take(antes.len() - 1));
            } else {
                assert(vm::vistos(self.pilha@) =~= vm::vistos(antes));
            }
        }
        r
    }

    fn desempilhar_dois(&mut self) -> (r: Option<(VmValor, VmValor)>)
        ensures
            match r {
                Some((a, b)) => {
                    &&& old(self)@.pilha.len() >= 2
                    &&& a@ == old(self)@.pilha[old(self)@.pilha.len() - 2]
                    &&& b@ == old(self)@.pilha.last()
                    &&& final(self)@ == sem_topo(old(self)@, 2)
                },
                None => old(self)@.pilha.len() < 2 && so_pilha(old(self)@, final(self)@),
            },
    {
        let ghost q = self@;
        let b = match self.desempilhar() {
            Some(b) => b,
            None => return None,
        };
        let a = match self.desempilhar() {
            Some(a) => a,
            None => return None,
        };
        assert(self@.pilha =~= q.pilha.take(q.pilha.len() - 2));
        Some((a, b))
    }

    /// Tira os `n` valores de cima; da-os com o mais antigo primeiro.
    fn desempilhar_varios(&mut self, n: usize) -> (r: Option<Vec<VmValor>>)
        ensures
            match r {
                Some(v) => old(self)@.pilha.len() >= n && vm::vistos(v@) == topo(old(self)@, n as int) && final(self)@
                    == sem_topo(old(self)@, n as int),
                None => old(self)@.pilha.len() < n && final(self)@ == old(self)@,
            },
    {
        let tamanho = self.pilha.len();
        if tamanho < n {
            return None;
        }
        let ghost antes = self.pilha@;
        let r = self.pilha.split_off(tamanho - n);
        assert(vm::vistos(r@) =~= vm::vistos(antes).skip(tamanho - n));
        assert(vm::vistos(self.pilha@) =~= vm::vistos(antes).take(tamanho - n));
        Some(r)
    }

    fn dar(&mut self, s: Saida) -> (r: Efeito)
        ensures
            efeito(r, final(self)@) == depois(old(self)@, s@),
            s@ is Panico ==> final(self)@ == old(self)@,
    {
        match s {
            Saida::Valor(v) => {
                self.empilhar(v);
                Efeito::Segue
            },
            Saida::Pede(p) => Efeito::Pede(p),
            Saida::Falha(m) => Efeito::Falha(m),
            Saida::Panico => Efeito::Panico,
        }
    }
}

// ---- Nomes ------------------------------------------------------------------------------

/// O valor de um nome: o das variaveis do quadro ou, se nao ha, o global.
pub open spec fn valor_do_nome(vars: Nomes, globais: Nomes, nome: Seq<char>) -> Option<vm::Visto> {
    match vm::valor_de(vars, nome) {
        Some(v) => Some(v),
        None => vm::valor_de(globais, nome),
    }
}

fn procurar(vars: &Vec<(String, VmValor)>, globais: &Vec<(String, VmValor)>, nome: &str) -> (r: Option<VmValor>)
    ensures
        match r {
            Some(v) => valor_do_nome(vm::pares_vistos(vars@), vm::pares_vistos(globais@), nome@) == Some(v@),
            None => valor_do_nome(vm::pares_vistos(vars@), vm::pares_vistos(globais@), nome@) is None,
        },
{
    match achar_chave(vars, nome) {
        Some(i) => {
            assert(vm::pares_vistos(vars@)[i as int].1 == vars@[i as int].1@);
            Some(vars[i].1.clone())
        },
        None => match achar_chave(globais, nome) {
            Some(i) => {
                assert(vm::pares_vistos(globais@)[i as int].1 == globais@[i as int].1@);
                Some(globais[i].1.clone())
            },
            None => None,
        },
    }
}

/// Os nomes com os primeiros `n` pares de nomes e valores.
pub open spec fn ligados(m: Nomes, ks: Seq<Seq<char>>, vs: Seq<vm::Visto>, n: int) -> Nomes
    decreases n,
{
    if n <= 0 || n > ks.len() || n > vs.len() {
        m
    } else {
        vm::com_valor(ligados(m, ks, vs, n - 1), ks[n - 1], vs[n - 1])
    }
}

/// Liga nomes a valores.
pub fn ligar(m: &mut Vec<(String, VmValor)>, ks: &Vec<String>, vs: &Vec<VmValor>)
    requires
        ks@.len() == vs@.len(),
    ensures
        vm::pares_vistos(final(m)@) == ligados(
            vm::pares_vistos(old(m)@),
            texto::textos(ks@),
            vm::vistos(vs@),
            ks@.len() as int,
        ),
{
    let ghost m0 = vm::pares_vistos(m@);
    let ghost kt = texto::textos(ks@);
    let ghost vt = vm::vistos(vs@);
    let mut i: usize = 0;
    while i < ks.len()
        invariant
            i <= ks@.len(),
            ks@.len() == vs@.len(),
            kt == texto::textos(ks@),
            vt == vm::vistos(vs@),
            vm::pares_vistos(m@) == ligados(m0, kt, vt, i as int),
        decreases ks@.len() - i,
    {
        assert(kt[i as int] == ks@[i as int]@ && vt[i as int] == vs@[i as int]@);
        guardar(m, ks[i].clone(), vs[i].clone());
        i += 1;
    }
}

// ---- Um comando -------------------------------------------------------------------------

/// Chama uma funcao com argumentos, com a falha dada se a quantidade nao e a certa.
pub open spec fn chama(
    q: QuadroVisto,
    params: Seq<Seq<char>>,
    corpo: Seq<bytecode::Comando>,
    args: Seq<vm::Visto>,
    quem: Seq<char>,
) -> EfeitoVisto {
    if params.len() != args.len() {
        EfeitoVisto::Falha(
            q,
            quem + " espera "@ + texto::decimal(params.len()) + " arg(s), recebeu "@ + texto::decimal(args.len()),
        )
    } else {
        EfeitoVisto::Chama(q, corpo, ligados(q.vars, params, args, params.len() as int))
    }
}

/// O que um comando faz a um quadro cujo indice ja passou dele.
#[verifier::opaque]
pub open spec fn passo(op: bytecode::Comando, q: QuadroVisto, globais: Nomes) -> EfeitoVisto {
    let n = q.pilha.len();
    if operacoes::de_dois(op) {
        if n < 2 {
            match tensor::recusa_do_topo(op, q.pilha[n - 1]) {
                Some(s) if n == 1 => depois(q, s),
                _ => EfeitoVisto::Falha(q, pilha_vazia()),
            }
        } else {
            depois(sem_topo(q, 2), operacoes::binaria(op, q.pilha[n - 2], q.pilha[n - 1]))
        }
    } else {
        match op {
            bytecode::Comando::Halt => EfeitoVisto::Acaba(q, None),
            bytecode::Comando::PushNum(s) => EfeitoVisto::Pede(q, operacoes::PedidoVisto::Numero(s)),
            bytecode::Comando::PushInt(x) => poe(q, vm::Visto::Int(x)),
            bytecode::Comando::PushStr(s) => poe(q, vm::Visto::Str(s)),
            bytecode::Comando::PushBool(b) => poe(q, vm::Visto::Bool(b)),
            bytecode::Comando::PushNull => poe(q, vm::Visto::Null),
            bytecode::Comando::Load(nome) => match valor_do_nome(q.vars, globais, nome) {
                Some(v) => poe(q, v),
                None => EfeitoVisto::Falha(q, "Variável '"@ + nome + "' não definida"@),
            },
            bytecode::Comando::Store(nome) => if n < 1 {
                EfeitoVisto::Falha(q, pilha_vazia())
            } else {
                EfeitoVisto::Segue(
                    QuadroVisto { vars: vm::com_valor(q.vars, nome, q.pilha[n - 1]), ..sem_topo(q, 1) },
                )
            },
            bytecode::Comando::MakeList(k) => if n < k {
                EfeitoVisto::Falha(q, pilha_vazia())
            } else {
                poe(sem_topo(q, k), vm::Visto::Lista(topo(q, k)))
            },
            bytecode::Comando::MakeMap(ks) => if n < ks.len() {
                EfeitoVisto::Falha(q, pilha_vazia())
            } else {
                poe(
                    sem_topo(q, ks.len() as int),
                    vm::Visto::Mapa(
                        ligados(Seq::empty(), ks, topo(q, ks.len() as int), ks.len() as int),
                    ),
                )
            },
            bytecode::Comando::SetIndex => if n < 3 {
                EfeitoVisto::Falha(q, pilha_vazia())
            } else {
                depois(
                    sem_topo(q, 3),
                    operacoes::trocado_em(q.pilha[n - 3], q.pilha[n - 2], q.pilha[n - 1]),
                )
            },
            bytecode::Comando::Neg => if n < 1 {
                EfeitoVisto::Falha(q, pilha_vazia())
            } else {
                depois(sem_topo(q, 1), operacoes::negado(q.pilha[n - 1]))
            },
            bytecode::Comando::Not => if n < 1 {
                EfeitoVisto::Falha(q, pilha_vazia())
            } else {
                poe(sem_topo(q, 1), vm::Visto::Bool(!vm::verdadeiro(q.pilha[n - 1])))
            },
            bytecode::Comando::Jump(a) => EfeitoVisto::Segue(QuadroVisto { ip: a, ..q }),
            bytecode::Comando::JumpFalse(a) => if n < 1 {
                EfeitoVisto::Falha(q, pilha_vazia())
            } else if vm::verdadeiro(q.pilha[n - 1]) {
                EfeitoVisto::Segue(sem_topo(q, 1))
            } else {
                EfeitoVisto::Segue(QuadroVisto { ip: a, ..sem_topo(q, 1) })
            },
            bytecode::Comando::JumpTrue(a) => if n < 1 {
                EfeitoVisto::Falha(q, pilha_vazia())
            } else if vm::verdadeiro(q.pilha[n - 1]) {
                EfeitoVisto::Segue(QuadroVisto { ip: a, ..sem_topo(q, 1) })
            } else {
                EfeitoVisto::Segue(sem_topo(q, 1))
            },
            bytecode::Comando::DefFunc { nome, params, corpo } => poe(q, vm::Visto::Funcao { params, corpo }),
            bytecode::Comando::Call(k) => if n < k + 1 {
                EfeitoVisto::Falha(q, pilha_vazia())
            } else {
                match q.pilha[n - k - 1] {
                    vm::Visto::Funcao { params, corpo } => chama(
                        sem_topo(q, k + 1),
                        params,
                        corpo,
                        topo(q, k),
                        "Função"@,
                    ),
                    v => EfeitoVisto::Falha(q, vm::texto_de(v) + " não é uma função"@),
                }
            },
            bytecode::Comando::CallNative(nome, k) => if n < k {
                EfeitoVisto::Falha(q, pilha_vazia())
            } else {
                match valor_do_nome(q.vars, globais, nome) {
                    Some(vm::Visto::Funcao { params, corpo }) => chama(
                        sem_topo(q, k),
                        params,
                        corpo,
                        topo(q, k),
                        "Função '"@ + nome + "'"@,
                    ),
                    _ => if nome == "__store__"@ {
                        if k == 2 && topo(q, k)[0] is Str {
                            poe(
                                QuadroVisto {
                                    vars: vm::com_valor(q.vars, topo(q, k)[0]->Str_0, topo(q, k)[1]),
                                    ..sem_topo(q, k)
                                },
                                vm::Visto::Null,
                            )
                        } else {
                            poe(sem_topo(q, k), vm::Visto::Null)
                        }
                    } else {
                        depois(sem_topo(q, k), nativas::nativa(nome, topo(q, k)))
                    },
                }
            },
            bytecode::Comando::Return => if n < 1 {
                EfeitoVisto::Falha(q, pilha_vazia())
            } else {
                EfeitoVisto::Acaba(sem_topo(q, 1), Some(q.pilha[n - 1]))
            },
            bytecode::Comando::ReturnNull => EfeitoVisto::Acaba(q, Some(vm::Visto::Null)),
            bytecode::Comando::Include { caminho, obrigatorio } => EfeitoVisto::Pede(
                q,
                operacoes::PedidoVisto::Incluir { caminho, obrigatorio },
            ),
            bytecode::Comando::Import { caminho, alias } => EfeitoVisto::Pede(
                q,
                operacoes::PedidoVisto::Importar { caminho, alias },
            ),
            bytecode::Comando::Print(k) => if n < k {
                EfeitoVisto::Falha(q, pilha_vazia())
            } else {
                EfeitoVisto::Pede(
                    sem_topo(q, k),
                    operacoes::PedidoVisto::Escrever(busca::juntos(textos_de(topo(q, k)), " "@) + "\n"@),
                )
            },
            bytecode::Comando::Write(k) => if n < k {
                EfeitoVisto::Falha(q, pilha_vazia())
            } else {
                EfeitoVisto::Pede(
                    sem_topo(q, k),
                    operacoes::PedidoVisto::Escrever(busca::juntos(textos_de(topo(q, k)), ""@)),
                )
            },
            bytecode::Comando::Pop => if n < 1 {
                EfeitoVisto::Falha(q, pilha_vazia())
            } else {
                EfeitoVisto::Segue(sem_topo(q, 1))
            },
            bytecode::Comando::Dup => if n < 1 {
                EfeitoVisto::Falha(q, pilha_vazia())
            } else {
                poe(q, q.pilha[n - 1])
            },
            bytecode::Comando::IterStart { var } => iteracao(q, var),
            bytecode::Comando::IterNext { var, loop_ini } => if q.contadores.len() == 0 {
                EfeitoVisto::Falha(q, "IterNext: sem contador ativo"@)
            } else {
                match q.contadores.last() {
                    Contador::Real(atual, fim, passo) => EfeitoVisto::Pede(
                        q,
                        operacoes::PedidoVisto::Avancar { var, alvo: loop_ini, atual, fim, passo },
                    ),
                    Contador::Inteiro(atual, fim, passo) => avanco(q, var, loop_ini, atual, fim, passo),
                }
            },
            bytecode::Comando::TryCatch(a) => EfeitoVisto::Segue(
                QuadroVisto { capturas: q.capturas.push(a as usize), ..q },
            ),
            bytecode::Comando::EndTry => EfeitoVisto::Segue(
                QuadroVisto {
                    capturas: if q.capturas.len() > 0 {
                        q.capturas.drop_last()
                    } else {
                        q.capturas
                    },
                    ..q
                },
            ),
            bytecode::Comando::Throw => if n < 1 {
                EfeitoVisto::Falha(q, pilha_vazia())
            } else if q.capturas.len() > 0 {
                EfeitoVisto::Segue(
                    QuadroVisto { ip: q.capturas.last() as int, capturas: q.capturas.drop_last(), ..q },
                )
            } else {
                EfeitoVisto::Falha(q, vm::texto_de(q.pilha[n - 1]))
            },
            _ => if n < 1 {
                EfeitoVisto::Falha(q, pilha_vazia())
            } else {
                depois(sem_topo(q, 1), tensor::unaria(op, q.pilha[n - 1]))
            },
        }
    }
}

/// Os textos de varios valores.
pub open spec fn textos_de(v: Seq<vm::Visto>) -> Seq<Seq<char>> {
    v.map_values(|x: vm::Visto| vm::texto_de(x))
}

/// Um valor como numero com ponto, se e um numero.
pub open spec fn numero_do_laco(v: vm::Visto) -> Option<(u64, Seq<char>)> {
    match v {
        vm::Visto::Num(b, t) => Some((b, t)),
        vm::Visto::Int(n) => Some((decimal::bits_de(n as int) as u64, texto::decimal_int(n as int))),
        _ => None,
    }
}

/// Um passo sem parte depois do ponto, como inteiro.
pub open spec fn passo_inteiro(v: vm::Visto) -> Option<i64> {
    match v {
        vm::Visto::Int(n) => Some(n),
        vm::Visto::Num(b, _) => {
            let n = decimal::inteiro_de(b);
            if n < i64::MAX && decimal::iguais(decimal::bits_de(n) as u64, b) {
                Some(n as i64)
            } else {
                None
            }
        },
        _ => None,
    }
}

/// Se um contador nao passou do fim.
pub open spec fn na_faixa(atual: int, fim: int, passo: int) -> bool {
    (passo > 0 ==> atual <= fim) && (passo < 0 ==> atual >= fim)
}

/// O comeco de um laco contado, com o passo, o fim e o inicio na pilha: o contador fica guardado, a
/// variavel vale o inicio se ele esta na faixa, e a pilha fica com se esta. Entre inteiros, e com um
/// passo inteiro, conta-se em inteiros; senao, em numeros com ponto.
pub open spec fn iteracao(q: QuadroVisto, var: Seq<char>) -> EfeitoVisto {
    let n = q.pilha.len();
    if n < 1 {
        EfeitoVisto::Falha(q, pilha_vazia())
    } else if numero_do_laco(q.pilha[n - 1]) is None {
        EfeitoVisto::Falha(q, "IterStart passo: "@ + vm::texto_de(q.pilha[n - 1]))
    } else if n < 2 {
        EfeitoVisto::Falha(q, pilha_vazia())
    } else if numero_do_laco(q.pilha[n - 2]) is None {
        EfeitoVisto::Falha(q, "IterStart fim: "@ + vm::texto_de(q.pilha[n - 2]))
    } else if n < 3 {
        EfeitoVisto::Falha(q, pilha_vazia())
    } else {
        match (q.pilha[n - 3], q.pilha[n - 2], passo_inteiro(q.pilha[n - 1])) {
            (vm::Visto::Int(ini), vm::Visto::Int(fim), Some(passo)) => contagem_inteira(
                sem_topo(q, 3),
                var,
                ini,
                fim,
                passo,
            ),
            _ => match numero_do_laco(q.pilha[n - 3]) {
                None => EfeitoVisto::Falha(q, "IterStart ini: "@ + vm::texto_de(q.pilha[n - 3])),
                Some(ini) => EfeitoVisto::Pede(
                    sem_topo(q, 3),
                    operacoes::PedidoVisto::Faixa {
                        var,
                        ini,
                        fim: numero_do_laco(q.pilha[n - 2])->Some_0.0,
                        passo: numero_do_laco(q.pilha[n - 1])->Some_0.0,
                    },
                ),
            },
        }
    }
}

/// O comeco de um laco contado em inteiros.
pub open spec fn contagem_inteira(q: QuadroVisto, var: Seq<char>, ini: i64, fim: i64, passo: i64) -> EfeitoVisto {
    let b = na_faixa(ini as int, fim as int, passo as int);
    poe(
        QuadroVisto {
            contadores: q.contadores.push(Contador::Inteiro(ini, fim, passo)),
            vars: if b {
                vm::com_valor(q.vars, var, vm::Visto::Int(ini))
            } else {
                q.vars
            },
            ..q
        },
        vm::Visto::Bool(b),
    )
}

/// O avanco de um laco contado em inteiros: na faixa, a variavel vale o contador e volta-se ao
/// comeco; senao, o contador sai.
pub open spec fn avanco(q: QuadroVisto, var: Seq<char>, alvo: int, atual: i64, fim: i64, passo: i64) -> EfeitoVisto {
    let x = atual + passo;
    if na_faixa(x, fim as int, passo as int) {
        EfeitoVisto::Segue(
            QuadroVisto {
                contadores: q.contadores.update(q.contadores.len() - 1, Contador::Inteiro(x as i64, fim, passo)),
                vars: vm::com_valor(q.vars, var, vm::Visto::Int(x as i64)),
                ip: alvo,
                ..q
            },
        )
    } else {
        EfeitoVisto::Segue(QuadroVisto { contadores: q.contadores.drop_last(), ..q })
    }
}

fn eh_na_faixa(atual: i64, fim: i64, passo: i64) -> (r: bool)
    ensures
        r == na_faixa(atual as int, fim as int, passo as int),
{
    if passo > 0 {
        atual <= fim
    } else if passo < 0 {
        atual >= fim
    } else {
        true
    }
}

fn ler_numero_do_laco(v: &VmValor) -> (r: Option<Decimal>)
    ensures
        match r {
            Some(d) => numero_do_laco(v@) == Some((d.bits, d.texto@)),
            None => numero_do_laco(v@) is None,
        },
{
    match v {
        VmValor::Num(d) => Some(d.clone()),
        VmValor::Int(n) => Some(Decimal { bits: decimal::de_inteiro(*n), texto: texto::inteiro(*n) }),
        _ => None,
    }
}

fn ler_passo_inteiro(v: &VmValor) -> (r: Option<i64>)
    ensures
        r == passo_inteiro(v@),
{
    match v {
        VmValor::Int(n) => Some(*n),
        VmValor::Num(d) => {
            let n = decimal::para_inteiro(d.bits);
            if n < i64::MAX && decimal::sao_iguais(decimal::de_inteiro(n), d.bits) {
                Some(n)
            } else {
                None
            }
        },
        _ => None,
    }
}

/// Dois efeitos que so diferem no que ficou na pilha de um quadro que falhou.
pub open spec fn mesmo_efeito(a: EfeitoVisto, b: EfeitoVisto) -> bool {
    match (a, b) {
        (EfeitoVisto::Falha(q, m), EfeitoVisto::Falha(p, k)) => m == k && so_pilha(q, p),
        _ => a == b,
    }
}

/// Se um comando e dos que so poem um valor na pilha.
pub open spec fn constante(op: bytecode::Comando) -> bool {
    match op {
        bytecode::Comando::PushNum(_) | bytecode::Comando::PushInt(_) | bytecode::Comando::PushStr(_) | bytecode::Comando::PushBool(_) | bytecode::Comando::PushNull | bytecode::Comando::Load(_) | bytecode::Comando::DefFunc { .. } | bytecode::Comando::Dup => true,
        _ => false,
    }
}

/// Se um comando e dos que transformam o topo da pilha.
pub open spec fn da_pilha(op: bytecode::Comando) -> bool {
    match op {
        bytecode::Comando::Store(_) | bytecode::Comando::MakeList(_) | bytecode::Comando::MakeMap(_) | bytecode::Comando::SetIndex | bytecode::Comando::Neg | bytecode::Comando::Not | bytecode::Comando::Pop => true,
        _ => false,
    }
}

/// Se um comando e dos que mudam o indice ou acabam.
pub open spec fn de_salto(op: bytecode::Comando) -> bool {
    match op {
        bytecode::Comando::Jump(_) | bytecode::Comando::JumpFalse(_) | bytecode::Comando::JumpTrue(_) | bytecode::Comando::Return | bytecode::Comando::ReturnNull | bytecode::Comando::Halt => true,
        _ => false,
    }
}

/// Se um comando e dos que chamam, incluem e escrevem.
pub open spec fn de_chamada(op: bytecode::Comando) -> bool {
    match op {
        bytecode::Comando::Call(_) | bytecode::Comando::CallNative(_, _) | bytecode::Comando::Include { .. } | bytecode::Comando::Import { .. } | bytecode::Comando::Print(_) | bytecode::Comando::Write(_) => true,
        _ => false,
    }
}

/// Se um comando e dos dos lacos contados e das capturas.
pub open spec fn de_laco(op: bytecode::Comando) -> bool {
    match op {
        bytecode::Comando::IterStart { .. } | bytecode::Comando::IterNext { .. } | bytecode::Comando::TryCatch(_) | bytecode::Comando::EndTry | bytecode::Comando::Throw => true,
        _ => false,
    }
}

fn eh_de_dois(op: &Op) -> (r: bool)
    ensures
        r == operacoes::de_dois(op@),
{
    match op {
        Op::GetIndex | Op::Add | Op::Sub | Op::Mul | Op::Div | Op::IntDiv | Op::Mod | Op::Eq | Op::Ne | Op::Lt
        | Op::Gt | Op::Le | Op::Ge | Op::And | Op::Or | Op::Em | Op::NaoEm | Op::TensorMatMul | Op::TensorAdd
        | Op::TensorSub | Op::TensorMulElem | Op::TensorDivElem | Op::TensorPow | Op::TensorSomaEixo
        | Op::TensorMediaEixo | Op::TensorMaxEixo | Op::TensorMinEixo | Op::TensorConcatenar
        | Op::TensorEmpilhar => true,
        _ => false,
    }
}

/// Os textos de varios valores.
pub fn escrever_textos(v: &Vec<VmValor>) -> (r: Vec<String>)
    ensures
        texto::textos(r@) == textos_de(vm::vistos(v@)),
{
    let mut r: Vec<String> = Vec::new();
    let mut i: usize = 0;
    while i < v.len()
        invariant
            i <= v@.len(),
            r@.len() == i,
            forall|k: int| 0 <= k < i ==> (#[trigger] r@[k])@ == vm::texto_de(v@[k]@),
        decreases v@.len() - i,
    {
        r.push(v[i].texto());
        i += 1;
    }
    assert(texto::textos(r@) =~= textos_de(vm::vistos(v@)));
    r
}

impl Quadro {
    fn fazer_mapa(&mut self, ks: &Vec<String>) -> (r: Efeito)
        ensures
            efeito(r, final(self)@) == passo(
                bytecode::Comando::MakeMap(texto::textos(ks@)),
                old(self)@,
                Seq::empty(),
            ),
    {
        proof {
            reveal(passo);
        }
        match self.desempilhar_varios(ks.len()) {
            None => vazia(),
            Some(vs) => {
                assert(vs@.len() == vm::vistos(vs@).len());
                let mut m: Vec<(String, VmValor)> = Vec::new();
                assert(vm::pares_vistos(m@) =~= Seq::empty());
                ligar(&mut m, ks, &vs);
                self.empilhar(VmValor::Mapa(m));
                Efeito::Segue
            },
        }
    }

    fn trocar_item(&mut self) -> (r: Efeito)
        ensures
            mesmo_efeito(
                passo(bytecode::Comando::SetIndex, old(self)@, Seq::empty()),
                efeito(r, final(self)@),
            ),
    {
        proof {
            reveal(passo);
        }
        let ghost q = self@;
        let val = match self.desempilhar() {
            Some(v) => v,
            None => return vazia(),
        };
        let ghost q1 = self@;
        match self.desempilhar_dois() {
            None => {
                assert(so_pilha(q, self@));
                vazia()
            },
            Some((obj, idx)) => {
                assert(self@.pilha =~= q.pilha.take(q.pilha.len() - 3));
                self.dar(vm_set_index(obj, idx, val))
            },
        }
    }

    fn contar_inteiros(&mut self, var: String, ini: i64, fim: i64, passo: i64) -> (r: Efeito)
        ensures
            efeito(r, final(self)@) == contagem_inteira(old(self)@, var@, ini, fim, passo),
    {
        let ghost q = self@;
        let b = eh_na_faixa(ini, fim, passo);
        self.contadores.push(Contador::Inteiro(ini, fim, passo));
        if b {
            guardar(&mut self.vars, var, VmValor::Int(ini));
        }
        assert(self@ == QuadroVisto { contadores: self@.contadores, vars: self@.vars, ..q });
        self.empilhar(VmValor::Bool(b));
        Efeito::Segue
    }

    fn marcar_topo(&mut self, r: &mut Registro)
        ensures
            (final(r)@, final(self)@) == topo_marcado(old(r)@, old(self)@),
    {
        let ghost q = self@;
        match self.desempilhar() {
            None => {},
            Some(v) => {
                let v = r.marcar(v);
                self.empilhar(v);
                assert(self@.pilha =~= q.pilha.drop_last().push(v@));
            },
        }
    }

    fn avancar_inteiro(&mut self, var: String, alvo: usize, atual: i64, fim: i64, passo: i64) -> (r: Efeito)
        requires
            old(self).contadores@.len() > 0,
        ensures
            efeito(r, final(self)@) == avanco(old(self)@, var@, alvo as int, atual, fim, passo),
    {
        let ghost q = self@;
        let n = self.contadores.len();
        match atual.checked_add(passo) {
            Some(x) => if eh_na_faixa(x, fim, passo) {
                self.contadores.set(n - 1, Contador::Inteiro(x, fim, passo));
                guardar(&mut self.vars, var, VmValor::Int(x));
                self.ip = alvo;
                assert(self@ == QuadroVisto { contadores: self@.contadores, vars: self@.vars, ip: alvo as int, ..q });
                return Efeito::Segue;
            },
            None => {},
        }
        let _x = self.contadores.pop();
        assert(self@ == QuadroVisto { contadores: q.contadores.drop_last(), ..q });
        Efeito::Segue
    }

    fn iniciar_laco(&mut self, var: String) -> (r: Efeito)
        ensures
            mesmo_efeito(iteracao(old(self)@, var@), efeito(r, final(self)@)),
    {
        let ghost q = self@;
        let passo_v = match self.desempilhar() {
            Some(v) => v,
            None => return vazia(),
        };
        let passo = match ler_numero_do_laco(&passo_v) {
            Some(d) => d.bits,
            None => {
                let mut s = "IterStart passo: ".to_owned();
                s.append(passo_v.texto().as_str());
                return Efeito::Falha(s);
            },
        };
        let fim_v = match self.desempilhar() {
            Some(v) => v,
            None => return vazia(),
        };
        assert(self@.pilha =~= q.pilha.take(q.pilha.len() - 2));
        let fim = match ler_numero_do_laco(&fim_v) {
            Some(d) => d.bits,
            None => {
                let mut s = "IterStart fim: ".to_owned();
                s.append(fim_v.texto().as_str());
                return Efeito::Falha(s);
            },
        };
        let ini_v = match self.desempilhar() {
            Some(v) => v,
            None => return vazia(),
        };
        assert(self@.pilha =~= q.pilha.take(q.pilha.len() - 3));
        assert(self@ == sem_topo(q, 3));
        match (&ini_v, &fim_v, ler_passo_inteiro(&passo_v)) {
            (VmValor::Int(ini), VmValor::Int(fim), Some(passo)) => {
                return self.contar_inteiros(var, *ini, *fim, passo);
            },
            _ => {},
        }
        match ler_numero_do_laco(&ini_v) {
            Some(ini) => Efeito::Pede(Pedido::Faixa { var, ini, fim, passo }),
            None => {
                let mut s = "IterStart ini: ".to_owned();
                s.append(ini_v.texto().as_str());
                Efeito::Falha(s)
            },
        }
    }

    fn chamar(&mut self, params: Vec<String>, corpo: Vec<Op>, args: Vec<VmValor>, quem: &str) -> (r: Efeito)
        ensures
            efeito(r, final(self)@) == chama(
                old(self)@,
                texto::textos(params@),
                bytecode::comandos(corpo@),
                vm::vistos(args@),
                quem@,
            ),
    {
        if params.len() != args.len() {
            let a = texto::natural(params.len() as u64);
            let b = texto::natural(args.len() as u64);
            let mut s = frase(quem, " espera ", a.as_str());
            s.append(" arg(s), recebeu ");
            s.append(b.as_str());
            return Efeito::Falha(s);
        }
        let mut vars = copiar_pares(&self.vars);
        ligar(&mut vars, &params, &args);
        Efeito::Chama { corpo, vars }
    }

    fn chamar_valor(&mut self, k: usize) -> (r: Efeito)
        ensures
            mesmo_efeito(
                passo(bytecode::Comando::Call(k as int), old(self)@, Seq::empty()),
                efeito(r, final(self)@),
            ),
    {
        proof {
            reveal(passo);
        }
        let ghost q = self@;
        let args = match self.desempilhar_varios(k) {
            Some(a) => a,
            None => return vazia(),
        };
        let f = match self.desempilhar() {
            Some(f) => f,
            None => return vazia(),
        };
        assert(self@.pilha =~= q.pilha.take(q.pilha.len() - (k + 1)));
        match f {
            VmValor::Funcao { params, corpo } => self.chamar(params, corpo, args, "Função"),
            _ => {
                let mut s = f.texto();
                s.append(" não é uma função");
                Efeito::Falha(s)
            },
        }
    }

    fn chamar_nome(&mut self, nome: String, k: usize, globais: &Vec<(String, VmValor)>) -> (r: Efeito)
        ensures
            mesmo_efeito(
                passo(
                    bytecode::Comando::CallNative(nome@, k as int),
                    old(self)@,
                    vm::pares_vistos(globais@),
                ),
                efeito(r, final(self)@),
            ),
    {
        proof {
            reveal(passo);
        }
        let args = match self.desempilhar_varios(k) {
            Some(a) => a,
            None => return vazia(),
        };
        if let Some(v) = procurar(&self.vars, globais, nome.as_str()) {
            if let VmValor::Funcao { params, corpo } = v {
                let quem = frase("Função '", nome.as_str(), "'");
                return self.chamar(params, corpo, args, quem.as_str());
            }
        }
        if nome.as_str().eq("__store__") {
            assert(args@.len() == vm::vistos(args@).len());
            if args.len() == 2 {
                assert(vm::vistos(args@)[0] == args@[0]@ && vm::vistos(args@)[1] == args@[1]@);
                if let VmValor::Str(s) = &args[0] {
                    let ghost q = self@;
                    guardar(&mut self.vars, s.clone(), args[1].clone());
                    assert(self@ == QuadroVisto { vars: self@.vars, ..q });
                }
            }
            self.empilhar(VmValor::Null);
            return Efeito::Segue;
        }
        let s = nativas::chamar_nativa(nome.as_str(), args);
        self.dar(s)
    }

    fn escrever(&mut self, k: usize, sep: &str, fim: &str) -> (r: Efeito)
        ensures
            old(self)@.pilha.len() < k ==> (r matches Efeito::Falha(m) && m@ == pilha_vazia()) && final(self)@ == old(
                self,
            )@,
            old(self)@.pilha.len() >= k ==> final(self)@ == sem_topo(old(self)@, k as int) && (r matches Efeito::Pede(
                p,
            ) && p@ == operacoes::PedidoVisto::Escrever(
                busca::juntos(textos_de(topo(old(self)@, k as int)), sep@) + fim@,
            )),
    {
        match self.desempilhar_varios(k) {
            None => vazia(),
            Some(vs) => {
                let ts = escrever_textos(&vs);
                let mut s = busca::juntar(&ts, sep);
                s.append(fim);
                Efeito::Pede(Pedido::Escrever(s))
            },
        }
    }

    fn fazer_constante(&mut self, op: Op, globais: &Vec<(String, VmValor)>) -> (r: Efeito)
        requires
            constante(op@),
        ensures
            mesmo_efeito(passo(op@, old(self)@, vm::pares_vistos(globais@)), efeito(r, final(self)@)),
    {
        let ghost q = self@;
        proof {
            reveal(passo);
        }
        match op {
            Op::PushNum(s) => Efeito::Pede(Pedido::Numero(s)),
            Op::PushInt(x) => {
                self.empilhar(VmValor::Int(x));
                Efeito::Segue
            },
            Op::PushStr(s) => {
                self.empilhar(VmValor::Str(s));
                Efeito::Segue
            },
            Op::PushBool(b) => {
                self.empilhar(VmValor::Bool(b));
                Efeito::Segue
            },
            Op::PushNull => {
                self.empilhar(VmValor::Null);
                Efeito::Segue
            },
            Op::Load(nome) => match procurar(&self.vars, globais, nome.as_str()) {
                Some(v) => {
                    self.empilhar(v);
                    Efeito::Segue
                },
                None => Efeito::Falha(frase("Variável '", nome.as_str(), "' não definida")),
            },
            Op::DefFunc { params, corpo, .. } => {
                self.empilhar(VmValor::Funcao { params, corpo });
                Efeito::Segue
            },
            _ => {
                let n = self.pilha.len();
                if n < 1 {
                    return vazia();
                }
                assert(self@.pilha[n - 1] == self.pilha@[n - 1]@);
                let v = self.pilha[n - 1].clone();
                self.empilhar(v);
                Efeito::Segue
            },
        }
    }

    fn fazer_da_pilha(&mut self, op: Op, globais: &Vec<(String, VmValor)>) -> (r: Efeito)
        requires
            da_pilha(op@),
        ensures
            mesmo_efeito(passo(op@, old(self)@, vm::pares_vistos(globais@)), efeito(r, final(self)@)),
    {
        let ghost q = self@;
        proof {
            reveal(passo);
        }
        match op {
            Op::Store(nome) => match self.desempilhar() {
                None => vazia(),
                Some(v) => {
                    let ghost p = self@;
                    guardar(&mut self.vars, nome, v);
                    assert(self@ == QuadroVisto { vars: self@.vars, ..p });
                    Efeito::Segue
                },
            },
            Op::MakeList(k) => match self.desempilhar_varios(k) {
                None => vazia(),
                Some(vs) => {
                    self.empilhar(VmValor::Lista(vs));
                    Efeito::Segue
                },
            },
            Op::MakeMap(ks) => self.fazer_mapa(&ks),
            Op::SetIndex => self.trocar_item(),
            Op::Neg => match self.desempilhar() {
                None => vazia(),
                Some(v) => self.dar(negar(v)),
            },
            Op::Not => match self.desempilhar() {
                None => vazia(),
                Some(v) => {
                    self.empilhar(VmValor::Bool(!v.e_verdadeiro()));
                    Efeito::Segue
                },
            },
            _ => match self.desempilhar() {
                None => vazia(),
                Some(_v) => Efeito::Segue,
            },
        }
    }

    fn fazer_de_salto(&mut self, op: Op, globais: &Vec<(String, VmValor)>) -> (r: Efeito)
        requires
            de_salto(op@),
        ensures
            mesmo_efeito(passo(op@, old(self)@, vm::pares_vistos(globais@)), efeito(r, final(self)@)),
    {
        let ghost q = self@;
        proof {
            reveal(passo);
        }
        match op {
            Op::Jump(a) => {
                self.ip = a;
                Efeito::Segue
            },
            Op::JumpFalse(a) => match self.desempilhar() {
                None => vazia(),
                Some(v) => {
                    if !v.e_verdadeiro() {
                        self.ip = a;
                    }
                    Efeito::Segue
                },
            },
            Op::JumpTrue(a) => match self.desempilhar() {
                None => vazia(),
                Some(v) => {
                    if v.e_verdadeiro() {
                        self.ip = a;
                    }
                    Efeito::Segue
                },
            },
            Op::Return => match self.desempilhar() {
                None => vazia(),
                Some(v) => Efeito::Acaba(Some(v)),
            },
            Op::ReturnNull => Efeito::Acaba(Some(VmValor::Null)),
            _ => Efeito::Acaba(None),
        }
    }

    fn fazer_de_chamada(&mut self, op: Op, globais: &Vec<(String, VmValor)>) -> (r: Efeito)
        requires
            de_chamada(op@),
        ensures
            mesmo_efeito(passo(op@, old(self)@, vm::pares_vistos(globais@)), efeito(r, final(self)@)),
    {
        let ghost q = self@;
        proof {
            reveal(passo);
        }
        match op {
            Op::Call(k) => self.chamar_valor(k),
            Op::CallNative(nome, k) => self.chamar_nome(nome, k, globais),
            Op::Include { caminho, obrigatorio } => Efeito::Pede(Pedido::Incluir { caminho, obrigatorio }),
            Op::Import { caminho, alias } => Efeito::Pede(Pedido::Importar { caminho, alias }),
            Op::Print(k) => self.escrever(k, " ", "\n"),
            Op::Write(k) => {
                let vazio = String::new();
                let r = self.escrever(k, "", vazio.as_str());
                proof {
                    if q.pilha.len() >= k {
                        let t = busca::juntos(textos_de(topo(q, k as int)), ""@);
                        assert(t + vazio@ =~= t);
                    }
                }
                r
            },
            _ => vazia(),
        }
    }

    fn fazer_de_laco(&mut self, op: Op, globais: &Vec<(String, VmValor)>) -> (r: Efeito)
        requires
            de_laco(op@),
        ensures
            mesmo_efeito(passo(op@, old(self)@, vm::pares_vistos(globais@)), efeito(r, final(self)@)),
    {
        let ghost q = self@;
        proof {
            reveal(passo);
        }
        match op {
            Op::IterStart { var } => self.iniciar_laco(var),
            Op::IterNext { var, loop_ini } => {
                let n = self.contadores.len();
                if n == 0 {
                    return Efeito::Falha("IterNext: sem contador ativo".to_owned());
                }
                match self.contadores[n - 1] {
                    Contador::Real(atual, fim, passo) => Efeito::Pede(
                        Pedido::Avancar { var, alvo: loop_ini, atual, fim, passo },
                    ),
                    Contador::Inteiro(atual, fim, passo) => self.avancar_inteiro(var, loop_ini, atual, fim, passo),
                }
            },
            Op::TryCatch(a) => {
                self.capturas.push(a);
                Efeito::Segue
            },
            Op::EndTry => {
                let _x = self.capturas.pop();
                Efeito::Segue
            },
            _ => match self.desempilhar() {
                None => vazia(),
                Some(v) => match self.capturas.pop() {
                    Some(a) => {
                        self.ip = a;
                        self.empilhar(v);
                        assert(self@.pilha =~= q.pilha);
                        Efeito::Segue
                    },
                    None => Efeito::Falha(v.texto()),
                },
            },
        }
    }

    /// Executa um comando, com o indice do quadro ja depois dele.
    pub fn executar(&mut self, op: Op, globais: &Vec<(String, VmValor)>) -> (r: Efeito)
        ensures
            mesmo_efeito(passo(op@, old(self)@, vm::pares_vistos(globais@)), efeito(r, final(self)@)),
    {
        proof {
            reveal(passo);
        }
        if eh_de_dois(&op) {
            if self.pilha.len() == 1 {
                if let Some(s) = tensor::recusar_topo(&op, &self.pilha[0]) {
                    return self.dar(s);
                }
            }
            return match self.desempilhar_dois() {
                None => vazia(),
                Some((a, b)) => self.dar(executar_binaria(&op, a, b)),
            };
        }
        match &op {
            Op::PushNum(_) | Op::PushInt(_) | Op::PushStr(_) | Op::PushBool(_) | Op::PushNull | Op::Load(_) | Op::DefFunc { .. } | Op::Dup => self.fazer_constante(op, globais),
            Op::Store(_) | Op::MakeList(_) | Op::MakeMap(_) | Op::SetIndex | Op::Neg | Op::Not | Op::Pop => self.fazer_da_pilha(op, globais),
            Op::Jump(_) | Op::JumpFalse(_) | Op::JumpTrue(_) | Op::Return | Op::ReturnNull | Op::Halt => self.fazer_de_salto(op, globais),
            Op::Call(_) | Op::CallNative(_, _) | Op::Include { .. } | Op::Import { .. } | Op::Print(_) | Op::Write(_) => self.fazer_de_chamada(op, globais),
            Op::IterStart { .. } | Op::IterNext { .. } | Op::TryCatch(_) | Op::EndTry | Op::Throw => self.fazer_de_laco(op, globais),
            _ => match self.desempilhar() {
                None => vazia(),
                Some(v) => self.dar(tensor::executar_unaria(&op, v)),
            },
        }
    }
}

// ---- Respostas --------------------------------------------------------------------------

/// A resposta a um pedido.
#[derive(Debug)]
pub enum Resposta {
    /// Um numero com ponto.
    Numero(Decimal),
    /// Sim ou nao.
    Logico(bool),
    /// Um numero com ponto e se o laco continua.
    Contagem(Decimal, bool),
    /// Os numeros de um tensor.
    Numeros(Result<Vec<Decimal>, String>),
    /// O que uma funcao nativa deu.
    Valor(Result<VmValor, String>),
    /// O codigo de um arquivo; nenhum se nao ha nada a executar.
    Codigo(Result<Option<Vec<Op>>, String>),
    /// Foi feito.
    Feito,
}

/// O que uma resposta representa.
pub ghost enum RespostaVista {
    Numero(u64, Seq<char>),
    Logico(bool),
    Contagem(u64, Seq<char>, bool),
    Numeros(Result<Seq<(u64, Seq<char>)>, Seq<char>>),
    Valor(Result<vm::Visto, Seq<char>>),
    Codigo(Result<Option<Seq<bytecode::Comando>>, Seq<char>>),
    Feito,
}

impl Resposta {
    pub open spec fn view(&self) -> RespostaVista {
        match self {
            Resposta::Numero(d) => RespostaVista::Numero(d.bits, d.texto@),
            Resposta::Logico(b) => RespostaVista::Logico(*b),
            Resposta::Contagem(d, b) => RespostaVista::Contagem(d.bits, d.texto@, *b),
            Resposta::Numeros(r) => RespostaVista::Numeros(
                match r {
                    Ok(v) => Ok(vm::numeros(v@)),
                    Err(m) => Err(m@),
                },
            ),
            Resposta::Valor(r) => RespostaVista::Valor(
                match r {
                    Ok(v) => Ok(v@),
                    Err(m) => Err(m@),
                },
            ),
            Resposta::Codigo(r) => RespostaVista::Codigo(
                match r {
                    Ok(Some(v)) => Ok(Some(bytecode::comandos(v@))),
                    Ok(None) => Ok(None),
                    Err(m) => Err(m@),
                },
            ),
            Resposta::Feito => RespostaVista::Feito,
        }
    }
}

/// Como um quadro segue com a resposta a um pedido. Uma resposta de outro tipo nao serve.
pub open spec fn retoma(q: QuadroVisto, p: operacoes::PedidoVisto, r: RespostaVista) -> EfeitoVisto {
    match (p, r) {
        (operacoes::PedidoVisto::Numero(_), RespostaVista::Numero(b, t)) => poe(q, vm::Visto::Num(b, t)),
        (operacoes::PedidoVisto::Negar(_), RespostaVista::Numero(b, t)) => poe(q, vm::Visto::Num(b, t)),
        (operacoes::PedidoVisto::Conta { inteira, .. }, RespostaVista::Numero(b, t)) => poe(
            q,
            if inteira {
                vm::Visto::Int(decimal::inteiro_de(b) as i64)
            } else {
                vm::Visto::Num(b, t)
            },
        ),
        (operacoes::PedidoVisto::Faixa { var, ini, fim, passo }, RespostaVista::Logico(b)) => poe(
            QuadroVisto {
                contadores: q.contadores.push(Contador::Real(ini.0, fim, passo)),
                vars: if b {
                    vm::com_valor(q.vars, var, vm::Visto::Num(ini.0, ini.1))
                } else {
                    q.vars
                },
                ..q
            },
            vm::Visto::Bool(b),
        ),
        (operacoes::PedidoVisto::Avancar { var, alvo, atual, fim, passo }, RespostaVista::Contagem(x, t, b)) => if q.contadores.len()
            == 0 {
            EfeitoVisto::Panico
        } else if b {
            EfeitoVisto::Segue(
                QuadroVisto {
                    contadores: q.contadores.update(q.contadores.len() - 1, Contador::Real(x, fim, passo)),
                    vars: vm::com_valor(q.vars, var, vm::Visto::Num(x, t)),
                    ip: alvo,
                    ..q
                },
            )
        } else {
            EfeitoVisto::Segue(QuadroVisto { contadores: q.contadores.drop_last(), ..q })
        },
        (operacoes::PedidoVisto::Tensor(pt), RespostaVista::Numeros(rn)) => match rn {
            Err(m) => EfeitoVisto::Falha(q, m),
            Ok(d) => match tensor::valor_da_conta(pt, d) {
                Some(v) => poe(q, v),
                None => EfeitoVisto::Panico,
            },
        },
        (operacoes::PedidoVisto::Nativa { .. }, RespostaVista::Valor(rv)) => match rv {
            Err(m) => EfeitoVisto::Falha(q, m),
            Ok(v) => poe(q, v),
        },
        (operacoes::PedidoVisto::Efeito(_), RespostaVista::Valor(rv)) => match rv {
            Err(m) => EfeitoVisto::Falha(q, m),
            Ok(v) => poe(q, v),
        },
        (operacoes::PedidoVisto::Incluir { .. }, RespostaVista::Codigo(rc)) => match rc {
            Err(m) => EfeitoVisto::Falha(q, m),
            Ok(None) => EfeitoVisto::Segue(q),
            Ok(Some(c)) => EfeitoVisto::Chama(q, c, q.vars),
        },
        (operacoes::PedidoVisto::Importar { .. }, RespostaVista::Codigo(rc)) => match rc {
            Err(m) => EfeitoVisto::Falha(q, m),
            Ok(None) => EfeitoVisto::Segue(q),
            Ok(Some(c)) => EfeitoVisto::Chama(q, c, Seq::empty()),
        },
        (operacoes::PedidoVisto::Escrever(_), RespostaVista::Feito) => poe(q, vm::Visto::Null),
        _ => EfeitoVisto::Panico,
    }
}

impl Quadro {
    fn retomar_numero(&mut self, p: &Pedido, d: Decimal) -> (r: Efeito)
        ensures
            efeito(r, final(self)@) == retoma(old(self)@, p@, RespostaVista::Numero(d.bits, d.texto@)) || (r is Panico
                && retoma(old(self)@, p@, RespostaVista::Numero(d.bits, d.texto@)) is Panico),
    {
        match p {
            Pedido::Numero(_) => {
                self.empilhar(VmValor::Num(d));
                Efeito::Segue
            },
            Pedido::Negar(_) => {
                self.empilhar(VmValor::Num(d));
                Efeito::Segue
            },
            Pedido::Conta { inteira, .. } => {
                if *inteira {
                    self.empilhar(VmValor::Int(decimal::para_inteiro(d.bits)));
                } else {
                    self.empilhar(VmValor::Num(d));
                }
                Efeito::Segue
            },
            _ => Efeito::Panico,
        }
    }

    fn retomar_numeros(&mut self, p: PedidoTensor, r: Result<Vec<Decimal>, String>) -> (e: Efeito)
        ensures
            efeito(e, final(self)@) == retoma(
                old(self)@,
                operacoes::PedidoVisto::Tensor(p@),
                Resposta::Numeros(r)@,
            ),
    {
        match r {
            Err(m) => Efeito::Falha(m),
            Ok(d) => match tensor::concluir(p, d) {
                Some(v) => {
                    self.empilhar(v);
                    Efeito::Segue
                },
                None => Efeito::Panico,
            },
        }
    }

    fn retomar_laco(&mut self, var: String, ini: Decimal, fim: u64, passo: u64, b: bool) -> (e: Efeito)
        ensures
            efeito(e, final(self)@) == retoma(
                old(self)@,
                operacoes::PedidoVisto::Faixa { var: var@, ini: (ini.bits, ini.texto@), fim, passo },
                RespostaVista::Logico(b),
            ),
    {
        let ghost q = self@;
        self.contadores.push(Contador::Real(ini.bits, fim, passo));
        if b {
            guardar(&mut self.vars, var, VmValor::Num(ini));
        }
        assert(self@ == QuadroVisto { contadores: self@.contadores, vars: self@.vars, ..q });
        self.empilhar(VmValor::Bool(b));
        Efeito::Segue
    }

    fn avancar_laco(&mut self, var: String, alvo: usize, atual: u64, fim: u64, passo: u64, d: Decimal, b: bool) -> (e:
        Efeito)
        ensures
            efeito(e, final(self)@) == retoma(
                old(self)@,
                operacoes::PedidoVisto::Avancar { var: var@, alvo: alvo as int, atual, fim, passo },
                RespostaVista::Contagem(d.bits, d.texto@, b),
            ),
    {
        let ghost q = self@;
        let n = self.contadores.len();
        if n == 0 {
            return Efeito::Panico;
        }
        if b {
            self.contadores.set(n - 1, Contador::Real(d.bits, fim, passo));
            guardar(&mut self.vars, var, VmValor::Num(d));
            self.ip = alvo;
            assert(self@ == QuadroVisto { contadores: self@.contadores, vars: self@.vars, ip: alvo as int, ..q });
        } else {
            let _x = self.contadores.pop();
            assert(self@ == QuadroVisto { contadores: q.contadores.drop_last(), ..q });
        }
        Efeito::Segue
    }

    /// Segue com a resposta a um pedido.
    pub fn retomar(&mut self, p: Pedido, r: Resposta) -> (e: Efeito)
        ensures
            efeito(e, final(self)@) == retoma(old(self)@, p@, r@),
    {
        match r {
            Resposta::Numero(d) => self.retomar_numero(&p, d),
            Resposta::Logico(b) => match p {
                Pedido::Faixa { var, ini, fim, passo } => self.retomar_laco(var, ini, fim, passo, b),
                _ => Efeito::Panico,
            },
            Resposta::Contagem(d, b) => match p {
                Pedido::Avancar { var, alvo, atual, fim, passo } => self.avancar_laco(
                    var,
                    alvo,
                    atual,
                    fim,
                    passo,
                    d,
                    b,
                ),
                _ => Efeito::Panico,
            },
            Resposta::Numeros(n) => match p {
                Pedido::Tensor(pt) => self.retomar_numeros(pt, n),
                _ => Efeito::Panico,
            },
            Resposta::Valor(v) => match p {
                Pedido::Efeito(_) | Pedido::Nativa { .. } => match v {
                    Err(m) => Efeito::Falha(m),
                    Ok(x) => {
                        self.empilhar(x);
                        Efeito::Segue
                    },
                },
                _ => Efeito::Panico,
            },
            Resposta::Codigo(c) => match p {
                Pedido::Incluir { .. } => match c {
                    Err(m) => Efeito::Falha(m),
                    Ok(None) => Efeito::Segue,
                    Ok(Some(corpo)) => Efeito::Chama { corpo, vars: copiar_pares(&self.vars) },
                },
                Pedido::Importar { .. } => match c {
                    Err(m) => Efeito::Falha(m),
                    Ok(None) => Efeito::Segue,
                    Ok(Some(corpo)) => {
                        let vars: Vec<(String, VmValor)> = Vec::new();
                        assert(vm::pares_vistos(vars@) =~= Seq::empty());
                        Efeito::Chama { corpo, vars }
                    },
                },
                _ => Efeito::Panico,
            },
            Resposta::Feito => match p {
                Pedido::Escrever(_) => {
                    self.empilhar(VmValor::Null);
                    Efeito::Segue
                },
                _ => Efeito::Panico,
            },
        }
    }
}

// ---- A maquina --------------------------------------------------------------------------

/// Para que serve um quadro: o que fazer quando ele acaba.
#[derive(Debug)]
pub enum Papel {
    /// O programa; no fim as variaveis ficam como globais, se `guardar`.
    Base { guardar: bool },
    /// Uma chamada: o valor vai para a pilha de quem chamou.
    Chamada,
    /// Um arquivo incluido: as variaveis juntam-se as de quem incluiu.
    Inclusao,
    /// Um modulo: os nomes publicos vao para quem importou, soltos ou num mapa.
    Importacao(Option<String>),
}

/// O que um papel representa.
pub ghost enum PapelVisto {
    Base { guardar: bool },
    Chamada,
    Inclusao,
    Importacao(Option<Seq<char>>),
}

impl Papel {
    pub open spec fn view(&self) -> PapelVisto {
        match self {
            Papel::Base { guardar } => PapelVisto::Base { guardar: *guardar },
            Papel::Chamada => PapelVisto::Chamada,
            Papel::Inclusao => PapelVisto::Inclusao,
            Papel::Importacao(a) => PapelVisto::Importacao(
                match a {
                    Some(s) => Some(s@),
                    None => None,
                },
            ),
        }
    }
}

/// A maquina.
pub struct Maquina {
    pub quadros: Vec<(Quadro, Papel)>,
    pub globais: Vec<(String, VmValor)>,
    pub operacoes: u64,
    pub limite_operacoes: u64,
    pub registro: Registro,
}

/// O que a maquina representa.
pub ghost struct MaquinaVista {
    pub quadros: Seq<(QuadroVisto, PapelVisto)>,
    pub globais: Nomes,
    pub operacoes: u64,
    pub limite: u64,
    pub registro: dispositivos::RegistroVisto,
}

/// Os quadros vistos.
pub open spec fn quadros_vistos(v: Seq<(Quadro, Papel)>) -> Seq<(QuadroVisto, PapelVisto)> {
    v.map_values(|x: (Quadro, Papel)| (x.0@, x.1@))
}

impl Maquina {
    pub open spec fn view(&self) -> MaquinaVista {
        MaquinaVista {
            quadros: quadros_vistos(self.quadros@),
            globais: vm::pares_vistos(self.globais@),
            operacoes: self.operacoes,
            limite: self.limite_operacoes,
            registro: self.registro@,
        }
    }
}

/// O que a maquina fez num passo.
#[derive(Debug)]
pub enum Acao {
    /// Andou.
    Continua,
    /// Espera a resposta a um pedido.
    Pede(Pedido),
    /// Acabou, com um valor.
    Terminou(VmValor),
    /// Falhou.
    Falhou(String),
    /// Nao ha como seguir.
    Panico,
    /// Nao ha nada a fazer.
    Parada,
}

/// O que uma acao representa.
pub ghost enum AcaoVista {
    Continua,
    Pede(operacoes::PedidoVisto),
    Terminou(vm::Visto),
    Falhou(Seq<char>),
    Panico,
    Parada,
}

impl Acao {
    pub open spec fn view(&self) -> AcaoVista {
        match self {
            Acao::Continua => AcaoVista::Continua,
            Acao::Pede(p) => AcaoVista::Pede(p@),
            Acao::Terminou(v) => AcaoVista::Terminou(v@),
            Acao::Falhou(m) => AcaoVista::Falhou(m@),
            Acao::Panico => AcaoVista::Panico,
            Acao::Parada => AcaoVista::Parada,
        }
    }
}

/// Os nomes com os primeiros `n` de outros.
pub open spec fn unidos(m: Nomes, outros: Nomes, n: int) -> Nomes
    decreases n,
{
    if n <= 0 || n > outros.len() {
        m
    } else {
        vm::com_valor(unidos(m, outros, n - 1), outros[n - 1].0, outros[n - 1].1)
    }
}

/// Um nome publico nao comeca com sublinhado.
pub open spec fn publico(k: Seq<char>) -> bool {
    !(k.len() > 0 && k[0] == '_')
}

/// Os nomes publicos.
pub open spec fn publicos(m: Nomes) -> Nomes
    decreases m.len(),
{
    if m.len() == 0 {
        Seq::empty()
    } else if publico(m.last().0) {
        publicos(m.drop_last()).push(m.last())
    } else {
        publicos(m.drop_last())
    }
}

/// O que fica de um quadro que acabou para o quadro que esperava por ele.
pub open spec fn recebe(
    q: QuadroVisto,
    papel: PapelVisto,
    acabado: QuadroVisto,
    v: Option<vm::Visto>,
) -> QuadroVisto {
    match papel {
        PapelVisto::Inclusao => QuadroVisto {
            vars: unidos(q.vars, acabado.vars, acabado.vars.len() as int),
            ..q
        },
        PapelVisto::Importacao(alias) => {
            let ps = publicos(acabado.vars);
            QuadroVisto {
                vars: match alias {
                    Some(a) => vm::com_valor(q.vars, a, vm::Visto::Mapa(ps)),
                    None => unidos(q.vars, ps, ps.len() as int),
                },
                ..q
            }
        },
        _ => com_topo(
            q,
            match v {
                Some(x) => x,
                None => vm::Visto::Null,
            },
        ),
    }
}

/// A maquina com o quadro de cima trocado.
pub open spec fn com_quadro(m: MaquinaVista, q: QuadroVisto) -> MaquinaVista {
    let n = m.quadros.len();
    MaquinaVista { quadros: m.quadros.update(n - 1, (q, m.quadros[n - 1].1)), ..m }
}

/// As globais quando tudo acaba: as variaveis do programa, se e para as guardar.
pub open spec fn globais_no_fim(m: MaquinaVista) -> Nomes {
    match m.quadros[0].1 {
        PapelVisto::Base { guardar } if guardar => m.quadros[0].0.vars,
        _ => m.globais,
    }
}

/// O quadro com o valor do topo marcado.
pub open spec fn topo_marcado(r: dispositivos::RegistroVisto, q: QuadroVisto) -> (
    dispositivos::RegistroVisto,
    QuadroVisto,
) {
    if q.pilha.len() == 0 {
        (r, q)
    } else {
        let (s, v) = dispositivos::marcado(r, q.pilha.last());
        (s, QuadroVisto { pilha: q.pilha.drop_last().push(v), ..q })
    }
}

/// A maquina depois do efeito de um comando no quadro de cima. Um tensor novo fica marcado, e o
/// que se pede ao registro dos dispositivos atende-se logo.
pub open spec fn aplica(m: MaquinaVista, e: EfeitoVisto, papel: PapelVisto) -> (MaquinaVista, AcaoVista) {
    let n = m.quadros.len();
    match e {
        EfeitoVisto::Segue(q) => {
            let (registro, c) = topo_marcado(m.registro, q);
            (com_quadro(MaquinaVista { registro, ..m }, c), AcaoVista::Continua)
        },
        EfeitoVisto::Pede(q, operacoes::PedidoVisto::Dispositivo(p)) => {
            let (registro, v) = dispositivos::atendido(m.registro, p);
            (com_quadro(MaquinaVista { registro, ..m }, com_topo(q, v)), AcaoVista::Continua)
        },
        EfeitoVisto::Pede(q, p) => (com_quadro(m, q), AcaoVista::Pede(p)),
        EfeitoVisto::Chama(q, corpo, vars) => {
            let c = com_quadro(m, q);
            (
                MaquinaVista { quadros: c.quadros.push((quadro_novo(corpo, vars), papel)), ..c },
                AcaoVista::Continua,
            )
        },
        EfeitoVisto::Acaba(q, v) => if n == 1 {
            (
                MaquinaVista { quadros: Seq::empty(), globais: globais_no_fim(com_quadro(m, q)), ..m },
                AcaoVista::Terminou(
                    match v {
                        Some(x) => x,
                        None => vm::Visto::Null,
                    },
                ),
            )
        } else {
            (
                MaquinaVista {
                    quadros: m.quadros.drop_last().update(
                        n - 2,
                        (recebe(m.quadros[n - 2].0, m.quadros[n - 1].1, q, v), m.quadros[n - 2].1),
                    ),
                    ..m
                },
                AcaoVista::Continua,
            )
        },
        EfeitoVisto::Falha(q, msg) => (
            MaquinaVista { quadros: Seq::empty(), globais: globais_no_fim(com_quadro(m, q)), ..m },
            AcaoVista::Falhou(msg),
        ),
        EfeitoVisto::Panico => (MaquinaVista { quadros: m.quadros.drop_last(), ..m }, AcaoVista::Panico),
    }
}

/// A falha de quem passou do limite de operacoes.
pub open spec fn limite_excedido(limite: u64) -> Seq<char> {
    "Limite de "@ + texto::decimal(limite as nat) + " operacoes excedido na VM"@
}

/// Um passo da maquina.
#[verifier::opaque]
pub open spec fn anda(m: MaquinaVista) -> (MaquinaVista, AcaoVista) {
    let n = m.quadros.len();
    if n == 0 {
        (m, AcaoVista::Parada)
    } else {
        let q = m.quadros[n - 1].0;
        if q.ip >= q.codigo.len() {
            aplica(m, EfeitoVisto::Acaba(q, None), PapelVisto::Chamada)
        } else {
            let feitas = if m.operacoes == u64::MAX {
                m.operacoes
            } else {
                (m.operacoes + 1) as u64
            };
            let c = MaquinaVista { operacoes: feitas, ..m };
            if m.limite > 0 && feitas > m.limite {
                aplica(c, EfeitoVisto::Falha(q, limite_excedido(m.limite)), PapelVisto::Chamada)
            } else {
                aplica(
                    c,
                    passo(q.codigo[q.ip], QuadroVisto { ip: q.ip + 1, ..q }, m.globais),
                    PapelVisto::Chamada,
                )
            }
        }
    }
}

/// O papel do quadro novo que a resposta a um pedido abre.
pub open spec fn papel_do_pedido(p: operacoes::PedidoVisto) -> PapelVisto {
    match p {
        operacoes::PedidoVisto::Incluir { .. } => PapelVisto::Inclusao,
        operacoes::PedidoVisto::Importar { alias, .. } => PapelVisto::Importacao(alias),
        _ => PapelVisto::Chamada,
    }
}

/// A maquina segue com a resposta a um pedido.
pub open spec fn responde(m: MaquinaVista, p: operacoes::PedidoVisto, r: RespostaVista) -> (
    MaquinaVista,
    AcaoVista,
) {
    let n = m.quadros.len();
    if n == 0 {
        (m, AcaoVista::Parada)
    } else {
        aplica(m, retoma(m.quadros[n - 1].0, p, r), papel_do_pedido(p))
    }
}

/// Ate `k` passos, enquanto a maquina anda.
pub open spec fn corre(m: MaquinaVista, k: int) -> (MaquinaVista, AcaoVista)
    decreases k,
{
    if k <= 0 {
        (m, AcaoVista::Continua)
    } else {
        let r = anda(m);
        if r.1 is Continua {
            corre(r.0, k - 1)
        } else {
            r
        }
    }
}

/// O limite de operacoes que uma configuracao diz.
pub open spec fn limite_de(config: Option<Seq<char>>) -> u64 {
    match config {
        Some(s) => match busca::lido_natural(s, u64::MAX as nat) {
            Some(n) => n as u64,
            None => 10000000,
        },
        None => 10000000,
    }
}

/// Junta nomes.
pub fn unir(m: &mut Vec<(String, VmValor)>, outros: &Vec<(String, VmValor)>)
    ensures
        vm::pares_vistos(final(m)@) == unidos(
            vm::pares_vistos(old(m)@),
            vm::pares_vistos(outros@),
            outros@.len() as int,
        ),
{
    let ghost m0 = vm::pares_vistos(m@);
    let ghost o = vm::pares_vistos(outros@);
    let mut i: usize = 0;
    while i < outros.len()
        invariant
            i <= outros@.len(),
            o == vm::pares_vistos(outros@),
            vm::pares_vistos(m@) == unidos(m0, o, i as int),
        decreases outros@.len() - i,
    {
        assert(o[i as int] == (outros@[i as int].0@, outros@[i as int].1@));
        guardar(m, outros[i].0.clone(), outros[i].1.clone());
        i += 1;
    }
}

fn eh_publico(k: &str) -> (r: bool)
    ensures
        r == publico(k@),
{
    let cs = texto::caracteres(k);
    !(cs.len() > 0 && cs[0] == '_')
}

/// Os nomes publicos.
pub fn so_publicos(m: &Vec<(String, VmValor)>) -> (r: Vec<(String, VmValor)>)
    ensures
        vm::pares_vistos(r@) == publicos(vm::pares_vistos(m@)),
{
    let ghost p = vm::pares_vistos(m@);
    let mut r: Vec<(String, VmValor)> = Vec::new();
    assert(vm::pares_vistos(r@) =~= Seq::empty());
    let mut i: usize = 0;
    while i < m.len()
        invariant
            i <= m@.len(),
            p == vm::pares_vistos(m@),
            vm::pares_vistos(r@) == publicos(p.take(i as int)),
        decreases m@.len() - i,
    {
        assert(p.take(i + 1).drop_last() =~= p.take(i as int));
        assert(p.take(i + 1).last() == (m@[i as int].0@, m@[i as int].1@));
        if eh_publico(m[i].0.as_str()) {
            let ghost antes = r@;
            let k = m[i].0.clone();
            let v = m[i].1.clone();
            r.push((k, v));
            assert(vm::pares_vistos(r@) =~= vm::pares_vistos(antes).push(p[i as int]));
        }
        i += 1;
    }
    assert(p.take(i as int) =~= p);
    r
}

fn receber(q: &mut Quadro, papel: Papel, acabado: Quadro, v: Option<VmValor>)
    ensures
        final(q)@ == recebe(old(q)@, papel@, acabado@, talvez(v)),
{
    let ghost q0 = q@;
    match papel {
        Papel::Inclusao => {
            unir(&mut q.vars, &acabado.vars);
            assert(q@ == QuadroVisto { vars: q@.vars, ..q0 });
        },
        Papel::Importacao(alias) => {
            let ps = so_publicos(&acabado.vars);
            match alias {
                Some(a) => guardar(&mut q.vars, a, VmValor::Mapa(ps)),
                None => unir(&mut q.vars, &ps),
            }
            assert(q@ == QuadroVisto { vars: q@.vars, ..q0 });
        },
        _ => q.empilhar(
            match v {
                Some(x) => x,
                None => VmValor::Null,
            },
        ),
    }
}

proof fn lema_empilha(v: Seq<(Quadro, Papel)>, x: (Quadro, Papel))
    ensures
        quadros_vistos(v.push(x)) == quadros_vistos(v).push((x.0@, x.1@)),
{
    assert(quadros_vistos(v.push(x)) =~= quadros_vistos(v).push((x.0@, x.1@)));
}

/// Se duas maquinas so diferem no que ficou nas pilhas de quadros que ja nao ha.
proof fn lema_falha(m: MaquinaVista, a: EfeitoVisto, b: EfeitoVisto, papel: PapelVisto)
    requires
        m.quadros.len() > 0,
        mesmo_efeito(a, b),
    ensures
        aplica(m, a, papel) == aplica(m, b, papel),
{
    match (a, b) {
        (EfeitoVisto::Falha(q, x), EfeitoVisto::Falha(p, y)) => {
            assert(p.vars == q.vars);
            assert(globais_no_fim(com_quadro(m, q)) == globais_no_fim(com_quadro(m, p)));
        },
        _ => {},
    }
}

impl Maquina {
    /// Uma maquina nova, com o limite de operacoes que a configuracao diz.
    pub fn nova(config: Option<&str>) -> (r: Self)
        ensures
            r@ == (MaquinaVista {
                quadros: Seq::empty(),
                globais: Seq::empty(),
                operacoes: 0,
                registro: dispositivos::vazio(),
                limite: limite_de(
                    match config {
                        Some(s) => Some(s@),
                        None => None,
                    },
                ),
            }),
    {
        let limite = match config {
            Some(s) => match busca::ler_natural(s, u64::MAX) {
                Some(n) => n,
                None => 10000000,
            },
            None => 10000000,
        };
        let r = Maquina {
            quadros: Vec::new(),
            globais: Vec::new(),
            operacoes: 0,
            limite_operacoes: limite,
            registro: Registro::novo(),
        };
        assert(quadros_vistos(r.quadros@) =~= Seq::empty());
        assert(vm::pares_vistos(r.globais@) =~= Seq::empty());
        r
    }

    /// Chama uma funcao nativa; o que ela pede ao registro dos dispositivos atende-se logo.
    pub fn chamar_nativa(&mut self, nome: &str, args: Vec<VmValor>) -> (r: Saida)
        ensures
            match nativas::nativa(nome@, vm::vistos(args@)) {
                operacoes::SaidaVista::Pede(operacoes::PedidoVisto::Dispositivo(p)) => {
                    let (registro, v) = dispositivos::atendido(old(self)@.registro, p);
                    &&& final(self)@ == (MaquinaVista { registro, ..old(self)@ })
                    &&& r@ == operacoes::SaidaVista::Valor(v)
                },
                s => final(self)@ == old(self)@ && r@ == s,
            },
    {
        match nativas::chamar_nativa(nome, args) {
            Saida::Pede(Pedido::Dispositivo(p)) => Saida::Valor(self.registro.atender(p)),
            s => s,
        }
    }

    /// Define uma variavel global; um tensor fica marcado.
    pub fn definir_global(&mut self, nome: String, valor: VmValor)
        ensures
            ({
                let (registro, v) = dispositivos::marcado(old(self)@.registro, valor@);
                final(self)@ == (MaquinaVista {
                    globais: vm::com_valor(old(self)@.globais, nome@, v),
                    registro,
                    ..old(self)@
                })
            }),
    {
        let v = self.registro.marcar(valor);
        guardar(&mut self.globais, nome, v);
    }

    /// Define varias variaveis globais.
    pub fn definir_globais(&mut self, valores: &Vec<(String, VmValor)>)
        ensures
            final(self)@ == (MaquinaVista {
                globais: unidos(old(self)@.globais, vm::pares_vistos(valores@), valores@.len() as int),
                ..old(self)@
            }),
    {
        unir(&mut self.globais, valores);
    }

    /// As variaveis globais.
    pub fn globais(&self) -> (r: Vec<(String, VmValor)>)
        ensures
            vm::pares_vistos(r@) == self@.globais,
    {
        copiar_pares(&self.globais)
    }

    /// Comeca um programa de que nao se quer o valor.
    pub fn executar(&mut self, ops: &Vec<Op>)
        ensures
            final(self)@ == (MaquinaVista {
                quadros: seq![
                    (
                        quadro_novo(bytecode::comandos(ops@), old(self)@.globais),
                        PapelVisto::Base { guardar: true },
                    ),
                ],
                ..old(self)@
            }),
    {
        self.executar_com_retorno(ops);
    }

    /// Comeca um programa; um `retornar` fora de funcoes e o valor com que ele termina.
    pub fn executar_com_retorno(&mut self, ops: &Vec<Op>)
        ensures
            final(self)@ == (MaquinaVista {
                quadros: seq![
                    (
                        quadro_novo(bytecode::comandos(ops@), old(self)@.globais),
                        PapelVisto::Base { guardar: true },
                    ),
                ],
                ..old(self)@
            }),
    {
        let q = Quadro::novo(copiar_ops(ops), copiar_pares(&self.globais));
        let mut v: Vec<(Quadro, Papel)> = Vec::new();
        v.push((q, Papel::Base { guardar: true }));
        self.quadros = v;
        assert(self@.quadros =~= seq![
            (
                quadro_novo(bytecode::comandos(ops@), old(self)@.globais),
                PapelVisto::Base { guardar: true },
            ),
        ]);
    }

    /// Comeca a chamada de uma funcao.
    pub fn chamar_funcao(&mut self, funcao: VmValor, args: Vec<VmValor>) -> (r: Result<(), String>)
        ensures
            match funcao@ {
                vm::Visto::Funcao { params, corpo } => if params.len() == args@.len() {
                    r is Ok && final(self)@ == (MaquinaVista {
                        quadros: seq![
                            (
                                quadro_novo(
                                    corpo,
                                    ligados(old(self)@.globais, params, vm::vistos(args@), params.len() as int),
                                ),
                                PapelVisto::Base { guardar: false },
                            ),
                        ],
                        ..old(self)@
                    })
                } else {
                    (r matches Err(m) && m@ == "Funcao espera "@ + texto::decimal(params.len())
                        + " arg(s), recebeu "@ + texto::decimal(args@.len())) && final(self)@ == old(self)@
                },
                v => (r matches Err(m) && m@ == vm::texto_de(v) + " nao e uma funcao"@) && final(self)@ == old(self)@,
            },
    {
        match funcao {
            VmValor::Funcao { params, corpo } => {
                assert(texto::textos(params@).len() == params@.len());
                if params.len() != args.len() {
                    let a = texto::natural(params.len() as u64);
                    let b = texto::natural(args.len() as u64);
                    let mut s = frase("Funcao espera ", a.as_str(), " arg(s), recebeu ");
                    s.append(b.as_str());
                    return Err(s);
                }
                let mut vars = copiar_pares(&self.globais);
                ligar(&mut vars, &params, &args);
                let q = Quadro::novo(corpo, vars);
                let mut v: Vec<(Quadro, Papel)> = Vec::new();
                let ghost qv = q@;
                v.push((q, Papel::Base { guardar: false }));
                self.quadros = v;
                assert(self@.quadros =~= seq![(qv, PapelVisto::Base { guardar: false })]);
                Ok(())
            },
            _ => {
                let mut s = funcao.texto();
                s.append(" nao e uma funcao");
                Err(s)
            },
        }
    }

    /// Larga tudo o que estava em execucao.
    fn largar(&mut self, q: Quadro, papel: Papel, Ghost(m): Ghost<MaquinaVista>)
        requires
            m.quadros.len() > 0,
            old(self)@ == (MaquinaVista { quadros: m.quadros.drop_last(), ..m }),
            m.quadros.last() == (q@, papel@),
        ensures
            final(self)@ == (MaquinaVista { quadros: Seq::empty(), globais: globais_no_fim(m), ..m }),
    {
        let n = self.quadros.len();
        assert(self@.quadros.len() == n);
        if n == 0 {
            if let Papel::Base { guardar } = papel {
                if guardar {
                    self.globais = q.vars;
                }
            }
        } else {
            assert(m.quadros.drop_last()[0] == m.quadros[0]);
            assert(self@.quadros[0] == (self.quadros@[0].0@, self.quadros@[0].1@));
            let (base, p) = self.quadros.remove(0);
            if let Papel::Base { guardar } = p {
                if guardar {
                    self.globais = base.vars;
                }
            }
        }
        self.quadros = Vec::new();
        assert(self@.quadros =~= Seq::empty());
    }

    /// Aplica o efeito de um comando do quadro que foi tirado de cima.
    fn aplicar(&mut self, q: Quadro, papel: Papel, e: Efeito, novo: Papel, Ghost(m): Ghost<MaquinaVista>) -> (r: Acao)
        requires
            m.quadros.len() > 0,
            old(self)@ == (MaquinaVista { quadros: m.quadros.drop_last(), ..m }),
            m.quadros.last().1 == papel@,
        ensures
            (final(self)@, r@) == aplica(m, efeito(e, q@), novo@),
    {
        let ghost c = com_quadro(m, q@);
        let ghost qv = q@;
        let ghost base = self.quadros@;
        assert(c.quadros.drop_last() =~= m.quadros.drop_last());
        assert(c.quadros =~= m.quadros.drop_last().push((qv, papel@)));
        proof {
            lema_empilha(base, (q, papel));
        }
        match e {
            Efeito::Segue => {
                let mut q = q;
                q.marcar_topo(&mut self.registro);
                let ghost marcado = q@;
                self.quadros.push((q, papel));
                proof {
                    lema_empilha(base, (q, papel));
                }
                assert(self@.quadros =~= com_quadro(m, marcado).quadros);
                Acao::Continua
            },
            Efeito::Pede(Pedido::Dispositivo(p)) => {
                let mut q = q;
                let v = self.registro.atender(p);
                q.empilhar(v);
                let ghost com_valor = q@;
                self.quadros.push((q, papel));
                proof {
                    lema_empilha(base, (q, papel));
                }
                assert(self@.quadros =~= com_quadro(m, com_valor).quadros);
                Acao::Continua
            },
            Efeito::Pede(p) => {
                self.quadros.push((q, papel));
                assert(self@.quadros =~= c.quadros);
                Acao::Pede(p)
            },
            Efeito::Chama { corpo, vars } => {
                let sub = Quadro::novo(corpo, vars);
                self.quadros.push((q, papel));
                self.quadros.push((sub, novo));
                proof {
                    lema_empilha(base.push((q, papel)), (sub, novo));
                }
                assert(self@.quadros =~= c.quadros.push((sub@, novo@)));
                Acao::Continua
            },
            Efeito::Acaba(v) => {
                let n = self.quadros.len();
                assert(self@.quadros.len() == n);
                if n == 0 {
                    self.largar(q, papel, Ghost(c));
                    Acao::Terminou(
                        match v {
                            Some(x) => x,
                            None => VmValor::Null,
                        },
                    )
                } else {
                    match self.quadros.pop() {
                        None => Acao::Parada,
                        Some((mut pai, p)) => {
                            assert(m.quadros.drop_last()[n - 1] == m.quadros[n - 1]);
                            assert(quadros_vistos(base)[n - 1] == (base[n - 1].0@, base[n - 1].1@));
                            receber(&mut pai, papel, q, v);
                            let ghost par = (pai@, p@);
                            self.quadros.push((pai, p));
                            proof {
                                lema_empilha(base.drop_last(), (pai, p));
                                assert(quadros_vistos(base.drop_last()) =~= quadros_vistos(base).drop_last());
                            }
                            assert(self@.quadros =~= m.quadros.drop_last().update(n - 1, par));
                            Acao::Continua
                        },
                    }
                }
            },
            Efeito::Falha(msg) => {
                self.largar(q, papel, Ghost(c));
                Acao::Falhou(msg)
            },
            Efeito::Panico => Acao::Panico,
        }
    }

    /// Anda um passo.
    pub fn avancar(&mut self) -> (r: Acao)
        ensures
            (final(self)@, r@) == anda(old(self)@),
    {
        let ghost m = self@;
        let ghost base = self.quadros@;
        proof {
            reveal(anda);
        }
        assert(m.quadros.len() == base.len());
        let (mut q, papel) = match self.quadros.pop() {
            None => {
                assert(self@.quadros =~= m.quadros);
                return Acao::Parada;
            },
            Some(x) => x,
        };
        assert(self@.quadros =~= m.quadros.drop_last());
        assert(m.quadros.last() == (q@, papel@));
        assert(q@.codigo.len() == q.ops@.len());
        if q.ip >= q.ops.len() {
            return self.aplicar(q, papel, Efeito::Acaba(None), Papel::Chamada, Ghost(m));
        }
        if self.operacoes < u64::MAX {
            self.operacoes = self.operacoes + 1;
        }
        let ghost c = MaquinaVista { operacoes: self.operacoes, ..m };
        if self.limite_operacoes > 0 && self.operacoes > self.limite_operacoes {
            let n = texto::natural(self.limite_operacoes);
            let s = frase("Limite de ", n.as_str(), " operacoes excedido na VM");
            return self.aplicar(q, papel, Efeito::Falha(s), Papel::Chamada, Ghost(c));
        }
        assert(q@.codigo[q.ip as int] == q.ops@[q.ip as int]@);
        let op = q.ops[q.ip].clone();
        let ghost q0 = q@;
        q.ip = q.ip + 1;
        assert(q@ == QuadroVisto { ip: q0.ip + 1, ..q0 });
        let ghost q1 = q@;
        let e = q.executar(op, &self.globais);
        proof {
            lema_falha(
                c,
                passo(op@, q1, vm::pares_vistos(self.globais@)),
                efeito(e, q@),
                PapelVisto::Chamada,
            );
        }
        self.aplicar(q, papel, e, Papel::Chamada, Ghost(c))
    }

    /// Segue com a resposta a um pedido.
    pub fn responder(&mut self, p: Pedido, r: Resposta) -> (a: Acao)
        ensures
            (final(self)@, a@) == responde(old(self)@, p@, r@),
    {
        let ghost m = self@;
        let ghost base = self.quadros@;
        assert(m.quadros.len() == base.len());
        let (mut q, papel) = match self.quadros.pop() {
            None => {
                assert(self@.quadros =~= m.quadros);
                return Acao::Parada;
            },
            Some(x) => x,
        };
        assert(self@.quadros =~= m.quadros.drop_last());
        assert(m.quadros.last() == (q@, papel@));
        let novo = match &p {
            Pedido::Incluir { .. } => Papel::Inclusao,
            Pedido::Importar { alias, .. } => Papel::Importacao(
                match alias {
                    Some(s) => Some(s.clone()),
                    None => None,
                },
            ),
            _ => Papel::Chamada,
        };
        let e = q.retomar(p, r);
        self.aplicar(q, papel, e, novo, Ghost(m))
    }

    /// Anda ate `k` passos, ou ate ser preciso quem a faz andar.
    pub fn correr(&mut self, k: usize) -> (r: Acao)
        ensures
            (final(self)@, r@) == corre(old(self)@, k as int),
    {
        let ghost m = self@;
        let mut i: usize = k;
        while i > 0
            invariant
                i <= k,
                m == old(self)@,
                corre(m, k as int) == corre(self@, i as int),
            decreases i,
        {
            let a = self.avancar();
            match a {
                Acao::Continua => {},
                _ => {
                    return a;
                },
            }
            i -= 1;
        }
        Acao::Continua
    }
}

// ---- Leis -------------------------------------------------------------------------------

/// Enquanto o quadro de cima segue, pede ou chama, os que estao abaixo dele nao mudam.
pub proof fn lei_isolamento(m: MaquinaVista)
    requires
        m.quadros.len() > 0,
    ensures
        anda(m).1 is Pede ==> anda(m).0.quadros.drop_last() == m.quadros.drop_last(),
        anda(m).0.quadros.len() >= m.quadros.len() ==> anda(m).0.quadros.take(m.quadros.len() - 1)
            == m.quadros.drop_last(),
        anda(m).1 is Continua ==> anda(m).0.globais == m.globais,
{
    reveal(anda);
    let r = anda(m);
    let n = m.quadros.len();
    if r.1 is Pede {
        assert(r.0.quadros.drop_last() =~= m.quadros.drop_last());
    }
    if r.0.quadros.len() >= n {
        assert(r.0.quadros.take(n - 1) =~= m.quadros.drop_last());
    }
}

/// Nunca se executam mais comandos do que o limite: com o limite atingido, o comando seguinte
/// falha.
pub proof fn lei_limite(m: MaquinaVista)
    requires
        m.quadros.len() > 0,
        m.quadros.last().0.ip < m.quadros.last().0.codigo.len(),
        0 < m.limite <= m.operacoes,
        m.limite < u64::MAX,
    ensures
        anda(m).1 == AcaoVista::Falhou(limite_excedido(m.limite)),
        anda(m).0.quadros.len() == 0,
{
    reveal(anda);
}

proof fn lema_operacoes(m: MaquinaVista)
    ensures
        anda(m).0.limite == m.limite,
        m.operacoes <= anda(m).0.operacoes <= m.operacoes + 1,
{
    reveal(anda);
}

/// Correr conta no maximo uma operacao por passo e nao muda o limite.
pub proof fn lei_contagem(m: MaquinaVista, k: int)
    requires
        k >= 0,
    ensures
        corre(m, k).0.limite == m.limite,
        m.operacoes <= corre(m, k).0.operacoes <= m.operacoes + k,
    decreases k,
{
    if k > 0 {
        lema_operacoes(m);
        if anda(m).1 is Continua {
            lei_contagem(anda(m).0, k - 1);
        }
    }
}

/// Correr em duas vezes e o mesmo que correr de uma so.
pub proof fn lei_correr(m: MaquinaVista, a: int, b: int)
    requires
        a >= 0,
        b >= 0,
    ensures
        corre(m, a + b) == if corre(m, a).1 is Continua {
            corre(corre(m, a).0, b)
        } else {
            corre(m, a)
        },
    decreases a,
{
    if a > 0 {
        if anda(m).1 is Continua {
            lei_correr(anda(m).0, a - 1, b);
        }
    }
}

/// O passo que um laco tem quando nao o diz, o numero um, conta inteiros de um em um.
pub proof fn lei_passo_de_um(t: Seq<char>)
    ensures
        passo_inteiro(vm::Visto::Num(0x3FF0000000000000, t)) == Some(1i64),
{
    decimal::lema_um();
}

/// Um laco entre inteiros comeca no inicio, se ele nao passa do fim, e avanca de um em um enquanto
/// nao passa dele; depois o contador sai.
pub proof fn lei_laco_inteiro(q: QuadroVisto, var: Seq<char>, ini: i64, fim: i64, passo: vm::Visto, alvo: int, x: i64)
    requires
        passo_inteiro(passo) == Some(1i64),
        q.contadores.len() > 0,
    ensures
        iteracao(
            QuadroVisto { pilha: q.pilha + seq![vm::Visto::Int(ini), vm::Visto::Int(fim), passo], ..q },
            var,
        ) == EfeitoVisto::Segue(
            QuadroVisto {
                pilha: q.pilha.push(vm::Visto::Bool(ini <= fim)),
                contadores: q.contadores.push(Contador::Inteiro(ini, fim, 1)),
                vars: if ini <= fim {
                    vm::com_valor(q.vars, var, vm::Visto::Int(ini))
                } else {
                    q.vars
                },
                ..q
            },
        ),
        x < fim ==> avanco(q, var, alvo, x, fim, 1) == EfeitoVisto::Segue(
            QuadroVisto {
                contadores: q.contadores.update(q.contadores.len() - 1, Contador::Inteiro((x + 1) as i64, fim, 1)),
                vars: vm::com_valor(q.vars, var, vm::Visto::Int((x + 1) as i64)),
                ip: alvo,
                ..q
            },
        ),
        x >= fim ==> avanco(q, var, alvo, x, fim, 1) == EfeitoVisto::Segue(
            QuadroVisto { contadores: q.contadores.drop_last(), ..q },
        ),
{
    let p = QuadroVisto { pilha: q.pilha + seq![vm::Visto::Int(ini), vm::Visto::Int(fim), passo], ..q };
    let n = p.pilha.len();
    assert(p.pilha[n - 1] == passo && p.pilha[n - 2] == vm::Visto::Int(fim) && p.pilha[n - 3] == vm::Visto::Int(ini));
    assert(sem_topo(p, 3).pilha =~= q.pilha);
    assert(numero_do_laco(passo) is Some);
}

} // verus!
