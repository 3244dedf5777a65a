//! As operacoes da maquina sobre dois valores: contas, comparacoes, indices e pertenca.

use vstd::prelude::*;
use vstd::utf8;
use crate::busca;
use crate::bytecode::Op;
use crate::bytecode;
use crate::decimal::Decimal;
use crate::decimal;
use crate::dispositivos::PedidoDispositivo;
use crate::dispositivos;
use crate::efeitos::EfeitoNativa;
use crate::efeitos;
use crate::ordem;
use crate::tensor::PedidoTensor;
use crate::tensor;
use crate::texto;
use crate::vm::{achar_chave, frase, guardar, obter_ou_nulo, VmValor};
use crate::vm;

verus! {

/// Uma conta com numeros com ponto.
#[derive(Debug, Clone, Copy, PartialEq, Eq, Structural)]
pub enum Conta {
    Soma,
    Subtracao,
    Multiplicacao,
    Divisao,
    Resto,
}

/// O que a maquina pede a quem a faz andar.
#[derive(Debug)]
pub enum Pedido {
    /// O numero de um lexema.
    Numero(String),
    /// Uma conta com numeros com ponto; o resultado fica inteiro se `inteira`.
    Conta { op: Conta, a: u64, b: u64, inteira: bool },
    /// O simetrico de um numero com ponto.
    Negar(u64),
    /// Se `(ini - fim) * passo` nao e positivo.
    Faixa { var: String, ini: Decimal, fim: u64, passo: u64 },
    /// `atual + passo`, e se `(atual + passo - fim) * passo` nao e positivo.
    Avancar { var: String, alvo: usize, atual: u64, fim: u64, passo: u64 },
    /// Uma conta com tensores.
    Tensor(PedidoTensor),
    /// Uma pergunta ou uma mudanca no registro dos dispositivos, que a maquina atende.
    Dispositivo(PedidoDispositivo),
    /// Uma acao de uma funcao nativa.
    Efeito(EfeitoNativa),
    /// Uma funcao nativa.
    Nativa { nome: String, args: Vec<VmValor> },
    /// O codigo de um arquivo a incluir.
    Incluir { caminho: String, obrigatorio: bool },
    /// O codigo de um arquivo a importar.
    Importar { caminho: String, alias: Option<String> },
    /// Escrever um texto na saida.
    Escrever(String),
}

/// O que um pedido representa.
pub ghost enum PedidoVisto {
    Numero(Seq<char>),
    Conta { op: Conta, a: u64, b: u64, inteira: bool },
    Negar(u64),
    Faixa { var: Seq<char>, ini: (u64, Seq<char>), fim: u64, passo: u64 },
    Avancar { var: Seq<char>, alvo: int, atual: u64, fim: u64, passo: u64 },
    Tensor(tensor::PedidoTensorVisto),
    Dispositivo(dispositivos::PedidoDispositivoVisto),
    Efeito(efeitos::EfeitoVisto),
    Nativa { nome: Seq<char>, args: Seq<vm::Visto> },
    Incluir { caminho: Seq<char>, obrigatorio: bool },
    Importar { caminho: Seq<char>, alias: Option<Seq<char>> },
    Escrever(Seq<char>),
}

impl Pedido {
    pub open spec fn view(&self) -> PedidoVisto {
        match self {
            Pedido::Numero(s) => PedidoVisto::Numero(s@),
            Pedido::Conta { op, a, b, inteira } => PedidoVisto::Conta { op: *op, a: *a, b: *b, inteira: *inteira },
            Pedido::Negar(b) => PedidoVisto::Negar(*b),
            Pedido::Faixa { var, ini, fim, passo } => PedidoVisto::Faixa {
                var: var@,
                ini: (ini.bits, ini.texto@),
                fim: *fim,
                passo: *passo,
            },
            Pedido::Avancar { var, alvo, atual, fim, passo } => PedidoVisto::Avancar {
                var: var@,
                alvo: *alvo as int,
                atual: *atual,
                fim: *fim,
                passo: *passo,
            },
            Pedido::Tensor(p) => PedidoVisto::Tensor(p@),
            Pedido::Dispositivo(p) => PedidoVisto::Dispositivo(p@),
            Pedido::Efeito(e) => PedidoVisto::Efeito(e@),
            Pedido::Nativa { nome, args } => PedidoVisto::Nativa { nome: nome@, args: vm::vistos(args@) },
            Pedido::Incluir { caminho, obrigatorio } => PedidoVisto::Incluir {
                caminho: caminho@,
                obrigatorio: *obrigatorio,
            },
            Pedido::Importar { caminho, alias } => PedidoVisto::Importar {
                caminho: caminho@,
                alias: match alias {
                    Some(a) => Some(a@),
                    None => None,
                },
            },
            Pedido::Escrever(s) => PedidoVisto::Escrever(s@),
        }
    }
}

/// O que uma operacao da. `Panico` e o caso em que nao ha resultado que caiba na maquina.
#[derive(Debug)]
pub enum Saida {
    Valor(VmValor),
    Pede(Pedido),
    Falha(String),
    Panico,
}

/// O que uma saida representa.
pub ghost enum SaidaVista {
    Valor(vm::Visto),
    Pede(PedidoVisto),
    Falha(Seq<char>),
    Panico,
}

impl Saida {
    pub open spec fn view(&self) -> SaidaVista {
        match self {
            Saida::Valor(v) => SaidaVista::Valor(v@),
            Saida::Pede(p) => SaidaVista::Pede(p@),
            Saida::Falha(m) => SaidaVista::Falha(m@),
            Saida::Panico => SaidaVista::Panico,
        }
    }
}

/// Uma frase com dois valores.
pub open spec fn frase_de_dois(a: Seq<char>, x: vm::Visto, b: Seq<char>, y: vm::Visto) -> Seq<char> {
    a + vm::texto_de(x) + b + vm::texto_de(y)
}

pub(crate) fn dizer_dois(a: &str, x: &VmValor, b: &str, y: &VmValor) -> (r: String)
    ensures
        r@ == frase_de_dois(a@, x@, b@, y@),
{
    let t = x.texto();
    let u = y.texto();
    let mut s = frase(a, t.as_str(), b);
    s.append(u.as_str());
    s
}

/// O numero com ponto de um valor numerico.
pub open spec fn numero_de(v: vm::Visto) -> Option<u64> {
    match v {
        vm::Visto::Num(b, t) => Some(b),
        vm::Visto::Int(n) => Some(decimal::bits_de(n as int) as u64),
        _ => None,
    }
}

pub(crate) fn em_numero(v: &VmValor) -> (r: Option<u64>)
    ensures
        r == numero_de(v@),
{
    match v {
        VmValor::Num(d) => Some(d.bits),
        VmValor::Int(n) => Some(decimal::de_inteiro(*n)),
        _ => None,
    }
}

// ---- Contas -----------------------------------------------------------------------------

/// Os dois numeros de uma conta. Se um e inteiro e o outro tem ponto, o inteiro vem primeiro.
pub open spec fn operandos(a: vm::Visto, b: vm::Visto) -> Option<(u64, u64)> {
    match (a, b) {
        (vm::Visto::Num(x, s), vm::Visto::Int(y)) => Some((decimal::bits_de(y as int) as u64, x)),
        _ => match (numero_de(a), numero_de(b)) {
            (Some(x), Some(y)) => Some((x, y)),
            _ => None,
        },
    }
}

fn ler_operandos(a: &VmValor, b: &VmValor) -> (r: Option<(u64, u64)>)
    ensures
        r == operandos(a@, b@),
{
    match (a, b) {
        (VmValor::Num(x), VmValor::Int(y)) => Some((decimal::de_inteiro(*y), x.bits)),
        _ => match (em_numero(a), em_numero(b)) {
            (Some(x), Some(y)) => Some((x, y)),
            _ => None,
        },
    }
}

/// Uma conta com numeros com ponto, pedida.
pub open spec fn conta(op: Conta, xy: (u64, u64)) -> SaidaVista {
    SaidaVista::Pede(PedidoVisto::Conta { op, a: xy.0, b: xy.1, inteira: false })
}

/// A soma de dois inteiros, com volta.
pub open spec fn soma_com_volta(x: i64, y: i64) -> i64 {
    x.wrapping_add(y)
}

/// O produto de dois inteiros, com volta.
pub open spec fn produto_com_volta(x: i64, y: i64) -> i64 {
    x.wrapping_mul(y)
}

/// A soma.
pub open spec fn somado(a: vm::Visto, b: vm::Visto) -> SaidaVista {
    match (a, b) {
        (vm::Visto::Int(x), vm::Visto::Int(y)) => SaidaVista::Valor(vm::Visto::Int(soma_com_volta(x, y))),
        _ => if let Some(xy) = operandos(a, b) {
            conta(Conta::Soma, xy)
        } else if a is Str || b is Str {
            SaidaVista::Valor(vm::Visto::Str(vm::texto_de(a) + vm::texto_de(b)))
        } else {
            SaidaVista::Falha(frase_de_dois("Não é possível somar "@, a, " e "@, b))
        },
    }
}

/// Soma dois valores.
pub fn vm_add(a: VmValor, b: VmValor) -> (r: Saida)
    ensures
        r@ == somado(a@, b@),
{
    if let (VmValor::Int(x), VmValor::Int(y)) = (&a, &b) {
        return Saida::Valor(VmValor::Int((*x).wrapping_add(*y)));
    }
    if let Some((x, y)) = ler_operandos(&a, &b) {
        return Saida::Pede(Pedido::Conta { op: Conta::Soma, a: x, b: y, inteira: false });
    }
    let texto_a = match &a {
        VmValor::Str(_) => true,
        _ => false,
    };
    let texto_b = match &b {
        VmValor::Str(_) => true,
        _ => false,
    };
    if texto_a || texto_b {
        let mut s = a.texto();
        s.append(b.texto().as_str());
        Saida::Valor(VmValor::Str(s))
    } else {
        Saida::Falha(dizer_dois("Não é possível somar ", &a, " e ", &b))
    }
}

/// Um texto repetido.
pub open spec fn repetido(s: Seq<char>, n: int) -> Seq<char>
    decreases n,
{
    if n <= 0 {
        Seq::empty()
    } else {
        repetido(s, n - 1) + s
    }
}

/// Um texto repetido, se cabe.
pub open spec fn repeticao(s: Seq<char>, n: int) -> SaidaVista {
    if utf8::encode_utf8(s).len() * n > isize::MAX {
        SaidaVista::Panico
    } else {
        SaidaVista::Valor(vm::Visto::Str(repetido(s, n)))
    }
}

fn repetir(s: &str, n: usize) -> (r: Saida)
    ensures
        r@ == repeticao(s@, n as int),
{
    let t = s.as_bytes().len();
    proof {
        assert((t as u128) * (n as u128) <= u64::MAX as u128 * u64::MAX as u128) by (nonlinear_arith)
            requires
                t <= u64::MAX,
                n <= u64::MAX,
        ;
        assert(u64::MAX as u128 * u64::MAX as u128 <= u128::MAX) by (nonlinear_arith);
    }
    if (t as u128) * (n as u128) > isize::MAX as u128 {
        return Saida::Panico;
    }
    let mut r = String::new();
    assert(r@ =~= repetido(s@, 0));
    let mut i: usize = 0;
    while i < n
        invariant
            i <= n,
            r@ == repetido(s@, i as int),
        decreases n - i,
    {
        r.append(s);
        i += 1;
    }
    Saida::Valor(VmValor::Str(r))
}

/// Quantas vezes um valor numerico manda repetir.
pub open spec fn vezes(v: vm::Visto) -> int {
    match v {
        vm::Visto::Num(b, t) => decimal::indice(b),
        vm::Visto::Int(n) => if n < 0 {
            0
        } else {
            n as usize as int
        },
        _ => 0,
    }
}

fn quantas_vezes(v: &VmValor) -> (r: usize)
    ensures
        r == vezes(v@),
{
    match v {
        VmValor::Num(d) => decimal::para_indice(d.bits),
        VmValor::Int(n) => if *n < 0 {
            0
        } else {
            #[verifier::truncate]
            (*n as usize)
        },
        _ => 0,
    }
}

/// O produto.
pub open spec fn multiplicado(a: vm::Visto, b: vm::Visto) -> SaidaVista {
    match (a, b) {
        (vm::Visto::Int(x), vm::Visto::Int(y)) => SaidaVista::Valor(vm::Visto::Int(produto_com_volta(x, y))),
        _ => if let Some(xy) = operandos(a, b) {
            conta(Conta::Multiplicacao, xy)
        } else {
            match (a, b) {
                (vm::Visto::Str(s), vm::Visto::Num(_, _)) => repeticao(s, vezes(b)),
                (vm::Visto::Num(_, _), vm::Visto::Str(s)) => repeticao(s, vezes(a)),
                (vm::Visto::Str(s), vm::Visto::Int(_)) => repeticao(s, vezes(b)),
                (vm::Visto::Int(_), vm::Visto::Str(s)) => repeticao(s, vezes(a)),
                _ => SaidaVista::Falha(frase_de_dois("Não é possível multiplicar "@, a, " e "@, b)),
            }
        },
    }
}

/// Multiplica dois valores.
pub fn vm_mul(a: VmValor, b: VmValor) -> (r: Saida)
    ensures
        r@ == multiplicado(a@, b@),
{
    if let (VmValor::Int(x), VmValor::Int(y)) = (&a, &b) {
        return Saida::Valor(VmValor::Int((*x).wrapping_mul(*y)));
    }
    if let Some((x, y)) = ler_operandos(&a, &b) {
        return Saida::Pede(Pedido::Conta { op: Conta::Multiplicacao, a: x, b: y, inteira: false });
    }
    match (&a, &b) {
        (VmValor::Str(s), VmValor::Num(_)) => repetir(s.as_str(), quantas_vezes(&b)),
        (VmValor::Num(_), VmValor::Str(s)) => repetir(s.as_str(), quantas_vezes(&a)),
        (VmValor::Str(s), VmValor::Int(_)) => repetir(s.as_str(), quantas_vezes(&b)),
        (VmValor::Int(_), VmValor::Str(s)) => repetir(s.as_str(), quantas_vezes(&a)),
        _ => Saida::Falha(dizer_dois("Não é possível multiplicar ", &a, " e ", &b)),
    }
}

/// O sinal de uma conta.
pub open spec fn sinal(op: Conta) -> Seq<char> {
    match op {
        Conta::Soma => "+"@,
        Conta::Subtracao => "-"@,
        Conta::Multiplicacao => "*"@,
        Conta::Divisao => "/"@,
        Conta::Resto => "%"@,
    }
}

fn sinal_de(op: Conta) -> (r: &'static str)
    ensures
        r@ == sinal(op),
{
    match op {
        Conta::Soma => "+",
        Conta::Subtracao => "-",
        Conta::Multiplicacao => "*",
        Conta::Divisao => "/",
        Conta::Resto => "%",
    }
}

/// Uma conta que so aceita numeros. Dividir por zero da infinito.
pub open spec fn numerica(op: Conta, a: vm::Visto, b: vm::Visto) -> SaidaVista {
    match operandos(a, b) {
        Some(xy) => conta(op, xy),
        None => SaidaVista::Falha(
            "'"@ + sinal(op) + "' requer números, recebeu "@ + frase_de_dois(Seq::empty(), a, " e "@, b),
        ),
    }
}

/// Uma conta que so aceita numeros.
pub fn vm_num(a: VmValor, b: VmValor, op: Conta) -> (r: Saida)
    ensures
        r@ == numerica(op, a@, b@),
{
    match ler_operandos(&a, &b) {
        Some((x, y)) => Saida::Pede(Pedido::Conta { op, a: x, b: y, inteira: false }),
        None => {
            let mut s = frase("'", sinal_de(op), "' requer números, recebeu ");
            let vazio = String::new();
            assert(vazio@ =~= Seq::<char>::empty());
            s.append(dizer_dois(vazio.as_str(), &a, " e ", &b).as_str());
            Saida::Falha(s)
        },
    }
}

/// A falha de um valor que nao e numero.
pub open spec fn nao_e_numero(v: vm::Visto) -> Seq<char> {
    "esperado número, recebeu "@ + vm::texto_de(v)
}

pub(crate) fn dizer_nao_numero(v: &VmValor) -> (r: String)
    ensures
        r@ == nao_e_numero(v@),
{
    let mut s = "esperado número, recebeu ".to_owned();
    s.append(v.texto().as_str());
    s
}

/// A divisao inteira.
pub open spec fn dividido_inteiro(a: vm::Visto, b: vm::Visto) -> SaidaVista {
    match numero_de(b) {
        None => SaidaVista::Falha(nao_e_numero(b)),
        Some(y) => if !decimal::diferente_de_zero(y) {
            SaidaVista::Falha("Divisao inteira por zero"@)
        } else {
            match numero_de(a) {
                None => SaidaVista::Falha(nao_e_numero(a)),
                Some(x) => SaidaVista::Pede(PedidoVisto::Conta { op: Conta::Divisao, a: x, b: y, inteira: true }),
            }
        },
    }
}

fn dividir_inteiro(a: VmValor, b: VmValor) -> (r: Saida)
    ensures
        r@ == dividido_inteiro(a@, b@),
{
    let y = match em_numero(&b) {
        None => return Saida::Falha(dizer_nao_numero(&b)),
        Some(y) => y,
    };
    if !decimal::nao_zero(y) {
        return Saida::Falha("Divisao inteira por zero".to_owned());
    }
    match em_numero(&a) {
        None => Saida::Falha(dizer_nao_numero(&a)),
        Some(x) => Saida::Pede(Pedido::Conta { op: Conta::Divisao, a: x, b: y, inteira: true }),
    }
}

/// O simetrico.
pub open spec fn negado(v: vm::Visto) -> SaidaVista {
    match v {
        vm::Visto::Int(n) => if n == i64::MIN {
            SaidaVista::Panico
        } else {
            SaidaVista::Valor(vm::Visto::Int((-n) as i64))
        },
        vm::Visto::Num(b, t) => SaidaVista::Pede(PedidoVisto::Negar(b)),
        _ => SaidaVista::Falha("'-' requer número, recebeu "@ + vm::texto_de(v)),
    }
}

pub(crate) fn negar(v: VmValor) -> (r: Saida)
    ensures
        r@ == negado(v@),
{
    match &v {
        VmValor::Int(n) => if *n == i64::MIN {
            Saida::Panico
        } else {
            Saida::Valor(VmValor::Int(-*n))
        },
        VmValor::Num(d) => Saida::Pede(Pedido::Negar(d.bits)),
        _ => {
            let mut s = "'-' requer número, recebeu ".to_owned();
            s.append(v.texto().as_str());
            Saida::Falha(s)
        },
    }
}

// ---- Comparacoes ------------------------------------------------------------------------

/// Uma comparacao.
#[derive(Debug, Clone, Copy, PartialEq, Eq, Structural)]
pub enum Relacao {
    Menor,
    Maior,
    MenorIgual,
    MaiorIgual,
}

/// A relacao entre dois numeros com ponto.
pub open spec fn entre_numeros(op: Relacao, x: u64, y: u64) -> bool {
    match op {
        Relacao::Menor => decimal::menor(x, y),
        Relacao::Maior => decimal::menor(y, x),
        Relacao::MenorIgual => decimal::menor(x, y) || decimal::iguais(x, y),
        Relacao::MaiorIgual => decimal::menor(y, x) || decimal::iguais(x, y),
    }
}

/// A relacao entre dois textos.
pub open spec fn entre_textos(op: Relacao, x: Seq<char>, y: Seq<char>) -> bool {
    match op {
        Relacao::Menor => ordem::antes_de(x, y),
        Relacao::Maior => ordem::antes_de(y, x),
        Relacao::MenorIgual => !ordem::antes_de(y, x),
        Relacao::MaiorIgual => !ordem::antes_de(x, y),
    }
}

/// A relacao entre dois inteiros.
pub open spec fn entre_inteiros(op: Relacao, x: i64, y: i64) -> bool {
    match op {
        Relacao::Menor => x < y,
        Relacao::Maior => x > y,
        Relacao::MenorIgual => x <= y,
        Relacao::MaiorIgual => x >= y,
    }
}

pub(crate) fn comparar_numeros(op: Relacao, x: u64, y: u64) -> (r: bool)
    ensures
        r == entre_numeros(op, x, y),
{
    match op {
        Relacao::Menor => decimal::eh_menor(x, y),
        Relacao::Maior => decimal::eh_menor(y, x),
        Relacao::MenorIgual => decimal::eh_menor(x, y) || decimal::sao_iguais(x, y),
        Relacao::MaiorIgual => decimal::eh_menor(y, x) || decimal::sao_iguais(x, y),
    }
}

pub(crate) fn comparar_textos(op: Relacao, x: &str, y: &str) -> (r: bool)
    ensures
        r == entre_textos(op, x@, y@),
{
    match op {
        Relacao::Menor => ordem::vem_antes(x, y),
        Relacao::Maior => ordem::vem_antes(y, x),
        Relacao::MenorIgual => !ordem::vem_antes(y, x),
        Relacao::MaiorIgual => !ordem::vem_antes(x, y),
    }
}

/// A comparacao de dois valores.
pub open spec fn comparado(op: Relacao, a: vm::Visto, b: vm::Visto) -> SaidaVista {
    match (a, b) {
        (vm::Visto::Int(x), vm::Visto::Int(y)) => SaidaVista::Valor(vm::Visto::Bool(entre_inteiros(op, x, y))),
        (vm::Visto::Str(x), vm::Visto::Str(y)) => SaidaVista::Valor(vm::Visto::Bool(entre_textos(op, x, y))),
        _ => match (numero_de(a), numero_de(b)) {
            (Some(x), Some(y)) => SaidaVista::Valor(vm::Visto::Bool(entre_numeros(op, x, y))),
            _ => SaidaVista::Falha(frase_de_dois("Não é possível comparar "@, a, " e "@, b)),
        },
    }
}

/// Compara dois valores.
pub fn vm_relacao(a: VmValor, b: VmValor, op: Relacao) -> (r: Saida)
    ensures
        r@ == comparado(op, a@, b@),
{
    match (&a, &b) {
        (VmValor::Int(x), VmValor::Int(y)) => Saida::Valor(
            VmValor::Bool(
                match op {
                    Relacao::Menor => *x < *y,
                    Relacao::Maior => *x > *y,
                    Relacao::MenorIgual => *x <= *y,
                    Relacao::MaiorIgual => *x >= *y,
                },
            ),
        ),
        (VmValor::Str(x), VmValor::Str(y)) => Saida::Valor(
            VmValor::Bool(comparar_textos(op, x.as_str(), y.as_str())),
        ),
        _ => match (em_numero(&a), em_numero(&b)) {
            (Some(x), Some(y)) => Saida::Valor(VmValor::Bool(comparar_numeros(op, x, y))),
            _ => Saida::Falha(dizer_dois("Não é possível comparar ", &a, " e ", &b)),
        },
    }
}

// ---- Indices ----------------------------------------------------------------------------

/// A posicao que um valor numerico indica.
pub open spec fn posicao(v: vm::Visto) -> Option<int> {
    match v {
        vm::Visto::Num(b, t) => Some(decimal::indice(b)),
        vm::Visto::Int(n) => Some(n as usize as int),
        _ => None,
    }
}

fn em_posicao(v: &VmValor) -> (r: Option<usize>)
    ensures
        match r {
            Some(i) => posicao(v@) == Some(i as int),
            None => posicao(v@) is None,
        },
{
    match v {
        VmValor::Num(d) => Some(decimal::para_indice(d.bits)),
        VmValor::Int(n) => Some(
            #[verifier::truncate]
            (*n as usize),
        ),
        _ => None,
    }
}

/// A falha de um indice fora dos limites.
pub open spec fn fora(i: int) -> Seq<char> {
    "Índice "@ + texto::decimal(i as nat) + " fora dos limites"@
}

pub(crate) fn dizer_fora(i: usize) -> (r: String)
    ensures
        r@ == fora(i as int),
{
    let n = texto::natural(i as u64);
    frase("Índice ", n.as_str(), " fora dos limites")
}

/// O item de um indice.
pub open spec fn indexado(obj: vm::Visto, idx: vm::Visto) -> SaidaVista {
    match (obj, posicao(idx)) {
        (vm::Visto::Lista(v), Some(i)) => if i < v.len() {
            SaidaVista::Valor(v[i])
        } else {
            SaidaVista::Falha(fora(i))
        },
        (vm::Visto::Str(s), Some(i)) => if i < s.len() {
            SaidaVista::Valor(vm::Visto::Str(seq![s[i]]))
        } else {
            SaidaVista::Falha(fora(i))
        },
        _ => match (obj, idx) {
            (vm::Visto::Mapa(m), vm::Visto::Str(k)) => SaidaVista::Valor(
                match vm::valor_de(m, k) {
                    Some(v) => v,
                    None => vm::Visto::Null,
                },
            ),
            _ => SaidaVista::Falha(frase_de_dois("Acesso inválido: "@, obj, " com "@, idx)),
        },
    }
}

pub(crate) fn uma_letra(c: char) -> (r: String)
    ensures
        r@ == seq![c],
{
    let mut v: Vec<char> = Vec::new();
    v.push(c);
    assert(v@ =~= seq![c]);
    texto::de_caracteres(&v)
}

/// O item de um indice.
pub fn vm_get_index(obj: VmValor, idx: VmValor) -> (r: Saida)
    ensures
        r@ == indexado(obj@, idx@),
{
    match (&obj, em_posicao(&idx)) {
        (VmValor::Lista(v), Some(i)) => if i < v.len() {
            assert(vm::vistos(v@)[i as int] == v@[i as int]@);
            Saida::Valor(v[i].clone())
        } else {
            Saida::Falha(dizer_fora(i))
        },
        (VmValor::Str(s), Some(i)) => {
            let cs = texto::caracteres(s.as_str());
            if i < cs.len() {
                Saida::Valor(VmValor::Str(uma_letra(cs[i])))
            } else {
                Saida::Falha(dizer_fora(i))
            }
        },
        _ => match (&obj, &idx) {
            (VmValor::Mapa(m), VmValor::Str(k)) => Saida::Valor(obter_ou_nulo(m, k.as_str())),
            _ => Saida::Falha(dizer_dois("Acesso inválido: ", &obj, " com ", &idx)),
        },
    }
}

/// O objeto com um item trocado.
pub open spec fn trocado_em(obj: vm::Visto, idx: vm::Visto, val: vm::Visto) -> SaidaVista {
    match (obj, posicao(idx)) {
        (vm::Visto::Lista(v), Some(i)) => if i < v.len() {
            SaidaVista::Valor(vm::Visto::Lista(v.update(i, val)))
        } else {
            SaidaVista::Falha(fora(i))
        },
        _ => match (obj, idx) {
            (vm::Visto::Mapa(m), vm::Visto::Str(k)) => SaidaVista::Valor(vm::Visto::Mapa(vm::com_valor(m, k, val))),
            _ => SaidaVista::Falha("SetIndex inválido"@),
        },
    }
}

/// Troca um item.
pub fn vm_set_index(obj: VmValor, idx: VmValor, val: VmValor) -> (r: Saida)
    ensures
        r@ == trocado_em(obj@, idx@, val@),
{
    let pos = em_posicao(&idx);
    match obj {
        VmValor::Lista(v) => match pos {
            Some(i) => {
                let mut v = v;
                if i < v.len() {
                    let ghost antes = vm::vistos(v@);
                    let ghost x = val@;
                    v.set(i, val);
                    assert(vm::vistos(v@) =~= antes.update(i as int, x));
                    Saida::Valor(VmValor::Lista(v))
                } else {
                    Saida::Falha(dizer_fora(i))
                }
            },
            None => Saida::Falha("SetIndex inválido".to_owned()),
        },
        VmValor::Mapa(m) => match idx {
            VmValor::Str(k) => {
                let mut m = m;
                guardar(&mut m, k, val);
                Saida::Valor(VmValor::Mapa(m))
            },
            _ => Saida::Falha("SetIndex inválido".to_owned()),
        },
        _ => Saida::Falha("SetIndex inválido".to_owned()),
    }
}

// ---- Pertenca ---------------------------------------------------------------------------

/// Se um valor esta numa lista.
pub open spec fn esta_na_lista(l: Seq<vm::Visto>, v: vm::Visto) -> bool {
    exists|i: int| 0 <= i < l.len() && vm::iguais(#[trigger] l[i], v)
}

/// Se um valor pertence a uma colecao.
pub open spec fn pertence(valor: vm::Visto, colecao: vm::Visto) -> Result<bool, Seq<char>> {
    match colecao {
        vm::Visto::Lista(l) => Ok(esta_na_lista(l, valor)),
        vm::Visto::Str(s) => match valor {
            vm::Visto::Str(t) => Ok(busca::contem(s, t)),
            _ => Err("'em' com texto requer substrings"@),
        },
        vm::Visto::Mapa(m) => match valor {
            vm::Visto::Str(k) => Ok(vm::lugar(m, k, 0) is Some),
            _ => Err("'em' com mapa requer chave texto"@),
        },
        _ => Err("'em' requer lista/texto/mapa, recebeu "@ + vm::texto_de(colecao)),
    }
}

/// Procura um valor numa lista.
pub fn tem_na_lista(l: &Vec<VmValor>, v: &VmValor) -> (r: bool)
    ensures
        r == esta_na_lista(vm::vistos(l@), v@),
{
    let ghost vs = vm::vistos(l@);
    let mut i: usize = 0;
    while i < l.len()
        invariant
            i <= l@.len(),
            vs == vm::vistos(l@),
            forall|k: int| 0 <= k < i ==> !vm::iguais(#[trigger] vs[k], v@),
        decreases l@.len() - i,
    {
        assert(vs[i as int] == l@[i as int]@);
        if l[i].igual(v) {
            return true;
        }
        i += 1;
    }
    false
}

/// Se um valor pertence a uma colecao.
pub fn vm_em(valor: &VmValor, colecao: &VmValor) -> (r: Result<bool, String>)
    ensures
        match r {
            Ok(b) => pertence(valor@, colecao@) == Ok::<bool, Seq<char>>(b),
            Err(m) => pertence(valor@, colecao@) == Err::<bool, Seq<char>>(m@),
        },
{
    match colecao {
        VmValor::Lista(l) => Ok(tem_na_lista(l, valor)),
        VmValor::Str(s) => match valor {
            VmValor::Str(t) => Ok(busca::contem_texto(s.as_str(), t.as_str())),
            _ => Err("'em' com texto requer substrings".to_owned()),
        },
        VmValor::Mapa(m) => match valor {
            VmValor::Str(k) => Ok(achar_chave(m, k.as_str()).is_some()),
            _ => Err("'em' com mapa requer chave texto".to_owned()),
        },
        _ => {
            let mut s = "'em' requer lista/texto/mapa, recebeu ".to_owned();
            s.append(colecao.texto().as_str());
            Err(s)
        },
    }
}

/// Uma pertenca como valor; `nao` a nega.
pub open spec fn pertenca(valor: vm::Visto, colecao: vm::Visto, nao: bool) -> SaidaVista {
    match pertence(valor, colecao) {
        Ok(b) => SaidaVista::Valor(vm::Visto::Bool(b != nao)),
        Err(m) => SaidaVista::Falha(m),
    }
}

// ---- As operacoes de dois operandos -----------------------------------------------------

/// Se um comando tira dois valores da pilha e poe um.
pub open spec fn de_dois(op: bytecode::Comando) -> bool {
    match op {
        bytecode::Comando::GetIndex | bytecode::Comando::Add | bytecode::Comando::Sub | bytecode::Comando::Mul
        | bytecode::Comando::Div | bytecode::Comando::IntDiv | bytecode::Comando::Mod | bytecode::Comando::Eq
        | bytecode::Comando::Ne | bytecode::Comando::Lt | bytecode::Comando::Gt | bytecode::Comando::Le
        | bytecode::Comando::Ge | bytecode::Comando::And | bytecode::Comando::Or | bytecode::Comando::Em
        | bytecode::Comando::NaoEm | bytecode::Comando::TensorMatMul | bytecode::Comando::TensorAdd
        | bytecode::Comando::TensorSub | bytecode::Comando::TensorMulElem | bytecode::Comando::TensorDivElem
        | bytecode::Comando::TensorPow | bytecode::Comando::TensorSomaEixo | bytecode::Comando::TensorMediaEixo
        | bytecode::Comando::TensorMaxEixo | bytecode::Comando::TensorMinEixo | bytecode::Comando::TensorConcatenar
        | bytecode::Comando::TensorEmpilhar => true,
        _ => false,
    }
}

/// O que um comando de dois operandos da.
pub open spec fn binaria(op: bytecode::Comando, a: vm::Visto, b: vm::Visto) -> SaidaVista {
    match op {
        bytecode::Comando::GetIndex => indexado(a, b),
        bytecode::Comando::Add => somado(a, b),
        bytecode::Comando::Sub => numerica(Conta::Subtracao, a, b),
        bytecode::Comando::Mul => multiplicado(a, b),
        bytecode::Comando::Div => numerica(Conta::Divisao, a, b),
        bytecode::Comando::IntDiv => dividido_inteiro(a, b),
        bytecode::Comando::Mod => numerica(Conta::Resto, a, b),
        bytecode::Comando::Eq => SaidaVista::Valor(vm::Visto::Bool(vm::iguais(a, b))),
        bytecode::Comando::Ne => SaidaVista::Valor(vm::Visto::Bool(!vm::iguais(a, b))),
        bytecode::Comando::Lt => comparado(Relacao::Menor, a, b),
        bytecode::Comando::Gt => comparado(Relacao::Maior, a, b),
        bytecode::Comando::Le => comparado(Relacao::MenorIgual, a, b),
        bytecode::Comando::Ge => comparado(Relacao::MaiorIgual, a, b),
        bytecode::Comando::And => SaidaVista::Valor(vm::Visto::Bool(vm::verdadeiro(a) && vm::verdadeiro(b))),
        bytecode::Comando::Or => SaidaVista::Valor(vm::Visto::Bool(vm::verdadeiro(a) || vm::verdadeiro(b))),
        bytecode::Comando::Em => pertenca(a, b, false),
        bytecode::Comando::NaoEm => pertenca(a, b, true),
        _ => tensor::binaria(op, a, b),
    }
}

fn dizer_pertenca(valor: VmValor, colecao: VmValor, nao: bool) -> (r: Saida)
    ensures
        r@ == pertenca(valor@, colecao@, nao),
{
    match vm_em(&valor, &colecao) {
        Ok(b) => Saida::Valor(VmValor::Bool(b != nao)),
        Err(m) => Saida::Falha(m),
    }
}

/// Executa um comando de dois operandos.
pub fn executar_binaria(op: &Op, a: VmValor, b: VmValor) -> (r: Saida)
    ensures
        r@ == binaria(op@, a@, b@),
{
    match op {
        Op::GetIndex => vm_get_index(a, b),
        Op::Add => vm_add(a, b),
        Op::Sub => vm_num(a, b, Conta::Subtracao),
        Op::Mul => vm_mul(a, b),
        Op::Div => vm_num(a, b, Conta::Divisao),
        Op::IntDiv => dividir_inteiro(a, b),
        Op::Mod => vm_num(a, b, Conta::Resto),
        Op::Eq => Saida::Valor(VmValor::Bool(a.igual(&b))),
        Op::Ne => Saida::Valor(VmValor::Bool(!a.igual(&b))),
        Op::Lt => vm_relacao(a, b, Relacao::Menor),
        Op::Gt => vm_relacao(a, b, Relacao::Maior),
        Op::Le => vm_relacao(a, b, Relacao::MenorIgual),
        Op::Ge => vm_relacao(a, b, Relacao::MaiorIgual),
        Op::And => Saida::Valor(VmValor::Bool(a.e_verdadeiro() && b.e_verdadeiro())),
        Op::Or => Saida::Valor(VmValor::Bool(a.e_verdadeiro() || b.e_verdadeiro())),
        Op::Em => dizer_pertenca(a, b, false),
        Op::NaoEm => dizer_pertenca(a, b, true),
        _ => tensor::executar_binaria(op, a, b),
    }
}

} // verus!
