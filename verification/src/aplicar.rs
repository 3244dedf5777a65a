//! Os operadores do interpretador e os acessos por indice.

use vstd::prelude::*;
use vstd::utf8;
use crate::ast::OpBinario;
use crate::busca;
use crate::decimal;
use crate::operacoes::{comparar_numeros, comparar_textos, uma_letra, Conta, Relacao};
use crate::operacoes;
use crate::texto;
use crate::valor::{achar_chave, copiar_lista, guardar, obter_ou_nulo, Valor};
use crate::valor;
use crate::vm::frase;

verus! {

/// O que um operador da: um valor, uma conta pedida, uma falha, ou nada que caiba.
#[derive(Debug)]
pub enum Feito {
    Valor(Valor),
    Conta { op: Conta, a: u64, b: u64 },
    Negar(u64),
    Falha(String),
    Panico,
}

/// O que um resultado representa.
pub ghost enum FeitoVisto {
    Valor(valor::Dado),
    Conta { op: Conta, a: u64, b: u64 },
    Negar(u64),
    Falha(Seq<char>),
    Panico,
}

impl Feito {
    pub open spec fn view(&self) -> FeitoVisto {
        match self {
            Feito::Valor(v) => FeitoVisto::Valor(v@),
            Feito::Conta { op, a, b } => FeitoVisto::Conta { op: *op, a: *a, b: *b },
            Feito::Negar(b) => FeitoVisto::Negar(*b),
            Feito::Falha(m) => FeitoVisto::Falha(m@),
            Feito::Panico => FeitoVisto::Panico,
        }
    }
}

/// Se um valor conta como verdadeiro.
pub open spec fn verdadeiro(v: valor::Dado) -> bool {
    match v {
        valor::Dado::Booleano(b) => b,
        valor::Dado::Nulo => false,
        valor::Dado::Numero(b, t) => decimal::diferente_de_zero(b),
        valor::Dado::Inteiro(n) => n != 0,
        valor::Dado::Texto(s) => s.len() > 0,
        valor::Dado::Lista(l) => l.len() > 0,
        valor::Dado::Mapa(m) => m.len() > 0,
        valor::Dado::Bytes(b) => b.len() > 0,
        valor::Dado::Erro { .. } => false,
        _ => true,
    }
}

/// Se um valor conta como verdadeiro.
pub fn e_verdadeiro(v: &Valor) -> (r: bool)
    ensures
        r == verdadeiro(v@),
{
    match v {
        Valor::Booleano(b) => *b,
        Valor::Nulo => false,
        Valor::Numero(d) => decimal::nao_zero(d.bits),
        Valor::Inteiro(n) => *n != 0,
        Valor::Texto(s) => !s.as_str().is_empty(),
        Valor::Lista(l) => l.len() > 0,
        Valor::Mapa(m) => m.len() > 0,
        Valor::Bytes(b) => b.len() > 0,
        Valor::Erro { .. } => false,
        _ => true,
    }
}

/// O numero com ponto de um valor numerico.
pub open spec fn numero_de(v: valor::Dado) -> Option<u64> {
    match v {
        valor::Dado::Numero(b, t) => Some(b),
        valor::Dado::Inteiro(n) => Some(decimal::bits_de(n as int) as u64),
        _ => None,
    }
}

pub(crate) fn numero_f64(v: &Valor) -> (r: Option<u64>)
    ensures
        r == numero_de(v@),
{
    match v {
        Valor::Numero(d) => Some(d.bits),
        Valor::Inteiro(n) => Some(decimal::de_inteiro(*n)),
        _ => None,
    }
}

/// Uma frase com dois valores.
pub open spec fn frase_de_dois(a: Seq<char>, x: valor::Dado, b: Seq<char>, y: valor::Dado) -> Seq<char> {
    a + valor::texto_de(x) + b + valor::texto_de(y)
}

fn dizer_dois(a: &str, x: &Valor, b: &str, y: &Valor) -> (r: String)
    ensures
        r@ == frase_de_dois(a@, x@, b@, y@),
{
    let t = x.texto();
    let u = y.texto();
    let mut s = frase(a, t.as_str(), b);
    s.append(u.as_str());
    s
}

/// A falha de um operador que quer numeros ou inteiros.
pub open spec fn requer(op: Seq<char>, o_que: Seq<char>, a: valor::Dado, b: valor::Dado) -> Seq<char> {
    frase_de_dois("O operador '"@ + op + "' requer "@ + o_que + ", recebeu "@, a, " e "@, b)
}

fn dizer_requer(op: &str, o_que: &str, a: &Valor, b: &Valor) -> (r: String)
    ensures
        r@ == requer(op@, o_que@, a@, b@),
{
    let mut i = frase("O operador '", op, "' requer ");
    i.append(o_que);
    i.append(", recebeu ");
    dizer_dois(i.as_str(), a, " e ", b)
}

/// Um inteiro, se cabe.
pub open spec fn inteiro_ou_panico(n: int) -> FeitoVisto {
    if i64::MIN <= n <= i64::MAX {
        FeitoVisto::Valor(valor::Dado::Inteiro(n as i64))
    } else {
        FeitoVisto::Panico
    }
}

fn dar_inteiro(n: i128) -> (r: Feito)
    ensures
        r@ == inteiro_ou_panico(n as int),
{
    if n < i64::MIN as i128 || n > i64::MAX as i128 {
        Feito::Panico
    } else {
        Feito::Valor(Valor::Inteiro(n as i64))
    }
}

/// O valor absoluto.
pub open spec fn absoluto(n: int) -> int {
    if n < 0 {
        -n
    } else {
        n
    }
}

/// O quociente sem a parte depois do ponto.
pub open spec fn quociente(x: int, y: int) -> int {
    let q = absoluto(x) / absoluto(y);
    if (x < 0) != (y < 0) {
        -q
    } else {
        q
    }
}

/// O resto com o sinal do dividendo.
pub open spec fn resto(x: int, y: int) -> int {
    let r = absoluto(x) % absoluto(y);
    if x < 0 {
        -r
    } else {
        r
    }
}

/// O dividendo e o quociente vezes o divisor mais o resto.
pub proof fn lei_divisao(x: int, y: int)
    requires
        y != 0,
    ensures
        x == quociente(x, y) * y + resto(x, y),
        absoluto(resto(x, y)) < absoluto(y),
{
    let a = absoluto(x);
    let b = absoluto(y);
    vstd::arithmetic::div_mod::lemma_fundamental_div_mod(a, b);
    let q = a / b;
    let r = a % b;
    assert(a == b * q + r);
    assert((-q) * (-b) == b * q) by (nonlinear_arith);
    assert((-q) * b == -(b * q)) by (nonlinear_arith);
    assert(q * (-b) == -(b * q)) by (nonlinear_arith);
    assert(q * b == b * q) by (nonlinear_arith);
}

fn modulo_de(n: i64) -> (r: i128)
    ensures
        r == absoluto(n as int),
{
    if n < 0 {
        -(n as i128)
    } else {
        n as i128
    }
}

fn dividir(x: i64, y: i64) -> (r: i128)
    requires
        y != 0,
    ensures
        r == quociente(x as int, y as int),
{
    let a = modulo_de(x);
    let b = modulo_de(y);
    let q = (a as u128) / (b as u128);
    assert(q <= a) by (nonlinear_arith)
        requires
            q == a as u128 / b as u128,
            b >= 1,
            a >= 0,
    ;
    if (x < 0) != (y < 0) {
        -(q as i128)
    } else {
        q as i128
    }
}

fn restar(x: i64, y: i64) -> (r: i128)
    requires
        y != 0,
    ensures
        r == resto(x as int, y as int),
{
    let a = modulo_de(x);
    let b = modulo_de(y);
    let m = (a as u128) % (b as u128);
    if x < 0 {
        -(m as i128)
    } else {
        m as i128
    }
}

/// Uma conta entre dois numeros com ponto.
pub open spec fn conta(op: Conta, a: valor::Dado, b: valor::Dado) -> Option<FeitoVisto> {
    match (numero_de(a), numero_de(b)) {
        (Some(x), Some(y)) => Some(FeitoVisto::Conta { op, a: x, b: y }),
        _ => None,
    }
}

/// Duas listas, uma depois da outra.
fn emendar(a: &Vec<Valor>, b: &Vec<Valor>) -> (r: Vec<Valor>)
    ensures
        valor::vistos(r@) == valor::vistos(a@) + valor::vistos(b@),
{
    let mut r = copiar_lista(a);
    let ghost av = valor::vistos(a@);
    let ghost bv = valor::vistos(b@);
    let mut i: usize = 0;
    assert(valor::vistos(r@) =~= av + bv.take(0));
    while i < b.len()
        invariant
            i <= b@.len(),
            bv == valor::vistos(b@),
            valor::vistos(r@) == av + bv.take(i as int),
        decreases b@.len() - i,
    {
        let ghost o = r@;
        r.push(b[i].clone());
        assert(valor::vistos(r@) =~= valor::vistos(o).push(bv[i as int]));
        assert(valor::vistos(r@) =~= av + bv.take(i + 1));
        i += 1;
    }
    assert(bv.take(i as int) =~= bv);
    r
}

/// A soma.
pub open spec fn somado(a: valor::Dado, b: valor::Dado) -> FeitoVisto {
    match (a, b) {
        (valor::Dado::Inteiro(x), valor::Dado::Inteiro(y)) => inteiro_ou_panico(x + y),
        (valor::Dado::Lista(x), valor::Dado::Lista(y)) => FeitoVisto::Valor(valor::Dado::Lista(x + y)),
        _ => match conta(Conta::Soma, a, b) {
            Some(c) => c,
            None => if a is Texto || b is Texto {
                FeitoVisto::Valor(valor::Dado::Texto(valor::texto_de(a) + valor::texto_de(b)))
            } else {
                FeitoVisto::Falha(frase_de_dois("Nao e possivel somar "@, a, " e "@, b))
            },
        },
    }
}

fn somar(a: &Valor, b: &Valor) -> (r: Feito)
    ensures
        r@ == somado(a@, b@),
{
    match (a, b) {
        (Valor::Inteiro(x), Valor::Inteiro(y)) => dar_inteiro(*x as i128 + *y as i128),
        (Valor::Lista(x), Valor::Lista(y)) => Feito::Valor(Valor::Lista(emendar(x, y))),
        _ => match (numero_f64(a), numero_f64(b)) {
            (Some(x), Some(y)) => Feito::Conta { op: Conta::Soma, a: x, b: y },
            _ => {
                let ta = match a {
                    Valor::Texto(_) => true,
                    _ => false,
                };
                let tb = match b {
                    Valor::Texto(_) => true,
                    _ => false,
                };
                if ta || tb {
                    let mut s = a.texto();
                    s.append(b.texto().as_str());
                    Feito::Valor(Valor::Texto(s))
                } else {
                    Feito::Falha(dizer_dois("Nao e possivel somar ", a, " e ", b))
                }
            },
        },
    }
}

/// Um texto repetido, se cabe.
pub open spec fn repeticao(s: Seq<char>, n: int) -> FeitoVisto {
    if utf8::encode_utf8(s).len() * n > isize::MAX {
        FeitoVisto::Panico
    } else {
        FeitoVisto::Valor(valor::Dado::Texto(operacoes::repetido(s, n)))
    }
}

/// Quantas vezes um valor numerico manda repetir.
pub open spec fn vezes(v: valor::Dado) -> int {
    match v {
        valor::Dado::Numero(b, t) => decimal::indice(b),
        valor::Dado::Inteiro(n) => if n < 0 {
            0
        } else {
            n as usize as int
        },
        _ => 0,
    }
}

fn quantas_vezes(v: &Valor) -> (r: usize)
    ensures
        r == vezes(v@),
{
    match v {
        Valor::Numero(d) => decimal::para_indice(d.bits),
        Valor::Inteiro(n) => if *n < 0 {
            0
        } else {
            #[verifier::truncate]
            (*n as usize)
        },
        _ => 0,
    }
}

/// Repete um texto.
pub(crate) fn repetir(s: &str, n: usize) -> (r: Feito)
    ensures
        r@ == repeticao(s@, n as int),
{
    let t = s.as_bytes().len();
    proof {
        assert((t as u128) * (n as u128) <= u64::MAX as u128 * u64::MAX as u128) by (nonlinear_arith)
            requires
                t <= u64::MAX,
                n <= u64::MAX,
        ;
        assert(u64::MAX as u128 * u64::MAX as u128 <= u128::MAX) by (nonlinear_arith);
    }
    if (t as u128) * (n as u128) > isize::MAX as u128 {
        return Feito::Panico;
    }
    let mut r = String::new();
    assert(r@ =~= operacoes::repetido(s@, 0));
    let mut i: usize = 0;
    while i < n
        invariant
            i <= n,
            r@ == operacoes::repetido(s@, i as int),
        decreases n - i,
    {
        r.append(s);
        i += 1;
    }
    Feito::Valor(Valor::Texto(r))
}

/// O produto.
pub open spec fn multiplicado(a: valor::Dado, b: valor::Dado) -> FeitoVisto {
    match (a, b) {
        (valor::Dado::Inteiro(x), valor::Dado::Inteiro(y)) => inteiro_ou_panico(x * y),
        _ => match conta(Conta::Multiplicacao, a, b) {
            Some(c) => c,
            None => match (a, b) {
                (valor::Dado::Texto(s), _) if numero_de(b) is Some => repeticao(s, vezes(b)),
                (_, valor::Dado::Texto(s)) if numero_de(a) is Some => repeticao(s, vezes(a)),
                _ => FeitoVisto::Falha(frase_de_dois("Nao e possivel multiplicar "@, a, " e "@, b)),
            },
        },
    }
}

fn multiplicar(a: &Valor, b: &Valor) -> (r: Feito)
    ensures
        r@ == multiplicado(a@, b@),
{
    if let (Valor::Inteiro(x), Valor::Inteiro(y)) = (a, b) {
        assert(-0x40000000000000000000000000000000 <= *x * *y <= 0x40000000000000000000000000000000) by (nonlinear_arith)
            requires
                -0x8000000000000000 <= *x <= 0x7fffffffffffffff,
                -0x8000000000000000 <= *y <= 0x7fffffffffffffff,
        ;
        return dar_inteiro((*x as i128) * (*y as i128));
    }
    let na = numero_f64(a);
    let nb = numero_f64(b);
    if let (Some(x), Some(y)) = (na, nb) {
        return Feito::Conta { op: Conta::Multiplicacao, a: x, b: y };
    }
    if let Valor::Texto(s) = a {
        if nb.is_some() {
            return repetir(s.as_str(), quantas_vezes(b));
        }
    }
    if let Valor::Texto(s) = b {
        if na.is_some() {
            return repetir(s.as_str(), quantas_vezes(a));
        }
    }
    Feito::Falha(dizer_dois("Nao e possivel multiplicar ", a, " e ", b))
}

/// A comparacao de dois valores. Os numeros comparam-se com ponto.
pub open spec fn comparado(op: Relacao, a: valor::Dado, b: valor::Dado) -> FeitoVisto {
    match (numero_de(a), numero_de(b)) {
        (Some(x), Some(y)) => FeitoVisto::Valor(valor::Dado::Booleano(operacoes::entre_numeros(op, x, y))),
        _ => match (a, b) {
            (valor::Dado::Texto(x), valor::Dado::Texto(y)) => FeitoVisto::Valor(
                valor::Dado::Booleano(operacoes::entre_textos(op, x, y)),
            ),
            _ => FeitoVisto::Falha(frase_de_dois("Nao e possivel comparar "@, a, " e "@, b)),
        },
    }
}

fn comparar(op: Relacao, a: &Valor, b: &Valor) -> (r: Feito)
    ensures
        r@ == comparado(op, a@, b@),
{
    match (numero_f64(a), numero_f64(b)) {
        (Some(x), Some(y)) => Feito::Valor(Valor::Booleano(comparar_numeros(op, x, y))),
        _ => match (a, b) {
            (Valor::Texto(x), Valor::Texto(y)) => Feito::Valor(
                Valor::Booleano(comparar_textos(op, x.as_str(), y.as_str())),
            ),
            _ => Feito::Falha(dizer_dois("Nao e possivel comparar ", a, " e ", b)),
        },
    }
}

/// Se um valor esta numa lista.
pub open spec fn esta_na_lista(l: Seq<valor::Dado>, v: valor::Dado) -> bool {
    exists|i: int| 0 <= i < l.len() && valor::iguais(#[trigger] l[i], v)
}

/// Procura um valor numa lista.
pub fn tem_na_lista(l: &Vec<Valor>, v: &Valor) -> (r: bool)
    ensures
        r == esta_na_lista(valor::vistos(l@), v@),
{
    let ghost vs = valor::vistos(l@);
    let mut i: usize = 0;
    while i < l.len()
        invariant
            i <= l@.len(),
            vs == valor::vistos(l@),
            forall|k: int| 0 <= k < i ==> !valor::iguais(#[trigger] vs[k], v@),
        decreases l@.len() - i,
    {
        assert(vs[i as int] == l@[i as int]@);
        if l[i].igual(v) {
            return true;
        }
        i += 1;
    }
    false
}

/// Se um valor pertence a uma colecao; `nao` a nega.
pub open spec fn pertenca(a: valor::Dado, b: valor::Dado, nao: bool) -> FeitoVisto {
    match b {
        valor::Dado::Lista(l) => FeitoVisto::Valor(valor::Dado::Booleano(esta_na_lista(l, a) != nao)),
        valor::Dado::Mapa(m) => match a {
            valor::Dado::Texto(k) => FeitoVisto::Valor(
                valor::Dado::Booleano((valor::lugar(m, k, 0) is Some) != nao),
            ),
            _ => FeitoVisto::Falha("'em' com mapa requer chave de texto"@),
        },
        valor::Dado::Texto(s) => match a {
            valor::Dado::Texto(t) => FeitoVisto::Valor(valor::Dado::Booleano(busca::contem(s, t) != nao)),
            _ => FeitoVisto::Falha("'em' com texto requer texto como elemento"@),
        },
        _ => FeitoVisto::Falha("'em' requer lista, mapa ou texto, mas recebeu "@ + valor::texto_de(b)),
    }
}

fn pertencer(a: &Valor, b: &Valor, nao: bool) -> (r: Feito)
    ensures
        r@ == pertenca(a@, b@, nao),
{
    match b {
        Valor::Lista(l) => Feito::Valor(Valor::Booleano(tem_na_lista(l, a) != nao)),
        Valor::Mapa(m) => match a {
            Valor::Texto(k) => Feito::Valor(Valor::Booleano(achar_chave(m, k.as_str()).is_some() != nao)),
            _ => Feito::Falha("'em' com mapa requer chave de texto".to_owned()),
        },
        Valor::Texto(s) => match a {
            Valor::Texto(t) => Feito::Valor(Valor::Booleano(busca::contem_texto(s.as_str(), t.as_str()) != nao)),
            _ => Feito::Falha("'em' com texto requer texto como elemento".to_owned()),
        },
        _ => {
            let mut s = "'em' requer lista, mapa ou texto, mas recebeu ".to_owned();
            s.append(b.texto().as_str());
            Feito::Falha(s)
        },
    }
}

/// O que um operador de dois operandos da.
pub open spec fn aplicado(op: OpBinario, a: valor::Dado, b: valor::Dado) -> FeitoVisto {
    match op {
        OpBinario::Soma => somado(a, b),
        OpBinario::Subtracao => match (a, b) {
            (valor::Dado::Inteiro(x), valor::Dado::Inteiro(y)) => inteiro_ou_panico(x - y),
            _ => match conta(Conta::Subtracao, a, b) {
                Some(c) => c,
                None => FeitoVisto::Falha(requer("-"@, "numeros"@, a, b)),
            },
        },
        OpBinario::Multiplicacao => multiplicado(a, b),
        OpBinario::Divisao => match (numero_de(a), numero_de(b)) {
            (Some(x), Some(y)) => if !decimal::diferente_de_zero(y) {
                FeitoVisto::Falha("Divisao por zero"@)
            } else {
                FeitoVisto::Conta { op: Conta::Divisao, a: x, b: y }
            },
            _ => FeitoVisto::Falha(requer("/"@, "numeros"@, a, b)),
        },
        OpBinario::DivisaoInteira => match (a, b) {
            (valor::Dado::Inteiro(x), valor::Dado::Inteiro(y)) => if y == 0 {
                FeitoVisto::Falha("Divisao por zero"@)
            } else {
                inteiro_ou_panico(quociente(x as int, y as int))
            },
            _ => FeitoVisto::Falha(requer("//"@, "inteiros"@, a, b)),
        },
        OpBinario::Modulo => match (a, b) {
            (valor::Dado::Inteiro(x), valor::Dado::Inteiro(y)) => if y == 0 || (x == i64::MIN && y == -1) {
                FeitoVisto::Panico
            } else {
                inteiro_ou_panico(resto(x as int, y as int))
            },
            _ => match conta(Conta::Resto, a, b) {
                Some(c) => c,
                None => FeitoVisto::Falha(requer("%"@, "numeros"@, a, b)),
            },
        },
        OpBinario::Igual => FeitoVisto::Valor(valor::Dado::Booleano(valor::iguais(a, b))),
        OpBinario::DiferenteDe => FeitoVisto::Valor(valor::Dado::Booleano(!valor::iguais(a, b))),
        OpBinario::MenorQue => comparado(Relacao::Menor, a, b),
        OpBinario::MaiorQue => comparado(Relacao::Maior, a, b),
        OpBinario::MenorOuIgual => comparado(Relacao::MenorIgual, a, b),
        OpBinario::MaiorOuIgual => comparado(Relacao::MaiorIgual, a, b),
        OpBinario::E => FeitoVisto::Valor(valor::Dado::Booleano(verdadeiro(a) && verdadeiro(b))),
        OpBinario::Ou => FeitoVisto::Valor(valor::Dado::Booleano(verdadeiro(a) || verdadeiro(b))),
        OpBinario::Em => pertenca(a, b, false),
        OpBinario::NaoEm => pertenca(a, b, true),
    }
}

fn subtrair(a: &Valor, b: &Valor) -> (r: Feito)
    ensures
        r@ == aplicado(OpBinario::Subtracao, a@, b@),
{
    match (a, b) {
        (Valor::Inteiro(x), Valor::Inteiro(y)) => dar_inteiro(*x as i128 - *y as i128),
        _ => match (numero_f64(a), numero_f64(b)) {
            (Some(x), Some(y)) => Feito::Conta { op: Conta::Subtracao, a: x, b: y },
            _ => Feito::Falha(dizer_requer("-", "numeros", a, b)),
        },
    }
}

fn dividir_valores(a: &Valor, b: &Valor) -> (r: Feito)
    ensures
        r@ == aplicado(OpBinario::Divisao, a@, b@),
{
    match (numero_f64(a), numero_f64(b)) {
        (Some(x), Some(y)) => if !decimal::nao_zero(y) {
            Feito::Falha("Divisao por zero".to_owned())
        } else {
            Feito::Conta { op: Conta::Divisao, a: x, b: y }
        },
        _ => Feito::Falha(dizer_requer("/", "numeros", a, b)),
    }
}

fn dividir_inteiros(a: &Valor, b: &Valor) -> (r: Feito)
    ensures
        r@ == aplicado(OpBinario::DivisaoInteira, a@, b@),
{
    match (a, b) {
        (Valor::Inteiro(x), Valor::Inteiro(y)) => if *y == 0 {
            Feito::Falha("Divisao por zero".to_owned())
        } else {
            dar_inteiro(dividir(*x, *y))
        },
        _ => Feito::Falha(dizer_requer("//", "inteiros", a, b)),
    }
}

fn restar_valores(a: &Valor, b: &Valor) -> (r: Feito)
    ensures
        r@ == aplicado(OpBinario::Modulo, a@, b@),
{
    match (a, b) {
        (Valor::Inteiro(x), Valor::Inteiro(y)) => if *y == 0 || (*x == i64::MIN && *y == -1) {
            Feito::Panico
        } else {
            dar_inteiro(restar(*x, *y))
        },
        _ => match (numero_f64(a), numero_f64(b)) {
            (Some(x), Some(y)) => Feito::Conta { op: Conta::Resto, a: x, b: y },
            _ => Feito::Falha(dizer_requer("%", "numeros", a, b)),
        },
    }
}

/// Aplica um operador de dois operandos.
pub fn aplicar_op(op: OpBinario, a: &Valor, b: &Valor) -> (r: Feito)
    ensures
        r@ == aplicado(op, a@, b@),
{
    match op {
        OpBinario::Soma => somar(a, b),
        OpBinario::Subtracao => subtrair(a, b),
        OpBinario::Multiplicacao => multiplicar(a, b),
        OpBinario::Divisao => dividir_valores(a, b),
        OpBinario::DivisaoInteira => dividir_inteiros(a, b),
        OpBinario::Modulo => restar_valores(a, b),
        OpBinario::Igual => Feito::Valor(Valor::Booleano(a.igual(b))),
        OpBinario::DiferenteDe => Feito::Valor(Valor::Booleano(!a.igual(b))),
        OpBinario::MenorQue => comparar(Relacao::Menor, a, b),
        OpBinario::MaiorQue => comparar(Relacao::Maior, a, b),
        OpBinario::MenorOuIgual => comparar(Relacao::MenorIgual, a, b),
        OpBinario::MaiorOuIgual => comparar(Relacao::MaiorIgual, a, b),
        OpBinario::E => Feito::Valor(Valor::Booleano(e_verdadeiro(a) && e_verdadeiro(b))),
        OpBinario::Ou => Feito::Valor(Valor::Booleano(e_verdadeiro(a) || e_verdadeiro(b))),
        OpBinario::Em => pertencer(a, b, false),
        OpBinario::NaoEm => pertencer(a, b, true),
    }
}

/// O simetrico.
pub open spec fn negado(v: valor::Dado) -> FeitoVisto {
    match v {
        valor::Dado::Inteiro(n) => inteiro_ou_panico(-n),
        valor::Dado::Numero(b, t) => FeitoVisto::Negar(b),
        _ => FeitoVisto::Falha("O operador '-' so funciona com numeros"@),
    }
}

/// Troca o sinal.
pub fn negar(v: &Valor) -> (r: Feito)
    ensures
        r@ == negado(v@),
{
    match v {
        Valor::Inteiro(n) => dar_inteiro(-(*n as i128)),
        Valor::Numero(d) => Feito::Negar(d.bits),
        _ => Feito::Falha("O operador '-' so funciona com numeros".to_owned()),
    }
}

// ---- Indices ----------------------------------------------------------------------------

/// A falha de um indice fora de uma lista.
pub open spec fn fora(i: int, n: nat) -> Seq<char> {
    "Indice "@ + texto::decimal(i as nat) + " fora dos limites (tamanho: "@ + texto::decimal(n) + ")"@
}

fn dizer_fora(i: usize, n: usize) -> (r: String)
    ensures
        r@ == fora(i as int, n as nat),
{
    let a = texto::natural(i as u64);
    let b = texto::natural(n as u64);
    let mut s = frase("Indice ", a.as_str(), " fora dos limites (tamanho: ");
    s.append(b.as_str());
    s.append(")");
    s
}

/// O item de um indice.
pub open spec fn acessado(obj: valor::Dado, idx: valor::Dado) -> FeitoVisto {
    match (obj, idx) {
        (valor::Dado::Lista(v), valor::Dado::Inteiro(n)) => {
            let i = n as usize as int;
            if i < v.len() {
                FeitoVisto::Valor(v[i])
            } else {
                FeitoVisto::Falha(fora(i, v.len()))
            }
        },
        (valor::Dado::Texto(s), valor::Dado::Inteiro(n)) => {
            let i = n as usize as int;
            if i < s.len() {
                FeitoVisto::Valor(valor::Dado::Texto(seq![s[i]]))
            } else {
                FeitoVisto::Falha("Indice "@ + texto::decimal(i as nat) + " fora dos limites"@)
            }
        },
        (valor::Dado::Mapa(m), valor::Dado::Texto(k)) => FeitoVisto::Valor(
            match valor::valor_de(m, k) {
                Some(v) => v,
                None => valor::Dado::Nulo,
            },
        ),
        (valor::Dado::Bytes(b), valor::Dado::Inteiro(n)) => {
            let i = n as usize as int;
            if i < b.len() {
                FeitoVisto::Valor(valor::Dado::Inteiro(b[i] as i64))
            } else {
                FeitoVisto::Falha("Indice "@ + texto::decimal(i as nat) + " fora dos limites (bytes)"@)
            }
        },
        _ => FeitoVisto::Falha(frase_de_dois("Acesso invalido: "@, obj, " com indice "@, idx)),
    }
}

/// O item de um indice.
pub fn acessar(obj: &Valor, idx: &Valor) -> (r: Feito)
    ensures
        r@ == acessado(obj@, idx@),
{
    match (obj, idx) {
        (Valor::Lista(v), Valor::Inteiro(n)) => {
            let i =
                #[verifier::truncate]
                (*n as usize);
            if i < v.len() {
                assert(valor::vistos(v@)[i as int] == v@[i as int]@);
                Feito::Valor(v[i].clone())
            } else {
                Feito::Falha(dizer_fora(i, v.len()))
            }
        },
        (Valor::Texto(s), Valor::Inteiro(n)) => {
            let i =
                #[verifier::truncate]
                (*n as usize);
            let cs = texto::caracteres(s.as_str());
            if i < cs.len() {
                Feito::Valor(Valor::Texto(uma_letra(cs[i])))
            } else {
                let t = texto::natural(i as u64);
                Feito::Falha(frase("Indice ", t.as_str(), " fora dos limites"))
            }
        },
        (Valor::Mapa(m), Valor::Texto(k)) => Feito::Valor(obter_ou_nulo(m, k.as_str())),
        (Valor::Bytes(b), Valor::Inteiro(n)) => {
            let i =
                #[verifier::truncate]
                (*n as usize);
            if i < b.len() {
                Feito::Valor(Valor::Inteiro(b[i] as i64))
            } else {
                let t = texto::natural(i as u64);
                Feito::Falha(frase("Indice ", t.as_str(), " fora dos limites (bytes)"))
            }
        },
        _ => Feito::Falha(dizer_dois("Acesso invalido: ", obj, " com indice ", idx)),
    }
}

/// O objeto com um item trocado.
pub open spec fn trocado_em(obj: valor::Dado, idx: valor::Dado, val: valor::Dado) -> FeitoVisto {
    match (obj, idx) {
        (valor::Dado::Lista(v), valor::Dado::Inteiro(n)) => {
            let i = n as usize as int;
            if i < v.len() {
                FeitoVisto::Valor(valor::Dado::Lista(v.update(i, val)))
            } else {
                FeitoVisto::Falha(fora(i, v.len()))
            }
        },
        (valor::Dado::Mapa(m), valor::Dado::Texto(k)) => FeitoVisto::Valor(
            valor::Dado::Mapa(valor::com_valor(m, k, val)),
        ),
        _ => FeitoVisto::Falha("Atribuicao indexada invalida: use lista[n] ou mapa[\"chave\"]"@),
    }
}

/// Troca um item.
pub fn trocar_item(obj: Valor, idx: &Valor, val: Valor) -> (r: Feito)
    ensures
        r@ == trocado_em(obj@, idx@, val@),
{
    match (obj, idx) {
        (Valor::Lista(v), Valor::Inteiro(n)) => {
            let mut v = v;
            let i =
                #[verifier::truncate]
                (*n as usize);
            if i < v.len() {
                let ghost antes = valor::vistos(v@);
                let ghost x = val@;
                v.set(i, val);
                assert(valor::vistos(v@) =~= antes.update(i as int, x));
                Feito::Valor(Valor::Lista(v))
            } else {
                Feito::Falha(dizer_fora(i, v.len()))
            }
        },
        (Valor::Mapa(m), Valor::Texto(k)) => {
            let mut m = m;
            guardar(&mut m, k.clone(), val);
            Feito::Valor(Valor::Mapa(m))
        },
        _ => Feito::Falha("Atribuicao indexada invalida: use lista[n] ou mapa[\"chave\"]".to_owned()),
    }
}

/// O valor de uma chave de um objeto que pode ser nulo.
pub open spec fn acesso_opcional(obj: valor::Dado, chave: Seq<char>) -> FeitoVisto {
    match obj {
        valor::Dado::Nulo => FeitoVisto::Valor(valor::Dado::Nulo),
        valor::Dado::Mapa(m) => FeitoVisto::Valor(
            match valor::valor_de(m, chave) {
                Some(v) => v,
                None => valor::Dado::Nulo,
            },
        ),
        v => FeitoVisto::Falha("'?.' requer mapa ou nulo, recebeu "@ + valor::texto_de(v)),
    }
}

/// O valor de uma chave de um objeto que pode ser nulo.
pub fn acessar_opcional(obj: &Valor, chave: &str) -> (r: Feito)
    ensures
        r@ == acesso_opcional(obj@, chave@),
{
    match obj {
        Valor::Nulo => Feito::Valor(Valor::Nulo),
        Valor::Mapa(m) => Feito::Valor(obter_ou_nulo(m, chave)),
        _ => {
            let mut s = "'?.' requer mapa ou nulo, recebeu ".to_owned();
            s.append(obj.texto().as_str());
            Feito::Falha(s)
        },
    }
}

} // verus!
