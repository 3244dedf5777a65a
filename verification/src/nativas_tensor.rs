//! As funcoes nativas que criam e consultam tensores.

use vstd::prelude::*;
use crate::decimal::Decimal;
use crate::decimal;
use crate::nativas;
use crate::operacoes::Saida;
use crate::operacoes;
use crate::tensor;
use crate::texto;
use crate::vm::{copiar_numeros, copiar_shape, VmValor};
use crate::vm;

verus! {

/// Numeros de um tensor, vistos.
pub type Numeros = Seq<(u64, Seq<char>)>;

/// Uma matriz vazia.
pub open spec fn matriz_vazia() -> vm::Visto {
    vm::Visto::Tensor { shape: seq![0usize, 0usize], dados: Seq::empty(), marca: 0 }
}

/// Os primeiros `n` numeros de uma lista, se todos tem ponto.
pub open spec fn com_ponto(l: Seq<vm::Visto>, n: int) -> Option<Numeros>
    decreases n,
{
    if n <= 0 || n > l.len() {
        Some(Seq::empty())
    } else {
        match com_ponto(l, n - 1) {
            None => None,
            Some(v) => match l[n - 1] {
                vm::Visto::Num(b, t) => Some(v.push((b, t))),
                _ => None,
            },
        }
    }
}

/// Os numeros das primeiras `n` linhas de uma matriz, ou a falha.
pub open spec fn linhas_seguidas(l: Seq<vm::Visto>, n: int) -> Result<Numeros, Seq<char>>
    decreases n,
{
    if n <= 0 || n > l.len() {
        Ok(Seq::empty())
    } else {
        match linhas_seguidas(l, n - 1) {
            Err(m) => Err(m),
            Ok(v) => match l[n - 1] {
                vm::Visto::Lista(r) => match com_ponto(r, r.len() as int) {
                    Some(x) => Ok(v + x),
                    None => Err("mat_de: elementos devem ser numeros"@),
                },
                _ => Err("mat_de: cada linha deve ser lista"@),
            },
        }
    }
}

/// A matriz de uma lista de listas.
pub open spec fn matriz_de(v: vm::Visto) -> operacoes::SaidaVista {
    match v {
        vm::Visto::Lista(l) => if l.len() == 0 {
            nativas::da(matriz_vazia())
        } else {
            match l[0] {
                vm::Visto::Lista(r) => match linhas_seguidas(l, l.len() as int) {
                    Err(m) => nativas::falha(m),
                    Ok(d) => nativas::da(
                        vm::Visto::Tensor { shape: seq![l.len() as usize, r.len() as usize], dados: d, marca: 0 },
                    ),
                },
                _ => nativas::falha("mat_de: cada linha deve ser lista"@),
            }
        },
        _ => nativas::nao_serve("mat_de: requer lista de listas, recebeu "@, v),
    }
}

proof fn lema_com_ponto(l: Seq<vm::Visto>, n: int)
    requires
        0 <= n <= l.len(),
        com_ponto(l, n) is None,
    ensures
        com_ponto(l, l.len() as int) is None,
    decreases l.len() - n,
{
    if n < l.len() {
        lema_com_ponto(l, n + 1);
    }
}

proof fn lema_linhas(l: Seq<vm::Visto>, n: int)
    requires
        0 <= n <= l.len(),
        linhas_seguidas(l, n) is Err,
    ensures
        linhas_seguidas(l, l.len() as int) == linhas_seguidas(l, n),
    decreases l.len() - n,
{
    if n < l.len() {
        lema_linhas(l, n + 1);
    }
}

fn ler_com_ponto(l: &Vec<VmValor>) -> (r: Option<Vec<Decimal>>)
    ensures
        match r {
            Some(v) => com_ponto(vm::vistos(l@), l@.len() as int) == Some(vm::numeros(v@)),
            None => com_ponto(vm::vistos(l@), l@.len() as int) is None,
        },
{
    let ghost vs = vm::vistos(l@);
    let mut r: Vec<Decimal> = Vec::new();
    assert(vm::numeros(r@) =~= Seq::empty());
    let mut i: usize = 0;
    while i < l.len()
        invariant
            i <= l@.len(),
            vs == vm::vistos(l@),
            com_ponto(vs, i as int) == Some(vm::numeros(r@)),
        decreases l@.len() - i,
    {
        assert(vs[i as int] == l@[i as int]@);
        match &l[i] {
            VmValor::Num(d) => {
                let ghost antes = r@;
                r.push(d.clone());
                assert(vm::numeros(r@) =~= vm::numeros(antes).push((d.bits, d.texto@)));
            },
            _ => {
                proof {
                    lema_com_ponto(vs, i + 1);
                }
                return None;
            },
        }
        i += 1;
    }
    Some(r)
}

fn juntar_numeros(a: &mut Vec<Decimal>, b: &Vec<Decimal>)
    ensures
        vm::numeros(final(a)@) == vm::numeros(old(a)@) + vm::numeros(b@),
{
    let ghost antes = vm::numeros(a@);
    let ghost bs = vm::numeros(b@);
    let mut i: usize = 0;
    assert(antes =~= antes + bs.take(0));
    while i < b.len()
        invariant
            i <= b@.len(),
            bs == vm::numeros(b@),
            vm::numeros(a@) == antes + bs.take(i as int),
        decreases b@.len() - i,
    {
        let ghost o = a@;
        a.push(b[i].clone());
        assert(vm::numeros(a@) =~= vm::numeros(o).push(bs[i as int]));
        assert(vm::numeros(a@) =~= antes + bs.take(i + 1));
        i += 1;
    }
    assert(bs.take(i as int) =~= bs);
}

fn fazer_matriz(v: &VmValor) -> (r: Saida)
    ensures
        r@ == matriz_de(v@),
{
    let l = match v {
        VmValor::Lista(l) => l,
        _ => {
            let mut s = "mat_de: requer lista de listas, recebeu ".to_owned();
            s.append(v.texto().as_str());
            return Saida::Falha(s);
        },
    };
    let ghost vs = vm::vistos(l@);
    if l.len() == 0 {
        let d: Vec<Decimal> = Vec::new();
        assert(vm::numeros(d@) =~= Seq::empty());
        return Saida::Valor(VmValor::Tensor { shape: tensor::dois_tamanhos(0, 0), dados: d, marca: 0 });
    }
    assert(vs[0] == l@[0]@);
    let ncol = match &l[0] {
        VmValor::Lista(r) => r.len(),
        _ => return Saida::Falha("mat_de: cada linha deve ser lista".to_owned()),
    };
    let mut d: Vec<Decimal> = Vec::new();
    assert(vm::numeros(d@) =~= Seq::empty());
    let mut i: usize = 0;
    while i < l.len()
        invariant
            i <= l@.len(),
            vs == vm::vistos(l@),
            v@ == vm::Visto::Lista(vs),
            vs.len() > 0,
            vs[0] is Lista,
            linhas_seguidas(vs, i as int) == Ok::<Numeros, Seq<char>>(vm::numeros(d@)),
        decreases l@.len() - i,
    {
        assert(vs[i as int] == l@[i as int]@);
        match &l[i] {
            VmValor::Lista(r) => match ler_com_ponto(r) {
                Some(x) => {
                    juntar_numeros(&mut d, &x);
                },
                None => {
                    proof {
                        lema_linhas(vs, i + 1);
                    }
                    return Saida::Falha("mat_de: elementos devem ser numeros".to_owned());
                },
            },
            _ => {
                proof {
                    lema_linhas(vs, i + 1);
                }
                return Saida::Falha("mat_de: cada linha deve ser lista".to_owned());
            },
        }
        i += 1;
    }
    Saida::Valor(VmValor::Tensor { shape: tensor::dois_tamanhos(l.len(), ncol), dados: d, marca: 0 })
}

/// As primeiras `n` dimensoes de uma lista; um inteiro so serve se `inteiros`.
pub open spec fn dimensoes_de(l: Seq<vm::Visto>, inteiros: bool, n: int) -> Option<Seq<usize>>
    decreases n,
{
    if n <= 0 || n > l.len() {
        Some(Seq::empty())
    } else {
        match dimensoes_de(l, inteiros, n - 1) {
            None => None,
            Some(s) => match l[n - 1] {
                vm::Visto::Num(b, t) => Some(s.push(decimal::indice(b) as usize)),
                vm::Visto::Int(x) if inteiros => Some(s.push(x as usize)),
                _ => None,
            },
        }
    }
}

proof fn lema_dimensoes(l: Seq<vm::Visto>, inteiros: bool, n: int)
    requires
        0 <= n <= l.len(),
        dimensoes_de(l, inteiros, n) is None,
    ensures
        dimensoes_de(l, inteiros, l.len() as int) is None,
    decreases l.len() - n,
{
    if n < l.len() {
        lema_dimensoes(l, inteiros, n + 1);
    }
}

fn ler_dimensoes(l: &Vec<VmValor>, inteiros: bool) -> (r: Option<Vec<usize>>)
    ensures
        match r {
            Some(s) => dimensoes_de(vm::vistos(l@), inteiros, l@.len() as int) == Some(s@),
            None => dimensoes_de(vm::vistos(l@), inteiros, l@.len() as int) is None,
        },
{
    let ghost vs = vm::vistos(l@);
    let mut r: Vec<usize> = Vec::new();
    assert(r@ =~= Seq::empty());
    let mut i: usize = 0;
    while i < l.len()
        invariant
            i <= l@.len(),
            vs == vm::vistos(l@),
            dimensoes_de(vs, inteiros, i as int) == Some(r@),
        decreases l@.len() - i,
    {
        assert(vs[i as int] == l@[i as int]@);
        let x: Option<usize> = match &l[i] {
            VmValor::Num(d) => Some(decimal::para_indice(d.bits)),
            VmValor::Int(n) => if inteiros {
                Some(
                    #[verifier::truncate]
                    (*n as usize),
                )
            } else {
                None
            },
            _ => None,
        };
        match x {
            Some(d) => {
                r.push(d);
            },
            None => {
                proof {
                    lema_dimensoes(vs, inteiros, i + 1);
                }
                return None;
            },
        }
        i += 1;
    }
    Some(r)
}

/// Os argumentos que dao dimensoes.
pub open spec fn dimensoes_dos_args(a: Seq<vm::Visto>, nome: Seq<char>) -> Result<Seq<usize>, Seq<char>> {
    if a.len() == 1 {
        match a[0] {
            vm::Visto::Lista(l) => match dimensoes_de(l, false, l.len() as int) {
                Some(s) => Ok(s),
                None => Err(nome + ": shape deve ser lista de inteiros"@),
            },
            vm::Visto::Num(b, t) => Ok(seq![decimal::indice(b) as usize]),
            _ => Err(nome + ": shape invalido"@),
        }
    } else {
        match dimensoes_de(a, false, a.len() as int) {
            Some(s) => Ok(s),
            None => Err(nome + ": args de shape devem ser inteiros"@),
        }
    }
}

fn vm_shape_de_args(a: &Vec<VmValor>, nome: &str) -> (r: Result<Vec<usize>, String>)
    ensures
        match r {
            Ok(s) => dimensoes_dos_args(vm::vistos(a@), nome@) == Ok::<Seq<usize>, Seq<char>>(s@),
            Err(m) => dimensoes_dos_args(vm::vistos(a@), nome@) == Err::<Seq<usize>, Seq<char>>(m@),
        },
{
    let ghost vs = vm::vistos(a@);
    assert(vs.len() == a@.len());
    if a.len() == 1 {
        assert(vs[0] == a@[0]@);
        match &a[0] {
            VmValor::Lista(l) => match ler_dimensoes(l, false) {
                Some(s) => Ok(s),
                None => {
                    let mut m = nome.to_owned();
                    m.append(": shape deve ser lista de inteiros");
                    Err(m)
                },
            },
            VmValor::Num(d) => {
                let mut s: Vec<usize> = Vec::new();
                s.push(decimal::para_indice(d.bits));
                assert(s@ =~= seq![decimal::indice(d.bits) as usize]);
                Ok(s)
            },
            _ => {
                let mut m = nome.to_owned();
                m.append(": shape invalido");
                Err(m)
            },
        }
    } else {
        match ler_dimensoes(a, false) {
            Some(s) => Ok(s),
            None => {
                let mut m = nome.to_owned();
                m.append(": args de shape devem ser inteiros");
                Err(m)
            },
        }
    }
}

/// Um tensor com o mesmo numero em todas as posicoes, se cabe.
pub open spec fn cheio(a: Seq<vm::Visto>, nome: Seq<char>, x: (u64, Seq<char>)) -> operacoes::SaidaVista {
    match dimensoes_dos_args(a, nome) {
        Err(m) => nativas::falha(m),
        Ok(s) => match tensor::produto(s) {
            None => operacoes::SaidaVista::Panico,
            Some(n) => if n * 8 > isize::MAX {
                operacoes::SaidaVista::Panico
            } else {
                nativas::da(vm::Visto::Tensor { shape: s, dados: tensor::repetido(x, n as nat), marca: 0 })
            },
        },
    }
}

fn encher(a: &Vec<VmValor>, nome: &str, x: Decimal) -> (r: Saida)
    ensures
        r@ == cheio(vm::vistos(a@), nome@, (x.bits, x.texto@)),
{
    let s = match vm_shape_de_args(a, nome) {
        Ok(s) => s,
        Err(m) => return Saida::Falha(m),
    };
    let n = match tensor::multiplicar(s.as_slice()) {
        Some(n) => n,
        None => return Saida::Panico,
    };
    if (n as u128) * 8 > isize::MAX as u128 {
        return Saida::Panico;
    }
    let d = tensor::repetir(&x, n);
    Saida::Valor(VmValor::Tensor { shape: s, dados: d, marca: 0 })
}

/// Os primeiros `n` numeros de uma lista, se todos o sao.
pub open spec fn numeros_da_lista(l: Seq<vm::Visto>, n: int) -> Option<Numeros>
    decreases n,
{
    if n <= 0 || n > l.len() {
        Some(Seq::empty())
    } else {
        match (numeros_da_lista(l, n - 1), l[n - 1]) {
            (Some(v), vm::Visto::Num(b, t)) => Some(v.push((b, t))),
            (Some(v), vm::Visto::Int(x)) => Some(v.push((decimal::bits_de(x as int) as u64, texto::decimal_int(x as int)))),
            _ => None,
        }
    }
}

/// Se um valor e um inteiro que como numero com ponto se escreve de outro modo.
pub open spec fn grande(v: vm::Visto) -> bool {
    v is Int && nativas::numero_pequeno(v->Int_0 as int) is None
}

/// Um tensor com os numeros de uma lista e as dimensoes de outra. Com inteiros grandes e pedido.
pub open spec fn tensor_da_lista(a: Seq<vm::Visto>) -> operacoes::SaidaVista {
    if a.len() < 2 {
        nativas::falha("tensor_de(dados, shape)"@)
    } else {
        match a[1] {
            vm::Visto::Lista(f) => match dimensoes_de(f, true, f.len() as int) {
                None => nativas::falha("tensor_de: shape deve ser lista de inteiros"@),
                Some(s) => match a[0] {
                    vm::Visto::Lista(l) => match (numeros_da_lista(l, l.len() as int), tensor::produto(s)) {
                        (None, _) => nativas::falha("tensor_de: dados devem ser numeros"@),
                        (_, None) => operacoes::SaidaVista::Panico,
                        (Some(d), Some(n)) => if d.len() != n {
                            nativas::falha(
                                "tensor_de: "@ + texto::decimal(d.len()) + " elementos mas shape "@ + tensor::dimensoes(s)
                                    + " requer "@ + texto::decimal(n as nat),
                            )
                        } else if exists|i: int| 0 <= i < l.len() && #[trigger] grande(l[i]) {
                            nativas::pedida("tensor_de"@, a)
                        } else {
                            nativas::da(vm::Visto::Tensor { shape: s, dados: d, marca: 0 })
                        },
                    },
                    _ => nativas::falha("tensor_de: dados deve ser lista de numeros"@),
                },
            },
            _ => nativas::falha("tensor_de: shape deve ser lista"@),
        }
    }
}

proof fn lema_numeros_da_lista(l: Seq<vm::Visto>, n: int)
    requires
        0 <= n <= l.len(),
        numeros_da_lista(l, n) is None,
    ensures
        numeros_da_lista(l, l.len() as int) is None,
    decreases l.len() - n,
{
    if n < l.len() {
        lema_numeros_da_lista(l, n + 1);
    }
}

fn ler_numeros_da_lista(l: &Vec<VmValor>) -> (r: Option<(Vec<Decimal>, bool)>)
    ensures
        match r {
            Some((d, g)) => {
                &&& numeros_da_lista(vm::vistos(l@), l@.len() as int) == Some(vm::numeros(d@))
                &&& g == exists|i: int| 0 <= i < l@.len() && #[trigger] grande(vm::vistos(l@)[i])
            },
            None => numeros_da_lista(vm::vistos(l@), l@.len() as int) is None,
        },
{
    let ghost vs = vm::vistos(l@);
    let mut d: Vec<Decimal> = Vec::new();
    let mut g = false;
    assert(vm::numeros(d@) =~= Seq::empty());
    let mut i: usize = 0;
    while i < l.len()
        invariant
            i <= l@.len(),
            vs == vm::vistos(l@),
            vs.len() == l@.len(),
            numeros_da_lista(vs, i as int) == Some(vm::numeros(d@)),
            g == exists|k: int| 0 <= k < i && #[trigger] grande(vs[k]),
        decreases l@.len() - i,
    {
        assert(vs[i as int] == l@[i as int]@);
        let x = match &l[i] {
            VmValor::Num(x) => x.clone(),
            VmValor::Int(n) => {
                if nativas::fazer_numero(*n).is_none() {
                    assert(grande(vs[i as int]));
                    g = true;
                }
                Decimal { bits: decimal::de_inteiro(*n), texto: texto::inteiro(*n) }
            },
            _ => {
                proof {
                    lema_numeros_da_lista(vs, i + 1);
                }
                return None;
            },
        };
        let ghost antes = vm::numeros(d@);
        let ghost xv = (x.bits, x.texto@);
        d.push(x);
        assert(vm::numeros(d@) =~= antes.push(xv));
        i += 1;
    }
    Some((d, g))
}

fn fazer_da_lista(a: &Vec<VmValor>) -> (r: Saida)
    ensures
        r@ == tensor_da_lista(vm::vistos(a@)),
{
    let ghost vs = vm::vistos(a@);
    assert(vs.len() == a@.len());
    if a.len() < 2 {
        return Saida::Falha("tensor_de(dados, shape)".to_owned());
    }
    assert(vs[0] == a@[0]@ && vs[1] == a@[1]@);
    let s = match &a[1] {
        VmValor::Lista(f) => match ler_dimensoes(f, true) {
            None => return Saida::Falha("tensor_de: shape deve ser lista de inteiros".to_owned()),
            Some(s) => s,
        },
        _ => return Saida::Falha("tensor_de: shape deve ser lista".to_owned()),
    };
    let (d, g) = match &a[0] {
        VmValor::Lista(l) => {
            assert(vm::vistos(l@).len() == l@.len());
            match ler_numeros_da_lista(l) {
                None => return Saida::Falha("tensor_de: dados devem ser numeros".to_owned()),
                Some(x) => x,
            }
        },
        _ => return Saida::Falha("tensor_de: dados deve ser lista de numeros".to_owned()),
    };
    assert(vm::numeros(d@).len() == d@.len());
    let n = match tensor::multiplicar(s.as_slice()) {
        None => return Saida::Panico,
        Some(n) => n,
    };
    if d.len() != n {
        let mut m = "tensor_de: ".to_owned();
        m.append(texto::natural(d.len() as u64).as_str());
        m.append(" elementos mas shape ");
        m.append(tensor::dizer_dimensoes(&s).as_str());
        m.append(" requer ");
        m.append(texto::natural(n as u64).as_str());
        return Saida::Falha(m);
    }
    if g {
        return nativas::pedir("tensor_de", a);
    }
    Saida::Valor(VmValor::Tensor { shape: s, dados: d, marca: 0 })
}

/// As dimensoes como numeros, se sao pequenas.
pub open spec fn dimensoes_em_valores(s: Seq<usize>, n: int) -> Option<Seq<vm::Visto>>
    decreases n,
{
    if n <= 0 || n > s.len() {
        Some(Seq::empty())
    } else {
        match (dimensoes_em_valores(s, n - 1), nativas::numero_pequeno(s[n - 1] as int)) {
            (Some(v), Some(x)) => Some(v.push(x)),
            _ => None,
        }
    }
}

proof fn lema_dimensoes_em_valores(s: Seq<usize>, n: int)
    requires
        0 <= n <= s.len(),
        dimensoes_em_valores(s, n) is None,
    ensures
        dimensoes_em_valores(s, s.len() as int) is None,
    decreases s.len() - n,
{
    if n < s.len() {
        lema_dimensoes_em_valores(s, n + 1);
    }
}

fn listar_dimensoes(s: &Vec<usize>) -> (r: Option<Vec<VmValor>>)
    ensures
        match r {
            Some(v) => dimensoes_em_valores(s@, s@.len() as int) == Some(vm::vistos(v@)),
            None => dimensoes_em_valores(s@, s@.len() as int) is None,
        },
{
    let mut r: Vec<VmValor> = Vec::new();
    assert(vm::vistos(r@) =~= Seq::empty());
    let mut i: usize = 0;
    while i < s.len()
        invariant
            i <= s@.len(),
            dimensoes_em_valores(s@, i as int) == Some(vm::vistos(r@)),
        decreases s@.len() - i,
    {
        if (s[i] as u64) >= 1000000000000000 {
            proof {
                lema_dimensoes_em_valores(s@, i + 1);
            }
            return None;
        }
        match nativas::fazer_numero(s[i] as i64) {
            Some(v) => {
                let ghost o = r@;
                let ghost x = v@;
                r.push(v);
                assert(vm::vistos(r@) =~= vm::vistos(o).push(x));
            },
            None => {
                proof {
                    lema_dimensoes_em_valores(s@, i + 1);
                }
                return None;
            },
        }
        i += 1;
    }
    Some(r)
}

/// As consultas a um tensor.
pub open spec fn consulta(nome: Seq<char>, a: Seq<vm::Visto>) -> operacoes::SaidaVista {
    match tensor::tensor_de(a[0]) {
        Some((shape, dados)) => if nome == "tensor_shape"@ {
            match dimensoes_em_valores(shape, shape.len() as int) {
                Some(v) => nativas::da(vm::Visto::Lista(v)),
                None => nativas::pedida(nome, a),
            }
        } else if nome == "tensor_ndim"@ {
            nativas::numero_ou_pedida(shape.len() as int, nome, a)
        } else if nome == "tensor_tamanho"@ {
            nativas::numero_ou_pedida(dados.len() as int, nome, a)
        } else {
            match tensor::em_listas(shape, dados) {
                Some(v) => nativas::da(v),
                None => operacoes::SaidaVista::Panico,
            }
        },
        None => nativas::nao_serve(nome_da_consulta(nome) + ": requer tensor, recebeu "@, a[0]),
    }
}

/// O nome com que uma consulta falha.
pub open spec fn nome_da_consulta(nome: Seq<char>) -> Seq<char> {
    if nome == "mat_para_lista"@ {
        "tensor_para_lista"@
    } else {
        nome
    }
}

fn consultar(nome: &str, a: &Vec<VmValor>) -> (r: Saida)
    requires
        a@.len() == 1,
    ensures
        r@ == consulta(nome@, vm::vistos(a@)),
{
    assert(vm::vistos(a@)[0] == a@[0]@);
    match &a[0] {
        VmValor::Tensor { shape, dados, .. } | VmValor::TensorGrad { shape, dados, .. } => {
            if nome.eq("tensor_shape") {
                match listar_dimensoes(shape) {
                    Some(v) => Saida::Valor(VmValor::Lista(v)),
                    None => nativas::pedir(nome, a),
                }
            } else if nome.eq("tensor_ndim") {
                nativas::numero_ou_pedir(shape.len(), nome, a)
            } else if nome.eq("tensor_tamanho") {
                nativas::numero_ou_pedir(dados.len(), nome, a)
            } else {
                match tensor::vm_tensor_para_lista(shape.as_slice(), dados.as_slice()) {
                    Some(v) => Saida::Valor(v),
                    None => Saida::Panico,
                }
            }
        },
        _ => {
            let n: &str = if nome.eq("mat_para_lista") {
                "tensor_para_lista"
            } else {
                nome
            };
            let mut s = n.to_owned();
            s.append(": requer tensor, recebeu ");
            s.append(a[0].texto().as_str());
            Saida::Falha(s)
        },
    }
}

/// O mesmo tensor com outras dimensoes.
pub open spec fn redimensionado(a: Seq<vm::Visto>) -> operacoes::SaidaVista {
    if a.len() < 2 {
        nativas::falha("tensor_reshape(tensor, shape)"@)
    } else {
        match a[1] {
            vm::Visto::Lista(l) => match dimensoes_de(l, false, l.len() as int) {
                None => nativas::falha("shape deve ser lista de inteiros"@),
                Some(s) => match tensor::tensor_de(a[0]) {
                    Some((_, dados)) => match tensor::produto(s) {
                        None => operacoes::SaidaVista::Panico,
                        Some(n) => if n != dados.len() {
                            nativas::falha("tensor_reshape: tamanho incompativel"@)
                        } else {
                            nativas::da(vm::Visto::Tensor { shape: s, dados, marca: tensor::marca_de(a[0]) })
                        },
                    },
                    None => nativas::nao_serve("tensor_reshape: requer tensor, recebeu "@, a[0]),
                },
            },
            _ => nativas::falha("tensor_reshape: shape deve ser lista"@),
        }
    }
}

fn redimensionar(a: &Vec<VmValor>) -> (r: Saida)
    ensures
        r@ == redimensionado(vm::vistos(a@)),
{
    let ghost vs = vm::vistos(a@);
    assert(vs.len() == a@.len());
    if a.len() < 2 {
        return Saida::Falha("tensor_reshape(tensor, shape)".to_owned());
    }
    assert(vs[0] == a@[0]@ && vs[1] == a@[1]@);
    match &a[1] {
        VmValor::Lista(l) => match ler_dimensoes(l, false) {
            None => Saida::Falha("shape deve ser lista de inteiros".to_owned()),
            Some(s) => match &a[0] {
                VmValor::Tensor { dados, marca, .. } | VmValor::TensorGrad { dados, marca, .. } => match tensor::multiplicar(s.as_slice()) {
                    None => Saida::Panico,
                    Some(n) => if n != dados.len() {
                        Saida::Falha("tensor_reshape: tamanho incompativel".to_owned())
                    } else {
                        Saida::Valor(VmValor::Tensor { shape: s, dados: copiar_numeros(dados), marca: *marca })
                    },
                },
                _ => {
                    let mut m = "tensor_reshape: requer tensor, recebeu ".to_owned();
                    m.append(a[0].texto().as_str());
                    Saida::Falha(m)
                },
            },
        },
        _ => Saida::Falha("tensor_reshape: shape deve ser lista".to_owned()),
    }
}

/// As funcoes de tensores.
pub open spec fn de_tensores(nome: Seq<char>, a: Seq<vm::Visto>) -> Option<operacoes::SaidaVista> {
    if nome == "mat_de"@ {
        Some(
            if a.len() != 1 {
                nativas::quer_um(nome, a.len())
            } else {
                matriz_de(a[0])
            },
        )
    } else if nome == "tensor_de"@ {
        Some(tensor_da_lista(a))
    } else if nome == "tensor_zeros"@ {
        Some(cheio(a, nome, (0u64, "0"@)))
    } else if nome == "tensor_uns"@ {
        Some(cheio(a, nome, (0x3ff0000000000000u64, "1"@)))
    } else if nome == "tensor_shape"@ || nome == "tensor_ndim"@ || nome == "tensor_tamanho"@ || nome
        == "tensor_para_lista"@ || nome == "mat_para_lista"@ {
        Some(
            if a.len() != 1 {
                nativas::quer_um(nome_da_consulta(nome), a.len())
            } else {
                consulta(nome, a)
            },
        )
    } else if nome == "tensor_reshape"@ {
        Some(redimensionado(a))
    } else if nome == "grad_dados"@ {
        Some(
            if a.len() != 1 {
                nativas::quer_um(nome, a.len())
            } else {
                match tensor::tensor_de(a[0]) {
                    Some((shape, dados)) => nativas::da(vm::Visto::Tensor { shape, dados, marca: tensor::marca_de(a[0]) }),
                    None => nativas::nao_serve("grad_dados: requer tensor ou tensor_grad, recebeu "@, a[0]),
                }
            },
        )
    } else {
        None
    }
}

/// Chama uma funcao de tensores.
pub fn com_tensores(nome: &str, a: &Vec<VmValor>) -> (r: Option<Saida>)
    ensures
        nativas::talvez(r) == de_tensores(nome@, vm::vistos(a@)),
{
    let n = a.len();
    let ghost vs = vm::vistos(a@);
    assert(vs.len() == n);
    assert(n > 0 ==> vs[0] == a@[0]@);
    if nome.eq("mat_de") {
        if n != 1 {
            return Some(nativas::dizer_quer_um(nome, n));
        }
        return Some(fazer_matriz(&a[0]));
    }
    if nome.eq("tensor_de") {
        return Some(fazer_da_lista(a));
    }
    if nome.eq("tensor_zeros") {
        return Some(encher(a, nome, Decimal { bits: 0, texto: "0".to_owned() }));
    }
    if nome.eq("tensor_uns") {
        return Some(encher(a, nome, Decimal { bits: 0x3ff0000000000000, texto: "1".to_owned() }));
    }
    if nome.eq("tensor_shape") || nome.eq("tensor_ndim") || nome.eq("tensor_tamanho") || nome.eq("tensor_para_lista")
        || nome.eq("mat_para_lista") {
        if n != 1 {
            let q: &str = if nome.eq("mat_para_lista") {
                "tensor_para_lista"
            } else {
                nome
            };
            return Some(nativas::dizer_quer_um(q, n));
        }
        return Some(consultar(nome, a));
    }
    if nome.eq("tensor_reshape") {
        return Some(redimensionar(a));
    }
    if nome.eq("grad_dados") {
        if n != 1 {
            return Some(nativas::dizer_quer_um(nome, n));
        }
        return Some(
            match &a[0] {
                VmValor::Tensor { shape, dados, marca } => Saida::Valor(
                    VmValor::Tensor { shape: copiar_shape(shape), dados: copiar_numeros(dados), marca: *marca },
                ),
                VmValor::TensorGrad { shape, dados, marca, .. } => Saida::Valor(
                    VmValor::Tensor { shape: copiar_shape(shape), dados: copiar_numeros(dados), marca: *marca },
                ),
                _ => nativas::recusar("grad_dados: requer tensor ou tensor_grad, recebeu ", &a[0]),
            },
        );
    }
    None
}

} // verus!
