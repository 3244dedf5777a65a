//! Os valores da maquina de pilha e as operacoes sobre eles.

use vstd::prelude::*;
use crate::ast::copiar_textos;
use crate::busca;
use crate::bytecode::{copiar_ops, Op};
use crate::bytecode;
use crate::decimal::Decimal;
use crate::decimal;
use crate::ordem;
use crate::texto;

verus! {

/// Onde ficam os dados de um tensor.
#[derive(Debug, Clone, Copy, PartialEq, Eq, Structural)]
pub enum Dispositivo {
    Cpu,
    Cuda(u32),
    Metal,
}

/// O nome de um dispositivo.
pub open spec fn nome_dispositivo(d: Dispositivo) -> Seq<char> {
    match d {
        Dispositivo::Cpu => "cpu"@,
        Dispositivo::Cuda(n) => "cuda:"@ + texto::decimal(n as nat),
        Dispositivo::Metal => "metal"@,
    }
}

impl Dispositivo {
    /// O nome do dispositivo.
    pub fn nome(&self) -> (r: String)
        ensures
            r@ == nome_dispositivo(*self),
    {
        match self {
            Dispositivo::Cpu => "cpu".to_owned(),
            Dispositivo::Cuda(n) => {
                let mut s = "cuda:".to_owned();
                s.append(texto::natural(*n as u64).as_str());
                s
            },
            Dispositivo::Metal => "metal".to_owned(),
        }
    }
}

// ---- Valores ----------------------------------------------------------------------------

/// Um valor da maquina. Um mapa guarda os pares pela ordem em que as chaves entraram.
#[derive(Debug)]
pub enum VmValor {
    Int(i64),
    Num(Decimal),
    Str(String),
    Bool(bool),
    Null,
    Lista(Vec<VmValor>),
    Mapa(Vec<(String, VmValor)>),
    Funcao { params: Vec<String>, corpo: Vec<Op> },
    /// Um tensor. As copias dele tem a mesma marca; zero e a de quem ainda nao a tem.
    Tensor { shape: Vec<usize>, dados: Vec<Decimal>, marca: u64 },
    TensorGrad { shape: Vec<usize>, dados: Vec<Decimal>, id: usize, marca: u64 },
    Bytes(Vec<u8>),
    ConexaoBD(u64),
    ConexaoSQLite(u64),
    Erro { tipo: String, mensagem: String, pilha: Vec<String> },
}

/// O que um valor representa.
pub ghost enum Visto {
    Int(i64),
    Num(u64, Seq<char>),
    Str(Seq<char>),
    Bool(bool),
    Null,
    Lista(Seq<Visto>),
    Mapa(Seq<(Seq<char>, Visto)>),
    Funcao { params: Seq<Seq<char>>, corpo: Seq<bytecode::Comando> },
    Tensor { shape: Seq<usize>, dados: Seq<(u64, Seq<char>)>, marca: u64 },
    TensorGrad { shape: Seq<usize>, dados: Seq<(u64, Seq<char>)>, id: usize, marca: u64 },
    Bytes(Seq<u8>),
    ConexaoBD(u64),
    ConexaoSQLite(u64),
    Erro { tipo: Seq<char>, mensagem: Seq<char>, pilha: Seq<Seq<char>> },
}

/// O que os numeros de um tensor representam.
pub open spec fn numeros(v: Seq<Decimal>) -> Seq<(u64, Seq<char>)> {
    v.map_values(|d: Decimal| (d.bits, d.texto@))
}

/// O que uma lista de valores representa.
pub open spec fn vistos(v: Seq<VmValor>) -> Seq<Visto>
    decreases v,
{
    Seq::new(
        v.len(),
        |i: int|
            if 0 <= i < v.len() {
                v[i]@
            } else {
                arbitrary()
            },
    )
}

/// O que os pares de um mapa representam.
pub open spec fn pares_vistos(v: Seq<(String, VmValor)>) -> Seq<(Seq<char>, Visto)>
    decreases v,
{
    Seq::new(
        v.len(),
        |i: int|
            if 0 <= i < v.len() {
                (v[i].0@, v[i].1@)
            } else {
                arbitrary()
            },
    )
}

impl VmValor {
    pub open spec fn view(&self) -> Visto
        decreases self,
    {
        match self {
            VmValor::Int(n) => Visto::Int(*n),
            VmValor::Num(d) => Visto::Num(d.bits, d.texto@),
            VmValor::Str(s) => Visto::Str(s@),
            VmValor::Bool(b) => Visto::Bool(*b),
            VmValor::Null => Visto::Null,
            VmValor::Lista(v) => Visto::Lista(vistos(v@)),
            VmValor::Mapa(m) => Visto::Mapa(pares_vistos(m@)),
            VmValor::Funcao { params, corpo } => Visto::Funcao {
                params: texto::textos(params@),
                corpo: bytecode::comandos(corpo@),
            },
            VmValor::Tensor { shape, dados, marca } => Visto::Tensor {
                shape: shape@,
                dados: numeros(dados@),
                marca: *marca,
            },
            VmValor::TensorGrad { shape, dados, id, marca } => Visto::TensorGrad {
                shape: shape@,
                dados: numeros(dados@),
                id: *id,
                marca: *marca,
            },
            VmValor::Bytes(b) => Visto::Bytes(b@),
            VmValor::ConexaoBD(id) => Visto::ConexaoBD(*id),
            VmValor::ConexaoSQLite(id) => Visto::ConexaoSQLite(*id),
            VmValor::Erro { tipo, mensagem, pilha } => Visto::Erro {
                tipo: tipo@,
                mensagem: mensagem@,
                pilha: texto::textos(pilha@),
            },
        }
    }
}

/// Copia as dimensoes de um tensor.
pub fn copiar_shape(v: &Vec<usize>) -> (r: Vec<usize>)
    ensures
        r@ == v@,
{
    let mut r: Vec<usize> = Vec::new();
    let mut i: usize = 0;
    while i < v.len()
        invariant
            i <= v@.len(),
            r@ == v@.take(i as int),
        decreases v@.len() - i,
    {
        r.push(v[i]);
        assert(v@.take(i + 1) =~= v@.take(i as int).push(v@[i as int]));
        i += 1;
    }
    assert(v@.take(i as int) =~= v@);
    r
}

/// Copia os numeros de um tensor.
pub fn copiar_numeros(v: &Vec<Decimal>) -> (r: Vec<Decimal>)
    ensures
        numeros(r@) == numeros(v@),
{
    let mut r: Vec<Decimal> = Vec::new();
    let mut i: usize = 0;
    while i < v.len()
        invariant
            i <= v@.len(),
            r@.len() == i,
            forall|k: int| 0 <= k < i ==> numeros(r@)[k] == #[trigger] numeros(v@)[k],
        decreases v@.len() - i,
    {
        r.push(v[i].clone());
        i += 1;
    }
    assert(numeros(r@) =~= numeros(v@));
    r
}

/// Copia uma lista de valores.
pub fn copiar_lista(v: &Vec<VmValor>) -> (r: Vec<VmValor>)
    ensures
        vistos(r@) == vistos(v@),
    decreases v,
{
    let mut r: Vec<VmValor> = Vec::new();
    let mut i: usize = 0;
    while i < v.len()
        invariant
            i <= v@.len(),
            r@.len() == i,
            forall|k: int| 0 <= k < i ==> (#[trigger] r@[k])@ == v@[k]@,
        decreases v@.len() - i,
    {
        r.push(v[i].clone());
        i += 1;
    }
    assert(vistos(r@) =~= vistos(v@));
    r
}

/// Copia os pares de um mapa.
pub fn copiar_pares(v: &Vec<(String, VmValor)>) -> (r: Vec<(String, VmValor)>)
    ensures
        pares_vistos(r@) == pares_vistos(v@),
    decreases v,
{
    let mut r: Vec<(String, VmValor)> = Vec::new();
    let mut i: usize = 0;
    while i < v.len()
        invariant
            i <= v@.len(),
            r@.len() == i,
            forall|k: int| 0 <= k < i ==> (#[trigger] r@[k]).0@ == v@[k].0@ && r@[k].1@ == v@[k].1@,
        decreases v@.len() - i,
    {
        let k = v[i].0.clone();
        let x = v[i].1.clone();
        r.push((k, x));
        i += 1;
    }
    assert(pares_vistos(r@) =~= pares_vistos(v@));
    r
}

impl Clone for VmValor {
    fn clone(&self) -> (r: Self)
        ensures
            r@ == self@,
        decreases self,
    {
        match self {
            VmValor::Int(n) => VmValor::Int(*n),
            VmValor::Num(d) => VmValor::Num(d.clone()),
            VmValor::Str(s) => VmValor::Str(s.clone()),
            VmValor::Bool(b) => VmValor::Bool(*b),
            VmValor::Null => VmValor::Null,
            VmValor::Lista(v) => VmValor::Lista(copiar_lista(v)),
            VmValor::Mapa(m) => VmValor::Mapa(copiar_pares(m)),
            VmValor::Funcao { params, corpo } => VmValor::Funcao {
                params: copiar_textos(params),
                corpo: copiar_ops(corpo),
            },
            VmValor::Tensor { shape, dados, marca } => VmValor::Tensor {
                shape: copiar_shape(shape),
                dados: copiar_numeros(dados),
                marca: *marca,
            },
            VmValor::TensorGrad { shape, dados, id, marca } => VmValor::TensorGrad {
                shape: copiar_shape(shape),
                dados: copiar_numeros(dados),
                id: *id,
                marca: *marca,
            },
            VmValor::Bytes(b) => VmValor::Bytes(busca::copia(b)),
            VmValor::ConexaoBD(id) => VmValor::ConexaoBD(*id),
            VmValor::ConexaoSQLite(id) => VmValor::ConexaoSQLite(*id),
            VmValor::Erro { tipo, mensagem, pilha } => VmValor::Erro {
                tipo: tipo.clone(),
                mensagem: mensagem.clone(),
                pilha: copiar_textos(pilha),
            },
        }
    }
}

// ---- Texto ------------------------------------------------------------------------------

/// Os itens da dimensao `dim` de um tensor a partir do item `i`, com os numeros a partir da
/// posicao `off`: o texto e a posicao seguinte.
pub open spec fn itens_tensor(
    shape: Seq<usize>,
    dados: Seq<(u64, Seq<char>)>,
    dim: int,
    off: int,
    i: int,
) -> (Seq<char>, int)
    decreases shape.len() - dim, shape[dim] - i,
{
    if dim < 0 || dim >= shape.len() || i < 0 || i >= shape[dim] {
        (Seq::empty(), off)
    } else {
        let sep = if i > 0 {
            ", "@
        } else {
            Seq::empty()
        };
        if dim == shape.len() - 1 {
            if off < 0 || off >= dados.len() {
                (Seq::empty(), off)
            } else {
                let r = itens_tensor(shape, dados, dim, off + 1, i + 1);
                (sep + dados[off].1 + r.0, r.1)
            }
        } else {
            let d = itens_tensor(shape, dados, dim + 1, off, 0);
            let r = itens_tensor(shape, dados, dim, d.1, i + 1);
            (sep + "["@ + d.0 + "]"@ + r.0, r.1)
        }
    }
}

/// O texto de um tensor.
pub open spec fn texto_tensor(shape: Seq<usize>, dados: Seq<(u64, Seq<char>)>) -> Seq<char> {
    "["@ + itens_tensor(shape, dados, 0, 0, 0).0 + "]"@
}

fn escrever_itens(shape: &Vec<usize>, dados: &Vec<Decimal>, dim: usize, inicio: usize) -> (r: (String, usize))
    requires
        inicio <= dados@.len(),
    ensures
        (r.0@, r.1 as int) == itens_tensor(shape@, numeros(dados@), dim as int, inicio as int, 0),
        inicio <= r.1 <= dados@.len(),
    decreases shape@.len() - dim,
{
    let mut s = String::new();
    let mut off: usize = inicio;
    assert(s@ =~= Seq::<char>::empty());
    if dim >= shape.len() {
        return (s, off);
    }
    let n = shape[dim];
    let ghost ds = numeros(dados@);
    let ghost total = itens_tensor(shape@, ds, dim as int, off as int, 0);
    let mut i: usize = 0;
    assert(total.0 =~= s@ + itens_tensor(shape@, ds, dim as int, off as int, i as int).0);
    while i < n
        invariant
            dim < shape@.len(),
            n == shape@[dim as int],
            i <= n,
            inicio <= off <= dados@.len(),
            ds == numeros(dados@),
            total.0 == s@ + itens_tensor(shape@, ds, dim as int, off as int, i as int).0,
            total.1 == itens_tensor(shape@, ds, dim as int, off as int, i as int).1,
            total == itens_tensor(shape@, ds, dim as int, inicio as int, 0),
        decreases n - i,
    {
        let ghost antes = s@;
        let ghost agora = itens_tensor(shape@, ds, dim as int, off as int, i as int);
        if dim == shape.len() - 1 {
            if off >= dados.len() {
                assert(total.0 =~= s@);
                return (s, off);
            }
            if i > 0 {
                s.append(", ");
            }
            s.append(dados[off].texto.as_str());
            proof {
                let sep = if i > 0 {
                    ", "@
                } else {
                    Seq::empty()
                };
                let r = itens_tensor(shape@, ds, dim as int, off + 1, i + 1);
                assert(ds[off as int].1 == dados@[off as int].texto@);
                assert(s@ =~= antes + (sep + ds[off as int].1));
                assert(agora.0 == sep + ds[off as int].1 + r.0);
                assert(antes + agora.0 =~= s@ + r.0);
            }
            off += 1;
        } else {
            if i > 0 {
                s.append(", ");
            }
            s.append("[");
            let (d, o) = escrever_itens(shape, dados, dim + 1, off);
            s.append(d.as_str());
            s.append("]");
            proof {
                let sep = if i > 0 {
                    ", "@
                } else {
                    Seq::empty()
                };
                let r = itens_tensor(shape@, ds, dim as int, o as int, i + 1);
                assert(s@ =~= antes + (sep + "["@ + d@ + "]"@));
                assert(agora.0 == sep + "["@ + d@ + "]"@ + r.0);
                assert(antes + agora.0 =~= s@ + r.0);
            }
            off = o;
        }
        i += 1;
    }
    assert(total.0 =~= s@);
    (s, off)
}

/// O texto de um tensor.
pub fn tensor_em_texto(shape: &Vec<usize>, dados: &Vec<Decimal>) -> (r: String)
    ensures
        r@ == texto_tensor(shape@, numeros(dados@)),
{
    let (d, _o) = escrever_itens(shape, dados, 0, 0);
    let mut s = "[".to_owned();
    s.append(d.as_str());
    s.append("]");
    s
}

/// O texto de um valor dentro de uma lista ou de um mapa: os textos ficam entre aspas.
pub open spec fn com_aspas(v: Visto, t: Seq<char>) -> Seq<char> {
    if v is Str {
        "\""@ + t + "\""@
    } else {
        t
    }
}

/// Os textos dos itens de uma lista.
pub open spec fn citados(l: Seq<Visto>) -> Seq<Seq<char>>
    decreases l,
{
    Seq::new(
        l.len(),
        |i: int|
            if 0 <= i < l.len() {
                com_aspas(l[i], texto_de(l[i]))
            } else {
                Seq::empty()
            },
    )
}

/// Os textos dos pares de um mapa.
pub open spec fn pares_citados(m: Seq<(Seq<char>, Visto)>) -> Seq<Seq<char>>
    decreases m,
{
    Seq::new(
        m.len(),
        |i: int|
            if 0 <= i < m.len() {
                m[i].0 + ": "@ + com_aspas(m[i].1, texto_de(m[i].1))
            } else {
                Seq::empty()
            },
    )
}

/// O texto de um valor.
pub open spec fn texto_de(v: Visto) -> Seq<char>
    decreases v,
{
    match v {
        Visto::Int(n) => texto::decimal_int(n as int),
        Visto::Num(b, t) => t,
        Visto::Str(s) => s,
        Visto::Bool(b) => if b {
            "verdadeiro"@
        } else {
            "falso"@
        },
        Visto::Null => "nulo"@,
        Visto::Lista(l) => "["@ + busca::juntos(citados(l), ", "@) + "]"@,
        Visto::Mapa(m) => "{"@ + busca::juntos(ordem::ordenadas(pares_citados(m)), ", "@) + "}"@,
        Visto::Funcao { .. } => "<função>"@,
        Visto::Tensor { shape, dados, .. } => texto_tensor(shape, dados),
        Visto::TensorGrad { shape, dados, id, .. } => "<grad#"@ + texto::decimal(id as nat) + " "@ + texto_tensor(
            shape,
            dados,
        ) + ">"@,
        Visto::Bytes(b) => "<bytes:"@ + texto::decimal(b.len()) + ">"@,
        Visto::ConexaoBD(id) => "<conexao BD #"@ + texto::decimal(id as nat) + ">"@,
        Visto::ConexaoSQLite(id) => "<conexao SQLite #"@ + texto::decimal(id as nat) + ">"@,
        Visto::Erro { tipo, mensagem, pilha } => "[Erro:"@ + tipo + "] "@ + mensagem,
    }
}

/// Uma frase de tres partes.
pub(crate) fn frase(a: &str, b: &str, c: &str) -> (r: String)
    ensures
        r@ == a@ + b@ + c@,
{
    let mut s = a.to_owned();
    s.append(b);
    s.append(c);
    s
}

fn citar(v: &VmValor, t: String) -> (r: String)
    ensures
        r@ == com_aspas(v@, t@),
{
    match v {
        VmValor::Str(_) => frase("\"", t.as_str(), "\""),
        _ => t,
    }
}

fn textos_da_lista(l: &Vec<VmValor>) -> (r: Vec<String>)
    ensures
        r@.len() == l@.len(),
        forall|i: int| 0 <= i < l@.len() ==> (#[trigger] r@[i])@ == com_aspas(l@[i]@, texto_de(l@[i]@)),
    decreases l,
{
    let mut r: Vec<String> = Vec::new();
    let mut i: usize = 0;
    while i < l.len()
        invariant
            i <= l@.len(),
            r@.len() == i,
            forall|k: int| 0 <= k < i ==> (#[trigger] r@[k])@ == com_aspas(l@[k]@, texto_de(l@[k]@)),
        decreases l@.len() - i,
    {
        let t = l[i].texto();
        r.push(citar(&l[i], t));
        i += 1;
    }
    r
}

fn textos_dos_pares(m: &Vec<(String, VmValor)>) -> (r: Vec<String>)
    ensures
        r@.len() == m@.len(),
        forall|i: int|
            0 <= i < m@.len() ==> (#[trigger] r@[i])@ == m@[i].0@ + ": "@ + com_aspas(m@[i].1@, texto_de(m@[i].1@)),
    decreases m,
{
    let mut r: Vec<String> = Vec::new();
    let mut i: usize = 0;
    while i < m.len()
        invariant
            i <= m@.len(),
            r@.len() == i,
            forall|k: int|
                0 <= k < i ==> (#[trigger] r@[k])@ == m@[k].0@ + ": "@ + com_aspas(m@[k].1@, texto_de(m@[k].1@)),
        decreases m@.len() - i,
    {
        let t = m[i].1.texto();
        let c = citar(&m[i].1, t);
        r.push(frase(m[i].0.as_str(), ": ", c.as_str()));
        i += 1;
    }
    r
}

impl VmValor {
    /// O texto do valor, como se imprime.
    pub fn texto(&self) -> (r: String)
        ensures
            r@ == texto_de(self@),
        decreases self,
    {
        match self {
            VmValor::Int(n) => texto::inteiro(*n),
            VmValor::Num(d) => d.texto.clone(),
            VmValor::Str(s) => s.clone(),
            VmValor::Bool(b) => if *b {
                "verdadeiro".to_owned()
            } else {
                "falso".to_owned()
            },
            VmValor::Null => "nulo".to_owned(),
            VmValor::Lista(l) => {
                let ts = textos_da_lista(l);
                let j = busca::juntar(&ts, ", ");
                assert(texto::textos(ts@) =~= citados(vistos(l@)));
                frase("[", j.as_str(), "]")
            },
            VmValor::Mapa(m) => {
                let ts = textos_dos_pares(m);
                assert(texto::textos(ts@) =~= pares_citados(pares_vistos(m@)));
                let os = ordem::ordenar(ts);
                let j = busca::juntar(&os, ", ");
                frase("{", j.as_str(), "}")
            },
            VmValor::Funcao { .. } => "<função>".to_owned(),
            VmValor::Tensor { shape, dados, .. } => tensor_em_texto(shape, dados),
            VmValor::TensorGrad { shape, dados, id, .. } => {
                let n = texto::natural(*id as u64);
                let t = tensor_em_texto(shape, dados);
                let mut s = frase("<grad#", n.as_str(), " ");
                s.append(t.as_str());
                s.append(">");
                s
            },
            VmValor::Bytes(b) => {
                let n = texto::natural(b.len() as u64);
                frase("<bytes:", n.as_str(), ">")
            },
            VmValor::ConexaoBD(id) => {
                let n = texto::natural(*id);
                frase("<conexao BD #", n.as_str(), ">")
            },
            VmValor::ConexaoSQLite(id) => {
                let n = texto::natural(*id);
                frase("<conexao SQLite #", n.as_str(), ">")
            },
            VmValor::Erro { tipo, mensagem, .. } => {
                let mut s = frase("[Erro:", tipo.as_str(), "] ");
                s.append(mensagem.as_str());
                s
            },
        }
    }
}

/// Se um valor conta como verdadeiro.
pub open spec fn verdadeiro(v: Visto) -> bool {
    match v {
        Visto::Bool(b) => b,
        Visto::Null => false,
        Visto::Num(b, t) => decimal::diferente_de_zero(b),
        Visto::Int(n) => n != 0,
        Visto::Str(s) => s.len() > 0,
        Visto::Lista(l) => l.len() > 0,
        Visto::Mapa(m) => m.len() > 0,
        Visto::Bytes(b) => b.len() > 0,
        Visto::Erro { .. } => false,
        _ => true,
    }
}

impl VmValor {
    /// Se o valor conta como verdadeiro.
    pub fn e_verdadeiro(&self) -> (r: bool)
        ensures
            r == verdadeiro(self@),
    {
        match self {
            VmValor::Bool(b) => *b,
            VmValor::Null => false,
            VmValor::Num(d) => decimal::nao_zero(d.bits),
            VmValor::Int(n) => *n != 0,
            VmValor::Str(s) => !s.as_str().is_empty(),
            VmValor::Lista(l) => l.len() > 0,
            VmValor::Mapa(m) => m.len() > 0,
            VmValor::Bytes(b) => b.len() > 0,
            VmValor::Erro { .. } => false,
            _ => true,
        }
    }
}

// ---- Mapas ------------------------------------------------------------------------------

/// Onde esta uma chave, a partir da posicao `i`.
pub open spec fn lugar(m: Seq<(Seq<char>, Visto)>, k: Seq<char>, i: int) -> Option<int>
    decreases m.len() - i,
{
    if i < 0 || i >= m.len() {
        None
    } else if m[i].0 == k {
        Some(i)
    } else {
        lugar(m, k, i + 1)
    }
}

/// O valor de uma chave.
pub open spec fn valor_de(m: Seq<(Seq<char>, Visto)>, k: Seq<char>) -> Option<Visto> {
    match lugar(m, k, 0) {
        Some(i) => Some(m[i].1),
        None => None,
    }
}

/// O mapa com um valor para uma chave.
pub open spec fn com_valor(m: Seq<(Seq<char>, Visto)>, k: Seq<char>, v: Visto) -> Seq<(Seq<char>, Visto)> {
    match lugar(m, k, 0) {
        Some(i) => m.update(i, (k, v)),
        None => m.push((k, v)),
    }
}

/// O mapa sem uma chave.
pub open spec fn sem_chave(m: Seq<(Seq<char>, Visto)>, k: Seq<char>) -> Seq<(Seq<char>, Visto)> {
    match lugar(m, k, 0) {
        Some(i) => m.remove(i),
        None => m,
    }
}

/// Nenhuma chave se repete.
pub open spec fn distintas(m: Seq<(Seq<char>, Visto)>) -> bool {
    forall|i: int, j: int| 0 <= i < j < m.len() ==> (#[trigger] m[i]).0 != (#[trigger] m[j]).0
}

pub proof fn lema_lugar(m: Seq<(Seq<char>, Visto)>, k: Seq<char>, i: int)
    requires
        0 <= i,
    ensures
        match lugar(m, k, i) {
            Some(j) => i <= j < m.len() && m[j].0 == k && forall|l: int| i <= l < j ==> (#[trigger] m[l]).0 != k,
            None => forall|l: int| i <= l < m.len() ==> (#[trigger] m[l]).0 != k,
        },
    decreases m.len() - i,
{
    if i < m.len() && m[i].0 != k {
        lema_lugar(m, k, i + 1);
    }
}

/// Guardar um valor e le-lo de volta: a chave da o valor guardado, as outras o que davam, e as
/// chaves continuam sem repeticoes.
pub proof fn lei_mapa(m: Seq<(Seq<char>, Visto)>, k: Seq<char>, v: Visto, outra: Seq<char>)
    requires
        distintas(m),
    ensures
        distintas(com_valor(m, k, v)),
        valor_de(com_valor(m, k, v), k) == Some(v),
        outra != k ==> valor_de(com_valor(m, k, v), outra) == valor_de(m, outra),
        distintas(sem_chave(m, k)),
        valor_de(sem_chave(m, k), k) is None,
        outra != k ==> valor_de(sem_chave(m, k), outra) == valor_de(m, outra),
{
    let c = com_valor(m, k, v);
    let s = sem_chave(m, k);
    lema_lugar(m, k, 0);
    lema_lugar(m, outra, 0);
    lema_lugar(c, k, 0);
    lema_lugar(c, outra, 0);
    lema_lugar(s, k, 0);
    lema_lugar(s, outra, 0);
    match lugar(m, k, 0) {
        Some(i) => {
            assert(c[i] == (k, v));
            assert forall|a: int| 0 <= a < s.len() implies #[trigger] s[a] == m[if a < i {
                a
            } else {
                a + 1
            }] by {}
            if let Some(j) = lugar(m, outra, 0) {
                if outra != k {
                    assert(c[j] == m[j]);
                    assert(s[if j < i {
                        j
                    } else {
                        j - 1
                    }] == m[j]);
                }
            }
        },
        None => {
            assert(c[m.len() as int] == (k, v));
            if let Some(j) = lugar(m, outra, 0) {
                assert(c[j] == m[j]);
            }
        },
    }
}

/// Procura uma chave.
pub fn achar_chave(m: &Vec<(String, VmValor)>, k: &str) -> (r: Option<usize>)
    ensures
        match r {
            Some(i) => lugar(pares_vistos(m@), k@, 0) == Some(i as int) && i < m@.len(),
            None => lugar(pares_vistos(m@), k@, 0) is None,
        },
{
    let ghost p = pares_vistos(m@);
    let mut i: usize = 0;
    while i < m.len()
        invariant
            i <= m@.len(),
            p == pares_vistos(m@),
            lugar(p, k@, 0) == lugar(p, k@, i as int),
        decreases m@.len() - i,
    {
        assert(p[i as int].0 == m@[i as int].0@);
        if m[i].0.as_str().eq(k) {
            return Some(i);
        }
        i += 1;
    }
    None
}

/// O valor de uma chave, ou nulo.
pub fn obter_ou_nulo(m: &Vec<(String, VmValor)>, k: &str) -> (r: VmValor)
    ensures
        r@ == (match valor_de(pares_vistos(m@), k@) {
            Some(v) => v,
            None => Visto::Null,
        }),
{
    match achar_chave(m, k) {
        Some(i) => m[i].1.clone(),
        None => VmValor::Null,
    }
}

/// Guarda um valor num mapa.
pub fn guardar(m: &mut Vec<(String, VmValor)>, k: String, v: VmValor)
    ensures
        pares_vistos(final(m)@) == com_valor(pares_vistos(old(m)@), k@, v@),
{
    let ghost p = pares_vistos(m@);
    let ghost ks = k@;
    let ghost vs = v@;
    match achar_chave(m, k.as_str()) {
        Some(i) => {
            m.set(i, (k, v));
            assert(pares_vistos(m@) =~= p.update(i as int, (ks, vs)));
        },
        None => {
            m.push((k, v));
            assert(pares_vistos(m@) =~= p.push((ks, vs)));
        },
    }
}

/// Tira uma chave de um mapa.
pub fn tirar(m: &mut Vec<(String, VmValor)>, k: &str)
    ensures
        pares_vistos(final(m)@) == sem_chave(pares_vistos(old(m)@), k@),
{
    let ghost p = pares_vistos(m@);
    if let Some(i) = achar_chave(m, k) {
        let _x = m.remove(i);
        assert(pares_vistos(m@) =~= p.remove(i as int));
    }
}

// ---- Igualdade --------------------------------------------------------------------------

/// Se os numeros de dois tensores sao iguais.
pub open spec fn numeros_iguais(a: Seq<(u64, Seq<char>)>, b: Seq<(u64, Seq<char>)>) -> bool {
    a.len() == b.len() && forall|i: int| 0 <= i < a.len() ==> decimal::iguais((#[trigger] a[i]).0, b[i].0)
}

/// Se dois valores sao iguais. Um inteiro e igual ao numero com ponto mais proximo dele.
pub open spec fn iguais(a: Visto, b: Visto) -> bool
    decreases a,
{
    match (a, b) {
        (Visto::Num(x, s), Visto::Num(y, t)) => decimal::iguais(x, y),
        (Visto::Int(x), Visto::Int(y)) => x == y,
        (Visto::Int(x), Visto::Num(y, t)) => decimal::iguais(decimal::bits_de(x as int) as u64, y),
        (Visto::Num(y, t), Visto::Int(x)) => decimal::iguais(decimal::bits_de(x as int) as u64, y),
        (Visto::Str(x), Visto::Str(y)) => x == y,
        (Visto::Bool(x), Visto::Bool(y)) => x == y,
        (Visto::Null, Visto::Null) => true,
        (Visto::Lista(x), Visto::Lista(y)) => x.len() == y.len() && forall|i: int|
            0 <= i < x.len() ==> iguais(#[trigger] x[i], y[i]),
        (Visto::Mapa(x), Visto::Mapa(y)) => x.len() == y.len() && forall|i: int|
            0 <= i < x.len() ==> (valor_de(y, (#[trigger] x[i]).0) matches Some(w) && iguais(x[i].1, w)),
        (Visto::Bytes(x), Visto::Bytes(y)) => x == y,
        (Visto::Tensor { shape: sa, dados: da, .. }, Visto::Tensor { shape: sb, dados: db, .. }) => sa == sb && numeros_iguais(
            da,
            db,
        ),
        (Visto::TensorGrad { id: x, .. }, Visto::TensorGrad { id: y, .. }) => x == y,
        _ => false,
    }
}

/// Se duas listas de dimensoes sao iguais.
pub fn mesmas_dimensoes(a: &Vec<usize>, b: &Vec<usize>) -> (r: bool)
    ensures
        r == (a@ == b@),
{
    if a.len() != b.len() {
        return false;
    }
    let mut i: usize = 0;
    while i < a.len()
        invariant
            i <= a@.len(),
            a@.len() == b@.len(),
            forall|k: int| 0 <= k < i ==> a@[k] == b@[k],
        decreases a@.len() - i,
    {
        if a[i] != b[i] {
            return false;
        }
        i += 1;
    }
    assert(a@ =~= b@);
    true
}

/// Se os numeros de dois tensores sao iguais.
pub fn mesmos_numeros(a: &Vec<Decimal>, b: &Vec<Decimal>) -> (r: bool)
    ensures
        r == numeros_iguais(numeros(a@), numeros(b@)),
{
    if a.len() != b.len() {
        return false;
    }
    let mut i: usize = 0;
    while i < a.len()
        invariant
            i <= a@.len(),
            a@.len() == b@.len(),
            forall|k: int| 0 <= k < i ==> decimal::iguais((#[trigger] numeros(a@)[k]).0, numeros(b@)[k].0),
        decreases a@.len() - i,
    {
        if !decimal::sao_iguais(a[i].bits, b[i].bits) {
            assert(!decimal::iguais(numeros(a@)[i as int].0, numeros(b@)[i as int].0));
            return false;
        }
        i += 1;
    }
    true
}

/// Se duas listas de bytes sao iguais.
pub fn mesmos_bytes(a: &Vec<u8>, b: &Vec<u8>) -> (r: bool)
    ensures
        r == (a@ == b@),
{
    if a.len() != b.len() {
        return false;
    }
    let mut i: usize = 0;
    while i < a.len()
        invariant
            i <= a@.len(),
            a@.len() == b@.len(),
            forall|k: int| 0 <= k < i ==> a@[k] == b@[k],
        decreases a@.len() - i,
    {
        if a[i] != b[i] {
            return false;
        }
        i += 1;
    }
    assert(a@ =~= b@);
    true
}

fn listas_iguais(a: &Vec<VmValor>, b: &Vec<VmValor>) -> (r: bool)
    ensures
        r == iguais(Visto::Lista(vistos(a@)), Visto::Lista(vistos(b@))),
    decreases a,
{
    let ghost x = vistos(a@);
    let ghost y = vistos(b@);
    if a.len() != b.len() {
        return false;
    }
    let mut i: usize = 0;
    while i < a.len()
        invariant
            i <= a@.len(),
            a@.len() == b@.len(),
            x == vistos(a@),
            y == vistos(b@),
            forall|k: int| 0 <= k < i ==> iguais(#[trigger] x[k], y[k]),
        decreases a@.len() - i,
    {
        if !a[i].igual(&b[i]) {
            assert(!iguais(x[i as int], y[i as int]));
            return false;
        }
        i += 1;
    }
    true
}

fn mapas_iguais(a: &Vec<(String, VmValor)>, b: &Vec<(String, VmValor)>) -> (r: bool)
    ensures
        r == iguais(Visto::Mapa(pares_vistos(a@)), Visto::Mapa(pares_vistos(b@))),
    decreases a,
{
    let ghost x = pares_vistos(a@);
    let ghost y = pares_vistos(b@);
    if a.len() != b.len() {
        return false;
    }
    let mut i: usize = 0;
    while i < a.len()
        invariant
            i <= a@.len(),
            a@.len() == b@.len(),
            x == pares_vistos(a@),
            y == pares_vistos(b@),
            forall|k: int|
                0 <= k < i ==> (valor_de(y, (#[trigger] x[k]).0) matches Some(w) && iguais(x[k].1, w)),
        decreases a@.len() - i,
    {
        assert(x[i as int].0 == a@[i as int].0@);
        match achar_chave(b, a[i].0.as_str()) {
            Some(j) => {
                if !a[i].1.igual(&b[j].1) {
                    assert(!(valor_de(y, x[i as int].0) matches Some(w) && iguais(x[i as int].1, w)));
                    return false;
                }
            },
            None => {
                assert(valor_de(y, x[i as int].0) is None);
                return false;
            },
        }
        i += 1;
    }
    true
}


impl VmValor {
    /// Se os dois valores sao iguais.
    pub fn igual(&self, outro: &VmValor) -> (r: bool)
        ensures
            r == iguais(self@, outro@),
        decreases self,
    {
        match (self, outro) {
            (VmValor::Num(x), VmValor::Num(y)) => decimal::sao_iguais(x.bits, y.bits),
            (VmValor::Int(x), VmValor::Int(y)) => *x == *y,
            (VmValor::Int(x), VmValor::Num(y)) => decimal::sao_iguais(decimal::de_inteiro(*x), y.bits),
            (VmValor::Num(y), VmValor::Int(x)) => decimal::sao_iguais(decimal::de_inteiro(*x), y.bits),
            (VmValor::Str(x), VmValor::Str(y)) => x.as_str().eq(y.as_str()),
            (VmValor::Bool(x), VmValor::Bool(y)) => *x == *y,
            (VmValor::Null, VmValor::Null) => true,
            (VmValor::Lista(x), VmValor::Lista(y)) => listas_iguais(x, y),
            (VmValor::Mapa(x), VmValor::Mapa(y)) => mapas_iguais(x, y),
            (VmValor::Bytes(x), VmValor::Bytes(y)) => mesmos_bytes(x, y),
            (VmValor::Tensor { shape: sa, dados: da, .. }, VmValor::Tensor { shape: sb, dados: db, .. }) => mesmas_dimensoes(
                sa,
                sb,
            ) && mesmos_numeros(da, db),
            (VmValor::TensorGrad { id: x, .. }, VmValor::TensorGrad { id: y, .. }) => *x == *y,
            _ => false,
        }
    }
}

} // verus!
