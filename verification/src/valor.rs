//! Os valores do interpretador da arvore e os seus ambientes.

use vstd::prelude::*;
use crate::ast::{copiar_instrs, copiar_params, copiar_textos, Instrucao, Parametro};
use crate::ast;
use crate::busca;
use crate::decimal::Decimal;
use crate::decimal;
use crate::ordem;
use crate::texto;
use crate::vm::frase;
use crate::vm;

verus! {

/// Um valor. Um mapa guarda os pares pela ordem em que as chaves entraram.
#[derive(Debug)]
pub enum Valor {
    Inteiro(i64),
    Numero(Decimal),
    Texto(String),
    Booleano(bool),
    Nulo,
    Lista(Vec<Valor>),
    Mapa(Vec<(String, Valor)>),
    Funcao { parametros: Vec<Parametro>, corpo: Vec<Instrucao>, ambiente: Ambiente },
    FuncaoNativa(String),
    ConexaoBD(u64),
    ConexaoSQLite(u64),
    Erro { tipo: String, mensagem: String, pilha: Vec<String> },
    Tensor { shape: Vec<usize>, dados: Vec<Decimal> },
    Bytes(Vec<u8>),
}

/// As variaveis visiveis: os escopos, do mais de fora ao mais de dentro.
#[derive(Debug)]
pub struct Ambiente {
    pub escopos: Vec<Vec<(String, Valor)>>,
}

/// O que um valor representa.
pub ghost enum Dado {
    Inteiro(i64),
    Numero(u64, Seq<char>),
    Texto(Seq<char>),
    Booleano(bool),
    Nulo,
    Lista(Seq<Dado>),
    Mapa(Seq<(Seq<char>, Dado)>),
    Funcao { parametros: Seq<ast::ArvoreParam>, corpo: Seq<ast::ArvoreInstr>, ambiente: Seq<Seq<(Seq<char>, Dado)>> },
    FuncaoNativa(Seq<char>),
    ConexaoBD(u64),
    ConexaoSQLite(u64),
    Erro { tipo: Seq<char>, mensagem: Seq<char>, pilha: Seq<Seq<char>> },
    Tensor { shape: Seq<usize>, dados: Seq<(u64, Seq<char>)> },
    Bytes(Seq<u8>),
}

/// Um escopo, visto.
pub type Escopo = Seq<(Seq<char>, Dado)>;

/// O que varios escopos representam.
pub open spec fn escopos_vistos(v: Seq<Vec<(String, Valor)>>) -> Seq<Escopo>
    decreases v,
{
    Seq::new(
        v.len(),
        |i: int|
            if 0 <= i < v.len() {
                pares_vistos(v[i]@)
            } else {
                arbitrary()
            },
    )
}

/// O que uma lista de valores representa.
pub open spec fn vistos(v: Seq<Valor>) -> Seq<Dado>
    decreases v,
{
    Seq::new(
        v.len(),
        |i: int|
            if 0 <= i < v.len() {
                v[i]@
            } else {
                arbitrary()
            },
    )
}

/// O que os pares de um mapa representam.
pub open spec fn pares_vistos(v: Seq<(String, Valor)>) -> Seq<(Seq<char>, Dado)>
    decreases v,
{
    Seq::new(
        v.len(),
        |i: int|
            if 0 <= i < v.len() {
                (v[i].0@, v[i].1@)
            } else {
                arbitrary()
            },
    )
}

impl Valor {
    pub open spec fn view(&self) -> Dado
        decreases self,
    {
        match self {
            Valor::Inteiro(n) => Dado::Inteiro(*n),
            Valor::Numero(d) => Dado::Numero(d.bits, d.texto@),
            Valor::Texto(s) => Dado::Texto(s@),
            Valor::Booleano(b) => Dado::Booleano(*b),
            Valor::Nulo => Dado::Nulo,
            Valor::Lista(v) => Dado::Lista(vistos(v@)),
            Valor::Mapa(m) => Dado::Mapa(pares_vistos(m@)),
            Valor::Funcao { parametros, corpo, ambiente } => Dado::Funcao {
                parametros: ast::params(parametros@),
                corpo: ast::instrs(corpo@),
                ambiente: escopos_vistos(ambiente.escopos@),
            },
            Valor::FuncaoNativa(n) => Dado::FuncaoNativa(n@),
            Valor::Tensor { shape, dados } => Dado::Tensor { shape: shape@, dados: vm::numeros(dados@) },
            Valor::Bytes(b) => Dado::Bytes(b@),
            Valor::ConexaoBD(id) => Dado::ConexaoBD(*id),
            Valor::ConexaoSQLite(id) => Dado::ConexaoSQLite(*id),
            Valor::Erro { tipo, mensagem, pilha } => Dado::Erro {
                tipo: tipo@,
                mensagem: mensagem@,
                pilha: texto::textos(pilha@),
            },
        }
    }
}

/// Copia uma lista de valores.
pub fn copiar_lista(v: &Vec<Valor>) -> (r: Vec<Valor>)
    ensures
        vistos(r@) == vistos(v@),
    decreases v,
{
    let mut r: Vec<Valor> = Vec::new();
    let mut i: usize = 0;
    while i < v.len()
        invariant
            i <= v@.len(),
            r@.len() == i,
            forall|k: int| 0 <= k < i ==> (#[trigger] r@[k])@ == v@[k]@,
        decreases v@.len() - i,
    {
        r.push(v[i].clone());
        i += 1;
    }
    assert(vistos(r@) =~= vistos(v@));
    r
}

/// Copia os pares de um mapa.
pub fn copiar_pares(v: &Vec<(String, Valor)>) -> (r: Vec<(String, Valor)>)
    ensures
        pares_vistos(r@) == pares_vistos(v@),
    decreases v,
{
    let mut r: Vec<(String, Valor)> = Vec::new();
    let mut i: usize = 0;
    while i < v.len()
        invariant
            i <= v@.len(),
            r@.len() == i,
            forall|k: int| 0 <= k < i ==> (#[trigger] r@[k]).0@ == v@[k].0@ && r@[k].1@ == v@[k].1@,
        decreases v@.len() - i,
    {
        let k = v[i].0.clone();
        let x = v[i].1.clone();
        r.push((k, x));
        i += 1;
    }
    assert(pares_vistos(r@) =~= pares_vistos(v@));
    r
}

/// Copia varios escopos.
pub fn copiar_escopos(v: &Vec<Vec<(String, Valor)>>) -> (r: Vec<Vec<(String, Valor)>>)
    ensures
        escopos_vistos(r@) == escopos_vistos(v@),
    decreases v,
{
    let mut r: Vec<Vec<(String, Valor)>> = Vec::new();
    let mut i: usize = 0;
    while i < v.len()
        invariant
            i <= v@.len(),
            r@.len() == i,
            forall|k: int| 0 <= k < i ==> pares_vistos((#[trigger] r@[k])@) == pares_vistos(v@[k]@),
        decreases v@.len() - i,
    {
        r.push(copiar_pares(&v[i]));
        i += 1;
    }
    assert(escopos_vistos(r@) =~= escopos_vistos(v@));
    r
}

/// As linhas das chamadas de um erro.
pub open spec fn chamadas(p: Seq<Seq<char>>, n: int) -> Seq<char>
    decreases n,
{
    if n <= 0 || n > p.len() {
        Seq::empty()
    } else {
        chamadas(p, n - 1) + "\n  em "@ + p[n - 1]
    }
}

fn escrever_chamadas(p: &Vec<String>) -> (r: String)
    ensures
        r@ == chamadas(texto::textos(p@), p@.len() as int),
{
    let ghost t = texto::textos(p@);
    let mut s = String::new();
    assert(s@ =~= Seq::<char>::empty());
    let mut i: usize = 0;
    while i < p.len()
        invariant
            i <= p@.len(),
            t == texto::textos(p@),
            s@ == chamadas(t, i as int),
        decreases p@.len() - i,
    {
        assert(t[i as int] == p@[i as int]@);
        s.append("\n  em ");
        s.append(p[i].as_str());
        i += 1;
    }
    s
}

impl Clone for Valor {
    fn clone(&self) -> (r: Self)
        ensures
            r@ == self@,
        decreases self,
    {
        match self {
            Valor::Inteiro(n) => Valor::Inteiro(*n),
            Valor::Numero(d) => Valor::Numero(d.clone()),
            Valor::Texto(s) => Valor::Texto(s.clone()),
            Valor::Booleano(b) => Valor::Booleano(*b),
            Valor::Nulo => Valor::Nulo,
            Valor::Lista(v) => Valor::Lista(copiar_lista(v)),
            Valor::Mapa(m) => Valor::Mapa(copiar_pares(m)),
            Valor::Funcao { parametros, corpo, ambiente } => Valor::Funcao {
                parametros: copiar_params(parametros),
                corpo: copiar_instrs(corpo),
                ambiente: Ambiente { escopos: copiar_escopos(&ambiente.escopos) },
            },
            Valor::FuncaoNativa(n) => Valor::FuncaoNativa(n.clone()),
            Valor::Tensor { shape, dados } => Valor::Tensor {
                shape: vm::copiar_shape(shape),
                dados: vm::copiar_numeros(dados),
            },
            Valor::Bytes(b) => Valor::Bytes(busca::copia(b)),
            Valor::ConexaoBD(id) => Valor::ConexaoBD(*id),
            Valor::ConexaoSQLite(id) => Valor::ConexaoSQLite(*id),
            Valor::Erro { tipo, mensagem, pilha } => Valor::Erro {
                tipo: tipo.clone(),
                mensagem: mensagem.clone(),
                pilha: copiar_textos(pilha),
            },
        }
    }
}

// ---- Texto ------------------------------------------------------------------------------

/// O texto de um valor dentro de uma lista ou de um mapa: os textos ficam entre aspas.
pub open spec fn com_aspas(v: Dado, t: Seq<char>) -> Seq<char> {
    if v is Texto {
        "\""@ + t + "\""@
    } else {
        t
    }
}

/// Os textos dos itens de uma lista.
pub open spec fn citados(l: Seq<Dado>) -> Seq<Seq<char>>
    decreases l,
{
    Seq::new(
        l.len(),
        |i: int|
            if 0 <= i < l.len() {
                com_aspas(l[i], texto_de(l[i]))
            } else {
                Seq::empty()
            },
    )
}

/// Os textos dos pares de um mapa.
pub open spec fn pares_citados(m: Seq<(Seq<char>, Dado)>) -> Seq<Seq<char>>
    decreases m,
{
    Seq::new(
        m.len(),
        |i: int|
            if 0 <= i < m.len() {
                m[i].0 + ": "@ + com_aspas(m[i].1, texto_de(m[i].1))
            } else {
                Seq::empty()
            },
    )
}

/// O texto de um valor.
pub open spec fn texto_de(v: Dado) -> Seq<char>
    decreases v,
{
    match v {
        Dado::Inteiro(n) => texto::decimal_int(n as int),
        Dado::Numero(b, t) => t,
        Dado::Texto(s) => s,
        Dado::Booleano(b) => if b {
            "verdadeiro"@
        } else {
            "falso"@
        },
        Dado::Nulo => "nulo"@,
        Dado::Lista(l) => "["@ + busca::juntos(citados(l), ", "@) + "]"@,
        Dado::Mapa(m) => "{"@ + busca::juntos(ordem::ordenadas(pares_citados(m)), ", "@) + "}"@,
        Dado::Funcao { .. } => "<funcao>"@,
        Dado::FuncaoNativa(n) => "<funcao nativa: "@ + n + ">"@,
        Dado::Tensor { shape, dados } => vm::texto_tensor(shape, dados),
        Dado::Bytes(b) => "<bytes:"@ + texto::decimal(b.len()) + ">"@,
        Dado::ConexaoBD(id) => "<conexao BD #"@ + texto::decimal(id as nat) + ">"@,
        Dado::ConexaoSQLite(id) => "<conexao SQLite #"@ + texto::decimal(id as nat) + ">"@,
        Dado::Erro { tipo, mensagem, pilha } => "[Erro:"@ + tipo + "] "@ + mensagem + chamadas(pilha, pilha.len() as int),
    }
}

fn citar(v: &Valor, t: String) -> (r: String)
    ensures
        r@ == com_aspas(v@, t@),
{
    match v {
        Valor::Texto(_) => frase("\"", t.as_str(), "\""),
        _ => t,
    }
}

fn textos_da_lista(l: &Vec<Valor>) -> (r: Vec<String>)
    ensures
        r@.len() == l@.len(),
        forall|i: int| 0 <= i < l@.len() ==> (#[trigger] r@[i])@ == com_aspas(l@[i]@, texto_de(l@[i]@)),
    decreases l,
{
    let mut r: Vec<String> = Vec::new();
    let mut i: usize = 0;
    while i < l.len()
        invariant
            i <= l@.len(),
            r@.len() == i,
            forall|k: int| 0 <= k < i ==> (#[trigger] r@[k])@ == com_aspas(l@[k]@, texto_de(l@[k]@)),
        decreases l@.len() - i,
    {
        let t = l[i].texto();
        r.push(citar(&l[i], t));
        i += 1;
    }
    r
}

fn textos_dos_pares(m: &Vec<(String, Valor)>) -> (r: Vec<String>)
    ensures
        r@.len() == m@.len(),
        forall|i: int|
            0 <= i < m@.len() ==> (#[trigger] r@[i])@ == m@[i].0@ + ": "@ + com_aspas(m@[i].1@, texto_de(m@[i].1@)),
    decreases m,
{
    let mut r: Vec<String> = Vec::new();
    let mut i: usize = 0;
    while i < m.len()
        invariant
            i <= m@.len(),
            r@.len() == i,
            forall|k: int|
                0 <= k < i ==> (#[trigger] r@[k])@ == m@[k].0@ + ": "@ + com_aspas(m@[k].1@, texto_de(m@[k].1@)),
        decreases m@.len() - i,
    {
        let t = m[i].1.texto();
        let c = citar(&m[i].1, t);
        r.push(frase(m[i].0.as_str(), ": ", c.as_str()));
        i += 1;
    }
    r
}

impl Valor {
    /// O texto do valor, como se imprime.
    pub fn texto(&self) -> (r: String)
        ensures
            r@ == texto_de(self@),
        decreases self,
    {
        match self {
            Valor::Inteiro(n) => texto::inteiro(*n),
            Valor::Numero(d) => d.texto.clone(),
            Valor::Texto(s) => s.clone(),
            Valor::Booleano(b) => if *b {
                "verdadeiro".to_owned()
            } else {
                "falso".to_owned()
            },
            Valor::Nulo => "nulo".to_owned(),
            Valor::Lista(l) => {
                let ts = textos_da_lista(l);
                let j = busca::juntar(&ts, ", ");
                assert(texto::textos(ts@) =~= citados(vistos(l@)));
                frase("[", j.as_str(), "]")
            },
            Valor::Mapa(m) => {
                let ts = textos_dos_pares(m);
                assert(texto::textos(ts@) =~= pares_citados(pares_vistos(m@)));
                let os = ordem::ordenar(ts);
                let j = busca::juntar(&os, ", ");
                frase("{", j.as_str(), "}")
            },
            Valor::Funcao { .. } => "<funcao>".to_owned(),
            Valor::FuncaoNativa(n) => frase("<funcao nativa: ", n.as_str(), ">"),
            Valor::Tensor { shape, dados } => vm::tensor_em_texto(shape, dados),
            Valor::Bytes(b) => {
                let n = texto::natural(b.len() as u64);
                frase("<bytes:", n.as_str(), ">")
            },
            Valor::ConexaoBD(id) => {
                let n = texto::natural(*id);
                frase("<conexao BD #", n.as_str(), ">")
            },
            Valor::ConexaoSQLite(id) => {
                let n = texto::natural(*id);
                frase("<conexao SQLite #", n.as_str(), ">")
            },
            Valor::Erro { tipo, mensagem, pilha } => {
                let mut s = frase("[Erro:", tipo.as_str(), "] ");
                s.append(mensagem.as_str());
                s.append(escrever_chamadas(pilha).as_str());
                s
            },
        }
    }
}

/// Se um valor conta como verdadeiro.
pub open spec fn verdadeiro(v: Dado) -> bool {
    match v {
        Dado::Booleano(b) => b,
        Dado::Nulo => false,
        Dado::Numero(b, t) => decimal::diferente_de_zero(b),
        Dado::Inteiro(n) => n != 0,
        Dado::Texto(s) => s.len() > 0,
        Dado::Lista(l) => l.len() > 0,
        Dado::Mapa(m) => m.len() > 0,
        Dado::Bytes(b) => b.len() > 0,
        Dado::Erro { .. } => false,
        _ => true,
    }
}

impl Valor {
    /// Se o valor conta como verdadeiro.
    pub fn e_verdadeiro(&self) -> (r: bool)
        ensures
            r == verdadeiro(self@),
    {
        match self {
            Valor::Booleano(b) => *b,
            Valor::Nulo => false,
            Valor::Numero(d) => decimal::nao_zero(d.bits),
            Valor::Inteiro(n) => *n != 0,
            Valor::Texto(s) => !s.as_str().is_empty(),
            Valor::Lista(l) => l.len() > 0,
            Valor::Mapa(m) => m.len() > 0,
            Valor::Bytes(b) => b.len() > 0,
            Valor::Erro { .. } => false,
            _ => true,
        }
    }
}

// ---- Mapas ------------------------------------------------------------------------------

/// Onde esta uma chave, a partir da posicao `i`.
pub open spec fn lugar(m: Seq<(Seq<char>, Dado)>, k: Seq<char>, i: int) -> Option<int>
    decreases m.len() - i,
{
    if i < 0 || i >= m.len() {
        None
    } else if m[i].0 == k {
        Some(i)
    } else {
        lugar(m, k, i + 1)
    }
}

/// O valor de uma chave.
pub open spec fn valor_de(m: Seq<(Seq<char>, Dado)>, k: Seq<char>) -> Option<Dado> {
    match lugar(m, k, 0) {
        Some(i) => Some(m[i].1),
        None => None,
    }
}

/// O mapa com um valor para uma chave.
pub open spec fn com_valor(m: Seq<(Seq<char>, Dado)>, k: Seq<char>, v: Dado) -> Seq<(Seq<char>, Dado)> {
    match lugar(m, k, 0) {
        Some(i) => m.update(i, (k, v)),
        None => m.push((k, v)),
    }
}

/// O mapa sem uma chave.
pub open spec fn sem_chave(m: Seq<(Seq<char>, Dado)>, k: Seq<char>) -> Seq<(Seq<char>, Dado)> {
    match lugar(m, k, 0) {
        Some(i) => m.remove(i),
        None => m,
    }
}

/// Nenhuma chave se repete.
pub open spec fn distintas(m: Seq<(Seq<char>, Dado)>) -> bool {
    forall|i: int, j: int| 0 <= i < j < m.len() ==> (#[trigger] m[i]).0 != (#[trigger] m[j]).0
}

pub proof fn lema_lugar(m: Seq<(Seq<char>, Dado)>, k: Seq<char>, i: int)
    requires
        0 <= i,
    ensures
        match lugar(m, k, i) {
            Some(j) => i <= j < m.len() && m[j].0 == k && forall|l: int| i <= l < j ==> (#[trigger] m[l]).0 != k,
            None => forall|l: int| i <= l < m.len() ==> (#[trigger] m[l]).0 != k,
        },
    decreases m.len() - i,
{
    if i < m.len() && m[i].0 != k {
        lema_lugar(m, k, i + 1);
    }
}

/// Guardar um valor e le-lo de volta: a chave da o valor guardado, as outras o que davam, e as
/// chaves continuam sem repeticoes.
pub proof fn lei_mapa(m: Seq<(Seq<char>, Dado)>, k: Seq<char>, v: Dado, outra: Seq<char>)
    requires
        distintas(m),
    ensures
        distintas(com_valor(m, k, v)),
        valor_de(com_valor(m, k, v), k) == Some(v),
        outra != k ==> valor_de(com_valor(m, k, v), outra) == valor_de(m, outra),
        distintas(sem_chave(m, k)),
        valor_de(sem_chave(m, k), k) is None,
        outra != k ==> valor_de(sem_chave(m, k), outra) == valor_de(m, outra),
{
    let c = com_valor(m, k, v);
    let s = sem_chave(m, k);
    lema_lugar(m, k, 0);
    lema_lugar(m, outra, 0);
    lema_lugar(c, k, 0);
    lema_lugar(c, outra, 0);
    lema_lugar(s, k, 0);
    lema_lugar(s, outra, 0);
    match lugar(m, k, 0) {
        Some(i) => {
            assert(c[i] == (k, v));
            assert forall|a: int| 0 <= a < s.len() implies #[trigger] s[a] == m[if a < i {
                a
            } else {
                a + 1
            }] by {}
            if let Some(j) = lugar(m, outra, 0) {
                if outra != k {
                    assert(c[j] == m[j]);
                    assert(s[if j < i {
                        j
                    } else {
                        j - 1
                    }] == m[j]);
                }
            }
        },
        None => {
            assert(c[m.len() as int] == (k, v));
            if let Some(j) = lugar(m, outra, 0) {
                assert(c[j] == m[j]);
            }
        },
    }
}

/// Procura uma chave.
pub fn achar_chave(m: &Vec<(String, Valor)>, k: &str) -> (r: Option<usize>)
    ensures
        match r {
            Some(i) => lugar(pares_vistos(m@), k@, 0) == Some(i as int) && i < m@.len(),
            None => lugar(pares_vistos(m@), k@, 0) is None,
        },
{
    let ghost p = pares_vistos(m@);
    let mut i: usize = 0;
    while i < m.len()
        invariant
            i <= m@.len(),
            p == pares_vistos(m@),
            lugar(p, k@, 0) == lugar(p, k@, i as int),
        decreases m@.len() - i,
    {
        assert(p[i as int].0 == m@[i as int].0@);
        if m[i].0.as_str().eq(k) {
            return Some(i);
        }
        i += 1;
    }
    None
}

/// O valor de uma chave, ou nulo.
pub fn obter_ou_nulo(m: &Vec<(String, Valor)>, k: &str) -> (r: Valor)
    ensures
        r@ == (match valor_de(pares_vistos(m@), k@) {
            Some(v) => v,
            None => Dado::Nulo,
        }),
{
    match achar_chave(m, k) {
        Some(i) => m[i].1.clone(),
        None => Valor::Nulo,
    }
}

/// Guarda um valor num mapa.
pub fn guardar(m: &mut Vec<(String, Valor)>, k: String, v: Valor)
    ensures
        pares_vistos(final(m)@) == com_valor(pares_vistos(old(m)@), k@, v@),
{
    let ghost p = pares_vistos(m@);
    let ghost ks = k@;
    let ghost vs = v@;
    match achar_chave(m, k.as_str()) {
        Some(i) => {
            m.set(i, (k, v));
            assert(pares_vistos(m@) =~= p.update(i as int, (ks, vs)));
        },
        None => {
            m.push((k, v));
            assert(pares_vistos(m@) =~= p.push((ks, vs)));
        },
    }
}

/// Tira uma chave de um mapa.
pub fn tirar(m: &mut Vec<(String, Valor)>, k: &str)
    ensures
        pares_vistos(final(m)@) == sem_chave(pares_vistos(old(m)@), k@),
{
    let ghost p = pares_vistos(m@);
    if let Some(i) = achar_chave(m, k) {
        let _x = m.remove(i);
        assert(pares_vistos(m@) =~= p.remove(i as int));
    }
}

// ---- Igualdade --------------------------------------------------------------------------

/// Se dois valores sao iguais. Um inteiro e igual ao numero com ponto mais proximo dele.
pub open spec fn iguais(a: Dado, b: Dado) -> bool
    decreases a,
{
    match (a, b) {
        (Dado::Numero(x, s), Dado::Numero(y, t)) => decimal::iguais(x, y),
        (Dado::Inteiro(x), Dado::Inteiro(y)) => x == y,
        (Dado::Inteiro(x), Dado::Numero(y, t)) => decimal::iguais(decimal::bits_de(x as int) as u64, y),
        (Dado::Numero(y, t), Dado::Inteiro(x)) => decimal::iguais(decimal::bits_de(x as int) as u64, y),
        (Dado::Texto(x), Dado::Texto(y)) => x == y,
        (Dado::Booleano(x), Dado::Booleano(y)) => x == y,
        (Dado::Nulo, Dado::Nulo) => true,
        (Dado::Lista(x), Dado::Lista(y)) => x.len() == y.len() && forall|i: int|
            0 <= i < x.len() ==> iguais(#[trigger] x[i], y[i]),
        (Dado::Mapa(x), Dado::Mapa(y)) => x.len() == y.len() && forall|i: int|
            0 <= i < x.len() ==> (valor_de(y, (#[trigger] x[i]).0) matches Some(w) && iguais(x[i].1, w)),
        (Dado::Bytes(x), Dado::Bytes(y)) => x == y,
        (Dado::Tensor { shape: sa, dados: da }, Dado::Tensor { shape: sb, dados: db }) => sa == sb && vm::numeros_iguais(
            da,
            db,
        ),
        (Dado::ConexaoBD(x), Dado::ConexaoBD(y)) => x == y,
        (Dado::ConexaoSQLite(x), Dado::ConexaoSQLite(y)) => x == y,
        (Dado::Erro { tipo: ta, mensagem: ma, .. }, Dado::Erro { tipo: tb, mensagem: mb, .. }) => ta == tb && ma
            == mb,
        _ => false,
    }
}

fn listas_iguais(a: &Vec<Valor>, b: &Vec<Valor>) -> (r: bool)
    ensures
        r == iguais(Dado::Lista(vistos(a@)), Dado::Lista(vistos(b@))),
    decreases a,
{
    let ghost x = vistos(a@);
    let ghost y = vistos(b@);
    if a.len() != b.len() {
        return false;
    }
    let mut i: usize = 0;
    while i < a.len()
        invariant
            i <= a@.len(),
            a@.len() == b@.len(),
            x == vistos(a@),
            y == vistos(b@),
            forall|k: int| 0 <= k < i ==> iguais(#[trigger] x[k], y[k]),
        decreases a@.len() - i,
    {
        if !a[i].igual(&b[i]) {
            assert(!iguais(x[i as int], y[i as int]));
            return false;
        }
        i += 1;
    }
    true
}

fn mapas_iguais(a: &Vec<(String, Valor)>, b: &Vec<(String, Valor)>) -> (r: bool)
    ensures
        r == iguais(Dado::Mapa(pares_vistos(a@)), Dado::Mapa(pares_vistos(b@))),
    decreases a,
{
    let ghost x = pares_vistos(a@);
    let ghost y = pares_vistos(b@);
    if a.len() != b.len() {
        return false;
    }
    let mut i: usize = 0;
    while i < a.len()
        invariant
            i <= a@.len(),
            a@.len() == b@.len(),
            x == pares_vistos(a@),
            y == pares_vistos(b@),
            forall|k: int|
                0 <= k < i ==> (valor_de(y, (#[trigger] x[k]).0) matches Some(w) && iguais(x[k].1, w)),
        decreases a@.len() - i,
    {
        assert(x[i as int].0 == a@[i as int].0@);
        match achar_chave(b, a[i].0.as_str()) {
            Some(j) => {
                if !a[i].1.igual(&b[j].1) {
                    assert(!(valor_de(y, x[i as int].0) matches Some(w) && iguais(x[i as int].1, w)));
                    return false;
                }
            },
            None => {
                assert(valor_de(y, x[i as int].0) is None);
                return false;
            },
        }
        i += 1;
    }
    true
}


impl Valor {
    /// Se os dois valores sao iguais.
    pub fn igual(&self, outro: &Valor) -> (r: bool)
        ensures
            r == iguais(self@, outro@),
        decreases self,
    {
        match (self, outro) {
            (Valor::Numero(x), Valor::Numero(y)) => decimal::sao_iguais(x.bits, y.bits),
            (Valor::Inteiro(x), Valor::Inteiro(y)) => *x == *y,
            (Valor::Inteiro(x), Valor::Numero(y)) => decimal::sao_iguais(decimal::de_inteiro(*x), y.bits),
            (Valor::Numero(y), Valor::Inteiro(x)) => decimal::sao_iguais(decimal::de_inteiro(*x), y.bits),
            (Valor::Texto(x), Valor::Texto(y)) => x.as_str().eq(y.as_str()),
            (Valor::Booleano(x), Valor::Booleano(y)) => *x == *y,
            (Valor::Nulo, Valor::Nulo) => true,
            (Valor::Lista(x), Valor::Lista(y)) => listas_iguais(x, y),
            (Valor::Mapa(x), Valor::Mapa(y)) => mapas_iguais(x, y),
            (Valor::Bytes(x), Valor::Bytes(y)) => vm::mesmos_bytes(x, y),
            (Valor::Tensor { shape: sa, dados: da }, Valor::Tensor { shape: sb, dados: db }) => vm::mesmas_dimensoes(
                sa,
                sb,
            ) && vm::mesmos_numeros(da, db),
            (Valor::ConexaoBD(x), Valor::ConexaoBD(y)) => *x == *y,
            (Valor::ConexaoSQLite(x), Valor::ConexaoSQLite(y)) => *x == *y,
            (Valor::Erro { tipo: ta, mensagem: ma, .. }, Valor::Erro { tipo: tb, mensagem: mb, .. }) => ta.as_str().eq(
                tb.as_str(),
            ) && ma.as_str().eq(mb.as_str()),
            _ => false,
        }
    }
}

} // verus!
