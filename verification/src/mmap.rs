//! Arquivos mapeados em memoria: os que estao abertos e os trechos que deles se leem.

use vstd::prelude::*;
use crate::busca;
use crate::texto;

verus! {

/// Um arquivo aberto.
pub struct Mapeado {
    pub id: u64,
    pub bytes: Vec<u8>,
}

/// Os arquivos abertos e o numero do proximo.
pub struct Mapas {
    abertos: Vec<Mapeado>,
    proximo: u64,
}

/// O conteudo do ultimo arquivo da lista com esse numero.
pub open spec fn conteudo(v: Seq<Mapeado>, id: u64) -> Option<Seq<u8>>
    decreases v.len(),
{
    if v.len() == 0 {
        None
    } else if v.last().id == id {
        Some(v.last().bytes@)
    } else {
        conteudo(v.drop_last(), id)
    }
}

/// O inicio e o tamanho de uma leitura de `count` numeros de `largura` bytes.
pub open spec fn fim_de(offset: int, count: int, largura: int) -> int {
    offset + count * largura
}

/// A mensagem de um numero de arquivo que nao esta aberto.
pub open spec fn invalido(funcao: Seq<char>, id: u64) -> Seq<char> {
    funcao + ": id "@ + texto::decimal(id as nat) + " invalido"@
}

fn mensagem_invalido(funcao: &str, id: u64) -> (r: String)
    ensures
        r@ == invalido(funcao@, id),
{
    let mut m = funcao.to_owned();
    m.append(": id ");
    let n = texto::natural(id);
    m.append(n.as_str());
    m.append(" invalido");
    m
}

/// A mensagem de uma leitura que passa do fim.
pub open spec fn excesso(funcao: Seq<char>, fim: int, meio: Seq<char>, tamanho: nat) -> Seq<char> {
    funcao + ": offset+count ("@ + texto::decimal(fim as nat) + meio + texto::decimal(tamanho) + ")"@
}

fn mensagem_excesso(funcao: &str, fim: usize, meio: &str, tamanho: usize) -> (r: String)
    ensures
        r@ == excesso(funcao@, fim as int, meio@, tamanho as nat),
{
    let mut m = funcao.to_owned();
    m.append(": offset+count (");
    let a = texto::natural(fim as u64);
    m.append(a.as_str());
    m.append(meio);
    let b = texto::natural(tamanho as u64);
    m.append(b.as_str());
    m.append(")");
    m
}

impl Mapas {
    /// O conteudo de um arquivo aberto.
    pub closed spec fn aberto(&self, id: u64) -> Option<Seq<u8>> {
        conteudo(self.abertos@, id)
    }

    pub closed spec fn proximo_id(&self) -> u64 {
        self.proximo
    }

    /// Nenhum arquivo aberto.
    pub fn novo() -> (r: Self)
        ensures
            forall|id: u64| (#[trigger] r.aberto(id)) is None,
            r.proximo_id() == 1,
    {
        Mapas { abertos: Vec::new(), proximo: 1 }
    }

    /// Abre um arquivo de conteudo dado e da-lhe um numero.
    pub fn mmap_abrir(&mut self, bytes: Vec<u8>) -> (id: u64)
        ensures
            id == old(self).proximo_id(),
            final(self).aberto(id) == Some(bytes@),
            forall|k: u64| k != id ==> #[trigger] final(self).aberto(k) == old(self).aberto(k),
            final(self).proximo_id() == (if id == u64::MAX {
                0
            } else {
                id + 1
            }),
    {
        let id = self.proximo;
        self.proximo = if id == u64::MAX {
            0
        } else {
            id + 1
        };
        let ghost antes = self.abertos@;
        self.abertos.push(Mapeado { id, bytes });
        assert(self.abertos@.drop_last() =~= antes);
        id
    }

    fn procurar(&self, id: u64) -> (r: Option<usize>)
        ensures
            match r {
                Some(i) => i < self.abertos@.len() && self.aberto(id) == Some(self.abertos@[i as int].bytes@),
                None => self.aberto(id) is None,
            },
    {
        let mut i: usize = self.abertos.len();
        assert(self.abertos@.take(i as int) =~= self.abertos@);
        while i > 0
            invariant
                i <= self.abertos@.len(),
                conteudo(self.abertos@, id) == conteudo(self.abertos@.take(i as int), id),
            decreases i,
        {
            let ghost t = self.abertos@.take(i as int);
            assert(t.drop_last() =~= self.abertos@.take(i - 1));
            assert(t.last() == self.abertos@[i - 1]);
            if self.abertos[i - 1].id == id {
                return Some(i - 1);
            }
            i -= 1;
        }
        None
    }
}

/// Fecha um arquivo.
pub fn mmap_fechar(m: &mut Mapas, id: u64)
    ensures
        final(m).aberto(id) is None,
        forall|k: u64| k != id ==> #[trigger] final(m).aberto(k) == old(m).aberto(k),
        final(m).proximo_id() == old(m).proximo_id(),
{
    let ghost antes = m.abertos@;
    let mut velhos: Vec<Mapeado> = Vec::new();
    std::mem::swap(&mut m.abertos, &mut velhos);
    let mut novos: Vec<Mapeado> = Vec::new();
    assert(antes.take(antes.len() as int) =~= antes);
    let mut i: usize = velhos.len();
    while i > 0
        invariant
            i == velhos@.len(),
            i <= antes.len(),
            velhos@ == antes.take(i as int),
            forall|k: u64| k != id ==> #[trigger] conteudo(antes, k) == (match conteudo(novos@.reverse(), k) {
                Some(x) => Some(x),
                None => conteudo(velhos@, k),
            }),
            conteudo(novos@.reverse(), id) is None,
        decreases i,
    {
        let ghost vs = velhos@;
        let ghost ns = novos@;
        if let Some(x) = velhos.pop() {
            assert(velhos@ =~= antes.take(i - 1));
            assert(vs.drop_last() =~= velhos@);
            if x.id != id {
                novos.push(x);
                proof {
                    assert forall|k: u64| #[trigger] conteudo(novos@.reverse(), k) == (match conteudo(ns.reverse(), k) {
                        Some(y) => Some(y),
                        None => if x.id == k { Some(x.bytes@) } else { None },
                    }) by {
                        lema_frente(ns, x, k);
                    }
                }
            }
        }
        i -= 1;
    }
    let mut finais: Vec<Mapeado> = Vec::new();
    let ghost total = novos@;
    assert(total.reverse().take(0) =~= finais@);
    while novos.len() > 0
        invariant
            novos@.len() <= total.len(),
            novos@ == total.take(novos@.len() as int),
            finais@ == total.reverse().take(total.len() - novos@.len()),
        decreases novos@.len(),
    {
        let ghost n = novos@.len() as int;
        if let Some(x) = novos.pop() {
            finais.push(x);
            assert(x == total[n - 1]);
            assert(total.reverse()[total.len() - n] == total[n - 1]);
            assert(finais@ =~= total.reverse().take(total.len() - n + 1));
            assert(novos@ =~= total.take(n - 1));
        }
    }
    assert(finais@ =~= total.reverse());
    assert(velhos@.len() == 0);
    m.abertos = finais;
}

proof fn lema_frente(ns: Seq<Mapeado>, x: Mapeado, k: u64)
    ensures
        conteudo(ns.push(x).reverse(), k) == (match conteudo(ns.reverse(), k) {
            Some(y) => Some(y),
            None => if x.id == k {
                Some(x.bytes@)
            } else {
                None
            },
        }),
    decreases ns.len(),
{
    let a = ns.push(x).reverse();
    if ns.len() == 0 {
        assert(a =~= seq![x]);
        assert(a.drop_last() =~= Seq::<Mapeado>::empty());
        assert(ns.reverse() =~= Seq::<Mapeado>::empty());
    } else {
        let resto = ns.skip(1);
        assert(a.last() == ns[0]);
        assert(ns.reverse().last() == ns[0]);
        assert(a.drop_last() =~= resto.push(x).reverse());
        assert(ns.reverse().drop_last() =~= resto.reverse());
        lema_frente(resto, x, k);
    }
}

/// O tamanho de um arquivo aberto.
pub fn mmap_tamanho(m: &Mapas, id: u64) -> (r: Result<usize, String>)
    ensures
        match r {
            Ok(n) => m.aberto(id) is Some && n == m.aberto(id)->Some_0.len(),
            Err(e) => m.aberto(id) is None && e@ == invalido("mmap_tamanho"@, id),
        },
{
    match m.procurar(id) {
        Some(i) => Ok(m.abertos[i].bytes.len()),
        None => Err(mensagem_invalido("mmap_tamanho", id)),
    }
}

/// Os bytes de um trecho de um arquivo aberto, que tem `count` numeros de `largura` bytes.
fn trecho(m: &Mapas, funcao: &str, meio: &str, id: u64, offset: usize, count: usize, largura: usize) -> (r: Result<
    Vec<u8>,
    String,
>)
    requires
        fim_de(offset as int, count as int, largura as int) <= usize::MAX,
    ensures
        match r {
            Ok(b) => m.aberto(id) matches Some(c) && fim_de(offset as int, count as int, largura as int) <= c.len()
                && b@ == c.subrange(offset as int, fim_de(offset as int, count as int, largura as int)),
            Err(e) => match m.aberto(id) {
                None => e@ == invalido(funcao@, id),
                Some(c) => fim_de(offset as int, count as int, largura as int) > c.len() && e@ == excesso(
                    funcao@,
                    fim_de(offset as int, count as int, largura as int),
                    meio@,
                    c.len(),
                ),
            },
        },
{
    match m.procurar(id) {
        None => Err(mensagem_invalido(funcao, id)),
        Some(i) => {
            assert(0 <= count * largura) by (nonlinear_arith)
                requires
                    count >= 0,
                    largura >= 0,
            ;
            let fim: usize = offset + count * largura;
            let n: usize = m.abertos[i].bytes.len();
            if fim > n {
                return Err(mensagem_excesso(funcao, fim, meio, n));
            }
            Ok(busca::copia(vstd::slice::slice_subrange(m.abertos[i].bytes.as_slice(), offset, fim)))
        },
    }
}

/// Os bytes de `count` numeros de quatro bytes.
pub fn mmap_ler_f32(m: &Mapas, id: u64, offset: usize, count: usize) -> (r: Result<Vec<u8>, String>)
    requires
        fim_de(offset as int, count as int, 4) <= usize::MAX,
    ensures
        match r {
            Ok(b) => m.aberto(id) matches Some(c) && fim_de(offset as int, count as int, 4) <= c.len() && b@
                == c.subrange(offset as int, fim_de(offset as int, count as int, 4)),
            Err(e) => match m.aberto(id) {
                None => e@ == invalido("mmap_ler_f32"@, id),
                Some(c) => fim_de(offset as int, count as int, 4) > c.len() && e@ == excesso(
                    "mmap_ler_f32"@,
                    fim_de(offset as int, count as int, 4),
                    ") excede tamanho do arquivo ("@,
                    c.len(),
                ),
            },
        },
{
    trecho(m, "mmap_ler_f32", ") excede tamanho do arquivo (", id, offset, count, 4)
}

/// Os bytes de `count` numeros de oito bytes.
pub fn mmap_ler_f64(m: &Mapas, id: u64, offset: usize, count: usize) -> (r: Result<Vec<u8>, String>)
    requires
        fim_de(offset as int, count as int, 8) <= usize::MAX,
    ensures
        match r {
            Ok(b) => m.aberto(id) matches Some(c) && fim_de(offset as int, count as int, 8) <= c.len() && b@
                == c.subrange(offset as int, fim_de(offset as int, count as int, 8)),
            Err(e) => match m.aberto(id) {
                None => e@ == invalido("mmap_ler_f64"@, id),
                Some(c) => fim_de(offset as int, count as int, 8) > c.len() && e@ == excesso(
                    "mmap_ler_f64"@,
                    fim_de(offset as int, count as int, 8),
                    ") excede tamanho do arquivo ("@,
                    c.len(),
                ),
            },
        },
{
    trecho(m, "mmap_ler_f64", ") excede tamanho do arquivo (", id, offset, count, 8)
}

/// `count` bytes.
pub fn mmap_ler_bytes(m: &Mapas, id: u64, offset: usize, count: usize) -> (r: Result<Vec<u8>, String>)
    requires
        offset + count <= usize::MAX,
    ensures
        match r {
            Ok(b) => m.aberto(id) matches Some(c) && offset + count <= c.len() && b@ == c.subrange(
                offset as int,
                offset + count,
            ),
            Err(e) => match m.aberto(id) {
                None => e@ == invalido("mmap_ler_bytes"@, id),
                Some(c) => offset + count > c.len() && e@ == excesso(
                    "mmap_ler_bytes"@,
                    offset + count,
                    ") excede tamanho ("@,
                    c.len(),
                ),
            },
        },
{
    assert(fim_de(offset as int, count as int, 1) == offset + count) by (nonlinear_arith);
    trecho(m, "mmap_ler_bytes", ") excede tamanho (", id, offset, count, 1)
}

} // verus!
