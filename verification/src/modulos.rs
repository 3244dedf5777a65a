//! Os arquivos que um programa pede: onde se procuram e quantas vezes se executam.
//!
//! Quem chama diz quais existem.

use vstd::prelude::*;
use crate::texto;

verus! {

// ---- Caminhos ---------------------------------------------------------------------------

/// Se um caminho parte da raiz.
pub open spec fn absoluto(p: Seq<char>) -> bool {
    p.len() > 0 && p[0] == '/'
}

/// Um caminho a partir de outro.
pub open spec fn junto(base: Seq<char>, p: Seq<char>) -> Seq<char> {
    if absoluto(p) {
        p
    } else if base.len() == 0 || base.last() == '/' {
        base + p
    } else {
        base.push('/') + p
    }
}

/// Junta um caminho a outro.
pub fn juntar(base: &str, p: &str) -> (r: String)
    ensures
        r@ == junto(base@, p@),
{
    let b = texto::caracteres(base);
    let c = texto::caracteres(p);
    if c.len() > 0 && c[0] == '/' {
        return p.to_owned();
    }
    let mut r = base.to_owned();
    if b.len() > 0 && b[b.len() - 1] != '/' {
        r.push('/');
    }
    r.append(p);
    r
}

/// Um caminho na pasta de modulos de um diretorio.
pub open spec fn nos_modulos(dir: Seq<char>, p: Seq<char>) -> Seq<char> {
    junto(junto(dir, "pep_modules"@), p)
}

fn juntar_aos_modulos(dir: &str, p: &str) -> (r: String)
    ensures
        r@ == nos_modulos(dir@, p@),
{
    let m = juntar(dir, "pep_modules");
    juntar(m.as_str(), p)
}

// ---- Onde a maquina de pilha procura ------------------------------------------------------

/// Os lugares dos primeiros `n` diretorios, do ultimo para o primeiro: em cada um os modulos
/// vem antes do proprio diretorio.
pub open spec fn nos_diretorios(dirs: Seq<Seq<char>>, n: int, p: Seq<char>) -> Seq<Seq<char>>
    decreases n,
{
    if n <= 0 || n > dirs.len() {
        Seq::empty()
    } else {
        seq![nos_modulos(dirs[n - 1], p), junto(dirs[n - 1], p)] + nos_diretorios(dirs, n - 1, p)
    }
}

/// Os lugares em que se procura um arquivo: os diretorios e, no fim, os modulos do diretorio do
/// processo. Um caminho que parte da raiz nao se procura.
pub open spec fn lugares(dirs: Seq<Seq<char>>, cwd: Seq<char>, p: Seq<char>) -> Seq<Seq<char>> {
    if absoluto(p) {
        Seq::empty()
    } else {
        nos_diretorios(dirs, dirs.len() as int, p).push(nos_modulos(cwd, p))
    }
}

/// Os lugares em que a maquina de pilha procura um arquivo.
pub fn lugares_da_maquina(dirs: &Vec<String>, cwd: &str, caminho: &str) -> (r: Vec<String>)
    ensures
        texto::textos(r@) == lugares(texto::textos(dirs@), cwd@, caminho@),
{
    let c = texto::caracteres(caminho);
    let mut r: Vec<String> = Vec::new();
    assert(texto::textos(r@) =~= Seq::empty());
    if c.len() > 0 && c[0] == '/' {
        return r;
    }
    let ghost ds = texto::textos(dirs@);
    let ghost todos = nos_diretorios(ds, ds.len() as int, caminho@);
    let mut n: usize = dirs.len();
    assert(ds.len() == dirs@.len());
    assert(todos =~= texto::textos(r@) + nos_diretorios(ds, n as int, caminho@));
    while n > 0
        invariant
            n <= dirs@.len(),
            ds == texto::textos(dirs@),
            ds.len() == dirs@.len(),
            todos == texto::textos(r@) + nos_diretorios(ds, n as int, caminho@),
        decreases n,
    {
        let ghost antes = r@;
        assert(ds[n - 1] == dirs@[n - 1]@);
        r.push(juntar_aos_modulos(dirs[n - 1].as_str(), caminho));
        r.push(juntar(dirs[n - 1].as_str(), caminho));
        assert(texto::textos(r@) =~= texto::textos(antes) + seq![
            nos_modulos(ds[n - 1], caminho@),
            junto(ds[n - 1], caminho@),
        ]);
        assert(todos =~= texto::textos(r@) + nos_diretorios(ds, n - 1, caminho@));
        n -= 1;
    }
    assert(todos =~= texto::textos(r@));
    let ghost antes = r@;
    r.push(juntar_aos_modulos(cwd, caminho));
    assert(texto::textos(r@) =~= texto::textos(antes).push(nos_modulos(cwd@, caminho@)));
    r
}

// ---- Onde o interpretador de arvore procura -----------------------------------------------

/// Os nomes que um modulo pode ter: o do lugar, o do lugar com a extensao, e o arquivo principal
/// de uma pasta com esse nome.
pub open spec fn nomes_do_modulo(lugar: Seq<char>, com_extensao: Seq<char>) -> Seq<Seq<char>> {
    seq![lugar, com_extensao, junto(lugar, "mod.pep"@), junto(lugar, "index.pep"@)]
}

/// Os nomes que um modulo pode ter.
pub fn localizar_modulo(lugar: &str, com_extensao: &str) -> (r: Vec<String>)
    ensures
        texto::textos(r@) == nomes_do_modulo(lugar@, com_extensao@),
{
    let mut r: Vec<String> = Vec::new();
    r.push(lugar.to_owned());
    r.push(com_extensao.to_owned());
    r.push(juntar(lugar, "mod.pep"));
    r.push(juntar(lugar, "index.pep"));
    assert(texto::textos(r@) =~= nomes_do_modulo(lugar@, com_extensao@));
    r
}

/// Os lugares de um modulo: a partir do diretorio atual, e depois nos modulos dele e dos de cima.
pub open spec fn lugares_do_modulo(base: Seq<char>, acima: Seq<Seq<char>>, p: Seq<char>) -> Seq<Seq<char>> {
    if absoluto(p) {
        Seq::empty()
    } else {
        seq![junto(base, p)] + acima.map_values(|a: Seq<char>| nos_modulos(a, p))
    }
}

/// Os lugares em que o interpretador procura um modulo; `acima` sao o diretorio atual e os de
/// cima, do mais perto para o mais longe.
pub fn lugares_da_importacao(base: &str, acima: &Vec<String>, caminho: &str) -> (r: Vec<String>)
    ensures
        texto::textos(r@) == lugares_do_modulo(base@, texto::textos(acima@), caminho@),
{
    let c = texto::caracteres(caminho);
    let mut r: Vec<String> = Vec::new();
    if c.len() > 0 && c[0] == '/' {
        assert(texto::textos(r@) =~= Seq::empty());
        return r;
    }
    r.push(juntar(base, caminho));
    let ghost cs = texto::textos(acima@);
    assert(cs.len() == acima@.len());
    let mut i: usize = 0;
    while i < acima.len()
        invariant
            i <= acima@.len(),
            cs == texto::textos(acima@),
            cs.len() == acima@.len(),
            r@.len() == i + 1,
            r@[0]@ == junto(base@, caminho@),
            forall|k: int| 0 <= k < i ==> (#[trigger] r@[k + 1])@ == nos_modulos(cs[k], caminho@),
        decreases acima@.len() - i,
    {
        assert(cs[i as int] == acima@[i as int]@);
        r.push(juntar_aos_modulos(acima[i].as_str(), caminho));
        i += 1;
    }
    proof {
        let x = texto::textos(r@);
        let y = lugares_do_modulo(base@, cs, caminho@);
        assert(x.len() == y.len());
        assert forall|k: int| 0 <= k < x.len() implies x[k] == y[k] by {
            if k > 0 {
                assert(r@[(k - 1) + 1]@ == nos_modulos(cs[k - 1], caminho@));
            }
        }
        assert(x =~= y);
    }
    r
}

// ---- Qual deles ----------------------------------------------------------------------------

/// O primeiro dos lugares, a partir de `i`, que existe.
pub open spec fn primeiro(ls: Seq<Seq<char>>, existem: Seq<bool>, i: int) -> Option<Seq<char>>
    decreases ls.len() - i,
{
    if i < 0 || i >= ls.len() || i >= existem.len() {
        None
    } else if existem[i] {
        Some(ls[i])
    } else {
        primeiro(ls, existem, i + 1)
    }
}

/// O primeiro dos lugares que existe; nada se nenhum existe.
pub fn escolher(ls: &Vec<String>, existem: &Vec<bool>) -> (r: Option<String>)
    ensures
        match r {
            Some(s) => primeiro(texto::textos(ls@), existem@, 0) == Some(s@),
            None => primeiro(texto::textos(ls@), existem@, 0) is None,
        },
{
    let ghost ts = texto::textos(ls@);
    assert(ts.len() == ls@.len());
    let mut i: usize = 0;
    while i < ls.len() && i < existem.len()
        invariant
            i <= ls@.len(),
            i <= existem@.len(),
            ts == texto::textos(ls@),
            ts.len() == ls@.len(),
            primeiro(ts, existem@, 0) == primeiro(ts, existem@, i as int),
        decreases ls@.len() - i,
    {
        assert(ts[i as int] == ls@[i as int]@);
        if existem[i] {
            return Some(ls[i].clone());
        }
        i += 1;
    }
    None
}

/// O arquivo escolhido existe, e nenhum dos lugares antes dele existe.
pub proof fn lei_primeiro(ls: Seq<Seq<char>>, existem: Seq<bool>)
    requires
        ls.len() == existem.len(),
    ensures
        match primeiro(ls, existem, 0) {
            Some(s) => exists|k: int|
                0 <= k < ls.len() && #[trigger] ls[k] == s && existem[k] && forall|j: int| 0 <= j < k ==> !existem[j],
            None => forall|j: int| 0 <= j < ls.len() ==> !existem[j],
        },
{
    lema_primeiro(ls, existem, 0);
}

proof fn lema_primeiro(ls: Seq<Seq<char>>, existem: Seq<bool>, i: int)
    requires
        ls.len() == existem.len(),
        0 <= i <= ls.len(),
    ensures
        match primeiro(ls, existem, i) {
            Some(s) => exists|k: int|
                i <= k < ls.len() && #[trigger] ls[k] == s && existem[k] && forall|j: int| i <= j < k ==> !existem[j],
            None => forall|j: int| i <= j < ls.len() ==> !existem[j],
        },
    decreases ls.len() - i,
{
    if i < ls.len() {
        if existem[i] {
            assert(ls[i] == primeiro(ls, existem, i)->Some_0);
        } else {
            lema_primeiro(ls, existem, i + 1);
            if let Some(s) = primeiro(ls, existem, i) {
                let k = choose|k: int|
                    i + 1 <= k < ls.len() && #[trigger] ls[k] == s && existem[k] && forall|j: int|
                        i + 1 <= j < k ==> !existem[j];
                assert(ls[k] == s);
            }
        }
    }
}

// ---- Uma so vez ----------------------------------------------------------------------------

/// O que se faz com um arquivo a incluir: a falha, ou o arquivo a executar, se algum.
pub open spec fn inclusao(
    feitos: Seq<Seq<char>>,
    caminho: Seq<char>,
    obrigatorio: bool,
    existe: bool,
    completo: Result<Seq<char>, Seq<char>>,
) -> Result<Option<Seq<char>>, Seq<char>> {
    if !existe {
        if obrigatorio {
            Err("requerer '"@ + caminho + "': arquivo não encontrado"@)
        } else {
            Ok(None)
        }
    } else {
        match completo {
            Err(e) => Err("incluir '"@ + caminho + "': "@ + e),
            Ok(k) => if feitos.contains(k) {
                Ok(None)
            } else {
                Ok(Some(k))
            },
        }
    }
}

/// Os arquivos ja executados, depois de uma inclusao.
pub open spec fn depois(feitos: Seq<Seq<char>>, r: Result<Option<Seq<char>>, Seq<char>>) -> Seq<Seq<char>> {
    match r {
        Ok(Some(k)) => feitos.push(k),
        _ => feitos,
    }
}

fn ja_feito(feitos: &Vec<String>, k: &str) -> (r: bool)
    ensures
        r == texto::textos(feitos@).contains(k@),
{
    let ghost ts = texto::textos(feitos@);
    let mut i: usize = 0;
    while i < feitos.len()
        invariant
            i <= feitos@.len(),
            ts == texto::textos(feitos@),
            ts.len() == feitos@.len(),
            forall|j: int| 0 <= j < i ==> (#[trigger] ts[j]) != k@,
        decreases feitos@.len() - i,
    {
        assert(ts[i as int] == feitos@[i as int]@);
        if feitos[i].as_str().eq(k) {
            return true;
        }
        i += 1;
    }
    false
}

/// Decide uma inclusao. `completo` e o caminho do arquivo desde a raiz, ou por que nao se soube.
pub fn incluir(
    feitos: &mut Vec<String>,
    caminho: &str,
    obrigatorio: bool,
    existe: bool,
    completo: Result<String, String>,
) -> (r: Result<Option<String>, String>)
    ensures
        ({
            let i = inclusao(
                texto::textos(old(feitos)@),
                caminho@,
                obrigatorio,
                existe,
                match completo {
                    Ok(k) => Ok(k@),
                    Err(e) => Err(e@),
                },
            );
            &&& match r {
                Ok(Some(k)) => i == Ok::<_, Seq<char>>(Some(k@)),
                Ok(None) => i == Ok::<_, Seq<char>>(None::<Seq<char>>),
                Err(m) => i == Err::<Option<Seq<char>>, _>(m@),
            }
            &&& texto::textos(final(feitos)@) == depois(texto::textos(old(feitos)@), i)
        }),
{
    if !existe {
        if !obrigatorio {
            return Ok(None);
        }
        let mut m = "requerer '".to_owned();
        m.append(caminho);
        m.append("': arquivo não encontrado");
        return Err(m);
    }
    match completo {
        Err(e) => {
            let mut m = "incluir '".to_owned();
            m.append(caminho);
            m.append("': ");
            m.append(e.as_str());
            Err(m)
        },
        Ok(k) => {
            if ja_feito(feitos, k.as_str()) {
                return Ok(None);
            }
            let ghost antes = feitos@;
            feitos.push(k.clone());
            assert(texto::textos(feitos@) =~= texto::textos(antes).push(k@));
            Ok(Some(k))
        },
    }
}

/// Um arquivo incluido executa-se uma so vez, por mais que se peca.
pub proof fn lei_uma_vez(feitos: Seq<Seq<char>>, a: Seq<char>, b: Seq<char>, x: bool, y: bool, k: Seq<char>)
    ensures
        inclusao(depois(feitos, inclusao(feitos, a, x, true, Ok(k))), b, y, true, Ok(k)) == Ok::<_, Seq<char>>(
            None::<Seq<char>>,
        ),
{
    let d = depois(feitos, inclusao(feitos, a, x, true, Ok(k)));
    if !feitos.contains(k) {
        assert(d[feitos.len() as int] == k);
    }
}

} // verus!
