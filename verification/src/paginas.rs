//! As paginas: que arquivo atende um caminho, com que parametros, e que arquivos se servem
//! como estao.

use vstd::prelude::*;
use crate::busca;
use crate::fastcgi;
use crate::ordem;
use crate::servidor::{combinar_padrao, separar_caminho, url_decodificar};
use crate::servidor;
use crate::tabela::Tabela;
use crate::texto;

verus! {

// ---- As pastas ---------------------------------------------------------------------------

/// O que ha numa pasta.
pub struct Pasta {
    pub entradas: Vec<Entrada>,
}

/// Um nome de uma pasta: se e um arquivo comum, o caminho real, se se resolve, e o que ha
/// dentro, se e uma pasta.
pub struct Entrada {
    pub nome: String,
    pub arquivo: bool,
    pub alvo: Option<String>,
    pub pasta: Option<Pasta>,
}

/// A ultima posicao de um caractere antes de `i`.
pub open spec fn ultima(s: Seq<char>, c: char, i: int) -> Option<int>
    decreases i,
{
    if i <= 0 || i > s.len() {
        None
    } else if s[i - 1] == c {
        Some(i - 1)
    } else {
        ultima(s, c, i - 1)
    }
}

/// A ultima posicao de um caractere.
fn achar_ultima(s: &[char], c: char) -> (r: Option<usize>)
    ensures
        match r {
            Some(p) => ultima(s@, c, s@.len() as int) == Some(p as int) && p < s@.len(),
            None => ultima(s@, c, s@.len() as int) is None,
        },
{
    let mut i: usize = s.len();
    while i > 0
        invariant
            i <= s@.len(),
            ultima(s@, c, s@.len() as int) == ultima(s@, c, i as int),
        decreases i,
    {
        if s[i - 1] == c {
            return Some(i - 1);
        }
        i -= 1;
    }
    None
}

/// A base e a extensao de um nome, se ele tem um ponto que nao seja o primeiro caractere.
pub open spec fn base_e_extensao(nome: Seq<char>) -> Option<(Seq<char>, Seq<char>)> {
    match ultima(nome, '.', nome.len() as int) {
        Some(p) if p > 0 => Some((nome.take(p), nome.skip(p + 1))),
        _ => None,
    }
}

/// A base e a extensao de um nome.
fn separar_extensao(nome: &str) -> (r: Option<(String, String)>)
    ensures
        match r {
            Some((b, e)) => base_e_extensao(nome@) == Some((b@, e@)),
            None => base_e_extensao(nome@) is None,
        },
{
    let s = texto::caracteres(nome);
    let fim = s.len();
    match achar_ultima(&s, '.') {
        Some(p) if p > 0 => {
            let b = texto::de_caracteres(vstd::slice::slice_subrange(&s, 0, p));
            let e = texto::de_caracteres(vstd::slice::slice_subrange(&s, p + 1, fim));
            assert(b@ =~= nome@.take(p as int));
            assert(e@ =~= nome@.skip(p + 1));
            Some((b, e))
        },
        _ => None,
    }
}

/// O ultimo nome de um caminho.
pub open spec fn nome_final(caminho: Seq<char>) -> Seq<char> {
    match ultima(caminho, '/', caminho.len() as int) {
        Some(p) => caminho.skip(p + 1),
        None => caminho,
    }
}

/// O ultimo nome de um caminho.
fn nome_do_caminho(caminho: &str) -> (r: String)
    ensures
        r@ == nome_final(caminho@),
{
    let s = texto::caracteres(caminho);
    let fim = s.len();
    match achar_ultima(&s, '/') {
        Some(p) => {
            let r = texto::de_caracteres(vstd::slice::slice_subrange(&s, p + 1, fim));
            assert(r@ =~= caminho@.skip(p + 1));
            r
        },
        None => caminho.to_owned(),
    }
}

/// Se uma extensao e a de uma pagina.
pub open spec fn de_pagina(e: Seq<char>) -> bool {
    e == "pep"@ || e == "phtml"@
}

/// Se um nome e o de uma pagina.
pub open spec fn nome_de_pagina(nome: Seq<char>) -> bool {
    match base_e_extensao(nome) {
        Some((_, e)) => de_pagina(e),
        None => false,
    }
}

/// Se um nome e o de uma pagina.
fn eh_nome_de_pagina(nome: &str) -> (r: bool)
    ensures
        r == nome_de_pagina(nome@),
{
    match separar_extensao(nome) {
        Some((_, e)) => e.as_str().eq("pep") || e.as_str().eq("phtml"),
        None => false,
    }
}

/// Se um caminho e o de um template, pela extensao.
pub fn e_template(caminho: &str) -> (r: bool)
    ensures
        r == (match base_e_extensao(nome_final(caminho@)) {
            Some((_, e)) => e == "phtml"@ || e == "html"@ || e == "htm"@,
            None => false,
        }),
{
    match separar_extensao(nome_do_caminho(caminho).as_str()) {
        Some((_, e)) => e.as_str().eq("phtml") || e.as_str().eq("html") || e.as_str().eq("htm"),
        None => false,
    }
}

/// Se um nome e um parametro: esta entre colchetes.
pub open spec fn dinamico(nome: Seq<char>) -> bool {
    nome.len() >= 2 && nome[0] == '[' && nome.last() == ']'
}

/// O parametro de um nome entre colchetes.
pub open spec fn parametro(nome: Seq<char>) -> Seq<char> {
    nome.subrange(1, nome.len() - 1)
}

/// O parametro de um nome, se o nome esta entre colchetes.
fn parametro_do_nome(nome: &str) -> (r: Option<String>)
    ensures
        match r {
            Some(p) => dinamico(nome@) && p@ == parametro(nome@),
            None => !dinamico(nome@),
        },
{
    let s = texto::caracteres(nome);
    if s.len() >= 2 && s[0] == '[' && s[s.len() - 1] == ']' {
        let p = texto::de_caracteres(vstd::slice::slice_subrange(&s, 1, s.len() - 1));
        assert(p@ =~= parametro(nome@));
        Some(p)
    } else {
        None
    }
}

/// Se um caminho real e uma pasta ou esta dentro dela.
pub open spec fn dentro(raiz: Seq<char>, alvo: Seq<char>) -> bool {
    ||| alvo == raiz
    ||| raiz.len() > 0 && raiz.last() == '/' && busca::comeca(alvo, raiz)
    ||| busca::comeca(alvo, raiz + "/"@)
}

/// Se um caminho real esta dentro de uma pasta.
pub fn esta_dentro(raiz: &str, alvo: &str) -> (r: bool)
    ensures
        r == dentro(raiz@, alvo@),
{
    let mut com_barra = raiz.to_owned();
    com_barra.append("/");
    let a = texto::caracteres(raiz);
    let b = texto::caracteres(alvo);
    let c = texto::caracteres(com_barra.as_str());
    alvo.eq(raiz) || (a.len() > 0 && a[a.len() - 1] == '/' && busca::comeca_com(&b, &a)) || busca::comeca_com(&b, &c)
}

// ---- Os scripts de uma pasta -------------------------------------------------------------

/// Se uma entrada e um script que se pode executar: um arquivo comum, de pagina, que esta de
/// facto dentro da raiz.
pub open spec fn executavel(raiz: Seq<char>, e: Entrada) -> bool {
    match e.alvo {
        Some(alvo) => nome_de_pagina(nome_final(alvo@)) && dentro(raiz, alvo@) && e.arquivo,
        None => false,
    }
}

/// O caminho real de uma entrada, se e um script que se pode executar.
pub open spec fn script_da_entrada(raiz: Seq<char>, e: Entrada) -> Option<Seq<char>> {
    if executavel(raiz, e) {
        Some(e.alvo->Some_0@)
    } else {
        None
    }
}

/// O caminho real de uma entrada, se e um script que se pode executar.
fn script_dentro_da_raiz(raiz: &str, e: &Entrada) -> (r: Option<String>)
    ensures
        visto(r) == script_da_entrada(raiz@, *e),
{
    match &e.alvo {
        Some(alvo) => {
            let n = nome_do_caminho(alvo.as_str());
            if eh_nome_de_pagina(n.as_str()) && esta_dentro(raiz, alvo.as_str()) && e.arquivo {
                Some(alvo.clone())
            } else {
                None
            }
        },
        None => None,
    }
}

/// Um texto que pode faltar, visto.
pub open spec fn visto(s: Option<String>) -> Option<Seq<char>> {
    match s {
        Some(t) => Some(t@),
        None => None,
    }
}

/// A posicao de um nome entre as entradas, a partir de `i`.
pub open spec fn indice(es: Seq<Entrada>, nome: Seq<char>, i: int) -> Option<int>
    decreases es.len() - i,
{
    if i < 0 || i >= es.len() {
        None
    } else if es[i].nome@ == nome {
        Some(i)
    } else {
        indice(es, nome, i + 1)
    }
}

/// A posicao de um nome numa pasta.
fn achar_entrada(p: &Pasta, nome: &str) -> (r: Option<usize>)
    ensures
        match r {
            Some(i) => indice(p.entradas@, nome@, 0) == Some(i as int) && i < p.entradas@.len(),
            None => indice(p.entradas@, nome@, 0) is None,
        },
{
    let mut i: usize = 0;
    while i < p.entradas.len()
        invariant
            i <= p.entradas@.len(),
            indice(p.entradas@, nome@, 0) == indice(p.entradas@, nome@, i as int),
        decreases p.entradas@.len() - i,
    {
        if p.entradas[i].nome.as_str().eq(nome) {
            return Some(i);
        }
        i += 1;
    }
    None
}

/// O script com um nome numa pasta.
pub open spec fn script_em(raiz: Seq<char>, p: Pasta, nome: Seq<char>) -> Option<Seq<char>> {
    match indice(p.entradas@, nome, 0) {
        Some(i) => script_da_entrada(raiz, p.entradas@[i]),
        None => None,
    }
}

/// O script com um nome numa pasta.
fn script_na_pasta(raiz: &str, p: &Pasta, nome: &str) -> (r: Option<String>)
    ensures
        visto(r) == script_em(raiz@, *p, nome@),
{
    match achar_entrada(p, nome) {
        Some(i) => script_dentro_da_raiz(raiz, &p.entradas[i]),
        None => None,
    }
}

/// A pasta com um nome dentro de outra.
pub open spec fn pasta_em(p: Pasta, nome: Seq<char>) -> Option<Pasta> {
    match indice(p.entradas@, nome, 0) {
        Some(i) => p.entradas@[i].pasta,
        None => None,
    }
}

/// A pasta com um nome dentro de outra.
fn pasta_na_pasta<'a>(p: &'a Pasta, nome: &str) -> (r: Option<&'a Pasta>)
    ensures
        match r {
            Some(q) => pasta_em(*p, nome@) == Some(*q),
            None => pasta_em(*p, nome@) is None,
        },
{
    match achar_entrada(p, nome) {
        Some(i) => match &p.entradas[i].pasta {
            Some(q) => Some(q),
            None => None,
        },
        None => None,
    }
}

/// O indice de uma pasta: `index.pep` ou, se nao ha, `index.phtml`.
pub open spec fn indice_da_pasta(raiz: Seq<char>, p: Pasta) -> Option<Seq<char>> {
    match script_em(raiz, p, "index.pep"@) {
        Some(s) => Some(s),
        None => script_em(raiz, p, "index.phtml"@),
    }
}

/// O indice de uma pasta.
fn primeiro_script_valido(raiz: &str, p: &Pasta) -> (r: Option<String>)
    ensures
        visto(r) == indice_da_pasta(raiz@, *p),
{
    match script_na_pasta(raiz, p, "index.pep") {
        Some(s) => Some(s),
        None => script_na_pasta(raiz, p, "index.phtml"),
    }
}

/// O parametro que uma entrada aceita: o de uma pasta entre colchetes ou o de uma pagina cuja
/// base esta entre colchetes.
pub open spec fn aceita(e: Entrada, de_pasta: bool) -> Option<Seq<char>> {
    if de_pasta {
        if e.pasta is Some && dinamico(e.nome@) {
            Some(parametro(e.nome@))
        } else {
            None
        }
    } else {
        match base_e_extensao(e.nome@) {
            Some((b, x)) => if e.arquivo && de_pagina(x) && dinamico(b) {
                Some(parametro(b))
            } else {
                None
            },
            None => None,
        }
    }
}

/// O parametro que uma entrada aceita.
fn parametro_aceito(e: &Entrada, de_pasta: bool) -> (r: Option<String>)
    ensures
        visto(r) == aceita(*e, de_pasta),
{
    if de_pasta {
        match &e.pasta {
            Some(_) => parametro_do_nome(e.nome.as_str()),
            None => None,
        }
    } else {
        match separar_extensao(e.nome.as_str()) {
            Some((b, x)) => if e.arquivo && (x.as_str().eq("pep") || x.as_str().eq("phtml")) {
                parametro_do_nome(b.as_str())
            } else {
                None
            },
            None => None,
        }
    }
}

/// Das primeiras `n` entradas que aceitam um parametro, a de menor nome.
pub open spec fn menor(es: Seq<Entrada>, de_pasta: bool, n: int) -> Option<int>
    decreases n,
{
    if n <= 0 || n > es.len() {
        None
    } else {
        let r = menor(es, de_pasta, n - 1);
        if aceita(es[n - 1], de_pasta) is None {
            r
        } else {
            match r {
                Some(j) if !ordem::antes_de(es[n - 1].nome@, es[j].nome@) => r,
                _ => Some(n - 1),
            }
        }
    }
}

/// A entrada de menor nome que aceita um parametro, e o parametro.
fn primeiro_dinamico(p: &Pasta, de_pasta: bool) -> (r: Option<(usize, String)>)
    ensures
        match r {
            Some((i, nome)) => i < p.entradas@.len() && menor(p.entradas@, de_pasta, p.entradas@.len() as int) == Some(
                i as int,
            ) && aceita(p.entradas@[i as int], de_pasta) == Some(nome@),
            None => menor(p.entradas@, de_pasta, p.entradas@.len() as int) is None,
        },
{
    let mut r: Option<(usize, String)> = None;
    let mut i: usize = 0;
    while i < p.entradas.len()
        invariant
            i <= p.entradas@.len(),
            match r {
                Some((j, nome)) => j < i && menor(p.entradas@, de_pasta, i as int) == Some(j as int) && aceita(
                    p.entradas@[j as int],
                    de_pasta,
                ) == Some(nome@),
                None => menor(p.entradas@, de_pasta, i as int) is None,
            },
        decreases p.entradas@.len() - i,
    {
        if let Some(nome) = parametro_aceito(&p.entradas[i], de_pasta) {
            let troca = match &r {
                Some((j, _)) => ordem::vem_antes(p.entradas[i].nome.as_str(), p.entradas[*j].nome.as_str()),
                None => true,
            };
            if troca {
                r = Some((i, nome));
            }
        }
        i += 1;
    }
    r
}

// ---- A resolucao de um caminho -----------------------------------------------------------

/// Os parametros de um caminho.
pub type Parametros = Map<Seq<char>, Seq<char>>;

/// Se um segmento nao pode aparecer num caminho.
pub open spec fn proibido(s: Seq<char>) -> bool {
    s == "."@ || s == ".."@ || s.contains('\\') || s.contains('\0')
}

/// Se um segmento nao pode aparecer num caminho.
fn eh_proibido(s: &str) -> (r: bool)
    ensures
        r == proibido(s@),
{
    let cs = texto::caracteres(s);
    let mut i: usize = 0;
    while i < cs.len()
        invariant
            i <= cs@.len(),
            cs@ == s@,
            forall|k: int| 0 <= k < i ==> #[trigger] cs@[k] != '\\' && cs@[k] != '\0',
        decreases cs@.len() - i,
    {
        if cs[i] == '\\' || cs[i] == '\0' {
            assert(s@[i as int] == cs@[i as int]);
            assert(s@.contains(s@[i as int]));
            return true;
        }
        i += 1;
    }
    s.eq(".") || s.eq("..")
}

/// Se algum dos segmentos, a partir de `i`, nao pode aparecer num caminho.
pub open spec fn algum_proibido(ss: Seq<Seq<char>>) -> bool {
    exists|i: int| 0 <= i < ss.len() && proibido(#[trigger] ss[i])
}

/// A pasta a que se chega pelos segmentos de `i` a `n`, com os parametros tomados pelo caminho:
/// por cada segmento, a pasta com esse nome ou, se nao ha, a primeira entre colchetes.
pub open spec fn descida(p: Pasta, ss: Seq<Seq<char>>, i: int, n: int, m: Parametros) -> Option<(Pasta, Parametros)>
    decreases n - i,
{
    if i >= n {
        Some((p, m))
    } else {
        match pasta_em(p, ss[i]) {
            Some(q) => descida(q, ss, i + 1, n, m),
            None => match menor(p.entradas@, true, p.entradas@.len() as int) {
                Some(j) => descida(
                    p.entradas@[j].pasta->Some_0,
                    ss,
                    i + 1,
                    n,
                    m.insert(aceita(p.entradas@[j], true)->Some_0, servidor::url_texto(ss[i])),
                ),
                None => None,
            },
        }
    }
}

/// O script que um nome pede diretamente: o proprio arquivo, se o nome ja e o de uma pagina; se
/// nao, o nome com cada uma das extensoes e, por fim, o indice da pasta com esse nome.
pub open spec fn pedido(raiz: Seq<char>, p: Pasta, nome: Seq<char>) -> Option<Seq<char>> {
    if busca::termina(nome, ".pep"@) || busca::termina(nome, ".phtml"@) {
        script_em(raiz, p, nome)
    } else {
        match script_em(raiz, p, nome + ".pep"@) {
            Some(s) => Some(s),
            None => match script_em(raiz, p, nome + ".phtml"@) {
                Some(s) => Some(s),
                None => match pasta_em(p, nome) {
                    Some(q) => indice_da_pasta(raiz, q),
                    None => None,
                },
            },
        }
    }
}

/// Um script com os parametros dele.
pub open spec fn com_parametros(s: Option<Seq<char>>, m: Parametros) -> Option<(Seq<char>, Parametros)> {
    match s {
        Some(t) => Some((t, m)),
        None => None,
    }
}

/// O script do ultimo segmento numa pasta: o que o nome pede; se nao ha, a primeira pagina entre
/// colchetes; se nao ha, o indice da pasta com esse nome ou da primeira entre colchetes.
pub open spec fn ultimo_passo(raiz: Seq<char>, p: Pasta, nome: Seq<char>, m: Parametros) -> Option<
    (Seq<char>, Parametros),
> {
    let es = p.entradas@;
    match pedido(raiz, p, nome) {
        Some(s) => Some((s, m)),
        None => match menor(es, false, es.len() as int) {
            Some(j) => com_parametros(
                script_da_entrada(raiz, es[j]),
                m.insert(aceita(es[j], false)->Some_0, servidor::url_texto(nome)),
            ),
            None => match pasta_em(p, nome) {
                Some(q) => com_parametros(indice_da_pasta(raiz, q), m),
                None => match menor(es, true, es.len() as int) {
                    Some(j) => com_parametros(
                        indice_da_pasta(raiz, es[j].pasta->Some_0),
                        m.insert(aceita(es[j], true)->Some_0, servidor::url_texto(nome)),
                    ),
                    None => None,
                },
            },
        },
    }
}

/// O script que atende um caminho e os parametros dele.
pub open spec fn script_do_caminho(raiz: Seq<char>, p: Pasta, caminho: Seq<char>) -> Option<(Seq<char>, Parametros)> {
    let ss = servidor::segmentos(servidor::url_texto(caminho));
    let n = ss.len() as int;
    if algum_proibido(ss) {
        None
    } else if n == 0 {
        com_parametros(indice_da_pasta(raiz, p), Map::empty())
    } else {
        match descida(p, ss, 0, n - 1, Map::empty()) {
            Some((q, m)) => ultimo_passo(raiz, q, ss[n - 1], m),
            None => None,
        }
    }
}

/// Um script e os parametros, vistos.
pub open spec fn script_visto(r: Option<(String, Tabela<String>)>) -> Option<(Seq<char>, Parametros)> {
    match r {
        Some((s, t)) => Some((s@, fastcgi::mapa_de_textos(t@))),
        None => None,
    }
}

/// Guarda um parametro decodificado.
fn guardar_parametro(m: &mut Tabela<String>, nome: String, valor: &str)
    ensures
        fastcgi::mapa_de_textos(final(m)@) == fastcgi::mapa_de_textos(old(m)@).insert(nome@, servidor::url_texto(valor@)),
{
    let v = url_decodificar(valor);
    let ghost (k, t) = (nome@, v@);
    m.inserir(nome, v);
    assert(fastcgi::mapa_de_textos(m@) =~= fastcgi::mapa_de_textos(old(m)@).insert(k, t));
}

/// Um nome com um sufixo.
fn com_sufixo(nome: &str, sufixo: &str) -> (r: String)
    ensures
        r@ == nome@ + sufixo@,
{
    let mut s = nome.to_owned();
    s.append(sufixo);
    s
}

/// O script que um nome pede diretamente.
fn script_pedido(raiz: &str, p: &Pasta, nome: &str) -> (r: Option<String>)
    ensures
        visto(r) == pedido(raiz@, *p, nome@),
{
    let cs = texto::caracteres(nome);
    let pep = texto::caracteres(".pep");
    let phtml = texto::caracteres(".phtml");
    if busca::termina_com(&cs, &pep) || busca::termina_com(&cs, &phtml) {
        return script_na_pasta(raiz, p, nome);
    }
    if let Some(s) = script_na_pasta(raiz, p, com_sufixo(nome, ".pep").as_str()) {
        return Some(s);
    }
    if let Some(s) = script_na_pasta(raiz, p, com_sufixo(nome, ".phtml").as_str()) {
        return Some(s);
    }
    match pasta_na_pasta(p, nome) {
        Some(q) => primeiro_script_valido(raiz, q),
        None => None,
    }
}

/// O script do ultimo segmento.
fn script_final(raiz: &str, p: &Pasta, nome: &str, params: Tabela<String>) -> (r: Option<(String, Tabela<String>)>)
    ensures
        script_visto(r) == ultimo_passo(raiz@, *p, nome@, fastcgi::mapa_de_textos(params@)),
{
    let mut m = params;
    if let Some(s) = script_pedido(raiz, p, nome) {
        return Some((s, m));
    }
    if let Some((j, k)) = primeiro_dinamico(p, false) {
        guardar_parametro(&mut m, k, nome);
        return match script_dentro_da_raiz(raiz, &p.entradas[j]) {
            Some(s) => Some((s, m)),
            None => None,
        };
    }
    if let Some(q) = pasta_na_pasta(p, nome) {
        return match primeiro_script_valido(raiz, q) {
            Some(s) => Some((s, m)),
            None => None,
        };
    }
    if let Some((j, k)) = primeiro_dinamico(p, true) {
        guardar_parametro(&mut m, k, nome);
        if let Some(q) = &p.entradas[j].pasta {
            return match primeiro_script_valido(raiz, q) {
                Some(s) => Some((s, m)),
                None => None,
            };
        }
    }
    None
}

/// O script que atende um caminho, entre os de uma pasta, e os parametros dele.
pub fn resolver_script_na_raiz(raiz: &str, pasta: &Pasta, caminho: &str) -> (r: Option<(String, Tabela<String>)>)
    ensures
        script_visto(r) == script_do_caminho(raiz@, *pasta, caminho@),
{
    let url = url_decodificar(caminho);
    let ss = separar_caminho(url.as_str());
    let ghost ts = servidor::segmentos(servidor::url_texto(caminho@));
    assert(ts == texto::textos(ss@) && ts.len() == ss@.len());
    let mut i: usize = 0;
    while i < ss.len()
        invariant
            i <= ss@.len(),
            ts == texto::textos(ss@),
            ts.len() == ss@.len(),
            ts == servidor::segmentos(servidor::url_texto(caminho@)),
            forall|k: int| 0 <= k < i ==> !proibido(#[trigger] ts[k]),
        decreases ss@.len() - i,
    {
        assert(ts[i as int] == ss@[i as int]@);
        if eh_proibido(ss[i].as_str()) {
            assert(algum_proibido(ts));
            return None;
        }
        i += 1;
    }
    assert(!algum_proibido(ts));
    let mut m: Tabela<String> = Tabela::nova();
    assert(fastcgi::mapa_de_textos(m@) =~= Map::<Seq<char>, Seq<char>>::empty());
    if ss.len() == 0 {
        return match primeiro_script_valido(raiz, pasta) {
            Some(s) => Some((s, m)),
            None => None,
        };
    }
    let mut atual: &Pasta = pasta;
    let n = ss.len() - 1;
    let mut j: usize = 0;
    while j < n
        invariant
            j <= n,
            n + 1 == ss@.len(),
            ts == texto::textos(ss@),
            ts.len() == ss@.len(),
            ts == servidor::segmentos(servidor::url_texto(caminho@)),
            !algum_proibido(ts),
            descida(*pasta, ts, 0, n as int, Map::empty()) == descida(
                *atual,
                ts,
                j as int,
                n as int,
                fastcgi::mapa_de_textos(m@),
            ),
        decreases n - j,
    {
        assert(ts[j as int] == ss@[j as int]@);
        match pasta_na_pasta(atual, ss[j].as_str()) {
            Some(q) => {
                atual = q;
            },
            None => match primeiro_dinamico(atual, true) {
                Some((k, nome)) => {
                    guardar_parametro(&mut m, nome, ss[j].as_str());
                    match &atual.entradas[k].pasta {
                        Some(q) => {
                            atual = q;
                        },
                        None => {
                            return None;
                        },
                    }
                },
                None => {
                    return None;
                },
            },
        }
        j += 1;
    }
    assert(ts[n as int] == ss@[n as int]@);
    script_final(raiz, atual, ss[n].as_str(), m)
}

/// O que se executa esta sempre dentro da raiz e e uma pagina; e um caminho com um segmento
/// `..` nunca se resolve.
pub proof fn lei_script(raiz: Seq<char>, p: Pasta, caminho: Seq<char>)
    ensures
        match script_do_caminho(raiz, p, caminho) {
            Some((s, _)) => dentro(raiz, s) && nome_de_pagina(nome_final(s)),
            None => true,
        },
        servidor::segmentos(servidor::url_texto(caminho)).contains(".."@) ==> script_do_caminho(raiz, p, caminho) is None,
{
    let ss = servidor::segmentos(servidor::url_texto(caminho));
    if ss.contains(".."@) {
        let i = ss.index_of(".."@);
        assert(proibido(ss[i]));
    }
}

// ---- As paginas descobertas --------------------------------------------------------------

/// Uma pagina: o padrao que ela atende e os nomes que levam ao arquivo.
pub struct Pagina {
    pub padrao: String,
    pub partes: Vec<String>,
}

/// Uma pagina, vista.
pub type PaginaVista = (Seq<char>, Seq<Seq<char>>);

/// As paginas, vistas.
pub open spec fn paginas_vistas(v: Seq<Pagina>) -> Seq<PaginaVista> {
    v.map_values(|p: Pagina| (p.padrao@, texto::textos(p.partes@)))
}

/// A parte de um padrao que corresponde a um nome: um parametro, se o nome esta entre colchetes.
pub open spec fn parte_do_padrao(nome: Seq<char>) -> Seq<char> {
    if dinamico(nome) {
        seq![':'] + parametro(nome)
    } else {
        nome
    }
}

/// Os nomes de um arquivo, o ultimo sem a extensao.
pub open spec fn sem_extensao(ns: Seq<Seq<char>>) -> Seq<Seq<char>> {
    if ns.len() > 0 && base_e_extensao(ns.last()) is Some {
        ns.drop_last().push(base_e_extensao(ns.last())->Some_0.0)
    } else {
        ns
    }
}

/// As partes do padrao de um arquivo: um `index` final nao conta.
pub open spec fn partes_do_padrao(ns: Seq<Seq<char>>) -> Seq<Seq<char>> {
    let ps = sem_extensao(ns).map_values(|n: Seq<char>| parte_do_padrao(n));
    if ps.len() > 0 && ps.last() == "index"@ {
        ps.drop_last()
    } else {
        ps
    }
}

/// O padrao de um arquivo, pelos nomes que levam a ele.
pub open spec fn padrao_de(ns: Seq<Seq<char>>) -> Seq<char> {
    let ps = partes_do_padrao(ns);
    if ps.len() == 0 {
        "/"@
    } else {
        "/"@ + busca::juntos(ps, "/"@)
    }
}

/// A parte de um padrao que corresponde a um nome.
fn parte_padrao(nome: &str) -> (r: String)
    ensures
        r@ == parte_do_padrao(nome@),
{
    match parametro_do_nome(nome) {
        Some(p) => {
            let r = com_sufixo(":", p.as_str());
            proof {
                reveal_strlit(":");
            }
            assert(r@ =~= seq![':'] + p@);
            r
        },
        None => nome.to_owned(),
    }
}

/// O padrao de um arquivo, pelos nomes que levam a ele.
pub fn arquivo_para_padrao(nomes: &Vec<String>) -> (r: String)
    ensures
        r@ == padrao_de(texto::textos(nomes@)),
{
    let ghost ns = texto::textos(nomes@);
    let ghost base = sem_extensao(ns);
    let mut ps: Vec<String> = Vec::new();
    let mut i: usize = 0;
    while i < nomes.len()
        invariant
            i <= nomes@.len(),
            ns == texto::textos(nomes@),
            base == sem_extensao(ns),
            ps@.len() == i,
            forall|k: int| 0 <= k < i ==> (#[trigger] ps@[k])@ == parte_do_padrao(base[k]),
        decreases nomes@.len() - i,
    {
        assert(ns[i as int] == nomes@[i as int]@);
        if i + 1 == nomes.len() {
            assert(ns.last() == ns[i as int]);
            match separar_extensao(nomes[i].as_str()) {
                Some((b, _)) => {
                    assert(base[i as int] == b@);
                    ps.push(parte_padrao(b.as_str()));
                },
                None => {
                    ps.push(parte_padrao(nomes[i].as_str()));
                },
            }
        } else {
            ps.push(parte_padrao(nomes[i].as_str()));
        }
        i += 1;
    }
    let ghost todas = base.map_values(|n: Seq<char>| parte_do_padrao(n));
    assert(texto::textos(ps@) =~= todas);
    if ps.len() > 0 && ps[ps.len() - 1].as_str().eq("index") {
        assert(todas.last() == ps@[ps@.len() - 1]@);
        let ghost antes = ps@;
        ps.pop();
        assert(texto::textos(ps@) =~= texto::textos(antes).drop_last());
    } else if ps.len() > 0 {
        assert(todas.last() == ps@[ps@.len() - 1]@);
    }
    assert(texto::textos(ps@) == partes_do_padrao(ns));
    if ps.len() == 0 {
        "/".to_owned()
    } else {
        let j = busca::juntar(&ps, "/");
        com_sufixo("/", j.as_str())
    }
}

/// As paginas das primeiras `n` entradas e do que ha dentro delas.
pub open spec fn paginas_das_entradas(es: Seq<Entrada>, prefixo: Seq<Seq<char>>, n: int) -> Seq<PaginaVista>
    decreases es, n,
{
    if n <= 0 || n > es.len() {
        Seq::empty()
    } else {
        let ns = prefixo.push(es[n - 1].nome@);
        paginas_das_entradas(es, prefixo, n - 1) + match es[n - 1].pasta {
            Some(q) => paginas_das_entradas(q.entradas@, ns, q.entradas@.len() as int),
            None => if nome_de_pagina(es[n - 1].nome@) {
                seq![(padrao_de(ns), ns)]
            } else {
                Seq::empty()
            },
        }
    }
}

/// Os nomes com mais um.
fn com_nome(prefixo: &Vec<String>, nome: &String) -> (r: Vec<String>)
    ensures
        texto::textos(r@) == texto::textos(prefixo@).push(nome@),
{
    let mut r = crate::ast::copiar_textos(prefixo);
    let ghost antes = r@;
    r.push(nome.clone());
    assert(texto::textos(r@) =~= texto::textos(antes).push(nome@));
    r
}

/// Junta as paginas de uma pasta.
fn descobrir_recursivo(p: &Pasta, prefixo: &Vec<String>, out: &mut Vec<Pagina>)
    ensures
        paginas_vistas(final(out)@) == paginas_vistas(old(out)@) + paginas_das_entradas(
            p.entradas@,
            texto::textos(prefixo@),
            p.entradas@.len() as int,
        ),
    decreases p,
{
    let ghost px = texto::textos(prefixo@);
    let ghost o = paginas_vistas(out@);
    assert(o + paginas_das_entradas(p.entradas@, px, 0) =~= o);
    let mut i: usize = 0;
    while i < p.entradas.len()
        invariant
            i <= p.entradas@.len(),
            px == texto::textos(prefixo@),
            paginas_vistas(out@) == o + paginas_das_entradas(p.entradas@, px, i as int),
        decreases p.entradas@.len() - i,
    {
        let e = &p.entradas[i];
        let ns = com_nome(prefixo, &e.nome);
        let ghost antes = out@;
        match &e.pasta {
            Some(q) => {
                descobrir_recursivo(q, &ns, out);
            },
            None => {
                if eh_nome_de_pagina(e.nome.as_str()) {
                    let padrao = arquivo_para_padrao(&ns);
                    let ghost v = (padrao@, texto::textos(ns@));
                    out.push(Pagina { padrao, partes: ns });
                    assert(paginas_vistas(out@) =~= paginas_vistas(antes) + seq![v]);
                } else {
                    assert(paginas_vistas(out@) =~= paginas_vistas(antes) + Seq::<PaginaVista>::empty());
                }
            },
        }
        assert(paginas_vistas(out@) =~= o + paginas_das_entradas(p.entradas@, px, i + 1));
        i += 1;
    }
}

/// Se uma lista de textos vem antes de outra, texto a texto.
pub open spec fn lista_antes_de(a: Seq<Seq<char>>, b: Seq<Seq<char>>) -> bool
    decreases a.len(),
{
    if b.len() == 0 {
        false
    } else if a.len() == 0 {
        true
    } else if a[0] != b[0] {
        ordem::antes_de(a[0], b[0])
    } else {
        lista_antes_de(a.skip(1), b.skip(1))
    }
}

/// Compara duas listas de textos.
fn lista_vem_antes(a: &Vec<String>, b: &Vec<String>) -> (r: bool)
    ensures
        r == lista_antes_de(texto::textos(a@), texto::textos(b@)),
{
    let ghost ta = texto::textos(a@);
    let ghost tb = texto::textos(b@);
    assert(ta.skip(0) =~= ta && tb.skip(0) =~= tb);
    let mut i: usize = 0;
    while i < a.len() && i < b.len()
        invariant
            i <= a@.len(),
            i <= b@.len(),
            ta == texto::textos(a@),
            tb == texto::textos(b@),
            lista_antes_de(ta, tb) == lista_antes_de(ta.skip(i as int), tb.skip(i as int)),
        decreases a@.len() - i,
    {
        assert(ta.skip(i as int)[0] == a@[i as int]@ && tb.skip(i as int)[0] == b@[i as int]@);
        if !a[i].as_str().eq(b[i].as_str()) {
            return ordem::vem_antes(a[i].as_str(), b[i].as_str());
        }
        assert(ta.skip(i as int).skip(1) =~= ta.skip(i + 1));
        assert(tb.skip(i as int).skip(1) =~= tb.skip(i + 1));
        i += 1;
    }
    assert(ta.skip(i as int).len() == a@.len() - i && tb.skip(i as int).len() == b@.len() - i);
    i < b.len()
}

/// Quantas vezes um caractere aparece nos primeiros `n`.
pub open spec fn contagem(s: Seq<char>, c: char, n: int) -> nat
    decreases n,
{
    if n <= 0 || n > s.len() {
        0
    } else {
        contagem(s, c, n - 1) + if s[n - 1] == c {
            1nat
        } else {
            0
        }
    }
}

/// Quantos parametros um padrao tem.
pub open spec fn parametros_do_padrao(p: Seq<char>) -> nat {
    contagem(p, ':', p.len() as int)
}

/// Quantos parametros um padrao tem.
fn contar_parametros(p: &str) -> (r: usize)
    ensures
        r == parametros_do_padrao(p@),
{
    let s = texto::caracteres(p);
    let mut n: usize = 0;
    let mut i: usize = 0;
    while i < s.len()
        invariant
            i <= s@.len(),
            s@ == p@,
            n == contagem(p@, ':', i as int),
            n <= i,
        decreases s@.len() - i,
    {
        if s[i] == ':' {
            n += 1;
        }
        i += 1;
    }
    n
}

/// Se uma pagina vem antes de outra: a que tem menos parametros; entre iguais, pela ordem do
/// padrao; e, no mesmo padrao, pela ordem dos nomes.
pub open spec fn pagina_antes_de(a: PaginaVista, b: PaginaVista) -> bool {
    let (m, n) = (parametros_do_padrao(a.0), parametros_do_padrao(b.0));
    ||| m < n
    ||| m == n && ordem::antes_de(a.0, b.0)
    ||| m == n && a.0 == b.0 && lista_antes_de(a.1, b.1)
}

/// Compara duas paginas.
fn pagina_vem_antes(a: &Pagina, b: &Pagina) -> (r: bool)
    ensures
        r == pagina_antes_de((a.padrao@, texto::textos(a.partes@)), (b.padrao@, texto::textos(b.partes@))),
{
    let m = contar_parametros(a.padrao.as_str());
    let n = contar_parametros(b.padrao.as_str());
    m < n || (m == n && (ordem::vem_antes(a.padrao.as_str(), b.padrao.as_str()) || (a.padrao.as_str().eq(
        b.padrao.as_str(),
    ) && lista_vem_antes(&a.partes, &b.partes))))
}

/// A posicao em que uma pagina entra numa lista ordenada, depois das primeiras `n`.
pub open spec fn lugar(v: Seq<PaginaVista>, x: PaginaVista, n: int) -> int
    decreases n,
{
    if n <= 0 || n > v.len() || !pagina_antes_de(x, v[n - 1]) {
        n
    } else {
        lugar(v, x, n - 1)
    }
}

/// As paginas, cada uma posta no seu lugar.
pub open spec fn paginas_em_ordem(v: Seq<PaginaVista>) -> Seq<PaginaVista>
    decreases v.len(),
{
    if v.len() == 0 {
        v
    } else {
        let r = paginas_em_ordem(v.drop_last());
        r.insert(lugar(r, v.last(), r.len() as int), v.last())
    }
}

/// Poe as paginas em ordem.
fn ordenar_paginas(v: Vec<Pagina>) -> (r: Vec<Pagina>)
    ensures
        paginas_vistas(r@) == paginas_em_ordem(paginas_vistas(v@)),
{
    let ghost t = paginas_vistas(v@);
    let mut r: Vec<Pagina> = Vec::new();
    assert(paginas_vistas(r@) =~= paginas_em_ordem(t.take(0)));
    let mut i: usize = 0;
    while i < v.len()
        invariant
            i <= v@.len(),
            t == paginas_vistas(v@),
            paginas_vistas(r@) == paginas_em_ordem(t.take(i as int)),
        decreases v@.len() - i,
    {
        let x = Pagina { padrao: v[i].padrao.clone(), partes: crate::ast::copiar_textos(&v[i].partes) };
        let ghost xv = (x.padrao@, texto::textos(x.partes@));
        let ghost rv = paginas_vistas(r@);
        assert(xv == t[i as int]);
        let mut j: usize = r.len();
        while j > 0 && pagina_vem_antes(&x, &r[j - 1])
            invariant
                j <= r@.len(),
                rv == paginas_vistas(r@),
                xv == (x.padrao@, texto::textos(x.partes@)),
                lugar(rv, xv, rv.len() as int) == lugar(rv, xv, j as int),
            decreases j,
        {
            assert(rv[j - 1] == (r@[j - 1].padrao@, texto::textos(r@[j - 1].partes@)));
            j -= 1;
        }
        assert(j > 0 ==> rv[j - 1] == (r@[j - 1].padrao@, texto::textos(r@[j - 1].partes@)));
        r.insert(j, x);
        assert(paginas_vistas(r@) =~= rv.insert(j as int, xv));
        assert(t.take(i + 1).drop_last() =~= t.take(i as int));
        i += 1;
    }
    assert(t.take(t.len() as int) =~= t);
    r
}

/// As paginas de uma pasta, na ordem em que se procuram.
pub fn descobrir_paginas(pasta: &Pasta) -> (r: Vec<Pagina>)
    ensures
        paginas_vistas(r@) == paginas_em_ordem(
            paginas_das_entradas(pasta.entradas@, Seq::empty(), pasta.entradas@.len() as int),
        ),
{
    let prefixo: Vec<String> = Vec::new();
    let mut v: Vec<Pagina> = Vec::new();
    assert(texto::textos(prefixo@) =~= Seq::<Seq<char>>::empty());
    let ghost ps = paginas_das_entradas(pasta.entradas@, Seq::empty(), pasta.entradas@.len() as int);
    assert(paginas_vistas(v@) + ps =~= ps);
    descobrir_recursivo(pasta, &prefixo, &mut v);
    ordenar_paginas(v)
}

/// A primeira pagina, a partir de `i`, cujo padrao combina com um caminho.
pub open spec fn pagina_em(v: Seq<PaginaVista>, caminho: Seq<char>, i: int) -> Option<(int, Parametros)>
    decreases v.len() - i,
{
    if i < 0 || i >= v.len() {
        None
    } else {
        match servidor::combinacao(v[i].0, caminho) {
            Some(m) => Some((i, m)),
            None => pagina_em(v, caminho, i + 1),
        }
    }
}

/// A pagina que atende um caminho: a posicao dela e os parametros.
pub fn encontrar_pagina(paginas: &Vec<Pagina>, caminho: &str) -> (r: Option<(usize, Tabela<String>)>)
    ensures
        match r {
            Some((i, t)) => i < paginas@.len() && pagina_em(paginas_vistas(paginas@), caminho@, 0) == Some(
                (i as int, fastcgi::mapa_de_textos(t@)),
            ),
            None => pagina_em(paginas_vistas(paginas@), caminho@, 0) is None,
        },
{
    let ghost v = paginas_vistas(paginas@);
    let mut i: usize = 0;
    while i < paginas.len()
        invariant
            i <= paginas@.len(),
            v == paginas_vistas(paginas@),
            pagina_em(v, caminho@, 0) == pagina_em(v, caminho@, i as int),
        decreases paginas@.len() - i,
    {
        assert(v[i as int].0 == paginas@[i as int].padrao@);
        if let Some(t) = combinar_padrao(paginas[i].padrao.as_str(), caminho) {
            return Some((i, t));
        }
        i += 1;
    }
    None
}

/// Se uma pagina vem antes de outra pelo numero de parametros, ou, com o mesmo, pelo padrao.
pub open spec fn padrao_antes_de(a: PaginaVista, b: PaginaVista) -> bool {
    let (m, n) = (parametros_do_padrao(a.0), parametros_do_padrao(b.0));
    m < n || (m == n && ordem::antes_de(a.0, b.0))
}

/// Se nenhuma pagina vem antes de uma anterior.
pub open spec fn fixas_primeiro(v: Seq<PaginaVista>) -> bool {
    forall|i: int, j: int| 0 <= i < j < v.len() ==> !padrao_antes_de(#[trigger] v[j], #[trigger] v[i])
}

proof fn lema_padrao_antes_de(a: PaginaVista, b: PaginaVista, c: PaginaVista)
    ensures
        !padrao_antes_de(b, a) && !padrao_antes_de(c, b) ==> !padrao_antes_de(c, a),
        pagina_antes_de(a, b) ==> !padrao_antes_de(b, a),
        padrao_antes_de(a, b) ==> pagina_antes_de(a, b),
{
    ordem::lema_total(a.0, b.0);
    ordem::lema_total(b.0, c.0);
    ordem::lema_total(a.0, c.0);
    if ordem::antes_de(c.0, a.0) && ordem::antes_de(a.0, b.0) {
        ordem::lema_transitiva(c.0, a.0, b.0);
    }
}

proof fn lema_lugar(v: Seq<PaginaVista>, x: PaginaVista, n: int)
    requires
        0 <= n <= v.len(),
    ensures
        0 <= lugar(v, x, n) <= n,
        forall|k: int| lugar(v, x, n) <= k < n ==> pagina_antes_de(x, #[trigger] v[k]),
        lugar(v, x, n) > 0 ==> !pagina_antes_de(x, v[lugar(v, x, n) - 1]),
    decreases n,
{
    if n > 0 && pagina_antes_de(x, v[n - 1]) {
        lema_lugar(v, x, n - 1);
    }
}

/// As rotas fixas vem antes das que tem parametros, quem tem menos parametros antes de quem tem
/// mais, e com o mesmo numero o padrao menor antes do maior.
pub proof fn lei_paginas(v: Seq<PaginaVista>)
    ensures
        fixas_primeiro(paginas_em_ordem(v)),
        paginas_em_ordem(v).to_multiset() == v.to_multiset(),
    decreases v.len(),
{
    broadcast use vstd::seq_lib::group_to_multiset_ensures;

    if v.len() > 0 {
        lei_paginas(v.drop_last());
        let r = paginas_em_ordem(v.drop_last());
        let x = v.last();
        lema_lugar(r, x, r.len() as int);
        let l = lugar(r, x, r.len() as int);
        let s = r.insert(l, x);
        assert forall|i: int, j: int| 0 <= i < j < s.len() implies !padrao_antes_de(
            #[trigger] s[j],
            #[trigger] s[i],
        ) by {
            if i < l && j == l {
                lema_padrao_antes_de(x, r[l - 1], x);
                lema_padrao_antes_de(r[i], r[l - 1], x);
                assert(i < l - 1 ==> !padrao_antes_de(r[l - 1], r[i]));
            } else if i == l {
                assert(pagina_antes_de(x, r[j - 1]));
                lema_padrao_antes_de(x, r[j - 1], x);
            } else if i > l {
                assert(s[i] == r[i - 1] && s[j] == r[j - 1]);
            } else if j > l {
                assert(s[i] == r[i] && s[j] == r[j - 1]);
            }
        }
        assert(v =~= v.drop_last().push(x));
    }
}

// ---- Os arquivos publicos ----------------------------------------------------------------

/// O texto sem as barras do inicio.
pub open spec fn sem_barras(s: Seq<char>) -> Seq<char>
    decreases s.len(),
{
    if s.len() > 0 && s[0] == '/' {
        sem_barras(s.skip(1))
    } else {
        s
    }
}

/// O que um endereco pede da pasta publica.
pub open spec fn relativo(url: Seq<char>) -> Seq<char> {
    let t = sem_barras(servidor::url_texto(url));
    if busca::comeca(t, "public/"@) {
        t.skip(7)
    } else {
        t
    }
}

/// Se um caminho relativo sai de onde comeca: pela raiz ou por um `..`.
pub open spec fn escapa(s: Seq<char>) -> bool {
    ||| s.len() > 0 && s[0] == '/'
    ||| busca::partes(s, '/', 0).contains(".."@)
}

/// O que um endereco pede da pasta publica, se nao sai dela.
pub fn relativo_publico(url: &str) -> (r: Option<String>)
    ensures
        match r {
            Some(s) => !escapa(relativo(url@)) && s@ == relativo(url@),
            None => escapa(relativo(url@)),
        },
{
    let d = url_decodificar(url);
    let s = texto::caracteres(d.as_str());
    let publica = texto::caracteres("public/");
    let mut i: usize = 0;
    assert(s@.skip(0) =~= s@);
    while i < s.len() && s[i] == '/'
        invariant
            i <= s@.len(),
            sem_barras(s@) == sem_barras(s@.skip(i as int)),
        decreases s@.len() - i,
    {
        assert(s@.skip(i as int).skip(1) =~= s@.skip(i + 1));
        i += 1;
    }
    let t = vstd::slice::slice_subrange(&s, i, s.len());
    assert(t@ =~= s@.skip(i as int));
    assert(sem_barras(s@) == t@);
    proof {
        reveal_strlit("public/");
    }
    let rel = if busca::comeca_com(t, &publica) {
        let x = vstd::slice::slice_subrange(t, 7, t.len());
        assert(x@ =~= t@.skip(7));
        x
    } else {
        t
    };
    assert(rel@ == relativo(url@));
    if rel.len() > 0 && rel[0] == '/' {
        return None;
    }
    let ps = busca::separar(rel, '/');
    let ghost tp = texto::textos(ps@);
    let mut j: usize = 0;
    while j < ps.len()
        invariant
            j <= ps@.len(),
            tp == texto::textos(ps@),
            tp == busca::partes(rel@, '/', 0),
            rel@ == relativo(url@),
            forall|k: int| 0 <= k < j ==> #[trigger] tp[k] != ".."@,
        decreases ps@.len() - j,
    {
        assert(tp[j as int] == ps@[j as int]@);
        if ps[j].as_str().eq("..") {
            assert(tp.contains(tp[j as int]));
            return None;
        }
        j += 1;
    }
    assert(!tp.contains(".."@));
    Some(texto::de_caracteres(rel))
}

/// O que ha no lugar que um endereco pede: se e uma pasta, o caminho real, e os caminhos reais
/// de `index.html` e de `index.htm` dentro dele.
pub struct LugarPublico {
    pub pasta: bool,
    pub alvo: Option<String>,
    pub html: Option<String>,
    pub htm: Option<String>,
}

/// Um caminho que pode faltar, se esta dentro de uma pasta.
pub open spec fn se_dentro(raiz: Seq<char>, s: Option<String>) -> Option<Seq<char>> {
    match s {
        Some(t) if dentro(raiz, t@) => Some(t@),
        _ => None,
    }
}

/// O arquivo que se serve: o pedido ou, de uma pasta, o indice dela; sempre um que esta dentro da
/// pasta publica.
pub open spec fn publico_de(publico: Seq<char>, rel: Seq<char>, l: LugarPublico) -> Option<Seq<char>> {
    if l.pasta || rel.len() == 0 {
        match se_dentro(publico, l.html) {
            Some(s) => Some(s),
            None => se_dentro(publico, l.htm),
        }
    } else {
        se_dentro(publico, l.alvo)
    }
}

/// Um caminho que pode faltar, se esta dentro de uma pasta.
fn filtrar_dentro(raiz: &str, s: &Option<String>) -> (r: Option<String>)
    ensures
        visto(r) == se_dentro(raiz@, *s),
{
    match s {
        Some(t) => if esta_dentro(raiz, t.as_str()) {
            Some(t.clone())
        } else {
            None
        },
        None => None,
    }
}

/// O arquivo publico que atende um endereco. O lugar e o que ha na pasta publica sob o que o
/// endereco pede dela.
pub fn resolver_arquivo_publico(url: &str, publico: &str, lugar: &LugarPublico) -> (r: Option<String>)
    ensures
        visto(r) == if escapa(relativo(url@)) {
            None
        } else {
            publico_de(publico@, relativo(url@), *lugar)
        },
{
    match relativo_publico(url) {
        None => None,
        Some(rel) => if lugar.pasta || rel.as_str().is_empty() {
            match filtrar_dentro(publico, &lugar.html) {
                Some(s) => Some(s),
                None => filtrar_dentro(publico, &lugar.htm),
            }
        } else {
            filtrar_dentro(publico, &lugar.alvo)
        },
    }
}

/// Um arquivo que se serve esta sempre dentro da pasta publica.
pub proof fn lei_publico(publico: Seq<char>, rel: Seq<char>, l: LugarPublico)
    ensures
        match publico_de(publico, rel, l) {
            Some(s) => dentro(publico, s),
            None => true,
        },
{
}

} // verus!
