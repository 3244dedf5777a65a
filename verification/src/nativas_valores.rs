//! As funcoes nativas de conversao, de listas, de mapas e de erros.

use vstd::prelude::*;
use crate::aplicar::{e_verdadeiro, tem_na_lista, Feito};
use crate::aplicar;
use crate::busca;
use crate::decimal::Decimal;
use crate::decimal;
use crate::nativas_arvore::{dar, falhar, querer, recusar, requerer, Chamado};
use crate::nativas_arvore;
use crate::ordem;
use crate::texto;
use crate::valor::{achar_chave, copiar_lista, copiar_pares, guardar, obter_ou_nulo, tirar, Valor};
use crate::valor;
use crate::vm::frase;

verus! {

// ---- Conversoes -------------------------------------------------------------------------

/// O nome do tipo de um valor.
pub open spec fn nome_do_tipo(v: valor::Dado) -> Seq<char> {
    match v {
        valor::Dado::Inteiro(_) => "inteiro"@,
        valor::Dado::Numero(_, _) => "decimal"@,
        valor::Dado::Texto(_) => "texto"@,
        valor::Dado::Booleano(_) => "booleano"@,
        valor::Dado::Nulo => "nulo"@,
        valor::Dado::Lista(_) => "lista"@,
        valor::Dado::Mapa(_) => "mapa"@,
        valor::Dado::ConexaoBD(_) => "conexao_bd"@,
        valor::Dado::ConexaoSQLite(_) => "conexao_sqlite"@,
        valor::Dado::Funcao { .. } | valor::Dado::FuncaoNativa(_) => "funcao"@,
        valor::Dado::Erro { .. } => "erro"@,
        valor::Dado::Tensor { .. } => "tensor"@,
        valor::Dado::Bytes(_) => "bytes"@,
    }
}

fn tipo_de(v: &Valor) -> (r: &'static str)
    ensures
        r@ == nome_do_tipo(v@),
{
    match v {
        Valor::Inteiro(_) => "inteiro",
        Valor::Numero(_) => "decimal",
        Valor::Texto(_) => "texto",
        Valor::Booleano(_) => "booleano",
        Valor::Nulo => "nulo",
        Valor::Lista(_) => "lista",
        Valor::Mapa(_) => "mapa",
        Valor::ConexaoBD(_) => "conexao_bd",
        Valor::ConexaoSQLite(_) => "conexao_sqlite",
        Valor::Funcao { .. } | Valor::FuncaoNativa(_) => "funcao",
        Valor::Erro { .. } => "erro",
        Valor::Tensor { .. } => "tensor",
        Valor::Bytes(_) => "bytes",
    }
}

/// Um inteiro como numero com ponto. O que passa de mil bilhoes e pedido: o seu texto e o do
/// numero.
pub open spec fn em_numero(n: int) -> nativas_arvore::ChamadoVisto {
    if -1000000000000000 < n < 1000000000000000 {
        nativas_arvore::da(valor::Dado::Numero(decimal::bits_de(n) as u64, texto::decimal_int(n)))
    } else {
        nativas_arvore::ChamadoVisto::Pedida
    }
}

fn fazer_numero(n: i64) -> (r: Chamado)
    ensures
        r@ == em_numero(n as int),
{
    if -1000000000000000 < n && n < 1000000000000000 {
        dar(Valor::Numero(Decimal { bits: decimal::de_inteiro(n), texto: texto::inteiro(n) }))
    } else {
        Chamado::Pedida
    }
}

/// As conversoes de um valor.
pub open spec fn convertido(nome: Seq<char>, v: valor::Dado) -> nativas_arvore::ChamadoVisto {
    if nome == "tipo"@ {
        nativas_arvore::da(valor::Dado::Texto(nome_do_tipo(v)))
    } else if nome == "texto"@ {
        nativas_arvore::da(valor::Dado::Texto(valor::texto_de(v)))
    } else if nome == "booleano"@ {
        nativas_arvore::da(valor::Dado::Booleano(aplicar::verdadeiro(v)))
    } else if nome == "numero"@ {
        match v {
            valor::Dado::Inteiro(n) => em_numero(n as int),
            valor::Dado::Numero(_, _) => nativas_arvore::da(v),
            valor::Dado::Texto(_) => nativas_arvore::ChamadoVisto::Pedida,
            valor::Dado::Booleano(b) => em_numero(
                if b {
                    1
                } else {
                    0
                },
            ),
            _ => nativas_arvore::falha("Nao e possivel converter '"@ + valor::texto_de(v) + "' para numero"@),
        }
    } else {
        match v {
            valor::Dado::Inteiro(n) => nativas_arvore::da(v),
            valor::Dado::Numero(b, _) => nativas_arvore::da(valor::Dado::Inteiro(decimal::inteiro_de(b) as i64)),
            valor::Dado::Texto(s) => if nome == "inteiro"@ {
                match busca::lido_inteiro(texto::aparado(s)) {
                    Some(n) => nativas_arvore::da(valor::Dado::Inteiro(n as i64)),
                    None => nativas_arvore::falha("Nao e possivel converter '"@ + s + "' para inteiro"@),
                }
            } else {
                nativas_arvore::requer(nome, "numero"@, v)
            },
            _ => nativas_arvore::requer(nome, "numero"@, v),
        }
    }
}

fn converter_numero(v: &Valor) -> (r: Chamado)
    ensures
        r@ == convertido("numero"@, v@),
{
    proof {
        reveal_strlit("numero");
        reveal_strlit("tipo");
        reveal_strlit("texto");
        reveal_strlit("booleano");
        assert("numero"@.len() == 6);
        assert("tipo"@.len() == 4);
        assert("texto"@.len() == 5);
        assert("booleano"@.len() == 8);
    }
    match v {
        Valor::Inteiro(n) => fazer_numero(*n),
        Valor::Numero(_) => dar(v.clone()),
        Valor::Texto(_) => Chamado::Pedida,
        Valor::Booleano(b) => fazer_numero(
            if *b {
                1
            } else {
                0
            },
        ),
        _ => {
            let t = v.texto();
            Chamado::Feito(Feito::Falha(frase("Nao e possivel converter '", t.as_str(), "' para numero")))
        },
    }
}

fn converter(nome: &str, v: &Valor) -> (r: Chamado)
    ensures
        r@ == convertido(nome@, v@),
{
    if nome.eq("tipo") {
        dar(Valor::Texto(tipo_de(v).to_owned()))
    } else if nome.eq("texto") {
        dar(Valor::Texto(v.texto()))
    } else if nome.eq("booleano") {
        dar(Valor::Booleano(e_verdadeiro(v)))
    } else if nome.eq("numero") {
        converter_numero(v)
    } else {
        match v {
            Valor::Inteiro(_) => dar(v.clone()),
            Valor::Numero(d) => dar(Valor::Inteiro(decimal::para_inteiro(d.bits))),
            Valor::Texto(s) => if nome.eq("inteiro") {
                let t = busca::aparar_texto(s.as_str());
                match busca::ler_inteiro(t.as_str()) {
                    Some(n) => dar(Valor::Inteiro(n)),
                    None => Chamado::Feito(
                        Feito::Falha(frase("Nao e possivel converter '", s.as_str(), "' para inteiro")),
                    ),
                }
            } else {
                requerer(nome, "numero", v)
            },
            _ => requerer(nome, "numero", v),
        }
    }
}

// ---- Ordem dos valores ------------------------------------------------------------------

/// Se um valor vem antes de outro: os inteiros pelo que valem, os numeros com ponto pelo que
/// valem, e os outros pelo que se escreve.
pub open spec fn antes(a: valor::Dado, b: valor::Dado) -> bool {
    match (a, b) {
        (valor::Dado::Inteiro(x), valor::Dado::Inteiro(y)) => x < y,
        (valor::Dado::Numero(x, _), valor::Dado::Numero(y, _)) => decimal::menor(x, y),
        _ => ordem::antes_de(valor::texto_de(a), valor::texto_de(b)),
    }
}

fn vem_antes(a: &Valor, b: &Valor) -> (r: bool)
    ensures
        r == antes(a@, b@),
{
    match (a, b) {
        (Valor::Inteiro(x), Valor::Inteiro(y)) => *x < *y,
        (Valor::Numero(x), Valor::Numero(y)) => decimal::eh_menor(x.bits, y.bits),
        _ => {
            let s = a.texto();
            let t = b.texto();
            ordem::vem_antes(s.as_str(), t.as_str())
        },
    }
}

/// Uma lista ordenada com mais um item, depois dos que nao vem depois dele.
pub open spec fn inserido(l: Seq<valor::Dado>, x: valor::Dado) -> Seq<valor::Dado>
    decreases l.len(),
{
    if l.len() == 0 || !antes(x, l.last()) {
        l.push(x)
    } else {
        inserido(l.drop_last(), x).push(l.last())
    }
}

/// Os itens em ordem; os que empatam ficam como estavam.
pub open spec fn ordenados(l: Seq<valor::Dado>) -> Seq<valor::Dado>
    decreases l.len(),
{
    if l.len() == 0 {
        l
    } else {
        inserido(ordenados(l.drop_last()), l.last())
    }
}

fn inserir(v: &mut Vec<Valor>, x: Valor)
    ensures
        valor::vistos(final(v)@) == inserido(valor::vistos(old(v)@), x@),
{
    let ghost l = valor::vistos(v@);
    let mut resto: Vec<Valor> = Vec::new();
    let mut i: usize = v.len();
    assert(l.take(i as int) =~= l);
    while i > 0 && vem_antes(&x, &v[i - 1])
        invariant
            i <= v@.len(),
            l == valor::vistos(v@),
            inserido(l, x@) == inserido(l.take(i as int), x@) + l.skip(i as int),
        decreases i,
    {
        let ghost w = l.take(i as int);
        assert(w.last() == v@[i - 1]@);
        assert(w.drop_last() =~= l.take(i - 1));
        assert(inserido(w.drop_last(), x@).push(w.last()) + l.skip(i as int) =~= inserido(l.take(i - 1), x@) + l.skip(
            i - 1,
        ));
        i -= 1;
    }
    let ghost w = l.take(i as int);
    proof {
        if i > 0 {
            assert(w.last() == v@[i - 1]@);
        }
    }
    let ghost xv = x@;
    v.insert(i, x);
    assert(valor::vistos(v@) =~= w.push(xv) + l.skip(i as int));
}

fn ordenar(l: &Vec<Valor>) -> (r: Vec<Valor>)
    ensures
        valor::vistos(r@) == ordenados(valor::vistos(l@)),
{
    let ghost lv = valor::vistos(l@);
    let mut r: Vec<Valor> = Vec::new();
    assert(valor::vistos(r@) =~= ordenados(lv.take(0)));
    let mut i: usize = 0;
    while i < l.len()
        invariant
            i <= l@.len(),
            lv == valor::vistos(l@),
            valor::vistos(r@) == ordenados(lv.take(i as int)),
        decreases l@.len() - i,
    {
        let ghost w = lv.take(i + 1);
        assert(w.last() == l@[i as int]@);
        assert(w.drop_last() =~= lv.take(i as int));
        inserir(&mut r, l[i].clone());
        i += 1;
    }
    assert(lv.take(i as int) =~= lv);
    r
}

/// Os valores que se comparam entre si: os inteiros, os numeros com ponto e o que se compara pelo
/// que se escreve.
pub ghost enum Classe {
    Inteiros,
    Numeros,
    Escritos,
}

/// Se um valor e de uma classe; o que nao e numero nao se compara.
pub open spec fn da_classe(v: valor::Dado, k: Classe) -> bool {
    match k {
        Classe::Inteiros => v is Inteiro,
        Classe::Numeros => v matches valor::Dado::Numero(b, _) && !decimal::nao_numero(b),
        Classe::Escritos => !(v is Inteiro) && !(v is Numero),
    }
}

/// Se todos os itens sao de uma classe.
pub open spec fn todos_da_classe(l: Seq<valor::Dado>, k: Classe) -> bool {
    forall|i: int| 0 <= i < l.len() ==> da_classe(#[trigger] l[i], k)
}

/// Se nenhum item vem antes de um anterior.
pub open spec fn crescentes(l: Seq<valor::Dado>) -> bool {
    forall|i: int, j: int| 0 <= i < j < l.len() ==> !antes(#[trigger] l[j], #[trigger] l[i])
}

proof fn lema_antes(a: valor::Dado, b: valor::Dado, c: valor::Dado, k: Classe)
    requires
        da_classe(a, k),
        da_classe(b, k),
        da_classe(c, k),
    ensures
        !antes(b, a) && !antes(c, b) ==> !antes(c, a),
        antes(a, b) ==> !antes(b, a),
{
    if k is Escritos {
        let (x, y, z) = (valor::texto_de(a), valor::texto_de(b), valor::texto_de(c));
        ordem::lema_total(x, y);
        ordem::lema_total(y, z);
        ordem::lema_total(x, z);
        if ordem::antes_de(z, x) && ordem::antes_de(x, y) {
            ordem::lema_transitiva(z, x, y);
        }
    }
}

proof fn lema_inserido(l: Seq<valor::Dado>, x: valor::Dado, k: Classe)
    requires
        todos_da_classe(l, k),
        da_classe(x, k),
        crescentes(l),
    ensures
        todos_da_classe(inserido(l, x), k),
        inserido(l, x).to_multiset() =~= l.to_multiset().insert(x),
        crescentes(inserido(l, x)),
    decreases l.len(),
{
    broadcast use vstd::seq_lib::group_to_multiset_ensures;

    let o = inserido(l, x);
    if l.len() == 0 || !antes(x, l.last()) {
        assert forall|i: int, j: int| 0 <= i < j < o.len() implies !antes(#[trigger] o[j], #[trigger] o[i]) by {
            if j == l.len() && i < l.len() - 1 {
                assert(!antes(l[l.len() - 1], l[i]));
                lema_antes(l[i], l.last(), x, k);
            }
        }
    } else {
        let d = l.drop_last();
        lema_inserido(d, x, k);
        let r = inserido(d, x);
        assert(l =~= d.push(l.last()));
        assert forall|i: int| 0 <= i < r.len() implies !antes(l.last(), #[trigger] r[i]) by {
            assert(r.to_multiset().contains(r[i]));
            if r[i] == x {
                lema_antes(x, l.last(), x, k);
            } else {
                assert(d.to_multiset().contains(r[i]));
                assert(d.contains(r[i]));
                let q = choose|q: int| 0 <= q < d.len() && d[q] == r[i];
                assert(l[q] == r[i]);
                assert(!antes(l[l.len() - 1], l[q]));
            }
        }
    }
}

/// Uma lista so de inteiros, so de numeros com ponto, ou so de textos e outros valores, ordenada
/// tem os mesmos itens, e nenhum vem antes de um anterior.
pub proof fn lei_ordenar(l: Seq<valor::Dado>, k: Classe)
    requires
        todos_da_classe(l, k),
    ensures
        todos_da_classe(ordenados(l), k),
        ordenados(l).to_multiset() =~= l.to_multiset(),
        crescentes(ordenados(l)),
    decreases l.len(),
{
    broadcast use vstd::seq_lib::group_to_multiset_ensures;

    if l.len() > 0 {
        let d = l.drop_last();
        lei_ordenar(d, k);
        assert(l =~= d.push(l.last()));
        lema_inserido(ordenados(d), l.last(), k);
    }
}

// ---- Listas -----------------------------------------------------------------------------

/// Os inteiros de `i` ate antes de `fim`, de um em um.
pub open spec fn inteiros_ate(i: int, fim: int) -> Seq<valor::Dado> {
    Seq::new(
        if i < fim {
            (fim - i) as nat
        } else {
            0
        },
        |k: int| valor::Dado::Inteiro((i + k) as i64),
    )
}

fn fazer_inteiros(i: i64, fim: i64) -> (r: Vec<Valor>)
    ensures
        valor::vistos(r@) == inteiros_ate(i as int, fim as int),
{
    let mut r: Vec<Valor> = Vec::new();
    let mut k: i64 = i;
    while k < fim
        invariant
            i <= k,
            k <= fim || k == i,
            r@.len() == k - i,
            forall|j: int| 0 <= j < k - i ==> (#[trigger] r@[j])@ == valor::Dado::Inteiro((i + j) as i64),
        decreases fim - k,
    {
        r.push(Valor::Inteiro(k));
        k += 1;
    }
    assert(valor::vistos(r@) =~= inteiros_ate(i as int, fim as int));
    r
}

/// Quanto falta para chegar a `fim`.
pub open spec fn distancia(i: int, fim: int, passo: int) -> nat {
    if passo > 0 && i < fim {
        (fim - i) as nat
    } else if passo < 0 && i > fim {
        (i - fim) as nat
    } else {
        0
    }
}

/// Os inteiros a partir de `i`, de `passo` em `passo`, antes de chegar a `fim`; nada se um deles
/// nao cabe.
pub open spec fn inteiros_por(i: int, fim: int, passo: int) -> Option<Seq<valor::Dado>>
    decreases distancia(i, fim, passo),
{
    if passo == 0 || !((passo > 0 && i < fim) || (passo < 0 && i > fim)) {
        Some(Seq::empty())
    } else if !(i64::MIN <= i + passo <= i64::MAX) {
        None
    } else {
        match inteiros_por(i + passo, fim, passo) {
            Some(l) => Some(seq![valor::Dado::Inteiro(i as i64)] + l),
            None => None,
        }
    }
}

fn fazer_por(i: i64, fim: i64, passo: i64) -> (r: Option<Vec<Valor>>)
    requires
        passo != 0,
    ensures
        match r {
            Some(v) => inteiros_por(i as int, fim as int, passo as int) == Some(valor::vistos(v@)),
            None => inteiros_por(i as int, fim as int, passo as int) is None,
        },
{
    let ghost tudo = inteiros_por(i as int, fim as int, passo as int);
    let mut r: Vec<Valor> = Vec::new();
    let mut k: i64 = i;
    proof {
        if let Some(l) = tudo {
            assert(l =~= valor::vistos(r@) + l);
        }
    }
    while (passo > 0 && k < fim) || (passo < 0 && k > fim)
        invariant
            passo != 0,
            tudo == inteiros_por(i as int, fim as int, passo as int),
            match inteiros_por(k as int, fim as int, passo as int) {
                Some(l) => tudo == Some(valor::vistos(r@) + l),
                None => tudo is None,
            },
        decreases distancia(k as int, fim as int, passo as int),
    {
        let ghost antes = r@;
        match k.checked_add(passo) {
            Some(p) => {
                proof {
                    if let Some(l) = inteiros_por(p as int, fim as int, passo as int) {
                        assert(valor::vistos(antes) + (seq![valor::Dado::Inteiro(k)] + l) =~= valor::vistos(
                            antes,
                        ).push(valor::Dado::Inteiro(k)) + l);
                    }
                }
                r.push(Valor::Inteiro(k));
                assert(valor::vistos(r@) =~= valor::vistos(antes).push(valor::Dado::Inteiro(k)));
                k = p;
            },
            None => return None,
        }
    }
    assert(valor::vistos(r@) + Seq::<valor::Dado>::empty() =~= valor::vistos(r@));
    Some(r)
}

/// A posicao do primeiro item igual a `v`.
pub open spec fn indice(l: Seq<valor::Dado>, v: valor::Dado, i: int) -> int
    decreases l.len() - i,
{
    if i < 0 || i >= l.len() {
        -1
    } else if valor::iguais(l[i], v) {
        i
    } else {
        indice(l, v, i + 1)
    }
}

fn achar_indice(l: &Vec<Valor>, v: &Valor) -> (r: i64)
    ensures
        r == indice(valor::vistos(l@), v@, 0) as i64,
{
    let ghost lv = valor::vistos(l@);
    let mut i: usize = 0;
    while i < l.len()
        invariant
            i <= l@.len(),
            lv == valor::vistos(l@),
            indice(lv, v@, 0) == indice(lv, v@, i as int),
        decreases l@.len() - i,
    {
        assert(lv[i as int] == l@[i as int]@);
        if l[i].igual(v) {
            return #[verifier::truncate]
            (i as i64);
        }
        i += 1;
    }
    -1
}

/// Uma parte de uma sequencia: os limites que passam do fim valem o fim, e nao ha parte que acabe
/// antes de comecar.
pub open spec fn fatia<T>(s: Seq<T>, ini: i64, fim: i64) -> Option<Seq<T>> {
    let a = limitado(ini as usize as int, s.len());
    let b = limitado(fim as usize as int, s.len());
    if a <= b {
        Some(s.subrange(a, b))
    } else {
        None
    }
}

/// Um indice que nao passa do fim.
pub open spec fn limitado(i: int, n: nat) -> int {
    if i < n {
        i
    } else {
        n as int
    }
}

pub(crate) fn limitar(i: i64, n: usize) -> (r: usize)
    ensures
        r == limitado(i as usize as int, n as nat),
{
    let k =
        #[verifier::truncate]
        (i as usize);
    if k < n {
        k
    } else {
        n
    }
}

fn fatiar(l: &Vec<Valor>, ini: i64, fim: i64) -> (r: Chamado)
    ensures
        r@ == (match fatia(valor::vistos(l@), ini, fim) {
            Some(s) => nativas_arvore::da(valor::Dado::Lista(s)),
            None => nativas_arvore::ChamadoVisto::Feito(aplicar::FeitoVisto::Panico),
        }),
{
    let a = limitar(ini, l.len());
    let b = limitar(fim, l.len());
    if a > b {
        return Chamado::Feito(Feito::Panico);
    }
    let mut r: Vec<Valor> = Vec::new();
    let mut i: usize = a;
    while i < b
        invariant
            a <= i <= b <= l@.len(),
            r@.len() == i - a,
            forall|k: int| 0 <= k < i - a ==> (#[trigger] r@[k])@ == l@[a + k]@,
        decreases b - i,
    {
        r.push(l[i].clone());
        i += 1;
    }
    assert(valor::vistos(r@) =~= valor::vistos(l@).subrange(a as int, b as int));
    dar(Valor::Lista(r))
}

fn inverter(l: &Vec<Valor>) -> (r: Vec<Valor>)
    ensures
        valor::vistos(r@) == valor::vistos(l@).reverse(),
{
    let mut r: Vec<Valor> = Vec::new();
    let mut i: usize = l.len();
    while i > 0
        invariant
            i <= l@.len(),
            r@.len() == l@.len() - i,
            forall|k: int| 0 <= k < l@.len() - i ==> (#[trigger] r@[k])@ == l@[l@.len() - 1 - k]@,
        decreases i,
    {
        r.push(l[i - 1].clone());
        i -= 1;
    }
    assert(valor::vistos(r@) =~= valor::vistos(l@).reverse());
    r
}

/// As funcoes de um valor.
pub open spec fn de_um(nome: Seq<char>, v: valor::Dado) -> nativas_arvore::ChamadoVisto {
    if nome == "tamanho"@ {
        match v {
            valor::Dado::Lista(l) => nativas_arvore::da(valor::Dado::Inteiro(l.len() as i64)),
            valor::Dado::Texto(s) => nativas_arvore::da(valor::Dado::Inteiro(s.len() as i64)),
            valor::Dado::Mapa(m) => nativas_arvore::da(valor::Dado::Inteiro(m.len() as i64)),
            _ => nativas_arvore::requer(nome, "lista, texto ou mapa"@, v),
        }
    } else if nome == "ordenar"@ {
        match v {
            valor::Dado::Lista(l) => nativas_arvore::da(valor::Dado::Lista(ordenados(l))),
            _ => nativas_arvore::requer(nome, "lista"@, v),
        }
    } else {
        match v {
            valor::Dado::Lista(l) => nativas_arvore::da(valor::Dado::Lista(l.reverse())),
            _ => nativas_arvore::requer(nome, "lista"@, v),
        }
    }
}

fn com_um(nome: &str, v: &Valor) -> (r: Chamado)
    ensures
        r@ == de_um(nome@, v@),
{
    if nome.eq("tamanho") {
        match v {
            Valor::Lista(l) => {
                assert(valor::vistos(l@).len() == l@.len());
                dar(
                    Valor::Inteiro(
                        #[verifier::truncate]
                        (l.len() as i64),
                    ),
                )
            },
            Valor::Texto(s) => {
                let cs = texto::caracteres(s.as_str());
                dar(
                    Valor::Inteiro(
                        #[verifier::truncate]
                        (cs.len() as i64),
                    ),
                )
            },
            Valor::Mapa(m) => {
                assert(valor::pares_vistos(m@).len() == m@.len());
                dar(
                    Valor::Inteiro(
                        #[verifier::truncate]
                        (m.len() as i64),
                    ),
                )
            },
            _ => requerer(nome, "lista, texto ou mapa", v),
        }
    } else if nome.eq("ordenar") {
        match v {
            Valor::Lista(l) => dar(Valor::Lista(ordenar(l))),
            _ => requerer(nome, "lista", v),
        }
    } else {
        match v {
            Valor::Lista(l) => dar(Valor::Lista(inverter(l))),
            _ => requerer(nome, "lista", v),
        }
    }
}

/// As funcoes de uma lista e outro valor.
pub open spec fn de_lista(nome: Seq<char>, a: valor::Dado, b: valor::Dado) -> nativas_arvore::ChamadoVisto {
    if nome == "mapear"@ {
        match a {
            valor::Dado::Lista(l) => nativas_arvore::ChamadoVisto::Mapear(l, b),
            _ => nativas_arvore::requer(nome, "lista"@, a),
        }
    } else if nome == "filtrar"@ {
        match a {
            valor::Dado::Lista(l) => nativas_arvore::ChamadoVisto::Filtrar(l, b),
            _ => nativas_arvore::requer(nome, "lista"@, a),
        }
    } else if nome == "adicionar"@ {
        match a {
            valor::Dado::Lista(l) => nativas_arvore::da(valor::Dado::Lista(l.push(b))),
            _ => nativas_arvore::requer(nome, "uma lista"@, a),
        }
    } else if nome == "remover"@ {
        match (a, b) {
            (valor::Dado::Lista(l), valor::Dado::Inteiro(n)) => {
                let i = n as usize as int;
                if i < l.len() {
                    nativas_arvore::da(valor::Dado::Lista(l.remove(i)))
                } else {
                    nativas_arvore::falha("Indice "@ + texto::decimal(i as nat) + " fora dos limites"@)
                }
            },
            _ => nativas_arvore::falha("'remover' requer (lista, numero)"@),
        }
    } else if nome == "contem"@ {
        match a {
            valor::Dado::Lista(l) => nativas_arvore::da(valor::Dado::Booleano(aplicar::esta_na_lista(l, b))),
            _ => nativas_arvore::requer(nome, "lista"@, a),
        }
    } else {
        match a {
            valor::Dado::Lista(l) => nativas_arvore::da(valor::Dado::Inteiro(indice(l, b, 0) as i64)),
            _ => nativas_arvore::requer(nome, "lista"@, a),
        }
    }
}

fn com_lista(nome: &str, a: &Valor, b: &Valor) -> (r: Chamado)
    ensures
        r@ == de_lista(nome@, a@, b@),
{
    if nome.eq("mapear") {
        match a {
            Valor::Lista(l) => Chamado::Mapear(copiar_lista(l), b.clone()),
            _ => requerer(nome, "lista", a),
        }
    } else if nome.eq("filtrar") {
        match a {
            Valor::Lista(l) => Chamado::Filtrar(copiar_lista(l), b.clone()),
            _ => requerer(nome, "lista", a),
        }
    } else if nome.eq("adicionar") {
        match a {
            Valor::Lista(l) => {
                let mut r = copiar_lista(l);
                let ghost antes = r@;
                r.push(b.clone());
                assert(valor::vistos(r@) =~= valor::vistos(antes).push(b@));
                dar(Valor::Lista(r))
            },
            _ => requerer(nome, "uma lista", a),
        }
    } else if nome.eq("remover") {
        match (a, b) {
            (Valor::Lista(l), Valor::Inteiro(n)) => {
                let i =
                    #[verifier::truncate]
                    (*n as usize);
                if i < l.len() {
                    let mut r = copiar_lista(l);
                    let ghost antes = r@;
                    let _x = r.remove(i);
                    assert(valor::vistos(r@) =~= valor::vistos(antes).remove(i as int));
                    dar(Valor::Lista(r))
                } else {
                    let t = texto::natural(i as u64);
                    Chamado::Feito(Feito::Falha(frase("Indice ", t.as_str(), " fora dos limites")))
                }
            },
            _ => falhar("'remover' requer (lista, numero)"),
        }
    } else if nome.eq("contem") {
        match a {
            Valor::Lista(l) => dar(Valor::Booleano(tem_na_lista(l, b))),
            _ => requerer(nome, "lista", a),
        }
    } else {
        match a {
            Valor::Lista(l) => dar(Valor::Inteiro(achar_indice(l, b))),
            _ => requerer(nome, "lista", a),
        }
    }
}

/// Um intervalo.
pub open spec fn intervalo(a: Seq<valor::Dado>) -> nativas_arvore::ChamadoVisto {
    if a.len() == 1 && a[0] is Inteiro {
        nativas_arvore::da(valor::Dado::Lista(inteiros_ate(0, a[0]->Inteiro_0 as int)))
    } else if a.len() == 2 && a[0] is Inteiro && a[1] is Inteiro {
        nativas_arvore::da(valor::Dado::Lista(inteiros_ate(a[0]->Inteiro_0 as int, a[1]->Inteiro_0 as int)))
    } else if a.len() >= 3 && a[0] is Inteiro && a[1] is Inteiro && a[2] is Inteiro {
        if a[2]->Inteiro_0 == 0 {
            nativas_arvore::falha("intervalo: passo nao pode ser zero"@)
        } else {
            match inteiros_por(a[0]->Inteiro_0 as int, a[1]->Inteiro_0 as int, a[2]->Inteiro_0 as int) {
                Some(l) => nativas_arvore::da(valor::Dado::Lista(l)),
                None => nativas_arvore::ChamadoVisto::Feito(aplicar::FeitoVisto::Panico),
            }
        }
    } else {
        nativas_arvore::falha("intervalo(fim) ou intervalo(ini, fim) ou intervalo(ini, fim, passo)"@)
    }
}

fn fazer_intervalo(args: &Vec<Valor>) -> (r: Chamado)
    ensures
        r@ == intervalo(valor::vistos(args@)),
{
    let ghost a = valor::vistos(args@);
    assert(a.len() == args@.len());
    let m = "intervalo(fim) ou intervalo(ini, fim) ou intervalo(ini, fim, passo)";
    if args.len() == 0 {
        return falhar(m);
    }
    assert(a[0] == args@[0]@);
    let x = match &args[0] {
        Valor::Inteiro(n) => *n,
        _ => return falhar(m),
    };
    if args.len() == 1 {
        return dar(Valor::Lista(fazer_inteiros(0, x)));
    }
    assert(a[1] == args@[1]@);
    let y = match &args[1] {
        Valor::Inteiro(n) => *n,
        _ => return falhar(m),
    };
    if args.len() == 2 {
        return dar(Valor::Lista(fazer_inteiros(x, y)));
    }
    assert(a[2] == args@[2]@);
    let p = match &args[2] {
        Valor::Inteiro(n) => *n,
        _ => return falhar(m),
    };
    if p == 0 {
        return falhar("intervalo: passo nao pode ser zero");
    }
    match fazer_por(x, y, p) {
        Some(l) => dar(Valor::Lista(l)),
        None => Chamado::Feito(Feito::Panico),
    }
}

/// A reducao de uma lista, com ou sem valor inicial.
pub open spec fn reducao(a: Seq<valor::Dado>) -> nativas_arvore::ChamadoVisto {
    if a.len() == 3 && a[0] is Lista {
        nativas_arvore::ChamadoVisto::Reduzir(a[0]->Lista_0, a[1], a[2])
    } else if a.len() == 2 && a[0] is Lista && a[0]->Lista_0.len() > 0 {
        nativas_arvore::ChamadoVisto::Reduzir(a[0]->Lista_0.skip(1), a[1], a[0]->Lista_0[0])
    } else {
        nativas_arvore::falha("reduzir(lista, funcao, inicial?)"@)
    }
}

fn fazer_reducao(args: &Vec<Valor>) -> (r: Chamado)
    ensures
        r@ == reducao(valor::vistos(args@)),
{
    let ghost a = valor::vistos(args@);
    assert(a.len() == args@.len());
    if args.len() == 3 || args.len() == 2 {
        assert(a[0] == args@[0]@ && a[1] == args@[1]@);
        if let Valor::Lista(l) = &args[0] {
            assert(valor::vistos(l@).len() == l@.len());
            if args.len() == 3 {
                assert(a[2] == args@[2]@);
                return Chamado::Reduzir(copiar_lista(l), args[1].clone(), args[2].clone());
            }
            if l.len() > 0 {
                let mut r = copiar_lista(l);
                let ghost antes = r@;
                assert(valor::vistos(antes)[0] == antes[0]@);
                let primeiro = r.remove(0);
                assert(valor::vistos(r@) =~= valor::vistos(antes).skip(1));
                return Chamado::Reduzir(r, args[1].clone(), primeiro);
            }
        }
    }
    falhar("reduzir(lista, funcao, inicial?)")
}

// ---- Mapas ------------------------------------------------------------------------------

/// As chaves de um mapa, como textos.
pub open spec fn chaves_de(m: valor::Escopo) -> Seq<Seq<char>> {
    m.map_values(|p: (Seq<char>, valor::Dado)| p.0)
}

/// Os valores de um mapa, pela ordem em que as chaves entraram.
pub open spec fn valores_de(m: valor::Escopo) -> Seq<valor::Dado> {
    m.map_values(|p: (Seq<char>, valor::Dado)| p.1)
}

/// Uma lista de textos como valores.
pub open spec fn em_valores(v: Seq<Seq<char>>) -> Seq<valor::Dado> {
    v.map_values(|s: Seq<char>| valor::Dado::Texto(s))
}

/// Os pares de um mapa, cada um um mapa com a chave e o valor.
pub open spec fn pares_de(m: valor::Escopo) -> Seq<valor::Dado> {
    m.map_values(
        |p: (Seq<char>, valor::Dado)|
            valor::Dado::Mapa(seq![("chave"@, valor::Dado::Texto(p.0)), ("valor"@, p.1)]),
    )
}

/// Uma lista de textos como valores.
pub fn textos_em_valores(v: Vec<String>) -> (r: Vec<Valor>)
    ensures
        valor::vistos(r@) == em_valores(texto::textos(v@)),
{
    let mut r: Vec<Valor> = Vec::new();
    let mut i: usize = 0;
    while i < v.len()
        invariant
            i <= v@.len(),
            r@.len() == i,
            forall|k: int| 0 <= k < i ==> (#[trigger] r@[k])@ == valor::Dado::Texto(v@[k]@),
        decreases v@.len() - i,
    {
        r.push(Valor::Texto(v[i].clone()));
        i += 1;
    }
    assert(valor::vistos(r@) =~= em_valores(texto::textos(v@)));
    r
}

fn listar_chaves(m: &Vec<(String, Valor)>) -> (r: Vec<String>)
    ensures
        texto::textos(r@) == chaves_de(valor::pares_vistos(m@)),
{
    let mut r: Vec<String> = Vec::new();
    let mut i: usize = 0;
    while i < m.len()
        invariant
            i <= m@.len(),
            r@.len() == i,
            forall|k: int| 0 <= k < i ==> (#[trigger] r@[k])@ == m@[k].0@,
        decreases m@.len() - i,
    {
        r.push(m[i].0.clone());
        i += 1;
    }
    assert(texto::textos(r@) =~= chaves_de(valor::pares_vistos(m@)));
    r
}

fn listar_valores(m: &Vec<(String, Valor)>) -> (r: Vec<Valor>)
    ensures
        valor::vistos(r@) == valores_de(valor::pares_vistos(m@)),
{
    let mut r: Vec<Valor> = Vec::new();
    let mut i: usize = 0;
    while i < m.len()
        invariant
            i <= m@.len(),
            r@.len() == i,
            forall|k: int| 0 <= k < i ==> (#[trigger] r@[k])@ == m@[k].1@,
        decreases m@.len() - i,
    {
        r.push(m[i].1.clone());
        i += 1;
    }
    assert(valor::vistos(r@) =~= valores_de(valor::pares_vistos(m@)));
    r
}

fn listar_pares(m: &Vec<(String, Valor)>) -> (r: Vec<Valor>)
    ensures
        valor::vistos(r@) == pares_de(valor::pares_vistos(m@)),
{
    let mut r: Vec<Valor> = Vec::new();
    let mut i: usize = 0;
    while i < m.len()
        invariant
            i <= m@.len(),
            r@.len() == i,
            forall|k: int|
                0 <= k < i ==> (#[trigger] r@[k])@ == valor::Dado::Mapa(
                    seq![("chave"@, valor::Dado::Texto(m@[k].0@)), ("valor"@, m@[k].1@)],
                ),
        decreases m@.len() - i,
    {
        let mut p: Vec<(String, Valor)> = Vec::new();
        p.push(("chave".to_owned(), Valor::Texto(m[i].0.clone())));
        p.push(("valor".to_owned(), m[i].1.clone()));
        assert(valor::pares_vistos(p@) =~= seq![
            ("chave"@, valor::Dado::Texto(m@[i as int].0@)),
            ("valor"@, m@[i as int].1@),
        ]);
        r.push(Valor::Mapa(p));
        i += 1;
    }
    assert(valor::vistos(r@) =~= pares_de(valor::pares_vistos(m@)));
    r
}

/// As funcoes de um mapa.
pub open spec fn de_um_mapa(nome: Seq<char>, v: valor::Dado) -> nativas_arvore::ChamadoVisto {
    match v {
        valor::Dado::Mapa(m) => if nome == "mapa_chaves"@ {
            nativas_arvore::da(valor::Dado::Lista(em_valores(ordem::ordenadas(chaves_de(m)))))
        } else if nome == "mapa_valores"@ {
            nativas_arvore::da(valor::Dado::Lista(valores_de(m)))
        } else {
            nativas_arvore::da(valor::Dado::Lista(ordenados(pares_de(m))))
        },
        _ => nativas_arvore::requer(nome, "mapa"@, v),
    }
}

fn com_um_mapa(nome: &str, v: &Valor) -> (r: Chamado)
    ensures
        r@ == de_um_mapa(nome@, v@),
{
    match v {
        Valor::Mapa(m) => if nome.eq("mapa_chaves") {
            dar(Valor::Lista(textos_em_valores(ordem::ordenar(listar_chaves(m)))))
        } else if nome.eq("mapa_valores") {
            dar(Valor::Lista(listar_valores(m)))
        } else {
            let l = listar_pares(m);
            dar(Valor::Lista(ordenar(&l)))
        },
        _ => requerer(nome, "mapa", v),
    }
}

/// O valor de uma chave, ou outro se ela falta.
pub open spec fn valor_ou(m: valor::Escopo, k: Seq<char>, padrao: valor::Dado) -> valor::Dado {
    match valor::valor_de(m, k) {
        Some(v) => v,
        None => padrao,
    }
}

/// As funcoes de um mapa e uma chave.
pub open spec fn de_chave(nome: Seq<char>, a: valor::Dado, b: valor::Dado) -> nativas_arvore::ChamadoVisto {
    match (a, b) {
        (valor::Dado::Mapa(m), valor::Dado::Texto(k)) => if nome == "mapa_obter"@ {
            nativas_arvore::da(valor_ou(m, k, valor::Dado::Nulo))
        } else if nome == "mapa_tem"@ {
            nativas_arvore::da(valor::Dado::Booleano(valor::valor_de(m, k) is Some))
        } else {
            nativas_arvore::da(valor::Dado::Mapa(valor::sem_chave(m, k)))
        },
        _ => nativas_arvore::falha(nome + "(mapa, \"chave\")"@),
    }
}

fn com_chave(nome: &str, a: &Valor, b: &Valor) -> (r: Chamado)
    ensures
        r@ == de_chave(nome@, a@, b@),
{
    match (a, b) {
        (Valor::Mapa(m), Valor::Texto(k)) => if nome.eq("mapa_obter") {
            dar(obter_ou_nulo(m, k.as_str()))
        } else if nome.eq("mapa_tem") {
            dar(Valor::Booleano(achar_chave(m, k.as_str()).is_some()))
        } else {
            let mut r = copiar_pares(m);
            tirar(&mut r, k.as_str());
            dar(Valor::Mapa(r))
        },
        _ => {
            let mut s = nome.to_owned();
            s.append("(mapa, \"chave\")");
            Chamado::Feito(Feito::Falha(s))
        },
    }
}

/// O valor de uma chave, com um valor para quando ela falta.
pub open spec fn obtencao(a: Seq<valor::Dado>) -> nativas_arvore::ChamadoVisto {
    if a.len() == 2 && a[0] is Mapa && a[1] is Texto {
        nativas_arvore::da(valor_ou(a[0]->Mapa_0, a[1]->Texto_0, valor::Dado::Nulo))
    } else if a.len() == 3 && a[0] is Mapa && a[1] is Texto {
        nativas_arvore::da(valor_ou(a[0]->Mapa_0, a[1]->Texto_0, a[2]))
    } else {
        nativas_arvore::falha("obter(mapa, chave, padrao?)"@)
    }
}

fn obter(args: &Vec<Valor>) -> (r: Chamado)
    ensures
        r@ == obtencao(valor::vistos(args@)),
{
    let ghost a = valor::vistos(args@);
    assert(a.len() == args@.len());
    if args.len() == 2 || args.len() == 3 {
        assert(a[0] == args@[0]@ && a[1] == args@[1]@);
        if let (Valor::Mapa(m), Valor::Texto(k)) = (&args[0], &args[1]) {
            if args.len() == 2 {
                return dar(obter_ou_nulo(m, k.as_str()));
            }
            assert(a[2] == args@[2]@);
            return match achar_chave(m, k.as_str()) {
                Some(i) => {
                    assert(valor::pares_vistos(m@)[i as int].1 == m@[i as int].1@);
                    dar(m[i].1.clone())
                },
                None => dar(args[2].clone()),
            };
        }
    }
    falhar("obter(mapa, chave, padrao?)")
}

// ---- Erros ------------------------------------------------------------------------------

/// O que se le de um erro.
pub open spec fn de_erro(nome: Seq<char>, v: valor::Dado) -> nativas_arvore::ChamadoVisto {
    match v {
        valor::Dado::Erro { tipo, mensagem, pilha } => if nome == "tipo_erro"@ {
            nativas_arvore::da(valor::Dado::Texto(tipo))
        } else if nome == "mensagem_erro"@ {
            nativas_arvore::da(valor::Dado::Texto(mensagem))
        } else {
            nativas_arvore::da(valor::Dado::Lista(em_valores(pilha)))
        },
        _ => nativas_arvore::requer(nome, "um Erro"@, v),
    }
}

fn copiar_textos(v: &Vec<String>) -> (r: Vec<String>)
    ensures
        texto::textos(r@) == texto::textos(v@),
{
    let mut r: Vec<String> = Vec::new();
    let mut i: usize = 0;
    while i < v.len()
        invariant
            i <= v@.len(),
            r@.len() == i,
            forall|k: int| 0 <= k < i ==> (#[trigger] r@[k])@ == v@[k]@,
        decreases v@.len() - i,
    {
        r.push(v[i].clone());
        i += 1;
    }
    assert(texto::textos(r@) =~= texto::textos(v@));
    r
}

fn com_erro(nome: &str, v: &Valor) -> (r: Chamado)
    ensures
        r@ == de_erro(nome@, v@),
{
    match v {
        Valor::Erro { tipo, mensagem, pilha } => if nome.eq("tipo_erro") {
            dar(Valor::Texto(tipo.clone()))
        } else if nome.eq("mensagem_erro") {
            dar(Valor::Texto(mensagem.clone()))
        } else {
            dar(Valor::Lista(textos_em_valores(copiar_textos(pilha))))
        },
        _ => requerer(nome, "um Erro", v),
    }
}

/// Um erro novo.
pub open spec fn erro_novo(a: Seq<valor::Dado>) -> nativas_arvore::ChamadoVisto {
    if a.len() == 1 {
        nativas_arvore::ChamadoVisto::Erro("Erro"@, valor::texto_de(a[0]))
    } else if a.len() == 2 {
        match a[0] {
            valor::Dado::Texto(t) => nativas_arvore::ChamadoVisto::Erro(t, valor::texto_de(a[1])),
            v => nativas_arvore::recusa("'Erro' requer tipo em texto, recebeu "@, v),
        }
    } else {
        nativas_arvore::falha("'Erro' espera 1 ou 2 argumentos, recebeu "@ + texto::decimal(a.len()))
    }
}

fn criar_erro(args: &Vec<Valor>) -> (r: Chamado)
    ensures
        r@ == erro_novo(valor::vistos(args@)),
{
    let ghost a = valor::vistos(args@);
    assert(a.len() == args@.len());
    if args.len() == 1 {
        assert(a[0] == args@[0]@);
        Chamado::Erro("Erro".to_owned(), args[0].texto())
    } else if args.len() == 2 {
        assert(a[0] == args@[0]@ && a[1] == args@[1]@);
        match &args[0] {
            Valor::Texto(t) => Chamado::Erro(t.clone(), args[1].texto()),
            _ => recusar("'Erro' requer tipo em texto, recebeu ", &args[0]),
        }
    } else {
        let mut s = "'Erro' espera 1 ou 2 argumentos, recebeu ".to_owned();
        s.append(texto::natural(args.len() as u64).as_str());
        Chamado::Feito(Feito::Falha(s))
    }
}

// ---- Todas ------------------------------------------------------------------------------

/// As funcoes de um argumento.
pub open spec fn com_um_argumento(nome: Seq<char>, v: valor::Dado) -> Option<nativas_arvore::ChamadoVisto> {
    if nome == "tipo"@ || nome == "texto"@ || nome == "booleano"@ || nome == "numero"@ || nome == "inteiro"@ || nome
        == "truncar"@ {
        Some(convertido(nome, v))
    } else if nome == "tamanho"@ || nome == "ordenar"@ || nome == "inverter_lista"@ {
        Some(de_um(nome, v))
    } else if nome == "mapa_chaves"@ || nome == "mapa_valores"@ || nome == "mapa_para_lista"@ {
        Some(de_um_mapa(nome, v))
    } else if nome == "tipo_erro"@ || nome == "mensagem_erro"@ || nome == "pilha_erro"@ {
        Some(de_erro(nome, v))
    } else if nome == "capturar_saida"@ {
        Some(nativas_arvore::ChamadoVisto::Capturar(v))
    } else {
        None
    }
}

/// As funcoes de dois argumentos.
pub open spec fn com_dois_argumentos(
    nome: Seq<char>,
    a: valor::Dado,
    b: valor::Dado,
) -> Option<nativas_arvore::ChamadoVisto> {
    if nome == "mapear"@ || nome == "filtrar"@ || nome == "adicionar"@ || nome == "remover"@ || nome == "contem"@
        || nome == "indice_de"@ {
        Some(de_lista(nome, a, b))
    } else if nome == "mapa_obter"@ || nome == "mapa_tem"@ || nome == "mapa_remover"@ {
        Some(de_chave(nome, a, b))
    } else {
        None
    }
}

/// As funcoes deste modulo.
pub open spec fn de_valores(nome: Seq<char>, a: Seq<valor::Dado>) -> Option<nativas_arvore::ChamadoVisto> {
    if com_um_argumento(nome, valor::Dado::Nulo) is Some {
        if a.len() != 1 {
            Some(nativas_arvore::quer(nome, 1, a.len()))
        } else {
            com_um_argumento(nome, a[0])
        }
    } else if com_dois_argumentos(nome, valor::Dado::Nulo, valor::Dado::Nulo) is Some {
        if a.len() != 2 {
            Some(nativas_arvore::quer(nome, 2, a.len()))
        } else {
            com_dois_argumentos(nome, a[0], a[1])
        }
    } else if nome == "intervalo"@ {
        Some(intervalo(a))
    } else if nome == "reduzir"@ {
        Some(reducao(a))
    } else if nome == "fatiar"@ {
        Some(
            if a.len() >= 3 && a[0] is Lista && a[1] is Inteiro && a[2] is Inteiro {
                match fatia(a[0]->Lista_0, a[1]->Inteiro_0, a[2]->Inteiro_0) {
                    Some(s) => nativas_arvore::da(valor::Dado::Lista(s)),
                    None => nativas_arvore::ChamadoVisto::Feito(aplicar::FeitoVisto::Panico),
                }
            } else {
                nativas_arvore::falha("fatiar(lista, inicio, fim)"@)
            },
        )
    } else if nome == "mapa"@ {
        Some(nativas_arvore::da(valor::Dado::Mapa(Seq::empty())))
    } else if nome == "mapa_definir"@ {
        Some(
            if a.len() != 3 {
                nativas_arvore::quer(nome, 3, a.len())
            } else if a[0] is Mapa && a[1] is Texto {
                nativas_arvore::da(valor::Dado::Mapa(valor::com_valor(a[0]->Mapa_0, a[1]->Texto_0, a[2])))
            } else {
                nativas_arvore::falha("mapa_definir(mapa, \"chave\", valor)"@)
            },
        )
    } else if nome == "obter"@ {
        Some(obtencao(a))
    } else if nome == "Erro"@ {
        Some(erro_novo(a))
    } else {
        None
    }
}

fn escolher_um(nome: &str, v: &Valor) -> (r: Option<Chamado>)
    ensures
        nativas_arvore::talvez(r) == com_um_argumento(nome@, v@),
{
    if nome.eq("tipo") || nome.eq("texto") || nome.eq("booleano") || nome.eq("numero") || nome.eq("inteiro")
        || nome.eq("truncar") {
        Some(converter(nome, v))
    } else if nome.eq("tamanho") || nome.eq("ordenar") || nome.eq("inverter_lista") {
        Some(com_um(nome, v))
    } else if nome.eq("mapa_chaves") || nome.eq("mapa_valores") || nome.eq("mapa_para_lista") {
        Some(com_um_mapa(nome, v))
    } else if nome.eq("tipo_erro") || nome.eq("mensagem_erro") || nome.eq("pilha_erro") {
        Some(com_erro(nome, v))
    } else if nome.eq("capturar_saida") {
        Some(Chamado::Capturar(v.clone()))
    } else {
        None
    }
}

fn escolher_dois(nome: &str, a: &Valor, b: &Valor) -> (r: Option<Chamado>)
    ensures
        nativas_arvore::talvez(r) == com_dois_argumentos(nome@, a@, b@),
{
    if nome.eq("mapear") || nome.eq("filtrar") || nome.eq("adicionar") || nome.eq("remover") || nome.eq("contem")
        || nome.eq("indice_de") {
        Some(com_lista(nome, a, b))
    } else if nome.eq("mapa_obter") || nome.eq("mapa_tem") || nome.eq("mapa_remover") {
        Some(com_chave(nome, a, b))
    } else {
        None
    }
}

fn com_tres(nome: &str, args: &Vec<Valor>) -> (r: Option<Chamado>)
    requires
        com_um_argumento(nome@, valor::Dado::Nulo) is None,
        com_dois_argumentos(nome@, valor::Dado::Nulo, valor::Dado::Nulo) is None,
    ensures
        nativas_arvore::talvez(r) == de_valores(nome@, valor::vistos(args@)),
{
    let ghost a = valor::vistos(args@);
    assert(a.len() == args@.len());
    if nome.eq("intervalo") {
        Some(fazer_intervalo(args))
    } else if nome.eq("reduzir") {
        Some(fazer_reducao(args))
    } else if nome.eq("fatiar") {
        if args.len() >= 3 {
            assert(a[0] == args@[0]@ && a[1] == args@[1]@ && a[2] == args@[2]@);
            if let (Valor::Lista(l), Valor::Inteiro(i), Valor::Inteiro(f)) = (&args[0], &args[1], &args[2]) {
                return Some(fatiar(l, *i, *f));
            }
        }
        Some(falhar("fatiar(lista, inicio, fim)"))
    } else if nome.eq("mapa") {
        let m: Vec<(String, Valor)> = Vec::new();
        assert(valor::pares_vistos(m@) =~= Seq::empty());
        Some(dar(Valor::Mapa(m)))
    } else if nome.eq("mapa_definir") {
        if args.len() != 3 {
            return Some(querer(nome, 3, args.len()));
        }
        assert(a[0] == args@[0]@ && a[1] == args@[1]@ && a[2] == args@[2]@);
        if let (Valor::Mapa(m), Valor::Texto(k)) = (&args[0], &args[1]) {
            let mut r = copiar_pares(m);
            guardar(&mut r, k.clone(), args[2].clone());
            return Some(dar(Valor::Mapa(r)));
        }
        Some(falhar("mapa_definir(mapa, \"chave\", valor)"))
    } else if nome.eq("obter") {
        Some(obter(args))
    } else if nome.eq("Erro") {
        Some(criar_erro(args))
    } else {
        None
    }
}

/// As funcoes deste modulo.
pub fn com_valores(nome: &str, args: &Vec<Valor>) -> (r: Option<Chamado>)
    ensures
        nativas_arvore::talvez(r) == de_valores(nome@, valor::vistos(args@)),
{
    let ghost a = valor::vistos(args@);
    assert(a.len() == args@.len());
    if escolher_um(nome, &Valor::Nulo).is_some() {
        if args.len() != 1 {
            return Some(querer(nome, 1, args.len()));
        }
        assert(a[0] == args@[0]@);
        return escolher_um(nome, &args[0]);
    }
    if escolher_dois(nome, &Valor::Nulo, &Valor::Nulo).is_some() {
        if args.len() != 2 {
            return Some(querer(nome, 2, args.len()));
        }
        assert(a[0] == args@[0]@ && a[1] == args@[1]@);
        return escolher_dois(nome, &args[0], &args[1]);
    }
    com_tres(nome, args)
}

} // verus!
