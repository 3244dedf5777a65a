//! Leis das funcoes nativas da maquina de pilha: listas, mapas, textos e conversoes.

use vstd::prelude::*;
use crate::busca;
use crate::decimal;
use crate::maquina;
use crate::nativas;
use crate::operacoes;
use crate::texto;
use crate::vm;

verus! {

proof fn lema_nomes()
    ensures
        "tensor_para_gpu"@.len() == 15,
        "tensor_dispositivo"@.len() == 18,
        "tensor_para_metal"@.len() == 17,
        "tensor_para_cpu"@.len() == 15,
        "texto"@.len() == 5,
        "numero"@.len() == 6,
        "numero"@[0] == 'n',
        "inteiro"@.len() == 7,
        "inteiro"@[0] == 'i',
        "tipo"@.len() == 4,
        "tipo"@[0] == 't',
        "maiusculas"@.len() == 10,
        "maiusculas"@[1] == 'a',
        "maiusculas"@[2] == 'i',
        "minusculas"@.len() == 10,
        "minusculas"@[1] == 'i',
        "aparar"@.len() == 6,
        "aparar"@[0] == 'a',
        "html_escapar"@.len() == 12,
        "html_escapar"@[0] == 'h',
        "substituir"@.len() == 10,
        "substituir"@[1] == 'u',
        "dividir"@.len() == 7,
        "dividir"@[0] == 'd',
        "juntar"@.len() == 6,
        "juntar"@[0] == 'j',
        "contem_texto"@.len() == 12,
        "contem_texto"@[0] == 'c',
        "tamanho"@.len() == 7,
        "tamanho"@[0] == 't',
        "adicionar"@.len() == 9,
        "adicionar"@[0] == 'a',
        "remover"@.len() == 7,
        "remover"@[0] == 'r',
        "intervalo"@.len() == 9,
        "intervalo"@[0] == 'i',
        "mapa"@.len() == 4,
        "mapa"@[0] == 'm',
        "mapa_definir"@.len() == 12,
        "mapa_definir"@[0] == 'm',
        "mapa_definir"@[5] == 'd',
        "mapa_obter"@.len() == 10,
        "mapa_obter"@[1] == 'a',
        "mapa_obter"@[2] == 'p',
        "mapa_tem"@.len() == 8,
        "mapa_remover"@.len() == 12,
        "mapa_remover"@[0] == 'm',
        "mapa_remover"@[5] == 'r',
        "mapa_chaves"@.len() == 11,
        "mapa_valores"@.len() == 12,
        "mapa_valores"@[0] == 'm',
        "mapa_valores"@[5] == 'v',
{
    reveal_strlit("tensor_para_gpu");
    reveal_strlit("tensor_dispositivo");
    reveal_strlit("tensor_para_metal");
    reveal_strlit("tensor_para_cpu");
    reveal_strlit("texto");
    reveal_strlit("numero");
    reveal_strlit("inteiro");
    reveal_strlit("tipo");
    reveal_strlit("maiusculas");
    reveal_strlit("minusculas");
    reveal_strlit("aparar");
    reveal_strlit("html_escapar");
    reveal_strlit("substituir");
    reveal_strlit("dividir");
    reveal_strlit("juntar");
    reveal_strlit("contem_texto");
    reveal_strlit("tamanho");
    reveal_strlit("adicionar");
    reveal_strlit("remover");
    reveal_strlit("intervalo");
    reveal_strlit("mapa");
    reveal_strlit("mapa_definir");
    reveal_strlit("mapa_obter");
    reveal_strlit("mapa_tem");
    reveal_strlit("mapa_remover");
    reveal_strlit("mapa_chaves");
    reveal_strlit("mapa_valores");
}

/// A funcao nativa da o valor.
pub open spec fn da(nome: Seq<char>, args: Seq<vm::Visto>, v: vm::Visto) -> bool {
    nativas::nativa(nome, args) == operacoes::SaidaVista::Valor(v)
}

/// Um valor que e o numero inteiro `n`.
pub open spec fn vale(v: vm::Visto, n: int) -> bool {
    v matches vm::Visto::Num(b, t) && !decimal::nao_numero(b) && decimal::truncado(b) == n && t == texto::decimal_int(n)
}

/// O numero `n` como valor.
pub open spec fn numero(n: int) -> vm::Visto {
    vm::Visto::Num(decimal::bits_de(n) as u64, texto::decimal_int(n))
}

proof fn lema_numero(n: int)
    requires
        -0x20000000000000 < n < 0x20000000000000,
    ensures
        vale(numero(n), n),
{
    decimal::lema_inteiro_pequeno(n);
}

/// Uma lista como valor.
pub open spec fn lista(l: Seq<vm::Visto>) -> vm::Visto {
    vm::Visto::Lista(l)
}

/// Um mapa como valor.
pub open spec fn mapa(m: Seq<(Seq<char>, vm::Visto)>) -> vm::Visto {
    vm::Visto::Mapa(m)
}

/// Um texto como valor.
pub open spec fn em_texto(t: Seq<char>) -> vm::Visto {
    vm::Visto::Str(t)
}

// ---- Listas -----------------------------------------------------------------------------

/// `tamanho` da quantos itens tem uma lista, quantos caracteres um texto e quantas chaves um mapa.
pub proof fn lei_tamanho(l: Seq<vm::Visto>, t: Seq<char>, m: Seq<(Seq<char>, vm::Visto)>)
    requires
        l.len() < 1000000000000000,
        t.len() < 1000000000000000,
        m.len() < 1000000000000000,
    ensures
        da("tamanho"@, seq![vm::Visto::Lista(l)], numero(l.len() as int)) && vale(numero(l.len() as int), l.len() as int),
        da("tamanho"@, seq![vm::Visto::Str(t)], numero(t.len() as int)) && vale(numero(t.len() as int), t.len() as int),
        da("tamanho"@, seq![vm::Visto::Mapa(m)], numero(m.len() as int)) && vale(numero(m.len() as int), m.len() as int),
{
    lema_nomes();
    lema_numero(l.len() as int);
    lema_numero(t.len() as int);
    lema_numero(m.len() as int);
}

/// `adicionar` poe o valor no fim da lista, e `remover` tira o item de um indice e deixa os outros pela
/// ordem; um indice fora da lista falha.
pub proof fn lei_adicionar_e_remover(l: Seq<vm::Visto>, v: vm::Visto, i: vm::Visto, n: int)
    requires
        vale(i, n),
        0 <= n <= usize::MAX,
    ensures
        da("adicionar"@, seq![vm::Visto::Lista(l), v], vm::Visto::Lista(l + seq![v])),
        n < l.len() ==> da("remover"@, seq![vm::Visto::Lista(l), i], vm::Visto::Lista(l.take(n) + l.skip(n + 1))),
        n >= l.len() ==> nativas::nativa("remover"@, seq![vm::Visto::Lista(l), i]) is Falha,
{
    lema_nomes();
    assert(l.push(v) =~= l + seq![v]);
    if n < l.len() {
        assert(l.remove(n) =~= l.take(n) + l.skip(n + 1));
    }
}

/// `intervalo(a, b)` da os numeros de `a` ate antes de `b`, um a um; sem `a`, comeca no zero.
pub proof fn lei_intervalo(a: vm::Visto, b: vm::Visto, x: int, y: int, k: int)
    requires
        vale(a, x),
        vale(b, y),
        -1000000000000000 < x <= y < 1000000000000000,
        x <= k < y,
    ensures
        exists|l: Seq<vm::Visto>|
            da("intervalo"@, seq![a, b], #[trigger] lista(l)) && l.len() == y - x && vale(l[k - x], k),
        x == 0 ==> nativas::nativa("intervalo"@, seq![b]) == nativas::nativa("intervalo"@, seq![a, b]),
{
    lema_nomes();
    let l = nativas::intervalo_de(x, y);
    lema_numero(k);
    assert(da("intervalo"@, seq![a, b], lista(l)));
}

// ---- Mapas ------------------------------------------------------------------------------

proof fn lema_obter(m: Seq<(Seq<char>, vm::Visto)>, k: Seq<char>)
    ensures
        da(
            "mapa_obter"@,
            seq![mapa(m), em_texto(k)],
            match vm::valor_de(m, k) {
                Some(v) => v,
                None => vm::Visto::Null,
            },
        ),
{
    lema_nomes();
}

proof fn lema_tem(m: Seq<(Seq<char>, vm::Visto)>, k: Seq<char>)
    ensures
        da("mapa_tem"@, seq![mapa(m), em_texto(k)], vm::Visto::Bool(vm::valor_de(m, k) is Some)),
{
    lema_nomes();
}

proof fn lema_definir(m: Seq<(Seq<char>, vm::Visto)>, k: Seq<char>, v: vm::Visto)
    ensures
        da("mapa_definir"@, seq![mapa(m), em_texto(k), v], mapa(vm::com_valor(m, k, v))),
{
    lema_nomes();
}

proof fn lema_remover(m: Seq<(Seq<char>, vm::Visto)>, k: Seq<char>)
    ensures
        da("mapa_remover"@, seq![mapa(m), em_texto(k)], mapa(vm::sem_chave(m, k))),
{
    lema_nomes();
}

/// `mapa_definir` da um mapa em que `mapa_obter` e `mapa_tem` acham a chave, e as outras como estavam.
pub proof fn lei_mapa_definir(
    m: Seq<(Seq<char>, vm::Visto)>,
    k: Seq<char>,
    v: vm::Visto,
    outra: Seq<char>,
    c: Seq<(Seq<char>, vm::Visto)>,
    w: vm::Visto,
)
    requires
        vm::distintas(m),
        outra != k,
        da("mapa_definir"@, seq![mapa(m), em_texto(k), v], mapa(c)),
        da("mapa_obter"@, seq![mapa(m), em_texto(outra)], w),
    ensures
        da("mapa_obter"@, seq![mapa(c), em_texto(k)], v),
        da("mapa_tem"@, seq![mapa(c), em_texto(k)], vm::Visto::Bool(true)),
        da("mapa_obter"@, seq![mapa(c), em_texto(outra)], w),
        vm::distintas(c),
{
    lema_definir(m, k, v);
    lema_obter(m, outra);
    lema_obter(c, k);
    lema_obter(c, outra);
    lema_tem(c, k);
    vm::lei_mapa(m, k, v, outra);
}

/// `mapa_remover` da um mapa sem a chave, e com as outras como estavam.
pub proof fn lei_mapa_remover(
    m: Seq<(Seq<char>, vm::Visto)>,
    k: Seq<char>,
    outra: Seq<char>,
    s: Seq<(Seq<char>, vm::Visto)>,
    w: vm::Visto,
)
    requires
        vm::distintas(m),
        outra != k,
        da("mapa_remover"@, seq![mapa(m), em_texto(k)], mapa(s)),
        da("mapa_obter"@, seq![mapa(m), em_texto(outra)], w),
    ensures
        da("mapa_obter"@, seq![mapa(s), em_texto(k)], vm::Visto::Null),
        da("mapa_tem"@, seq![mapa(s), em_texto(k)], vm::Visto::Bool(false)),
        da("mapa_obter"@, seq![mapa(s), em_texto(outra)], w),
        vm::distintas(s),
{
    lema_remover(m, k);
    lema_obter(m, outra);
    lema_obter(s, k);
    lema_obter(s, outra);
    lema_tem(s, k);
    vm::lei_mapa(m, k, w, outra);
}

// ---- Textos e conversoes ----------------------------------------------------------------

/// `tipo` distingue os tipos: dois valores de tipos diferentes tem nomes diferentes.
pub proof fn lei_tipo(b: u64, t: Seq<char>, n: i64, l: Seq<vm::Visto>, m: Seq<(Seq<char>, vm::Visto)>, sim: bool)
    ensures
        da("tipo"@, seq![vm::Visto::Num(b, t)], em_texto("numero"@)),
        da("tipo"@, seq![vm::Visto::Int(n)], em_texto("inteiro"@)),
        da("tipo"@, seq![vm::Visto::Str(t)], em_texto("texto"@)),
        da("tipo"@, seq![vm::Visto::Bool(sim)], em_texto("booleano"@)),
        da("tipo"@, seq![vm::Visto::Null], em_texto("nulo"@)),
        da("tipo"@, seq![vm::Visto::Lista(l)], em_texto("lista"@)),
        da("tipo"@, seq![vm::Visto::Mapa(m)], em_texto("mapa"@)),
{
    lema_nomes();
}

/// Um inteiro escrito como texto volta a ser o mesmo inteiro; um numero perde o que vem depois do ponto; de
/// verdadeiro e falso fazem-se um e zero.
pub proof fn lei_texto_e_inteiro(n: i64, v: vm::Visto, k: int)
    requires
        vale(v, k),
        i64::MIN <= k <= i64::MAX,
    ensures
        exists|t: Seq<char>|
            da("texto"@, seq![vm::Visto::Int(n)], #[trigger] em_texto(t)) && da(
                "inteiro"@,
                seq![em_texto(t)],
                vm::Visto::Int(n),
            ),
        da("inteiro"@, seq![v], vm::Visto::Int(k as i64)),
        da("inteiro"@, seq![vm::Visto::Bool(true)], vm::Visto::Int(1)),
        da("inteiro"@, seq![vm::Visto::Bool(false)], vm::Visto::Int(0)),
        -1000000000000000 < n < 1000000000000000 ==> da("numero"@, seq![vm::Visto::Int(n)], numero(n as int)) && vale(
            numero(n as int),
            n as int,
        ),
{
    lema_nomes();
    let t = texto::decimal_int(n as int);
    assert(em_texto(t) == vm::Visto::Str(t));
    assert(vm::texto_de(vm::Visto::Int(n)) == t);
    busca::lema_lido_inteiro(n);
    let m = (if n < 0 {
        -n
    } else {
        n as int
    }) as nat;
    texto::lema_decimal_algarismos(m);
    assert(t.last() == texto::decimal(m).last());
    assert('0' <= texto::decimal(m)[0] <= '9');
    assert(texto::decimal(m).last() == texto::decimal(m)[texto::decimal(m).len() - 1]);
    assert(!texto::espaco(t[0]));
    assert(!texto::espaco(t.last()));
    texto::lema_aparado_recuado(t, 0);
    assert(t.skip(0) =~= t);
    assert(da("texto"@, seq![vm::Visto::Int(n)], em_texto(t)));
    assert(da("inteiro"@, seq![em_texto(t)], vm::Visto::Int(n)));
    if -1000000000000000 < n < 1000000000000000 {
        lema_numero(n as int);
    }
}

proof fn lema_junta_primeiro(a: Seq<char>, v: Seq<Seq<char>>, sep: Seq<char>)
    requires
        v.len() > 0,
    ensures
        busca::juntos(seq![a] + v, sep) == a + sep + busca::juntos(v, sep),
    decreases v.len(),
{
    let w = seq![a] + v;
    assert(w.last() == v.last());
    if v.len() == 1 {
        assert(w.drop_last() =~= seq![a]);
        assert(busca::juntos(seq![a], sep) == a);
    } else {
        assert(w.drop_last() =~= seq![a] + v.drop_last());
        lema_junta_primeiro(a, v.drop_last(), sep);
        assert(busca::juntos(w, sep) =~= a + sep + busca::juntos(v, sep));
    }
}

proof fn lema_partes(s: Seq<char>, sep: Seq<char>, i: int)
    requires
        0 <= i <= s.len(),
        sep.len() > 0,
    ensures
        nativas::partes_entre(s, sep, i).len() > 0,
        busca::juntos(nativas::partes_entre(s, sep, i), sep) == s.skip(i),
        forall|k: int|
            0 <= k < nativas::partes_entre(s, sep, i).len() ==> !busca::contem(
                #[trigger] nativas::partes_entre(s, sep, i)[k],
                sep,
            ),
    decreases s.len() - i,
{
    busca::lema_primeira(s, sep, i);
    match busca::primeira(s, sep, i) {
        None => {
            let p = s.skip(i);
            assert(busca::juntos(seq![p], sep) == p);
            lema_sem(s, sep, i, s.len() as int);
            assert(s.subrange(i, s.len() as int) =~= p);
        },
        Some(p) => {
            let a = s.subrange(i, p);
            let v = nativas::partes_entre(s, sep, p + sep.len());
            lema_partes(s, sep, p + sep.len());
            lema_junta_primeiro(a, v, sep);
            assert(s.subrange(p, p + sep.len()) == sep);
            assert(s.skip(i) =~= a + sep + s.skip(p + sep.len()));
            lema_sem(s, sep, i, p);
            let w = nativas::partes_entre(s, sep, i);
            assert(w == seq![a] + v);
            assert forall|k: int| 0 <= k < w.len() implies !busca::contem(#[trigger] w[k], sep) by {
                if k > 0 {
                    assert(w[k] == v[k - 1]);
                }
            }
        },
    }
}

proof fn lema_sem(s: Seq<char>, sep: Seq<char>, i: int, p: int)
    requires
        0 <= i <= p <= s.len(),
        forall|j: int| i <= j < p ==> !busca::ocorre(s, sep, j),
        sep.len() > 0,
    ensures
        !busca::contem(s.subrange(i, p), sep),
{
    let a = s.subrange(i, p);
    busca::lema_primeira(a, sep, 0);
    if let Some(k) = busca::primeira(a, sep, 0) {
        assert(a.subrange(k, k + sep.len()) =~= s.subrange(i + k, i + k + sep.len()));
        assert(busca::ocorre(s, sep, i + k));
    }
}

/// Juntar com um separador o que ele dividiu da o texto de volta, e nenhuma das partes o contem.
pub proof fn lei_dividir_e_juntar(s: Seq<char>, sep: Seq<char>)
    requires
        sep.len() > 0,
    ensures
        exists|v: Seq<vm::Visto>|
            {
                &&& da("dividir"@, seq![em_texto(s), em_texto(sep)], #[trigger] lista(v))
                &&& da("juntar"@, seq![lista(v), em_texto(sep)], em_texto(s))
                &&& forall|k: int|
                    0 <= k < v.len() ==> (#[trigger] v[k]) is Str && da(
                        "contem_texto"@,
                        seq![v[k], em_texto(sep)],
                        vm::Visto::Bool(false),
                    )
            },
{
    lema_nomes();
    let ps = nativas::partes_entre(s, sep, 0);
    let v = nativas::em_valores(ps);
    lema_partes(s, sep, 0);
    assert(s.skip(0) =~= s);
    assert(maquina::textos_de(v) =~= ps);
    assert(da("dividir"@, seq![em_texto(s), em_texto(sep)], lista(v)));
    assert(da("juntar"@, seq![lista(v), em_texto(sep)], em_texto(s)));
    assert forall|k: int| 0 <= k < v.len() implies (#[trigger] v[k]) is Str && da(
        "contem_texto"@,
        seq![v[k], em_texto(sep)],
        vm::Visto::Bool(false),
    ) by {
        assert(v[k] == vm::Visto::Str(ps[k]));
    }
}

/// `substituir` faz o mesmo que dividir pelo que se procura e juntar com o que se poe.
pub proof fn lei_substituir(s: Seq<char>, de: Seq<char>, por: Seq<char>)
    ensures
        exists|v: Seq<vm::Visto>|
            {
                &&& da("dividir"@, seq![em_texto(s), em_texto(de)], #[trigger] lista(v))
                &&& nativas::nativa("substituir"@, seq![em_texto(s), em_texto(de), em_texto(por)]) == nativas::nativa(
                    "juntar"@,
                    seq![lista(v), em_texto(por)],
                )
            },
{
    lema_nomes();
    let ps = nativas::dividido(s, de);
    let v = nativas::em_valores(ps);
    assert(maquina::textos_de(v) =~= ps);
    assert(da("dividir"@, seq![em_texto(s), em_texto(de)], lista(v)));
}

/// `contem_texto` diz se o outro texto esta em algum lugar do primeiro.
pub proof fn lei_contem(s: Seq<char>, p: Seq<char>)
    ensures
        da(
            "contem_texto"@,
            seq![em_texto(s), em_texto(p)],
            vm::Visto::Bool(exists|i: int| 0 <= i <= s.len() - p.len() && #[trigger] s.subrange(i, i + p.len()) == p),
        ),
{
    lema_nomes();
    busca::lema_primeira(s, p, 0);
    if let Some(k) = busca::primeira(s, p, 0) {
        assert(s.subrange(k, k + p.len()) == p);
    } else if exists|i: int| 0 <= i <= s.len() - p.len() && #[trigger] s.subrange(i, i + p.len()) == p {
        let i = choose|i: int| 0 <= i <= s.len() - p.len() && #[trigger] s.subrange(i, i + p.len()) == p;
        assert(busca::ocorre(s, p, i));
    }
}

/// `juntar` poe os textos dos itens pela ordem, com o separador entre cada dois.
pub proof fn lei_juntar(l: Seq<vm::Visto>, v: vm::Visto, sep: Seq<char>, j: Seq<char>)
    requires
        da("juntar"@, seq![lista(l), em_texto(sep)], em_texto(j)),
    ensures
        da(
            "juntar"@,
            seq![lista(l.push(v)), em_texto(sep)],
            em_texto(
                if l.len() == 0 {
                    vm::texto_de(v)
                } else {
                    j + sep + vm::texto_de(v)
                },
            ),
        ),
{
    lema_nomes();
    let t = maquina::textos_de(l);
    let u = maquina::textos_de(l.push(v));
    assert(u =~= t.push(vm::texto_de(v)));
    assert(u.drop_last() =~= t);
    assert(u.last() == vm::texto_de(v));
}

proof fn lema_trocado(s: Seq<char>, c: char, por: Seq<char>, d: char)
    requires
        !por.contains(d),
    ensures
        c == d ==> !busca::trocado(s, c, por).contains(d),
        !s.contains(d) ==> !busca::trocado(s, c, por).contains(d),
    decreases s.len(),
{
    if s.len() > 0 {
        let a = s.drop_last();
        lema_trocado(a, c, por, d);
        if !s.contains(d) {
            assert(s.last() != d) by {
                assert(s[s.len() - 1] == s.last());
            }
            if a.contains(d) {
                let i = choose|i: int| 0 <= i < a.len() && a[i] == d;
                assert(s[i] == d);
            }
        }
        let r = busca::trocado(a, c, por);
        if c == d || !s.contains(d) {
            let t = busca::trocado(s, c, por);
            assert forall|i: int| 0 <= i < t.len() implies t[i] != d by {
                if i < r.len() {
                    assert(t[i] == r[i]);
                    assert(!r.contains(d));
                } else if s.last() == c {
                    assert(t[i] == por[i - r.len()]);
                    assert(por.contains(por[i - r.len()]));
                }
            }
        }
    }
}

/// O que `html_escapar` da nao tem `<` nem `>`; e sem `<`, `>` e `&` o texto nao muda.
pub proof fn lei_html_escapar(s: Seq<char>)
    ensures
        exists|t: Seq<char>|
            da("html_escapar"@, seq![em_texto(s)], #[trigger] em_texto(t)) && !t.contains('<') && !t.contains('>') && (
            !s.contains('<') && !s.contains('>') && !s.contains('&') ==> t == s),
{
    lema_nomes();
    reveal_strlit("&amp;");
    reveal_strlit("&lt;");
    reveal_strlit("&gt;");
    let a = busca::trocado(s, '&', "&amp;"@);
    let b = busca::trocado(a, '<', "&lt;"@);
    let t = busca::trocado(b, '>', "&gt;"@);
    lema_trocado(a, '<', "&lt;"@, '<');
    lema_trocado(b, '>', "&gt;"@, '<');
    lema_trocado(b, '>', "&gt;"@, '>');
    assert(vm::texto_de(em_texto(s)) == s);
    assert(da("html_escapar"@, seq![em_texto(s)], em_texto(t)));
    if !s.contains('<') && !s.contains('>') && !s.contains('&') {
        lema_sem_troca(s, '&', "&amp;"@);
        lema_sem_troca(s, '<', "&lt;"@);
        lema_sem_troca(s, '>', "&gt;"@);
    }
}

proof fn lema_sem_troca(s: Seq<char>, c: char, por: Seq<char>)
    requires
        !s.contains(c),
    ensures
        busca::trocado(s, c, por) == s,
    decreases s.len(),
{
    if s.len() > 0 {
        let a = s.drop_last();
        assert(s[s.len() - 1] == s.last());
        if a.contains(c) {
            let i = choose|i: int| 0 <= i < a.len() && a[i] == c;
            assert(s[i] == c);
        }
        lema_sem_troca(a, c, por);
        assert(a.push(s.last()) =~= s);
    }
}

} // verus!
