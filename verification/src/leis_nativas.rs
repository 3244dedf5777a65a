//! Leis das funcoes nativas sobre listas, mapas e textos.

use vstd::prelude::*;
use crate::aplicar;
use crate::busca;
use crate::nativas;
use crate::nativas_arvore;
use crate::nativas_textos;
use crate::nativas_valores;
use crate::texto;
use crate::valor;

verus! {

proof fn lema_nomes()
    ensures
        "tipo"@.len() == 4,
        "tipo"@[0] == 't',
        "texto"@.len() == 5,
        "texto"@[0] == 't',
        "booleano"@.len() == 8,
        "booleano"@[0] == 'b',
        "numero"@.len() == 6,
        "numero"@[0] == 'n',
        "inteiro"@.len() == 7,
        "inteiro"@[0] == 'i',
        "truncar"@.len() == 7,
        "truncar"@[0] == 't',
        "truncar"@[1] == 'r',
        "tamanho"@.len() == 7,
        "tamanho"@[0] == 't',
        "tamanho"@[1] == 'a',
        "ordenar"@.len() == 7,
        "ordenar"@[0] == 'o',
        "inverter_lista"@.len() == 14,
        "inverter_lista"@[0] == 'i',
        "inverter_lista"@[9] == 'l',
        "mapa_chaves"@.len() == 11,
        "mapa_chaves"@[0] == 'm',
        "mapa_valores"@.len() == 12,
        "mapa_valores"@[0] == 'm',
        "mapa_valores"@[5] == 'v',
        "mapa_para_lista"@.len() == 15,
        "mapa_para_lista"@[0] == 'm',
        "tipo_erro"@.len() == 9,
        "tipo_erro"@[0] == 't',
        "mensagem_erro"@.len() == 13,
        "mensagem_erro"@[0] == 'm',
        "pilha_erro"@.len() == 10,
        "pilha_erro"@[0] == 'p',
        "capturar_saida"@.len() == 14,
        "capturar_saida"@[0] == 'c',
        "mapear"@.len() == 6,
        "mapear"@[0] == 'm',
        "filtrar"@.len() == 7,
        "filtrar"@[0] == 'f',
        "adicionar"@.len() == 9,
        "adicionar"@[0] == 'a',
        "remover"@.len() == 7,
        "remover"@[0] == 'r',
        "remover"@[2] == 'm',
        "contem"@.len() == 6,
        "contem"@[0] == 'c',
        "indice_de"@.len() == 9,
        "indice_de"@[0] == 'i',
        "indice_de"@[2] == 'd',
        "mapa_obter"@.len() == 10,
        "mapa_obter"@[0] == 'm',
        "mapa_obter"@[1] == 'a',
        "mapa_obter"@[2] == 'p',
        "mapa_tem"@.len() == 8,
        "mapa_tem"@[0] == 'm',
        "mapa_remover"@.len() == 12,
        "mapa_remover"@[0] == 'm',
        "mapa_remover"@[5] == 'r',
        "intervalo"@.len() == 9,
        "intervalo"@[0] == 'i',
        "intervalo"@[2] == 't',
        "reduzir"@.len() == 7,
        "reduzir"@[0] == 'r',
        "reduzir"@[2] == 'd',
        "fatiar"@.len() == 6,
        "fatiar"@[0] == 'f',
        "mapa"@.len() == 4,
        "mapa"@[0] == 'm',
        "mapa_definir"@.len() == 12,
        "mapa_definir"@[0] == 'm',
        "mapa_definir"@[5] == 'd',
        "obter"@.len() == 5,
        "obter"@[0] == 'o',
        "Erro"@.len() == 4,
        "Erro"@[0] == 'E',
        "escrever"@.len() == 8,
        "escrever"@[0] == 'e',
        "nova_linha"@.len() == 10,
        "nova_linha"@[0] == 'n',
        "maiusculas"@.len() == 10,
        "maiusculas"@[0] == 'm',
        "maiusculas"@[1] == 'a',
        "maiusculas"@[2] == 'i',
        "minusculas"@.len() == 10,
        "minusculas"@[0] == 'm',
        "minusculas"@[1] == 'i',
        "aparar"@.len() == 6,
        "aparar"@[0] == 'a',
        "aparar_esquerda"@.len() == 15,
        "aparar_esquerda"@[0] == 'a',
        "aparar_direita"@.len() == 14,
        "aparar_direita"@[0] == 'a',
        "inverter_texto"@.len() == 14,
        "inverter_texto"@[0] == 'i',
        "inverter_texto"@[9] == 't',
        "url_codificar"@.len() == 13,
        "url_codificar"@[0] == 'u',
        "url_decodificar_texto"@.len() == 21,
        "html_escapar"@.len() == 12,
        "html_escapar"@[0] == 'h',
        "dividir"@.len() == 7,
        "dividir"@[0] == 'd',
        "comeca_com"@.len() == 10,
        "comeca_com"@[0] == 'c',
        "comeca_com"@[4] == 'c',
        "termina_com"@.len() == 11,
        "termina_com"@[0] == 't',
        "contem_texto"@.len() == 12,
        "contem_texto"@[0] == 'c',
        "posicao"@.len() == 7,
        "posicao"@[0] == 'p',
        "juntar"@.len() == 6,
        "juntar"@[0] == 'j',
        "repetir"@.len() == 7,
        "repetir"@[0] == 'r',
        "repetir"@[2] == 'p',
        "formatar_data"@.len() == 13,
        "formatar_data"@[0] == 'f',
        "substituir"@.len() == 10,
        "substituir"@[0] == 's',
        "sub_texto"@.len() == 9,
        "sub_texto"@[0] == 's',
        "começa_com"@.len() == 10,
        "começa_com"@[0] == 'c',
        "começa_com"@[4] == 'ç',
{
    reveal_strlit("tipo");
    reveal_strlit("texto");
    reveal_strlit("booleano");
    reveal_strlit("numero");
    reveal_strlit("inteiro");
    reveal_strlit("truncar");
    reveal_strlit("tamanho");
    reveal_strlit("ordenar");
    reveal_strlit("inverter_lista");
    reveal_strlit("mapa_chaves");
    reveal_strlit("mapa_valores");
    reveal_strlit("mapa_para_lista");
    reveal_strlit("tipo_erro");
    reveal_strlit("mensagem_erro");
    reveal_strlit("pilha_erro");
    reveal_strlit("capturar_saida");
    reveal_strlit("mapear");
    reveal_strlit("filtrar");
    reveal_strlit("adicionar");
    reveal_strlit("remover");
    reveal_strlit("contem");
    reveal_strlit("indice_de");
    reveal_strlit("mapa_obter");
    reveal_strlit("mapa_tem");
    reveal_strlit("mapa_remover");
    reveal_strlit("intervalo");
    reveal_strlit("reduzir");
    reveal_strlit("fatiar");
    reveal_strlit("mapa");
    reveal_strlit("mapa_definir");
    reveal_strlit("obter");
    reveal_strlit("Erro");
    reveal_strlit("escrever");
    reveal_strlit("nova_linha");
    reveal_strlit("maiusculas");
    reveal_strlit("minusculas");
    reveal_strlit("aparar");
    reveal_strlit("aparar_esquerda");
    reveal_strlit("aparar_direita");
    reveal_strlit("inverter_texto");
    reveal_strlit("url_codificar");
    reveal_strlit("url_decodificar_texto");
    reveal_strlit("html_escapar");
    reveal_strlit("dividir");
    reveal_strlit("comeca_com");
    reveal_strlit("termina_com");
    reveal_strlit("contem_texto");
    reveal_strlit("posicao");
    reveal_strlit("juntar");
    reveal_strlit("repetir");
    reveal_strlit("formatar_data");
    reveal_strlit("substituir");
    reveal_strlit("sub_texto");
    reveal_strlit("começa_com");
}

/// Uma lista como valor.
pub open spec fn lista(l: Seq<valor::Dado>) -> valor::Dado {
    valor::Dado::Lista(l)
}

/// Um mapa como valor.
pub open spec fn mapa(m: valor::Escopo) -> valor::Dado {
    valor::Dado::Mapa(m)
}

/// Um texto como valor.
pub open spec fn em_texto(t: Seq<char>) -> valor::Dado {
    valor::Dado::Texto(t)
}

/// A funcao nativa da o valor.
pub open spec fn da(nome: Seq<char>, args: Seq<valor::Dado>, v: valor::Dado) -> bool {
    nativas_arvore::nativa(nome, args) == nativas_arvore::ChamadoVisto::Feito(aplicar::FeitoVisto::Valor(v))
}

proof fn lema_de_valores(nome: Seq<char>, a: Seq<valor::Dado>)
    requires
        nome != "escrever"@,
        nome != "nova_linha"@,
        nativas_valores::de_valores(nome, a) is Some,
    ensures
        nativas_arvore::nativa(nome, a) == nativas_valores::de_valores(nome, a)->Some_0,
{
    reveal(nativas_arvore::nativa);
}

proof fn lema_de_textos(nome: Seq<char>, a: Seq<valor::Dado>)
    requires
        nome != "escrever"@,
        nome != "nova_linha"@,
        nativas_valores::de_valores(nome, a) is None,
        nativas_textos::de_textos(nome, a) is Some,
    ensures
        nativas_arvore::nativa(nome, a) == nativas_textos::de_textos(nome, a)->Some_0,
{
    reveal(nativas_arvore::nativa);
}

// ---- Listas -----------------------------------------------------------------------------

/// `tamanho` da quantos itens tem uma lista, quantos caracteres um texto e quantas chaves um mapa.
pub proof fn lei_tamanho(l: Seq<valor::Dado>, t: Seq<char>, m: valor::Escopo)
    requires
        l.len() <= i64::MAX,
        t.len() <= i64::MAX,
        m.len() <= i64::MAX,
    ensures
        da("tamanho"@, seq![valor::Dado::Lista(l)], valor::Dado::Inteiro(l.len() as i64)),
        da("tamanho"@, seq![valor::Dado::Texto(t)], valor::Dado::Inteiro(t.len() as i64)),
        da("tamanho"@, seq![valor::Dado::Mapa(m)], valor::Dado::Inteiro(m.len() as i64)),
{
    lema_nomes();
    lema_de_valores("tamanho"@, seq![valor::Dado::Lista(l)]);
    lema_de_valores("tamanho"@, seq![valor::Dado::Texto(t)]);
    lema_de_valores("tamanho"@, seq![valor::Dado::Mapa(m)]);
}

/// `adicionar` poe o valor no fim da lista, e `remover` tira o item de um indice e deixa os outros pela
/// ordem.
pub proof fn lei_adicionar_e_remover(l: Seq<valor::Dado>, v: valor::Dado, i: i64)
    requires
        0 <= i < l.len() <= usize::MAX,
    ensures
        da("adicionar"@, seq![valor::Dado::Lista(l), v], valor::Dado::Lista(l + seq![v])),
        da(
            "remover"@,
            seq![valor::Dado::Lista(l), valor::Dado::Inteiro(i)],
            valor::Dado::Lista(l.take(i as int) + l.skip(i + 1)),
        ),
{
    lema_nomes();
    lema_de_valores("adicionar"@, seq![valor::Dado::Lista(l), v]);
    lema_de_valores("remover"@, seq![valor::Dado::Lista(l), valor::Dado::Inteiro(i)]);
    assert(l.push(v) =~= l + seq![v]);
    assert(l.remove(i as int) =~= l.take(i as int) + l.skip(i + 1));
}

/// `inverter_lista` poe os itens pela ordem contraria.
pub proof fn lei_inverter(l: Seq<valor::Dado>)
    ensures
        exists|r: Seq<valor::Dado>|
            da("inverter_lista"@, seq![valor::Dado::Lista(l)], #[trigger] lista(r)) && r.len() == l.len()
                && forall|i: int| 0 <= i < l.len() ==> #[trigger] r[i] == l[l.len() - 1 - i],
{
    lema_nomes();
    lema_de_valores("inverter_lista"@, seq![valor::Dado::Lista(l)]);
    let r = l.reverse();
    assert(lista(r) == valor::Dado::Lista(r));
}

proof fn lema_indice(l: Seq<valor::Dado>, v: valor::Dado, i: int)
    requires
        0 <= i <= l.len(),
    ensures
        ({
            let k = nativas_valores::indice(l, v, i);
            if k == -1 {
                forall|j: int| i <= j < l.len() ==> !valor::iguais(#[trigger] l[j], v)
            } else {
                i <= k < l.len() && valor::iguais(l[k], v) && forall|j: int|
                    i <= j < k ==> !valor::iguais(#[trigger] l[j], v)
            }
        }),
    decreases l.len() - i,
{
    if i < l.len() {
        lema_indice(l, v, i + 1);
    }
}

/// `contem` diz se um item da lista e igual ao valor, e `indice_de` da o lugar do primeiro que o e, ou -1.
pub proof fn lei_procurar(l: Seq<valor::Dado>, v: valor::Dado, k: int)
    requires
        0 <= k < l.len() <= i64::MAX,
    ensures
        da(
            "contem"@,
            seq![valor::Dado::Lista(l), v],
            valor::Dado::Booleano(exists|i: int| 0 <= i < l.len() && valor::iguais(#[trigger] l[i], v)),
        ),
        valor::iguais(l[k], v) && (forall|j: int| 0 <= j < k ==> !valor::iguais(#[trigger] l[j], v)) ==> da(
            "indice_de"@,
            seq![valor::Dado::Lista(l), v],
            valor::Dado::Inteiro(k as i64),
        ),
        (forall|j: int| 0 <= j < l.len() ==> !valor::iguais(#[trigger] l[j], v)) ==> da(
            "indice_de"@,
            seq![valor::Dado::Lista(l), v],
            valor::Dado::Inteiro(-1i64),
        ),
{
    lema_nomes();
    lema_de_valores("contem"@, seq![valor::Dado::Lista(l), v]);
    lema_de_valores("indice_de"@, seq![valor::Dado::Lista(l), v]);
    lema_indice(l, v, 0);
    let i = nativas_valores::indice(l, v, 0);
    if i != -1 {
        assert(valor::iguais(l[i], v));
        if valor::iguais(l[k], v) && (forall|j: int| 0 <= j < k ==> !valor::iguais(#[trigger] l[j], v)) {
            assert(i == k) by {
                if i < k {
                    assert(!valor::iguais(l[i], v));
                }
                if k < i {
                    assert(!valor::iguais(l[k], v));
                }
            }
        }
    }
}

/// `fatiar` da os itens do inicio, incluido, ao fim, excluido; os limites alem do tamanho valem o tamanho.
pub proof fn lei_fatiar(l: Seq<valor::Dado>, a: i64, b: i64)
    requires
        0 <= a <= b <= usize::MAX,
        a <= l.len(),
        l.len() <= usize::MAX,
    ensures
        exists|r: Seq<valor::Dado>|
            da(
                "fatiar"@,
                seq![valor::Dado::Lista(l), valor::Dado::Inteiro(a), valor::Dado::Inteiro(b)],
                #[trigger] lista(r),
            ) && r.len() == (if b <= l.len() {
                b - a
            } else {
                l.len() - a
            }) && forall|i: int| 0 <= i < r.len() ==> #[trigger] r[i] == l[a + i],
{
    lema_nomes();
    lema_de_valores("fatiar"@, seq![valor::Dado::Lista(l), valor::Dado::Inteiro(a), valor::Dado::Inteiro(b)]);
    let f = if b <= l.len() {
        b as int
    } else {
        l.len() as int
    };
    let r = l.subrange(a as int, f);
    assert(lista(r) == valor::Dado::Lista(r));
}

proof fn lema_por(i: int, fim: int, passo: int, k: int)
    requires
        passo != 0,
        nativas_valores::inteiros_por(i, fim, passo) is Some,
        i64::MIN <= i <= i64::MAX,
    ensures
        ({
            let l = nativas_valores::inteiros_por(i, fim, passo)->Some_0;
            &&& 0 <= k < l.len() ==> l[k] == valor::Dado::Inteiro((i + k * passo) as i64)
            &&& 0 <= k < l.len() ==> if passo > 0 {
                i + k * passo < fim
            } else {
                i + k * passo > fim
            }
            &&& k == l.len() ==> if passo > 0 {
                i + k * passo >= fim
            } else {
                i + k * passo <= fim
            }
        }),
    decreases nativas_valores::distancia(i, fim, passo),
{
    if (passo > 0 && i < fim) || (passo < 0 && i > fim) {
        lema_por(i + passo, fim, passo, k - 1);
        assert(i + passo + (k - 1) * passo == i + k * passo) by (nonlinear_arith);
    }
    assert(0 * passo == 0);
}

/// `intervalo(a, b, p)` da `a`, `a + p`, `a + 2p` e assim por diante, e para antes de chegar a `b`;
/// `intervalo(a, b)` conta de um em um, e `intervalo(b)` a partir de zero.
pub proof fn lei_intervalo(a: i64, b: i64, p: i64, k: int)
    requires
        p != 0,
        nativas_valores::inteiros_por(a as int, b as int, p as int) is Some,
        0 <= k,
    ensures
        exists|l: Seq<valor::Dado>|
            da(
                "intervalo"@,
                seq![valor::Dado::Inteiro(a), valor::Dado::Inteiro(b), valor::Dado::Inteiro(p)],
                #[trigger] lista(l),
            ) && (k < l.len() ==> l[k] == valor::Dado::Inteiro((a + k * p) as i64)) && (k < l.len() ==> if p > 0 {
                a + k * p < b
            } else {
                a + k * p > b
            }) && (k == l.len() ==> if p > 0 {
                a + k * p >= b
            } else {
                a + k * p <= b
            }),
        exists|l: Seq<valor::Dado>|
            da("intervalo"@, seq![valor::Dado::Inteiro(a), valor::Dado::Inteiro(b)], #[trigger] lista(l)) && l.len()
                == (if a < b {
                b - a
            } else {
                0
            }) && (k < l.len() ==> l[k] == valor::Dado::Inteiro((a + k) as i64)),
        exists|l: Seq<valor::Dado>|
            da("intervalo"@, seq![valor::Dado::Inteiro(b)], #[trigger] lista(l)) && l.len() == (if 0 < b {
                b as int
            } else {
                0
            }) && (k < l.len() ==> l[k] == valor::Dado::Inteiro(k as i64)),
{
    lema_nomes();
    let t = seq![valor::Dado::Inteiro(a), valor::Dado::Inteiro(b), valor::Dado::Inteiro(p)];
    let d = seq![valor::Dado::Inteiro(a), valor::Dado::Inteiro(b)];
    let u = seq![valor::Dado::Inteiro(b)];
    lema_de_valores("intervalo"@, t);
    lema_de_valores("intervalo"@, d);
    lema_de_valores("intervalo"@, u);
    let l = nativas_valores::inteiros_por(a as int, b as int, p as int)->Some_0;
    lema_por(a as int, b as int, p as int, k);
    assert(lista(l) == valor::Dado::Lista(l));
    let l2 = nativas_valores::inteiros_ate(a as int, b as int);
    assert(lista(l2) == valor::Dado::Lista(l2));
    let l3 = nativas_valores::inteiros_ate(0, b as int);
    assert(lista(l3) == valor::Dado::Lista(l3));
}

// ---- Mapas ------------------------------------------------------------------------------

/// Depois de `mapa_definir`, a chave tem o valor e as outras o que tinham; depois de `mapa_remover`, a
/// chave nao esta e as outras estao como estavam.
pub proof fn lei_mapas(m: valor::Escopo, k: Seq<char>, v: valor::Dado, outra: Seq<char>)
    requires
        valor::distintas(m),
        outra != k,
    ensures
        exists|n: valor::Escopo|
            da("mapa_definir"@, seq![valor::Dado::Mapa(m), valor::Dado::Texto(k), v], #[trigger] mapa(n)) && da(
                "mapa_obter"@,
                seq![mapa(n), valor::Dado::Texto(k)],
                v,
            ) && da("mapa_tem"@, seq![mapa(n), valor::Dado::Texto(k)], valor::Dado::Booleano(true))
                && valor::valor_de(n, outra) == valor::valor_de(m, outra),
        exists|n: valor::Escopo|
            da("mapa_remover"@, seq![valor::Dado::Mapa(m), valor::Dado::Texto(k)], #[trigger] mapa(n)) && da(
                "mapa_obter"@,
                seq![mapa(n), valor::Dado::Texto(k)],
                valor::Dado::Nulo,
            ) && da("mapa_tem"@, seq![mapa(n), valor::Dado::Texto(k)], valor::Dado::Booleano(false))
                && valor::valor_de(n, outra) == valor::valor_de(m, outra),
{
    lema_nomes();
    valor::lei_mapa(m, k, v, outra);
    let a = valor::com_valor(m, k, v);
    let b = valor::sem_chave(m, k);
    let t = valor::Dado::Texto(k);
    assert(mapa(a) == valor::Dado::Mapa(a));
    assert(mapa(b) == valor::Dado::Mapa(b));
    lema_de_valores("mapa_definir"@, seq![valor::Dado::Mapa(m), t, v]);
    lema_de_valores("mapa_remover"@, seq![valor::Dado::Mapa(m), t]);
    lema_de_valores("mapa_obter"@, seq![mapa(a), t]);
    lema_de_valores("mapa_tem"@, seq![mapa(a), t]);
    lema_de_valores("mapa_obter"@, seq![mapa(b), t]);
    lema_de_valores("mapa_tem"@, seq![mapa(b), t]);
}

/// `obter` da o valor da chave; se ela nao esta, da o terceiro argumento, ou `nulo` se nao o ha.
pub proof fn lei_obter(m: valor::Escopo, k: Seq<char>, padrao: valor::Dado)
    ensures
        match valor::valor_de(m, k) {
            Some(v) => da("obter"@, seq![valor::Dado::Mapa(m), valor::Dado::Texto(k)], v) && da(
                "obter"@,
                seq![valor::Dado::Mapa(m), valor::Dado::Texto(k), padrao],
                v,
            ),
            None => da("obter"@, seq![valor::Dado::Mapa(m), valor::Dado::Texto(k)], valor::Dado::Nulo) && da(
                "obter"@,
                seq![valor::Dado::Mapa(m), valor::Dado::Texto(k), padrao],
                padrao,
            ),
        },
{
    lema_nomes();
    lema_de_valores("obter"@, seq![valor::Dado::Mapa(m), valor::Dado::Texto(k)]);
    lema_de_valores("obter"@, seq![valor::Dado::Mapa(m), valor::Dado::Texto(k), padrao]);
}

// ---- Conversoes -------------------------------------------------------------------------

/// Um inteiro escrito como texto volta a ser o mesmo inteiro.
pub proof fn lei_texto_e_inteiro(n: i64)
    ensures
        exists|t: Seq<char>|
            da("texto"@, seq![valor::Dado::Inteiro(n)], #[trigger] em_texto(t)) && da(
                "inteiro"@,
                seq![em_texto(t)],
                valor::Dado::Inteiro(n),
            ),
{
    lema_nomes();
    let t = texto::decimal_int(n as int);
    assert(em_texto(t) == valor::Dado::Texto(t));
    assert(valor::texto_de(valor::Dado::Inteiro(n)) == t);
    lema_de_valores("texto"@, seq![valor::Dado::Inteiro(n)]);
    lema_de_valores("inteiro"@, seq![em_texto(t)]);
    busca::lema_lido_inteiro(n);
    let m = (if n < 0 {
        -n
    } else {
        n as int
    }) as nat;
    texto::lema_decimal_algarismos(m);
    assert(t.last() == texto::decimal(m).last());
    assert('0' <= texto::decimal(m)[0] <= '9');
    assert(texto::decimal(m).last() == texto::decimal(m)[texto::decimal(m).len() - 1]);
    assert(!texto::espaco(t[0]));
    assert(!texto::espaco(t.last()));
    texto::lema_aparado_recuado(t, 0);
    assert(t.skip(0) =~= t);
}

// ---- Textos -----------------------------------------------------------------------------

/// `comeca_com` diz se o texto e o prefixo seguido de alguma coisa, `termina_com` se e alguma coisa seguida
/// do sufixo, e `contem_texto` se o outro esta em algum lugar dele.
pub proof fn lei_partes_de_texto(s: Seq<char>, p: Seq<char>)
    ensures
        da(
            "comeca_com"@,
            seq![valor::Dado::Texto(s), valor::Dado::Texto(p)],
            valor::Dado::Booleano(exists|r: Seq<char>| s == #[trigger] (p + r)),
        ),
        da(
            "termina_com"@,
            seq![valor::Dado::Texto(s), valor::Dado::Texto(p)],
            valor::Dado::Booleano(exists|r: Seq<char>| s == #[trigger] (r + p)),
        ),
{
    lema_nomes();
    let a = seq![valor::Dado::Texto(s), valor::Dado::Texto(p)];
    lema_de_textos("comeca_com"@, a);
    lema_de_textos("termina_com"@, a);
    let n = p.len() as int;
    assert(busca::comeca(s, p) == exists|r: Seq<char>| s == #[trigger] (p + r)) by {
        if busca::comeca(s, p) {
            assert(s =~= p + s.skip(n));
        }
        if exists|r: Seq<char>| s == #[trigger] (p + r) {
            let r = choose|r: Seq<char>| s == #[trigger] (p + r);
            assert(s.subrange(0, n) =~= p);
        }
    }
    assert(busca::termina(s, p) == exists|r: Seq<char>| s == #[trigger] (r + p)) by {
        if busca::termina(s, p) {
            assert(s =~= s.take(s.len() - n) + p);
        }
        if exists|r: Seq<char>| s == #[trigger] (r + p) {
            let r = choose|r: Seq<char>| s == #[trigger] (r + p);
            assert(s.subrange(s.len() - n, s.len() - n + n) =~= p);
        }
    }
}

/// `posicao` da o primeiro lugar onde o outro texto esta, ou -1; `contem_texto` diz se ha algum.
pub proof fn lei_posicao(s: Seq<char>, p: Seq<char>, k: int)
    requires
        s.len() <= i64::MAX,
        0 <= k,
    ensures
        k + p.len() <= s.len() && s.subrange(k, k + p.len()) == p && (forall|j: int|
            0 <= j < k ==> #[trigger] s.subrange(j, j + p.len()) != p) ==> da(
            "posicao"@,
            seq![valor::Dado::Texto(s), valor::Dado::Texto(p)],
            valor::Dado::Inteiro(k as i64),
        ) && da("contem_texto"@, seq![valor::Dado::Texto(s), valor::Dado::Texto(p)], valor::Dado::Booleano(true)),
        (forall|j: int| 0 <= j <= s.len() - p.len() ==> #[trigger] s.subrange(j, j + p.len()) != p) ==> da(
            "posicao"@,
            seq![valor::Dado::Texto(s), valor::Dado::Texto(p)],
            valor::Dado::Inteiro(-1i64),
        ) && da("contem_texto"@, seq![valor::Dado::Texto(s), valor::Dado::Texto(p)], valor::Dado::Booleano(false)),
{
    lema_nomes();
    let a = seq![valor::Dado::Texto(s), valor::Dado::Texto(p)];
    lema_de_textos("posicao"@, a);
    lema_de_textos("contem_texto"@, a);
    busca::lema_primeira(s, p, 0);
    if k + p.len() <= s.len() && s.subrange(k, k + p.len()) == p && (forall|j: int|
        0 <= j < k ==> #[trigger] s.subrange(j, j + p.len()) != p) {
        assert(busca::ocorre(s, p, k));
        let i = busca::primeira(s, p, 0)->Some_0;
        assert(busca::ocorre(s, p, i));
        if i < k {
            assert(s.subrange(i, i + p.len()) != p);
        }
    }
    if forall|j: int| 0 <= j <= s.len() - p.len() ==> #[trigger] s.subrange(j, j + p.len()) != p {
        if let Some(i) = busca::primeira(s, p, 0) {
            assert(busca::ocorre(s, p, i));
            assert(s.subrange(i, i + p.len()) == p);
        }
    }
}

/// `aparar` tira os espacos do comeco e do fim e mais nada; `inverter_texto` poe os caracteres pela ordem
/// contraria.
pub proof fn lei_aparar(s: Seq<char>)
    ensures
        exists|t: Seq<char>, i: int|
            da("aparar"@, seq![valor::Dado::Texto(s)], #[trigger] em_texto(t)) && 0 <= i && i + t.len() <= s.len()
                && #[trigger] s.subrange(i, i + t.len()) == t && (t.len() > 0 ==> !texto::espaco(t[0]) && !texto::espaco(
                t.last(),
            )),
        exists|t: Seq<char>|
            da("inverter_texto"@, seq![valor::Dado::Texto(s)], #[trigger] em_texto(t)) && t.len() == s.len()
                && forall|i: int| 0 <= i < s.len() ==> #[trigger] t[i] == s[s.len() - 1 - i],
{
    lema_nomes();
    let a = seq![valor::Dado::Texto(s)];
    lema_de_textos("aparar"@, a);
    lema_de_textos("inverter_texto"@, a);
    let r = texto::lema_aparado_pontas(s);
    let t = texto::aparado(s);
    assert(em_texto(t) == valor::Dado::Texto(t));
    assert(s.subrange(r.0, r.0 + t.len()) == t);
    let u = s.reverse();
    assert(em_texto(u) == valor::Dado::Texto(u));
}

/// `juntar` poe o separador entre os textos dos itens.
pub proof fn lei_juntar(l: Seq<valor::Dado>, v: valor::Dado, sep: Seq<char>)
    requires
        l.len() > 0,
    ensures
        exists|t: Seq<char>|
            da("juntar"@, seq![valor::Dado::Lista(l), valor::Dado::Texto(sep)], #[trigger] em_texto(t)) && da(
                "juntar"@,
                seq![valor::Dado::Lista(l.push(v)), valor::Dado::Texto(sep)],
                em_texto(t + sep + valor::texto_de(v)),
            ),
        da(
            "juntar"@,
            seq![valor::Dado::Lista(seq![v]), valor::Dado::Texto(sep)],
            valor::Dado::Texto(valor::texto_de(v)),
        ),
{
    lema_nomes();
    lema_de_textos("juntar"@, seq![valor::Dado::Lista(l), valor::Dado::Texto(sep)]);
    lema_de_textos("juntar"@, seq![valor::Dado::Lista(l.push(v)), valor::Dado::Texto(sep)]);
    lema_de_textos("juntar"@, seq![valor::Dado::Lista(seq![v]), valor::Dado::Texto(sep)]);
    let ts = nativas_textos::textos_de(l);
    let us = nativas_textos::textos_de(l.push(v));
    assert(us.drop_last() =~= ts);
    assert(us.last() == valor::texto_de(v));
    let t = busca::juntos(ts, sep);
    assert(em_texto(t) == valor::Dado::Texto(t));
    let x = nativas_textos::textos_de(seq![v]);
    assert(x.len() == 1 && x[0] == valor::texto_de(v));
}

/// `sub_texto` da os caracteres do inicio, incluido, ao fim, excluido.
pub proof fn lei_sub_texto(s: Seq<char>, a: i64, b: i64)
    requires
        0 <= a <= b <= s.len() <= usize::MAX,
    ensures
        da(
            "sub_texto"@,
            seq![valor::Dado::Texto(s), valor::Dado::Inteiro(a), valor::Dado::Inteiro(b)],
            valor::Dado::Texto(s.subrange(a as int, b as int)),
        ),
        da(
            "sub_texto"@,
            seq![valor::Dado::Texto(s), valor::Dado::Inteiro(a)],
            valor::Dado::Texto(s.subrange(a as int, s.len() as int)),
        ),
{
    lema_nomes();
    lema_de_textos("sub_texto"@, seq![valor::Dado::Texto(s), valor::Dado::Inteiro(a), valor::Dado::Inteiro(b)]);
    lema_de_textos("sub_texto"@, seq![valor::Dado::Texto(s), valor::Dado::Inteiro(a)]);
    assert(s.skip(a as int) =~= s.subrange(a as int, s.len() as int));
}

} // verus!
