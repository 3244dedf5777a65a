//! As funcoes nativas da maquina: as que se calculam aqui, as que viram uma acao para quem faz
//! a maquina andar e as que sao pedidas por inteiro.

use vstd::prelude::*;
use crate::busca;
use crate::decimal::Decimal;
use crate::decimal;
use crate::dispositivos;
use crate::efeitos;
use crate::maquina;
use crate::nativas_numeros;
use crate::nativas_tensor;
use crate::operacoes::{dizer_fora, Pedido, Saida};
use crate::operacoes;
use crate::ordem;
use crate::ponte;
use crate::texto;
use crate::vm::{achar_chave, copiar_lista, copiar_pares, frase, guardar, obter_ou_nulo, tirar, VmValor};
use crate::vm;

verus! {

/// Um numero com ponto que vale um inteiro pequeno: abaixo de mil bilhoes ele se escreve como o
/// inteiro.
pub open spec fn numero_pequeno(n: int) -> Option<vm::Visto> {
    if -1000000000000000 < n < 1000000000000000 {
        Some(vm::Visto::Num(decimal::bits_de(n) as u64, texto::decimal_int(n)))
    } else {
        None
    }
}

/// O numero com ponto de um inteiro pequeno.
pub fn fazer_numero(n: i64) -> (r: Option<VmValor>)
    ensures
        match r {
            Some(v) => numero_pequeno(n as int) == Some(v@),
            None => numero_pequeno(n as int) is None,
        },
{
    if -1000000000000000 < n && n < 1000000000000000 {
        Some(VmValor::Num(Decimal { bits: decimal::de_inteiro(n), texto: texto::inteiro(n) }))
    } else {
        None
    }
}

/// A falha de uma funcao que quer um argumento.
pub open spec fn quer_um(nome: Seq<char>, n: nat) -> operacoes::SaidaVista {
    operacoes::SaidaVista::Falha("'"@ + nome + "' requer 1 argumento, recebeu "@ + texto::decimal(n))
}

/// A falha de um argumento que nao serve.
pub open spec fn nao_serve(inicio: Seq<char>, v: vm::Visto) -> operacoes::SaidaVista {
    operacoes::SaidaVista::Falha(inicio + vm::texto_de(v))
}

/// Uma falha fixa.
pub open spec fn falha(m: Seq<char>) -> operacoes::SaidaVista {
    operacoes::SaidaVista::Falha(m)
}

/// Um valor.
pub open spec fn da(v: vm::Visto) -> operacoes::SaidaVista {
    operacoes::SaidaVista::Valor(v)
}

/// A funcao pedida por inteiro.
pub open spec fn pedida(nome: Seq<char>, args: Seq<vm::Visto>) -> operacoes::SaidaVista {
    operacoes::SaidaVista::Pede(operacoes::PedidoVisto::Nativa { nome, args })
}

pub(crate) fn dizer_quer_um(nome: &str, n: usize) -> (r: Saida)
    ensures
        r@ == quer_um(nome@, n as nat),
{
    let t = texto::natural(n as u64);
    let mut s = frase("'", nome, "' requer 1 argumento, recebeu ");
    s.append(t.as_str());
    Saida::Falha(s)
}

pub(crate) fn recusar(inicio: &str, v: &VmValor) -> (r: Saida)
    ensures
        r@ == nao_serve(inicio@, v@),
{
    let mut s = inicio.to_owned();
    s.append(v.texto().as_str());
    Saida::Falha(s)
}

pub(crate) fn falhar(m: &str) -> (r: Saida)
    ensures
        r@ == falha(m@),
{
    Saida::Falha(m.to_owned())
}

pub(crate) fn pedir(nome: &str, args: &Vec<VmValor>) -> (r: Saida)
    ensures
        r@ == pedida(nome@, vm::vistos(args@)),
{
    Saida::Pede(Pedido::Nativa { nome: nome.to_owned(), args: copiar_lista(args) })
}

/// Um numero pequeno, ou a funcao pedida.
pub open spec fn numero_ou_pedida(n: int, nome: Seq<char>, args: Seq<vm::Visto>) -> operacoes::SaidaVista {
    match numero_pequeno(n) {
        Some(v) => da(v),
        None => pedida(nome, args),
    }
}

pub(crate) fn numero_ou_pedir(n: usize, nome: &str, args: &Vec<VmValor>) -> (r: Saida)
    ensures
        r@ == numero_ou_pedida(n as int, nome@, vm::vistos(args@)),
{
    if (n as u64) < 1000000000000000 {
        match fazer_numero(n as i64) {
            Some(v) => Saida::Valor(v),
            None => pedir(nome, args),
        }
    } else {
        pedir(nome, args)
    }
}

// ---- Conversoes -------------------------------------------------------------------------

/// O nome do tipo de um valor.
pub open spec fn nome_do_tipo(v: vm::Visto) -> Seq<char> {
    match v {
        vm::Visto::Num(_, _) => "numero"@,
        vm::Visto::Int(_) => "inteiro"@,
        vm::Visto::Str(_) => "texto"@,
        vm::Visto::Bool(_) => "booleano"@,
        vm::Visto::Null => "nulo"@,
        vm::Visto::Lista(_) => "lista"@,
        vm::Visto::Mapa(_) => "mapa"@,
        vm::Visto::Funcao { .. } => "funcao"@,
        vm::Visto::Tensor { .. } => "tensor"@,
        vm::Visto::TensorGrad { .. } => "tensor_grad"@,
        vm::Visto::Bytes(_) => "bytes"@,
        vm::Visto::ConexaoBD(_) => "conexao_bd"@,
        vm::Visto::ConexaoSQLite(_) => "conexao_sqlite"@,
        vm::Visto::Erro { .. } => "erro"@,
    }
}

fn tipo_de(v: &VmValor) -> (r: &'static str)
    ensures
        r@ == nome_do_tipo(v@),
{
    match v {
        VmValor::Num(_) => "numero",
        VmValor::Int(_) => "inteiro",
        VmValor::Str(_) => "texto",
        VmValor::Bool(_) => "booleano",
        VmValor::Null => "nulo",
        VmValor::Lista(_) => "lista",
        VmValor::Mapa(_) => "mapa",
        VmValor::Funcao { .. } => "funcao",
        VmValor::Tensor { .. } => "tensor",
        VmValor::TensorGrad { .. } => "tensor_grad",
        VmValor::Bytes(_) => "bytes",
        VmValor::ConexaoBD(_) => "conexao_bd",
        VmValor::ConexaoSQLite(_) => "conexao_sqlite",
        VmValor::Erro { .. } => "erro",
    }
}

/// A conversao para numero com ponto.
pub open spec fn para_numero(args: Seq<vm::Visto>) -> operacoes::SaidaVista {
    match args[0] {
        vm::Visto::Num(_, _) => da(args[0]),
        vm::Visto::Int(n) => numero_ou_pedida(n as int, "numero"@, args),
        vm::Visto::Str(_) => pedida("numero"@, args),
        vm::Visto::Bool(b) => numero_ou_pedida(
            if b {
                1
            } else {
                0
            },
            "numero"@,
            args,
        ),
        v => falha("Não é possível converter '"@ + vm::texto_de(v) + "' para número"@),
    }
}

fn converter_numero(args: &Vec<VmValor>) -> (r: Saida)
    requires
        args@.len() == 1,
    ensures
        r@ == para_numero(vm::vistos(args@)),
{
    assert(vm::vistos(args@)[0] == args@[0]@);
    match &args[0] {
        VmValor::Num(_) => Saida::Valor(args[0].clone()),
        VmValor::Int(n) => match fazer_numero(*n) {
            Some(v) => Saida::Valor(v),
            None => pedir("numero", args),
        },
        VmValor::Str(_) => pedir("numero", args),
        VmValor::Bool(b) => numero_ou_pedir(
            if *b {
                1
            } else {
                0
            },
            "numero",
            args,
        ),
        _ => {
            let t = args[0].texto();
            Saida::Falha(frase("Não é possível converter '", t.as_str(), "' para número"))
        },
    }
}

/// A conversao para inteiro.
pub open spec fn para_inteiro(args: Seq<vm::Visto>) -> operacoes::SaidaVista {
    match args[0] {
        vm::Visto::Int(_) => da(args[0]),
        vm::Visto::Num(b, _) => da(vm::Visto::Int(decimal::inteiro_de(b) as i64)),
        vm::Visto::Bool(b) => da(
            vm::Visto::Int(
                if b {
                    1
                } else {
                    0
                },
            ),
        ),
        vm::Visto::Str(s) => match busca::lido_inteiro(texto::aparado(s)) {
            Some(n) => da(vm::Visto::Int(n as i64)),
            None => pedida("inteiro"@, args),
        },
        v => nao_serve("'inteiro' requer número, recebeu "@, v),
    }
}

fn converter_inteiro(args: &Vec<VmValor>) -> (r: Saida)
    requires
        args@.len() == 1,
    ensures
        r@ == para_inteiro(vm::vistos(args@)),
{
    assert(vm::vistos(args@)[0] == args@[0]@);
    match &args[0] {
        VmValor::Int(_) => Saida::Valor(args[0].clone()),
        VmValor::Num(d) => Saida::Valor(VmValor::Int(decimal::para_inteiro(d.bits))),
        VmValor::Bool(b) => Saida::Valor(
            VmValor::Int(
                if *b {
                    1
                } else {
                    0
                },
            ),
        ),
        VmValor::Str(s) => {
            let t = busca::aparar_texto(s.as_str());
            match busca::ler_inteiro(t.as_str()) {
                Some(n) => Saida::Valor(VmValor::Int(n)),
                None => pedir("inteiro", args),
            }
        },
        _ => recusar("'inteiro' requer número, recebeu ", &args[0]),
    }
}

/// As conversoes, que querem um argumento.
pub open spec fn conversao(nome: Seq<char>, args: Seq<vm::Visto>) -> Option<operacoes::SaidaVista> {
    if nome == "texto"@ || nome == "numero"@ || nome == "inteiro"@ || nome == "tipo"@ {
        Some(
            if args.len() != 1 {
                quer_um(nome, args.len())
            } else if nome == "texto"@ {
                da(vm::Visto::Str(vm::texto_de(args[0])))
            } else if nome == "numero"@ {
                para_numero(args)
            } else if nome == "inteiro"@ {
                para_inteiro(args)
            } else {
                da(vm::Visto::Str(nome_do_tipo(args[0])))
            },
        )
    } else {
        None
    }
}

/// Uma saida que pode faltar, vista.
pub open spec fn talvez(s: Option<Saida>) -> Option<operacoes::SaidaVista> {
    match s {
        Some(x) => Some(x@),
        None => None,
    }
}

fn converter(nome: &str, args: &Vec<VmValor>) -> (r: Option<Saida>)
    ensures
        talvez(r) == conversao(nome@, vm::vistos(args@)),
{
    let a = nome.eq("texto");
    let b = nome.eq("numero");
    let c = nome.eq("inteiro");
    let d = nome.eq("tipo");
    if !(a || b || c || d) {
        return None;
    }
    if args.len() != 1 {
        return Some(dizer_quer_um(nome, args.len()));
    }
    assert(vm::vistos(args@)[0] == args@[0]@);
    Some(
        if a {
            Saida::Valor(VmValor::Str(args[0].texto()))
        } else if b {
            converter_numero(args)
        } else if c {
            converter_inteiro(args)
        } else {
            Saida::Valor(VmValor::Str(tipo_de(&args[0]).to_owned()))
        },
    )
}

// ---- Textos -----------------------------------------------------------------------------

/// O texto com os sinais da marcacao trocados.
pub open spec fn sem_marcas(s: Seq<char>) -> Seq<char> {
    busca::trocado(busca::trocado(busca::trocado(s, '&', "&amp;"@), '<', "&lt;"@), '>', "&gt;"@)
}

fn tirar_marcas(s: &str) -> (r: String)
    ensures
        r@ == sem_marcas(s@),
{
    let a = busca::trocar(s, '&', "&amp;");
    let b = busca::trocar(a.as_str(), '<', "&lt;");
    busca::trocar(b.as_str(), '>', "&gt;")
}

/// As funcoes de um texto.
pub open spec fn de_um_texto(nome: Seq<char>, args: Seq<vm::Visto>) -> Option<operacoes::SaidaVista> {
    if nome == "maiusculas"@ || nome == "minusculas"@ || nome == "aparar"@ || nome == "html_escapar"@ {
        Some(
            if args.len() != 1 {
                quer_um(nome, args.len())
            } else if nome == "html_escapar"@ {
                da(vm::Visto::Str(sem_marcas(vm::texto_de(args[0]))))
            } else {
                match args[0] {
                    vm::Visto::Str(s) => da(
                        vm::Visto::Str(
                            if nome == "maiusculas"@ {
                                busca::maiusculas_de(s)
                            } else if nome == "minusculas"@ {
                                busca::minusculas_de(s)
                            } else {
                                texto::aparado(s)
                            },
                        ),
                    ),
                    v => nao_serve("'"@ + nome + "' requer texto, recebeu "@, v),
                }
            },
        )
    } else {
        None
    }
}

fn com_um_texto(nome: &str, args: &Vec<VmValor>) -> (r: Option<Saida>)
    ensures
        talvez(r) == de_um_texto(nome@, vm::vistos(args@)),
{
    let a = nome.eq("maiusculas");
    let b = nome.eq("minusculas");
    let c = nome.eq("aparar");
    let d = nome.eq("html_escapar");
    if !(a || b || c || d) {
        return None;
    }
    if args.len() != 1 {
        return Some(dizer_quer_um(nome, args.len()));
    }
    assert(vm::vistos(args@)[0] == args@[0]@);
    if d {
        return Some(Saida::Valor(VmValor::Str(tirar_marcas(args[0].texto().as_str()))));
    }
    Some(
        match &args[0] {
            VmValor::Str(s) => Saida::Valor(
                VmValor::Str(
                    if a {
                        busca::maiusculas(s.as_str())
                    } else if b {
                        busca::minusculas(s.as_str())
                    } else {
                        busca::aparar_texto(s.as_str())
                    },
                ),
            ),
            _ => {
                let inicio = frase("'", nome, "' requer texto, recebeu ");
                recusar(inicio.as_str(), &args[0])
            },
        },
    )
}

/// Os textos entre os separadores, a partir da posicao `i`.
pub open spec fn partes_entre(s: Seq<char>, sep: Seq<char>, i: int) -> Seq<Seq<char>>
    decreases s.len() - i,
{
    if i < 0 || i > s.len() || sep.len() == 0 {
        Seq::empty()
    } else {
        proof {
            busca::lema_primeira(s, sep, i);
        }
        match busca::primeira(s, sep, i) {
            None => seq![s.skip(i)],
            Some(p) => seq![s.subrange(i, p)] + partes_entre(s, sep, p + sep.len()),
        }
    }
}

/// Um texto dividido por um separador; o separador vazio separa os caracteres.
pub open spec fn dividido(s: Seq<char>, sep: Seq<char>) -> Seq<Seq<char>> {
    if sep.len() == 0 {
        seq![Seq::<char>::empty()] + s.map_values(|c: char| seq![c]) + seq![Seq::<char>::empty()]
    } else {
        partes_entre(s, sep, 0)
    }
}

/// Divide um texto por um separador.
pub fn dividir(t: &str, sep: &str) -> (r: Vec<String>)
    ensures
        texto::textos(r@) == dividido(t@, sep@),
{
    let s = texto::caracteres(t);
    let p = texto::caracteres(sep);
    let mut r: Vec<String> = Vec::new();
    assert(s@.len() == s.len() && p@.len() == p.len());
    if p.len() == 0 {
        let vazio = String::new();
        assert(vazio@ =~= Seq::<char>::empty());
        r.push(vazio);
        let ghost letras = s@.map_values(|c: char| seq![c]);
        assert(texto::textos(r@) =~= seq![Seq::<char>::empty()] + letras.take(0));
        let mut i: usize = 0;
        while i < s.len()
            invariant
                i <= s@.len(),
                letras == s@.map_values(|c: char| seq![c]),
                texto::textos(r@) == seq![Seq::<char>::empty()] + letras.take(i as int),
            decreases s@.len() - i,
        {
            let ghost antes = r@;
            r.push(operacoes::uma_letra(s[i]));
            assert(texto::textos(r@) =~= texto::textos(antes).push(seq![s@[i as int]]));
            assert(letras.take(i + 1) =~= letras.take(i as int).push(seq![s@[i as int]]));
            assert(texto::textos(r@) =~= seq![Seq::<char>::empty()] + letras.take(i + 1));
            i += 1;
        }
        let ghost antes = r@;
        let vazio = String::new();
        assert(vazio@ =~= Seq::<char>::empty());
        r.push(vazio);
        assert(letras.take(i as int) =~= letras);
        assert(texto::textos(r@) =~= texto::textos(antes).push(Seq::<char>::empty()));
        assert(texto::textos(r@) =~= dividido(t@, sep@));
        return r;
    }
    let mut i: usize = 0;
    assert(texto::textos(r@) =~= Seq::<Seq<char>>::empty());
    assert(partes_entre(s@, p@, 0) =~= texto::textos(r@) + partes_entre(s@, p@, 0));
    loop
        invariant
            i <= s@.len(),
            p@.len() > 0,
            s@.len() == s.len(),
            p@.len() == p.len(),
            s@ == t@,
            p@ == sep@,
            partes_entre(s@, p@, 0) == texto::textos(r@) + partes_entre(s@, p@, i as int),
        decreases s@.len() - i,
    {
        proof {
            busca::lema_primeira(s@, p@, i as int);
        }
        let ghost antes = r@;
        match busca::achar_texto(&s, &p, i) {
            None => {
                let resto = vstd::slice::slice_subrange(s.as_slice(), i, s.len());
                assert(resto@ =~= s@.skip(i as int));
                r.push(texto::de_caracteres(resto));
                assert(texto::textos(r@) =~= texto::textos(antes).push(s@.skip(i as int)));
                assert(texto::textos(r@) =~= partes_entre(s@, p@, 0));
                return r;
            },
            Some(q) => {
                let parte = vstd::slice::slice_subrange(s.as_slice(), i, q);
                assert(parte@ =~= s@.subrange(i as int, q as int));
                r.push(texto::de_caracteres(parte));
                assert(texto::textos(r@) =~= texto::textos(antes).push(s@.subrange(i as int, q as int)));
                assert(texto::textos(r@) + partes_entre(s@, p@, q + p@.len()) =~= texto::textos(antes) + partes_entre(
                    s@,
                    p@,
                    i as int,
                ));
                i = q + p.len();
            },
        }
    }
}

/// Uma lista de textos como valores.
pub open spec fn em_valores(v: Seq<Seq<char>>) -> Seq<vm::Visto> {
    v.map_values(|s: Seq<char>| vm::Visto::Str(s))
}

/// Uma lista de textos como valores.
pub fn textos_em_valores(v: Vec<String>) -> (r: Vec<VmValor>)
    ensures
        vm::vistos(r@) == em_valores(texto::textos(v@)),
{
    let mut r: Vec<VmValor> = Vec::new();
    let mut i: usize = 0;
    while i < v.len()
        invariant
            i <= v@.len(),
            r@.len() == i,
            forall|k: int| 0 <= k < i ==> (#[trigger] r@[k])@ == vm::Visto::Str(v@[k]@),
        decreases v@.len() - i,
    {
        r.push(VmValor::Str(v[i].clone()));
        i += 1;
    }
    assert(vm::vistos(r@) =~= em_valores(texto::textos(v@)));
    r
}

/// As funcoes de varios textos. Trocar um texto por outro e dividir por um e juntar com o outro.
pub open spec fn de_textos(nome: Seq<char>, a: Seq<vm::Visto>) -> Option<operacoes::SaidaVista> {
    if nome == "substituir"@ {
        Some(
            if a.len() == 3 && a[0] is Str && a[1] is Str && a[2] is Str {
                da(vm::Visto::Str(busca::juntos(dividido(a[0]->Str_0, a[1]->Str_0), a[2]->Str_0)))
            } else {
                falha("substituir(texto, de, para)"@)
            },
        )
    } else if nome == "dividir"@ {
        Some(
            if a.len() == 2 && a[0] is Str && a[1] is Str {
                da(vm::Visto::Lista(em_valores(dividido(a[0]->Str_0, a[1]->Str_0))))
            } else {
                falha("dividir(texto, sep)"@)
            },
        )
    } else if nome == "juntar"@ {
        Some(
            if a.len() == 2 && a[0] is Lista && a[1] is Str {
                da(vm::Visto::Str(busca::juntos(maquina::textos_de(a[0]->Lista_0), a[1]->Str_0)))
            } else {
                falha("juntar(lista, sep)"@)
            },
        )
    } else if nome == "contem_texto"@ {
        Some(
            if a.len() == 2 && a[0] is Str && a[1] is Str {
                da(vm::Visto::Bool(busca::contem(a[0]->Str_0, a[1]->Str_0)))
            } else {
                falha("contem_texto(texto, sub)"@)
            },
        )
    } else {
        None
    }
}

fn com_textos(nome: &str, args: &Vec<VmValor>) -> (r: Option<Saida>)
    ensures
        talvez(r) == de_textos(nome@, vm::vistos(args@)),
{
    let n = args.len();
    let ghost vs = vm::vistos(args@);
    assert(vs.len() == n);
    assert(n > 0 ==> vs[0] == args@[0]@);
    assert(n > 1 ==> vs[1] == args@[1]@);
    assert(n > 2 ==> vs[2] == args@[2]@);
    if nome.eq("substituir") {
        if n == 3 {
            if let (VmValor::Str(t), VmValor::Str(de), VmValor::Str(para)) = (&args[0], &args[1], &args[2]) {
                let ps = dividir(t.as_str(), de.as_str());
                return Some(Saida::Valor(VmValor::Str(busca::juntar(&ps, para.as_str()))));
            }
        }
        return Some(falhar("substituir(texto, de, para)"));
    }
    if nome.eq("dividir") {
        if n == 2 {
            if let (VmValor::Str(t), VmValor::Str(sep)) = (&args[0], &args[1]) {
                return Some(Saida::Valor(VmValor::Lista(textos_em_valores(dividir(t.as_str(), sep.as_str())))));
            }
        }
        return Some(falhar("dividir(texto, sep)"));
    }
    if nome.eq("juntar") {
        if n == 2 {
            if let (VmValor::Lista(l), VmValor::Str(sep)) = (&args[0], &args[1]) {
                let ts = maquina::escrever_textos(l);
                return Some(Saida::Valor(VmValor::Str(busca::juntar(&ts, sep.as_str()))));
            }
        }
        return Some(falhar("juntar(lista, sep)"));
    }
    if nome.eq("contem_texto") {
        if n == 2 {
            if let (VmValor::Str(t), VmValor::Str(s)) = (&args[0], &args[1]) {
                return Some(Saida::Valor(VmValor::Bool(busca::contem_texto(t.as_str(), s.as_str()))));
            }
        }
        return Some(falhar("contem_texto(texto, sub)"));
    }
    None
}

// ---- Listas -----------------------------------------------------------------------------

/// Os numeros de um intervalo.
pub open spec fn intervalo_de(ini: int, fim: int) -> Seq<vm::Visto> {
    Seq::new(
        (if fim > ini {
            fim - ini
        } else {
            0
        }) as nat,
        |i: int| vm::Visto::Num(decimal::bits_de(ini + i) as u64, texto::decimal_int(ini + i)),
    )
}

/// Um intervalo, se os seus numeros sao pequenos.
pub open spec fn intervalo(ini: int, fim: int, args: Seq<vm::Visto>) -> operacoes::SaidaVista {
    if -1000000000000000 < ini && fim < 1000000000000000 {
        da(vm::Visto::Lista(intervalo_de(ini, fim)))
    } else {
        pedida("intervalo"@, args)
    }
}

fn fazer_intervalo(ini: i64, fim: i64, args: &Vec<VmValor>) -> (r: Saida)
    ensures
        r@ == intervalo(ini as int, fim as int, vm::vistos(args@)),
{
    if !(-1000000000000000 < ini && fim < 1000000000000000) {
        return pedir("intervalo", args);
    }
    let mut l: Vec<VmValor> = Vec::new();
    let mut i: i64 = ini;
    while i < fim
        invariant
            -1000000000000000 < ini <= i,
            i <= fim || i == ini,
            fim < 1000000000000000,
            l@.len() == i - ini,
            forall|k: int|
                0 <= k < l@.len() ==> (#[trigger] l@[k])@ == vm::Visto::Num(
                    decimal::bits_de(ini + k) as u64,
                    texto::decimal_int(ini + k),
                ),
        decreases fim - i,
    {
        l.push(VmValor::Num(Decimal { bits: decimal::de_inteiro(i), texto: texto::inteiro(i) }));
        i += 1;
    }
    assert(vm::vistos(l@) =~= intervalo_de(ini as int, fim as int));
    Saida::Valor(VmValor::Lista(l))
}

/// As funcoes de listas.
pub open spec fn de_listas(nome: Seq<char>, a: Seq<vm::Visto>) -> Option<operacoes::SaidaVista> {
    if nome == "tamanho"@ {
        Some(
            if a.len() != 1 {
                quer_um(nome, a.len())
            } else {
                match a[0] {
                    vm::Visto::Lista(v) => numero_ou_pedida(v.len() as int, nome, a),
                    vm::Visto::Str(s) => numero_ou_pedida(s.len() as int, nome, a),
                    vm::Visto::Mapa(m) => numero_ou_pedida(m.len() as int, nome, a),
                    v => nao_serve("'tamanho' requer lista/texto/mapa, recebeu "@, v),
                }
            },
        )
    } else if nome == "adicionar"@ {
        Some(
            if a.len() != 2 {
                falha("'adicionar' requer 2 argumentos"@)
            } else {
                match a[0] {
                    vm::Visto::Lista(v) => da(vm::Visto::Lista(v.push(a[1]))),
                    v => nao_serve("'adicionar' requer lista, recebeu "@, v),
                }
            },
        )
    } else if nome == "remover"@ {
        Some(
            if a.len() == 2 && a[0] is Lista && a[1] is Num {
                let i = decimal::indice(a[1]->Num_0);
                if i < a[0]->Lista_0.len() {
                    da(vm::Visto::Lista(a[0]->Lista_0.remove(i)))
                } else {
                    falha(operacoes::fora(i))
                }
            } else {
                falha("remover(lista, índice)"@)
            },
        )
    } else if nome == "intervalo"@ {
        Some(
            if a.len() == 1 && a[0] is Num {
                intervalo(0, decimal::inteiro_de(a[0]->Num_0), a)
            } else if a.len() == 2 && a[0] is Num && a[1] is Num {
                intervalo(decimal::inteiro_de(a[0]->Num_0), decimal::inteiro_de(a[1]->Num_0), a)
            } else {
                falha("intervalo(fim) ou intervalo(ini, fim)"@)
            },
        )
    } else {
        None
    }
}

fn com_listas(nome: &str, args: &Vec<VmValor>) -> (r: Option<Saida>)
    ensures
        talvez(r) == de_listas(nome@, vm::vistos(args@)),
{
    let n = args.len();
    let ghost vs = vm::vistos(args@);
    assert(vs.len() == n);
    assert(n > 0 ==> vs[0] == args@[0]@);
    assert(n > 1 ==> vs[1] == args@[1]@);
    if nome.eq("tamanho") {
        if n != 1 {
            return Some(dizer_quer_um(nome, n));
        }
        return Some(
            match &args[0] {
                VmValor::Lista(v) => numero_ou_pedir(v.len(), nome, args),
                VmValor::Str(s) => {
                    let cs = texto::caracteres(s.as_str());
                    numero_ou_pedir(cs.len(), nome, args)
                },
                VmValor::Mapa(m) => numero_ou_pedir(m.len(), nome, args),
                _ => recusar("'tamanho' requer lista/texto/mapa, recebeu ", &args[0]),
            },
        );
    }
    if nome.eq("adicionar") {
        if n != 2 {
            return Some(falhar("'adicionar' requer 2 argumentos"));
        }
        return Some(
            match &args[0] {
                VmValor::Lista(v) => {
                    let mut l = copiar_lista(v);
                    let ghost antes = l@;
                    l.push(args[1].clone());
                    assert(vm::vistos(l@) =~= vm::vistos(antes).push(vs[1]));
                    Saida::Valor(VmValor::Lista(l))
                },
                _ => recusar("'adicionar' requer lista, recebeu ", &args[0]),
            },
        );
    }
    if nome.eq("remover") {
        if n == 2 {
            if let (VmValor::Lista(v), VmValor::Num(d)) = (&args[0], &args[1]) {
                let i = decimal::para_indice(d.bits);
                if i < v.len() {
                    let mut l = copiar_lista(v);
                    assert(l@.len() == vm::vistos(l@).len());
                    let ghost antes = l@;
                    let _x = l.remove(i);
                    assert(vm::vistos(l@) =~= vm::vistos(antes).remove(i as int));
                    return Some(Saida::Valor(VmValor::Lista(l)));
                }
                return Some(Saida::Falha(dizer_fora(i)));
            }
        }
        return Some(falhar("remover(lista, índice)"));
    }
    if nome.eq("intervalo") {
        if n == 1 {
            if let VmValor::Num(d) = &args[0] {
                return Some(fazer_intervalo(0, decimal::para_inteiro(d.bits), args));
            }
        }
        if n == 2 {
            if let (VmValor::Num(d), VmValor::Num(e)) = (&args[0], &args[1]) {
                return Some(fazer_intervalo(decimal::para_inteiro(d.bits), decimal::para_inteiro(e.bits), args));
            }
        }
        return Some(falhar("intervalo(fim) ou intervalo(ini, fim)"));
    }
    None
}

// ---- Mapas ------------------------------------------------------------------------------

/// As chaves de um mapa.
pub open spec fn chaves_de(m: Seq<(Seq<char>, vm::Visto)>) -> Seq<Seq<char>> {
    m.map_values(|p: (Seq<char>, vm::Visto)| p.0)
}

/// Os valores de um mapa.
pub open spec fn valores_de(m: Seq<(Seq<char>, vm::Visto)>) -> Seq<vm::Visto> {
    m.map_values(|p: (Seq<char>, vm::Visto)| p.1)
}

fn listar_chaves(m: &Vec<(String, VmValor)>) -> (r: Vec<String>)
    ensures
        texto::textos(r@) == chaves_de(vm::pares_vistos(m@)),
{
    let mut r: Vec<String> = Vec::new();
    let mut i: usize = 0;
    while i < m.len()
        invariant
            i <= m@.len(),
            r@.len() == i,
            forall|k: int| 0 <= k < i ==> (#[trigger] r@[k])@ == m@[k].0@,
        decreases m@.len() - i,
    {
        r.push(m[i].0.clone());
        i += 1;
    }
    assert(texto::textos(r@) =~= chaves_de(vm::pares_vistos(m@)));
    r
}

fn listar_valores(m: &Vec<(String, VmValor)>) -> (r: Vec<VmValor>)
    ensures
        vm::vistos(r@) == valores_de(vm::pares_vistos(m@)),
{
    let mut r: Vec<VmValor> = Vec::new();
    let mut i: usize = 0;
    while i < m.len()
        invariant
            i <= m@.len(),
            r@.len() == i,
            forall|k: int| 0 <= k < i ==> (#[trigger] r@[k])@ == m@[k].1@,
        decreases m@.len() - i,
    {
        r.push(m[i].1.clone());
        i += 1;
    }
    assert(vm::vistos(r@) =~= valores_de(vm::pares_vistos(m@)));
    r
}

/// As funcoes de mapas.
pub open spec fn de_mapas(nome: Seq<char>, a: Seq<vm::Visto>) -> Option<operacoes::SaidaVista> {
    if nome == "mapa"@ {
        Some(da(vm::Visto::Mapa(Seq::empty())))
    } else if nome == "mapa_definir"@ {
        Some(
            if a.len() == 3 && a[0] is Mapa && a[1] is Str {
                da(vm::Visto::Mapa(vm::com_valor(a[0]->Mapa_0, a[1]->Str_0, a[2])))
            } else {
                falha("mapa_definir(mapa, chave, valor)"@)
            },
        )
    } else if nome == "mapa_obter"@ {
        Some(
            if a.len() == 2 && a[0] is Mapa && a[1] is Str {
                da(
                    match vm::valor_de(a[0]->Mapa_0, a[1]->Str_0) {
                        Some(v) => v,
                        None => vm::Visto::Null,
                    },
                )
            } else {
                falha("mapa_obter(mapa, chave)"@)
            },
        )
    } else if nome == "mapa_tem"@ {
        Some(
            if a.len() == 2 && a[0] is Mapa && a[1] is Str {
                da(vm::Visto::Bool(vm::lugar(a[0]->Mapa_0, a[1]->Str_0, 0) is Some))
            } else {
                falha("mapa_tem(mapa, chave)"@)
            },
        )
    } else if nome == "mapa_remover"@ {
        Some(
            if a.len() == 2 && a[0] is Mapa && a[1] is Str {
                da(vm::Visto::Mapa(vm::sem_chave(a[0]->Mapa_0, a[1]->Str_0)))
            } else {
                falha("mapa_remover(mapa, chave)"@)
            },
        )
    } else if nome == "mapa_chaves"@ || nome == "mapa_valores"@ {
        Some(
            if a.len() != 1 {
                quer_um(nome, a.len())
            } else {
                match a[0] {
                    vm::Visto::Mapa(m) => da(
                        vm::Visto::Lista(
                            if nome == "mapa_chaves"@ {
                                em_valores(ordem::ordenadas(chaves_de(m)))
                            } else {
                                valores_de(m)
                            },
                        ),
                    ),
                    v => nao_serve("'"@ + nome + "' requer mapa, recebeu "@, v),
                }
            },
        )
    } else {
        None
    }
}

fn com_mapas(nome: &str, args: &Vec<VmValor>) -> (r: Option<Saida>)
    ensures
        talvez(r) == de_mapas(nome@, vm::vistos(args@)),
{
    let n = args.len();
    let ghost vs = vm::vistos(args@);
    assert(vs.len() == n);
    assert(n > 0 ==> vs[0] == args@[0]@);
    assert(n > 1 ==> vs[1] == args@[1]@);
    assert(n > 2 ==> vs[2] == args@[2]@);
    if nome.eq("mapa") {
        let m: Vec<(String, VmValor)> = Vec::new();
        assert(vm::pares_vistos(m@) =~= Seq::empty());
        return Some(Saida::Valor(VmValor::Mapa(m)));
    }
    if nome.eq("mapa_definir") {
        if n == 3 {
            if let (VmValor::Mapa(m), VmValor::Str(k)) = (&args[0], &args[1]) {
                let mut c = copiar_pares(m);
                guardar(&mut c, k.clone(), args[2].clone());
                return Some(Saida::Valor(VmValor::Mapa(c)));
            }
        }
        return Some(falhar("mapa_definir(mapa, chave, valor)"));
    }
    if nome.eq("mapa_obter") {
        if n == 2 {
            if let (VmValor::Mapa(m), VmValor::Str(k)) = (&args[0], &args[1]) {
                return Some(Saida::Valor(obter_ou_nulo(m, k.as_str())));
            }
        }
        return Some(falhar("mapa_obter(mapa, chave)"));
    }
    if nome.eq("mapa_tem") {
        if n == 2 {
            if let (VmValor::Mapa(m), VmValor::Str(k)) = (&args[0], &args[1]) {
                return Some(Saida::Valor(VmValor::Bool(achar_chave(m, k.as_str()).is_some())));
            }
        }
        return Some(falhar("mapa_tem(mapa, chave)"));
    }
    if nome.eq("mapa_remover") {
        if n == 2 {
            if let (VmValor::Mapa(m), VmValor::Str(k)) = (&args[0], &args[1]) {
                let mut c = copiar_pares(m);
                tirar(&mut c, k.as_str());
                return Some(Saida::Valor(VmValor::Mapa(c)));
            }
        }
        return Some(falhar("mapa_remover(mapa, chave)"));
    }
    let chaves = nome.eq("mapa_chaves");
    if chaves || nome.eq("mapa_valores") {
        if n != 1 {
            return Some(dizer_quer_um(nome, n));
        }
        return Some(
            match &args[0] {
                VmValor::Mapa(m) => Saida::Valor(
                    VmValor::Lista(
                        if chaves {
                            textos_em_valores(ordem::ordenar(listar_chaves(m)))
                        } else {
                            listar_valores(m)
                        },
                    ),
                ),
                _ => {
                    let inicio = frase("'", nome, "' requer mapa, recebeu ");
                    recusar(inicio.as_str(), &args[0])
                },
            },
        );
    }
    None
}

// ---- Todas ------------------------------------------------------------------------------

/// O que uma funcao nativa da.
pub open spec fn nativa(nome: Seq<char>, args: Seq<vm::Visto>) -> operacoes::SaidaVista {
    match dispositivos::de_dispositivo(nome, args) {
        Some(s) => s,
        None => match conversao(nome, args) {
            Some(s) => s,
            None => match de_um_texto(nome, args) {
                Some(s) => s,
                None => match de_textos(nome, args) {
                    Some(s) => s,
                    None => match de_listas(nome, args) {
                        Some(s) => s,
                        None => match de_mapas(nome, args) {
                            Some(s) => s,
                            None => match nativas_tensor::de_tensores(nome, args) {
                                Some(s) => s,
                                None => match nativas_numeros::de_numeros(nome, args) {
                                    Some(s) => s,
                                    None => match efeitos::de_efeito(nome, args) {
                                        Some(s) => s,
                                        None => ponte::passada(nome, args),
                                    },
                                },
                            },
                        },
                    },
                },
            },
        },
    }
}

/// Chama uma funcao nativa.
pub fn chamar_nativa(nome: &str, args: Vec<VmValor>) -> (r: Saida)
    ensures
        r@ == nativa(nome@, vm::vistos(args@)),
{
    if let Some(s) = dispositivos::com_dispositivo(nome, &args) {
        return s;
    }
    if let Some(s) = converter(nome, &args) {
        return s;
    }
    if let Some(s) = com_um_texto(nome, &args) {
        return s;
    }
    if let Some(s) = com_textos(nome, &args) {
        return s;
    }
    if let Some(s) = com_listas(nome, &args) {
        return s;
    }
    if let Some(s) = com_mapas(nome, &args) {
        return s;
    }
    if let Some(s) = nativas_tensor::com_tensores(nome, &args) {
        return s;
    }
    if let Some(s) = nativas_numeros::com_numeros(nome, &args) {
        return s;
    }
    if let Some(s) = efeitos::com_efeito(nome, &args) {
        return s;
    }
    ponte::chamar(nome, args)
}

} // verus!
