//! As funcoes nativas que se conferem antes de pedir: o que elas querem receber, e as contas com
//! inteiros e tamanhos.

use vstd::arithmetic::power;
use vstd::prelude::*;
use crate::aplicar::Feito;
use crate::aplicar;
use crate::decimal::Decimal;
use crate::nativas_arvore::{dar, falhar, querer, recusar, requerer, Chamado};
use crate::nativas_arvore;
use crate::nativas_numeros;
use crate::texto;
use crate::valor::Valor;
use crate::valor;
use crate::vm::frase;

verus! {

// ---- O que se exige ---------------------------------------------------------------------

/// O tipo que uma funcao quer receber.
#[derive(Debug, Clone, Copy, PartialEq, Eq, Structural)]
pub enum Tipo {
    Texto,
    Numero,
    Inteiro,
    Positivo,
    Tensor,
    Bytes,
    ConexaoBD,
    ConexaoSQLite,
}

/// Se um valor e do tipo.
pub open spec fn serve(t: Tipo, v: valor::Dado) -> bool {
    match t {
        Tipo::Texto => v is Texto,
        Tipo::Numero => v is Inteiro || v is Numero,
        Tipo::Inteiro => v is Inteiro,
        Tipo::Positivo => v is Inteiro && v->Inteiro_0 > 0,
        Tipo::Tensor => v is Tensor,
        Tipo::Bytes => v is Bytes,
        Tipo::ConexaoBD => v is ConexaoBD,
        Tipo::ConexaoSQLite => v is ConexaoSQLite,
    }
}

/// O que uma funcao de um argumento quer, e como recusa o que nao serve.
pub open spec fn exigencia(nome: Seq<char>) -> Option<(Tipo, Seq<char>)> {
    if nome == "ler_arquivo"@ || nome == "arquivo_existe"@ || nome == "apagar_arquivo"@ || nome == "listar_arquivos"@ || nome == "criar_diretorio"@ || nome == "eh_arquivo"@ || nome == "eh_diretorio"@ || nome == "csv_ler"@ || nome == "csv_ler_mapa"@ || nome == "imagem_ler"@ || nome == "imagem_ler_tensor"@ || nome == "imagem_info"@ || nome == "imagem_largura"@ || nome == "imagem_altura"@ || nome == "sessao_obter"@ || nome == "sessao_remover"@ || nome == "cookie_obter"@ || nome == "entrada_get"@ || nome == "entrada_post"@ {
        Some((Tipo::Texto, "'"@ + nome + "' requer "@ + "texto"@ + ", recebeu "@))
    } else if nome == "raiz"@ || nome == "logaritmo"@ || nome == "seno"@ || nome == "cosseno"@ || nome == "tangente"@ {
        Some((Tipo::Numero, "'"@ + nome + "' requer "@ + "numero"@ + ", recebeu "@))
    } else if nome == "dormir"@ {
        Some((Tipo::Numero, "'"@ + nome + "' requer "@ + "numero (ms)"@ + ", recebeu "@))
    } else if nome == "tensor_quantizar_int8"@ || nome == "tensor_quantizar_f16"@ {
        Some((Tipo::Tensor, "'"@ + nome + "' requer "@ + "tensor"@ + ", recebeu "@))
    } else if nome == "bd_fechar"@ {
        Some((Tipo::ConexaoBD, "'"@ + nome + "' requer "@ + "conexao"@ + ", recebeu "@))
    } else if nome == "sqlite_fechar"@ {
        Some((Tipo::ConexaoSQLite, "'"@ + nome + "' requer "@ + "conexao SQLite"@ + ", recebeu "@))
    } else if nome == "obter_url"@ || nome == "bd_conectar"@ {
        Some((Tipo::Texto, "'"@ + nome + "' requer "@ + "URL em texto"@ + ", recebeu "@))
    } else if nome == "sqlite_conectar"@ {
        Some((Tipo::Texto, "'"@ + nome + "' requer "@ + "caminho em texto"@ + ", recebeu "@))
    } else if nome == "modelo_obter"@ || nome == "modelo_existe"@ || nome == "modelo_descarregar"@ {
        Some((Tipo::Texto, nome + ": nome deve ser texto, recebeu "@))
    } else if nome == "ffi_carregar"@ || nome == "mmap_abrir"@ {
        Some((Tipo::Texto, nome + ": caminho deve ser texto, recebeu "@))
    } else if nome == "ws_enviar"@ || nome == "ws_broadcast"@ {
        Some((Tipo::Texto, nome + ": requer texto, recebeu "@))
    } else if nome == "ws_enviar_bytes"@ {
        Some((Tipo::Bytes, nome + ": requer bytes, recebeu "@))
    } else if nome == "mmap_fechar"@ || nome == "mmap_tamanho"@ {
        Some((Tipo::Inteiro, nome + ": requer inteiro, recebeu "@))
    } else if nome == "ffi_fechar"@ {
        Some((Tipo::Positivo, nome + ": identificador deve ser inteiro positivo, recebeu "@))
    } else {
        None
    }
}

fn conferir(t: Tipo, v: &Valor) -> (r: bool)
    ensures
        r == serve(t, v@),
{
    match t {
        Tipo::Texto => matches!(v, Valor::Texto(_)),
        Tipo::Numero => matches!(v, Valor::Inteiro(_)) || matches!(v, Valor::Numero(_)),
        Tipo::Inteiro => matches!(v, Valor::Inteiro(_)),
        Tipo::Positivo => match v {
            Valor::Inteiro(n) => *n > 0,
            _ => false,
        },
        Tipo::Tensor => match v {
            Valor::Tensor { .. } => true,
            _ => false,
        },
        Tipo::Bytes => matches!(v, Valor::Bytes(_)),
        Tipo::ConexaoBD => matches!(v, Valor::ConexaoBD(_)),
        Tipo::ConexaoSQLite => matches!(v, Valor::ConexaoSQLite(_)),
    }
}

fn dizer_requer(nome: &str, o_que: &str) -> (r: String)
    ensures
        r@ == "'"@ + nome@ + "' requer "@ + o_que@ + ", recebeu "@,
{
    let mut s = frase("'", nome, "' requer ");
    s.append(o_que);
    s.append(", recebeu ");
    s
}

pub(crate) fn emendar(a: &str, b: &str) -> (r: String)
    ensures
        r@ == a@ + b@,
{
    let mut s = a.to_owned();
    s.append(b);
    s
}

fn o_que_exige(nome: &str) -> (r: Option<(Tipo, String)>)
    ensures
        match r {
            Some((t, m)) => exigencia(nome@) == Some((t, m@)),
            None => exigencia(nome@) is None,
        },
{
    if nome.eq("ler_arquivo") || nome.eq("arquivo_existe") || nome.eq("apagar_arquivo") || nome.eq("listar_arquivos") || nome.eq("criar_diretorio") || nome.eq("eh_arquivo") || nome.eq("eh_diretorio") || nome.eq("csv_ler") || nome.eq("csv_ler_mapa") || nome.eq("imagem_ler") || nome.eq("imagem_ler_tensor") || nome.eq("imagem_info") || nome.eq("imagem_largura") || nome.eq("imagem_altura") || nome.eq("sessao_obter") || nome.eq("sessao_remover") || nome.eq("cookie_obter") || nome.eq("entrada_get") || nome.eq("entrada_post") {
        Some((Tipo::Texto, dizer_requer(nome, "texto")))
    } else if nome.eq("raiz") || nome.eq("logaritmo") || nome.eq("seno") || nome.eq("cosseno") || nome.eq("tangente") {
        Some((Tipo::Numero, dizer_requer(nome, "numero")))
    } else if nome.eq("dormir") {
        Some((Tipo::Numero, dizer_requer(nome, "numero (ms)")))
    } else if nome.eq("tensor_quantizar_int8") || nome.eq("tensor_quantizar_f16") {
        Some((Tipo::Tensor, dizer_requer(nome, "tensor")))
    } else if nome.eq("bd_fechar") {
        Some((Tipo::ConexaoBD, dizer_requer(nome, "conexao")))
    } else if nome.eq("sqlite_fechar") {
        Some((Tipo::ConexaoSQLite, dizer_requer(nome, "conexao SQLite")))
    } else if nome.eq("obter_url") || nome.eq("bd_conectar") {
        Some((Tipo::Texto, dizer_requer(nome, "URL em texto")))
    } else if nome.eq("sqlite_conectar") {
        Some((Tipo::Texto, dizer_requer(nome, "caminho em texto")))
    } else if nome.eq("modelo_obter") || nome.eq("modelo_existe") || nome.eq("modelo_descarregar") {
        Some((Tipo::Texto, emendar(nome, ": nome deve ser texto, recebeu ")))
    } else if nome.eq("ffi_carregar") || nome.eq("mmap_abrir") {
        Some((Tipo::Texto, emendar(nome, ": caminho deve ser texto, recebeu ")))
    } else if nome.eq("ws_enviar") || nome.eq("ws_broadcast") {
        Some((Tipo::Texto, emendar(nome, ": requer texto, recebeu ")))
    } else if nome.eq("ws_enviar_bytes") {
        Some((Tipo::Bytes, emendar(nome, ": requer bytes, recebeu ")))
    } else if nome.eq("mmap_fechar") || nome.eq("mmap_tamanho") {
        Some((Tipo::Inteiro, emendar(nome, ": requer inteiro, recebeu ")))
    } else if nome.eq("ffi_fechar") {
        Some((Tipo::Positivo, emendar(nome, ": identificador deve ser inteiro positivo, recebeu ")))
    } else {
        None
    }
}

// ---- Contas com inteiros ----------------------------------------------------------------

/// Um inteiro, se ele cabe.
pub open spec fn inteiro(n: int) -> nativas_arvore::ChamadoVisto {
    nativas_arvore::ChamadoVisto::Feito(aplicar::inteiro_ou_panico(n))
}

/// O expoente que se usa: sem o que nao cabe em trinta e dois bits.
pub open spec fn expoente(e: i64) -> nat {
    (e as int % 0x1_0000_0000) as nat
}

/// Uma potencia.
pub open spec fn potencia(a: valor::Dado, b: valor::Dado) -> nativas_arvore::ChamadoVisto {
    match (a, b) {
        (valor::Dado::Inteiro(x), valor::Dado::Inteiro(e)) => if e >= 0 {
            inteiro(power::pow(x as int, expoente(e)))
        } else {
            nativas_arvore::ChamadoVisto::Pedida
        },
        (valor::Dado::Inteiro(_), valor::Dado::Numero(_, _)) | (valor::Dado::Numero(_, _), valor::Dado::Inteiro(_)) | (
            valor::Dado::Numero(_, _),
            valor::Dado::Numero(_, _),
        ) => nativas_arvore::ChamadoVisto::Pedida,
        _ => nativas_arvore::falha("potencia(base, expoente)"@),
    }
}

proof fn lema_um(e: nat)
    ensures
        power::pow(1, e) == 1,
        e > 0 ==> power::pow(0, e) == 0,
        power::pow(-1, e) == (if e % 2 == 0 {
            1int
        } else {
            -1int
        }),
    decreases e,
{
    reveal(power::pow);
    if e > 0 {
        lema_um((e - 1) as nat);
    }
}

proof fn lema_cresce(x: int, i: nat, e: nat)
    requires
        i <= e,
        x >= 2 || x <= -2,
    ensures
        x >= 2 ==> power::pow(x, i) <= power::pow(x, e) && power::pow(x, i) >= 1,
        x <= -2 ==> aplicar::absoluto(power::pow(x, i)) <= aplicar::absoluto(power::pow(x, e)) && aplicar::absoluto(
            power::pow(x, i),
        ) >= 1,
    decreases e,
{
    reveal(power::pow);
    if i < e {
        lema_cresce(x, i, (e - 1) as nat);
        let p = power::pow(x, (e - 1) as nat);
        assert(power::pow(x, e) == x * p);
        assert(x >= 2 && p >= 1 ==> x * p >= p) by (nonlinear_arith);
        assert(x <= -2 && p >= 1 ==> x * p <= -p) by (nonlinear_arith);
        assert(x <= -2 && p <= -1 ==> x * p >= -p) by (nonlinear_arith);
    } else if e > 0 {
        lema_cresce(x, (e - 1) as nat, (e - 1) as nat);
        let p = power::pow(x, (e - 1) as nat);
        assert(power::pow(x, e) == x * p);
        assert(x >= 2 && p >= 1 ==> x * p >= p) by (nonlinear_arith);
        assert(x <= -2 && p >= 1 ==> x * p <= -p) by (nonlinear_arith);
        assert(x <= -2 && p <= -1 ==> x * p >= -p) by (nonlinear_arith);
    }
}

proof fn lema_estoura(x: int, i: nat, e: nat)
    requires
        i <= e,
        x >= 2 || x <= -2,
        !(i64::MIN <= power::pow(x, i) <= i64::MAX),
    ensures
        !(i64::MIN <= power::pow(x, e) <= i64::MAX),
    decreases e - i,
{
    reveal(power::pow);
    if i < e {
        let p = power::pow(x, i);
        let q = power::pow(x, (i + 1) as nat);
        assert(q == x * p);
        assert(x >= 2 && p >= 1 ==> x * p >= p) by (nonlinear_arith);
        assert(x <= -2 && p >= 1 ==> x * p <= -2 * p) by (nonlinear_arith);
        assert(x <= -2 && p <= -1 ==> x * p >= -2 * p) by (nonlinear_arith);
        lema_cresce(x, i, i);
        lema_estoura(x, (i + 1) as nat, e);
    }
}

fn elevar(x: i64, e: i64) -> (r: Chamado)
    requires
        e >= 0,
    ensures
        r@ == inteiro(power::pow(x as int, expoente(e))),
{
    let n: u64 = e as u64 % 0x1_0000_0000;
    assert(n == expoente(e));
    proof {
        lema_um(n as nat);
        power::lemma_pow0(x as int);
    }
    if n == 0 {
        return dar(Valor::Inteiro(1));
    }
    if x == 0 || x == 1 {
        return dar(Valor::Inteiro(x));
    }
    if x == -1 {
        return dar(
            Valor::Inteiro(
                if n % 2 == 0 {
                    1
                } else {
                    -1
                },
            ),
        );
    }
    let mut p: i64 = 1;
    let mut i: u64 = 0;
    while i < n
        invariant
            i <= n,
            x >= 2 || x <= -2,
            p == power::pow(x as int, i as nat),
            n == expoente(e),
        decreases n - i,
    {
        proof {
            reveal(power::pow);
            assert(power::pow(x as int, (i + 1) as nat) == x * power::pow(x as int, i as nat));
            assert(x * p == p * x) by (nonlinear_arith);
        }
        match p.checked_mul(x) {
            Some(q) => {
                p = q;
            },
            None => {
                proof {
                    lema_estoura(x as int, (i + 1) as nat, n as nat);
                }
                return Chamado::Feito(Feito::Panico);
            },
        }
        i += 1;
    }
    dar(Valor::Inteiro(p))
}

fn fazer_potencia(a: &Valor, b: &Valor) -> (r: Chamado)
    ensures
        r@ == potencia(a@, b@),
{
    match (a, b) {
        (Valor::Inteiro(x), Valor::Inteiro(e)) => if *e >= 0 {
            elevar(*x, *e)
        } else {
            Chamado::Pedida
        },
        (Valor::Inteiro(_), Valor::Numero(_)) | (Valor::Numero(_), Valor::Inteiro(_)) | (
            Valor::Numero(_),
            Valor::Numero(_),
        ) => Chamado::Pedida,
        _ => falhar("potencia(base, expoente)"),
    }
}

/// O menor ou o maior de dois valores. Os numeros com ponto sao pedidos.
pub open spec fn extremo(nome: Seq<char>, a: valor::Dado, b: valor::Dado) -> nativas_arvore::ChamadoVisto {
    match (a, b) {
        (valor::Dado::Inteiro(x), valor::Dado::Inteiro(y)) => nativas_arvore::da(
            valor::Dado::Inteiro(
                if (nome == "minimo"@) == (x <= y) {
                    x
                } else {
                    y
                },
            ),
        ),
        _ => if serve(Tipo::Numero, a) && serve(Tipo::Numero, b) {
            nativas_arvore::ChamadoVisto::Pedida
        } else {
            nativas_arvore::falha(nome + "(a, b) requer numeros"@)
        },
    }
}

fn fazer_extremo(nome: &str, a: &Valor, b: &Valor) -> (r: Chamado)
    ensures
        r@ == extremo(nome@, a@, b@),
{
    match (a, b) {
        (Valor::Inteiro(x), Valor::Inteiro(y)) => dar(
            Valor::Inteiro(
                if nome.eq("minimo") == (*x <= *y) {
                    *x
                } else {
                    *y
                },
            ),
        ),
        _ => if conferir(Tipo::Numero, a) && conferir(Tipo::Numero, b) {
            Chamado::Pedida
        } else {
            let m = emendar(nome, "(a, b) requer numeros");
            Chamado::Feito(Feito::Falha(m))
        },
    }
}

/// As contas de um valor.
pub open spec fn conta_de(nome: Seq<char>, v: valor::Dado) -> nativas_arvore::ChamadoVisto {
    if nome == "eh_numero"@ {
        match v {
            valor::Dado::Inteiro(_) | valor::Dado::Numero(_, _) => nativas_arvore::da(valor::Dado::Booleano(true)),
            valor::Dado::Texto(_) => nativas_arvore::ChamadoVisto::Pedida,
            _ => nativas_arvore::da(valor::Dado::Booleano(false)),
        }
    } else {
        match v {
            valor::Dado::Inteiro(n) => if nome == "absoluto"@ {
                inteiro(aplicar::absoluto(n as int))
            } else {
                nativas_arvore::da(v)
            },
            valor::Dado::Numero(_, _) => nativas_arvore::ChamadoVisto::Pedida,
            _ => nativas_arvore::requer(nome, "numero"@, v),
        }
    }
}

fn fazer_conta(nome: &str, v: &Valor) -> (r: Chamado)
    ensures
        r@ == conta_de(nome@, v@),
{
    if nome.eq("eh_numero") {
        match v {
            Valor::Inteiro(_) | Valor::Numero(_) => dar(Valor::Booleano(true)),
            Valor::Texto(_) => Chamado::Pedida,
            _ => dar(Valor::Booleano(false)),
        }
    } else {
        match v {
            Valor::Inteiro(n) => if nome.eq("absoluto") {
                if *n == i64::MIN {
                    Chamado::Feito(Feito::Panico)
                } else if *n < 0 {
                    dar(Valor::Inteiro(-*n))
                } else {
                    dar(Valor::Inteiro(*n))
                }
            } else {
                dar(v.clone())
            },
            Valor::Numero(_) => Chamado::Pedida,
            _ => requerer(nome, "numero", v),
        }
    }
}

// ---- Tamanhos de tensores ---------------------------------------------------------------

/// As dimensoes como inteiros.
pub open spec fn em_inteiros(s: Seq<usize>) -> Seq<valor::Dado> {
    s.map_values(|n: usize| valor::Dado::Inteiro(n as i64))
}

pub(crate) fn listar_dimensoes(s: &Vec<usize>) -> (r: Vec<Valor>)
    ensures
        valor::vistos(r@) == em_inteiros(s@),
{
    let mut r: Vec<Valor> = Vec::new();
    let mut i: usize = 0;
    while i < s.len()
        invariant
            i <= s@.len(),
            r@.len() == i,
            forall|k: int| 0 <= k < i ==> (#[trigger] r@[k])@ == valor::Dado::Inteiro(s@[k] as i64),
        decreases s@.len() - i,
    {
        let n =
            #[verifier::truncate]
            (s[i] as i64);
        r.push(Valor::Inteiro(n));
        i += 1;
    }
    assert(valor::vistos(r@) =~= em_inteiros(s@));
    r
}

/// O que se mede de um tensor.
pub open spec fn medida(nome: Seq<char>, v: valor::Dado) -> nativas_arvore::ChamadoVisto {
    match v {
        valor::Dado::Tensor { shape, dados } => if nome == "tensor_shape"@ {
            nativas_arvore::da(valor::Dado::Lista(em_inteiros(shape)))
        } else if nome == "tensor_ndim"@ {
            nativas_arvore::da(valor::Dado::Inteiro(shape.len() as i64))
        } else if nome == "tensor_tamanho"@ {
            nativas_arvore::da(valor::Dado::Inteiro(dados.len() as i64))
        } else if nome == "mat_linhas"@ {
            if shape.len() >= 1 {
                nativas_arvore::da(valor::Dado::Inteiro(shape[0] as i64))
            } else {
                nativas_arvore::requer(nome, "tensor"@, v)
            }
        } else {
            if shape.len() >= 2 {
                nativas_arvore::da(valor::Dado::Inteiro(shape[1] as i64))
            } else {
                nativas_arvore::requer(nome, "tensor 2D"@, v)
            }
        },
        _ => nativas_arvore::requer(
            nome,
            if nome == "mat_colunas"@ {
                "tensor 2D"@
            } else {
                "tensor"@
            },
            v,
        ),
    }
}

fn dar_tamanho(n: usize) -> (r: Chamado)
    ensures
        r@ == nativas_arvore::da(valor::Dado::Inteiro(n as i64)),
{
    dar(
        Valor::Inteiro(
            #[verifier::truncate]
            (n as i64),
        ),
    )
}

fn medir(nome: &str, v: &Valor) -> (r: Chamado)
    requires
        nome@ == "tensor_shape"@ || nome@ == "tensor_ndim"@ || nome@ == "tensor_tamanho"@ || nome@ == "mat_linhas"@ || nome@ == "mat_colunas"@,
    ensures
        r@ == medida(nome@, v@),
{
    match v {
        Valor::Tensor { shape, dados } => {
            assert(crate::vm::numeros(dados@).len() == dados@.len());
            if nome.eq("tensor_shape") {
                dar(Valor::Lista(listar_dimensoes(shape)))
            } else if nome.eq("tensor_ndim") {
                dar_tamanho(shape.len())
            } else if nome.eq("tensor_tamanho") {
                dar_tamanho(dados.len())
            } else if nome.eq("mat_linhas") {
                if shape.len() >= 1 {
                    dar_tamanho(shape[0])
                } else {
                    requerer(nome, "tensor", v)
                }
            } else {
                if shape.len() >= 2 {
                    dar_tamanho(shape[1])
                } else {
                    requerer(nome, "tensor 2D", v)
                }
            }
        },
        _ => if nome.eq("mat_colunas") {
            requerer(nome, "tensor 2D", v)
        } else {
            requerer(nome, "tensor", v)
        },
    }
}

// ---- Consultas e documentos -------------------------------------------------------------

/// A falha do que uma consulta recebe; nada se ela se pode fazer.
pub open spec fn falha_da_consulta(nome: Seq<char>, a: Seq<valor::Dado>) -> Option<nativas_arvore::ChamadoVisto> {
    if a.len() < 2 || a.len() > 3 {
        Some(nativas_arvore::falha(nome + "(conexao, sql, parametros?)"@))
    } else if !(a[1] is Texto) {
        Some(nativas_arvore::requer(nome, "SQL em texto"@, a[1]))
    } else if a.len() == 3 && !(a[2] is Lista) {
        Some(nativas_arvore::requer(nome, "parametros em lista"@, a[2]))
    } else if (nome == "sqlite_executar"@ || nome == "sqlite_consultar"@) && !(a[0] is ConexaoSQLite) {
        Some(nativas_arvore::requer(nome, "conexao SQLite"@, a[0]))
    } else if (nome == "bd_executar"@ || nome == "bd_consultar"@) && !(a[0] is ConexaoBD) {
        Some(nativas_arvore::requer(nome, "conexao"@, a[0]))
    } else {
        None
    }
}

fn conferir_consulta(nome: &str, args: &Vec<Valor>) -> (r: Chamado)
    ensures
        r@ == (match falha_da_consulta(nome@, valor::vistos(args@)) {
            Some(c) => c,
            None => nativas_arvore::ChamadoVisto::Pedida,
        }),
{
    let ghost a = valor::vistos(args@);
    assert(a.len() == args@.len());
    if args.len() < 2 || args.len() > 3 {
        let m = emendar(nome, "(conexao, sql, parametros?)");
        return Chamado::Feito(Feito::Falha(m));
    }
    assert(a[0] == args@[0]@ && a[1] == args@[1]@);
    if !conferir(Tipo::Texto, &args[1]) {
        return requerer(nome, "SQL em texto", &args[1]);
    }
    if args.len() == 3 {
        assert(a[2] == args@[2]@);
        if !matches!(args[2], Valor::Lista(_)) {
            return requerer(nome, "parametros em lista", &args[2]);
        }
    }
    if (nome.eq("sqlite_executar") || nome.eq("sqlite_consultar")) && !conferir(Tipo::ConexaoSQLite, &args[0]) {
        return requerer(nome, "conexao SQLite", &args[0]);
    }
    if (nome.eq("bd_executar") || nome.eq("bd_consultar")) && !conferir(Tipo::ConexaoBD, &args[0]) {
        return requerer(nome, "conexao", &args[0]);
    }
    Chamado::Pedida
}

/// A falha do que uma leitura de documento recebe.
pub open spec fn falha_do_documento(nome: Seq<char>, a: Seq<valor::Dado>) -> Option<nativas_arvore::ChamadoVisto> {
    if a.len() == 0 || a.len() > 2 {
        Some(nativas_arvore::falha(nome + "(caminho, senha?)"@))
    } else if !(a[0] is Texto) {
        Some(nativas_arvore::recusa(nome + ": caminho deve ser texto, recebeu "@, a[0]))
    } else if a.len() == 2 && !(a[1] is Texto) {
        Some(nativas_arvore::recusa(nome + ": senha deve ser texto, recebeu "@, a[1]))
    } else {
        None
    }
}

fn conferir_documento(nome: &str, args: &Vec<Valor>) -> (r: Chamado)
    ensures
        r@ == (match falha_do_documento(nome@, valor::vistos(args@)) {
            Some(c) => c,
            None => nativas_arvore::ChamadoVisto::Pedida,
        }),
{
    let ghost a = valor::vistos(args@);
    assert(a.len() == args@.len());
    if args.len() == 0 || args.len() > 2 {
        let m = emendar(nome, "(caminho, senha?)");
        return Chamado::Feito(Feito::Falha(m));
    }
    assert(a[0] == args@[0]@);
    if !conferir(Tipo::Texto, &args[0]) {
        let m = emendar(nome, ": caminho deve ser texto, recebeu ");
        return recusar(m.as_str(), &args[0]);
    }
    if args.len() == 2 {
        assert(a[1] == args@[1]@);
        if !conferir(Tipo::Texto, &args[1]) {
            let m = emendar(nome, ": senha deve ser texto, recebeu ");
            return recusar(m.as_str(), &args[1]);
        }
    }
    Chamado::Pedida
}

// ---- Todas ------------------------------------------------------------------------------

/// Se uma funcao faz uma conta de um valor.
pub open spec fn conta_um(nome: Seq<char>) -> bool {
    nome == "eh_numero"@ || nome == "absoluto"@ || nome == "piso"@ || nome == "teto"@
}

/// Os bits do infinito.
pub const INFINITO: u64 = 0x7FF0000000000000;

/// Se uma funcao mede um tensor.
pub open spec fn mede(nome: Seq<char>) -> bool {
    nome == "tensor_shape"@ || nome == "tensor_ndim"@ || nome == "tensor_tamanho"@ || nome
        == "mat_linhas"@ || nome == "mat_colunas"@
}

/// Se uma funcao faz uma consulta.
pub open spec fn consulta(nome: Seq<char>) -> bool {
    nome == "sqlite_executar"@ || nome == "sqlite_consultar"@ || nome == "bd_executar"@ || nome == "bd_consultar"@
}

/// Se uma funcao le um documento.
pub open spec fn documento(nome: Seq<char>) -> bool {
    nome == "pdf_informacoes"@ || nome == "pdf_numero_paginas"@ || nome == "pdf_extrair_texto"@ || nome
        == "pdf_extrair_paginas"@
}

/// As funcoes deste modulo.
pub open spec fn de_exigidas(nome: Seq<char>, a: Seq<valor::Dado>) -> Option<nativas_arvore::ChamadoVisto> {
    if exigencia(nome) is Some || conta_um(nome) || mede(nome) {
        Some(
            if a.len() != 1 {
                nativas_arvore::quer(nome, 1, a.len())
            } else {
                match exigencia(nome) {
                    Some((t, m)) => if serve(t, a[0]) {
                        nativas_arvore::ChamadoVisto::Pedida
                    } else {
                        nativas_arvore::recusa(m, a[0])
                    },
                    None => if conta_um(nome) {
                        conta_de(nome, a[0])
                    } else {
                        medida(nome, a[0])
                    },
                }
            },
        )
    } else if nome == "potencia"@ || nome == "minimo"@ || nome == "maximo"@ {
        Some(
            if a.len() != 2 {
                nativas_arvore::quer(nome, 2, a.len())
            } else if nome == "potencia"@ {
                potencia(a[0], a[1])
            } else {
                extremo(nome, a[0], a[1])
            },
        )
    } else if consulta(nome) {
        Some(
            match falha_da_consulta(nome, a) {
                Some(c) => c,
                None => nativas_arvore::ChamadoVisto::Pedida,
            },
        )
    } else if documento(nome) {
        Some(
            match falha_do_documento(nome, a) {
                Some(c) => c,
                None => nativas_arvore::ChamadoVisto::Pedida,
            },
        )
    } else if nome == "pi"@ {
        Some(nativas_arvore::da(valor::Dado::Numero(nativas_numeros::PI, "3.141592653589793"@)))
    } else if nome == "infinito"@ {
        Some(nativas_arvore::da(valor::Dado::Numero(INFINITO, "inf"@)))
    } else {
        None
    }
}

fn com_um(nome: &str, v: &Valor, e: Option<(Tipo, String)>) -> (r: Chamado)
    requires
        match e {
            Some((t, m)) => exigencia(nome@) == Some((t, m@)),
            None => exigencia(nome@) is None,
        },
        e is Some || conta_um(nome@) || mede(nome@),
    ensures
        r@ == (match exigencia(nome@) {
            Some((t, m)) => if serve(t, v@) {
                nativas_arvore::ChamadoVisto::Pedida
            } else {
                nativas_arvore::recusa(m, v@)
            },
            None => if conta_um(nome@) {
                conta_de(nome@, v@)
            } else {
                medida(nome@, v@)
            },
        }),
{
    match e {
        Some((t, m)) => if conferir(t, v) {
            Chamado::Pedida
        } else {
            recusar(m.as_str(), v)
        },
        None => if nome.eq("eh_numero") || nome.eq("absoluto") || nome.eq("piso") || nome.eq("teto") {
            fazer_conta(nome, v)
        } else {
            medir(nome, v)
        },
    }
}

/// As funcoes deste modulo.
pub fn com_exigidas(nome: &str, args: &Vec<Valor>) -> (r: Option<Chamado>)
    ensures
        nativas_arvore::talvez(r) == de_exigidas(nome@, valor::vistos(args@)),
{
    let ghost a = valor::vistos(args@);
    assert(a.len() == args@.len());
    let k = args.len();
    assert(k > 0 ==> a[0] == args@[0]@);
    assert(k > 1 ==> a[1] == args@[1]@);
    let e = o_que_exige(nome);
    if e.is_some() || nome.eq("eh_numero") || nome.eq("absoluto") || nome.eq("piso") || nome.eq("teto") || nome.eq(
        "tensor_shape",
    ) || nome.eq("tensor_ndim") || nome.eq("tensor_tamanho") || nome.eq("mat_linhas")
        || nome.eq("mat_colunas") {
        if k != 1 {
            return Some(querer(nome, 1, k));
        }
        return Some(com_um(nome, &args[0], e));
    }
    if nome.eq("potencia") || nome.eq("minimo") || nome.eq("maximo") {
        if k != 2 {
            return Some(querer(nome, 2, k));
        }
        return Some(
            if nome.eq("potencia") {
                fazer_potencia(&args[0], &args[1])
            } else {
                fazer_extremo(nome, &args[0], &args[1])
            },
        );
    }
    if nome.eq("sqlite_executar") || nome.eq("sqlite_consultar") || nome.eq("bd_executar") || nome.eq("bd_consultar") {
        return Some(conferir_consulta(nome, args));
    }
    if nome.eq("pdf_informacoes") || nome.eq("pdf_numero_paginas") || nome.eq("pdf_extrair_texto") || nome.eq(
        "pdf_extrair_paginas",
    ) {
        return Some(conferir_documento(nome, args));
    }
    if nome.eq("pi") {
        return Some(
            dar(Valor::Numero(Decimal { bits: nativas_numeros::PI, texto: "3.141592653589793".to_owned() })),
        );
    }
    if nome.eq("infinito") {
        return Some(dar(Valor::Numero(Decimal { bits: INFINITO, texto: "inf".to_owned() })));
    }
    None
}

} // verus!
