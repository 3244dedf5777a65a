//! Datas a partir dos segundos desde o comeco de 1970.

use vstd::prelude::*;
use crate::texto;

verus! {

/// Se um ano tem o dia a mais.
pub open spec fn bissexto(ano: int) -> bool {
    (ano % 4 == 0 && ano % 100 != 0) || ano % 400 == 0
}

/// Quantos dias um ano tem.
pub open spec fn dias_do_ano(ano: int) -> int {
    if bissexto(ano) {
        366
    } else {
        365
    }
}

/// Quantos dias o mes `m` de um ano tem.
pub open spec fn dias_do_mes(ano: int, m: int) -> int {
    if m == 2 {
        if bissexto(ano) {
            29
        } else {
            28
        }
    } else if m == 4 || m == 6 || m == 9 || m == 11 {
        30
    } else {
        31
    }
}

/// Quantos dias ha antes do ano, desde 1970.
pub open spec fn dias_antes_do_ano(ano: int) -> int
    decreases ano - 1970,
{
    if ano <= 1970 {
        0
    } else {
        dias_antes_do_ano(ano - 1) + dias_do_ano(ano - 1)
    }
}

/// Quantos dias do ano ha antes do mes.
pub open spec fn dias_antes_do_mes(ano: int, m: int) -> int
    decreases m,
{
    if m <= 1 {
        0
    } else {
        dias_antes_do_mes(ano, m - 1) + dias_do_mes(ano, m - 1)
    }
}

/// Se uma data existe no calendario, a partir de 1970.
pub open spec fn valida(ano: int, mes: int, dia: int) -> bool {
    1970 <= ano && 1 <= mes <= 12 && 1 <= dia <= dias_do_mes(ano, mes)
}

/// O dia de uma data, desde o comeco de 1970.
pub open spec fn dia_de(ano: int, mes: int, dia: int) -> int {
    dias_antes_do_ano(ano) + dias_antes_do_mes(ano, mes) + dia - 1
}

/// Se um ano tem o dia a mais.
pub fn eh_bissexto(ano: u64) -> (r: bool)
    ensures
        r == bissexto(ano as int),
{
    (ano % 4 == 0 && ano % 100 != 0) || ano % 400 == 0
}

proof fn lema_meses(ano: int)
    ensures
        dias_antes_do_mes(ano, 13) == dias_do_ano(ano),
{
    reveal_with_fuel(dias_antes_do_mes, 14);
}

/// A data de um instante: a unica do calendario cujo dia e o dele.
pub fn timestamp_para_data(secs: u64) -> (r: (u64, u8, u8))
    ensures
        valida(r.0 as int, r.1 as int, r.2 as int),
        dia_de(r.0 as int, r.1 as int, r.2 as int) == secs as int / 86400,
{
    let total = secs / 86400;
    let mut dias: u64 = total;
    let mut ano: u64 = 1970;
    loop
        invariant
            1970 <= ano,
            ano - 1970 + dias <= total,
            total <= u64::MAX / 86400,
            dias_antes_do_ano(ano as int) + dias == total,
        ensures
            1970 <= ano,
            dias < dias_do_ano(ano as int),
            dias_antes_do_ano(ano as int) + dias == total,
        decreases dias,
    {
        let no_ano: u64 = if eh_bissexto(ano) {
            366
        } else {
            365
        };
        if dias < no_ano {
            break;
        }
        dias -= no_ano;
        ano += 1;
    }
    let b = eh_bissexto(ano);
    let mut mes: u8 = 1;
    proof {
        lema_meses(ano as int);
    }
    let ghost resto = dias as int;
    loop
        invariant
            1 <= mes <= 12,
            b == bissexto(ano as int),
            dias_antes_do_mes(ano as int, mes as int) + dias == resto,
            resto < dias_do_ano(ano as int),
            dias_antes_do_mes(ano as int, 13) == dias_do_ano(ano as int),
        ensures
            1 <= mes <= 12,
            dias < dias_do_mes(ano as int, mes as int),
            dias_antes_do_mes(ano as int, mes as int) + dias == resto,
        decreases 13 - mes,
    {
        let no_mes: u64 = if mes == 2 {
            if b {
                29
            } else {
                28
            }
        } else if mes == 4 || mes == 6 || mes == 9 || mes == 11 {
            30
        } else {
            31
        };
        if dias < no_mes {
            break;
        }
        assert(mes == 12 ==> dias_antes_do_mes(ano as int, 13) == dias_antes_do_mes(ano as int, 12) + 31);
        dias -= no_mes;
        mes += 1;
    }
    (ano, mes, (dias + 1) as u8)
}

proof fn lema_anos(a: int, b: int)
    requires
        1970 <= a <= b,
    ensures
        dias_antes_do_ano(a) + 365 * (b - a) <= dias_antes_do_ano(b),
    decreases b - a,
{
    if a < b {
        lema_anos(a, b - 1);
    }
}

proof fn lema_meses_crescem(ano: int, a: int, b: int)
    requires
        1 <= a <= b <= 13,
    ensures
        dias_antes_do_mes(ano, a) + 28 * (b - a) <= dias_antes_do_mes(ano, b),
    decreases b - a,
{
    if a < b {
        lema_meses_crescem(ano, a, b - 1);
    }
}

proof fn lema_dentro_do_ano(ano: int, mes: int, dia: int)
    requires
        valida(ano, mes, dia),
    ensures
        0 <= dias_antes_do_mes(ano, mes) + dia - 1 < dias_do_ano(ano),
{
    lema_meses(ano);
    lema_meses_crescem(ano, 1, mes);
    lema_meses_crescem(ano, mes + 1, 13);
    assert(dias_antes_do_mes(ano, mes + 1) == dias_antes_do_mes(ano, mes) + dias_do_mes(ano, mes));
}

/// Duas datas do calendario com o mesmo dia sao a mesma data.
pub proof fn lei_data(a1: int, m1: int, d1: int, a2: int, m2: int, d2: int)
    requires
        valida(a1, m1, d1),
        valida(a2, m2, d2),
        dia_de(a1, m1, d1) == dia_de(a2, m2, d2),
    ensures
        a1 == a2,
        m1 == m2,
        d1 == d2,
{
    lema_dentro_do_ano(a1, m1, d1);
    lema_dentro_do_ano(a2, m2, d2);
    if a1 < a2 {
        lema_anos(a1 + 1, a2);
        assert(dias_antes_do_ano(a1 + 1) == dias_antes_do_ano(a1) + dias_do_ano(a1));
    }
    if a2 < a1 {
        lema_anos(a2 + 1, a1);
        assert(dias_antes_do_ano(a2 + 1) == dias_antes_do_ano(a2) + dias_do_ano(a2));
    }
    if m1 < m2 {
        lema_meses_crescem(a1, m1 + 1, m2);
        assert(dias_antes_do_mes(a1, m1 + 1) == dias_antes_do_mes(a1, m1) + dias_do_mes(a1, m1));
    }
    if m2 < m1 {
        lema_meses_crescem(a1, m2 + 1, m1);
        assert(dias_antes_do_mes(a1, m2 + 1) == dias_antes_do_mes(a1, m2) + dias_do_mes(a1, m2));
    }
}

/// Um numero com zeros a esquerda ate ter `k` algarismos.
pub open spec fn com_zeros(n: nat, k: nat) -> Seq<char> {
    let t = texto::decimal(n);
    if t.len() < k {
        Seq::new((k - t.len()) as nat, |i: int| '0') + t
    } else {
        t
    }
}

fn escrever_com_zeros(n: u64, k: usize) -> (r: String)
    ensures
        r@ == com_zeros(n as nat, k as nat),
{
    let t = texto::natural(n);
    let cs = texto::caracteres(t.as_str());
    let mut v: Vec<char> = Vec::new();
    if cs.len() < k {
        let f = k - cs.len();
        let mut i: usize = 0;
        while i < f
            invariant
                i <= f,
                v@.len() == i,
                forall|j: int| 0 <= j < i ==> #[trigger] v@[j] == '0',
            decreases f - i,
        {
            v.push('0');
            i += 1;
        }
    }
    let mut r = texto::de_caracteres(v.as_slice());
    r.append(t.as_str());
    assert(r@ =~= com_zeros(n as nat, k as nat));
    r
}

/// Como uma data e uma hora se escrevem.
pub open spec fn data_escrita(ano: nat, mes: nat, dia: nat, hora: nat, minuto: nat, segundo: nat) -> Seq<char> {
    com_zeros(ano, 4) + "-"@ + com_zeros(mes, 2) + "-"@ + com_zeros(dia, 2) + " "@ + com_zeros(hora, 2) + ":"@
        + com_zeros(minuto, 2) + ":"@ + com_zeros(segundo, 2)
}

/// Escreve uma data e uma hora.
pub fn escrever_data(ano: u64, mes: u8, dia: u8, hora: u64, minuto: u64, segundo: u64) -> (r: String)
    ensures
        r@ == data_escrita(ano as nat, mes as nat, dia as nat, hora as nat, minuto as nat, segundo as nat),
{
    let mut r = escrever_com_zeros(ano, 4);
    r.append("-");
    r.append(escrever_com_zeros(mes as u64, 2).as_str());
    r.append("-");
    r.append(escrever_com_zeros(dia as u64, 2).as_str());
    r.append(" ");
    r.append(escrever_com_zeros(hora, 2).as_str());
    r.append(":");
    r.append(escrever_com_zeros(minuto, 2).as_str());
    r.append(":");
    r.append(escrever_com_zeros(segundo, 2).as_str());
    r
}

/// Como uma duracao em dias, horas, minutos e segundos se escreve: os dias contam-se em horas.
pub open spec fn duracao_escrita(negativa: bool, dias: nat, hora: nat, minuto: nat, segundo: nat) -> Seq<char> {
    (if negativa {
        "-"@
    } else {
        ""@
    }) + texto::decimal(dias * 24 + hora) + ":"@ + com_zeros(minuto, 2) + ":"@ + com_zeros(segundo, 2)
}

/// Escreve uma duracao.
pub fn escrever_duracao(negativa: bool, dias: u32, hora: u8, minuto: u8, segundo: u8) -> (r: String)
    requires
        dias * 24 + hora <= u32::MAX,
    ensures
        r@ == duracao_escrita(negativa, dias as nat, hora as nat, minuto as nat, segundo as nat),
{
    let mut r = if negativa {
        "-".to_owned()
    } else {
        "".to_owned()
    };
    r.append(texto::natural(dias as u64 * 24 + hora as u64).as_str());
    r.append(":");
    r.append(escrever_com_zeros(minuto as u64, 2).as_str());
    r.append(":");
    r.append(escrever_com_zeros(segundo as u64, 2).as_str());
    r
}

/// Como a data e a hora do instante tantos segundos depois do comeco de um dia se escrevem.
pub open spec fn escrita(ano: nat, mes: nat, dia: nat, segundos: nat) -> Seq<char> {
    data_escrita(ano, mes, dia, segundos / 3600, segundos % 3600 / 60, segundos % 60)
}

/// Escreve a data e a hora de um instante.
pub fn data_hora(secs: u64) -> (r: String)
    ensures
        exists|a: int, m: int, d: int|
            #![trigger valida(a, m, d)]
            valida(a, m, d) && dia_de(a, m, d) == secs as int / 86400 && r@ == escrita(
                a as nat,
                m as nat,
                d as nat,
                (secs % 86400) as nat,
            ),
{
    let (ano, mes, dia) = timestamp_para_data(secs);
    let seg = secs % 86400;
    let r = escrever_data(ano, mes, dia, seg / 3600, seg % 3600 / 60, seg % 60);
    assert(valida(ano as int, mes as int, dia as int));
    r
}

} // verus!
