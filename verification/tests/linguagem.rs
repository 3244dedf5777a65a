//! O lexico, a sintaxe, o codigo e as tres maneiras de executar um programa.

use pep::ast::{Expressao, Instrucao};
use pep::bytecode::Op;
use pep::decimal::Decimal;
use pep::fonte::{analisar, compilar_bytecode_fonte};
use pep::interpretador::{Interpretador, Passo, Pedido, Resposta};
use pep::lexer::{ErroLexico, Lexer};
use pep::maquina::{Acao, Maquina, Resposta as RespostaPilha};
use pep::operacoes::Pedido as PedidoPilha;
use pep::operacoes::{Conta, Saida};
use pep::parser::Parser;
use pep::tensor::{OpTensor, PedidoTensor};
use pep::register_vm::{AcaoReg, MaquinaReg, PedidoReg, RespostaReg};
use pep::token::Token;
use pep::valor::Valor;
use pep::vm::VmValor;

fn com_ponto(x: f64) -> Decimal {
    let texto = if x.fract() == 0.0 && x.abs() < 1e15 { format!("{}", x as i64) } else { format!("{}", x) };
    Decimal { bits: x.to_bits(), texto }
}

fn conta(op: Conta, a: u64, b: u64) -> f64 {
    let (x, y) = (f64::from_bits(a), f64::from_bits(b));
    match op {
        Conta::Soma => x + y,
        Conta::Subtracao => x - y,
        Conta::Multiplicacao => x * y,
        Conta::Divisao => x / y,
        Conta::Resto => x % y,
    }
}

/// As contas com tensores que os testes pedem.
fn conta_de_tensor(p: &PedidoTensor) -> Vec<Decimal> {
    let x = |i: usize, j: usize| f64::from_bits(p.entradas[i][j].bits);
    let n = p.entradas.first().map(|e| e.len()).unwrap_or(0);
    let soma = |i: usize| (0..p.entradas[i].len()).map(|j| x(i, j)).sum::<f64>();
    let b = |j: usize| if p.escalar { x(1, 0) } else { x(1, j) };
    let r: Vec<f64> = match p.op {
        OpTensor::Neg => (0..n).map(|j| -x(0, j)).collect(),
        OpTensor::Sub => (0..n).map(|j| x(0, j) - b(j)).collect(),
        OpTensor::Div => (0..n).map(|j| x(0, j) / b(j)).collect(),
        OpTensor::SomaTotal => vec![soma(0)],
        OpTensor::SomaEixo => (0..p.entradas.len()).map(soma).collect(),
        OpTensor::MediaEixo => (0..p.entradas.len()).map(|i| soma(i) / p.interno as f64).collect(),
        _ => panic!("conta inesperada"),
    };
    r.into_iter().map(com_ponto).collect()
}

/// Corre um programa no interpretador da arvore e junta o que ele escreve.
fn correr(fonte: &str) -> (String, Result<String, String>) {
    let programa = match analisar(fonte) {
        Ok(p) => p,
        Err(_) => panic!("nao e um programa: {}", fonte),
    };
    let mut i = Interpretador::novo(None);
    i.executar_com_retorno(&programa);
    let mut saida = String::new();
    let mut passo = i.correr(100000);
    loop {
        passo = match passo {
            Passo::Andou => i.correr(100000),
            Passo::Terminou(v) => return (saida, Ok(v.texto())),
            Passo::Falhou(m) => return (saida, Err(m)),
            Passo::Panico => panic!("panico"),
            Passo::Pede(p) => {
                let r = match &p {
                    Pedido::Numero(s) => Resposta::Numero(com_ponto(s.parse().unwrap())),
                    Pedido::Conta { op, a, b } => Resposta::Numero(com_ponto(conta(*op, *a, *b))),
                    Pedido::Negar(a) => Resposta::Numero(com_ponto(-f64::from_bits(*a))),
                    Pedido::Escrever(t) => {
                        saida.push_str(t);
                        Resposta::Feito
                    }
                    Pedido::Nativa { nome, .. } => Resposta::Valor(Err(format!("sem {}", nome))),
                    Pedido::Tensor(t) => Resposta::Numeros(conta_de_tensor(t)),
                    _ => panic!("pedido inesperado"),
                };
                i.responder(p, r)
            }
        };
    }
}

/// Corre um programa na maquina de pilha.
fn correr_na_pilha(fonte: &str) -> Result<VmValor, String> {
    let ops = match compilar_bytecode_fonte(fonte) {
        Ok(o) => o,
        Err(_) => panic!("nao compila"),
    };
    let mut m = Maquina::nova(None);
    m.executar(&ops);
    let mut acao = m.correr(100000);
    loop {
        acao = match acao {
            Acao::Continua => m.correr(100000),
            Acao::Terminou(v) => return Ok(v),
            Acao::Falhou(e) => return Err(e),
            Acao::Pede(p) => {
                let f = f64::from_bits;
                let r = match &p {
                    PedidoPilha::Numero(s) => RespostaPilha::Numero(com_ponto(s.parse().unwrap())),
                    PedidoPilha::Conta { op, a, b, .. } => RespostaPilha::Numero(com_ponto(conta(*op, *a, *b))),
                    PedidoPilha::Negar(a) => RespostaPilha::Numero(com_ponto(-f(*a))),
                    PedidoPilha::Faixa { ini, fim, passo, .. } => {
                        RespostaPilha::Logico((f(ini.bits) - f(*fim)) * f(*passo) <= 0.0)
                    }
                    PedidoPilha::Avancar { atual, fim, passo, .. } => {
                        let x = f(*atual) + f(*passo);
                        RespostaPilha::Contagem(com_ponto(x), (x - f(*fim)) * f(*passo) <= 0.0)
                    }
                    PedidoPilha::Tensor(t) => RespostaPilha::Numeros(Ok(conta_de_tensor(t))),
                    _ => panic!("pedido inesperado"),
                };
                m.responder(p, r)
            }
            _ => panic!("acao inesperada"),
        };
    }
}

#[test]
fn diferencia_inteiro_decimal_e_divisao_inteira() {
    let mut lexer = Lexer::novo("7 // 2\n1.5");
    let tokens = lexer.tokenizar().unwrap();
    assert!(matches!(tokens[0].token, Token::Inteiro(7)));
    assert!(matches!(tokens[1].token, Token::BarraBarra));
    assert!(matches!(tokens[2].token, Token::Inteiro(2)));
    assert!(matches!(&tokens[4].token, Token::Numero(s) if s.as_str() == "1.5"));
}

#[test]
fn parseia_funcao_anonima() {
    let mut lexer = Lexer::novo("var dobro = funcao(x) { retornar x * 2 }");
    let tokens = lexer.tokenizar().unwrap();
    let mut parser = Parser::novo(tokens);
    let programa = match parser.parsear() {
        Ok(p) => p,
        Err(_) => panic!("nao parseia"),
    };
    let interna = match &programa[0] {
        Instrucao::Localizada { instrucao, .. } => instrucao.as_ref(),
        outra => outra,
    };
    match interna {
        Instrucao::DeclararVar { valor: Some(Expressao::FuncaoAnonima { parametros, .. }), .. } => {
            assert_eq!(parametros.len(), 1);
            assert_eq!(parametros[0].nome, "x");
            assert!(!parametros[0].variadic);
            assert!(parametros[0].padrao.is_none());
        }
        _ => panic!("lambda nao foi reconhecida"),
    }
}

#[test]
fn erro_runtime_inclui_linha_e_contexto() {
    let (_, r) = correr("var a = 1\nimprimir(inexistente)");
    let erro = r.unwrap_err();
    assert!(erro.contains("Erro na linha 2"));
    assert!(erro.contains("imprimir(inexistente)"));
}

#[test]
fn executa_aritmetica_e_laco() {
    let fonte = "var soma = 0\npara i de 1 ate 5 { soma = soma + i }";
    let ast = match Parser::novo(Lexer::novo(fonte).tokenizar().unwrap()).parsear() {
        Ok(p) => p,
        Err(_) => panic!("nao parseia"),
    };
    let programa = pep::register_vm::compilar(&ast).unwrap();
    let mut vm = MaquinaReg::executar(programa, None);
    loop {
        let acao = vm.correr(1000);
        match acao {
            AcaoReg::Andou => {}
            AcaoReg::Parou => break,
            AcaoReg::Pede(PedidoReg::Conta { op, a, b }) => {
                let x = conta(op, a, b);
                assert!(matches!(vm.responder(RespostaReg::Numero(com_ponto(x))), AcaoReg::Andou));
            }
            _ => panic!("acao inesperada"),
        }
    }
    assert!(vm.registradores.iter().any(|v| match v {
        VmValor::Int(n) => *n == 15,
        VmValor::Num(d) => f64::from_bits(d.bits) == 15.0,
        _ => false,
    }));
}

#[test]
fn texto_aberto_e_caractere_desconhecido() {
    assert!(matches!(Lexer::novo("var a = \"x").tokenizar(), Err(ErroLexico::TextoAberto { linha: 1 })));
    match Lexer::novo("a\n @").tokenizar() {
        Err(ErroLexico::Desconhecido { caractere, linha, coluna }) => {
            assert_eq!(caractere, '@');
            assert_eq!(linha, 2);
            assert_eq!(coluna, 2);
        }
        _ => panic!("era desconhecido"),
    }
    assert_eq!(
        pep::fonte::mensagem(&ErroLexico::Interrogacao { linha: 4 }),
        "Caractere inesperado '?' na linha 4"
    );
}

#[test]
fn arvore_e_pilha_dao_o_mesmo() {
    let com_inteiros = "var t = 0\npara i de 1 ate 10 { se i % 2 == 0 { t = t + i } }\nretornar t";
    assert_eq!(correr(com_inteiros).1.unwrap(), "30");
    assert_eq!(correr_na_pilha(com_inteiros).unwrap().texto(), "30");
    let ate_cinco = "var s = 0\npara i de 1 ate 5 { s = s + i }\nretornar s";
    assert!(matches!(correr_na_pilha(ate_cinco), Ok(VmValor::Int(15))));
    let a_descer = "var s = \"\"\npara i de 5 ate 1 passo -2 { s = s + texto(i) }\nretornar s";
    assert_eq!(correr_na_pilha(a_descer).unwrap().texto(), "531");
    let nenhum = "var s = 7\npara i de 5 ate 1 { s = i }\nretornar s";
    assert_eq!(correr_na_pilha(nenhum).unwrap().texto(), "7");
    let misto = "var s = 0\npara i de 1 ate 2.5 { s = s + i }\nretornar s";
    assert_eq!(correr_na_pilha(misto).unwrap().texto(), "3");
    let com_ponto = "var t = 0\npara i de 1.0 ate 10.0 { t = t + i }\nretornar t";
    assert_eq!(correr_na_pilha(com_ponto).unwrap().texto(), "55");
    let fonte = "var t = 0\nvar i = 0\nenquanto i < 10 { i = i + 1\n se i == 3 { continue }\n se i > 6 { pare }\n t = t + i }\nretornar t";
    assert_eq!(correr(fonte).1.unwrap(), "18");
    assert_eq!(correr_na_pilha(fonte).unwrap().texto(), "18");
}

#[test]
fn contas_com_ponto_sao_pedidas() {
    assert_eq!(correr("imprimir(1.5 + 2)").0, "3.5\n");
    assert_eq!(correr("imprimir(7 // 2, -7 // 2)").0, "3 -3\n");
}

#[test]
fn funcoes_recursivas_e_padroes() {
    let fonte = "funcao fat(n) { se n <= 1 { retornar 1 }\n retornar n * fat(n - 1) }\nimprimir(fat(10))";
    assert_eq!(correr(fonte).0, "3628800\n");
    let com_padrao = "funcao f(a, b = 2) { retornar a + b }\nimprimir(f(1), f(1, 5))";
    assert_eq!(correr(com_padrao).0, "3 6\n");
}

#[test]
fn lancar_capturar_e_finalmente() {
    let fonte = "tentar { lancar(\"x\") } capturar (e) { imprimir(\"pego\") } finalmente { imprimir(\"fim\") }";
    let (saida, r) = correr(fonte);
    assert_eq!(saida, "pego\nfim\n");
    assert!(r.is_ok());
    let solto = "tentar { lancar(\"x\") } finalmente { imprimir(\"fim\") }";
    let (saida, r) = correr(solto);
    assert_eq!(saida, "fim\n");
    assert!(r.is_err());
}

#[test]
fn funcao_ve_as_variaveis_de_onde_nasce() {
    let fonte = "funcao soma(n) { retornar funcao(x) { retornar x + n } }\nvar f = soma(10)\nimprimir(f(5))";
    assert_eq!(correr(fonte).0, "15\n");
}

#[test]
fn matrizes_da_arvore() {
    assert_eq!(correr("imprimir(mat_linhas(mat_de([[1, 2], [3, 4], [5, 6]])))").0, "3\n");
    assert_eq!(correr("imprimir(mat_obter(mat_transpor(mat_de([[1, 2], [3, 4]])), 0, 1))").0, "3\n");
    assert_eq!(correr("imprimir(tensor_para_lista(tensor_reshape(tensor_zeros(4), [2, 2])))").0, "[[0, 0], [0, 0]]\n");
    assert_eq!(
        correr("imprimir(tensor_para_lista(tensor_concatenar([mat_de([[1, 2]]), mat_de([[3]])], 1)))").0,
        "[[1, 2, 3]]\n"
    );
    assert_eq!(correr("imprimir(mat_para_lista(mat_identidade(2)))").0, "[[1, 0], [0, 1]]\n");
    let erro = correr("tensor_soma(mat_de([[1]]), mat_de([[1, 2]]))").1.unwrap_err();
    assert!(erro.contains("tensor_soma: shapes incompativeis [1, 1] vs [1, 2]"));
    let erro = correr("mat_obter(mat_de([[1]]), 1, 0)").1.unwrap_err();
    assert!(erro.contains("mat_obter: indice (1,0) fora de (1x1)"));
}

#[test]
fn limite_de_operacoes_para_o_programa() {
    let programa = match analisar("enquanto verdadeiro { }") {
        Ok(p) => p,
        Err(_) => panic!("nao e programa"),
    };
    let mut i = Interpretador::novo(Some("50"));
    i.executar_com_retorno(&programa);
    let mut passo = i.correr(100000);
    while let Passo::Andou = passo {
        passo = i.correr(100000);
    }
    assert!(matches!(passo, Passo::Falhou(_)));
}

#[test]
fn chamar_um_valor_que_nao_e_funcao_falha() {
    let mut i = Interpretador::novo(None);
    i.chamar_valor_pub("f", Valor::Inteiro(1), vec![]);
    let mut passo = i.correr(1000);
    while let Passo::Andou = passo {
        passo = i.correr(1000);
    }
    assert!(matches!(passo, Passo::Falhou(_)));
}

#[test]
fn maquina_de_pilha_isola_funcoes() {
    let fonte = "var x = 1\nfuncao f() { x = 2\n retornar x }\nvar y = f()\nretornar [x, y]";
    match correr_na_pilha(fonte) {
        Ok(VmValor::Lista(l)) => {
            assert_eq!(l[0].texto(), "1");
            assert_eq!(l[1].texto(), "2");
        }
        _ => panic!("era lista"),
    }
}

/// Se nenhuma instrucao, nem de uma funcao la dentro, salta para fora do seu codigo.
fn salta_para_dentro(ops: &Vec<Op>) -> bool {
    ops.iter().all(|o| match o {
        Op::Jump(a) | Op::JumpFalse(a) | Op::JumpTrue(a) | Op::TryCatch(a) => *a <= ops.len(),
        Op::IterNext { loop_ini, .. } => *loop_ini <= ops.len(),
        Op::DefFunc { corpo, .. } => salta_para_dentro(corpo),
        _ => true,
    })
}

#[test]
fn o_codigo_so_salta_para_dentro_de_si() {
    let fontes = [
        "var x = 0\nenquanto x < 3 { x = x + 1\n se x == 2 { pare } }\nretornar x",
        "funcao f(a) { se a > 1 { retornar a } senao { retornar 1 } }\nretornar f(3)",
        "para i em [1, 2] { imprimir(i) }",
        "tentar { lancar(\"x\") } capturar (e) { imprimir(\"pego\") } finalmente { imprimir(\"fim\") }",
    ];
    for fonte in fontes {
        let ops = match compilar_bytecode_fonte(fonte) {
            Ok(o) => o,
            Err(_) => panic!("nao compila: {}", fonte),
        };
        assert!(ops.iter().any(|o| matches!(o, Op::Jump(_) | Op::TryCatch(_) | Op::DefFunc { .. })));
        assert!(salta_para_dentro(&ops));
    }
}

#[test]
fn tensores_tem_um_dispositivo() {
    let fonte = "var t = tensor_zeros(2.0)\nvar a = tensor_dispositivo(t)\nvar u = tensor_para_gpu(t, 1)\nvar b = tensor_dispositivo(t)\nvar c = tensor_dispositivo(tensor_zeros(2.0))\ntensor_para_cpu(u)\nretornar a + b + c + tensor_dispositivo(t)";
    assert_eq!(correr_na_pilha(fonte).unwrap().texto(), "cpucuda:1cpucpu");
    assert!(matches!(correr_na_pilha("retornar tensor_dispositivo(tensor_para_metal(tensor_uns(1.0)))"), Ok(VmValor::Str(s)) if s == "metal"));
    assert_eq!(
        correr_na_pilha("retornar tensor_para_gpu(3)").err().unwrap(),
        "tensor_para_gpu: requer tensor, recebeu 3"
    );
    let mut m = Maquina::nova(None);
    let t = VmValor::Tensor { shape: vec![1], dados: vec![com_ponto(0.0)], marca: 0 };
    let u = match m.chamar_nativa("tensor_para_gpu", vec![t, VmValor::Int(1)]) {
        Saida::Valor(v) => v,
        _ => panic!("era um valor"),
    };
    assert_eq!(u.texto(), VmValor::Tensor { shape: vec![1], dados: vec![com_ponto(0.0)], marca: 0 }.texto());
    assert!(matches!(m.chamar_nativa("tensor_dispositivo", vec![u]), Saida::Valor(VmValor::Str(s)) if s == "cuda:1"));
}

#[test]
fn nulos_e_textos_triplos() {
    for fonte in [
        ("var a = nulo\nretornar a?.x", "nulo"),
        ("var a = {x: 5}\nretornar a?.x", "5"),
        ("var a = nulo\nretornar a ?? 3", "3"),
        ("var a = 4\nretornar a ?? 3", "4"),
        ("retornar \"\"\"\n    hello\n    world\n\"\"\"", "hello\nworld"),
        ("var n = \"Ana\"\nretornar \"Ola, {n}!\"", "Ola, Ana!"),
    ] {
        assert_eq!(correr(fonte.0).1.unwrap(), fonte.1, "{}", fonte.0);
        assert_eq!(correr_na_pilha(fonte.0).unwrap().texto(), fonte.1, "{}", fonte.0);
    }
}

#[test]
fn erro_capturado_sem_a_linha() {
    let fonte = "var a = 1\ntentar { x_que_nao_ha } capturar (e) { imprimir(e) }";
    let (saida, fim) = correr(fonte);
    assert!(fim.is_ok());
    assert!(saida.starts_with("[Erro:Erro] "), "{}", saida);
    assert!(!saida.contains("Erro na linha"), "{}", saida);
    assert!(saida.contains("x_que_nao_ha"), "{}", saida);
}

#[test]
fn o_operando_de_baixo_vem_primeiro() {
    for (fonte, dados) in [
        ("retornar tensor_para_lista(tensor_sub(10.0, tensor_uns(2.0)))", "[9, 9]"),
        ("retornar tensor_para_lista(tensor_sub(tensor_uns(2.0), 10.0))", "[-9, -9]"),
        ("retornar tensor_para_lista(tensor_div(8.0, tensor_uns(1.0)))", "[8]"),
    ] {
        assert_eq!(correr_na_pilha(fonte).unwrap().texto(), dados, "{}", fonte);
    }
}

#[test]
fn o_operando_de_cima_falha_primeiro() {
    let falha = |ops: Vec<Op>| {
        let mut m = Maquina::nova(None);
        m.executar(&ops);
        match m.correr(100) {
            Acao::Falhou(e) => e,
            _ => panic!("era uma falha"),
        }
    };
    let texto = || Op::PushStr("x".to_string());
    assert_eq!(
        falha(vec![texto(), Op::TensorPow]),
        "tensor_potencia: expoente deve ser número — esperado número, recebeu x"
    );
    assert_eq!(
        falha(vec![texto(), Op::TensorSomaEixo]),
        "tensor_soma_eixo: eixo deve ser inteiro não-negativo, recebeu x"
    );
    assert_eq!(
        falha(vec![texto(), Op::TensorConcatenar]),
        "tensor_concatenar: eixo deve ser inteiro não-negativo, recebeu x"
    );
    let vazia = falha(vec![Op::PushInt(1), Op::Add]);
    assert_eq!(falha(vec![Op::PushInt(0), Op::TensorSomaEixo]), vazia);
    assert_eq!(falha(vec![Op::TensorPow]), vazia);
}

#[test]
fn um_tensor_sem_dimensoes_continua_tensor() {
    let v = correr_na_pilha("retornar tensor_neg(tensor_uns([]))").unwrap();
    assert!(matches!(&v, VmValor::Tensor { shape, dados, .. } if shape.is_empty() && dados.len() == 1));
    assert!(matches!(correr_na_pilha("retornar tensor_soma_total(tensor_uns(3.0))"), Ok(VmValor::Num(d)) if d.texto == "3"));
}

#[test]
fn reduzir_um_eixo_nas_duas_maquinas() {
    let m = "var m = mat_de([[1.0, 2.0, 3.0], [4.0, 5.0, 6.0]])\n";
    for (expr, dados) in [
        ("tensor_soma_eixo(m, 0)", "[5, 7, 9]"),
        ("tensor_soma_eixo(m, 1)", "[6, 15]"),
        ("tensor_media_eixo(m, 0)", "[2.5, 3.5, 4.5]"),
        ("tensor_media_eixo(m, 1)", "[2, 5]"),
    ] {
        let fonte = format!("{}retornar tensor_para_lista({})", m, expr);
        assert_eq!(correr(&fonte).1.unwrap(), dados, "{}", expr);
    }
    assert_eq!(
        correr(&format!("{}retornar tensor_soma_eixo(m, 2)", m)).1.unwrap_err().lines().next(),
        Some("Erro na linha 2: eixo 2 invalido para tensor 2D")
    );
    assert_eq!(correr(&format!("{}retornar tensor_para_lista(tensor_sub(m, 1))", m)).1.unwrap(), "[[0, 1, 2], [3, 4, 5]]");
    assert_eq!(correr(&format!("{}retornar tensor_soma_total(m)", m)).1.unwrap(), "21");
    let fonte = "retornar tensor_para_lista(tensor_soma_eixo(tensor_uns(2.0, 3.0), 0))";
    assert_eq!(correr_na_pilha(fonte).unwrap().texto(), "[2, 2, 2]");
}

#[test]
fn funcoes_de_numeros_da_maquina() {
    let chama = |nome: &str, args: Vec<VmValor>| Maquina::nova(None).chamar_nativa(nome, args);
    let n = |x: f64| VmValor::Num(com_ponto(x));
    assert!(matches!(chama("raiz", vec![n(4.0)]), Saida::Pede(PedidoPilha::Nativa { nome, .. }) if nome == "raiz"));
    assert!(matches!(chama("raiz", vec![VmValor::Int(4)]), Saida::Falha(m) if m == "'raiz' requer número, recebeu 4"));
    assert!(matches!(chama("teto", vec![]), Saida::Falha(m) if m == "'teto' requer 1 argumento, recebeu 0"));
    assert!(matches!(chama("arredondar", vec![n(1.5), n(0.0)]), Saida::Pede(_)));
    assert!(matches!(
        chama("arredondar", vec![n(1.5), VmValor::Int(0)]),
        Saida::Falha(m) if m == "arredondar(n) ou arredondar(n, casas)"
    ));
    assert!(matches!(chama("minimo", vec![n(1.5)]), Saida::Falha(m) if m == "minimo(a,b)"));
    assert!(matches!(chama("pi", vec![]), Saida::Valor(VmValor::Num(d)) if d.bits == std::f64::consts::PI.to_bits()));
    assert_eq!(format!("{}", std::f64::consts::PI), "3.141592653589793");
}

#[test]
fn tensor_de_uma_lista_na_maquina() {
    let chama = |args: Vec<VmValor>| Maquina::nova(None).chamar_nativa("tensor_de", args);
    let l = |v: Vec<VmValor>| VmValor::Lista(v);
    let dois = || l(vec![VmValor::Int(1), VmValor::Num(com_ponto(2.5))]);
    assert!(matches!(
        chama(vec![dois(), l(vec![VmValor::Int(2)])]),
        Saida::Valor(VmValor::Tensor { shape, dados, .. }) if shape == vec![2] && dados[0].bits == 1.0f64.to_bits()
    ));
    assert!(matches!(
        chama(vec![dois(), l(vec![VmValor::Int(3)])]),
        Saida::Falha(m) if m == "tensor_de: 2 elementos mas shape [3] requer 3"
    ));
    assert!(matches!(
        chama(vec![l(vec![VmValor::Null]), l(vec![VmValor::Int(1)])]),
        Saida::Falha(m) if m == "tensor_de: dados devem ser numeros"
    ));
    assert!(matches!(
        chama(vec![VmValor::Null, l(vec![VmValor::Null])]),
        Saida::Falha(m) if m == "tensor_de: shape deve ser lista de inteiros"
    ));
    assert!(matches!(chama(vec![dois(), VmValor::Null]), Saida::Falha(m) if m == "tensor_de: shape deve ser lista"));
    assert!(matches!(
        chama(vec![VmValor::Null, l(vec![])]),
        Saida::Falha(m) if m == "tensor_de: dados deve ser lista de numeros"
    ));
    assert!(matches!(chama(vec![dois()]), Saida::Falha(m) if m == "tensor_de(dados, shape)"));
    assert!(matches!(
        chama(vec![l(vec![VmValor::Int(i64::MAX)]), l(vec![VmValor::Int(1)])]),
        Saida::Pede(PedidoPilha::Nativa { .. })
    ));
}

#[test]
fn funcoes_do_interpretador_na_maquina() {
    assert_eq!(correr_na_pilha("retornar json_serializar([1, nulo])").unwrap().texto(), "[1,null]");
    assert_eq!(correr_na_pilha("retornar bytes_tamanho(bytes_de_texto(\"abc\"))").unwrap().texto(), "3");
    assert!(correr_na_pilha("retornar bytes_tamanho(1)").is_err());
    assert!(matches!(
        Maquina::nova(None).chamar_nativa("ler_arquivo", vec![VmValor::Str("a".to_string())]),
        Saida::Pede(PedidoPilha::Nativa { nome, args }) if nome == "ler_arquivo" && args.len() == 1
    ));
}
