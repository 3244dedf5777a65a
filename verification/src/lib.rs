//! A linguagem PEP: analise lexica e sintatica, compilacao, execucao e as regras
//! do servidor, com o comportamento de cada funcao enunciado em contratos.
pub mod ambiente;
pub mod aplicar;
pub mod ast;
pub mod atendimento;
pub mod autodiff;
pub mod biblioteca;
pub mod busca;
pub mod bytecode;
pub mod codigo;
pub mod construcoes;
pub mod escolhas;
pub mod remendos;
pub mod saltos;
pub mod compilador;
pub mod contexto;
pub mod conversao;
pub mod cripto;
pub mod csv;
pub mod datas;
pub mod decimal;
pub mod dispositivos;
pub mod documentos;
pub mod efeitos;
pub mod expressoes;
pub mod fastcgi;
pub mod ffi;
pub mod fonte;
pub mod formatacao;
pub mod formato;
pub mod globais;
pub mod http;
pub mod interpretador;
pub mod json;
pub mod leis_arvore;
pub mod leis_codigo;
pub mod leis_contas;
pub mod leis_csv;
pub mod leis_formato;
pub mod leis_instrucoes;
pub mod leis_json;
pub mod leis_lacos;
pub mod leis_lexico;
pub mod leis_nativas;
pub mod leis_nativas_pilha;
pub mod leis_pilha;
pub mod leis_registros;
pub mod leis_rotas;
pub mod leis_sintaxe;
pub mod leis_template;
pub mod leis_tensor;
pub mod lexer;
pub mod lsp;
pub mod maquina;
pub mod md5;
pub mod meia;
pub mod mensagens;
pub mod mmap;
pub mod modulos;
pub mod nativas;
pub mod nativas_arvore;
pub mod nativas_contas;
pub mod nativas_dados;
pub mod nativas_exigidas;
pub mod nativas_numeros;
pub mod nativas_pedidas;
pub mod nativas_sessao;
pub mod nativas_matriz;
pub mod nativas_tensor;
pub mod nativas_textos;
pub mod nativas_valores;
pub mod operacoes;
pub mod ordem;
pub mod paginas;
pub mod parser;
pub mod pdf;
pub mod ponte;
pub mod quantizacao;
pub mod register_vm;
pub mod requisicao;
pub mod servidor;
pub mod sessoes;
pub mod sintaxe;
pub mod tabela;
pub mod tarefa;
pub mod template;
pub mod tensor;
pub mod texto;
pub mod token;
pub mod valor;
pub mod vm;
pub mod websocket;
