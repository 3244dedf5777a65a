# PEP - Programar em Portugues

PEP e uma linguagem de programacao em portugues com servidor HTTP e FastCGI, templates, WebSocket,
sessoes, tensores e leitura de PDF. Este crate guarda a logica da linguagem em `src/`, com contratos
provados pelo Verus; `app/` e o programa de linha de comando a volta dela.

## Do texto ao resultado

- `lexer`, `parser`, `template`: do texto aos tokens e a arvore. `sintaxe` e a gramatica.
- `codigo`, `compilador`: o codigo que cada parte de um programa da, e o compilador que o emite.
  `remendos`, `construcoes` e `escolhas` provam o que acontece aos saltos por remendar;
  `saltos` prova que o codigo so salta para dentro de si.
- `mensagens`: o que se diz de um programa que nao se le.
- `maquina`: a maquina de pilha, com `dispositivos`, onde ficam os tensores. `register_vm`: a maquina de registradores.
- `interpretador`, `tarefa`, `aplicar`, `ambiente`: o interpretador de arvore.
- `modulos`: onde se procuram os arquivos que um programa pede.
- `nativas*`, `biblioteca`, `json`, `csv`, `datas`, `md5`, `cripto`, `expressoes`, `quantizacao`: as funcoes
  nativas. `ponte` leva as do interpretador a maquina de pilha.
- `tensor`, `autodiff`: o que entra em cada conta com tensores, e a fita das derivadas.

## O servidor

- `requisicao`, `servidor`, `paginas`, `contexto`, `atendimento`, `http`: uma requisicao, do texto
  recebido a resposta.
- `fastcgi`, `websocket`, `sessoes`, `globais`: os protocolos e o estado partilhado.

## Numeros com ponto

A biblioteca guarda os bits e o texto de cada numero com ponto (`decimal`). As contas com eles sao
pedidas a quem faz andar a maquina, que responde com o resultado; os contratos dizem o que se pede e
o que se faz com cada resposta. O mesmo vale para arquivos, rede e relogio.

## Leis

Cada funcao diz no contrato o que faz. O que se prova de varias em conjunto sao as funcoes `lei_*`:
as de um modulo estao no fim dele, e as mais longas em `saltos` e nos modulos `leis_*` (o que se le
de JSON ou CSV escrito e o que se escreveu, formatar duas vezes e formatar uma, o texto de um
template sai como esta).
