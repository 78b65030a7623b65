# gbf_core

A library for GS2 bytecode, the scripting bytecode of Graal clients, written in Verus.
Verus proves the contracts of the library's functions, except for a handful of trusted
wrappers around petgraph and std (in `graph.rs`, `text.rs` and `frida_bridge.rs`), whose
contracts are believed as their documentation and source state them.

- `graal_io`: Graal-encoded integers and strings, read and written.
- `opcode`, `operand`, `instruction`: the instruction set and its text.
- `bytecode_loader`: parsing a module (flags, functions, strings, instructions) into
  instructions and block starts, with every error the format can raise.
- `basic_block`, `function`, `graph`: basic blocks and control-flow graphs (petgraph
  behind a few trusted wrappers), and the labels of blocks in a graph drawing.
- `frida_bridge`: the text of the scripts that inject bytecode into a running client.
- `decompiler`: the syntax tree, its emission as GS2 source, the stack machine that turns
  instructions into nodes, the handlers of each family of opcodes, and structure analysis,
  which reduces a graph of regions to structured control flow.
- `stats`, `consts`: statistics and exit codes of batch runs.

`app/` is a small command-line program around the library (disassembly, hexadecimal
conversion, injection with Frida); `tests/` holds the tests.
