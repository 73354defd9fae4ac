# VM translator

Translates programs of the stack-based VM language (`push`, `pop`, arithmetic,
`label`/`goto`/`if-goto`, `function`/`call`/`return`) into Hack assembly.

- `src/` is the verified library (Verus):
  - `text` — lines, whitespace, comments, tokens, building strings;
  - `number` — decimal numerals, written and read;
  - `labels` — the label table and label qualification;
  - `command` — the commands and how a line of tokens reads as one;
  - `assembly` — the assembly of each command;
  - `program` — a whole source text: label scan and command list;
  - `compiler` — the translator over several files, with the bootstrap code;
  - `error` — the errors;
  - `hack` — a model of the Hack machine and its assembly text;
  - `semantics`, `comparison`, `function_entry` — what the code of `push`,
    `pop`, the arithmetic commands, the comparisons and a function's entry does
    on that machine, and the labels that comparisons and calls declare.
- `app/main.rs` is the command-line program: it reads the `.vm` files (one
  file, or every `.vm` file of a directory), runs the translator and writes the
  `.asm` file.
- `tests/` exercises the library on concrete inputs.
