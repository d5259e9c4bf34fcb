# blast

The front end of a compiler for the Blast programming language, verified with Verus.

A source text goes through these stages:

- `lexer` reads tokens; `lexer::model` says what the next token of a text is.
- `parser` builds the syntax tree of `ast`; `parser::model` is the grammar.
- `analyzer` gives names, types and values to the program and follows its control flow (`cfg`).
  Each method of `Analyzer` is stated by a function of the same name on `AnalyzerView`, the model
  of the analyzer's state.
- `context` is the intermediate representation: types, immediate values and instructions.
- `codegen` selects machine instructions for the functions of a program.
- `compile` puts the stages together.

A stage ends with a result, with reports for the user (`Stop::Errors`), or with `Stop::Unsupported`
where the language has no meaning for the program yet.

Floating point numbers are held as the operations that give them. The program under `app/` rounds
them, prints results, and emits object files with Cranelift.

Properties that relate several functions are proof functions whose names begin with `law_`.
