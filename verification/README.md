# vizsink

Draw and visualize simple primitives from any program: print lines such as
`draw circle x=1 y=2 r=3` and pipe them into `vizsink`, which serves a page
that draws them on a canvas.

## Layout

- `src/` — the library, verified with Verus:
  - `text.rs`: characters, trimming, searching; the calls into std that
    vstd leaves unspecified;
  - `numbers.rs`: the float literal grammar of `f64::from_str`, `u32`
    parsing, and `Scalar`, a number kept as the literal that was written;
  - `tokens.rs`: the tokenizer;
  - `params.rs`: `key=value` parameters and typed reading of them;
  - `ast.rs`: the syntax tree and angles;
  - `parser.rs`: the parser, line by line, with the grids it remembers;
  - `generator.rs`: canvas commands from the syntax tree;
  - `color.rs` and `dsl.rs`: hex colors and the simpler space-separated format.
- `tests/` — tests of the library.
- `app/` — the program: the web server, the browser frontend, and the
  floating-point evaluation of the numbers the library keeps as literals.
  `vizsink --ops` serves the space-separated format instead. The frontend's
  files are read at run time from `static/` in the working directory.
