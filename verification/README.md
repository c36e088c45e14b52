# trivialized_from

The `TrivializationReady` derive implements `From<T>` for a struct or an enum,
for each type `T` named in its `#[From(...)]` attributes. Fields are copied by
name; `#[Into]`, `#[Transform(path)]` and `#[MacroTransform(path)]` on a field
(or on an enum variant) say how its value is converted.

- `src/` is the verified library, written in Verus. It takes the data
  structure as plain values (`syntax`), reads the attributes (`metadata`,
  `attributes`, `from`), and renders the generated code as text together with
  the errors to report (`derive`). `laws` proves properties of the expansion
  as a whole; `outside` holds the items of syn and proc-macro2 that it uses.
- `app/` reads the compiler's token stream with syn, builds the library's
  input from the syntax tree, and hands code and errors back to the compiler.
- `tests/` runs the library on the cases that the derive is documented for.
