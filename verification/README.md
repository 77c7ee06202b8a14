# aiken

A verified library for two tools that work on Aiken code.

- The analysis runs the code of validators symbolically. It tracks the purpose of the script
  context and the inputs of the transaction, and reports which validators compare a count of
  tokens. A call in a validator's own code is replaced by the function that it calls; calls
  inside that function are not. Its modules are `semantics` (what execution means), `execution`,
  `analyzer`, `duplicates`, `bounded_search`, `references`, `report` and `analyze_validator`;
  `environment`, `environment_text`, `value` and `name_map` hold its data.
- The export turns the syntax of a module into a tree that is written as JSON: every kind of
  definition, with `use` statements, and the code in detail where that is asked for. Its modules
  are `untyped`, `serializable`, `serialize`, `serialize_expression`, `export_ast` and
  `file_search`.

`laws`, `context_laws`, `analysis_laws` and `export_laws` state what holds of every execution, of
every analysis and of every export.

`app/` holds the commands: reading files, parsing and type checking with `aiken_lang` and
`aiken_project`, and writing the results.
