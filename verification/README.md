# ame

Ame is a small language that describes a wordnet of sorts: languages, words
(with their part of speech) and relations between words (equivalence, is-a,
part-of, association). The `ame` command reads an `.ame` file, turns it into
Cypher queries and runs them against a Neo4j database.

## Layout

- `src/` — the verified library (Verus):
  - `word`, `config`, `tree`: the words, the connection settings, and the
    parse tree of a script;
  - `symbols`: the table of variables, with its laws (a definition reads
    back, other variables are untouched, first definitions keep their place);
  - `queries`: the Cypher text of every query, stated exactly;
  - `port`: reading the port number of the setup clause;
  - `error`, `fold`, `reading`, `program`: the interpretation of a script,
    clause by clause, against a mathematical model of what it says;
  - `invariants`: what every state of reading satisfies;
  - `script`: the queries of a script in order, and `parse_ame_file`.
- `app/` — the command: argument handling, reading the file, the pest parser
  built from the grammar file `ame_grammar.pest`, and the Neo4j driver.
- `tests/` — tests of the library on concrete scripts.
