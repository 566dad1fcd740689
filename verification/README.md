# panini

A Sanskrit grammar engine after the Aṣṭādhyāyī: sandhi (joining and
splitting words), nominal declension, verbal conjugation in the present, a
consistency checker for the rule data, IAST-to-Devanāgarī transliteration,
and the request handling of its MCP and HTTP services.

The grammar itself is data: every rule is a JSON object of parameters with a
statement, grouped by template (`sandhi_rule`, `sup_suffix`, `pratyaya_rule`,
`anga_rule`, `tripadi_rule`, `tin_suffix`, `vikarana_rule`, `verb_anga_rule`).
The engine reads these objects, ranks competing rules (apavāda over nitya over
paribhāṣā over utsarga, then by sūtra position) and records a sūtra-cited trace of
every rule that fires.

## Layout

- `src/` — the library, written in Verus. Each derivation and check has a
  contract stated over spec functions of the grammar; the laws that relate
  several operations (a join takes the highest-ranked rule, a join is found
  again by splitting, loading a template then reading it gives the rules
  back, …) are public proof functions next to the code they speak of.
  - `params`, `shapes` — rule parameters as plain values and the checks of
    their shape.
  - `phoneme`, `text`, `sorted` — phoneme tokenizing and text utilities.
  - `engine` — shared result types, rule priorities and rank order.
  - `sandhi`, `declension`, `conjugation`, `verb_anga` — the derivations.
  - `consistency` — the rule-data checker.
  - `script` — transliteration.
  - `rule_cache`, `service` — the rule store and the tool requests.
  - `gui` — the state machines of the desktop workbench's tabs.
- `tests/` — tests of the library on concrete rule sets.
- `app/` — the program: command line, loading rules from files or from a
  vidya endpoint, the MCP server (stdio or streamable HTTP) and the JSON API.
