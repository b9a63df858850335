# dm

An operations toolbox for Linux hosts: a script catalogue and runner, health checks
for the host and its middleware, a rule catalogue that turns check output into
findings, a Java process analyser, operator documents and maintenance records.

The library under `src/` holds the logic and is verified with Verus: each public
function states its result in its contract. Where a result rests on something the
library does not model (Unicode case tables, the order of a hash map), the contract
names that part or states what holds of every outcome. `app/` is the command-line
program around it; it reads files, runs commands and prints, and hands the library
plain values.

- `text`, `paths`: character-level string and path helpers with their specifications.
- `config`: defaults and path resolution of the settings file.
- `script`: script discovery, metadata defaults, argument and environment building.
- `checks`: the check catalogue and the parsers and rules behind each check.
- `anomaly`: findings, their default advice, the generic and per-check rules, the
  evaluation and enrichment of a whole check result, rule overrides and the rule
  catalogue.
- `java_analyzer`: thread-dump parsing, hot frames, findings, the course of an
  analysis run, the Markdown report and fleet scans.
- `docs`, `maintenance`: document headers and directories; maintenance records.
- `cli`: table layout, Java report pages and the PDF writer.
