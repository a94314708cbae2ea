# ygo-cards

Generates normalized Yu-Gi-Oh! card data for the OT and RD environments from
the upstream card databases and forbidden lists, checks card images, compares
the result with the latest published release and writes a build report.

## Layout

- `src/` is the library, verified with Verus. It holds the card rules
  (type classification, field normalization, forbidden-list parsing and
  lookup, description text clean-up), the image resolver as a state machine
  that asks its caller to check one URL at a time, the retry and download
  decisions, URL and endpoint validation, the comparison with the latest
  release, the build log and the text of every report. Each public function
  states its result in its contract; the `lemma_*` proof functions state the
  laws that span several calls.
- `app/` is the program around it: command-line options, reading the
  SQLite databases and JSON configuration, HTTP requests, file writes and the
  loops that feed the library's decisions with what the network answered.
- `tests/` runs the library on concrete cases.
