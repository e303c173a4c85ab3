# patent

A prior-art search for developer-tool ideas: given a plain-English idea it
picks the registries worth searching, merges and ranks what they return, asks
a local Ollama model for a verdict on how crowded the space is, and guards that
verdict so that it never claims something does not exist.

Layout:

- `src/` — the verified library (Verus). `sources` selects the sources for an
  idea and merges their results, `rank` orders matches by similarity,
  `verdict` builds the prompt and turns the model's reply into a scoped
  verdict, `headline` proves that the data-only headlines assert no absence,
  `ollama` reads the model server's replies, `tui` is the interface's state
  machine, `query` derives keywords, `text` holds the character-level
  primitives they share.
- `app/` — the command-line program around it: argument parsing, HTTP clients
  for the registries and for Ollama, JSON output, and text rendering.
- `tests/` — tests of the library.

Similarities are held as integers in ten-thousandths (`SIMILARITY_SCALE`); the
program converts the floating-point cosine similarities at its edge. The
prompt shows them with two decimals, an exact half going to the even
neighbour.
