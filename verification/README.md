# marksmen

A document toolkit centred on Markdown: readers and writers for Marp
slides, HTML, LaTeX, EPUB packages and parts of Word documents; Mermaid
diagram parsing, graph cycle removal and ranking; CSL citation formatting
and a reference library with BibTeX/RIS import, export and sync merging.

- `src/` is the library, written in Verus: every function carries a
  contract and is verified. Specifications are spec functions over
  sequences of characters; the laws that span several functions are
  public proof functions.
- `tests/` exercises the library on concrete inputs.
- `app/` holds what the library cannot: file, network and clock access,
  serde and hashing of library types, and layout that computes in floating
  point.

Calls into other crates (regex, csv, latex2mathml, quick-xml, uuid, chrono)
and a few standard-library functions stand behind small trusted wrappers;
each wrapper's doc comment says what its contract claims of the call.
