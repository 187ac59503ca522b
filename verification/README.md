# seo_yonetici

The rules of a desktop SEO manager for an IdeaSoft store, written in Verus and proved
against their contracts: meta field badges, HTML text helpers, description rewriting and
assembly, gallery image rules, feed synchronisation planning, store update bodies, version
histories, start-up health rows, and the smaller decisions of the work screens.

- `src/` — the verified library, one module per subject (`sync`, `validation`, `gemini`,
  `blocks`, `generation`, `ideasoft`, `versions`, `health`, `json`, `backup`, ...). Calls into
  `regex`, `serde_json`, `unicode-segmentation`, `chrono`, reqwest's URL parser and
  `imagesize` go through small trusted wrappers whose contracts are stated next to them.
  Response bodies and backup files are read into the `json::Json` tree and decoded by
  verified functions.
- `tests/` — tests of the library on concrete values.
- `app/` — a command-line front end: the SQLite database and its queries, HTTP requests to
  the Gemini API and to the store's admin API, image downloads, and the JSON shapes sent to
  those services.
