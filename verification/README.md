# md2blog

The verified core of a small Markdown blog server. Page files below a content
root are turned into HTML pages, indexed by file path and by route, and served
over HTTP; console commands reload one page or all of them.

- `src/` is the library, checked by Verus: text operations (`text`), page
  sources and pages (`page`, `markdown`), the two-way page index
  (`dual_hashmap`) and the changes made to it on load and reload
  (`page_manager`), request handling (`runner`), console commands (`command`),
  settings (`config`) and test pages (`test`).
- `app/` is the server around it: reading files and settings, parsing the YAML
  configuration of a page, the axum HTTP server, the shared swappable index and
  the console loop.
- `tests/` exercises the library on concrete values.
