# openapi_kit

Generates code from OpenAPI documents through templates. The library in
`src/` is verified with Verus; `app/` holds the command line, file and
template-engine work around it.

- `document`: the parts of an OpenAPI document that the conversions read, and
  reading a document's text (through `serde_yml` and `openapiv3`).
- `generate`: the generators' arguments — a reference written as a string
  literal (read by `syn`) — and rendering a handlebars template with a schema.
- `schema`: what the templates of a project see of a document — each path
  with its operations (parameters, request body, response bodies by code) and
  each object schema as a model whose properties carry a Rust type name.
- `outline`: a shorter view — operation ids by method, and models whose
  properties are wrapped in `Option<..>` unless required.
- `entries`: the ordered maps (of the `indexmap` crate) that converted
  documents hold, and the laws of putting a key in them.
- `name_map`: a map from names to values that keeps each name once.
- `render`: the text filters of the templates (case conversions, `Vec<..>`).
- `config`: the configuration of a run and the inputs its templates get.
- `workspace`: workspaces, their projects and templates, and references
  `<project>:<template>`.
- `commands`: the commands of the command line and the files they use.
- `text`: small verified text operations.
