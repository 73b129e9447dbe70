# drasi_server

The verified core of the Drasi server's management API, written in Verus.

`src/` holds the decisions of the API, each with a contract that Verus proves:

- `solution`, `template_scan`, `yaml_lines`, `variables`: solution templates,
  their `${NAME}` / `${NAME:-default}` variables (what a template declares,
  how values are substituted) and the requests that deploy or create them.
- `deploy`, `template_plan`, `clone_plan`: which plugins a template needs,
  the messages of refused templates, a deployment step by step (each
  component created in turn, the creations undone at the first failure, the
  starts once all exist), the validation of each query's mapping, what a
  clone copies and in which order and how it went, and the layout of a
  written template.
- `envelope`, `config_map`: the fields of component configuration maps that
  the server reads itself (for a source's or a reaction's whole map: which
  map is refused with which error and what the error says, what an accepted
  one gives, the plugin's configuration as an object among it), and the
  source fields a bootstrap provider inherits.
- `graph_check`: which computation graph definitions can be persisted.
- `templates`: template files and ids, and the listing of the solutions
  directory.
- `content`, `operations`, `plugins`, `instance`, `api_error`,
  `cli`: request bodies, template files, links, limits, upserts, plugin
  dependents and schemas, refusals (among them a change that could not be
  saved) and summaries.
- `dto`: configuration documents, their defaults, and the mapping of a
  query's configuration to the runtime's, with its values resolved.
- `text`, `order`: character-level helpers and the order of names.

`app/` is ordinary Rust around the library: serde forms of the documents,
the solutions directory, the environment, the component runtime and the
terminal.

`tests/` exercises the library from outside.
