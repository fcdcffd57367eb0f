# carbide_ipxe_renderer

Checks iPXE OS definitions against their script templates, computes their
content hash, and renders them into boot scripts. All of that logic is in
`src/`, verified with Verus; `app/` holds the service and command-line
plumbing (database access, request handlers, printing) around it.

`src/`:

- `text` — character-sequence operations: search, left-to-right replacement,
  space squeezing, line splitting, trimming and joining.
- `model` — the definition, parameter, artifact, template and error types.
- `entries` — name-keyed entries where a later value replaces an earlier one.
- `digest` — the framing of a definition's hashed fields, the stable sort by
  name, SHA-256 (through `sha2`) and hexadecimal.
- `script` — placeholder substitution, `{{extra}}`, and the final clean-up.
- `validation` — the checks a definition must pass, in order.
- `renderer` — the template store and the `IpxeOsRenderer` operations.
- `laws` — properties of the library as a whole.
- `operating_system` — decisions of the definition service: what a create
  or update request stores, how stored and requested fields merge, which
  identifiers are UUIDs (through `uuid`).
- `listing` — the lines and table cells the administration tool shows.
