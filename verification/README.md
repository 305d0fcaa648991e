# eleph_gen_wordpress

The WordPress builder for Elephentity: it answers one JSON request (a compiled
schema and the target's configuration) with one JSON response holding a path and
a body per generated PHP file — the storage manifest, the post type and taxonomy
registrations, and the admin pages and templates.

The library under `src/` is verified with Verus. Each generator is stated as a
spec function over the schema and proved against it:

- `protocol` — version gate and request routing, the response envelope, and the
  response to a generate request;
- `storage` — tables, columns, indexes, edge placements and the manifest;
- `registration` — post type and taxonomy registration arguments;
- `admin` — admin pages and list/detail templates;
- `render` — values as PHP array source;
- `rules` — the WordPress settings that decide what an entity gets;
- `ir`, `json`, `assoc`, `text` — the typed IR, JSON values, ordered maps and
  text helpers they rest on.

`app/` is the executable around it: it reads stdin, decodes the request with
serde into the library's types, and prints the response.
