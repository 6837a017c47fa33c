# pbf_derive

Planning and rendering of the `ProtoRead` and `ProtoWrite` derives for
protobuf messages.

- `src/model.rs`: the plain description of a struct or enum that the derives
  read: field types as far as the derives look into them, and the field
  attributes (`tag`, `signed`, `fixed`, `nested`, `ignore`).
- `src/read.rs`, `src/write.rs`: which read or write each field gets, the tag
  numbering, and the text of the generated item, each stated as a spec
  function and proved for the executable code.
- `src/accept.rs`: when each derive accepts an item, field by field.
- `src/laws.rs`: what holds between the two derives: the generated `read`
  decodes, under the same tag, what the generated `write` encodes.
- `src/text.rs`: decimal tag literals, identifier comparison, and the wrapper
  around the generated item.
- `app/`: the entry points over `syn` items: attribute parsing with `darling`,
  conversion into the model, and the panics for refused items.
