# opencc-rust

Conversion between Chinese character variants (simplified, traditional, Hong Kong,
Taiwan, Japanese forms) by dictionaries stored in tries, written in Verus and proved
against its contracts.

- `src/trie.rs`: the trie and the longest-match conversion (`convert_text`).
- `src/dictionary.rs`: dictionary entries, the compact `source target|...` text
  format (`text_entries`), dictionaries and groups of dictionaries.
- `src/pipeline.rs`: converters made of stages, locale tables and the converter
  builder (`build_outcome`), errors.
- `src/locale.rs`, `src/locale/`, `src/presets.rs`, `src/presets/`: the built-in
  locales and presets; `src/dict_data.rs`: the embedded dictionaries.
- `src/html.rs`: conversion of XML-compatible HTML documents, read and written with
  `xmltree`.
- `src/text.rs`: character and string helpers.
- `app/lib.rs`: `Display` and `std::error::Error` for the error type.
