# dex

A reader for Dalvik executable (DEX) files, written in Verus. Every parser of the
library is an executable function whose contract states, over spec functions on the
file's bytes, exactly what it returns and which error it reports; Verus checks each
of them.

Layout:

- `src/read.rs` — byte order, and the reads of `u8`, `u16` and `u32` (the multi-byte
  reads go through the `scroll` crate).
- `src/header.rs`, `src/map.rs` — the file header and the map list.
- `src/jstring.rs`, `src/items.rs` — LEB128 numbers, string data and the fixed-size id
  items (field, proto, method, method handle, class definition).
- `src/class_data.rs`, `src/code.rs`, `src/debug_info.rs`, `src/annotations.rs`,
  `src/encoded_value.rs` — the variable-length items of the data section.
- `src/order.rs` — byte-wise order of strings and its laws.
- `src/dex.rs` — `DexReader` and `Dex`: looking up strings, types, items and classes,
  including the binary searches behind `find_class_by_name`, with the laws that tie
  them together.
- `app/` — opening a file from disk (memory-mapped) and error messages.
