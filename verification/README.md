# impressions

Reading, inspecting and writing 32-bit Portable Executable (PE) image files,
with every step proved against its contract by Verus.

- `src/memory` — addresses, sizes and address spaces; `sparse`, a range of
  addresses with disjoint occupied parts; `cursor`, the `Cursor` trait that
  every cursor of the library implements.
- `src/wire` — little-endian fields: what reading and writing them means, and
  the few calls into `bytes` that do the reading.
- `src/array_string` — fixed-size, null-padded UTF-8 names.
- `src/image/region/headers` — the DOS, COFF, Optional and section headers:
  each with its layout, reading, writing, a field table and a cursor, and the
  proofs that reading undoes writing and writing undoes reading.
- `src/image/region/section` — sections as mapped into memory, with the
  identified blocks placed in them.
- `src/image` — the image: its regions, reading it from a file, writing it
  back, placing blocks, and a cursor over all of it.
- `app/` — entry points from `bytes::Bytes`, error types for
  `std::error::Error`, serialisable copies of plain values, and text forms.
