# cafe_shader

Reads GFD files (the container of GX2 shaders) and gathers the values from
which static shader tables are generated.

- `src/bytes.rs`: big-endian words and NUL-terminated strings in byte buffers.
- `src/gfd.rs`: the file format: header, blocks, relocation table, shader
  headers and their tables; reading with exact error reporting.
- `src/encode.rs`: writing headers, blocks and files back, and the proofs that
  reading and writing undo each other.
- `src/init.rs`: the initialiser values of vertex and pixel shaders: named registers,
  shader mode, uniform-block and attribute tables.
- `src/shaders.rs`: pairing shader header blocks with their program blocks.
- `app/lib.rs`: the `include_shader!` expansion, which reads the file and turns
  the gathered values into tokens.
