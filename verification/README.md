# rust_tools

Tools that read protobuf definitions (`.proto` files) and generate Lua
handler code for a game's client and server (DS) sides. The library under
`src/` is verified with Verus; `app/` is the command line around it.

- `proto_2_lua`: the line-by-line generator. `scan` reads the messages of a
  file with regular expressions (through the `regex` crate, see `pattern`),
  `class_def` and `handler` give the Lua text of each message, `update`
  decides what to write into a handler file that may already exist, and
  `route` gives the route table of a module.
- `proto2lua`: a `.proto` parser on bytes, with its grammar stated as
  mathematical functions in `grammar` and each parser proved to follow it.
- `luaparser`: the same for comments, names, strings and number literals of
  Lua `local` definitions; the values of number literals, which are floating
  point, are computed in `app/`.
- `cliparse`: the options of the tools.
