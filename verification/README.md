# watchlite

The decisions of an ultra-lightweight server monitor, verified with Verus, and a thin program
around them.

- `src/` is the library. Every function in it is verified but two, `text::utf8_text` and
  `http::field_equiv`, which make a call each whose contract is taken on trust.
  - `text`: text as sequences of characters.
  - `base64`: base64 and its round trip.
  - `config`: the command line, the environment, alert rules, the history file.
  - `http`: what each request to the dashboard is answered.
  - `engine`: the container engine. `probe` finds its socket, `wire` reads its HTTP answers,
    `stats` turns them into containers, `gc` removes images that no container was created from,
    and `schedule` says when.
  - `state`: what is published.
- `tests/` runs the library on concrete values.
- `app/` is the program: sockets, threads, JSON and floating point.

Three contracts are taken on trust: that of `String::push`, that of `std::str::from_utf8` (in
`text::utf8_text`), and that of the comparison of header fields of `tiny_http` (in
`http::field_equiv`). Numbers that are floating point in the program are the bits of an IEEE 754
number in the library, where positive ones are ordered as their bits are.
