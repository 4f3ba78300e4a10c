# grarr

grarr is a git repository and reviews renderer that can be run on a personal
server to browse self-hosted repositories, and that serves them to git clients
over the smart HTTP protocol.

## Layout

- `src/` is the library, written in Verus, with its behaviour stated in
  `requires`/`ensures` contracts and proved:
  - `pkt_line`, `capability`, `multiplexer`, `smart_http`: the pkt-line
    framing, protocol capabilities and side-band multiplexing, with the laws
    that what is written reads back.
  - `refs`, `upload_pack`, `negotiation`: the reference advertisement, the
    upload-pack request and its answers, and the negotiation of common
    commits, asked one ancestry question at a time, with the laws that it
    reaches the decision the server's rules define and always comes to an end.
  - `handler`, `paths`, `statics`, `caching`, `avatars`, `commit_tree`,
    `config`: the decisions of the web handlers: routes, redirects, pages,
    content types, static files, entity tags and caching, avatar lookup.
- `app/` is the web server around the library: configuration loading, the
  iron handlers, reading repositories with git2, and rendering HTML.
- `tests/` runs the library on concrete inputs.
