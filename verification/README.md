# youtube_cli

A command-line client for searching YouTube, reading video details and
downloading transcripts through YouTube's InnerTube API, with a local cache.

The library in `src/` holds the client's logic, verified with Verus: reading
video IDs and channel references from user input, building InnerTube request
bodies and protobuf continuation tokens, reading search, browse, player and
channel-page responses, choosing caption tracks, the retry and request-spacing
policies, cache file names, keys and lifetimes, and the Markdown output.

- `src/text.rs`, `src/seqs.rs`: text and sequence operations with their models.
- `src/json.rs`: JSON values and path navigation.
- `src/api/`: requests and response readers (`search`, `channel`,
  `transcript`, `protobuf`) and the retry and spacing policies (`mod.rs`).
- `src/cache.rs`, `src/config.rs`: cache layout, keys and settings.
- `src/commands.rs`: the decisions of the commands.
- `src/output.rs`: Markdown rendering.
- `src/laws.rs`: properties of the library as a whole.

`app/` is the program around it: argument parsing, HTTP, sleeping between
requests, reading and writing cache files, caption XML, and printing.
