# mcp-network-proxy

An MCP server that exposes the host's network as four tools (`fetch`,
`get_json`, `post_json`, `download_binary`). The crate is split in two:

- `src/` is the verified library. It holds everything the proxy
  decides: which fetch requests may be sent and in what form
  (`http_client::prepare_fetch`), how response headers are read
  (`http_client::headers_to_map`), how a body arriving in chunks is kept up
  to a byte limit and when it counts as truncated (`body::BodyCollector`,
  with the laws `law_stop_loses_nothing`, `law_truncation_flag` and
  `law_nonempty_stream`), the
  header map type (`headers::Headers`), and how each tool builds its fetch
  and shapes the outcome (`proxy`). `codec` holds the trusted wrappers
  around base64, UTF-8, JSON and HTTP-method parsing.
- `app/` is the program around it: the reqwest clients and the network I/O,
  the MCP server (rmcp), the serde copies of the request and response types,
  and the command line.
