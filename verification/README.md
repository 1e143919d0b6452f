# hub_proxy

A download proxy for GitHub and Hugging Face resources (releases, archives,
blobs, raw files, git clones, model and dataset files). The library in `src/`
holds the proxy's logic with Verus contracts; `app/` is the axum/reqwest server
that performs what the library decides.

- `src/matcher.rs` decides which URLs are served, by ordered regular
  expressions evaluated with the `regex` crate.
- `src/proxy.rs` maps a request path to the upstream URL (scheme repair,
  blob-to-raw rewriting, the matcher gate) and answers the landing page.
- `src/redirect.rs` is the upstream loop as a state machine: redirect depth,
  size limit, bouncing proxiable redirects to the client and following the
  others with sensitive headers removed.
- `src/headers.rs` holds the header rules; `src/config.rs` the settings read
  from `LISTEN`, `SIZE_LIMIT`, `BUFFER_SIZE`, `UPSTREAM_TIMEOUT` and
  `SHUTDOWN_TIMEOUT`.

Notes on behaviour: `normalize_url` prefixes `https://` to any text without an
`http:` or `https:` scheme, text that merely starts with `http` included;
`is_blob` holds only of blob preview pages, not of GitHub `/raw/` downloads; a
duration setting whose value could carry humantime's running total to its
overflow point (see `config::duration_bound`) is read as unparseable and takes
its default.
