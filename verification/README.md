# mini_browser

The bookkeeping of a small tabbed browser built on Tauri, written in Verus.

`src/` is the verified library. It holds which tabs exist, which of them
keep a live embedded webview, the least-recently-used order that decides
which webviews are destroyed when more than three background tabs hold one,
the limit of ten open tabs, the active tab, the developer-tools state, and the toolbar that Linux injects into its
single webview (with the tab commands that toolbar sends back as
`about:blank?...` URLs). Each browser command is a function from the pool
to the pool's next state and to the window work to do.

- `platform` — target platforms and their user agents.
- `order` — sequences of tab ids and what removing ids does to them.
- `pool` — `WebViewPool`, its view, its invariant and LRU eviction.
- `commands` — what each command decides.
- `toolbar` — the Linux toolbar, its commands and its injection script.
- `text` — decimal numbers, `i32` parsing, searching, quoting.
- `web_url` — URL parsing through the `url` crate (trusted).
- `laws` — properties that span several functions.

`app/` is the Tauri program that performs the window work (embedding,
showing, hiding, closing webviews, evaluating scripts, events, JSON).
