# Minha Princesa Animes — verified core

The logic of a desktop app that reads anime catalogues from five sites,
lists an anime's seasons and episodes, finds the stream of an episode and
downloads it, written in Verus and proved against its contracts.

## Layout

- `src/` — the verified library.
  - `sources/` — each site: which links are anime pages and which are
    episodes, how catalogue, category and anime pages are read, and how a
    player page leads to a stream (`stream.rs` ranks the candidate links).
  - `sushi/` — the Sushi Animes pages (seasons, catalogue, player).
  - `download/` — the download queue as a state machine (`queue.rs`), the
    decisions of a running transfer (`worker.rs`, `hls.rs`), file naming,
    file checks, FFmpeg choice, posters, notices and the wake lock.
  - `commands.rs` — cache keys, settings rules and the poster cache.
  - `outside.rs` — the calls into `regex`, `scraper`, `urlencoding`,
    `serde_json`, `base64`, `uuid`, `reqwest` and the parts of `std` that
    the proofs rely on, each with the contract it is trusted to meet.
  - `text.rs` — character-sequence helpers with exact specifications.
- `tests/` — tests of the library on concrete pages and values.
- `app/` — the unverified shell: HTTP requests, the FFmpeg process, files,
  the SQLite cache and the async worker that runs the queue's decisions.

Laws that span several operations (pause then resume requeues, a cancelled
download stays cancelled until retried, a catalogue page lists each link
once, resolving a resolved link changes nothing, filtering a filtered page
changes nothing, and others) are stated as public proof functions next to
the code they are about.
