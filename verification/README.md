# gekijou

A library for keeping track of anime: it recognises episode files by their
names, keeps the user's AniList entries and lists, recommends anime from the
completed list, follows what a media player is showing, and reads torrent
listings from an RSS feed.  Its logic is written in Verus and proved against
the contracts stated on each function.

## Layout

- `src/` — the verified library.
  - `foreign.rs`: the calls into `regex`, `strsim`, `chrono`, `xml-rs` and
    the parts of std that the verifier does not know, each with the contract
    it is trusted to meet.
  - `text.rs`, `dates.rs`, `maps.rs`, `duplicate.rs`: text, date order,
    walking hash maps, exact copies.
  - `anime_data.rs`, `api_calls.rs`, `user_data.rs`, `ui_state.rs`,
    `constants.rs`: the program's data and their operations.
  - `recognition.rs`, `removal.rs`, `identify.rs`, `sequels.rs`: reading a
    file name (episode number, release words, title matching, seasons).
  - `scanning.rs`, `fetching.rs`: what a folder scan and a request to AniList
    decide.
  - `sorting.rs`, `recommend.rs`, `watching.rs`, `rss_parser.rs`: sorting the
    list, recommendations, following a media player, torrent feeds.
- `tests/` — tests of the library on concrete values.
- `app/` — a command-line program around the library: files on disk, requests
  to AniList and the feed, walking folders, opening episodes.
