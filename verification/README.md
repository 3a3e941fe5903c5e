# netease_music_downloader_rs

A command-line downloader for songs, albums and lyrics from NetEase Cloud
Music, whose logic is a library verified with Verus.

## Layout

- `src/` — the verified library.
  - `text.rs`: character classes, `trim`, line and field splitting, decimal
    and hex text, unsigned number parsing, string order.
  - `json.rs`: the JSON model that API replies are read through.
  - `types.rs`: songs, albums and availability records, with their views.
  - `error.rs`: the library's errors and their messages.
  - `utils.rs`: file-name cleaning, id extraction, and the path rules that keep
    downloads inside `downloads/` and id files inside the current directory.
  - `ids.rs`: reading id files and merging id lists.
  - `netease.rs`: API endpoints, the eapi request encoding (MD5 signature,
    AES-128-ECB, hex), request payloads, and reading the API replies.
  - `availability.rs`: the search for a playable copy across quality levels,
    and the fallback to a proxy, as state machines.
  - `proxy.rs`: reading the public proxy lists, merging them, and the cache
    rules.
  - `commands.rs`: file names of downloaded songs and album tracks, and the
    retry rule for failed downloads.
- `app/` — the program around the library: command line, HTTP requests, JSON
  parsing and writing, files on disk, progress bars.
- `tests/` — tests of the library.

## Usage

```text
netease_music_downloader_rs download 426832090 1381755293
netease_music_downloader_rs download -f ids.txt
netease_music_downloader_rs download -P 3074011314
netease_music_downloader_rs album 34836039
netease_music_downloader_rs lyrics 426832090
netease_music_downloader_rs album-lyrics 34836039
netease_music_downloader_rs --proxy http://127.0.0.1:7890 download 426832090
netease_music_downloader_rs --auto-proxy download 426832090
```

Files are written to `downloads/`: `Artist-Song.mp3` and `Artist-Song.lrc`
for single songs, `Artist-Album/01.Artist-Track.mp3` and `.lrc` for albums.
The API host can be changed with the `NETEASE_API_BASE` environment variable.
