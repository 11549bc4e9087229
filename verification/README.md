# mediaplayerofdoom

A retro tape/disc/radio music player for Windows with a video window,
YouTube downloads and a band catalog. The player's rules live in a library
proved correct with Verus; the window, sound output, files, processes and
network calls live in a thin program around it.

## Layout

- `src/` — the verified library. Each module states its behaviour in
  `requires`/`ensures` over `Seq`, `Set` and `Multiset` views, and proves it.
  - `text`, `paths`, `time`: character-sequence helpers, Windows path parts,
    `Duration` as nanoseconds.
  - `util`, `library`, `order`, `bands`: file-name clean-up, display names,
    sort keys, library order (a stable insertion sort), the band catalog.
  - `playlist`, `controls`, `cover`, `prefetch`, `batch`, `scan`: ratings and
    the star filter, what plays next or before, volume, playlist edits and
    files, keys and deck buttons, album-art choice, the "Meta All" run,
    batching, folder scans and drive roots.
  - `network`, `ytdlp`, `tools`, `ffmpeg`, `video`, `pipe`, `audio`, `art`,
    `download`: URL text, yt-dlp output, tool paths, video sizing and cut
    ranges, the video clock and queue, PCM decoding, seeking by skipping,
    cover thumbnails, the download queue.
  - `theme`, `types`, `windows`, `settings`, `stored`: palettes, shared
    enums, the fallback icon, defaults and the bounds of saved levels, and
    the band catalog, play history and no-art list read back from JSON.
- `tests/` — tests of the library on concrete values.
- `app/` — the program: egui window, rodio sound, worker threads, ffmpeg
  and yt-dlp processes, settings files. It calls the library for every
  decision it makes.

Laws that relate several operations (a rating reads back what was written,
PREV undoes SKIP, moving a song twice restores the playlist, a saved
playlist loads back, a local cover always wins over a web one, ...) are
public proof functions next to the operations they speak of.
