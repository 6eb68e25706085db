# simple_music_bot

A Telegram bot that downloads music (and, on request, videos) from YouTube,
SoundCloud, Bandcamp and similar services, looks up tags and a cover in the
iTunes catalogue, lets the user confirm or edit them, and sends the tagged MP3
back.

The decisions of the bot form a library verified with Verus (`src/`):

- `text` — character-level string helpers (trim, split, join, replace,
  decimal rendering, UTF-8 byte prefixes, `i32` parsing) with their
  specifications.
- `downloader` — the link grammars (media links, YouTube links, YouTube
  playlist links) as verified recognizers, artist/title guessing, the
  `yt-dlp` argument lists, output parsing, error messages and the retry rule.
- `ytdlp_config` — the extractor arguments shared by every `yt-dlp` run and
  the cookies file carried by a base64 (optionally gzip) setting.
- `state` — the per-chat download mode and the registry of tracks waiting
  for a fallback decision.
- `resolvers` — word tokens, match scores and the choice of the best
  SoundCloud or Bandcamp candidate.
- `metadata_service`, `tagging` — catalogue records and the ID3 frames to
  write.
- `dialogue` — message and button routing, the dialogue state machine, the
  playlist walk, and the texts built from the dialogue's data (the tag
  caption, playlist and progress reports, the mode reply); fixed prompts stay
  with the Telegram code in `app/`.

`app/` is the executable around it: settings, the Telegram dispatcher,
process spawning, HTTP requests and ID3 writing.
