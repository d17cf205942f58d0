# manga_sources

The logic of nine Aidoku manga sources (Comick, FanFox, MangaFreak, MangaHere,
MangaKatana, MangaPill, ManhuaUS, Tapas, WEBTOON), written in Verus and proved
against its contracts.

- `src/text.rs`: searching, splitting, replacing, joining and trimming text,
  decimal numbers; the spec functions that the contracts are stated in.
- `src/date.rs`: upload dates, read with chrono and turned into UNIX timestamps.
- `src/model.rs`: series, chapters, search results, filters, deep link targets.
- `src/common.rs`: case mapping, numbers in chapter names, status labels.
- one module per source: request addresses, entries, series details, chapters,
  page images and deep links, with laws stating that the links a source builds
  point back at what they were built from.
- `app/`: the Aidoku side: network requests, HTML selection through the host,
  settings, JSON decoding with serde, and the conversion of the library's
  values into the host's.
- `tests/`: tests on concrete values.
