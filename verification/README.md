# fb2s

The catalogue logic of an OPDS server for a library of FB2 books, verified
with Verus. The library (`src/`) builds the catalogue pages from the records
of the library database and states, for each page, which entries it lists, in
which order, with which titles and links.

- `utils`: the catalogue order of names (Cyrillic letters first, then other
  non-ASCII characters, then ASCII) and the URL-safe base64 encoding of path
  segments, with the round-trip laws.
- `collate`: lexicographic orders over character ranks, the stable sort that
  listings use, and the order of `String`'s `Ord`.
- `opds`: feeds and entries and their Atom XML form; the length-first order
  of the first catalogue's prefixes and its pages.
- `impls`: feeds of name prefixes linking to their encoded pages.
- `catalog`: the pages of authors, series, books and genres.
- `search`: the step-by-step narrowing of a name prefix.
- `database`, `sql`: the records and the SQL text of the queries.
- `archive`: which zip archive holds a book.
- `text`: decimal rendering of numbers.

`app/` holds the HTTP server, the database access and the archive reading
around the library.
