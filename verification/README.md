# fitnab

A Torznab indexer for the FitGirl repack site, with its logic verified in Verus.

## What it does

- **Sync.** At startup the server reads the site's feed. Where the feed reaches back to
  the last recorded sync, that is enough; otherwise the whole A-Z list is crawled. After
  that the feed is read once an hour. A game for which the feed shows a later point in time
  than the stored one counts as yet to be fetched, whatever offsets the dates are written
  with.
- **Metadata on demand.** A game's magnet link, size and date are read from its post when
  a search for something finds the game, or when it is downloaded. Browsing without a
  search text reads no posts.
- **Health.** Several UDP trackers are asked at once, and the report with the most seeders
  counts.

## Layout

`src/` is the library. Everything in it is verified: what a feed, a list page or a post is
read as, how rows are merged into the store, what follows each answer of a tracker, which
step of a sync comes next, and the text of every reply.

| module | what it holds |
| --- | --- |
| `text` | slugs, joining, case, decimal numbers, the order of texts |
| `moment` | points in time and their RFC 2822 and RFC 3339 forms |
| `patterns` | the regular expressions and what their matches are |
| `magnet` | the info hash of a magnet link |
| `scrape` | the exchange with a tracker, and the best of several reports |
| `provider` | games, and how rows and metadata change them |
| `feed` | the feed of the latest games |
| `html` | elements of an HTML page |
| `catalog` | the A-Z list and the crawl over its pages |
| `post` | the post of one game |
| `sync` | which step of a sync comes next |
| `download` | the answer to a download |
| `torznab` | the answer to a Torznab request |

Calls into other crates stand in small wrappers whose contracts are trusted; the doc
comment of each says what is claimed of the function it calls.

`app/` is the server around the library: HTTP, SQLite and UDP.
It expects the store's schema under `./migrations` and takes `DATABASE_URL`
(`sqlite:fitnab.db` where it is not set).

`tests/` runs the library on concrete inputs.
