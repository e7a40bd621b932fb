# ossfs

An S3-compatible bucket as a filesystem, without a metadata store of its own:
paths are object keys, and the bucket is the only truth.

- `src/` is the library, verified with Verus. It decides; it neither waits nor
  sends. Operations that talk to the store are state machines: they say which
  request comes next and take in what the store answered. Times are ticks that
  the caller hands in.
- `tests/` runs the library on concrete values.
- `app/` carries the decisions out: the SDK's client, the files of the disk
  cache, the clock, and what is counted in fractions.

Where to begin reading in `src/`:

| module | what it holds |
|---|---|
| `fs`, `operations` | a mount: its settings, its state, what each operation does first |
| `paths`, `listing`, `stat` | keys, directory listings, lookups |
| `reading`, `read_cache`, `block_read`, `fetching`, `prefetch`, `etags` | reads |
| `disk_cache`, `disk_format` | the disk cache and its files |
| `writing`, `multipart`, `streaming`, `budget`, `retry` | uploads |
| `deletion`, `rename`, `tree_copy`, `copying` | trees |
| `trash`, `stat_cache` | what is hidden, and what is remembered |
| `config`, `metrics`, `error` | settings, counters, errors |
| `text`, `digits`, `hashes`, `crc64`, `keymap`, `ranges` | building blocks |

What is not proved is declared where it is used: the MD5, Base64 and UTF-8
conversions, the semaphore, the SDK's timeouts, and the text that an `anyhow`
error shows.
