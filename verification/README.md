# s3_core

The object model of an S3-style store, written in Verus: bucket and object names,
entity tags, version and request identifiers, buckets, object metadata, tag sets and
lifecycle rules. Each function states in its contract what it returns and how it
changes its argument; where the result rests on chance or on the clock (fresh
identifiers, creation times), it states what holds of every outcome, and a
variant that takes the time as an argument states the rest. Verus proves the
code against those contracts.

- `src/` is the verified library. `kvmap` is an ordered string map (entries kept
  sorted by key) that stands where an ordered map is needed, since vstd gives no
  order specification for `String` keys; `text` holds the
  character-level helpers and the order on strings.
- `tests/` runs the library on concrete values.
- `app/` holds copies of the lifecycle types with their serde form and of the
  errors with their messages, converting to and from the library's types.
