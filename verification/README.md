# gitlite

A small git object store, verified with Verus: writing and reading blobs,
trees and commits in git's object format, naming objects by their SHA-1, and
reading the refs and packs that a remote sends.

Naming and storing an object (`Object::pack`, and so `hash-object` and
`write-tree`) only succeeds when the object's encoded bytes are exactly 20
long, such as a blob of 12 bytes: the name is the SHA-1 of a 20-byte chunk,
and any other length is refused with `ShaChunkLength`. Reading a commit object
is not supported (it panics), and `commit-tree` reports that it is not
supported.

- `src/` is the verified library. `object` holds the object model (kinds,
  headers, blobs, trees, commits) with its encodings and the laws that reading
  back what was written gives it back; `sha` names objects and places them
  under `.git/objects`; `clone` reads advertised refs, builds pack requests and
  reads packs. The `bytes`, `sha1`, `hex` and `flate2` crates are reached
  through small trusted wrappers (`buffers`, `hashing`, `hexcode`, `zlib`).
- `app/` is the command line (`init`, `cat-file`, `hash-object`, `ls-tree`,
  `write-tree`, `commit-tree`) and the HTTP side of fetching, which read and
  write files and call into the library.
- `tests/` runs the library on concrete values.
