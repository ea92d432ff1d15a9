# s3handler

A client for S3-style object storage (AWS and Ceph): list, store, fetch and delete objects, make and
remove buckets, read and set tags, ask for usage. Requests are signed by version 2 or version 4 of the
AWS signature; replies come in XML or JSON; a bucket is named in the path or in the host.

- `src/` is the verified logic. A command is a method of `Handler` that says what to ask of the
  service; a second method takes what came back and says what to show, what to ask next, or how the
  command ends. Contracts are stated over sequences of characters and bytes. `src/laws.rs` holds what
  is proved of the library as a whole.
- `tests/` runs the logic, with the outside crates behind it, on concrete values.
- `app/` carries the commands out: HTTP, files, the screen and the log. The signatures themselves
  come from the embedding program, through the trait `Signer`.

What is trusted rather than proved are the calls into `regex`, `quick-xml`, `serde_json` and `chrono`,
and of the standard library `str::from_utf8` and `Path::file_name`; each stands in a small function whose comment says what is claimed of it.
