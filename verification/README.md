# s3z

S3 ops, but fearlessly fast: a lightweight, high-throughput S3 client built
on raw HTTP and SigV4 signing, whose core is verified with Verus.

## Layout

- `src/` — the verified library: configuration, credential resolution,
  request signing (through `aws-sigv4`), object-key percent-encoding
  (through `percent-encoding`), response handling, retry decisions with
  exponential backoff, listing pagination, part planning and parallelism
  tuning. Every function carries a contract; the laws that tie functions
  together (encoding round trips, part coverage, backoff bounds, the
  median rule of tuning) are public proof functions.
- `tests/` — tests of the library on concrete values.
- `app/` — the command-line client: it sends the requests the library
  signs (`reqwest`, `tokio`), parses XML bodies (`quick-xml`), moves bytes
  between S3 and the file system, runs the worker pools and reports
  progress.
