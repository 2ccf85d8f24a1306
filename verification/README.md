# uor_xiv

Shared workspaces over content-addressed storage. A workspace is a manifest
(an IPLD node stored as JSON) that maps named slots to CIDs and lists the
workspaces it was forked or merged from. Guest programs (WASI modules) run in
a sandbox, and each run is recorded as a run record whose outputs are stored
as blobs.

The library under `src/` is verified with Verus:

- `ipld` — workspace manifests and run records, and the checks they pass.
- `entries` — the slot table of a manifest: a map from names to CIDs, kept in
  ascending byte order of the names.
- `workspace` — fork, merge (with the `ours`, `theirs` and `strict`
  strategies) and slot updates, with the laws they obey.
- `store` — the in-memory store with synthetic CIDs, the CID scheme and file
  layout of the on-disk store, and the reading of `ipfs` command output.
- `digest` — lower-case hexadecimal text and SHA-256 digests.
- `requests` — the decisions of the HTTP front end: strategy names, the
  fields of a run request, the preview of a run's output.
- `sandbox` — running a guest under wasmtime with fuel and captured output,
  and deciding its outcome; captured output stays within the run's limits.
- `run_ops`, `uor_impl` — run records, and CIDs seen as UOR addresses.
- `text`, `json` — byte order of texts and the few calls into std and
  serde_json that the library makes.

`app/` is the `uor-xiv-serve` program: a loopback-only HTTP server with a
small browser UI over a store on disk. It does the I/O (files, the `ipfs`
command, the network, JSON encoding of manifests) and leaves the decisions
to the library.
