# matterpackr

The core of the MatterPackr archive manager, verified with Verus.

- `src/` is the library. It holds the format catalog and the capabilities
  derived from it, format detection, the choice of engine for each operation
  and the refusals, the safe-path checks, conflict resolution, the listing
  parsers (bsdtar output, ZIP, 7Z and RAR records, gzip/bzip2 streams, disk
  image records), the encryption checks, drag-and-drop selection, file
  association values, and the application state. Listing and the
  encryption checks of ZIP and 7Z archives, testing ZIP archives, and compressing and decompressing
  gzip/bzip2 streams, call the `zip`, `sevenz-rust2`, `flate2` and `bzip2`
  crates on bytes through wrappers whose contracts are stated next to them;
  writing and extracting ZIP and 7Z archives to disk stays in `app/`.
  `consistency.rs` proves that the catalog shown to users agrees with what
  the backend does.
- `app/` is the layer around it: reading and writing files, running the `tar`
  tool, the RAR library and the disk-image reader, the JSON types of the user
  interface, and the Windows registry.
- `tests/` exercises the library on concrete values.
