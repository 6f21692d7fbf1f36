# c2pa_assets

Handling of C2PA provenance data in TIFF files and fonts, and validation of the COSE
signatures over it. The library in `src/` is verified with Verus.

- `src/tiff`: reading the directories of TIFF and BigTIFF files, and cloning files with a
  manifest store or XMP added, replaced or removed. `laws.rs` states what holds across these
  operations: what is written is read back, and everything else is kept.
- `src/font`: the 'C2PA' table of OpenType and SFNT fonts, the ranges that are hashed, and
  thumbnails.
- `src/cose`: COSE_Sign1 structures, the checks of the certificates that they are made with, and
  the verification of signatures.
- `src/identity.rs`: the interface of those who sign identity assertions.
- `app/`: files on disk, and the services that a verification relies on.
- `tests/`: tests of the library.

What the library has from outside crates stands behind small functions whose doc comments name
what they call: `src/tiff/tree.rs`, `src/cose/x509.rs`, `src/cose/sign1.rs`, `src/font/xmp.rs` and
`src/text.rs`.
