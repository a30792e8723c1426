# imsz

Width and height of an image file, read from as few bytes as possible. Supported
formats: GIF, PNG, BMP, JPEG, WEBP, AVIF, TIFF, QOI, PSD, XCF, ICO and OpenEXR.

## Layout

- `src/` is the verified library.
  - `scanner.rs`: the `Scanner`, which decides from the first bytes of a file and
    the replies to its requests what to read next and, in the end, the size; and
    `spec_imsz`, the size stated in terms of the file's bytes.
  - `protocol.rs`: requests, replies, and the model of a file (`Source`).
  - `preamble.rs`: format signatures and the formats whose size is in the first
    30 bytes; `jpeg.rs`, `avif.rs`, `tiff.rs`, `ico.rs`, `exr.rs`: the formats
    that need further reads.
  - `format.rs`: `ImFormat`, `ImInfo`, `ImError`; `bytes.rs`: integers in
    either byte order.
  - `laws.rs`: properties across formats and calls.
- `app/` runs the scanner over files and readers (`imsz`, `imsz_from_reader`),
  and holds the command-line demo and the C interface.
- `tests/` drives the scanner over in-memory files.
