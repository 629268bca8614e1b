# tokimo_package_image

Image thumbnail support for a media server: RAW preview extraction from
DNG/TIFF files, capture dates recovered from file names, output-format
bookkeeping, and the decisions of a thumbnail cache pipeline.

- `src/` is the library, written in Verus. Its functions carry contracts
  that Verus proves, except for a few small wrappers around `std`, `chrono`,
  `image`, `kamadak-exif`, `sha2` and `hex`, whose contracts are trusted and
  say so in their doc comments.
  - `raw_preview` walks the TIFF IFD chain and SubIFDs and returns the
    largest embedded JPEG.
  - `metadata` recognises dates in file names, normalises container
    timestamps and reads image dimensions from headers or EXIF.
  - `vips`, `resize`, `thumbnail` choose decoders, sizes, temporary file
    names and ffmpeg command lines; `resize` and `thumbnail` also hold the
    step functions that order the decoders of a resize and the stages of a
    generation.
  - `cache` holds the cache keys, fetch plans and the step functions of the
    thumbnail service.
  - `exif` reads the EXIF fields of an image and makes its EXIF record
    (capture time, camera, lens, exposure, dimensions, GPS, raw tags).
- `app/` is ordinary Rust around it: libvips FFI, the `image` decoders, the
  division of EXIF rationals into floating-point values, and the loops that run the step functions (resize, the async
  thumbnail generator, the cache service).
- `tests/` exercises the library on concrete inputs.
