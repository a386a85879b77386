# img2webp_hq

High-quality JPEG, PNG and WebP to WebP conversion. Resizing happens in linear light, ICC
profiles are honored, and lossy output uses gamma-aware 4:2:0 chroma subsampling (SimpleYUV)
by default.

The library under `src/` is written in Verus and verified:

- `config`, `cli`: option checking, with the exact rule each error message stands for;
- `decode`: format detection, sample layout and bit-depth conversion, EXIF orientation;
- `input`: PNG and WebP decoding and JPEG metadata through the `image` crate's decoders;
- `resize`: target-size arithmetic and the call into `fast_image_resize`;
- `cms`: source ICC profiles, lcms2 transforms and the tone-curve lookup tables;
- `simpleyuv`: RGB to YUV 4:2:0 in fixed point (SimpleYUV, and the 16-bit linear paths);
- `encode`: ARGB packing for the lossless encoder and metadata chunks;
- `pipeline`: the decisions of a conversion, and resizing in linear light (the resized
  samples are stated as the resize of the linear-light samples, taken back to the source
  profile).

Calls into outside crates sit behind small trusted functions whose contracts say what the
library relies on. `app/` is the command-line tool around the library: argument parsing,
file I/O, the JPEG pixel decoder (`jpegli`), the floating-point parts (linear profile, encoder quality),
the SharpYUV FFI and the WebP encoder.
