# cmyk_press

The verified integer core of CMYK Press, an After Effects effect that gives
footage a printed look (CMYK separation, halftone dots, plate registration).

- `src/` (Verus): the fixed random-registration hash and its inverse, the
  parameter code tables and their normalization, the plate mask, the split of
  a frame into worker row bands, pixel and layer-row index arithmetic, and the
  Metal dispatch sizing, each with its contract and the laws that hold of it.
- `app/`: the plug-in around it: the `f32` renderer, parameter registration
  and reading through `after_effects`, layer conversion and the Metal GPU path.
- `tests/`: tests of the core on concrete values.
