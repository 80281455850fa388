# raytracer

The core of a small spectral ray tracer, with its behaviour stated in
contracts and proved.

- `src/` is the library: integer vectors and rectangles, interval searches
  and order checks, stratified sampling, triangle-mesh lookups, film pixel
  positions, and the text format of the RGB-to-spectrum coefficient tables
  (where the scale and the coefficient triples stand in a table's C source).
- `app/` is the program around it: command-line parsing, the conversion of
  coefficient tables into binary files (`convert-color-spaces`), timing of
  named steps, and some of the floating-point parts of the renderer that the
  library does not hold (vectors, matrices, transforms, rays, filters,
  colors, spectra, samplers, triangle intersection). The camera, the color
  spaces, the film's pixel accumulation, 3D bounding boxes and intervals are
  not part of it.
- `tests/` exercises the library.
