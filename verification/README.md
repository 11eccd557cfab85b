# mandelbrot

A Mandelbrot set explorer. The crate is split in two:

- `src/` is the verified library (Verus): the fixed-point number type
  `HighPrecision` (backed by the `fixed` crate), the explorer's view
  arithmetic, the zoom and offset producers, the keyboard controls, the row
  sections of the threaded producer, the generic escape-time iteration, the
  generic complex numbers, and the window-size option parser.
- `app/` is the program around it: command-line options (`clap`), the
  window, textures and shaders (`macroquad`), threads (`rayon`), and
  everything that computes in floating point or with posits.
