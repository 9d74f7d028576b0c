# ray_tracing

A small path tracer ("Ray Tracing in One Weekend" / "The Next Week" scenes)
split into a verified library and an application around it.

* `src/` — the library, verified with Verus. It holds the parts of the
  renderer that compute on integers and bytes:
  * `rtw_image` — decoding an image file into packed RGB bytes and the
    clamped pixel lookup;
  * `texture` — the image texture's texel lookup and the checker cell parity;
  * `perlin` — the three permutation tables of Perlin noise and the lattice
    hash that selects a gradient;
  * `camera` — the row-major walk over the pixels of the image;
  * `color` — the plain-text PPM output (header and pixel lines);
  * `rtweekend` — the random integer draw used by the table shuffle.
* `app/` — the program: vectors, rays, intervals, boxes, objects, materials,
  the camera, the render loop and the scenes. All of it computes with
  floating-point numbers (or does I/O and threading), which the library does
  not hold; it calls the library for the parts above.
* `tests/` — tests of the library on concrete values.
