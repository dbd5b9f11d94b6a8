# registration_opencl

Host-side logic of a GPU (OpenCL) point-cloud registration pipeline, verified
with Verus.

- `src/` — the verified library: launch geometry (`launch`), device-buffer
  growth decisions (`buffers`), per-kernel dispatch plans and input checks
  (`dispatch`), read-back checks and point layouts (`readback`), correspondence
  selection for the error estimate (`correspondence`), colour packing
  (`color`) and device-extension list queries (`extensions`).
- `app/` — the program around it: OpenCL contexts and kernel launches, PCD file
  I/O, and the floating-point parts of registration (SE(3) updates, linear
  solves, centroids, best-candidate selection).
- `tests/` — executable tests of the library.
