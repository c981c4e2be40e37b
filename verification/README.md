# cfd_rs

A two-dimensional finite-volume CFD toolkit whose integer and symbolic core
is verified with Verus.

`src/` is the verified library:

- `variables`, `requirements`, `schemes`: variables and their control
  volumes, the gradients a discretisation needs, the schemes and how user
  configurations override their defaults;
- `operators`, `terms`: the operator trees equations are written with, and
  their flattening into the terms (with the factors of their coefficients)
  that a linear system receives;
- `equation`, `equations_set`, `maps`, `poisson`, `simple`, `enums`:
  building an equation (finding its unknown, gathering gradient
  requirements), sets of named equations, the equations of the Poisson and
  pressure-velocity cases, and the enumerations a solver's author writes;
- `topology`, `assembly`, `boundaries`: mesh connectivity queries and the
  assembly of a mesh core into node, cell and face neighbourhoods;
- `layout`, `conditions`, `vtk`, `output`: array sizes and matrix patterns,
  strong boundary rows, VTK integer arrays, and when outputs are written.

Real numbers never enter the library: where a value is carried through it
(coefficients, boundary values, times) it is the IEEE-754 bit pattern of an
`f64`, and `reals` compares such bits as `f64` `==` does.

`app/` holds the floating-point side (mesh geometry, gradient
reconstruction, discretisations, linear solves) and the file output, built
on the library's decisions. `tests/` exercises the library.
