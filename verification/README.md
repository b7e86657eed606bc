# feg_case_studies

Case studies of Gaussian fields on meshes, as a library that Verus verifies.

- `planar_holes_hodge_flow`: flows in a square with circular holes. Mesh topology and Betti
  numbers, shortest cycles around the holes, loop and path sensors, disjoint selections of
  observed edges, model plans, tuning, calibration, and the rows of the reports.
- `sparse_anchor_branch_functional_convergence`: variances of line and point functionals on
  refined cubes.
- `sphere_branch_observable_convergence`: variances of smooth and pointwise observables on refined
  spheres, with the spherical harmonics as integer polynomials.
- `sphere_branch_pushforward_convergence`: covariances of ambient components on refined spheres.

## Layout

- `src/` holds the verified library. Numbers that come from floating point work are carried as
  `Scalar`, which knows their order but no arithmetic.
- `tests/` runs the library.
- `app/` holds ordinary Rust around it: files, floating point work, figures and tables. The
  assembly, the priors and the factorizations are the business of the numerical crates of the
  project, which are not published. They enter through the traits in `app/numerics.rs`, which the
  program that starts a run implements.

## What is trusted

The calls into other crates stand behind wrappers whose contracts are believed without proof:
seeding and shuffling with `rand` in `src/random.rs`, the meshes of `simplicial` in
`src/sphere_surface.rs` and `src/cube_mesh.rs`, and the parsers of MSH files of `mshio` and
`simplicial` in `src/planar_holes_hodge_flow/mesh_file.rs`.

The mesh types and the mesh generators of the project are those of the `manifold` crate of the
formoniq workspace, which is not on crates.io under that name; `simplicial` is the crate in
which its authors publish them. It reads MSH files with `mshio` and panics on files that are no
mesh, so the library asks `mshio` itself first and hands on only what `simplicial` can read.
