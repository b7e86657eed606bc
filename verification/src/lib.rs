//! Verified logic of the finite element Gaussian field case studies.

pub mod cube_mesh;
pub mod grouping;
pub mod hodge;
pub mod index_set;
pub mod order;
pub mod order_laws;
pub mod planar_holes_hodge_flow;
pub mod random;
pub mod reconstruction;
pub mod scalar;
pub mod sparse_anchor_branch_functional_convergence;
pub mod sphere_branch_observable_convergence;
pub mod sphere_branch_pushforward_convergence;
pub mod sphere_surface;
pub mod table;
pub mod text;
