//! A square with circular holes: mesh topology, sensors, models and study plans.

pub mod comparison;
pub mod components;
pub mod config;
pub mod config_laws;
pub mod cycles;
pub mod design_laws;
pub mod designs;
pub mod edge_plans;
pub mod fields;
pub mod figure;
pub mod grid;
pub mod grid_laws;
pub mod hole_cycles;
pub mod hole_laws;
pub mod holes;
pub mod kinds;
pub mod mesh;
pub mod mesh_file;
pub mod mesh_laws;
pub mod model_laws;
pub mod models;
pub mod observation;
pub mod observation_laws;
pub mod observation_plans;
pub mod path_laws;
pub mod report_laws;
pub mod reports;
pub mod rows;
pub mod scenario;
pub mod selection;
pub mod selection_laws;
pub mod sensor_laws;
pub mod sensor_plans;
pub mod sensors;
pub mod shortest_path;
pub mod spectral_plans;
pub mod studies;
pub mod study_laws;
pub mod summaries;
pub mod sweep;
pub mod tables;
pub mod topology;
