//! A typed model of Quil programs: expressions and parameters, instructions,
//! calibration definitions, and whole programs with their derived views.

pub mod double;
pub mod expression;
pub mod instruction;
pub mod ordered_map;
pub mod program;
pub mod quil;
pub mod seq_view;
