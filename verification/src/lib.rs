pub mod complex;
pub mod config;
pub mod exp;
pub mod exp2;
pub mod explorer;
pub mod high_precision;
pub mod producer;
pub mod renderer;
pub mod types;
