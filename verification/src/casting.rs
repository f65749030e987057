pub mod constants;
pub mod math;
pub mod player;
pub mod ray;
pub mod types;
