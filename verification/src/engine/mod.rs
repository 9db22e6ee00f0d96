pub mod black_box;
pub mod circuit;
pub mod gate;
pub mod operator;
pub mod register_error;
