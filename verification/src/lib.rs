pub mod cast;
pub mod equality;
pub mod eval;
pub mod ops;
pub mod render;
pub mod stdlib;
pub mod typing;
pub mod value;
