pub mod io;
pub mod value;
