pub mod canvas;
pub mod color;
