pub mod text;
pub mod facade;
pub mod render;
pub mod session;
