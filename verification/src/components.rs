pub mod connection;
pub mod gate;
pub mod line_path;
pub mod node;
