pub mod ccode;
pub mod clock;
pub mod codex;
pub mod json;
pub mod model;
pub mod render;
pub mod sessions;
pub mod text;
