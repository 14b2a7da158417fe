pub mod app;
pub mod entropy;
pub mod labels;
