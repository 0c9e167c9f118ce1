pub mod batch;
pub mod camera;
pub mod dataset;
pub mod error;
pub mod images;
pub mod network;
pub mod split;
