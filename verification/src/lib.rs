//! Raw image data in several pixel formats, with verified stride
//! arithmetic, bounds and channel policy.

mod arith;
pub mod color;
pub mod decode;
pub mod error;
pub mod format;
pub mod geometry;
pub mod image_data;
pub mod laws;
pub mod model;

pub use color::Color;
pub use error::ImageDataError;
pub use format::TextureFormat;
pub use geometry::{Rectangle, Vec2};
pub use image_data::ImageData;
pub use model::ImageModel;
