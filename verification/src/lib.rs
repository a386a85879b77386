//! High-quality JPEG, PNG, and WebP to WebP conversion: the verified core.
#![allow(unused_imports)]

pub mod cli;
pub mod cms;
pub mod config;
pub mod decode;
pub mod encode;
pub mod error;
pub mod input;
pub mod metadata;
pub mod pipeline;
pub mod resize;
pub mod simpleyuv;

pub use config::{ConversionOptions, Mode, ResizeFilter, ResizeOptions};
pub use error::Error;
pub use metadata::MetadataPolicy;
