//! Resolves a media link on one streaming platform to equivalent links on
//! other platforms, using an external link-resolution service, and converts
//! the resolved data into typed conversion results.


pub mod apple_music;
pub mod config;
pub mod converter;
pub mod error;
pub mod normalize;
pub mod odesli;
pub mod present;
pub mod result;
pub mod shorten;
pub mod spotify;
pub mod strmap;
pub mod text;
pub mod url_convert;
pub mod validate;
