//! Host-side logic of a set of WebAssembly image microservices: the byte-level
//! calling convention used to pass parameters into a guest module and to read its
//! results back, image processing through the `image` crate, classification
//! post-processing, and the request routing of the HTTP services.

pub mod bytes;
pub mod word;
pub mod param;
pub mod text;
pub mod ret;
pub mod round_trip;
pub mod call;
pub mod split;
pub mod decimal;
pub mod codec;
pub mod imaging;
pub mod classify;
pub mod service;
pub mod guest;
pub mod host;
