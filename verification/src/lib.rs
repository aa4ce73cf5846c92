use vstd::prelude::*;

pub mod text;
pub mod float_bits;
pub mod color;
pub mod error;
pub mod limits;
pub mod request;
pub mod result;
pub mod cache;
pub mod cache_key;
pub mod json;
pub mod json_schema;
pub mod daemon_protocol;
pub mod daemon_render;
pub mod cli_error;
pub mod cli_args;
pub mod client_config;
pub mod client_protocol;
pub mod health;
pub mod supervisor;
pub mod client;
pub mod svg_policy;
pub mod svg_values;
pub mod svg_style;
pub mod svg_sanitizer;
pub mod svg_laws;
pub mod svg_document;
pub mod raster;
pub mod line_reader;
pub mod report;
pub mod segment;
pub mod segmenter_model;
pub mod segmenter;
pub mod segmenter_laws;
pub mod segmenter_streaming;
pub mod segmenter_shape;
pub mod segmenter_dollars;
