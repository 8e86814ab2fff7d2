//! Core logic of a digital-television tuner-sharing and timeshift-recording
//! server: tuner-session admission and lifecycle, MPEG-TS fan-out with packet
//! alignment, ring-file timeshift recording, command and filter pipelines,
//! and the small parsers and encoders used at the HTTP boundary.

pub mod access;
pub mod broadcaster;
pub mod command;
pub mod decimal;
pub mod errors;
pub mod escape;
pub mod filter_pipeline;
pub mod filter_setting;
pub mod models;
pub mod script;
pub mod streaming;
pub mod strutil;
pub mod template;
pub mod timeshift;
pub mod timeshift_manager;
pub mod tuner;
pub mod tuner_manager;
