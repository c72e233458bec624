//! Verified core of the liquid glass renderer's tooling: the integer and text
//! logic around the GPU pipeline.
//!
//! - [`readback`]: row layout of texture readbacks, PNG encoding of frames,
//!   the checkerboard background.
//! - [`base64`]: base64 text of captured frames.
//! - [`frame`]: compute dispatch sizes and the sources of the scene lights.
//! - [`capture`]: capture kinds and the answers to capture requests.
//! - [`shaders`]: shader source paths, loaders' files, reloadable stages.
//! - [`compose`]: registering shared modules and composing shaders with
//!   naga_oil, and what a hot reload rebuilds.
//! - [`param_key`]: `table.field[i]` parameter keys.
//! - [`param_edit`]: how an update applies to the config document.
//! - [`config_file`]: `config.toml` as JSON, as a document, and its defaults.
//! - [`interaction`]: the press / release phase of the surface.
//! - [`cli`]: the `lg0` commands and the actions they ask for.
//! - [`mcp`]: requests of the debugging service.

pub mod base64;
pub mod capture;
pub mod cli;
pub mod compose;
pub mod config_file;
pub mod frame;
pub mod interaction;
pub mod mcp;
pub mod param_edit;
pub mod param_key;
pub mod readback;
pub mod shaders;
mod text;
