//! Multi-tool version manager: version grammars, release selection, the
//! tag-store rules and the download/extract state machine.

pub mod text;
pub mod version;
pub mod go;
pub mod node;
pub mod liberica;
pub mod archive;
pub mod config;
pub mod tags;
pub mod pipeline;
pub mod platform;
pub mod tool;
pub mod hash;
pub mod cancel;
pub mod install;

pub use cancel::{is_cancelled, set_cancelled, CancelFlag, CancellableFuture};
pub use config::{Config, FileHash, Paths, UrlMirror, UrlMirrorEntry};
pub use pipeline::Status;
