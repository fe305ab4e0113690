//! Recognition of Japanese text in raster images.
//!
//! The library holds the three pieces that carry the logic, each with a
//! machine-checked contract: the byte-level preparation of an image for the
//! network (`preprocess`), the greedy decoding loop (`decoder`, `logits`)
//! and the change detection over clipboard contents (`clipboard`). Around
//! them stand the generation policy (`config`), the model bundle and the
//! path from an image to text (`model`), and the errors (`error`).
//!
//! The two networks and the tokenizer are not part of the library. A caller
//! hands them in as functions, and the contracts hold for whatever those
//! return.

pub mod clipboard;
pub mod config;
pub mod decoder;
pub mod error;
pub mod logits;
pub mod model;
pub mod preprocess;
