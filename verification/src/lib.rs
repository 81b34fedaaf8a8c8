//! Turns a Wi-Fi network's credentials into the standard Wi-Fi join-code
//! text and exports it as a console render, a raster or vector image, or a
//! typeset certificate document.
//!
//! The library holds the logic: parsing the platform tools' output into
//! network records, classifying security vocabulary, building the payload,
//! rasterizing the QR matrix, computing output names, and driving the
//! typesetting workspace as a state machine. Process invocation and file
//! I/O live outside, in the application layer, which hands plain values in
//! and carries plain values out.

pub mod classify;
pub mod export;
pub mod model;
pub mod netparse;
pub mod payload;
pub mod render;
pub mod strutil;
pub mod typeset;
pub mod update;

pub use model::Args;
pub use model::WifiNetwork;
pub use payload::generate_qr_code_data;
