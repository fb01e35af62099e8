//! Verified core of a local media streaming backend.
//!
//! The surrounding application binds a loopback HTTP server and does the file
//! and network I/O; everything the server decides is computed here, under
//! contract:
//!
//! - [`store`]: the single slot holding the currently selected video path.
//! - [`response`]: resolving the path a request is served from, planning the
//!   response (404, whole file, byte window, or range error), and rendering
//!   its headers.
//! - [`range`]: reading `Range: bytes=<start>-[<end>]` headers, selecting the
//!   byte window they ask for, and the proof that consecutive windows
//!   reassemble the file.
//! - [`mime`]: the content type a path's extension announces.
//! - [`url`]: the `http://localhost:1421/video?path=...` URL handed to the
//!   front end, and the proof that it carries the path losslessly.
//! - [`numbers`]: decimal rendering and parsing for header values.
//! - [`text`]: character scanning shared by the parsers.
//! - [`explorer`]: the directory-entry record shown by the file browser.

pub mod explorer;
pub mod mime;
pub mod numbers;
pub mod range;
pub mod response;
pub mod store;
pub mod text;
pub mod url;
