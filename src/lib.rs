//! Rips a tiled image whose grid extent is not advertised: the extent is found
//! by probing each axis, then the tiles are fetched and composited.
//!
//! This crate holds the logic; the network and the command line live in the
//! program around it.

pub mod address;
pub mod assembler;
pub mod assembly_run;
pub mod canvas;
pub mod input;
pub mod options;
pub mod page;
pub mod probe;
pub mod probe_run;

pub use address::{StringMutTail, column_template, row_template, tile_address, zoom_template};
pub use assembler::{Assembler, Bitmap, Tile};
pub use canvas::RipError;
pub use input::{Input, item_page_url};
pub use options::{OutputFormat, cli_validate_zoom, parse_format};
pub use page::{Page, PageError};
pub use probe::{AxisProbe, LimitResult, ProbeOutcome, classify};
