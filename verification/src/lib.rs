//! Core pipeline of a small image-publishing utility: pick the newest image
//! file from a scanned directory, derive the intermediate and output file
//! names for a resize-and-recompress run, apply the user's name and dimension
//! choices (with fixed defaults), and build the markdown link that points at
//! the published copy.
use vstd::prelude::*;

pub mod input;
pub mod link;
pub mod numeral;
pub mod paths;
pub mod pipeline;
pub mod select;

pub use link::display_image;
pub use link::generate_github_url;
pub use numeral::u32_to_string;
pub use select::ScanEntry;
pub use select::file_stem;
pub use select::is_image_file;
pub use select::select_newest;

verus! {

/// Width substituted when the user gives no usable width.
pub const DEFAULT_WIDTH: u32 = 640;

/// Height substituted when the user gives no usable height.
pub const DEFAULT_HEIGHT: u32 = 480;

} // verus!
