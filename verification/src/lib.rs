//! Image thumbnail support: RAW preview extraction, date recovery from file
//! names, output-format bookkeeping and the decision logic of the thumbnail
//! cache pipeline.

pub mod cache;
pub mod exif;
pub mod metadata;
pub mod raw_preview;
pub mod resize;
pub mod text;
pub mod thumbnail;
pub mod vips;

pub use cache::{ThumbError, ThumbOrigin, ThumbnailService};
pub use metadata::{extract_date_from_filename, get_image_dimensions_from_bytes};
pub use vips::OutputFormat;
