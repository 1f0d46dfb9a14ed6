//! Reading, rendering and stitching of Minecraft map item records.
//!
//! The crate models one decoded `map_<n>.dat` record, derives its
//! world-space geometry, expands the base color table into a full
//! 256-entry palette, renders a record into a 128x128 raster, and overlays
//! many records into a single image positioned by world coordinates.
//!
//! File discovery, decompression, the tag-tree codec and image encoding are
//! collaborators outside this crate; they hand a tag tree in and take a
//! raster out.

pub mod error;
pub mod locator;
pub mod model;
pub mod nbt;
pub mod palette;
pub mod raster;
pub mod stitch;
pub mod strutil;
pub mod versions;

pub use error::Error;
pub use error::ErrorKind;
pub use locator::ReadMap;
pub use locator::SortingOrder;
pub use model::Banner;
pub use model::BannerColor;
pub use model::MapData;
pub use model::MapItem;
pub use model::Marker;
pub use model::Pos;
