//! A vehicle that follows a road network: the road graph, the cursors that
//! walk it, and the loader that builds it from a map document.
pub mod document;
pub mod fraction;
pub mod loader;
pub mod map;
pub mod navigator;
pub mod road;
pub mod text;
pub mod vehicle;

pub use document::DocValue;
pub use fraction::{FractionNotationError, fraction_notation_to_angle};
pub use loader::{RoadMapDeserializationError, road_map_from_document};
pub use map::{RoadIndex, RoadMap, RoadMapError, RoadNode};
pub use navigator::{Navigator, NavigatorCreationError};
pub use road::{Road, RoadTurnDirection};
pub use vehicle::{Physics, Thinker};
