pub mod error;
pub mod event;
pub mod group;
pub mod guard;
pub mod layer;
pub mod metric;
pub mod model;
pub mod registry;
pub mod span;
