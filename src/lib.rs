//! A message-driven state engine for a map-exploration client: place search,
//! viewport-scoped entry search, entry selection and a validated entry form.
//!
//! Coordinates are held as fixed-point integers in units of 1e-7 degrees.

pub mod geo;
pub mod form;
pub mod nominatim;
pub mod entry;
pub mod app_state;
pub mod request;
