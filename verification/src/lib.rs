//! Verified core of a standard component library for terminal user
//! interfaces: the state machine of a scrollable table, the column layout
//! of a table, the wrapping of styled text into lines and the style rules
//! shared by the components.

pub mod components;
pub mod props;
pub mod utils;
