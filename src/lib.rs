//! The request router and configuration layer of a kiosk-style overlay: requests
//! from the UI either read a file below the configured directory or run a command
//! that the configuration names, and keypresses map to command names.
pub mod keymap;
pub mod overlay;
pub mod router;
pub mod settings;
pub mod text;

pub use keymap::{Command, Input, Keymap, ModifierSet, Modifiers};
pub use overlay::{Melange, Route};
pub use router::{Response, RouteError};
pub use settings::{ConfigData, NamedCommand, Settings};
