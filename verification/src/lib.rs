//! A keyboard-layout interpreter: it reads a locale's layout-definition
//! document (handed over as plain data), builds the per-level character
//! tables and modifier bindings for one layout, applies a corrective pass
//! for the source format's per-layout conventions, and then resolves scan
//! codes plus modifier state to characters.
//!
//! Construction is fallible and happens once per (locale, layout); after it,
//! every runtime operation is total. The contracts state, over sequence and
//! map models of the tables, what construction builds and what each query
//! returns.

pub mod casing;
pub mod compose;
pub mod doc;
pub mod interp;
pub mod keymap;
pub mod modifiers;
pub mod quirks;
pub mod wkb;

pub use compose::ComposeStatus;
pub use compose::FeedResult;
pub use modifiers::KeyDirection;
pub use wkb::WKB;
