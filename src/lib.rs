//! A markup tree and its two textual forms: a compact structural dump for
//! diagnostics and canonical, indented markup.
use vstd::prelude::*;

pub mod attrs;
pub mod children;
pub mod dump;
pub mod laws;
pub mod node;
pub mod render;
pub mod text;

pub use attrs::IntoAttrs;
pub use children::{IntoChildren, Producer};
pub use dump::debug;
pub use node::{Element, Node};
pub use render::{display, etype, Type};
pub use text::escape;

verus! {

} // verus!
