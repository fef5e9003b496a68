//! Rich text: plain text with payloads in it that are worked out when the
//! text is shown.

pub mod context;
pub mod expression;
pub mod model;
pub mod payload;
pub mod read;
pub mod sestring;
pub mod value;

pub use context::Context;
pub use expression::Expression;
pub use model::{Piece, Term};
pub use payload::{Identity, Kind, Thousands, TwoDigit};
pub use sestring::{SeString, Segment};
pub use value::{resolve_argument, ArgumentExt, FromArguments, Value, ValueView};
