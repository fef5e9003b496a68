//! Read-only access to block-compressed game data archives, and readers for
//! some of what they hold.
//!
//! A file is addressed by a virtual path (`category/repository/...`). The path
//! is resolved against the archive's configuration, looked up in the index of
//! its category, and read through a seekable stream that decodes one block of
//! the container at a time. All of that is in [`sqpack`].
//!
//! Nothing here touches a file. Where bytes are needed, a function says which,
//! and is called again with them: looking up and opening are state machines,
//! and a stream asks for the block it needs.
//!
//! On top of the archive stand [`excel`], the list of the sheets of the
//! database; [`mdl`], the container of a model file; [`sestring`], rich text
//! and the payloads that format numbers; [`schema`], the choice of a schema
//! for a version of the game; and [`search`], the values of search queries.

pub mod error;
pub mod excel;
pub mod mdl;
pub mod schema;
pub mod search;
pub mod sestring;
pub mod sqpack;
pub mod text;
