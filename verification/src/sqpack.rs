//! The archive format: paths, indexes, block tables and file streams.

pub mod container;
pub mod content;
pub mod error;
pub mod extent;
pub mod index;
pub mod locate;
pub mod open;
pub mod path;
pub mod stream;

pub use container::{read, BlockInfo, Codec, Header};
pub use error::{ErrorView, SqPackError};
pub use extent::BlockExtent;
pub use index::{IndexEntry, IndexTable, Location};
pub use locate::{Action, Event, IndexCache, Lookup};
pub use open::{OpenAction, Opening};
pub use path::{PathView, SqPack, SqPackPath};
pub use stream::{
    decode_stored, BlockCache, BlockRequest, FileStream, HeldBlock, ReadStep, SeekFrom, StreamView,
};
