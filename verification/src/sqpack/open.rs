//! From a resolved path to a stream over its file.
//!
//! Opening a file looks the path up, finds the container that the index
//! names, and reads the header and the block table of the file. As with the
//! lookup, nothing is read here: each step says what it needs, and takes what
//! was found.

use super::container::{
    descriptors, extents_of, parsed_header, read, truncated_table, Header,
};
use super::error::{ErrorView, SqPackError};
use super::index::Location;
use super::locate::{
    advance, begin, hex_digit, hex_digit_of, matching, matching_names, out_of_turn, Action,
    ActionView, CacheView, Event, EventView, IndexCache, Lookup, LookupView,
};
use super::path::{PathView, SqPack, SqPackPath};
use super::stream::{FileStream, StreamView};
use crate::text::{decimal, push_char, push_decimal};
use vstd::prelude::*;
use vstd::string::StringExecFns;

verus! {

/// An opening between two steps.
#[derive(Debug, Clone, PartialEq, Eq)]
pub enum Opening {
    /// The path is being looked up; the container will be sought under
    /// `root`.
    Locating { lookup: Lookup, root: String, category: u8 },
    /// It waits for the names of the files under `root`, to find the
    /// container.
    Listing { root: String, category: u8, location: Location },
    /// It waits for the header of the file, from the container `name`.
    Header { root: String, name: String, location: Location },
    /// It waits for the block table of the file.
    Table { root: String, name: String, location: Location, header: Header },
    /// It has given its answer.
    Done,
}

/// What an opening asks for, or its answer.
#[derive(Debug, PartialEq, Eq)]
pub enum OpenAction {
    /// List the files of directory `root`.
    List { root: String, pattern: String },
    /// Read the file `name` of directory `root`.
    Read { root: String, name: String },
    /// Read `length` bytes at `offset` of the file `name` of directory
    /// `root`; fewer where the file ends before.
    ReadRange { root: String, name: String, offset: u64, length: u64 },
    /// The file is open: the stream reads it from the container `name` of
    /// directory `root`.
    Opened { root: String, name: String, stream: FileStream },
    /// The opening has failed.
    Fail(SqPackError),
}

/// An opening as contracts see it.
pub enum OpeningView {
    Locating { lookup: LookupView, root: Seq<char>, category: u8 },
    Listing { root: Seq<char>, category: u8, location: Location },
    Header { root: Seq<char>, name: Seq<char>, location: Location },
    Table { root: Seq<char>, name: Seq<char>, location: Location, header: Header },
    Done,
}

/// What an opening asks for, as contracts see it.
pub enum OpenActionView {
    List { root: Seq<char>, pattern: Seq<char> },
    Read { root: Seq<char>, name: Seq<char> },
    ReadRange { root: Seq<char>, name: Seq<char>, offset: u64, length: u64 },
    Opened { root: Seq<char>, name: Seq<char>, stream: StreamView },
    Fail(ErrorView),
}

impl View for Opening {
    type V = OpeningView;

    open spec fn view(&self) -> OpeningView {
        match *self {
            Opening::Locating { lookup, root, category } => OpeningView::Locating {
                lookup: lookup@,
                root: root@,
                category,
            },
            Opening::Listing { root, category, location } => OpeningView::Listing {
                root: root@,
                category,
                location,
            },
            Opening::Header { root, name, location } => OpeningView::Header {
                root: root@,
                name: name@,
                location,
            },
            Opening::Table { root, name, location, header } => OpeningView::Table {
                root: root@,
                name: name@,
                location,
                header,
            },
            Opening::Done => OpeningView::Done,
        }
    }
}

impl View for OpenAction {
    type V = OpenActionView;

    open spec fn view(&self) -> OpenActionView {
        match *self {
            OpenAction::List { root, pattern } => OpenActionView::List {
                root: root@,
                pattern: pattern@,
            },
            OpenAction::Read { root, name } => OpenActionView::Read { root: root@, name: name@ },
            OpenAction::ReadRange { root, name, offset, length } => OpenActionView::ReadRange {
                root: root@,
                name: name@,
                offset,
                length,
            },
            OpenAction::Opened { root, name, stream } => OpenActionView::Opened {
                root: root@,
                name: name@,
                stream: stream@,
            },
            OpenAction::Fail(error) => OpenActionView::Fail(error@),
        }
    }
}

/// The pattern that the name of a container matches: the identifier of the
/// category in two hexadecimal digits, four characters of any kind for the
/// chunk, a platform, and `dat` with the number of the container.
pub open spec fn container_pattern_of(category: u8, container_id: u32) -> Seq<char> {
    seq![hex_digit(category as int / 16), hex_digit(category as int % 16)] + "????.*.dat"@
        + decimal(container_id as nat)
}

/// What is reported where no file is the container.
pub open spec fn container_missing(pattern: Seq<char>) -> Seq<char> {
    "no container file matches \""@ + pattern + "\""@
}

/// What is reported where more than one file can be the container.
pub open spec fn container_ambiguous(pattern: Seq<char>) -> Seq<char> {
    "more than one container file matches \""@ + pattern + "\""@
}

/// The container to read, given the names that match: the one name where
/// there is just one.
pub open spec fn chosen_container(matches: Seq<Seq<char>>, pattern: Seq<char>) -> Result<
    Seq<char>,
    ErrorView,
> {
    if matches.len() == 0 {
        Err(ErrorView::IoFailure(container_missing(pattern)))
    } else if matches.len() == 1 {
        Ok(matches[0])
    } else {
        Err(ErrorView::IoFailure(container_ambiguous(pattern)))
    }
}

/// What an opening does with the action of its lookup: it passes on what the
/// lookup asks for and its failure, and goes on to the container once the
/// file is found.
pub open spec fn after_lookup(lookup: LookupView, action: ActionView, root: Seq<char>, category: u8) -> (
    OpeningView,
    OpenActionView,
) {
    match action {
        ActionView::List { root: listed, pattern } => (
            OpeningView::Locating { lookup, root, category },
            OpenActionView::List { root: listed, pattern },
        ),
        ActionView::Read { root: read, name } => (
            OpeningView::Locating { lookup, root, category },
            OpenActionView::Read { root: read, name },
        ),
        ActionView::Found(location) => (
            OpeningView::Listing { root, category, location },
            OpenActionView::List {
                root,
                pattern: container_pattern_of(category, location.container_id),
            },
        ),
        ActionView::Fail(error) => (OpeningView::Done, OpenActionView::Fail(error)),
    }
}

/// The first step of an opening. A category without an identifier is an
/// `UnknownCategory`, a repository without a root an `UnknownRepository`, in
/// that order. Otherwise the lookup begins, and the opening follows its
/// action.
pub open spec fn begin_opening(config: SqPack, path: PathView, cache: CacheView) -> (
    OpeningView,
    OpenActionView,
) {
    match config.id_of(path.category) {
        None => (
            OpeningView::Done,
            OpenActionView::Fail(
                ErrorView::UnknownCategory { path: path.path, category: path.category },
            ),
        ),
        Some(category) => match config.root_of(path.repository) {
            None => (
                OpeningView::Done,
                OpenActionView::Fail(
                    ErrorView::UnknownRepository { path: path.path, repository: path.repository },
                ),
            ),
            Some(root) => after_lookup(
                begin(config, path, cache).0,
                begin(config, path, cache).1,
                root,
                category,
            ),
        },
    }
}

/// A later step of an opening: the state and the action that follow an
/// event, and what the cache holds then.
///
/// While the path is looked up, the lookup takes the event. The names under
/// the root are then held against the pattern of the container: one match
/// is read, none or more are an `IoFailure`. Of the container the eight bytes
/// of the header are read at the offset of the file, and behind them eight
/// bytes for each block that the header counts. A header or a table that
/// ends early, and a header of no known block format, are an `IoFailure`. With the table the stream is made: at the
/// first byte of the file, holding no block. A failure outside, and an event
/// that was not asked for, end the opening with `IoFailure`.
pub open spec fn advance_opening(state: OpeningView, event: EventView, cache: CacheView) -> (
    OpeningView,
    OpenActionView,
    CacheView,
) {
    match (state, event) {
        (OpeningView::Locating { lookup, root, category }, _) => {
            let step = advance(lookup, event, cache);
            let next = after_lookup(step.0, step.1, root, category);
            (next.0, next.1, step.2)
        },
        (_, EventView::Failed(message)) => (
            OpeningView::Done,
            OpenActionView::Fail(ErrorView::IoFailure(message)),
            cache,
        ),
        (OpeningView::Listing { root, category, location }, EventView::Names(names)) => {
            let pattern = container_pattern_of(category, location.container_id);
            match chosen_container(matching(names, pattern, names.len() as int), pattern) {
                Ok(name) => (
                    OpeningView::Header { root, name, location },
                    OpenActionView::ReadRange {
                        root,
                        name,
                        offset: location.offset as u64,
                        length: 8,
                    },
                    cache,
                ),
                Err(error) => (OpeningView::Done, OpenActionView::Fail(error), cache),
            }
        },
        (OpeningView::Header { root, name, location }, EventView::Bytes(bytes)) => {
            match parsed_header(bytes) {
                Ok(header) => (
                    OpeningView::Table { root, name, location, header },
                    OpenActionView::ReadRange {
                        root,
                        name,
                        offset: (location.offset + 8) as u64,
                        length: (8 * header.block_count) as u64,
                    },
                    cache,
                ),
                Err(error) => (OpeningView::Done, OpenActionView::Fail(error), cache),
            }
        },
        (OpeningView::Table { root, name, location, header }, EventView::Bytes(bytes)) => {
            if 8 * header.block_count <= bytes.len() {
                (
                    OpeningView::Done,
                    OpenActionView::Opened {
                        root,
                        name,
                        stream: StreamView::fresh(
                            location.offset,
                            header.codec,
                            extents_of(descriptors(bytes, header.block_count as int)),
                        ),
                    },
                    cache,
                )
            } else {
                (
                    OpeningView::Done,
                    OpenActionView::Fail(ErrorView::IoFailure(truncated_table())),
                    cache,
                )
            }
        },
        _ => (
            OpeningView::Done,
            OpenActionView::Fail(ErrorView::IoFailure(out_of_turn())),
            cache,
        ),
    }
}

/// Makes the pattern for the name of a container.
pub fn container_pattern(category: u8, container_id: u32) -> (pattern: String)
    ensures
        pattern@ == container_pattern_of(category, container_id),
{
    let mut pattern = String::new();
    push_char(&mut pattern, hex_digit_of(category / 16));
    push_char(&mut pattern, hex_digit_of(category % 16));
    pattern.append("????.*.dat");
    push_decimal(&mut pattern, container_id as u64);
    assert(pattern@ =~= container_pattern_of(category, container_id));
    pattern
}

/// Chooses the container among the names that match its pattern. None, and
/// more than one, are an `IoFailure`.
pub fn choose_container(matches: &Vec<String>, pattern: &String) -> (r: Result<
    String,
    SqPackError,
>)
    ensures
        match chosen_container(matches.deep_view(), pattern@) {
            Ok(name) => r is Ok && r->Ok_0@ == name,
            Err(error) => r is Err && r->Err_0@ == error,
        },
{
    if matches.len() == 1 {
        assert(matches.deep_view()[0] == matches[0]@);
        return Ok(matches[0].clone());
    }
    let mut message = if matches.len() == 0 {
        String::from_str("no container file matches \"")
    } else {
        String::from_str("more than one container file matches \"")
    };
    message.append(pattern.as_str());
    message.append("\"");
    Err(SqPackError::IoFailure(message))
}

/// Lets an opening go on from the action of its lookup.
pub fn continue_opening(lookup: Lookup, action: Action, root: String, category: u8) -> (r: (
    Opening,
    OpenAction,
))
    ensures
        (r.0@, r.1@) == after_lookup(lookup@, action@, root@, category),
{
    match action {
        Action::List { root: listed, pattern } => (
            Opening::Locating { lookup, root, category },
            OpenAction::List { root: listed, pattern },
        ),
        Action::Read { root: read, name } => (
            Opening::Locating { lookup, root, category },
            OpenAction::Read { root: read, name },
        ),
        Action::Found(location) => {
            let pattern = container_pattern(category, location.container_id);
            (
                Opening::Listing { root: root.clone(), category, location },
                OpenAction::List { root, pattern },
            )
        },
        Action::Fail(error) => (Opening::Done, OpenAction::Fail(error)),
    }
}

impl SqPack {
    /// Starts the opening of a resolved path.
    pub fn open(&self, path: &SqPackPath, cache: &IndexCache) -> (r: (Opening, OpenAction))
        ensures
            (r.0@, r.1@) == begin_opening(*self, path@, cache@),
    {
        let category = match self.category_id(&path.category) {
            None => {
                return (
                    Opening::Done,
                    OpenAction::Fail(
                        SqPackError::UnknownCategory {
                            path: path.path.clone(),
                            category: path.category.clone(),
                        },
                    ),
                );
            },
            Some(category) => category,
        };
        let root = match self.repository_root(&path.repository) {
            None => {
                return (
                    Opening::Done,
                    OpenAction::Fail(
                        SqPackError::UnknownRepository {
                            path: path.path.clone(),
                            repository: path.repository.clone(),
                        },
                    ),
                );
            },
            Some(root) => root.clone(),
        };
        let (lookup, action) = self.locate(path, cache);
        continue_opening(lookup, action, root, category)
    }
}

impl Opening {
    /// Takes the opening one step further with what happened outside.
    pub fn advance(self, event: Event, cache: &mut IndexCache) -> (r: (Opening, OpenAction))
        ensures
            (r.0@, r.1@, final(cache)@) == advance_opening(self@, event@, old(cache)@),
    {
        match (self, event) {
            (Opening::Locating { lookup, root, category }, event) => {
                let (lookup, action) = lookup.advance(event, cache);
                continue_opening(lookup, action, root, category)
            },
            (_, Event::Failed(message)) => (
                Opening::Done,
                OpenAction::Fail(SqPackError::IoFailure(message)),
            ),
            (Opening::Listing { root, category, location }, Event::Names(names)) => {
                let pattern = container_pattern(category, location.container_id);
                let matches = matching_names(&names, pattern.as_str());
                match choose_container(&matches, &pattern) {
                    Ok(name) => (
                        Opening::Header { root: root.clone(), name: name.clone(), location },
                        OpenAction::ReadRange {
                            root,
                            name,
                            offset: location.offset as u64,
                            length: 8,
                        },
                    ),
                    Err(error) => (Opening::Done, OpenAction::Fail(error)),
                }
            },
            (Opening::Header { root, name, location }, Event::Bytes(bytes)) => {
                match Header::parse(bytes.as_slice()) {
                    Ok(header) => (
                        Opening::Table {
                            root: root.clone(),
                            name: name.clone(),
                            location,
                            header,
                        },
                        OpenAction::ReadRange {
                            root,
                            name,
                            offset: location.offset as u64 + 8,
                            length: 8 * (header.block_count as u64),
                        },
                    ),
                    Err(error) => (Opening::Done, OpenAction::Fail(error)),
                }
            },
            (Opening::Table { root, name, location, header }, Event::Bytes(bytes)) => {
                match read(bytes.as_slice(), location.offset, header) {
                    Ok(stream) => (Opening::Done, OpenAction::Opened { root, name, stream }),
                    Err(error) => (Opening::Done, OpenAction::Fail(error)),
                }
            },
            _ => (
                Opening::Done,
                OpenAction::Fail(
                    SqPackError::IoFailure(String::from_str("event does not answer the request")),
                ),
            ),
        }
    }
}

} // verus!
