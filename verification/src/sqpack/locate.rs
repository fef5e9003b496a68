//! From a resolved path to the place of its file.
//!
//! Looking a path up takes two things from outside: the names of the files
//! under the repository's root, and the bytes of the one index file among
//! them. The lookup itself never reads anything. It says what it needs as an
//! `Action`; whoever runs it does that and answers with an `Event`.
//!
//! An index that has been read is kept, by repository and category, and the
//! next lookup in it needs nothing from outside.

use super::error::{ErrorView, SqPackError};
use super::index::{
    entries_of, entry_count, find, index_complete, key_of, truncated_index, IndexEntry, IndexTable,
    Location,
};
use super::path::{PathView, SqPack, SqPackPath};
use crate::text::push_char;
use vstd::prelude::*;
use vstd::string::StringExecFns;

verus! {

/// Whether a file name matches a pattern of the `glob` crate; `None` where
/// the pattern is not one.
pub uninterp spec fn glob_match(pattern: Seq<char>, name: Seq<char>) -> Option<bool>;

/// Holds a file name against a pattern.
///
/// Trusted: this is `glob::Pattern::new` followed by `Pattern::matches`, the
/// test that `glob::glob` makes on each name of a directory. All that is
/// claimed is that the answer depends on the pattern and the name alone.
#[verifier::external_body]
pub(crate) fn glob_matches(pattern: &str, name: &str) -> (r: Option<bool>)
    ensures
        r == glob_match(pattern@, name@),
{
    match glob::Pattern::new(pattern) {
        Ok(compiled) => Some(compiled.matches(name)),
        Err(_) => None,
    }
}

/// The hexadecimal digit for a number below 16, in lowercase.
pub open spec fn hex_digit(value: int) -> char {
    if value < 10 {
        (0x30 + value) as char
    } else {
        (0x61 + value - 10) as char
    }
}

/// The pattern that the names of a category's index files match: the
/// identifier in two hexadecimal digits, four characters of any kind for the
/// chunk, a platform, and the ending of an index file.
pub open spec fn pattern_of(category: u8) -> Seq<char> {
    seq![hex_digit(category as int / 16), hex_digit(category as int % 16)] + "????.*.index"@
}

/// The names among the first `count` that match the pattern, in their order.
pub open spec fn matching(names: Seq<Seq<char>>, pattern: Seq<char>, count: int) -> Seq<Seq<char>>
    decreases count,
{
    if count <= 0 {
        Seq::empty()
    } else if glob_match(pattern, names[count - 1]) == Some(true) {
        matching(names, pattern, count - 1).push(names[count - 1])
    } else {
        matching(names, pattern, count - 1)
    }
}

/// The index file to read, given the names that match: the one name where
/// there is just one.
pub open spec fn chosen(matches: Seq<Seq<char>>, pattern: Seq<char>) -> Result<
    Seq<char>,
    ErrorView,
> {
    if matches.len() == 0 {
        Err(ErrorView::IndexNotFound { pattern })
    } else if matches.len() == 1 {
        Ok(matches[0])
    } else {
        Err(ErrorView::AmbiguousIndex { pattern })
    }
}

/// What is reported of an event that does not answer what was asked.
pub open spec fn out_of_turn() -> Seq<char> {
    "event does not answer the request"@
}

/// Makes the hexadecimal digit for a number below 16.
pub fn hex_digit_of(value: u8) -> (digit: char)
    requires
        value < 16,
    ensures
        digit == hex_digit(value as int),
{
    if value < 10 {
        (0x30 + value) as char
    } else {
        (0x61 + value - 10) as char
    }
}

/// Makes the pattern for the names of a category's index files.
pub fn index_pattern(category: u8) -> (pattern: String)
    ensures
        pattern@ == pattern_of(category),
{
    let mut pattern = String::new();
    push_char(&mut pattern, hex_digit_of(category / 16));
    push_char(&mut pattern, hex_digit_of(category % 16));
    pattern.append("????.*.index");
    assert(pattern@ =~= pattern_of(category));
    pattern
}

/// Picks out the names that match a pattern, in their order.
pub fn matching_names(names: &Vec<String>, pattern: &str) -> (matches: Vec<String>)
    ensures
        matches.deep_view() == matching(names.deep_view(), pattern@, names.len() as int),
{
    let mut matches: Vec<String> = Vec::new();
    let mut i: usize = 0;
    while i < names.len()
        invariant
            i <= names.len(),
            matches.deep_view() == matching(names.deep_view(), pattern@, i as int),
        decreases names.len() - i,
    {
        assert(names.deep_view()[i as int] == names[i as int]@);
        if glob_matches(pattern, names[i].as_str()) == Some(true) {
            let ghost before = matches.deep_view();
            matches.push(names[i].clone());
            assert(matches.deep_view() =~= before.push(names[i as int]@));
        }
        i += 1;
    }
    matches
}

/// Chooses the index file among the names that match the pattern of a
/// category. No match is `IndexNotFound`; more than one is `AmbiguousIndex`:
/// how the chunks of a category go together is not settled, so nothing is
/// read.
pub fn choose_index(matches: &Vec<String>, pattern: &String) -> (r: Result<String, SqPackError>)
    ensures
        match chosen(matches.deep_view(), pattern@) {
            Ok(name) => r is Ok && r->Ok_0@ == name,
            Err(error) => r is Err && r->Err_0@ == error,
        },
{
    if matches.len() == 0 {
        Err(SqPackError::IndexNotFound { pattern: pattern.clone() })
    } else if matches.len() == 1 {
        assert(matches.deep_view()[0] == matches[0]@);
        Ok(matches[0].clone())
    } else {
        Err(SqPackError::AmbiguousIndex { pattern: pattern.clone() })
    }
}

/// One index that has been read.
#[derive(Debug, Clone, PartialEq, Eq)]
struct CachedIndex {
    repository: String,
    category: u8,
    table: IndexTable,
}

/// The indexes that have been read, by repository and category.
#[derive(Debug, Clone, PartialEq, Eq)]
pub struct IndexCache {
    slots: Vec<CachedIndex>,
}

/// What a cache holds, as contracts see it.
pub type CacheView = Map<(Seq<char>, u8), Seq<IndexEntry>>;

/// What the first `count` slots hold; of two for one key the later counts.
spec fn cached(slots: Seq<CachedIndex>, count: int) -> CacheView
    decreases count,
{
    if count <= 0 {
        Map::empty()
    } else {
        cached(slots, count - 1).insert(
            (slots[count - 1].repository@, slots[count - 1].category),
            slots[count - 1].table@,
        )
    }
}

impl View for IndexCache {
    type V = CacheView;

    closed spec fn view(&self) -> CacheView {
        cached(self.slots@, self.slots@.len() as int)
    }
}

impl IndexCache {
    /// A cache that holds nothing.
    pub fn new() -> (cache: IndexCache)
        ensures
            cache@ == Map::<(Seq<char>, u8), Seq<IndexEntry>>::empty(),
    {
        IndexCache { slots: Vec::new() }
    }

    /// The index of a repository and category, if it is held.
    pub fn get(&self, repository: &String, category: u8) -> (table: Option<&IndexTable>)
        ensures
            table is Some <==> self@.contains_key((repository@, category)),
            table matches Some(t) ==> t@ == self@[(repository@, category)],
    {
        let ghost key = (repository@, category);
        let mut i: usize = self.slots.len();
        while i > 0
            invariant
                i <= self.slots.len(),
                key == (repository@, category),
                self@.contains_key(key) == cached(self.slots@, i as int).contains_key(key),
                self@.contains_key(key) ==> self@[key] == cached(self.slots@, i as int)[key],
            decreases i,
        {
            i -= 1;
            if self.slots[i].category == category && self.slots[i].repository == *repository {
                return Some(&self.slots[i].table);
            }
        }
        None
    }

    /// Keeps an index under its repository and category, in the place of one
    /// that was held for them before.
    pub fn insert(&mut self, repository: String, category: u8, table: IndexTable)
        ensures
            final(self)@ == old(self)@.insert((repository@, category), table@),
    {
        self.slots.push(CachedIndex { repository, category, table });
        assert(self.slots@.drop_last() =~= old(self).slots@);
        assert(cached(self.slots@, self.slots@.len() - 1) == cached(
            old(self).slots@,
            old(self).slots@.len() as int,
        )) by {
            lemma_cached_prefix(self.slots@, old(self).slots@, old(self).slots@.len() as int);
        }
    }
}

/// What the first slots hold does not depend on the slots behind them.
proof fn lemma_cached_prefix(longer: Seq<CachedIndex>, shorter: Seq<CachedIndex>, count: int)
    requires
        0 <= count <= shorter.len() <= longer.len(),
        forall|i: int| 0 <= i < shorter.len() ==> longer[i] == shorter[i],
    ensures
        cached(longer, count) == cached(shorter, count),
    decreases count,
{
    if count > 0 {
        lemma_cached_prefix(longer, shorter, count - 1);
    }
}

/// A lookup between two steps.
#[derive(Debug, Clone, PartialEq, Eq)]
pub enum Lookup {
    /// It waits for the names of the files under `root`.
    Listing { path: SqPackPath, category: u8, root: String },
    /// It waits for the bytes of the index file.
    Reading { path: SqPackPath, category: u8 },
    /// It has given its answer.
    Done,
}

/// What happened outside since the last step.
#[derive(Debug, Clone, PartialEq, Eq)]
pub enum Event {
    /// The directory was listed: these are the names of its files.
    Names(Vec<String>),
    /// The file was read: these are its bytes.
    Bytes(Vec<u8>),
    /// Listing or reading failed.
    Failed(String),
}

/// What a lookup asks for, or its answer.
#[derive(Debug, Clone, PartialEq, Eq)]
pub enum Action {
    /// List the files of directory `root`; their names are held against
    /// `pattern`.
    List { root: String, pattern: String },
    /// Read the file `name` of directory `root`.
    Read { root: String, name: String },
    /// The file lies here.
    Found(Location),
    /// The lookup has failed.
    Fail(SqPackError),
}

/// A lookup as contracts see it.
pub enum LookupView {
    Listing { path: PathView, category: u8, root: Seq<char> },
    Reading { path: PathView, category: u8 },
    Done,
}

/// An event as contracts see it.
pub enum EventView {
    Names(Seq<Seq<char>>),
    Bytes(Seq<u8>),
    Failed(Seq<char>),
}

/// An action as contracts see it.
pub enum ActionView {
    List { root: Seq<char>, pattern: Seq<char> },
    Read { root: Seq<char>, name: Seq<char> },
    Found(Location),
    Fail(ErrorView),
}

impl View for Lookup {
    type V = LookupView;

    open spec fn view(&self) -> LookupView {
        match *self {
            Lookup::Listing { path, category, root } => LookupView::Listing {
                path: path@,
                category,
                root: root@,
            },
            Lookup::Reading { path, category } => LookupView::Reading { path: path@, category },
            Lookup::Done => LookupView::Done,
        }
    }
}

impl View for Event {
    type V = EventView;

    open spec fn view(&self) -> EventView {
        match *self {
            Event::Names(names) => EventView::Names(names.deep_view()),
            Event::Bytes(bytes) => EventView::Bytes(bytes@),
            Event::Failed(message) => EventView::Failed(message@),
        }
    }
}

impl View for Action {
    type V = ActionView;

    open spec fn view(&self) -> ActionView {
        match *self {
            Action::List { root, pattern } => ActionView::List { root: root@, pattern: pattern@ },
            Action::Read { root, name } => ActionView::Read { root: root@, name: name@ },
            Action::Found(location) => ActionView::Found(location),
            Action::Fail(error) => ActionView::Fail(error@),
        }
    }
}

/// The answer that an index gives for a path.
pub open spec fn answer(entries: Seq<IndexEntry>, path: Seq<char>) -> ActionView {
    match find(entries, key_of(path)) {
        Some(location) => ActionView::Found(location),
        None => ActionView::Fail(ErrorView::NotFoundInIndex { path }),
    }
}

/// The first step of a lookup.
///
/// A category without an identifier is an `UnknownCategory`, a repository
/// without a root an `UnknownRepository`, in that order. Where the index of
/// the two is held, it answers at once. Otherwise the lookup asks for the
/// names under the repository's root.
pub open spec fn begin(config: SqPack, path: PathView, cache: CacheView) -> (
    LookupView,
    ActionView,
) {
    match config.id_of(path.category) {
        None => (
            LookupView::Done,
            ActionView::Fail(
                ErrorView::UnknownCategory { path: path.path, category: path.category },
            ),
        ),
        Some(category) => match config.root_of(path.repository) {
            None => (
                LookupView::Done,
                ActionView::Fail(
                    ErrorView::UnknownRepository { path: path.path, repository: path.repository },
                ),
            ),
            Some(root) => if cache.contains_key((path.repository, category)) {
                (LookupView::Done, answer(cache[(path.repository, category)], path.path))
            } else {
                (
                    LookupView::Listing { path, category, root },
                    ActionView::List { root, pattern: pattern_of(category) },
                )
            },
        },
    }
}

/// A later step of a lookup: the state and the action that follow an event,
/// and what the cache holds then.
///
/// Names are held against the pattern of the category: one match is read, none
/// is `IndexNotFound`, more are `AmbiguousIndex`. Bytes are read as an index,
/// which is kept and gives the answer; an index that ends early is an
/// `IoFailure`. A failure outside is passed on as `IoFailure`. An event that
/// was not asked for ends the lookup with `IoFailure` too. Only an index that
/// was read changes the cache, and only by what was read.
pub open spec fn advance(state: LookupView, event: EventView, cache: CacheView) -> (
    LookupView,
    ActionView,
    CacheView,
) {
    match (state, event) {
        (_, EventView::Failed(message)) => (
            LookupView::Done,
            ActionView::Fail(ErrorView::IoFailure(message)),
            cache,
        ),
        (LookupView::Listing { path, category, root }, EventView::Names(names)) => {
            let pattern = pattern_of(category);
            match chosen(matching(names, pattern, names.len() as int), pattern) {
                Ok(name) => (
                    LookupView::Reading { path, category },
                    ActionView::Read { root, name },
                    cache,
                ),
                Err(error) => (LookupView::Done, ActionView::Fail(error), cache),
            }
        },
        (LookupView::Reading { path, category }, EventView::Bytes(bytes)) => {
            if index_complete(bytes) {
                let entries = entries_of(bytes, entry_count(bytes));
                (
                    LookupView::Done,
                    answer(entries, path.path),
                    cache.insert((path.repository, category), entries),
                )
            } else {
                (
                    LookupView::Done,
                    ActionView::Fail(ErrorView::IoFailure(truncated_index())),
                    cache,
                )
            }
        },
        _ => (LookupView::Done, ActionView::Fail(ErrorView::IoFailure(out_of_turn())), cache),
    }
}

/// Where more than one name matches the pattern of the category, the lookup
/// ends with `AmbiguousIndex`: it asks for no file to be read and leaves the
/// cache as it is.
pub proof fn lemma_ambiguous_index_reads_nothing(
    path: PathView,
    category: u8,
    root: Seq<char>,
    names: Seq<Seq<char>>,
    cache: CacheView,
)
    requires
        matching(names, pattern_of(category), names.len() as int).len() >= 2,
    ensures
        advance(LookupView::Listing { path, category, root }, EventView::Names(names), cache) == (
            LookupView::Done,
            ActionView::Fail(ErrorView::AmbiguousIndex { pattern: pattern_of(category) }),
            cache,
        ),
{
}

/// A step changes the cache only by keeping the index that it was handed,
/// under the repository and category of its path. Every other index that the
/// cache holds stays as it is, whatever the step answers; a lookup that does
/// not find its path in an index that was held changes nothing.
pub proof fn lemma_step_keeps_other_indexes(
    state: LookupView,
    event: EventView,
    cache: CacheView,
    repository: Seq<char>,
    category: u8,
)
    requires
        cache.contains_key((repository, category)),
        !(state matches LookupView::Reading { path, category: read } && path.repository
            == repository && read == category),
    ensures
        advance(state, event, cache).2.contains_key((repository, category)),
        advance(state, event, cache).2[(repository, category)] == cache[(repository, category)],
{
}

/// Gives the answer of an index for a path.
pub fn answer_from(table: &IndexTable, path: &String) -> (action: Action)
    ensures
        action@ == answer(table@, path@),
{
    match table.locate(path.as_str()) {
        Some(location) => Action::Found(location),
        None => Action::Fail(SqPackError::NotFoundInIndex { path: path.clone() }),
    }
}

impl SqPack {
    /// Starts the lookup of a resolved path.
    pub fn locate(&self, path: &SqPackPath, cache: &IndexCache) -> (r: (Lookup, Action))
        ensures
            (r.0@, r.1@) == begin(*self, path@, cache@),
    {
        let category = match self.category_id(&path.category) {
            None => {
                return (
                    Lookup::Done,
                    Action::Fail(
                        SqPackError::UnknownCategory {
                            path: path.path.clone(),
                            category: path.category.clone(),
                        },
                    ),
                );
            },
            Some(category) => category,
        };
        let root = match self.repository_root(&path.repository) {
            None => {
                return (
                    Lookup::Done,
                    Action::Fail(
                        SqPackError::UnknownRepository {
                            path: path.path.clone(),
                            repository: path.repository.clone(),
                        },
                    ),
                );
            },
            Some(root) => root.clone(),
        };
        match cache.get(&path.repository, category) {
            Some(table) => (Lookup::Done, answer_from(table, &path.path)),
            None => (
                Lookup::Listing {
                    path: SqPackPath {
                        path: path.path.clone(),
                        category: path.category.clone(),
                        repository: path.repository.clone(),
                    },
                    category,
                    root: root.clone(),
                },
                Action::List { root, pattern: index_pattern(category) },
            ),
        }
    }
}

impl Lookup {
    /// Takes the lookup one step further with what happened outside.
    pub fn advance(self, event: Event, cache: &mut IndexCache) -> (r: (Lookup, Action))
        ensures
            (r.0@, r.1@, final(cache)@) == advance(self@, event@, old(cache)@),
    {
        match (self, event) {
            (_, Event::Failed(message)) => (
                Lookup::Done,
                Action::Fail(SqPackError::IoFailure(message)),
            ),
            (Lookup::Listing { path, category, root }, Event::Names(names)) => {
                let pattern = index_pattern(category);
                let matches = matching_names(&names, pattern.as_str());
                match choose_index(&matches, &pattern) {
                    Ok(name) => (Lookup::Reading { path, category }, Action::Read { root, name }),
                    Err(error) => (Lookup::Done, Action::Fail(error)),
                }
            },
            (Lookup::Reading { path, category }, Event::Bytes(bytes)) => {
                match IndexTable::parse(bytes.as_slice()) {
                    Ok(table) => {
                        let action = answer_from(&table, &path.path);
                        cache.insert(path.repository, category, table);
                        (Lookup::Done, action)
                    },
                    Err(error) => (Lookup::Done, Action::Fail(error)),
                }
            },
            _ => (
                Lookup::Done,
                Action::Fail(
                    SqPackError::IoFailure(String::from_str("event does not answer the request")),
                ),
            ),
        }
    }
}

} // verus!
