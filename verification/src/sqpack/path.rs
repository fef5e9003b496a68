//! Virtual paths, and the configuration of the archive that resolves them.
//!
//! A virtual path reads `category/repository/...`. A path without a `/` has
//! fewer than two tokens and is invalid. Resolution lowercases the path and
//! takes its first two tokens. A repository that the archive does not know
//! is replaced by the default repository: most paths name none. The category
//! is taken as it stands; whether it is known shows when the index is looked
//! up.

use super::error::{ErrorView, SqPackError};
use crate::text::{
    chars_of, find_char, lemma_position_contains, lowercase_of, position_from, string_of_range,
    to_lowercase,
};
use vstd::hash_map::StringHashMap;
use vstd::prelude::*;
use vstd::string::StringExecFns;

verus! {

/// The configuration of an archive: the root directory of each repository,
/// the identifier of each category, and the repository that stands in where
/// a path names none that is known.
pub struct SqPack {
    pub repositories: StringHashMap<String>,
    pub categories: StringHashMap<u8>,
    pub default_repository: String,
}

/// A resolved virtual path.
#[derive(Debug, Clone, PartialEq, Eq)]
pub struct SqPackPath {
    /// The whole path, in lowercase.
    pub path: String,
    /// Its first token.
    pub category: String,
    /// Its second token, or the default repository.
    pub repository: String,
}

/// A resolved path as contracts see it.
pub struct PathView {
    pub path: Seq<char>,
    pub category: Seq<char>,
    pub repository: Seq<char>,
}

impl View for SqPackPath {
    type V = PathView;

    open spec fn view(&self) -> PathView {
        PathView { path: self.path@, category: self.category@, repository: self.repository@ }
    }
}

/// Whether a path has a category and a repository in front: whether it holds
/// a `/`.
pub open spec fn has_two_tokens(path: Seq<char>) -> bool {
    path.contains('/')
}

/// The first token of a path: what stands before its first `/`, or all of it
/// where it holds none.
pub open spec fn category_token(path: Seq<char>) -> Seq<char> {
    path.subrange(0, position_from(path, '/', 0))
}

/// The second token of a path: what stands between its first `/` and its
/// second, or its end; nothing where it holds no `/`.
pub open spec fn repository_token(path: Seq<char>) -> Seq<char> {
    let first = position_from(path, '/', 0);
    if first < path.len() {
        path.subrange(first + 1, position_from(path, '/', first + 1))
    } else {
        Seq::empty()
    }
}

impl SqPack {
    /// The root directory of a repository, if the archive knows it.
    pub open spec fn root_of(&self, name: Seq<char>) -> Option<Seq<char>> {
        if self.repositories@.contains_key(name) {
            Some(self.repositories@[name]@)
        } else {
            None
        }
    }

    /// The identifier of a category, if the archive knows it.
    pub open spec fn id_of(&self, name: Seq<char>) -> Option<u8> {
        if self.categories@.contains_key(name) {
            Some(self.categories@[name])
        } else {
            None
        }
    }

    /// The repository that a path with the given second token resolves to.
    pub open spec fn repository_for(&self, token: Seq<char>) -> Seq<char> {
        if self.root_of(token) is Some {
            token
        } else {
            self.default_repository@
        }
    }

    /// What a path resolves to once it has been lowercased to `lower`. Whether
    /// it has two tokens is asked of the path as it was given; the tokens are
    /// those of the lowercased path.
    pub open spec fn resolved(&self, raw: Seq<char>, lower: Seq<char>) -> Result<
        PathView,
        ErrorView,
    > {
        if has_two_tokens(raw) {
            Ok(
                PathView {
                    path: lower,
                    category: category_token(lower),
                    repository: self.repository_for(repository_token(lower)),
                },
            )
        } else {
            Err(ErrorView::InvalidPath(raw))
        }
    }

    /// An archive without repositories and categories.
    pub fn new(default_repository: String) -> (config: SqPack)
        ensures
            config.repositories@ == Map::<Seq<char>, String>::empty(),
            config.categories@ == Map::<Seq<char>, u8>::empty(),
            config.default_repository == default_repository,
    {
        SqPack {
            repositories: StringHashMap::new(),
            categories: StringHashMap::new(),
            default_repository,
        }
    }

    /// Makes a repository known, with its root directory. A root that was
    /// known for the name gives way.
    pub fn add_repository(&mut self, name: String, root: String)
        ensures
            final(self).repositories@ == old(self).repositories@.insert(name@, root),
            final(self).categories@ == old(self).categories@,
            final(self).default_repository == old(self).default_repository,
            final(self).root_of(name@) == Some(root@),
    {
        self.repositories.insert(name, root);
    }

    /// Makes a category known, with its identifier. An identifier that was
    /// known for the name gives way.
    pub fn add_category(&mut self, name: String, id: u8)
        ensures
            final(self).categories@ == old(self).categories@.insert(name@, id),
            final(self).repositories@ == old(self).repositories@,
            final(self).default_repository == old(self).default_repository,
            final(self).id_of(name@) == Some(id),
    {
        self.categories.insert(name, id);
    }

    /// Looks up the root directory of a repository.
    pub fn repository_root(&self, name: &String) -> (root: Option<&String>)
        ensures
            root is Some <==> self.root_of(name@) is Some,
            root matches Some(r) ==> Some(r@) == self.root_of(name@),
    {
        self.repositories.get(name.as_str())
    }

    /// Looks up the identifier of a category.
    pub fn category_id(&self, name: &String) -> (id: Option<u8>)
        ensures
            id == self.id_of(name@),
    {
        match self.categories.get(name.as_str()) {
            Some(id) => Some(*id),
            None => None,
        }
    }

    /// Resolves a path whose lowercase form is `lower`.
    ///
    /// A path that holds no `/` is an `InvalidPath`. Of every other path the
    /// first token of the lowercase form is the category. Its second token is
    /// the repository if the archive knows one of that name, and else gives
    /// way to the default repository.
    pub fn resolve_lowered(&self, sqpack_path: &str, lower: String) -> (r: Result<
        SqPackPath,
        SqPackError,
    >)
        ensures
            match self.resolved(sqpack_path@, lower@) {
                Ok(path) => r is Ok && r->Ok_0@ == path,
                Err(error) => r is Err && r->Err_0@ == error,
            },
    {
        let raw = chars_of(sqpack_path);
        let raw_first = find_char(&raw, '/', 0);
        proof {
            lemma_position_contains(raw@, '/');
        }
        if raw_first == raw.len() {
            return Err(SqPackError::InvalidPath(String::from_str(sqpack_path)));
        }
        let chars = chars_of(lower.as_str());
        let first = find_char(&chars, '/', 0);
        let category = string_of_range(&chars, 0, first);
        let token = if first < chars.len() {
            let second = find_char(&chars, '/', first + 1);
            string_of_range(&chars, first + 1, second)
        } else {
            String::new()
        };
        let repository = if self.repository_root(&token).is_some() {
            token
        } else {
            self.default_repository.clone()
        };
        Ok(SqPackPath { path: lower, category, repository })
    }

    /// Resolves a virtual path: lowercases it, takes its first two tokens as
    /// category and repository, and puts the default repository in the place
    /// of one that the archive does not know.
    ///
    /// A path fails to resolve just where it holds no `/` and so has fewer
    /// than two tokens; the error is then `InvalidPath` with the path as it
    /// was given. Every other path resolves, whatever its tokens are: the
    /// category is not looked at here, and a repository that is not known is
    /// no error.
    pub fn parse_path(&self, sqpack_path: &str) -> (r: Result<SqPackPath, SqPackError>)
        ensures
            r is Err <==> !has_two_tokens(sqpack_path@),
            r matches Err(error) ==> error@ == ErrorView::InvalidPath(sqpack_path@),
            r matches Ok(path) ==> {
                &&& path@.path == lowercase_of(sqpack_path@)
                &&& path@.category == category_token(path@.path)
                &&& path@.repository == self.repository_for(repository_token(path@.path))
            },
            r matches Ok(path) ==> self.root_of(repository_token(path@.path)) is None
                ==> path@.repository == self.default_repository@,
            r matches Ok(path) ==> self.root_of(repository_token(path@.path)) is Some
                ==> path@.repository == repository_token(path@.path),
    {
        let lower = to_lowercase(sqpack_path);
        self.resolve_lowered(sqpack_path, lower)
    }
}

} // verus!
