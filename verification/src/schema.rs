//! Which schema goes with which version of the game.
//!
//! Schemas are kept by the version of the game they were written for. A
//! version of the game is read with the latest schema that is not later than
//! it. Versions are ordered as texts, character by character.

use crate::error::{Error, ErrorValue, ErrorValueView, Failure};
use crate::text::chars_of;
use vstd::prelude::*;
use vstd::string::StringExecFns;

verus! {

/// A schema: the commit that holds it and the version of the game that it
/// was written for.
#[derive(Debug, Clone, PartialEq, Eq)]
pub struct Specifier {
    /// The identifier of the commit, as bytes.
    pub commit: Vec<u8>,
    /// The version of the game.
    pub game_version: String,
}

/// Whether `a` from index `from` on comes before `b` from that index on, or
/// equals it, in the order of texts: the first character that differs
/// decides, and a text comes before every text that it starts.
pub open spec fn at_most_from(a: Seq<char>, b: Seq<char>, from: int) -> bool
    decreases a.len() - from,
{
    if from < 0 || from >= a.len() {
        true
    } else if from >= b.len() {
        false
    } else if a[from] != b[from] {
        (a[from] as int) < (b[from] as int)
    } else {
        at_most_from(a, b, from + 1)
    }
}

/// Whether version `a` is `b` or earlier.
pub open spec fn at_most(a: Seq<char>, b: Seq<char>) -> bool {
    at_most_from(a, b, 0)
}

/// Whether `chosen` is the latest of `versions` that is at most `requested`.
pub open spec fn is_latest_at_most(
    versions: Seq<Seq<char>>,
    requested: Seq<char>,
    chosen: Seq<char>,
) -> bool {
    &&& versions.contains(chosen)
    &&& at_most(chosen, requested)
    &&& forall|i: int|
        0 <= i < versions.len() && at_most(#[trigger] versions[i], requested) ==> at_most(
            versions[i],
            chosen,
        )
}

/// Whether any of `versions` is at most `requested`.
pub open spec fn any_at_most(versions: Seq<Seq<char>>, requested: Seq<char>) -> bool {
    exists|i: int| 0 <= i < versions.len() && at_most(#[trigger] versions[i], requested)
}

/// Of two texts one is at most the other.
pub proof fn lemma_at_most_total(a: Seq<char>, b: Seq<char>, from: int)
    requires
        0 <= from,
    ensures
        at_most_from(a, b, from) || at_most_from(b, a, from),
    decreases a.len() - from,
{
    if from < a.len() && from < b.len() && a[from] == b[from] {
        lemma_at_most_total(a, b, from + 1);
    }
}

/// What is at most a text that is at most a third is at most the third.
pub proof fn lemma_at_most_transitive(a: Seq<char>, b: Seq<char>, c: Seq<char>, from: int)
    requires
        0 <= from,
        at_most_from(a, b, from),
        at_most_from(b, c, from),
    ensures
        at_most_from(a, c, from),
    decreases a.len() - from,
{
    if from < a.len() && from < b.len() && from < c.len() && a[from] == b[from] && b[from]
        == c[from] {
        lemma_at_most_transitive(a, b, c, from + 1);
    }
}

/// Two texts that are at most each other are one text from `from` on.
pub proof fn lemma_at_most_antisymmetric(a: Seq<char>, b: Seq<char>, from: int)
    requires
        0 <= from <= a.len(),
        from <= b.len(),
        at_most_from(a, b, from),
        at_most_from(b, a, from),
    ensures
        a.skip(from) == b.skip(from),
    decreases a.len() - from,
{
    if from < a.len() {
        lemma_at_most_antisymmetric(a, b, from + 1);
        assert(a.skip(from) =~= seq![a[from]] + a.skip(from + 1));
        assert(b.skip(from) =~= seq![b[from]] + b.skip(from + 1));
    } else {
        assert(a.skip(from) =~= b.skip(from));
    }
}

/// The latest version at most the requested one is one version, whichever
/// way it is found.
pub proof fn lemma_latest_is_unique(
    versions: Seq<Seq<char>>,
    requested: Seq<char>,
    one: Seq<char>,
    other: Seq<char>,
)
    requires
        is_latest_at_most(versions, requested, one),
        is_latest_at_most(versions, requested, other),
    ensures
        one == other,
{
    let i = choose|i: int| 0 <= i < versions.len() && versions[i] == one;
    let j = choose|j: int| 0 <= j < versions.len() && versions[j] == other;
    assert(at_most(versions[i], other));
    assert(at_most(versions[j], one));
    lemma_at_most_antisymmetric(one, other, 0);
    assert(one.skip(0) =~= one);
    assert(other.skip(0) =~= other);
}

/// Whether version `a` is `b` or earlier.
pub fn version_at_most(a: &Vec<char>, b: &Vec<char>) -> (r: bool)
    ensures
        r == at_most(a@, b@),
{
    let mut i: usize = 0;
    while i < a.len()
        invariant
            i <= a.len(),
            at_most(a@, b@) == at_most_from(a@, b@, i as int),
        decreases a.len() - i,
    {
        if i >= b.len() {
            return false;
        }
        if a[i] != b[i] {
            return a[i] < b[i];
        }
        i += 1;
    }
    true
}

/// Finds the latest of the versions that is at most the requested one.
pub fn latest_at_most(versions: &Vec<String>, requested: &str) -> (chosen: Option<String>)
    ensures
        chosen is Some <==> any_at_most(versions.deep_view(), requested@),
        chosen matches Some(version) ==> is_latest_at_most(
            versions.deep_view(),
            requested@,
            version@,
        ),
{
    let wanted = chars_of(requested);
    let mut best: Option<Vec<char>> = None;
    let mut at: usize = 0;
    let mut i: usize = 0;
    while i < versions.len()
        invariant
            i <= versions.len(),
            wanted@ == requested@,
            best is Some ==> at < i && best->0@ == versions.deep_view()[at as int] && at_most(
                best->0@,
                requested@,
            ),
            best is Some ==> forall|j: int|
                0 <= j < i && at_most(#[trigger] versions.deep_view()[j], requested@) ==> at_most(
                    versions.deep_view()[j],
                    best->0@,
                ),
            best is None ==> forall|j: int|
                0 <= j < i ==> !at_most(#[trigger] versions.deep_view()[j], requested@),
        decreases versions.len() - i,
    {
        let candidate = chars_of(versions[i].as_str());
        assert(versions.deep_view()[i as int] == versions[i as int]@);
        if version_at_most(&candidate, &wanted) {
            let later = match &best {
                None => true,
                Some(held) => version_at_most(held, &candidate),
            };
            proof {
                if best is Some {
                    let held = best->0@;
                    if later {
                        assert forall|j: int|
                            0 <= j < i && at_most(
                                #[trigger] versions.deep_view()[j],
                                requested@,
                            ) implies at_most(versions.deep_view()[j], candidate@) by {
                            lemma_at_most_transitive(versions.deep_view()[j], held, candidate@, 0);
                        }
                    } else {
                        lemma_at_most_total(held, candidate@, 0);
                    }
                }
                lemma_at_most_total(candidate@, candidate@, 0);
            }
            if later {
                best = Some(candidate);
                at = i;
            }
        }
        i += 1;
    }
    match best {
        None => None,
        Some(_) => {
            assert(versions.deep_view()[at as int] == versions[at as int]@);
            Some(versions[at].clone())
        },
    }
}

/// Chooses the schema for a version of the game: that of the latest known
/// version which is at most the requested one. Where every known version is
/// later, the requested version is reported as not found.
pub fn select(commit: Vec<u8>, versions: &Vec<String>, game_version: &str) -> (r: Result<
    Specifier,
    Error,
>)
    ensures
        r is Ok <==> any_at_most(versions.deep_view(), game_version@),
        r matches Ok(specifier) ==> specifier.commit == commit && is_latest_at_most(
            versions.deep_view(),
            game_version@,
            specifier.game_version@,
        ),
        r matches Err(error) ==> error@ == Failure::NotFound(
            ErrorValueView::Version(game_version@),
        ),
{
    match latest_at_most(versions, game_version) {
        Some(found) => Ok(Specifier { commit, game_version: found }),
        None => Err(Error::NotFound(ErrorValue::Version(String::from_str(game_version)))),
    }
}

} // verus!
