//! The list of the sheets of an Excel database.
//!
//! The list is a text file. Its lines end in `\r\n`. The first line starts
//! with the magic `EXLT`; each of the others that holds a comma names a sheet
//! in front of the comma, and its number behind it.

use crate::error::{Error, Failure};
use crate::text::{
    break_from, chars_of, find_break, find_char, lemma_break_from, lemma_position_from,
    position_from, string_of_range, utf8_error_of, utf8_text,
};
use vstd::hash_set::StringHashSet;
use vstd::prelude::*;
use vstd::string::StringExecFns;

verus! {

/// The sheets that an Excel database holds: the set of their names.
pub struct ExcelList {
    sheets: StringHashSet,
}

/// What is reported of a list that is not valid UTF-8: that it is not, and
/// what the standard library says of its bytes.
pub open spec fn invalid_utf8(bytes: Seq<u8>) -> Seq<char> {
    "Invalid utf8 sequence in ExcelList: "@ + utf8_error_of(bytes)
}

/// What is reported of a list whose first line does not start with the magic.
pub open spec fn missing_magic() -> Seq<char> {
    "Missing EXLT magic in ExcelList"@
}

/// Whether the first line of a list starts with the magic.
pub open spec fn has_magic(text: Seq<char>) -> bool {
    let first = text.subrange(0, break_from(text, 0));
    first.len() >= 4 && first[0] == 'E' && first[1] == 'X' && first[2] == 'L' && first[3] == 'T'
}

/// The sheet that a line names: what stands before its first comma.
pub open spec fn sheet_of(line: Seq<char>) -> Option<Seq<char>> {
    if position_from(line, ',', 0) < line.len() {
        Some(line.subrange(0, position_from(line, ',', 0)))
    } else {
        None
    }
}

/// The sheets that the lines from index `start` on name.
pub open spec fn sheets_from(text: Seq<char>, start: int) -> Set<Seq<char>>
    decreases text.len() - start,
{
    if start < 0 || start > text.len() {
        Set::empty()
    } else {
        let end = break_from(text, start);
        let rest = if end < text.len() {
            proof {
                lemma_break_from(text, start);
            }
            sheets_from(text, end + 2)
        } else {
            Set::empty()
        };
        match sheet_of(text.subrange(start, end)) {
            Some(name) => rest.insert(name),
            None => rest,
        }
    }
}

/// The sheets that a list names: those of all its lines but the first.
pub open spec fn sheet_names(text: Seq<char>) -> Set<Seq<char>> {
    if break_from(text, 0) < text.len() {
        sheets_from(text, break_from(text, 0) + 2)
    } else {
        Set::empty()
    }
}

impl View for ExcelList {
    type V = Set<Seq<char>>;

    closed spec fn view(&self) -> Set<Seq<char>> {
        self.sheets@
    }
}

impl ExcelList {
    /// Reads a list. Bytes that are not UTF-8, and a first line that does not
    /// start with `EXLT`, are an `InvalidResource`.
    pub fn from_bytes(bytes: &[u8]) -> (r: Result<ExcelList, Error>)
        ensures
            r is Ok <==> vstd::utf8::valid_utf8(bytes@) && has_magic(
                vstd::utf8::decode_utf8(bytes@),
            ),
            r matches Ok(list) ==> list@ == sheet_names(vstd::utf8::decode_utf8(bytes@)),
            r matches Err(error) ==> error@ == Failure::InvalidResource(
                if vstd::utf8::valid_utf8(bytes@) {
                    missing_magic()
                } else {
                    invalid_utf8(bytes@)
                },
            ),
    {
        match utf8_text(bytes) {
            Err(reason) => {
                let mut message = String::from_str("Invalid utf8 sequence in ExcelList: ");
                message.append(reason.as_str());
                Err(Error::InvalidResource(message))
            },
            Ok(text) => ExcelList::from_text(text),
        }
    }

    /// Reads a list from its text.
    pub fn from_text(text: &str) -> (r: Result<ExcelList, Error>)
        ensures
            r is Ok <==> has_magic(text@),
            r matches Ok(list) ==> list@ == sheet_names(text@),
            r matches Err(error) ==> error@ == Failure::InvalidResource(missing_magic()),
    {
        let chars = chars_of(text);
        let first_end = find_break(&chars, 0);
        if first_end < 4 || chars[0] != 'E' || chars[1] != 'X' || chars[2] != 'L' || chars[3]
            != 'T' {
            return Err(Error::InvalidResource(String::from_str("Missing EXLT magic in ExcelList")));
        }
        let mut sheets = StringHashSet::new();
        if first_end == chars.len() {
            return Ok(ExcelList { sheets });
        }
        let mut start: usize = first_end + 2;
        let ghost all = sheet_names(chars@);
        loop
            invariant_except_break
                sheets@.union(sheets_from(chars@, start as int)) == all,
            invariant
                start <= chars.len(),
                chars@ == text@,
            ensures
                sheets@ == all,
            decreases chars.len() - start,
        {
            let end = find_break(&chars, start);
            let comma = find_char(&chars, ',', start);
            proof {
                lemma_position_in_line(chars@, start as int, end as int);
            }
            let ghost before = sheets@;
            let ghost line = chars@.subrange(start as int, end as int);
            let ghost rest = if end < chars.len() {
                sheets_from(chars@, end + 2)
            } else {
                Set::empty()
            };
            if comma < end {
                let name = string_of_range(&chars, start, comma);
                assert(chars@.subrange(start as int, comma as int) =~= line.subrange(
                    0,
                    comma - start,
                ));
                sheets.insert(name);
                assert(sheets@.union(rest) =~= before.union(rest.insert(line.subrange(
                    0,
                    position_from(line, ',', 0),
                ))));
            }
            assert(sheets@.union(rest) == all);
            if end == chars.len() {
                assert(sheets@ =~= sheets@.union(rest));
                break ;
            }
            start = end + 2;
        }
        Ok(ExcelList { sheets })
    }

    /// Whether the database holds a sheet of the given name.
    pub fn has_sheet(&self, sheet_name: &str) -> (held: bool)
        ensures
            held == self@.contains(sheet_name@),
    {
        self.sheets.contains(sheet_name)
    }

    /// The number of the sheets.
    pub fn len(&self) -> (len: usize)
        ensures
            len == self@.len(),
    {
        self.sheets.len()
    }
}

/// The first comma from the start of a line on lies where the first comma of
/// the line lies, if it lies in the line at all.
proof fn lemma_position_in_line(text: Seq<char>, start: int, end: int)
    requires
        0 <= start <= end <= text.len(),
    ensures
        position_from(text, ',', start) < end ==> position_from(
            text.subrange(start, end),
            ',',
            0,
        ) == position_from(text, ',', start) - start,
        position_from(text, ',', start) >= end ==> position_from(
            text.subrange(start, end),
            ',',
            0,
        ) == end - start,
{
    let line = text.subrange(start, end);
    lemma_position_from(text, ',', start);
    lemma_position_from(line, ',', 0);
    let whole = position_from(text, ',', start);
    let part = position_from(line, ',', 0);
    if part < line.len() {
        assert(line[part] == text[start + part]);
        if whole > start + part {
            assert(text[start + part] != ',');
        }
    }
    if whole < end {
        assert(line[whole - start] == text[whole]);
        if part > whole - start {
            assert(line[whole - start] != ',');
        }
    }
}

} // verus!
