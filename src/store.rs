//! The position store: how a position is written to and read from the
//! state file, and what loading does to a file that is absent.
//!
//! The file itself is modelled as `Option<Seq<char>>`: `None` when no file
//! exists, else its contents.

use crate::text::{
    count_value, decimal_text, lemma_decimal_text, lemma_trim_digits, parse_count, trim,
    trim_text, usize_text,
};
use vstd::prelude::*;

verus! {

/// The position that the text of a state file holds, if any.
pub open spec fn decode(t: Seq<char>) -> Option<usize> {
    count_value(trim(t))
}

/// The text that stores position `v`.
pub open spec fn encode(v: usize) -> Seq<char> {
    decimal_text(v as nat)
}

/// The position that loading a state file yields; `None` when the file is corrupt.
pub open spec fn loaded_value(f: Option<Seq<char>>) -> Option<usize> {
    match f {
        None => Some(0),
        Some(t) => decode(t),
    }
}

/// The state file after a load: an absent file is created holding zero.
pub open spec fn file_after_load(f: Option<Seq<char>>) -> Option<Seq<char>> {
    match f {
        None => Some(encode(0)),
        Some(t) => Some(t),
    }
}

/// The state file after saving `v`: its old contents are replaced.
pub open spec fn file_after_save(f: Option<Seq<char>>, v: usize) -> Option<Seq<char>> {
    Some(encode(v))
}

/// The model of a state file read from disk.
pub open spec fn stored_view(stored: Option<&str>) -> Option<Seq<char>> {
    match stored {
        None => None,
        Some(t) => Some(t@),
    }
}

/// The result of loading: the position, and the text to create the state
/// file with when it was absent.
pub struct Loaded {
    pub position: usize,
    pub create: Option<String>,
}

/// Reads a position from the text of a state file; surrounding whitespace
/// is ignored.
pub fn decode_position(text: &str) -> (r: Option<usize>)
    ensures
        r == decode(text@),
{
    parse_count(trim_text(text))
}

/// The text that stores position `v`.
pub fn encode_position(v: usize) -> (r: String)
    ensures
        r@ == encode(v),
{
    usize_text(v)
}

/// Loads the position from the contents of a state file (`None` when there
/// is no file). Returns `None` when the contents are corrupt.
pub fn load_position(stored: Option<&str>) -> (r: Option<Loaded>)
    ensures
        r.is_some() <==> loaded_value(stored_view(stored)).is_some(),
        r matches Some(l) ==> l.position == loaded_value(stored_view(stored)).unwrap(),
        r matches Some(l) ==> (l.create.is_some() <==> stored.is_none()),
        r matches Some(l) ==> (l.create matches Some(t) ==> Some(t@) == file_after_load(
            stored_view(stored),
        )),
{
    match stored {
        None => Some(Loaded { position: 0, create: Some(encode_position(0)) }),
        Some(text) => match decode_position(text) {
            Some(v) => Some(Loaded { position: v, create: None }),
            None => None,
        },
    }
}

/// Loading a state file that does not exist yields zero and creates the
/// file; loading again right after yields zero again and leaves the file as
/// it is.
pub proof fn lemma_load_creates_zero()
    ensures
        loaded_value(None) == Some(0usize),
        file_after_load(None) == Some(encode(0)),
        loaded_value(file_after_load(None)) == Some(0usize),
        file_after_load(file_after_load(None)) == file_after_load(None),
{
    lemma_save_then_load(None, 0);
}

/// After saving `v`, loading yields exactly `v` and leaves the file as it is.
pub proof fn lemma_save_then_load(f: Option<Seq<char>>, v: usize)
    ensures
        loaded_value(file_after_save(f, v)) == Some(v),
        file_after_load(file_after_save(f, v)) == file_after_save(f, v),
{
    lemma_decimal_text(v as nat);
    lemma_trim_digits(encode(v));
    let t = encode(v);
    assert(t.len() > 0 && t[0] != '+') by {
        assert(crate::text::is_digit(t[0]));
    }
}

} // verus!
