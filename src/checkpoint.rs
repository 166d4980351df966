//! The checkpoint store's file: the decimal UID of the highest message
//! fully processed, as its whole trimmed contents.
use vstd::prelude::*;

use crate::decimal::{decimal_digits, decimal_text, is_digit, lemma_decimal_digits, numeral_u32, parse_u32};
use crate::text::{is_space, trim_end, trim_start, trim_text, trimmed};

verus! {

#[derive(Debug, Clone, Copy, PartialEq, Eq, Structural)]
pub enum CheckpointError {
    /// The file holds something other than an unsigned integer.
    NotANumber,
}

impl CheckpointError {
    pub fn message(&self) -> (r: &'static str) {
        "the checkpoint file holds something that is not an unsigned integer"
    }
}

/// The UID that checkpoint file contents denote.
pub open spec fn checkpoint_of(contents: Seq<char>) -> Result<u32, CheckpointError> {
    match numeral_u32(trimmed(contents)) {
        Some(n) => Ok(n),
        None => Err(CheckpointError::NotANumber),
    }
}

/// Reads the contents of a checkpoint file.
pub fn parse_checkpoint(contents: &str) -> (r: Result<u32, CheckpointError>)
    ensures
        r == checkpoint_of(contents@),
{
    match parse_u32(trim_text(contents)) {
        Some(n) => Ok(n),
        None => Err(CheckpointError::NotANumber),
    }
}

/// The checkpoint of a run, from the file's contents if the file exists:
/// a missing file means the first run; contents that are no number are an
/// error, never taken for a missing file.
pub fn checkpoint_from_file(contents: Option<&str>) -> (r: Result<Option<u32>, CheckpointError>)
    ensures
        contents is None ==> r == Ok::<Option<u32>, CheckpointError>(None),
        contents matches Some(c) ==> r == (match checkpoint_of(c@) {
            Ok(n) => Ok(Some(n)),
            Err(e) => Err(e),
        }),
{
    match contents {
        None => Ok(None),
        Some(c) => match parse_checkpoint(c) {
            Ok(n) => Ok(Some(n)),
            Err(e) => Err(e),
        },
    }
}

/// The contents to write for a checkpoint.
pub fn checkpoint_text(uid: u32) -> (r: String)
    ensures
        r@ == decimal_digits(uid as nat),
        checkpoint_of(r@) == Ok::<u32, CheckpointError>(uid),
{
    proof {
        lemma_checkpoint_round_trip(uid);
    }
    decimal_text(uid)
}

/// What is written for a checkpoint reads back as the same UID.
pub proof fn lemma_checkpoint_round_trip(uid: u32)
    ensures
        checkpoint_of(decimal_digits(uid as nat)) == Ok::<u32, CheckpointError>(uid),
{
    let d = decimal_digits(uid as nat);
    lemma_decimal_digits(uid as nat);
    crate::decimal::lemma_decimal_round_trip(uid);
    assert(is_digit(d[0]) && is_digit(d.last()));
    assert(!is_space(d[0]) && !is_space(d.last()));
    assert(trim_start(d) == d);
    assert(trim_end(d) == d);
    assert(trimmed(d) == d);
}

} // verus!
