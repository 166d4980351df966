//! MIME decoding of a message body, by mailparse.
use vstd::prelude::*;

verus! {

/// The text of the first part of a multipart message, as mailparse
/// decodes it; `None` when there is none.
pub uninterp spec fn first_part_body(raw: Seq<u8>) -> Option<Seq<char>>;

/// Relies on `mailparse::parse_mail`, the `subparts` field of the parsed
/// message and `ParsedMail::get_body`: the first part's body with its
/// transfer encoding undone, as text in its charset. The outcome depends on
/// the bytes alone; it is `None` when the message does not parse, has no
/// parts, or that part's body cannot be decoded.
#[verifier::external_body]
pub(crate) fn first_part_text(raw: &[u8]) -> (r: Option<String>)
    ensures
        match r {
            Some(s) => first_part_body(raw@) == Some(s@),
            None => first_part_body(raw@) is None,
        },
{
    let parsed = mailparse::parse_mail(raw).ok()?;
    parsed.subparts.first()?.get_body().ok()
}

} // verus!
