//! The normalized form of a mailbox entry, built from what a fetch returned.
use vstd::prelude::*;
use vstd::utf8::{decode_utf8, valid_utf8};

use crate::mime::{first_part_body, first_part_text};
use crate::text::utf8_text;

verus! {

/// One mailbox entry as it is handed to filter scripts.
#[derive(Debug)]
pub struct Email {
    /// One entry per sender (a message may name several, or none); an entry
    /// is absent when the sender's address is incomplete.
    pub sender: Vec<Option<String>>,
    pub subject: String,
    pub body: String,
    pub uid: u32,
}

/// An envelope address, as text.
#[derive(Debug)]
pub struct Address {
    /// Human readable name, e.g. "Jane Smith".
    pub name: Option<String>,
    /// Source route.
    pub adl: Option<String>,
    /// The part before the `@`.
    pub mailbox: Option<String>,
    /// The domain.
    pub host: Option<String>,
}

/// An envelope address as the server sent it: raw bytes.
#[derive(Debug)]
pub struct RawAddress {
    pub name: Option<Vec<u8>>,
    pub adl: Option<Vec<u8>>,
    pub mailbox: Option<Vec<u8>>,
    pub host: Option<Vec<u8>>,
}

/// The envelope of a fetched message.
#[derive(Debug)]
pub struct Envelope {
    pub from: Option<Vec<RawAddress>>,
    pub subject: Option<Vec<u8>>,
}

/// What one fetch response holds about a message: its UID, its envelope
/// and its raw RFC 822 text, each when the response had it.
#[derive(Debug)]
pub struct Fetched {
    pub uid: Option<u32>,
    pub envelope: Option<Envelope>,
    pub body: Option<Vec<u8>>,
}

#[derive(Debug, Clone, Copy, PartialEq, Eq, Structural)]
pub enum EmailError {
    NoEnvelope,
    NoBody,
    NoSender,
    /// An address field is not valid UTF-8.
    BadAddress,
    NoSubject,
    /// The subject is not valid UTF-8.
    BadSubject,
    NoUid,
}

impl EmailError {
    pub fn message(&self) -> (r: &'static str) {
        match self {
            EmailError::NoEnvelope => "no envelope in the fetch response",
            EmailError::NoBody => "no readable body in the fetch response",
            EmailError::NoSender => "no sender in the envelope",
            EmailError::BadAddress => "an address is not valid UTF-8",
            EmailError::NoSubject => "no subject in the envelope",
            EmailError::BadSubject => "the subject is not valid UTF-8",
            EmailError::NoUid => "no UID in the fetch response",
        }
    }
}

pub open spec fn field_ok(f: Option<Vec<u8>>) -> bool {
    match f {
        Some(b) => valid_utf8(b@),
        None => true,
    }
}

/// `t` is the text of raw field `f`.
pub open spec fn field_text(f: Option<Vec<u8>>, t: Option<String>) -> bool {
    match f {
        Some(b) => t matches Some(s) && s@ == decode_utf8(b@),
        None => t is None,
    }
}

pub open spec fn address_ok(a: RawAddress) -> bool {
    field_ok(a.name) && field_ok(a.adl) && field_ok(a.mailbox) && field_ok(a.host)
}

/// `mailbox@host` when both parts are there.
pub open spec fn simple_form(mailbox: Option<Seq<char>>, host: Option<Seq<char>>) -> Option<
    Seq<char>,
> {
    match (mailbox, host) {
        (Some(m), Some(h)) => Some(m + seq!['@'] + h),
        _ => None,
    }
}

pub open spec fn text_of(t: Option<String>) -> Option<Seq<char>> {
    match t {
        Some(s) => Some(s@),
        None => None,
    }
}

pub open spec fn decoded(f: Option<Vec<u8>>) -> Option<Seq<char>> {
    match f {
        Some(b) => Some(decode_utf8(b@)),
        None => None,
    }
}

/// The sender entry that a raw address gives.
pub open spec fn sender_of(a: RawAddress) -> Option<Seq<char>> {
    simple_form(decoded(a.mailbox), decoded(a.host))
}

/// The first problem found in the header data of a fetch response,
/// checking in this order: envelope, sender list, each address, subject,
/// UID.
pub open spec fn header_problem(uid: Option<u32>, envelope: Option<Envelope>) -> Option<EmailError> {
    match envelope {
        None => Some(EmailError::NoEnvelope),
        Some(env) => match env.from {
            None => Some(EmailError::NoSender),
            Some(from) => if exists|i: int| 0 <= i < from@.len() && !address_ok(#[trigger] from@[i]) {
                Some(EmailError::BadAddress)
            } else {
                match env.subject {
                    None => Some(EmailError::NoSubject),
                    Some(s) => if !valid_utf8(s@) {
                        Some(EmailError::BadSubject)
                    } else if uid is None {
                        Some(EmailError::NoUid)
                    } else {
                        None
                    },
                }
            },
        },
    }
}

/// The first problem with the parts of a message: a header problem, else
/// a missing body text.
pub open spec fn parts_problem(uid: Option<u32>, envelope: Option<Envelope>, body: Option<String>) -> Option<EmailError> {
    match header_problem(uid, envelope) {
        Some(e) => Some(e),
        None => if body is None {
            Some(EmailError::NoBody)
        } else {
            None
        },
    }
}

/// `e` carries the UID, subject and senders of the response.
pub open spec fn matches_headers(e: Email, uid: Option<u32>, envelope: Option<Envelope>) -> bool {
    &&& uid == Some(e.uid)
    &&& envelope matches Some(env) && env.subject matches Some(s) && e.subject@ == decode_utf8(s@)
    &&& envelope matches Some(env) && env.from matches Some(from) && e.sender@.len() == from@.len()
        && forall|i: int| 0 <= i < from@.len() ==> text_of(#[trigger] e.sender@[i]) == sender_of(from@[i])
}

fn field_from_raw(f: Option<Vec<u8>>) -> (r: Result<Option<String>, EmailError>)
    ensures
        r is Ok <==> field_ok(f),
        r is Err ==> r == Err::<Option<String>, EmailError>(EmailError::BadAddress),
        r matches Ok(t) ==> field_text(f, t),
{
    match f {
        None => Ok(None),
        Some(b) => match utf8_text(b) {
            Some(s) => Ok(Some(s)),
            None => Err(EmailError::BadAddress),
        },
    }
}

impl Address {
    /// The textual address; fails when a field present is not UTF-8.
    pub fn from_imap_address(address: RawAddress) -> (r: Result<Address, EmailError>)
        ensures
            r is Ok <==> address_ok(address),
            r is Err ==> r == Err::<Address, EmailError>(EmailError::BadAddress),
            r matches Ok(a) ==> {
                &&& field_text(address.name, a.name)
                &&& field_text(address.adl, a.adl)
                &&& field_text(address.mailbox, a.mailbox)
                &&& field_text(address.host, a.host)
            },
    {
        let RawAddress { name, adl, mailbox, host } = address;
        let name = match field_from_raw(name) {
            Ok(t) => t,
            Err(e) => return Err(e),
        };
        let adl = match field_from_raw(adl) {
            Ok(t) => t,
            Err(e) => return Err(e),
        };
        let mailbox = match field_from_raw(mailbox) {
            Ok(t) => t,
            Err(e) => return Err(e),
        };
        let host = match field_from_raw(host) {
            Ok(t) => t,
            Err(e) => return Err(e),
        };
        Ok(Address { name, adl, mailbox, host })
    }

    /// The address in its usual form, `mailbox@host`; absent unless both
    /// parts are there (a sender that accepts no replies may have none).
    pub fn to_simple(&self) -> (r: Option<String>)
        ensures
            text_of(r) == simple_form(text_of(self.mailbox), text_of(self.host)),
    {
        match (&self.mailbox, &self.host) {
            (Some(m), Some(h)) => {
                let mut s = m.clone();
                proof {
                    reveal_strlit("@");
                }
                s.append("@");
                s.append(h.as_str());
                Some(s)
            },
            _ => None,
        }
    }
}

impl Email {
    /// Builds a message from the header data of a fetch response and the
    /// text of its body. Fails with the first problem that `parts_problem`
    /// names; otherwise every field comes from the arguments, each sender in
    /// its `mailbox@host` form.
    pub fn from_parts(uid: Option<u32>, envelope: Option<Envelope>, body: Option<String>) -> (r: Result<Email, EmailError>)
        ensures
            r is Ok <==> parts_problem(uid, envelope, body) is None,
            r is Err ==> r == Err::<Email, EmailError>(parts_problem(uid, envelope, body).unwrap()),
            r matches Ok(e) ==> matches_headers(e, uid, envelope) && body == Some(e.body),
    {
        let env = match envelope {
            Some(env) => env,
            None => return Err(EmailError::NoEnvelope),
        };
        let Envelope { from, subject } = env;
        let mut from = match from {
            Some(f) => f,
            None => return Err(EmailError::NoSender),
        };
        let ghost all_from = from@;
        let n = from.len();
        let mut sender: Vec<Option<String>> = Vec::new();
        let mut k: usize = 0;
        while k < n
            invariant
                0 <= k <= n,
                n == all_from.len(),
                envelope matches Some(e) && e.from matches Some(f) && f@ == all_from,
                from@ == all_from.subrange(k as int, n as int),
                sender@.len() == k,
                forall|i: int| 0 <= i < k ==> address_ok(#[trigger] all_from[i]),
                forall|i: int|
                    0 <= i < k ==> text_of(#[trigger] sender@[i]) == sender_of(all_from[i]),
            decreases n - k,
        {
            let a = from.remove(0);
            assert(a == all_from[k as int]);
            assert(from@ =~= all_from.subrange(k + 1, n as int));
            match Address::from_imap_address(a) {
                Ok(addr) => {
                    let s = addr.to_simple();
                    sender.push(s);
                },
                Err(e) => {
                    assert(!address_ok(all_from[k as int]));
                    return Err(e);
                },
            }
            k = k + 1;
        }
        let subject = match subject {
            Some(s) => match utf8_text(s) {
                Some(t) => t,
                None => return Err(EmailError::BadSubject),
            },
            None => return Err(EmailError::NoSubject),
        };
        let uid = match uid {
            Some(u) => u,
            None => return Err(EmailError::NoUid),
        };
        let body = match body {
            Some(b) => b,
            None => return Err(EmailError::NoBody),
        };
        Ok(Email { sender, subject, body, uid })
    }

    /// Normalizes a fetch response; the body is the text of the message's
    /// first MIME part. A header problem is reported as `from_parts` does;
    /// with sound headers the only failure is `NoBody`, when the response
    /// has no body or its first part cannot be decoded.
    pub fn from_fetch(msg: Fetched) -> (r: Result<Email, EmailError>)
        ensures
            header_problem(msg.uid, msg.envelope) matches Some(p) ==> r == Err::<Email, EmailError>(p),
            r is Ok <==> (header_problem(msg.uid, msg.envelope) is None && (msg.body matches Some(b)
                && first_part_body(b@) is Some)),
            r is Err && header_problem(msg.uid, msg.envelope) is None ==> r == Err::<Email, EmailError>(
                EmailError::NoBody,
            ),
            r matches Ok(e) ==> matches_headers(e, msg.uid, msg.envelope),
            r matches Ok(e) ==> (msg.body matches Some(b) && first_part_body(b@) == Some(e.body@)),
    {
        let Fetched { uid, envelope, body } = msg;
        let text = match body {
            Some(raw) => first_part_text(raw.as_slice()),
            None => None,
        };
        Email::from_parts(uid, envelope, text)
    }
}

} // verus!
