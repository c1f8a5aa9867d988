//! The well-known string formats.

use vstd::prelude::*;

verus! {

/// A format that a string can be recognised as.
#[derive(Clone, Copy, Debug, PartialEq, Eq, Structural)]
pub enum Format {
    Email,
    Hostname,
    Ip,
    Ipv4,
    Ipv6,
    Uri,
    UriRef,
    Uuid,
    Tuuid,
    IpPrefix { strict: bool },
    Ipv4Prefix { strict: bool },
    Ipv6Prefix { strict: bool },
    HostAndPort { port_required: bool },
    Ulid,
    ProtobufFqn,
    ProtobufDotFqn,
    HeaderName { strict: bool },
    HeaderValue { strict: bool },
}

/// Recognises strings of the well-known formats.
///
/// What is of a format is named by `accepts`, which an implementation in
/// verified code defines; one in ordinary Rust leaves it out.
pub trait Formats: Sized {
    /// Whether `s` is of the format.
    closed spec fn accepts(&self, format: Format, s: Seq<char>) -> bool {
        arbitrary()
    }

    /// Whether `s` is of the format.
    fn recognises(&self, format: Format, s: &str) -> (r: bool)
        ensures
            r == self.accepts(format, s@),
    ;
}

/// Formats given by the strings that are of them.
pub struct FormatTable {
    pub accepted: Vec<(Format, String)>,
}

impl Formats for FormatTable {
    open spec fn accepts(&self, format: Format, s: Seq<char>) -> bool {
        exists|i: int|
            0 <= i < self.accepted@.len() && (#[trigger] self.accepted@[i]).0 == format
                && self.accepted@[i].1@ == s
    }

    fn recognises(&self, format: Format, s: &str) -> (r: bool) {
        let mut i: usize = 0;
        while i < self.accepted.len()
            invariant
                i <= self.accepted@.len(),
                forall|j: int|
                    0 <= j < i ==> !((#[trigger] self.accepted@[j]).0 == format
                        && self.accepted@[j].1@ == s@),
            decreases self.accepted@.len() - i,
        {
            if self.accepted[i].0 == format && crate::strings::same_text(
                self.accepted[i].1.as_str(),
                s,
            ) {
                return true;
            }
            i += 1;
        }
        false
    }
}

} // verus!
