//! Thread identities.
use crate::text::hex_digit;
use vstd::arithmetic::power::pow;
use vstd::prelude::*;

verus! {

/// The `k`-th of the 32 hexadecimal digits of a value, the highest first.
pub open spec fn uuid_digit(value: u128, k: int) -> char {
    hex_digit((value as int / pow(16, (31 - k) as nat)) % 16)
}

/// The hexadecimal digits of a value from `from` up to `to`.
pub open spec fn uuid_digits(value: u128, from: int, to: int) -> Seq<char> {
    Seq::new((to - from) as nat, |i: int| uuid_digit(value, from + i))
}

/// The text of the identity with this value: its digits in groups of eight, four,
/// four, four and twelve.
#[verifier::opaque]
pub open spec fn uuid_text(value: u128) -> Seq<char> {
    uuid_digits(value, 0, 8) + "-"@ + uuid_digits(value, 8, 12) + "-"@ + uuid_digits(value, 12, 16)
        + "-"@ + uuid_digits(value, 16, 20) + "-"@ + uuid_digits(value, 20, 32)
}

/// The value of the identity that `uuid::Uuid::parse_str` reads from a text.
pub uninterp spec fn parsed_uuid(text: Seq<char>) -> Option<u128>;

/// Trusted: `uuid::Uuid::to_string` on the identity `Uuid::from_u128` makes of
/// `value`. It prints the hexadecimal digits of the value in their groups, and
/// `Uuid::parse_str` reads the value back from that.
#[verifier::external_body]
fn print_uuid(value: u128) -> (r: String)
    ensures
        r@ == uuid_text(value),
        parsed_uuid(r@) == Some(value),
{
    uuid::Uuid::from_u128(value).to_string()
}

/// Trusted: `uuid::Uuid::parse_str`. Whether it reads an identity, and which,
/// depends on the text alone.
#[verifier::external_body]
fn parse_uuid(text: &str) -> (r: Option<u128>)
    ensures
        r == parsed_uuid(text@),
{
    uuid::Uuid::parse_str(text).ok().map(|id| id.as_u128())
}

/// The identity of a conversation thread.
#[derive(Clone, Copy, Debug, PartialEq, Eq, Hash, Structural)]
pub struct ThreadId {
    pub value: u128,
}

/// The text of an identity.
pub open spec fn thread_text(id: ThreadId) -> Seq<char> {
    uuid_text(id.value)
}

/// The identity a text names, if it names one.
pub open spec fn thread_named(text: Seq<char>) -> Option<ThreadId> {
    match parsed_uuid(text) {
        Some(value) => Some(ThreadId { value }),
        None => None,
    }
}

impl ThreadId {
    /// The identity a text names.
    pub fn from_string(text: &str) -> (r: Option<ThreadId>)
        ensures
            r == thread_named(text@),
    {
        match parse_uuid(text) {
            Some(value) => Some(ThreadId { value }),
            None => None,
        }
    }

    /// The text of this identity. Reading it gives the identity back.
    pub fn to_text(&self) -> (r: String)
        ensures
            r@ == thread_text(*self),
            thread_named(r@) == Some(*self),
    {
        print_uuid(self.value)
    }
}

/// An identity is printed as 32 digits in five groups, with four dashes between them.
pub proof fn law_identities_are_printed_in_groups(id: ThreadId)
    ensures
        thread_text(id).len() == 36,
        thread_text(id)[8] == '-' && thread_text(id)[13] == '-' && thread_text(id)[18] == '-'
            && thread_text(id)[23] == '-',
        thread_text(id)[35] == hex_digit(id.value as int % 16),
{
    reveal(uuid_text);
    reveal_strlit("-");
    let t = thread_text(id);
    assert(t[35] == uuid_digit(id.value, 31));
    vstd::arithmetic::power::lemma_pow0(16);
}

} // verus!
