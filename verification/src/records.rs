//! Identifiers and instants of stored records, as plain values: an
//! identifier is twelve bytes, an instant a count of milliseconds since the
//! Unix epoch. Identifiers are read and instants are printed by the `bson`
//! crate.

use vstd::prelude::*;

verus! {

/// The identifier of a stored record.
#[derive(Clone, Copy, Debug, PartialEq, Eq)]
pub struct RecordId {
    pub bytes: [u8; 12],
}

/// The lowercase hexadecimal digit of a value below sixteen.
pub open spec fn hex_digit(n: int) -> char {
    if n == 0 {
        '0'
    } else if n == 1 {
        '1'
    } else if n == 2 {
        '2'
    } else if n == 3 {
        '3'
    } else if n == 4 {
        '4'
    } else if n == 5 {
        '5'
    } else if n == 6 {
        '6'
    } else if n == 7 {
        '7'
    } else if n == 8 {
        '8'
    } else if n == 9 {
        '9'
    } else if n == 10 {
        'a'
    } else if n == 11 {
        'b'
    } else if n == 12 {
        'c'
    } else if n == 13 {
        'd'
    } else if n == 14 {
        'e'
    } else {
        'f'
    }
}

/// The lowercase hexadecimal form of `bytes`: two digits for each byte, the
/// high one first.
pub open spec fn hex_of(bytes: Seq<u8>) -> Seq<char>
    decreases bytes.len(),
{
    if bytes.len() == 0 {
        Seq::empty()
    } else {
        hex_of(bytes.drop_last()).push(hex_digit(bytes.last() as int / 16)).push(
            hex_digit(bytes.last() as int % 16),
        )
    }
}

/// The identifier that `bson::oid::ObjectId::parse_str` reads from `text`:
/// its twelve bytes, or `None` where the text is refused.
pub uninterp spec fn parsed_id(text: Seq<char>) -> Option<Seq<u8>>;

/// The RFC 3339 form of an instant, as `bson::DateTime::try_to_rfc3339_string`
/// gives it; `None` where it cannot format the instant.
pub uninterp spec fn rfc3339_text(millis: i64) -> Option<Seq<char>>;

/// The display form of an instant, as `bson::DateTime` prints itself.
pub uninterp spec fn display_text(millis: i64) -> Seq<char>;

/// The lowercase hexadecimal digit of a value below sixteen.
pub fn digit(n: u8) -> (r: char)
    requires
        n < 16,
    ensures
        r == hex_digit(n as int),
{
    if n == 0 {
        '0'
    } else if n == 1 {
        '1'
    } else if n == 2 {
        '2'
    } else if n == 3 {
        '3'
    } else if n == 4 {
        '4'
    } else if n == 5 {
        '5'
    } else if n == 6 {
        '6'
    } else if n == 7 {
        '7'
    } else if n == 8 {
        '8'
    } else if n == 9 {
        '9'
    } else if n == 10 {
        'a'
    } else if n == 11 {
        'b'
    } else if n == 12 {
        'c'
    } else if n == 13 {
        'd'
    } else if n == 14 {
        'e'
    } else {
        'f'
    }
}

/// Calls `bson::oid::ObjectId::parse_str` and reads the bytes of the result.
/// The contract claims only that the outcome is what `parsed_id` stands for.
#[verifier::external_body]
pub(crate) fn id_from_hex(text: &str) -> (r: Option<[u8; 12]>)
    ensures
        match r {
            Some(bytes) => parsed_id(text@) == Some(bytes@),
            None => parsed_id(text@) is None,
        },
{
    match mongodb::bson::oid::ObjectId::parse_str(text) {
        Ok(id) => Some(id.bytes()),
        Err(_) => None,
    }
}

/// Calls `bson::DateTime::from_millis` and `DateTime::try_to_rfc3339_string`.
/// The contract claims only that the outcome is what `rfc3339_text` stands
/// for.
#[verifier::external_body]
pub(crate) fn instant_to_rfc3339(millis: i64) -> (r: Option<String>)
    ensures
        r.deep_view() == rfc3339_text(millis),
{
    mongodb::bson::DateTime::from_millis(millis).try_to_rfc3339_string().ok()
}

/// Calls `bson::DateTime::from_millis` and prints the result with its
/// `Display` implementation. The contract claims only that the text is what
/// `display_text` stands for.
#[verifier::external_body]
pub(crate) fn instant_to_text(millis: i64) -> (r: String)
    ensures
        r@ == display_text(millis),
{
    mongodb::bson::DateTime::from_millis(millis).to_string()
}

impl RecordId {
    /// The identifier in lowercase hexadecimal: twenty-four digits.
    pub fn to_hex(&self) -> (r: String)
        ensures
            r@ == hex_of(self.bytes@),
    {
        let mut r = String::new();
        let mut i: usize = 0;
        proof {
            assert(self.bytes@.take(0) =~= Seq::empty());
        }
        while i < 12
            invariant
                i <= 12,
                self.bytes@.len() == 12,
                r@ == hex_of(self.bytes@.take(i as int)),
            decreases 12 - i,
        {
            let b = self.bytes[i];
            proof {
                let next = self.bytes@.take(i + 1);
                assert(next.drop_last() =~= self.bytes@.take(i as int));
                assert(next.last() == b);
            }
            r.push(digit(b / 16));
            r.push(digit(b % 16));
            i += 1;
        }
        proof {
            assert(self.bytes@.take(12) =~= self.bytes@);
        }
        r
    }
}

/// The hexadecimal form of an identifier that may be absent: empty where it
/// is.
pub open spec fn hex_or_empty(id: Option<RecordId>) -> Seq<char> {
    match id {
        Some(id) => hex_of(id.bytes@),
        None => Seq::empty(),
    }
}

/// The RFC 3339 form of an instant, empty where it cannot be formatted.
pub open spec fn rfc3339_or_empty(millis: i64) -> Seq<char> {
    match rfc3339_text(millis) {
        Some(text) => text,
        None => Seq::empty(),
    }
}

/// The hexadecimal form of an identifier that may be absent.
pub fn id_text(id: &Option<RecordId>) -> (r: String)
    ensures
        r@ == hex_or_empty(*id),
{
    match id {
        Some(id) => id.to_hex(),
        None => String::new(),
    }
}

/// The RFC 3339 form of an instant, empty where it cannot be formatted.
pub fn instant_text(millis: i64) -> (r: String)
    ensures
        r@ == rfc3339_or_empty(millis),
{
    match instant_to_rfc3339(millis) {
        Some(text) => text,
        None => String::new(),
    }
}

} // verus!
