//! Twelve-byte store identifiers and their hexadecimal text form.
//!
//! Identifiers travel through the request types as 24-digit hexadecimal
//! strings and through the records as raw bytes. The conversions between the
//! two forms are delegated to the `bson` crate; their meaning is stated here
//! once, over sequences of characters and bytes.
use vstd::prelude::*;
use vstd::std_specs::cmp::PartialEqSpecImpl;

verus! {

/// Number of hexadecimal digits in the text form of an identifier.
pub const OBJECT_ID_HEX_LEN: usize = 24;

/// Whether `c` is one of `0-9`, `a-f`, `A-F`.
pub open spec fn is_hex_digit(c: char) -> bool {
    ('0' <= c && c <= '9') || ('a' <= c && c <= 'f') || ('A' <= c && c <= 'F')
}

/// The number a hexadecimal digit stands for (of either case).
pub open spec fn hex_digit_value(c: char) -> int {
    if '0' <= c && c <= '9' {
        c as int - '0' as int
    } else if 'a' <= c && c <= 'f' {
        c as int - 'a' as int + 10
    } else {
        c as int - 'A' as int + 10
    }
}

/// The lower-case hexadecimal digit for a number below sixteen.
pub open spec fn lower_hex_digit(v: int) -> char {
    if v == 0 {
        '0'
    } else if v == 1 {
        '1'
    } else if v == 2 {
        '2'
    } else if v == 3 {
        '3'
    } else if v == 4 {
        '4'
    } else if v == 5 {
        '5'
    } else if v == 6 {
        '6'
    } else if v == 7 {
        '7'
    } else if v == 8 {
        '8'
    } else if v == 9 {
        '9'
    } else if v == 10 {
        'a'
    } else if v == 11 {
        'b'
    } else if v == 12 {
        'c'
    } else if v == 13 {
        'd'
    } else if v == 14 {
        'e'
    } else {
        'f'
    }
}

/// Whether every character of `s` is a hexadecimal digit.
pub open spec fn all_hex_digits(s: Seq<char>) -> bool {
    forall|i: int| 0 <= i < s.len() ==> is_hex_digit(#[trigger] s[i])
}

/// Whether `s` is the text form of an identifier: exactly 24 hexadecimal
/// digits, of either case.
pub open spec fn is_object_id_hex(s: Seq<char>) -> bool {
    s.len() == OBJECT_ID_HEX_LEN && all_hex_digits(s)
}

/// The bytes that a string of hexadecimal digits spells, two digits to a
/// byte, the high digit first.
pub open spec fn decode_hex(s: Seq<char>) -> Seq<u8> {
    Seq::new(
        s.len() / 2,
        |i: int| (hex_digit_value(s[2 * i]) * 16 + hex_digit_value(s[2 * i + 1])) as u8,
    )
}

/// The lower-case hexadecimal spelling of a byte string.
pub open spec fn encode_hex(b: Seq<u8>) -> Seq<char> {
    Seq::new(
        2 * b.len(),
        |i: int|
            if i % 2 == 0 {
                lower_hex_digit(b[i / 2] as int / 16)
            } else {
                lower_hex_digit(b[i / 2] as int % 16)
            },
    )
}

/// The identifier that a text spells, if it spells one.
pub open spec fn parsed_object_id(s: Seq<char>) -> Option<ObjectId> {
    if is_object_id_hex(s) {
        Some(choose|id: ObjectId| id@ == decode_hex(s))
    } else {
        None
    }
}

/// A store-generated identifier: twelve raw bytes.
#[derive(Clone, Copy, Debug)]
pub struct ObjectId {
    pub bytes: [u8; 12],
}

/// Why an identifier could not be read from text.
#[derive(Clone, Copy, Debug, PartialEq, Eq, Structural)]
pub enum ObjectIdError {
    /// The text is not 24 hexadecimal digits.
    Malformed,
}

impl View for ObjectId {
    type V = Seq<u8>;

    open spec fn view(&self) -> Seq<u8> {
        self.bytes@
    }
}

impl PartialEq for ObjectId {
    fn eq(&self, other: &Self) -> (r: bool) {
        let mut i: usize = 0;
        while i < 12
            invariant
                i <= 12,
                forall|k: int| 0 <= k < i ==> self.bytes@[k] == other.bytes@[k],
            decreases 12 - i,
        {
            if self.bytes[i] != other.bytes[i] {
                return false;
            }
            i += 1;
        }
        proof {
            assert(self.bytes =~= other.bytes);
        }
        true
    }
}

impl Eq for ObjectId {

}

impl PartialEqSpecImpl for ObjectId {
    open spec fn obeys_eq_spec() -> bool {
        true
    }

    open spec fn eq_spec(&self, other: &Self) -> bool {
        *self == *other
    }
}

/// The error type of `bson::oid::ObjectId::parse_str`, carried through
/// unread.
#[verifier::external_type_specification]
#[verifier::external_body]
pub struct ExObjectIdParseError(bson::oid::Error);

/// Calls `bson::oid::ObjectId::parse_str` and hands back the bytes of the
/// identifier it read. The contract claims what the crate's source shows: the
/// text is hex-decoded two digits to a byte, either case accepted, and the
/// call succeeds exactly when that yields twelve bytes.
#[verifier::external_body]
fn bson_parse_str(s: &str) -> (r: Result<[u8; 12], bson::oid::Error>)
    ensures
        r is Ok <==> is_object_id_hex(s@),
        r matches Ok(bytes) ==> bytes@ == decode_hex(s@),
{
    match bson::oid::ObjectId::parse_str(s) {
        Ok(oid) => Ok(oid.bytes()),
        Err(e) => Err(e),
    }
}

/// Calls `bson::oid::ObjectId::to_hex` on the identifier with the given
/// bytes. The contract claims the lower-case hexadecimal spelling of the
/// bytes, as `hex::encode` produces it.
#[verifier::external_body]
fn bson_to_hex(bytes: [u8; 12]) -> (r: String)
    ensures
        r@ == encode_hex(bytes@),
{
    bson::oid::ObjectId::from_bytes(bytes).to_hex()
}

/// Calls `bson::oid::ObjectId::new`, which builds an identifier from the
/// system clock, a per-process random value and a process-wide counter.
/// Nothing is claimed of the bytes that come back. The outside function
/// panics where the system clock stands before 1970 or after 2106.
#[verifier::external_body]
fn bson_new_object_id() -> (r: [u8; 12]) {
    bson::oid::ObjectId::new().bytes()
}

impl ObjectId {
    /// An identifier with the given bytes.
    pub fn from_bytes(bytes: [u8; 12]) -> (r: ObjectId)
        ensures
            r.bytes == bytes,
    {
        ObjectId { bytes }
    }

    /// The bytes of the identifier.
    pub fn bytes(&self) -> (r: [u8; 12])
        ensures
            r == self.bytes,
    {
        self.bytes
    }

    /// A newly generated identifier. Which one is up to the generator.
    pub fn new() -> (r: ObjectId) {
        ObjectId { bytes: bson_new_object_id() }
    }

    /// Reads an identifier from its text form. Succeeds exactly on 24
    /// hexadecimal digits of either case.
    pub fn parse_str(s: &str) -> (r: Result<ObjectId, ObjectIdError>)
        ensures
            r is Ok <==> is_object_id_hex(s@),
            r matches Ok(id) ==> id@ == decode_hex(s@) && parsed_object_id(s@) == Some(id),
            r matches Err(e) ==> e == ObjectIdError::Malformed && parsed_object_id(s@) is None,
    {
        match bson_parse_str(s) {
            Ok(bytes) => {
                let id = ObjectId { bytes };
                proof {
                    lemma_object_id_ext(id, parsed_object_id(s@).unwrap());
                }
                Ok(id)
            },
            Err(_) => Err(ObjectIdError::Malformed),
        }
    }

    /// The text form of the identifier: 24 lower-case hexadecimal digits.
    pub fn to_hex(&self) -> (r: String)
        ensures
            r@ == encode_hex(self@),
            parsed_object_id(r@) == Some(*self),
    {
        let r = bson_to_hex(self.bytes);
        proof {
            lemma_parse_to_hex_round_trip(*self);
        }
        r
    }
}

/// A lower-case digit is a hexadecimal digit and stands for the number it
/// was made from.
pub proof fn lemma_lower_hex_digit(v: int)
    requires
        0 <= v < 16,
    ensures
        is_hex_digit(lower_hex_digit(v)),
        hex_digit_value(lower_hex_digit(v)) == v,
{
}

/// The spelling of `n` bytes is `2n` hexadecimal digits.
pub proof fn lemma_encode_is_hex(b: Seq<u8>)
    ensures
        encode_hex(b).len() == 2 * b.len(),
        all_hex_digits(encode_hex(b)),
{
    let s = encode_hex(b);
    assert forall|i: int| 0 <= i < s.len() implies is_hex_digit(#[trigger] s[i]) by {
        let x = b[i / 2] as int;
        lemma_lower_hex_digit(x / 16);
        lemma_lower_hex_digit(x % 16);
    }
}

/// Decoding undoes encoding: every byte string is read back from its
/// spelling.
pub proof fn lemma_decode_encode(b: Seq<u8>)
    ensures
        decode_hex(encode_hex(b)) == b,
{
    let s = encode_hex(b);
    let d = decode_hex(s);
    assert(d.len() == b.len());
    assert forall|i: int| 0 <= i < b.len() implies d[i] == b[i] by {
        let x = b[i] as int;
        lemma_lower_hex_digit(x / 16);
        lemma_lower_hex_digit(x % 16);
        assert((2 * i) % 2 == 0);
        assert((2 * i + 1) % 2 == 1);
        assert((2 * i) / 2 == i);
        assert((2 * i + 1) / 2 == i);
        assert(s[2 * i] == lower_hex_digit(x / 16));
        assert(s[2 * i + 1] == lower_hex_digit(x % 16));
        assert((x / 16) * 16 + x % 16 == x);
    }
    assert(d =~= b);
}

/// Two identifiers with the same bytes are the same identifier.
pub proof fn lemma_object_id_ext(a: ObjectId, b: ObjectId)
    requires
        a@ == b@,
    ensures
        a == b,
{
    assert(a.bytes =~= b.bytes);
}

/// An identifier survives the trip through its text form.
pub proof fn lemma_parse_to_hex_round_trip(id: ObjectId)
    ensures
        is_object_id_hex(encode_hex(id@)),
        decode_hex(encode_hex(id@)) == id@,
        parsed_object_id(encode_hex(id@)) == Some(id),
{
    lemma_encode_is_hex(id@);
    lemma_decode_encode(id@);
    lemma_object_id_ext(id, parsed_object_id(encode_hex(id@)).unwrap());
}

/// Two identifiers have the same text form only if they are the same.
pub proof fn law_text_form_is_unique(a: ObjectId, b: ObjectId)
    requires
        encode_hex(a@) == encode_hex(b@),
    ensures
        a == b,
{
    lemma_parse_to_hex_round_trip(a);
    lemma_parse_to_hex_round_trip(b);
}

} // verus!
