//! Custom ids: the text that Discord hands back when a button, select menu
//! or modal is used. It holds the uuid of the handler and its encoded state.

use vstd::prelude::*;
use vstd::arithmetic::power::pow;
use vstd::utf8::encode_utf8;

use crate::text::{append_str, chars_of, find_char, slice_chars, string_of};

verus! {

/// What `base91::slice_encode` gives for `data`.
pub uninterp spec fn base91_encode(data: Seq<u8>) -> Seq<u8>;

/// What `base91::slice_decode` gives for `data`.
pub uninterp spec fn base91_decode(data: Seq<u8>) -> Seq<u8>;

/// The bytes of the canonical base91 alphabet: ASCII letters, digits and
/// `!#$%&()*+,./:;<=>?@[]^_`{|}~"`. No space is among them.
pub open spec fn base91_alphabet(b: u8) -> bool {
    ||| 0x41 <= b <= 0x5a
    ||| 0x61 <= b <= 0x7a
    ||| 0x30 <= b <= 0x39
    ||| b == 0x21 || b == 0x23 || b == 0x24 || b == 0x25 || b == 0x26 || b == 0x28 || b == 0x29
    ||| b == 0x2a || b == 0x2b || b == 0x2c || b == 0x2e || b == 0x2f || b == 0x3a || b == 0x3b
    ||| b == 0x3c || b == 0x3d || b == 0x3e || b == 0x3f || b == 0x40 || b == 0x5b || b == 0x5d
    ||| b == 0x5e || b == 0x5f || b == 0x60 || b == 0x7b || b == 0x7c || b == 0x7d || b == 0x7e
    ||| b == 0x22
}

/// `base91::slice_encode`: encodes `value` with the canonical alphabet.
///
/// Trusted: the result is named; every byte of it is in the alphabet (the
/// encoder writes only entries of its `ENCODE_MAP`); and decoding it gives
/// `value` back, as the crate's documentation and tests show. The encoder
/// reserves `value.len() * 13 / 10` bytes first, so longer values are left
/// out.
#[verifier::external_body]
fn base91_slice_encode(value: &[u8]) -> (r: Vec<u8>)
    requires
        value@.len() * 13 <= usize::MAX,
    ensures
        r@ == base91_encode(value@),
        base91_decode(r@) == value@,
        forall|i: int| 0 <= i < r@.len() ==> base91_alphabet(#[trigger] r@[i]),
{
    base91::slice_encode(value)
}

/// `base91::slice_decode`: decodes `value`, skipping bytes outside the alphabet.
///
/// Trusted: the result is named and depends on `value` alone.
#[verifier::external_body]
fn base91_slice_decode(value: &[u8]) -> (r: Vec<u8>)
    ensures
        r@ == base91_decode(value@),
{
    base91::slice_decode(value)
}

/// The characters of an ASCII byte sequence.
pub open spec fn ascii_text(bytes: Seq<u8>) -> Seq<char> {
    bytes.map_values(|b: u8| b as char)
}

/// The text of the state `state` in a custom id.
pub open spec fn encoded_state(state: Seq<u8>) -> Seq<char> {
    ascii_text(base91_encode(state))
}

/// Encodes `state` (the serialized state of an interaction) as text that may
/// stand in a custom id.
///
/// The text holds no space, and [`custom_id_decode`] gives `state` back.
pub fn custom_id_encode(state: &[u8]) -> (r: String)
    requires
        state@.len() * 13 <= usize::MAX,
    ensures
        r@ == encoded_state(state@),
        !r@.contains(' '),
        base91_decode(encode_utf8(r@)) == state@,
{
    let encoded = base91_slice_encode(state);
    let mut chars: Vec<char> = Vec::new();
    let mut i: usize = 0;
    while i < encoded.len()
        invariant
            i <= encoded@.len(),
            chars@ == ascii_text(encoded@.subrange(0, i as int)),
            forall|k: int| 0 <= k < encoded@.len() ==> base91_alphabet(#[trigger] encoded@[k]),
        decreases encoded@.len() - i,
    {
        let b = encoded[i];
        assert(base91_alphabet(encoded@[i as int]));
        chars.push(b as char);
        i += 1;
        assert(chars@ =~= ascii_text(encoded@.subrange(0, i as int)));
    }
    assert(encoded@.subrange(0, encoded@.len() as int) =~= encoded@);
    let r = string_of(chars.as_slice());
    proof {
        let t = r@;
        assert forall|k: int| 0 <= k < t.len() implies t[k] != ' ' && '\0' <= #[trigger] t[k] <= '\u{7f}' by {
            assert(base91_alphabet(encoded@[k]));
        }
        assert(!t.contains(' '));
        vstd::utf8::is_ascii_chars_encode_utf8(t);
        assert(encode_utf8(t) =~= encoded@) by {
            assert forall|k: int| 0 <= k < t.len() implies encode_utf8(t)[k] == encoded@[k] by {
                assert(t[k] as u8 == encoded@[k]) by {
                    assert(base91_alphabet(encoded@[k]));
                }
            }
        }
    }
    r
}

/// Decodes the state text of a custom id into the serialized state.
pub fn custom_id_decode(custom_id: &str) -> (r: Vec<u8>)
    ensures
        r@ == base91_decode(encode_utf8(custom_id@)),
{
    base91_slice_decode(custom_id.as_bytes())
}

/// The lowercase hexadecimal digit of `d` (`0 <= d < 16`).
pub open spec fn hex_digit(d: int) -> char {
    if d < 10 {
        (48 + d) as char
    } else {
        (87 + d) as char
    }
}

/// The simple text form of a uuid: its 32 hexadecimal digits in lowercase,
/// most significant first.
pub open spec fn uuid_simple_text(id: u128) -> Seq<char> {
    Seq::new(32, |i: int| hex_digit((id as int / pow(16, (31 - i) as nat)) % 16))
}

/// What `uuid::Uuid::parse_str` gives for `text`, as a number.
pub uninterp spec fn uuid_parse(text: Seq<char>) -> Option<u128>;

/// `uuid::Uuid::simple` of the uuid with the value `id`, as text.
///
/// Trusted: the text is the 32 lowercase hex digits of `id`, most
/// significant first, as the crate's `format_simple` writes them.
#[verifier::external_body]
pub(crate) fn uuid_simple(id: u128) -> (r: String)
    ensures
        r@ == uuid_simple_text(id),
{
    uuid::Uuid::from_u128(id).simple().to_string()
}

/// `uuid::Uuid::parse_str`, as a number.
///
/// Trusted: the result is named; the simple form of a uuid parses back to
/// it, as the documentation promises of every form the crate writes.
#[verifier::external_body]
fn uuid_parse_str(text: &str) -> (r: Option<u128>)
    ensures
        r == uuid_parse(text@),
        forall|id: u128| text@ == #[trigger] uuid_simple_text(id) ==> r == Some(id),
{
    match uuid::Uuid::parse_str(text) {
        Ok(id) => Some(id.as_u128()),
        Err(_) => None,
    }
}

/// `uuid::Uuid::new_v4`, as a number.
///
/// Trusted: the result is random; only its version field, the four bits
/// from bit 76 on, is fixed, to 4, and its variant field, the two bits from
/// bit 62 on, to 0b10, as the crate's source masks them.
#[verifier::external_body]
pub(crate) fn uuid_new_v4() -> (r: u128)
    ensures
        (r >> 76u128) & 0xfu128 == 4,
        (r >> 62u128) & 0x3u128 == 2,
{
    uuid::Uuid::new_v4().as_u128()
}

/// A hexadecimal digit is no space.
proof fn lemma_hex_digit_not_space(d: int)
    requires
        0 <= d < 16,
    ensures
        hex_digit(d) != ' ',
{
}

/// The simple form of a uuid holds no space.
pub proof fn lemma_uuid_text_has_no_space(id: u128)
    ensures
        !uuid_simple_text(id).contains(' '),
{
    let t = uuid_simple_text(id);
    assert forall|i: int| 0 <= i < t.len() implies t[i] != ' ' by {
        let p = pow(16, (31 - i) as nat);
        vstd::arithmetic::power::lemma_pow_positive(16, (31 - i) as nat);
        let d = (id as int / p) % 16;
        vstd::arithmetic::div_mod::lemma_mod_bound(id as int / p, 16);
        lemma_hex_digit_not_space(d);
    }
}

/// The text of a custom id: the handler's uuid in simple form, a space, and
/// the encoded state.
pub open spec fn custom_id_text(id: u128, state_text: Seq<char>) -> Seq<char> {
    uuid_simple_text(id) + seq![' '] + state_text
}

/// The custom id for the handler `id` with the serialized state `state`.
pub fn custom_id_for(id: u128, state: &[u8]) -> (r: String)
    requires
        state@.len() * 13 <= usize::MAX,
    ensures
        r@ == custom_id_text(id, encoded_state(state@)),
{
    let uuid_text = uuid_simple(id);
    let encoded = custom_id_encode(state);
    let mut chars = chars_of(uuid_text.as_str());
    chars.push(' ');
    let mut rest = chars_of(encoded.as_str());
    chars.append(&mut rest);
    string_of(chars.as_slice())
}

/// Why a custom id could not be read.
#[derive(Debug, Clone, PartialEq, Eq)]
pub enum CustomIdError {
    /// The custom id holds no space.
    Invalid { custom_id: String },
    /// The text before the first space is no uuid.
    InvalidUuid { uuid: String },
}

/// Reads the handler's uuid and the state text from a custom id: they are
/// the text before and after its first space.
///
/// A custom id written by [`custom_id_for`] gives back its uuid and the
/// encoded state.
pub fn parse_custom_id(custom_id: &str) -> (r: Result<(u128, String), CustomIdError>)
    ensures
        match r {
            Ok((id, state)) => {
                &&& custom_id@.contains(' ')
                &&& exists|i: int|
                    0 <= i < custom_id@.len() && custom_id@[i] == ' ' && !custom_id@.subrange(0, i).contains(' ')
                        && uuid_parse(custom_id@.subrange(0, i)) == Some(id)
                        && state@ == custom_id@.subrange(i + 1, custom_id@.len() as int)
            },
            Err(CustomIdError::Invalid { custom_id: c }) => !custom_id@.contains(' ') && c@ == custom_id@,
            Err(CustomIdError::InvalidUuid { uuid }) => {
                &&& custom_id@.contains(' ')
                &&& !uuid@.contains(' ')
                &&& custom_id@ == uuid@ + seq![' '] + custom_id@.subrange(uuid@.len() + 1int, custom_id@.len() as int)
                &&& uuid_parse(uuid@) is None
            },
        },
        forall|id: u128, state_text: Seq<char>|
            custom_id@ == #[trigger] custom_id_text(id, state_text) ==> r == Ok::<(u128, String), CustomIdError>((id, r->Ok_0.1)) && r->Ok_0.1@ == state_text,
{
    let chars = chars_of(custom_id);
    let slice = chars.as_slice();
    let n = slice.len();
    match find_char(slice, ' ') {
        None => {
            assert forall|id: u128, state_text: Seq<char>| custom_id@ != #[trigger] custom_id_text(id, state_text) by {
                let t = custom_id_text(id, state_text);
                assert(t[uuid_simple_text(id).len() as int] == ' ');
            }
            Err(CustomIdError::Invalid { custom_id: string_of(slice) })
        },
        Some(i) => {
            let uuid_chars = slice_chars(slice, 0, i);
            let state_chars = slice_chars(slice, i + 1, n);
            let uuid_text = string_of(uuid_chars.as_slice());
            let state = string_of(state_chars.as_slice());
            proof {
                assert(custom_id@.contains(' ')) by {
                    assert(custom_id@[i as int] == ' ');
                }
                assert(!uuid_text@.contains(' '));
                assert forall|id: u128, state_text: Seq<char>|
                    custom_id@ == #[trigger] custom_id_text(id, state_text) implies uuid_text@ == uuid_simple_text(id) && state@ == state_text by {
                    let u = uuid_simple_text(id);
                    lemma_uuid_text_has_no_space(id);
                    if (i as int) < u.len() {
                        assert(custom_id@[i as int] == u[i as int]);
                    }
                    if (i as int) > u.len() {
                        assert(uuid_text@[u.len() as int] == ' ');
                    }
                    assert(uuid_text@ =~= u);
                    assert(state@ =~= state_text);
                }
            }
            match uuid_parse_str(uuid_text.as_str()) {
                Some(id) => Ok((id, state)),
                None => {
                    assert(custom_id@ =~= uuid_text@ + seq![' '] + custom_id@.subrange(uuid_text@.len() + 1int, custom_id@.len() as int));
                    Err(CustomIdError::InvalidUuid { uuid: uuid_text })
                },
            }
        },
    }
}

/// The id under which a handler is known: a uuid that is not nil.
#[derive(Debug, Clone, Copy, PartialEq, Eq)]
pub struct CustomId {
    id: u128,
}

impl View for CustomId {
    type V = u128;

    closed spec fn view(&self) -> u128 {
        self.id
    }
}

impl CustomId {
    #[verifier::type_invariant]
    spec fn not_nil(self) -> bool {
        self.id != 0
    }

    /// A fresh random id: a version 4 uuid of the RFC 4122 variant.
    pub fn new() -> (r: CustomId)
        ensures
            (r@ >> 76u128) & 0xfu128 == 4,
            (r@ >> 62u128) & 0x3u128 == 2,
            r@ != 0,
    {
        let id = uuid_new_v4();
        assert(id != 0) by (bit_vector)
            requires
                (id >> 76u128) & 0xfu128 == 4,
        ;
        CustomId { id }
    }

    /// The id with the value `id`, unless `id` is the nil uuid.
    pub fn from_value(id: u128) -> (r: Option<CustomId>)
        ensures
            r is Some <==> id != 0,
            r matches Some(c) ==> c@ == id,
    {
        if id == 0 {
            None
        } else {
            Some(CustomId { id })
        }
    }

    /// The value of this id, which is never nil.
    pub fn value(&self) -> (r: u128)
        ensures
            r == self@,
            r != 0,
    {
        proof {
            use_type_invariant(self);
        }
        self.id
    }
}

/// How a handler gets its custom id.
#[derive(Debug, Clone, Copy, PartialEq, Eq)]
pub enum CustomIdAssignment {
    /// A fresh id each time the bot starts, so that interactions from before
    /// a restart stop working.
    OnStart,
    /// The same id across restarts, so that earlier interactions keep working.
    Fixed(CustomId),
}

impl CustomIdAssignment {
    /// The id this assignment gives.
    pub fn get(self) -> (r: CustomId)
        ensures
            match self {
                CustomIdAssignment::OnStart => (r@ >> 76u128) & 0xfu128 == 4,
                CustomIdAssignment::Fixed(c) => r == c,
            },
    {
        match self {
            CustomIdAssignment::OnStart => CustomId::new(),
            CustomIdAssignment::Fixed(custom_id) => custom_id,
        }
    }
}


/// The hyphenated text form of a uuid: its hexadecimal digits in groups of
/// 8, 4, 4, 4 and 12, separated by hyphens.
pub open spec fn uuid_hyphenated_text(id: u128) -> Seq<char> {
    let s = uuid_simple_text(id);
    s.subrange(0, 8) + seq!['-'] + s.subrange(8, 12) + seq!['-'] + s.subrange(12, 16) + seq!['-']
        + s.subrange(16, 20) + seq!['-'] + s.subrange(20, 32)
}

/// The hyphenated text of the uuid with the value `id`, as uuids are shown.
pub fn uuid_hyphenated(id: u128) -> (r: String)
    ensures
        r@ == uuid_hyphenated_text(id),
{
    let simple = chars_of(uuid_simple(id).as_str());
    let mut chars = slice_chars(simple.as_slice(), 0, 8);
    chars.push('-');
    let mut part = slice_chars(simple.as_slice(), 8, 12);
    chars.append(&mut part);
    chars.push('-');
    let mut part = slice_chars(simple.as_slice(), 12, 16);
    chars.append(&mut part);
    chars.push('-');
    let mut part = slice_chars(simple.as_slice(), 16, 20);
    chars.append(&mut part);
    chars.push('-');
    let mut part = slice_chars(simple.as_slice(), 20, 32);
    chars.append(&mut part);
    assert(chars@ =~= uuid_hyphenated_text(id));
    string_of(chars.as_slice())
}

impl CustomIdError {
    /// The message of this error.
    pub fn message(&self) -> (r: String)
        ensures
            r@ == match self {
                CustomIdError::Invalid { custom_id } => "invalid custom_id: "@ + custom_id@,
                CustomIdError::InvalidUuid { uuid } => "invalid custom_id uuid: "@ + uuid@,
            },
    {
        let mut chars: Vec<char> = Vec::new();
        match self {
            CustomIdError::Invalid { custom_id } => {
                append_str(&mut chars, "invalid custom_id: ");
                append_str(&mut chars, custom_id.as_str());
            },
            CustomIdError::InvalidUuid { uuid } => {
                append_str(&mut chars, "invalid custom_id uuid: ");
                append_str(&mut chars, uuid.as_str());
            },
        }
        string_of(chars.as_slice())
    }
}

} // verus!
