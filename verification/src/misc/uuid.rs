use vstd::prelude::*;
use vstd::string::StringExecFns;
use super::tools::concat2;
use super::error::fails_with;
use super::hash::hex_upper;
use super::hash::is_hex_char;
use super::hash::lemma_hex_upper;
use super::hash::lemma_hex_upper_distinct;
use super::error::ErrorView;
use super::Error;

verus! {

/// Identity of a library, a series or a tag: a 128-bit value.
#[derive(Debug, Clone, Copy, PartialEq, Eq, Structural, Hash, PartialOrd, Ord)]
pub struct Uuid(pub u128);

/// The `n` low bytes of `v`, most significant first.
pub open spec fn be_bytes(v: nat, n: nat) -> Seq<u8>
    decreases n,
{
    if n == 0 {
        Seq::<u8>::empty()
    } else {
        be_bytes(v / 256, (n - 1) as nat).push((v % 256) as u8)
    }
}

/// The 32 hexadecimal digits of a 128-bit identifier: its 16 bytes, most
/// significant first, two upper-case digits each.
pub open spec fn uuid_digits(value: u128) -> Seq<char> {
    hex_upper(be_bytes(value as nat, 16))
}

/// The text of a 128-bit identifier: its digits in groups of 8, 4, 4, 4
/// and 12 with a hyphen between the groups.
pub open spec fn uuid_text(value: u128) -> Seq<char> {
    let d = uuid_digits(value);
    d.subrange(0, 8) + seq!['-'] + d.subrange(8, 12) + seq!['-'] + d.subrange(12, 16) + seq!['-']
        + d.subrange(16, 20) + seq!['-'] + d.subrange(20, 32)
}

/// Whether `text` is the text of an identifier.
pub open spec fn is_uuid_text(text: Seq<char>) -> bool {
    exists|v: u128| text == #[trigger] uuid_text(v)
}

/// What reading an identifier gives for a text that is not the text of
/// an identifier as it is written here (lower-case digits, no hyphens, a
/// prefix, or no identifier at all): the value, or the reason the text
/// was turned down.
pub uninterp spec fn uuid_parse(text: Seq<char>) -> Result<u128, Seq<char>>;

/// What reading an identifier from `text` gives: for the text of an
/// identifier that identifier, and for any other text what `uuid_parse`
/// says.
pub open spec fn uuid_read(text: Seq<char>) -> Result<u128, Seq<char>> {
    if is_uuid_text(text) {
        Ok(choose|v: u128| text == #[trigger] uuid_text(v))
    } else {
        uuid_parse(text)
    }
}

/// `uuid::Uuid::new_v4`: a fresh random identifier. Nothing is claimed of
/// the value.
#[verifier::external_body]
fn random_uuid_value() -> u128 {
    uuid::Uuid::new_v4().as_u128()
}

/// `uuid::adapter::Hyphenated::encode_upper`: the 16 bytes of `value`,
/// most significant first, as two upper-case hexadecimal digits each, in
/// groups of 8, 4, 4, 4 and 12 digits with a hyphen between the groups.
#[verifier::external_body]
fn format_uuid(value: u128) -> (r: String)
    ensures
        r@ == uuid_text(value),
{
    let mut buffer = uuid::Uuid::encode_buffer();
    uuid::Uuid::from_u128(value).to_hyphenated().encode_upper(&mut buffer).to_string()
}

/// `uuid::Uuid::parse_str`: reads an identifier from text. The text of an
/// identifier, as `encode_upper` writes it, gives that identifier back.
/// For any other text both the value and the message of a refusal depend
/// on the text alone.
#[verifier::external_body]
fn parse_uuid(s: &str) -> (r: Result<u128, String>)
    ensures
        match r {
            Ok(v) => if is_uuid_text(s@) {
                s@ == uuid_text(v)
            } else {
                uuid_parse(s@) == Ok::<u128, Seq<char>>(v)
            },
            Err(m) => !is_uuid_text(s@) && uuid_parse(s@) == Err::<u128, Seq<char>>(m@),
        },
{
    match uuid::Uuid::parse_str(s) {
        Ok(u) => Ok(u.as_u128()),
        Err(e) => Err(e.to_string()),
    }
}

/// The number of values that `n` bytes can hold.
pub open spec fn byte_range(n: nat) -> nat
    decreases n,
{
    if n == 0 {
        1
    } else {
        256 * byte_range((n - 1) as nat)
    }
}

proof fn lemma_be_bytes_len(v: nat, n: nat)
    ensures
        be_bytes(v, n).len() == n,
    decreases n,
{
    if n > 0 {
        lemma_be_bytes_len(v / 256, (n - 1) as nat);
    }
}

proof fn lemma_be_bytes_distinct(a: nat, b: nat, n: nat)
    requires
        a < byte_range(n),
        b < byte_range(n),
        be_bytes(a, n) == be_bytes(b, n),
    ensures
        a == b,
    decreases n,
{
    if n > 0 {
        let pa = be_bytes(a / 256, (n - 1) as nat);
        let pb = be_bytes(b / 256, (n - 1) as nat);
        assert(be_bytes(a, n).drop_last() =~= pa);
        assert(be_bytes(b, n).drop_last() =~= pb);
        assert(be_bytes(a, n).last() == (a % 256) as u8);
        assert(be_bytes(b, n).last() == (b % 256) as u8);
        lemma_be_bytes_distinct(a / 256, b / 256, (n - 1) as nat);
    }
}

proof fn lemma_byte_range_16()
    ensures
        byte_range(16) == 0x1_0000_0000_0000_0000_0000_0000_0000_0000,
{
    assert(byte_range(0) == 1);
    assert(byte_range(1) == 0x100);
    assert(byte_range(2) == 0x1_0000);
    assert(byte_range(3) == 0x100_0000);
    assert(byte_range(4) == 0x1_0000_0000);
    assert(byte_range(5) == 0x100_0000_0000);
    assert(byte_range(6) == 0x1_0000_0000_0000);
    assert(byte_range(7) == 0x100_0000_0000_0000);
    assert(byte_range(8) == 0x1_0000_0000_0000_0000);
    assert(byte_range(9) == 0x100_0000_0000_0000_0000);
    assert(byte_range(10) == 0x1_0000_0000_0000_0000_0000);
    assert(byte_range(11) == 0x100_0000_0000_0000_0000_0000);
    assert(byte_range(12) == 0x1_0000_0000_0000_0000_0000_0000);
    assert(byte_range(13) == 0x100_0000_0000_0000_0000_0000_0000);
    assert(byte_range(14) == 0x1_0000_0000_0000_0000_0000_0000_0000);
    assert(byte_range(15) == 0x100_0000_0000_0000_0000_0000_0000_0000);
}

/// The text of an identifier has 36 characters: hyphens at the positions
/// 8, 13, 18 and 23, and upper-case hexadecimal digits everywhere else.
pub proof fn law_uuid_text_shape(value: u128)
    ensures
        uuid_text(value).len() == 36,
        forall|i: int|
            0 <= i < 36 ==> if i == 8 || i == 13 || i == 18 || i == 23 {
                #[trigger] uuid_text(value)[i] == '-'
            } else {
                is_hex_char(uuid_text(value)[i])
            },
{
    let d = uuid_digits(value);
    lemma_be_bytes_len(value as nat, 16);
    lemma_hex_upper(be_bytes(value as nat, 16));
    let t = uuid_text(value);
    assert(t.len() == 36);
    assert forall|i: int| 0 <= i < 36 implies if i == 8 || i == 13 || i == 18 || i == 23 {
        #[trigger] t[i] == '-'
    } else {
        is_hex_char(t[i])
    } by {
        if i < 8 {
            assert(t[i] == d[i]);
        } else if i == 8 {
        } else if i < 13 {
            assert(t[i] == d[i - 1]);
        } else if i == 13 {
        } else if i < 18 {
            assert(t[i] == d[i - 2]);
        } else if i == 18 {
        } else if i < 23 {
            assert(t[i] == d[i - 3]);
        } else if i == 23 {
        } else {
            assert(t[i] == d[i - 4]);
        }
    }
}

/// Different identifiers have different texts.
pub proof fn law_uuid_text_distinct(a: u128, b: u128)
    requires
        uuid_text(a) == uuid_text(b),
    ensures
        a == b,
{
    let da = uuid_digits(a);
    let db = uuid_digits(b);
    let ta = uuid_text(a);
    let tb = uuid_text(b);
    lemma_be_bytes_len(a as nat, 16);
    lemma_be_bytes_len(b as nat, 16);
    lemma_hex_upper(be_bytes(a as nat, 16));
    lemma_hex_upper(be_bytes(b as nat, 16));
    assert(da =~= ta.subrange(0, 8) + ta.subrange(9, 13) + ta.subrange(14, 18) + ta.subrange(19, 23)
        + ta.subrange(24, 36));
    assert(db =~= tb.subrange(0, 8) + tb.subrange(9, 13) + tb.subrange(14, 18) + tb.subrange(19, 23)
        + tb.subrange(24, 36));
    lemma_hex_upper_distinct(be_bytes(a as nat, 16), be_bytes(b as nat, 16));
    lemma_byte_range_16();
    lemma_be_bytes_distinct(a as nat, b as nat, 16);
}

/// The text of an identifier reads back as that identifier.
pub proof fn law_uuid_round_trip(value: u128)
    ensures
        is_uuid_text(uuid_text(value)),
        uuid_read(uuid_text(value)) == Ok::<u128, Seq<char>>(value),
        uuid_from_parsed(uuid_text(value), uuid_read(uuid_text(value))) == Ok::<Uuid, ErrorView>(
            Uuid(value),
        ),
{
    let text = uuid_text(value);
    assert(is_uuid_text(text));
    let v = choose|v: u128| text == #[trigger] uuid_text(v);
    law_uuid_text_distinct(v, value);
    law_uuid_text_shape(value);
}

impl View for Uuid {
    type V = u128;

    open spec fn view(&self) -> u128 {
        self.0
    }
}

/// What reading an identifier from `text` comes to, given the outcome of
/// the reading itself: empty text is `NotMatch`, a refusal is `Other` with
/// the reason, anything else is the identifier.
pub open spec fn uuid_from_parsed(text: Seq<char>, parsed: Result<u128, Seq<char>>) -> Result<
    Uuid,
    ErrorView,
> {
    if text.len() == 0 {
        Err(ErrorView::NotMatch("Uuid format"@))
    } else {
        match parsed {
            Ok(v) => Ok(Uuid(v)),
            Err(m) => Err(ErrorView::Other("UUID error: "@ + m)),
        }
    }
}

/// Whether `r` is what `expected` says: the same identifier, or a failure
/// with the same error.
pub open spec fn uuid_result_is(r: Result<Uuid, Error>, expected: Result<Uuid, ErrorView>) -> bool {
    match expected {
        Ok(u) => r == Ok::<Uuid, Error>(u),
        Err(e) => fails_with(r, e),
    }
}

impl Uuid {
    /// The identifier as text: 36 characters, the 32 upper-case
    /// hexadecimal digits of its 16 bytes in groups of 8, 4, 4, 4 and 12
    /// with hyphens between.
    pub fn to_string(&self) -> (r: String)
        ensures
            r@ == uuid_text(self@),
            r@.len() == 36,
    {
        proof {
            law_uuid_text_shape(self.0);
        }
        format_uuid(self.0)
    }

    /// A fresh random identifier.
    pub fn new_v4() -> Uuid {
        Uuid(random_uuid_value())
    }

    /// Turns the outcome of reading `text` into the library's result: empty
    /// text is `NotMatch("Uuid format")`, a refusal is `Other` with the
    /// reason, anything else is the identifier.
    pub fn from_parsed(text: &str, parsed: Result<u128, String>) -> (r: Result<Uuid, Error>)
        ensures
            uuid_result_is(
                r,
                uuid_from_parsed(
                    text@,
                    match parsed {
                        Ok(v) => Ok(v),
                        Err(m) => Err(m@),
                    },
                ),
            ),
    {
        if text.unicode_len() == 0 {
            return Err(Error::NotMatch(String::from_str("Uuid format")));
        }
        match parsed {
            Ok(v) => Ok(Uuid(v)),
            Err(m) => Err(Error::Other(concat2("UUID error: ", m.as_str()))),
        }
    }

    /// Reads an identifier from text. The text that `to_string` gives
    /// reads back as the identifier it came from.
    pub fn parse_str(text: &str) -> (r: Result<Uuid, Error>)
        ensures
            uuid_result_is(r, uuid_from_parsed(text@, uuid_read(text@))),
            forall|v: u128| text@ == #[trigger] uuid_text(v) ==> r == Ok::<Uuid, Error>(Uuid(v)),
    {
        let parsed = parse_uuid(text);
        proof {
            if is_uuid_text(text@) {
                let v = choose|v: u128| text@ == #[trigger] uuid_text(v);
                law_uuid_text_distinct(v, parsed->Ok_0);
            }
            assert forall|v: u128| text@ == #[trigger] uuid_text(v) implies parsed == Ok::<
                u128,
                String,
            >(v) by {
                law_uuid_text_distinct(v, parsed->Ok_0);
                law_uuid_text_shape(v);
            }
        }
        Uuid::from_parsed(text, parsed)
    }
}

impl std::str::FromStr for Uuid {
    type Err = Error;

    /// Reads an identifier from text, as `parse_str` does.
    fn from_str(s: &str) -> (r: Result<Uuid, Error>)
        ensures
            uuid_result_is(r, uuid_from_parsed(s@, uuid_read(s@))),
    {
        Uuid::parse_str(s)
    }
}

} // verus!
