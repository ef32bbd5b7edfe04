use vstd::prelude::*;

use vstd::arithmetic::div_mod::{lemma_fundamental_div_mod_converse, lemma_mod_breakdown};
use vstd::string::*;

use crate::error::NebulaError;
use crate::text::{digit_char, digit_value, is_digit, owned};

verus! {

/// A hexadecimal digit in lower case.
pub open spec fn is_lower_hex(c: char) -> bool {
    is_digit(c) || c == 'a' || c == 'b' || c == 'c' || c == 'd' || c == 'e' || c == 'f'
}

/// A hexadecimal digit in either case.
pub open spec fn is_hex(c: char) -> bool {
    is_lower_hex(c) || c == 'A' || c == 'B' || c == 'C' || c == 'D' || c == 'E' || c == 'F'
}

/// Value of a hexadecimal digit.
pub open spec fn hex_value_of(c: char) -> nat {
    if is_digit(c) {
        digit_value(c) as nat
    } else if c == 'a' || c == 'A' {
        10
    } else if c == 'b' || c == 'B' {
        11
    } else if c == 'c' || c == 'C' {
        12
    } else if c == 'd' || c == 'D' {
        13
    } else if c == 'e' || c == 'E' {
        14
    } else {
        15
    }
}

/// The lower-case hexadecimal digit for `d`, which is below sixteen.
pub open spec fn lower_hex_char(d: nat) -> char {
    if d < 10 {
        digit_char(d as int)
    } else if d == 10 {
        'a'
    } else if d == 11 {
        'b'
    } else if d == 12 {
        'c'
    } else if d == 13 {
        'd'
    } else if d == 14 {
        'e'
    } else {
        'f'
    }
}

/// The value of a string of hexadecimal digits, most significant first.
pub open spec fn hex_number(s: Seq<char>) -> nat
    decreases s.len(),
{
    if s.len() == 0 {
        0
    } else {
        hex_number(s.drop_last()) * 16 + hex_value_of(s.last())
    }
}

/// The `n` lowest hexadecimal digits of `v`, lower case, most significant first.
pub open spec fn hex_digits(v: nat, n: nat) -> Seq<char>
    decreases n,
{
    if n == 0 {
        Seq::empty()
    } else {
        hex_digits(v / 16, (n - 1) as nat).push(lower_hex_char(v % 16))
    }
}

/// Positions of the four hyphens in the 36-character form.
pub open spec fn is_hyphen_position(i: int) -> bool {
    i == 8 || i == 13 || i == 18 || i == 23
}

/// Groups 32 digits as 8-4-4-4-12 with hyphens between.
pub open spec fn hyphenate(h: Seq<char>) -> Seq<char> {
    h.subrange(0, 8) + seq!['-'] + h.subrange(8, 12) + seq!['-'] + h.subrange(12, 16) + seq!['-']
        + h.subrange(16, 20) + seq!['-'] + h.subrange(20, 32)
}

/// The 32 digits of a hyphenated form, hyphens left out.
pub open spec fn unhyphenate(s: Seq<char>) -> Seq<char> {
    s.subrange(0, 8) + s.subrange(9, 13) + s.subrange(14, 18) + s.subrange(19, 23) + s.subrange(
        24,
        36,
    )
}

/// The hyphenated form `xxxxxxxx-xxxx-xxxx-xxxx-xxxxxxxxxxxx` with hex digits of either case.
pub open spec fn is_hyphenated_uuid(s: Seq<char>) -> bool {
    &&& s.len() == 36
    &&& forall|i: int|
        0 <= i < 36 ==> if is_hyphen_position(i) {
            #[trigger] s[i] == '-'
        } else {
            is_hex(s[i])
        }
}

/// The hyphenated form with lower-case hex digits only.
pub open spec fn is_lower_hyphenated_uuid(s: Seq<char>) -> bool {
    &&& s.len() == 36
    &&& forall|i: int|
        0 <= i < 36 ==> if is_hyphen_position(i) {
            #[trigger] s[i] == '-'
        } else {
            is_lower_hex(s[i])
        }
}

/// The canonical text of a 128-bit identifier: lower-case hyphenated hex.
pub open spec fn uuid_text(v: nat) -> Seq<char> {
    hyphenate(hex_digits(v, 32))
}

/// A version-4 UUID value: version nibble 4 and the RFC 4122 variant bits `10`.
pub open spec fn is_v4(v: u128) -> bool {
    (v >> 76u128) & 0xfu128 == 4 && (v >> 62u128) & 3u128 == 2
}

/// Relies on uuid::Uuid::new_v4: a fresh random UUID, taken as its 128-bit value, whose
/// version and variant bits `new_v4` sets.
#[verifier::external_body]
fn random_uuid() -> (r: u128)
    ensures
        is_v4(r),
{
    uuid::Uuid::new_v4().as_u128()
}

/// The byte lengths `Uuid::parse_str` may accept: simple, hyphenated, braced and URN forms.
pub open spec fn uuid_text_length(n: nat) -> bool {
    n == 32 || n == 36 || n == 38 || n == 45
}

/// Relies on uuid::Uuid::parse_str: a 36-character hyphenated UUID of hex digits (either
/// case) is accepted, and Uuid::as_u128 reads its digits most significant first; text of
/// any other byte length than those of the four forms is refused.
#[verifier::external_body]
fn parse_uuid(s: &str) -> (r: Result<u128, uuid::Error>)
    ensures
        is_hyphenated_uuid(s@) ==> r is Ok && r->Ok_0 as nat == hex_number(unhyphenate(s@)),
        !uuid_text_length(s.spec_bytes().len()) ==> r is Err,
{
    uuid::Uuid::parse_str(s).map(|u| u.as_u128())
}

/// Relies on the Display impl of uuid::Uuid: the lower-case hyphenated form of
/// Uuid::from_u128(v), whose digits are those of `v`, most significant first.
#[verifier::external_body]
fn uuid_to_text(v: u128) -> (r: String)
    ensures
        r@ == uuid_text(v as nat),
{
    uuid::Uuid::from_u128(v).to_string()
}

/// uuid::Error, the parse error of `Uuid::parse_str`, carried opaque.
#[verifier::external_type_specification]
#[verifier::external_body]
pub struct ExUuidError(uuid::Error);

/// Globally unique identifier of a task (128 bits, UUID version 4).
#[derive(Debug, Clone, Copy, PartialEq, Eq, Hash, Structural)]
pub struct TaskId(pub u128);

impl TaskId {
    /// A fresh random identifier (UUID version 4).
    pub fn new() -> (r: TaskId)
        ensures
            is_v4(r.0),
    {
        TaskId(random_uuid())
    }

    /// Parses the hyphenated text form; any text that names no identifier is reported as an
    /// unknown task.
    pub fn from_string(s: &str) -> (r: Result<TaskId, NebulaError>)
        ensures
            is_hyphenated_uuid(s@) ==> r is Ok && r->Ok_0.0 as nat == hex_number(unhyphenate(s@)),
            !uuid_text_length(s.spec_bytes().len()) ==> r is Err,
            r is Err ==> r->Err_0 is TaskNotFound && r->Err_0->TaskNotFound_0@ == s@,
    {
        match parse_uuid(s) {
            Ok(v) => Ok(TaskId(v)),
            Err(_) => {
                Err(NebulaError::TaskNotFound(owned(s)))
            },
        }
    }

    /// The lower-case hyphenated text form.
    pub fn to_string(&self) -> (r: String)
        ensures
            r@ == uuid_text(self.0 as nat),
    {
        uuid_to_text(self.0)
    }

    /// The first eight characters of the text form.
    pub fn short(&self) -> (r: String)
        ensures
            r@ == uuid_text(self.0 as nat).subrange(0, 8),
    {
        let full = self.to_string();
        proof {
            lemma_hex_digits_len(self.0 as nat, 32);
        }
        let s = full.as_str().substring_char(0, 8);
        owned(s)
    }
}

impl Default for TaskId {
    fn default() -> (r: TaskId)
        ensures
            is_v4(r.0),
    {
        TaskId::new()
    }
}

/// Rendering the identifier parsed from a lower-case hyphenated text gives that text back:
/// `TaskId::to_string` after `TaskId::from_string` is the identity on such input.
pub proof fn lemma_task_id_text_round_trip(s: Seq<char>)
    requires
        is_lower_hyphenated_uuid(s),
    ensures
        is_hyphenated_uuid(s),
        uuid_text(hex_number(unhyphenate(s))) == s,
{
    assert forall|i: int| 0 <= i < 36 implies if is_hyphen_position(i) {
        #[trigger] s[i] == '-'
    } else {
        is_hex(s[i])
    } by {}
    lemma_hyphenate_unhyphenate(s);
    lemma_hex_digits_of_number(unhyphenate(s));
}

/// The digit rendered from the value of a lower-case hex digit is that digit.
proof fn lemma_lower_hex_char_value(c: char)
    requires
        is_lower_hex(c),
    ensures
        hex_value_of(c) < 16,
        lower_hex_char(hex_value_of(c)) == c,
{
}

/// Rendering the value of `n` lower-case hex digits with `n` digits gives them back.
proof fn lemma_hex_digits_of_number(s: Seq<char>)
    requires
        forall|i: int| 0 <= i < s.len() ==> is_lower_hex(#[trigger] s[i]),
    ensures
        hex_digits(hex_number(s), s.len()) == s,
    decreases s.len(),
{
    if s.len() > 0 {
        let p = s.drop_last();
        assert forall|i: int| 0 <= i < p.len() implies is_lower_hex(#[trigger] p[i]) by {
            assert(p[i] == s[i]);
        }
        lemma_hex_digits_of_number(p);
        let c = s[s.len() - 1];
        lemma_lower_hex_char_value(c);
        let d = hex_value_of(c);
        let v = hex_number(s);
        assert(v == hex_number(p) * 16 + d);
        lemma_fundamental_div_mod_converse(v as int, 16, hex_number(p) as int, d as int);
        assert(s =~= p.push(c));
    }
}

/// Hyphenating the digits of a hyphenated text gives the text back.
proof fn lemma_hyphenate_unhyphenate(s: Seq<char>)
    requires
        is_lower_hyphenated_uuid(s),
    ensures
        unhyphenate(s).len() == 32,
        forall|i: int| 0 <= i < 32 ==> is_lower_hex(#[trigger] unhyphenate(s)[i]),
        hyphenate(unhyphenate(s)) == s,
{
    let u = unhyphenate(s);
    assert(u.len() == 32);
    assert forall|i: int| 0 <= i < 32 implies #[trigger] u[i] == s[if i < 8 {
        i
    } else if i < 12 {
        i + 1
    } else if i < 16 {
        i + 2
    } else if i < 20 {
        i + 3
    } else {
        i + 4
    }] by {}
    assert forall|i: int| 0 <= i < 32 implies is_lower_hex(#[trigger] u[i]) by {
        let j = if i < 8 {
            i
        } else if i < 12 {
            i + 1
        } else if i < 16 {
            i + 2
        } else if i < 20 {
            i + 3
        } else {
            i + 4
        };
        assert(!is_hyphen_position(j));
        assert(u[i] == s[j]);
    }
    assert(hyphenate(u) =~= s);
}

/// `16^n`.
pub open spec fn pow16(n: nat) -> nat
    decreases n,
{
    if n == 0 {
        1
    } else {
        16 * pow16((n - 1) as nat)
    }
}

/// Parsing the text of an identifier gives the identifier back: `TaskId::from_string` after
/// `TaskId::to_string` is the identity.
pub proof fn lemma_task_id_parse_round_trip(v: u128)
    ensures
        is_hyphenated_uuid(uuid_text(v as nat)),
        hex_number(unhyphenate(uuid_text(v as nat))) == v as nat,
{
    let h = hex_digits(v as nat, 32);
    lemma_hex_digits_len(v as nat, 32);
    lemma_hex_digits_lower(v as nat, 32);
    lemma_hex_number_of_digits(v as nat, 32);
    reveal_with_fuel(pow16, 33);
    assert(pow16(32) == 0x1_0000_0000_0000_0000_0000_0000_0000_0000);
    assert(v as nat % pow16(32) == v as nat);
    let t = hyphenate(h);
    assert(unhyphenate(t) =~= h);
    assert forall|i: int| 0 <= i < 36 implies if is_hyphen_position(i) {
        #[trigger] t[i] == '-'
    } else {
        is_hex(t[i])
    } by {
        if !is_hyphen_position(i) {
            let j = if i < 8 {
                i
            } else if i < 13 {
                i - 1
            } else if i < 18 {
                i - 2
            } else if i < 23 {
                i - 3
            } else {
                i - 4
            };
            assert(t[i] == h[j]);
        }
    }
}

/// Every digit of `hex_digits(v, n)` is a lower-case hex digit.
proof fn lemma_hex_digits_lower(v: nat, n: nat)
    ensures
        forall|i: int| 0 <= i < hex_digits(v, n).len() ==> is_lower_hex(#[trigger] hex_digits(v, n)[i]),
    decreases n,
{
    if n > 0 {
        lemma_hex_digits_lower(v / 16, (n - 1) as nat);
        let p = hex_digits(v / 16, (n - 1) as nat);
        let d = v % 16;
        assert(is_lower_hex(lower_hex_char(d)));
        assert forall|i: int| 0 <= i < hex_digits(v, n).len() implies is_lower_hex(
            #[trigger] hex_digits(v, n)[i],
        ) by {
            if i < p.len() {
                assert(hex_digits(v, n)[i] == p[i]);
            }
        }
    }
}

/// Reading `n` digits of `v` back gives `v` modulo `16^n`.
proof fn lemma_hex_number_of_digits(v: nat, n: nat)
    ensures
        hex_number(hex_digits(v, n)) == v % pow16(n),
        pow16(n) > 0,
    decreases n,
{
    if n == 0 {
        assert(hex_digits(v, 0) =~= Seq::<char>::empty());
    } else {
        lemma_hex_number_of_digits(v / 16, (n - 1) as nat);
        let h = hex_digits(v, n);
        let p = hex_digits(v / 16, (n - 1) as nat);
        let d = v % 16;
        assert(h.drop_last() =~= p);
        assert(hex_value_of(lower_hex_char(d)) == d);
        lemma_mod_breakdown(v as int, 16, pow16((n - 1) as nat) as int);
    }
}

/// `hex_digits(v, n)` has `n` characters.
pub proof fn lemma_hex_digits_len(v: nat, n: nat)
    ensures
        hex_digits(v, n).len() == n,
    decreases n,
{
    if n > 0 {
        lemma_hex_digits_len(v / 16, (n - 1) as nat);
    }
}

} // verus!
