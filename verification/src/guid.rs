//! The identifier of one task: an opaque 128-bit value with a canonical
//! hyphenated hexadecimal text form, printed and parsed by verified code.

use vstd::prelude::*;
use vstd::arithmetic::div_mod::{
    lemma_basic_div, lemma_div_denominator, lemma_fundamental_div_mod, lemma_mod_bound,
};
use vstd::arithmetic::power::{
    lemma_pow0, lemma_pow1, lemma_pow_adds, lemma_pow_increases, lemma_pow_positive, pow,
};
use vstd::string::{StrSliceExecFns, StringExecFns};

verus! {

/// A globally unique identifier for one task and its event history.
///
/// The value is immutable once created; equality and ordering go by the
/// underlying 128-bit value, which is also the identifier's view.
#[derive(Clone, Copy, PartialEq, Eq, Structural, PartialOrd, Ord, Hash, Debug)]
pub struct Guid {
    val: u128,
}

impl View for Guid {
    type V = u128;

    closed spec fn view(&self) -> u128 {
        self.val
    }
}

/// The lowercase hexadecimal digit for a value below sixteen.
pub open spec fn hex_char(d: int) -> char {
    if d == 0 {
        '0'
    } else if d == 1 {
        '1'
    } else if d == 2 {
        '2'
    } else if d == 3 {
        '3'
    } else if d == 4 {
        '4'
    } else if d == 5 {
        '5'
    } else if d == 6 {
        '6'
    } else if d == 7 {
        '7'
    } else if d == 8 {
        '8'
    } else if d == 9 {
        '9'
    } else if d == 10 {
        'a'
    } else if d == 11 {
        'b'
    } else if d == 12 {
        'c'
    } else if d == 13 {
        'd'
    } else if d == 14 {
        'e'
    } else {
        'f'
    }
}

/// The value of a hexadecimal digit character, upper or lower case;
/// sixteen for any character that is no hexadecimal digit.
pub open spec fn hex_val(c: char) -> int {
    if c == '0' {
        0
    } else if c == '1' {
        1
    } else if c == '2' {
        2
    } else if c == '3' {
        3
    } else if c == '4' {
        4
    } else if c == '5' {
        5
    } else if c == '6' {
        6
    } else if c == '7' {
        7
    } else if c == '8' {
        8
    } else if c == '9' {
        9
    } else if c == 'a' || c == 'A' {
        10
    } else if c == 'b' || c == 'B' {
        11
    } else if c == 'c' || c == 'C' {
        12
    } else if c == 'd' || c == 'D' {
        13
    } else if c == 'e' || c == 'E' {
        14
    } else if c == 'f' || c == 'F' {
        15
    } else {
        16
    }
}

/// The hexadecimal digit of `v` at digit position `i`, counted from the
/// most significant of the 32 digits.
pub open spec fn nibble(v: u128, i: int) -> int {
    (v as int / pow(16, (31 - i) as nat)) % 16
}

/// Whether text position `i` of the canonical form holds a hyphen.
pub open spec fn is_hyphen_pos(i: int) -> bool {
    i == 8 || i == 13 || i == 18 || i == 23
}

/// How many of the 32 digits stand before text position `i`.
pub open spec fn digits_before(i: int) -> int {
    if i <= 8 {
        i
    } else if i <= 13 {
        i - 1
    } else if i <= 18 {
        i - 2
    } else if i <= 23 {
        i - 3
    } else {
        i - 4
    }
}

/// The text position of digit `j` in the canonical form.
pub open spec fn text_pos(j: int) -> int {
    if j < 8 {
        j
    } else if j < 12 {
        j + 1
    } else if j < 16 {
        j + 2
    } else if j < 20 {
        j + 3
    } else {
        j + 4
    }
}

/// The canonical text of a 128-bit identifier: 32 lowercase hexadecimal
/// digits, most significant first, with hyphens after the 8th, 12th, 16th
/// and 20th digit.
pub open spec fn guid_text(v: u128) -> Seq<char> {
    Seq::new(
        36,
        |i: int|
            if is_hyphen_pos(i) {
                '-'
            } else {
                hex_char(nibble(v, digits_before(i)))
            },
    )
}

/// Whether position `i` of `s` has the shape the canonical form demands
/// there: a hyphen at the four hyphen positions, a hexadecimal digit
/// elsewhere.
pub open spec fn shape_ok(s: Seq<char>, i: int) -> bool {
    if is_hyphen_pos(i) {
        s[i] == '-'
    } else {
        hex_val(s[i]) < 16
    }
}

/// Whether `s` is a canonical identifier text: 36 characters, hyphens at
/// positions 8, 13, 18 and 23, hexadecimal digits everywhere else.
pub open spec fn is_guid_text(s: Seq<char>) -> bool {
    s.len() == 36 && forall|i: int| 0 <= i < 36 ==> #[trigger] shape_ok(s, i)
}

/// The value of the first `k` digits of `s` (hyphens skipped), read as a
/// base-16 number.
pub open spec fn prefix_val(s: Seq<char>, k: int) -> int
    decreases k,
{
    if k <= 0 {
        0
    } else {
        prefix_val(s, k - 1) * 16 + hex_val(s[text_pos(k - 1)])
    }
}

/// The 128-bit value the 32 digits of a canonical identifier text denote.
pub open spec fn guid_val(s: Seq<char>) -> int {
    prefix_val(s, 32)
}

proof fn lemma_pow16_values()
    ensures
        pow(16, 31) == 0x10000000000000000000000000000000,
        pow(16, 32) == 0x100000000000000000000000000000000,
{
    lemma_pow1(16);
    lemma_pow_adds(16, 1, 1);
    assert(pow(16, 2) == 0x100);
    lemma_pow_adds(16, 2, 2);
    assert(pow(16, 4) == 0x10000);
    lemma_pow_adds(16, 4, 4);
    assert(pow(16, 8) == 0x100000000);
    lemma_pow_adds(16, 8, 8);
    assert(pow(16, 16) == 0x10000000000000000);
    lemma_pow_adds(16, 16, 8);
    assert(pow(16, 24) == 0x1000000000000000000000000);
    lemma_pow_adds(16, 24, 4);
    assert(pow(16, 28) == 0x10000000000000000000000000000);
    lemma_pow_adds(16, 28, 2);
    assert(pow(16, 30) == 0x1000000000000000000000000000000);
    lemma_pow_adds(16, 30, 1);
    lemma_pow_adds(16, 31, 1);
}

/// 16 raised to a small power, for picking one hexadecimal digit out of
/// the 128-bit value.
fn pow16(e: usize) -> (r: u128)
    requires
        e <= 31,
    ensures
        r as int == pow(16, e as nat),
{
    let mut r: u128 = 1;
    let mut i: usize = 0;
    proof {
        lemma_pow0(16);
    }
    while i < e
        invariant
            i <= e <= 31,
            r as int == pow(16, i as nat),
        decreases e - i,
    {
        proof {
            lemma_pow_adds(16, i as nat, 1);
            lemma_pow1(16);
            lemma_pow_increases(16, (i + 1) as nat, 31);
            lemma_pow16_values();
        }
        r = r * 16;
        i = i + 1;
    }
    r
}

/// The one-character text of a hexadecimal digit.
fn hex_char_str(d: u8) -> (r: &'static str)
    requires
        d < 16,
    ensures
        r@ == seq![hex_char(d as int)],
{
    proof {
        reveal_strlit("0");
        reveal_strlit("1");
        reveal_strlit("2");
        reveal_strlit("3");
        reveal_strlit("4");
        reveal_strlit("5");
        reveal_strlit("6");
        reveal_strlit("7");
        reveal_strlit("8");
        reveal_strlit("9");
        reveal_strlit("a");
        reveal_strlit("b");
        reveal_strlit("c");
        reveal_strlit("d");
        reveal_strlit("e");
        reveal_strlit("f");
    }
    let r: &'static str = match d {
        0 => "0",
        1 => "1",
        2 => "2",
        3 => "3",
        4 => "4",
        5 => "5",
        6 => "6",
        7 => "7",
        8 => "8",
        9 => "9",
        10 => "a",
        11 => "b",
        12 => "c",
        13 => "d",
        14 => "e",
        _ => "f",
    };
    proof {
        assert(r@ =~= seq![hex_char(d as int)]);
    }
    r
}

/// The value of a hexadecimal digit character; sixteen when the character
/// is none.
fn hex_digit_val(c: char) -> (d: u8)
    ensures
        d as int == hex_val(c),
{
    match c {
        '0' => 0,
        '1' => 1,
        '2' => 2,
        '3' => 3,
        '4' => 4,
        '5' => 5,
        '6' => 6,
        '7' => 7,
        '8' => 8,
        '9' => 9,
        'a' | 'A' => 10,
        'b' | 'B' => 11,
        'c' | 'C' => 12,
        'd' | 'D' => 13,
        'e' | 'E' => 14,
        'f' | 'F' => 15,
        _ => 16,
    }
}

/// Relies on uuid::Uuid::new_v4 for a fresh random 128-bit value;
/// as_u128 hands the value's bits out, most significant byte first.
#[verifier::external_body]
fn random_u128() -> u128 {
    uuid::Uuid::new_v4().as_u128()
}

fn parse_err() -> (r: String)
    ensures
        r@ == "Could not parse id"@,
{
    String::from_str("Could not parse id")
}

impl Guid {
    /// A fresh identifier drawn at random.
    pub fn new() -> Guid {
        Guid { val: random_u128() }
    }

    /// The all-zero identifier, used as the placeholder before a `Create`
    /// event has named an entity.
    pub fn empty() -> (g: Guid)
        ensures
            g@ == 0,
    {
        Guid { val: 0 }
    }

    /// Parses the hyphenated text form, upper or lower case; rejects
    /// any other text.
    pub fn from_str(val: &str) -> (r: Result<Guid, String>)
        ensures
            r is Ok <==> is_guid_text(val@),
            r matches Ok(g) ==> g@ as int == guid_val(val@),
            r matches Err(m) ==> m@ == "Could not parse id"@,
    {
        let n = val.unicode_len();
        if n != 36 {
            return Err(parse_err());
        }
        let mut acc: u128 = 0;
        let mut digits: usize = 0;
        let mut i: usize = 0;
        proof {
            lemma_pow0(16);
        }
        while i < 36
            invariant
                val@.len() == 36,
                i <= 36,
                digits == digits_before(i as int),
                acc as int == prefix_val(val@, digits as int),
                (acc as int) < pow(16, digits as nat),
                forall|k: int| 0 <= k < i ==> #[trigger] shape_ok(val@, k),
            decreases 36 - i,
        {
            let c = val.get_char(i);
            if i == 8 || i == 13 || i == 18 || i == 23 {
                if c != '-' {
                    proof {
                        assert(!shape_ok(val@, i as int));
                    }
                    return Err(parse_err());
                }
            } else {
                let d = hex_digit_val(c);
                if d >= 16 {
                    proof {
                        assert(!shape_ok(val@, i as int));
                    }
                    return Err(parse_err());
                }
                proof {
                    lemma_pow_positive(16, digits as nat);
                    lemma_pow_adds(16, digits as nat, 1);
                    lemma_pow1(16);
                    lemma_pow_increases(16, (digits + 1) as nat, 32);
                    lemma_pow16_values();
                    assert(text_pos(digits as int) == i as int);
                }
                acc = acc * 16 + (d as u128);
                digits = digits + 1;
            }
            i = i + 1;
        }
        Ok(Guid { val: acc })
    }

    /// Parses the hyphenated text form, upper or lower case; rejects
    /// any other text.
    pub fn from_string(val: &String) -> (r: Result<Guid, String>)
        ensures
            r is Ok <==> is_guid_text(val@),
            r matches Ok(g) ==> g@ as int == guid_val(val@),
            r matches Err(m) ==> m@ == "Could not parse id"@,
    {
        Guid::from_str(val.as_str())
    }

    /// The canonical text of this identifier.
    pub fn to_string(&self) -> (r: String)
        ensures
            r@ == guid_text(self@),
    {
        let v = self.val;
        let mut s = String::new();
        let mut j: usize = 0;
        proof {
            assert(s@ =~= guid_text(v).take(0));
        }
        while j < 32
            invariant
                j <= 32,
                s@ == guid_text(v).take(text_pos(j as int)),
            decreases 32 - j,
        {
            let p = pow16(31 - j);
            proof {
                lemma_pow_positive(16, (31 - j) as nat);
            }
            let d = ((v / p) % 16) as u8;
            let ghost t = text_pos(j as int);
            proof {
                assert(d as int == nibble(v, j as int));
                assert(digits_before(t) == j as int);
                assert(guid_text(v)[t] == hex_char(nibble(v, j as int)));
                assert(guid_text(v).take(t + 1) =~= guid_text(v).take(t) + seq![
                    hex_char(nibble(v, j as int)),
                ]);
            }
            let c = hex_char_str(d);
            s.append(c);
            if j == 7 || j == 11 || j == 15 || j == 19 {
                proof {
                    reveal_strlit("-");
                    assert("-"@ =~= seq!['-']);
                    assert(is_hyphen_pos(t + 1));
                    assert(guid_text(v)[t + 1] == '-');
                    assert(guid_text(v).take(t + 2) =~= guid_text(v).take(t + 1) + seq!['-']);
                }
                s.append("-");
            }
            j = j + 1;
        }
        proof {
            assert(s@ =~= guid_text(v));
        }
        s
    }
}

/// Two identifiers are equal exactly when their 128-bit values are.
pub proof fn lemma_guid_eq(a: Guid, b: Guid)
    ensures
        (a == b) <==> (a@ == b@),
{
}

proof fn lemma_prefix_of_text(v: u128, k: int)
    requires
        0 <= k <= 32,
    ensures
        prefix_val(guid_text(v), k) == v as int / pow(16, (32 - k) as nat),
    decreases k,
{
    lemma_pow16_values();
    if k == 0 {
        lemma_basic_div(v as int, pow(16, 32));
    } else {
        lemma_prefix_of_text(v, k - 1);
        let ghost s = guid_text(v);
        let ghost p = pow(16, (32 - k) as nat);
        lemma_pow_positive(16, (32 - k) as nat);
        lemma_pow_positive(16, (33 - k) as nat);
        assert(pow(16, (33 - k) as nat) == 16 * p) by {
            lemma_pow_adds(16, 1, (32 - k) as nat);
            lemma_pow1(16);
        }
        let ghost q = v as int / p;
        assert(digits_before(text_pos(k - 1)) == k - 1);
        assert(s[text_pos(k - 1)] == hex_char(nibble(v, k - 1)));
        assert(hex_val(hex_char(nibble(v, k - 1))) == nibble(v, k - 1)) by {
            lemma_mod_bound(v as int / pow(16, (31 - (k - 1)) as nat), 16);
        }
        assert(nibble(v, k - 1) == q % 16);
        assert(v as int / pow(16, (33 - k) as nat) == q / 16) by {
            lemma_div_denominator(v as int, p, 16);
        }
        assert(q == 16 * (q / 16) + q % 16) by {
            lemma_fundamental_div_mod(q, 16);
        }
    }
}

/// Round trip: the canonical text of any identifier value is itself
/// canonical, and denotes that same value, so parsing the printed text of
/// an identifier always succeeds and yields the identifier again.
pub proof fn lemma_guid_round_trip(v: u128)
    ensures
        is_guid_text(guid_text(v)),
        guid_val(guid_text(v)) == v as int,
{
    assert forall|i: int| 0 <= i < 36 implies #[trigger] shape_ok(guid_text(v), i) by {
        if !is_hyphen_pos(i) {
            lemma_mod_bound(v as int / pow(16, (31 - digits_before(i)) as nat), 16);
        }
    }
    lemma_prefix_of_text(v, 32);
    lemma_pow0(16);
}

} // verus!
