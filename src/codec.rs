use vstd::prelude::*;

use crate::types::{TypeTag, Value, ValueModel};

verus! {

// ---------------------------------------------------------------------------
// Integers in decimal text
// ---------------------------------------------------------------------------

pub open spec fn is_digit(c: char) -> bool {
    48 <= (c as u32) <= 57
}

pub open spec fn digit_value(c: char) -> int {
    (c as u32) - 48
}

pub open spec fn all_digits(s: Seq<char>) -> bool {
    forall|i: int| 0 <= i < s.len() ==> is_digit(#[trigger] s[i])
}

/// The number that a string of decimal digits denotes.
pub open spec fn digits_value(s: Seq<char>) -> int
    decreases s.len(),
{
    if s.len() == 0 {
        0
    } else {
        10 * digits_value(s.drop_last()) + digit_value(s.last())
    }
}

/// The integer that `s` writes: an optional `-` followed by at least one digit.
pub open spec fn int_of_text(s: Seq<char>) -> Option<int> {
    if s.len() > 0 && s[0] == '-' {
        let d = s.subrange(1, s.len() as int);
        if d.len() > 0 && all_digits(d) {
            Some(-digits_value(d))
        } else {
            None
        }
    } else if s.len() > 0 && all_digits(s) {
        Some(digits_value(s))
    } else {
        None
    }
}

pub open spec fn digit_char(d: nat) -> char {
    ((d + 48) as u8) as char
}

/// The decimal digits of `m`, most significant first, with no leading zero.
pub open spec fn nat_text(m: nat) -> Seq<char>
    decreases m,
{
    if m < 10 {
        seq![digit_char(m)]
    } else {
        nat_text(m / 10).push(digit_char(m % 10))
    }
}

/// The decimal text of `n`, with a leading `-` when it is negative.
pub open spec fn int_text(n: int) -> Seq<char> {
    if n < 0 {
        seq!['-'] + nat_text((-n) as nat)
    } else {
        nat_text(n as nat)
    }
}

proof fn lemma_digits_value_nonneg(s: Seq<char>)
    requires
        all_digits(s),
    ensures
        digits_value(s) >= 0,
    decreases s.len(),
{
    if s.len() > 0 {
        lemma_digits_value_nonneg(s.drop_last());
    }
}

/// A prefix of a digit string never denotes more than the whole string.
proof fn lemma_prefix_value_le(s: Seq<char>, k: int)
    requires
        all_digits(s),
        0 <= k <= s.len(),
    ensures
        digits_value(s.subrange(0, k)) <= digits_value(s),
    decreases s.len(),
{
    if k < s.len() {
        let t = s.drop_last();
        lemma_prefix_value_le(t, k);
        lemma_digits_value_nonneg(t);
        assert(t.subrange(0, k) =~= s.subrange(0, k));
    } else {
        assert(s.subrange(0, k) =~= s);
    }
}

/// Reads the digits of `s` from char position `start` on, as a number no larger
/// than `limit`.
fn parse_digits(s: &str, start: usize, limit: u64) -> (r: Option<u64>)
    requires
        start <= s@.len(),
    ensures
        ({
            let d = s@.subrange(start as int, s@.len() as int);
            match r {
                Some(m) => d.len() > 0 && all_digits(d) && digits_value(d) == m && m <= limit,
                None => !(d.len() > 0 && all_digits(d) && digits_value(d) <= limit),
            }
        }),
{
    let n = s.unicode_len();
    if start >= n {
        return None;
    }
    let ghost full = s@.subrange(start as int, n as int);
    let mut acc: u64 = 0;
    let mut i: usize = start;
    while i < n
        invariant
            start <= i <= n,
            n == s@.len(),
            full == s@.subrange(start as int, n as int),
            acc <= limit,
            all_digits(s@.subrange(start as int, i as int)),
            digits_value(s@.subrange(start as int, i as int)) == acc,
        decreases n - i,
    {
        let c = s.get_char(i);
        let u = c as u32;
        if u < 48 || u > 57 {
            assert(full[i - start] == c);
            return None;
        }
        let next: u128 = acc as u128 * 10 + (u - 48) as u128;
        let ghost pre = s@.subrange(start as int, i + 1);
        assert(pre.drop_last() =~= s@.subrange(start as int, i as int));
        assert(pre.last() == c);
        if next > limit as u128 {
            proof {
                if all_digits(full) {
                    assert(full.subrange(0, i + 1 - start) =~= pre);
                    lemma_prefix_value_le(full, i + 1 - start);
                }
            }
            return None;
        }
        acc = next as u64;
        i = i + 1;
        assert(all_digits(pre)) by {
            assert forall|j: int| 0 <= j < pre.len() implies is_digit(#[trigger] pre[j]) by {
                if j < pre.len() - 1 {
                    assert(pre[j] == s@.subrange(start as int, i - 1)[j]);
                }
            }
        }
    }
    assert(s@.subrange(start as int, i as int) =~= full);
    Some(acc)
}

/// The 64-bit integer that `s` writes, if it writes one in range.
pub open spec fn i64_of_text(s: Seq<char>) -> Option<int> {
    match int_of_text(s) {
        Some(n) => if i64::MIN <= n <= i64::MAX {
            Some(n)
        } else {
            None
        },
        None => None,
    }
}

/// Parses decimal text into an `i64`; `None` when it is malformed or out of range.
pub fn parse_i64(s: &str) -> (r: Option<i64>)
    ensures
        r.is_some() == i64_of_text(s@).is_some(),
        r.is_some() ==> r.unwrap() as int == i64_of_text(s@).unwrap(),
{
    let n = s.unicode_len();
    if n > 0 && s.get_char(0) == '-' {
        match parse_digits(s, 1, 9223372036854775808u64) {
            Some(m) => Some((0i128 - m as i128) as i64),
            None => None,
        }
    } else {
        let r = parse_digits(s, 0, 9223372036854775807u64);
        assert(s@.subrange(0, n as int) =~= s@);
        match r {
            Some(m) => Some(m as i64),
            None => None,
        }
    }
}

/// The decimal digit for `d`, as text of one char.
fn digit_str(d: u64) -> (r: &'static str)
    requires
        d < 10,
    ensures
        r@ == seq![digit_char(d as nat)],
{
    proof {
        reveal_strlit("0");
        reveal_strlit("1");
        reveal_strlit("2");
        reveal_strlit("3");
        reveal_strlit("4");
        reveal_strlit("5");
        reveal_strlit("6");
        reveal_strlit("7");
        reveal_strlit("8");
        reveal_strlit("9");
    }
    let r = if d == 0 {
        "0"
    } else if d == 1 {
        "1"
    } else if d == 2 {
        "2"
    } else if d == 3 {
        "3"
    } else if d == 4 {
        "4"
    } else if d == 5 {
        "5"
    } else if d == 6 {
        "6"
    } else if d == 7 {
        "7"
    } else if d == 8 {
        "8"
    } else {
        "9"
    };
    assert(r@ =~= seq![digit_char(d as nat)]);
    r
}

/// Appends the decimal digits of `m` to `out`.
fn push_digits(out: &mut String, m: u64)
    ensures
        final(out)@ == old(out)@ + nat_text(m as nat),
    decreases m,
{
    if m < 10 {
        out.append(digit_str(m));
    } else {
        push_digits(out, m / 10);
        out.append(digit_str(m % 10));
        assert(old(out)@ + nat_text(m as nat) =~= old(out)@ + nat_text((m / 10) as nat) + seq![
            digit_char((m % 10) as nat),
        ]);
    }
}

/// Writes `n` in decimal.
pub fn format_i64(n: i64) -> (r: String)
    ensures
        r@ == int_text(n as int),
{
    let mut out = String::new();
    if n < 0 {
        out.append("-");
        proof {
            reveal_strlit("-");
            assert("-"@ =~= seq!['-']);
        }
        let m: u64 = (0i128 - n as i128) as u64;
        push_digits(&mut out, m);
    } else {
        push_digits(&mut out, n as u64);
        assert(out@ =~= int_text(n as int));
    }
    out
}

// ---------------------------------------------------------------------------
// Values in the host's text encoding
// ---------------------------------------------------------------------------

/// The boolean that `s` writes: `t` or `true`, `f` or `false`.
pub open spec fn bool_of_text(s: Seq<char>) -> Option<bool> {
    if s == "t"@ || s == "true"@ {
        Some(true)
    } else if s == "f"@ || s == "false"@ {
        Some(false)
    } else {
        None
    }
}

/// Whether two texts hold the same chars.
pub(crate) fn same_text(a: &str, b: &str) -> (r: bool)
    ensures
        r == (a@ == b@),
{
    let n = a.unicode_len();
    if n != b.unicode_len() {
        return false;
    }
    let mut i: usize = 0;
    while i < n
        invariant
            i <= n,
            n == a@.len(),
            n == b@.len(),
            a@.subrange(0, i as int) == b@.subrange(0, i as int),
        decreases n - i,
    {
        if a.get_char(i) != b.get_char(i) {
            return false;
        }
        assert(a@.subrange(0, i + 1) =~= a@.subrange(0, i as int).push(a@[i as int]));
        assert(b@.subrange(0, i + 1) =~= b@.subrange(0, i as int).push(b@[i as int]));
        i = i + 1;
    }
    assert(a@ =~= a@.subrange(0, n as int));
    assert(b@ =~= b@.subrange(0, n as int));
    true
}

/// Parses `t`, `true`, `f` or `false`.
pub fn parse_bool(s: &str) -> (r: Option<bool>)
    ensures
        r == bool_of_text(s@),
{
    if same_text(s, "t") || same_text(s, "true") {
        Some(true)
    } else if same_text(s, "f") || same_text(s, "false") {
        Some(false)
    } else {
        None
    }
}

/// The value that the raw argument `raw` decodes to under the declared type `tag`;
/// `None` when it cannot be read as that type. A missing buffer is SQL NULL.
pub open spec fn decode_spec(tag: TypeTag, raw: Option<Seq<char>>) -> Option<ValueModel> {
    match raw {
        None => Some(ValueModel::Null),
        Some(s) => match tag {
            TypeTag::Bool => match bool_of_text(s) {
                Some(b) => Some(ValueModel::Bool(b)),
                None => None,
            },
            TypeTag::Int4 => match i64_of_text(s) {
                Some(n) => if i32::MIN <= n <= i32::MAX {
                    Some(ValueModel::Int4(n as i32))
                } else {
                    None
                },
                None => None,
            },
            TypeTag::Int8 => match i64_of_text(s) {
                Some(n) => Some(ValueModel::Int8(n as i64)),
                None => None,
            },
            TypeTag::Text => Some(ValueModel::Text(s)),
        },
    }
}

/// The view of a raw host buffer.
pub open spec fn raw_view(raw: Option<String>) -> Option<Seq<char>> {
    match raw {
        Some(s) => Some(s@),
        None => None,
    }
}

/// The view of an optional decoded value.
pub open spec fn value_view(v: Option<Value>) -> Option<ValueModel> {
    match v {
        Some(x) => Some(x@),
        None => None,
    }
}

/// Decodes one host buffer as the declared type `tag`.
pub fn decode_value(tag: TypeTag, raw: &Option<String>) -> (r: Option<Value>)
    ensures
        value_view(r) == decode_spec(tag, raw_view(*raw)),
{
    match raw {
        None => Some(Value::Null),
        Some(s) => match tag {
            TypeTag::Bool => match parse_bool(s.as_str()) {
                Some(b) => Some(Value::Bool(b)),
                None => None,
            },
            TypeTag::Int4 => match parse_i64(s.as_str()) {
                Some(n) => if i32::MIN as i64 <= n && n <= i32::MAX as i64 {
                    Some(Value::Int4(n as i32))
                } else {
                    None
                },
                None => None,
            },
            TypeTag::Int8 => match parse_i64(s.as_str()) {
                Some(n) => Some(Value::Int8(n)),
                None => None,
            },
            TypeTag::Text => Some(Value::Text(s.clone())),
        },
    }
}

/// The host's text for a value; `None` stands for SQL NULL.
pub open spec fn encode_spec(v: ValueModel) -> Option<Seq<char>> {
    match v {
        ValueModel::Null => None,
        ValueModel::Bool(b) => Some(if b { "t"@ } else { "f"@ }),
        ValueModel::Int4(n) => Some(int_text(n as int)),
        ValueModel::Int8(n) => Some(int_text(n as int)),
        ValueModel::Text(s) => Some(s),
    }
}

/// Encodes a value in the host's text encoding.
pub fn encode_value(v: &Value) -> (r: Option<String>)
    ensures
        raw_view(r) == encode_spec(v@),
{
    match v {
        Value::Null => None,
        Value::Bool(b) => Some(String::from_str(if *b { "t" } else { "f" })),
        Value::Int4(n) => Some(format_i64(*n as i64)),
        Value::Int8(n) => Some(format_i64(*n)),
        Value::Text(s) => Some(s.clone()),
    }
}

/// The decimal text of a natural number is a non-empty digit string that
/// denotes it.
proof fn lemma_nat_text(m: nat)
    ensures
        nat_text(m).len() > 0,
        all_digits(nat_text(m)),
        digits_value(nat_text(m)) == m,
    decreases m,
{
    let t = nat_text(m);
    if m < 10 {
        assert(t.drop_last() =~= Seq::<char>::empty());
        assert(digit_value(digit_char(m)) == m);
        assert(digits_value(t) == 10 * digits_value(t.drop_last()) + digit_value(t.last()));
    } else {
        lemma_nat_text(m / 10);
        assert(t.drop_last() =~= nat_text(m / 10));
        assert(digit_value(digit_char(m % 10)) == m % 10);
        assert(digits_value(t) == 10 * digits_value(t.drop_last()) + digit_value(t.last()));
        assert(10 * (m / 10) + m % 10 == m);
        assert forall|i: int| 0 <= i < t.len() implies is_digit(#[trigger] t[i]) by {
            if i < t.len() - 1 {
                assert(t[i] == nat_text(m / 10)[i]);
            }
        }
    }
}

/// Reading back the decimal text of an integer gives the integer.
pub proof fn lemma_int_text_round_trip(n: int)
    ensures
        int_of_text(int_text(n)) == Some(n),
{
    let t = int_text(n);
    if n < 0 {
        lemma_nat_text((-n) as nat);
        assert(t.subrange(1, t.len() as int) =~= nat_text((-n) as nat));
    } else {
        lemma_nat_text(n as nat);
        assert(is_digit(t[0]));
    }
}

/// Encoding a value and decoding the text as a type that the value fits gives the
/// value back.
pub proof fn lemma_encode_decode_round_trip(v: ValueModel, tag: TypeTag)
    requires
        crate::types::fits(v, tag),
    ensures
        decode_spec(tag, encode_spec(v)) == Some(v),
{
    reveal_strlit("t");
    reveal_strlit("true");
    reveal_strlit("f");
    reveal_strlit("false");
    match v {
        ValueModel::Int4(n) => lemma_int_text_round_trip(n as int),
        ValueModel::Int8(n) => lemma_int_text_round_trip(n as int),
        ValueModel::Bool(b) => {
            if !b {
                assert("f"@ != "t"@ && "f"@ != "true"@) by {
                    assert("f"@[0] != "t"@[0]);
                    assert("f"@.len() != "true"@.len());
                }
            }
        },
        _ => {},
    }
}

} // verus!
