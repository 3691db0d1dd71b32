use vstd::prelude::*;
use vstd::string::{StrSliceExecFns, StringExecFns};

verus! {

/// A decimal digit character.
pub open spec fn is_digit(c: char) -> bool {
    '0' <= c <= '9'
}

/// The value of a decimal digit character.
pub open spec fn digit_value(c: char) -> nat {
    (c as u32 - '0' as u32) as nat
}

/// The number that a sequence of decimal digits writes, most significant first.
pub open spec fn digits_value(d: Seq<char>) -> nat
    decreases d.len(),
{
    if d.len() == 0 {
        0
    } else {
        digits_value(d.drop_last()) * 10 + digit_value(d.last())
    }
}

/// The text after an optional leading `+`.
pub open spec fn unsigned_digits(s: Seq<char>) -> Seq<char> {
    if s.len() > 0 && s[0] == '+' {
        s.drop_first()
    } else {
        s
    }
}

/// Text that names a password index: an optional `+`, then one or more decimal digits
/// whose value fits in 32 bits.
pub open spec fn is_index_text(s: Seq<char>) -> bool {
    let d = unsigned_digits(s);
    &&& d.len() >= 1
    &&& forall|i: int| 0 <= i < d.len() ==> is_digit(#[trigger] d[i])
    &&& digits_value(d) <= u32::MAX
}

/// A prefix of a digit sequence writes no larger a number than the whole.
proof fn lemma_prefix_value_le(d: Seq<char>, k: int)
    requires
        0 <= k <= d.len(),
    ensures
        digits_value(d.subrange(0, k)) <= digits_value(d),
    decreases d.len(),
{
    if k < d.len() {
        assert(d.drop_last().subrange(0, k) =~= d.subrange(0, k));
        lemma_prefix_value_le(d.drop_last(), k);
    } else {
        assert(d.subrange(0, k) =~= d);
    }
}

/// Reads a password index written in decimal, as `u32::from_str` does.
pub fn parse_index(s: &str) -> (r: Option<u32>)
    ensures
        match r {
            Some(n) => is_index_text(s@) && n as nat == digits_value(unsigned_digits(s@)),
            None => !is_index_text(s@),
        },
{
    let len = s.unicode_len();
    let start: usize = if len > 0 && s.get_char(0) == '+' {
        1
    } else {
        0
    };
    let ghost d = unsigned_digits(s@);
    assert(d =~= s@.subrange(start as int, len as int));
    if start >= len {
        return None;
    }
    let mut value: u64 = 0;
    let mut i: usize = start;
    while i < len
        invariant
            start <= i <= len,
            len == s@.len(),
            d == s@.subrange(start as int, len as int),
            d == unsigned_digits(s@),
            forall|j: int| 0 <= j < i - start ==> is_digit(#[trigger] d[j]),
            value as nat == digits_value(d.subrange(0, i - start)),
            value <= u32::MAX,
        decreases len - i,
    {
        let c = s.get_char(i);
        let code = c as u32;
        assert(c == d[i - start]);
        if code < 48 || code > 57 {
            assert(!is_digit(d[i - start]));
            assert(!is_index_text(s@));
            return None;
        }
        assert(d.subrange(0, i + 1 - start).drop_last() =~= d.subrange(0, i - start));
        value = value * 10 + (code - 48) as u64;
        if value > u32::MAX as u64 {
            proof {
                lemma_prefix_value_le(d, i + 1 - start);
                assert(digits_value(d.subrange(0, i + 1 - start)) == value);
                assert(digits_value(d) > u32::MAX);
            }
            return None;
        }
        i = i + 1;
    }
    assert(d.subrange(0, len - start) =~= d);
    Some(value as u32)
}

/// Checks that `v` names a password index; otherwise says why in words.
pub fn validate_index(v: String) -> (r: Result<(), String>)
    ensures
        r is Ok <==> is_index_text(v@),
        r matches Err(m) ==> m@ == v@ + " is not a positive number"@,
{
    match parse_index(v.as_str()) {
        Some(_) => Ok(()),
        None => Err(v.concat(" is not a positive number")),
    }
}

} // verus!
