use vstd::prelude::*;
use vstd::string::StringSliceAdditionalSpecFns;

verus! {

/// ASCII code of the digit zero.
pub const DIGIT_ZERO: u8 = 48;

/// ASCII code of the field separator `:`.
pub const SEPARATOR: u8 = 58;

/// The label that opens every labeled salt: the bytes of `pswrd:`.
pub const SALT_LABEL: [u8; 6] = [112, 115, 119, 114, 100, 58];

/// `SALT_LABEL` as a sequence, for contracts.
pub open spec fn salt_label() -> Seq<u8> {
    seq![112, 115, 119, 114, 100, 58]
}

/// The decimal digits of `n` as ASCII bytes, most significant first, without leading zeros.
pub open spec fn decimal(n: nat) -> Seq<u8>
    decreases n,
{
    if n < 10 {
        seq![(DIGIT_ZERO as nat + n) as u8]
    } else {
        decimal(n / 10).push((DIGIT_ZERO as nat + n % 10) as u8)
    }
}

/// The message of the PBKDF2 derivations: the scope's bytes directly followed by the
/// identity's bytes. With no separator, `("site", "X")` and `("sit", "eX")` give the
/// same message; passwords derived this way depend on that, so it stays.
pub open spec fn message(scope: Seq<u8>, identity: Seq<u8>) -> Seq<u8> {
    scope + identity
}

/// The salt of the Argon2 derivation: `pswrd:<scope>:<identity>:<index in decimal>`.
pub open spec fn labeled_salt(scope: Seq<u8>, identity: Seq<u8>, index: u32) -> Seq<u8> {
    salt_label() + scope + seq![SEPARATOR] + identity + seq![SEPARATOR] + decimal(index as nat)
}

/// Appends `bytes` to `out`.
pub fn append_bytes(out: &mut Vec<u8>, bytes: &[u8])
    ensures
        final(out)@ == old(out)@ + bytes@,
{
    let ghost start = out@;
    let mut i: usize = 0;
    while i < bytes.len()
        invariant
            i <= bytes@.len(),
            out@ =~= start + bytes@.subrange(0, i as int),
        decreases bytes@.len() - i,
    {
        out.push(bytes[i]);
        assert(bytes@.subrange(0, i + 1) =~= bytes@.subrange(0, i as int).push(bytes@[i as int]));
        i = i + 1;
    }
    assert(bytes@.subrange(0, bytes@.len() as int) =~= bytes@);
}

/// Appends the decimal digits of `n` to `out`.
pub fn append_decimal(out: &mut Vec<u8>, n: u32)
    ensures
        final(out)@ == old(out)@ + decimal(n as nat),
    decreases n,
{
    let ghost start = out@;
    if n >= 10 {
        append_decimal(out, n / 10);
    }
    let digit: u8 = DIGIT_ZERO + (n % 10) as u8;
    out.push(digit);
    proof {
        if n >= 10 {
            assert(start + decimal(n as nat) =~= (start + decimal((n / 10) as nat)).push(digit));
        } else {
            assert(start + decimal(n as nat) =~= start.push(digit));
        }
    }
}

/// Builds the message of the PBKDF2 derivations from a scope and an identity.
pub fn concatenated_message(scope: &str, identity: &str) -> (r: Vec<u8>)
    ensures
        r@ == message(scope.spec_bytes(), identity.spec_bytes()),
{
    let mut out: Vec<u8> = Vec::new();
    append_bytes(&mut out, scope.as_bytes());
    append_bytes(&mut out, identity.as_bytes());
    out
}

/// Builds the salt of the Argon2 derivation from a scope, an identity and an index.
pub fn labeled_salt_bytes(scope: &str, identity: &str, index: u32) -> (r: Vec<u8>)
    ensures
        r@ == labeled_salt(scope.spec_bytes(), identity.spec_bytes(), index),
{
    let label = SALT_LABEL;
    assert(label@ =~= salt_label());
    let mut out: Vec<u8> = Vec::new();
    append_bytes(&mut out, &label);
    append_bytes(&mut out, scope.as_bytes());
    out.push(SEPARATOR);
    append_bytes(&mut out, identity.as_bytes());
    out.push(SEPARATOR);
    append_decimal(&mut out, index);
    assert(out@ =~= labeled_salt(scope.spec_bytes(), identity.spec_bytes(), index));
    out
}

/// Every decimal form has at least one digit, and numbers from 10 on have at least two.
proof fn lemma_decimal_len(n: nat)
    ensures
        decimal(n).len() >= 1,
        n >= 10 ==> decimal(n).len() >= 2,
    decreases n,
{
    if n >= 10 {
        lemma_decimal_len(n / 10);
    }
}

/// Distinct numbers have distinct decimal forms.
pub proof fn lemma_decimal_injective(a: nat, b: nat)
    requires
        decimal(a) == decimal(b),
    ensures
        a == b,
    decreases a,
{
    lemma_decimal_len(a);
    lemma_decimal_len(b);
    if a < 10 && b < 10 {
        assert(decimal(a)[0] == (DIGIT_ZERO as nat + a) as u8);
        assert(decimal(b)[0] == (DIGIT_ZERO as nat + b) as u8);
        assert(decimal(a)[0] == decimal(b)[0]);
    } else if a >= 10 && b >= 10 {
        assert(decimal(a).drop_last() =~= decimal(a / 10));
        assert(decimal(b).drop_last() =~= decimal(b / 10));
        assert(decimal(a).last() == (DIGIT_ZERO as nat + a % 10) as u8);
        assert(decimal(b).last() == (DIGIT_ZERO as nat + b % 10) as u8);
        assert(decimal(a).last() == decimal(b).last());
        assert(a % 10 == b % 10);
        lemma_decimal_injective(a / 10, b / 10);
        assert(a == 10 * (a / 10) + a % 10);
        assert(b == 10 * (b / 10) + b % 10);
    }
}

/// For a fixed scope and identity, distinct indexes give distinct labeled salts.
pub proof fn lemma_labeled_salt_index_injective(
    scope: Seq<u8>,
    identity: Seq<u8>,
    i1: u32,
    i2: u32,
)
    requires
        i1 != i2,
    ensures
        labeled_salt(scope, identity, i1) != labeled_salt(scope, identity, i2),
{
    let head = salt_label() + scope + seq![SEPARATOR] + identity + seq![SEPARATOR];
    let s1 = labeled_salt(scope, identity, i1);
    let s2 = labeled_salt(scope, identity, i2);
    assert(s1 =~= head + decimal(i1 as nat));
    assert(s2 =~= head + decimal(i2 as nat));
    if s1 == s2 {
        assert(s1.subrange(head.len() as int, s1.len() as int) =~= decimal(i1 as nat));
        assert(s2.subrange(head.len() as int, s2.len() as int) =~= decimal(i2 as nat));
        lemma_decimal_injective(i1 as nat, i2 as nat);
    }
}

} // verus!
