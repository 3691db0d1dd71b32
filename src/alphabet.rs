use vstd::prelude::*;

verus! {

/// Number of symbols in the output alphabet.
pub const ALPHABET_LEN: usize = 85;

/// The output symbols in order: digits, upper case, lower case, then punctuation.
pub const ALPHABET: [char; 85] = [
    '0', '1', '2', '3', '4', '5', '6', '7', '8', '9', 'A', 'B', 'C', 'D', 'E', 'F', 'G', 'H', 'I',
    'J', 'K', 'L', 'M', 'N', 'O', 'P', 'Q', 'R', 'S', 'T', 'U', 'V', 'W', 'X', 'Y', 'Z', 'a', 'b',
    'c', 'd', 'e', 'f', 'g', 'h', 'i', 'j', 'k', 'l', 'm', 'n', 'o', 'p', 'q', 'r', 's', 't', 'u',
    'v', 'w', 'x', 'y', 'z', '!', '#', '$', '%', '&', '(', ')', '*', '+', '-', ';', '<', '=', '>',
    '?', '@', '^', '_', '`', '{', '|', '}', '~',
];

/// The alphabet as a sequence, for contracts.
pub open spec fn alphabet() -> Seq<char> {
    seq![
        '0', '1', '2', '3', '4', '5', '6', '7', '8', '9', 'A', 'B', 'C', 'D', 'E', 'F', 'G', 'H',
        'I', 'J', 'K', 'L', 'M', 'N', 'O', 'P', 'Q', 'R', 'S', 'T', 'U', 'V', 'W', 'X', 'Y', 'Z',
        'a', 'b', 'c', 'd', 'e', 'f', 'g', 'h', 'i', 'j', 'k', 'l', 'm', 'n', 'o', 'p', 'q', 'r',
        's', 't', 'u', 'v', 'w', 'x', 'y', 'z', '!', '#', '$', '%', '&', '(', ')', '*', '+', '-',
        ';', '<', '=', '>', '?', '@', '^', '_', '`', '{', '|', '}', '~',
    ]
}

/// The symbol that a raw byte stands for: the byte reduced modulo 85 indexes the alphabet.
pub open spec fn symbol_of(b: u8) -> char {
    alphabet()[(b as int) % 85]
}

/// The printable form of raw bytes: one symbol per byte, in byte order.
pub open spec fn encoded(raw: Seq<u8>) -> Seq<char> {
    Seq::new(raw.len(), |i: int| symbol_of(raw[i]))
}

/// Every symbol of the alphabet is distinct, and there are exactly 85 of them.
pub proof fn lemma_alphabet_shape()
    ensures
        alphabet().len() == ALPHABET_LEN,
        alphabet().no_duplicates(),
{
    assert(alphabet().len() == 85);
    assert(alphabet().no_duplicates()) by {
        assert forall|i: int, j: int|
            0 <= i < alphabet().len() && 0 <= j < alphabet().len() && i != j implies
            alphabet()[i] != alphabet()[j] by {
            assert(alphabet()[i] as u32 != alphabet()[j] as u32);
        }
    }
}

/// Every character of an encoded sequence is a member of the alphabet.
pub proof fn lemma_encoded_in_alphabet(raw: Seq<u8>)
    ensures
        encoded(raw).len() == raw.len(),
        forall|i: int| 0 <= i < raw.len() ==> #[trigger] alphabet().contains(encoded(raw)[i]),
{
    assert forall|i: int| 0 <= i < raw.len() implies #[trigger] alphabet().contains(
        encoded(raw)[i],
    ) by {
        let k = (raw[i] as int) % 85;
        assert(0 <= k < 85);
        assert(alphabet()[k] == encoded(raw)[i]);
    }
}

/// Picks the symbol for one raw byte.
pub fn symbol(b: u8) -> (r: char)
    ensures
        r == symbol_of(b),
{
    let table = ALPHABET;
    assert(table@ =~= alphabet());
    table[(b % 85) as usize]
}

/// Relies on `String::push`: the character is appended at the end.
#[verifier::external_body]
fn push_char(s: &mut String, c: char)
    ensures
        final(s)@ == old(s)@.push(c),
{
    s.push(c);
}

/// Maps each raw byte to its alphabet symbol, keeping the byte order.
pub fn encode(raw: &[u8]) -> (r: String)
    ensures
        r@ == encoded(raw@),
{
    let mut out = String::new();
    let mut i: usize = 0;
    while i < raw.len()
        invariant
            i <= raw@.len(),
            out@ =~= encoded(raw@.subrange(0, i as int)),
        decreases raw@.len() - i,
    {
        let c = symbol(raw[i]);
        push_char(&mut out, c);
        assert(encoded(raw@.subrange(0, i + 1)) =~= encoded(raw@.subrange(0, i as int)).push(c));
        i = i + 1;
    }
    assert(raw@.subrange(0, raw@.len() as int) =~= raw@);
    out
}

} // verus!
