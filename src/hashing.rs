use vstd::prelude::*;
use sha2::Digest;

verus! {

/// The SHA-256 digest of a byte sequence.
pub uninterp spec fn sha256_of(data: Seq<u8>) -> Seq<u8>;

/// Relies on sha2::Sha256::digest: a 32-byte digest that depends on the bytes alone.
#[verifier::external_body]
pub(crate) fn sha256(data: &[u8]) -> (r: Vec<u8>)
    ensures
        r@ == sha256_of(data@),
        r@.len() == 32,
{
    sha2::Sha256::digest(data).to_vec()
}

/// The lower-case hexadecimal digit of a nibble.
pub open spec fn hex_char(n: u8) -> char {
    seq!['0', '1', '2', '3', '4', '5', '6', '7', '8', '9', 'a', 'b', 'c', 'd', 'e', 'f'][n as int]
}

/// Two lower-case hexadecimal digits per byte, high nibble first.
pub open spec fn hex_of(b: Seq<u8>) -> Seq<char>
    decreases b.len(),
{
    if b.len() == 0 {
        Seq::empty()
    } else {
        let last = b.last();
        hex_of(b.drop_last()) + seq![hex_char(last / 16), hex_char(last % 16)]
    }
}

/// The nibble that the `i`-th hexadecimal digit of `b` stands for.
pub open spec fn nibble(b: Seq<u8>, i: int) -> u8 {
    if i % 2 == 0 {
        (b[i / 2] / 16) as u8
    } else {
        (b[i / 2] % 16) as u8
    }
}

/// The text `h` starts with at least `d` zero digits.
pub open spec fn meets_target(h: Seq<char>, d: int) -> bool {
    &&& 0 <= d <= h.len()
    &&& forall|i: int| 0 <= i < d ==> h[i] == '0'
}

/// The hexadecimal text of a digest: its lower-case digits in order.
pub open spec fn hash_text(data: Seq<u8>) -> Seq<char> {
    hex_of(sha256_of(data))
}

proof fn lemma_hex_of(b: Seq<u8>)
    ensures
        hex_of(b).len() == 2 * b.len(),
        forall|i: int| 0 <= i < 2 * b.len() ==> #[trigger] hex_of(b)[i] == hex_char(nibble(b, i)),
    decreases b.len(),
{
    if b.len() > 0 {
        let p = b.drop_last();
        lemma_hex_of(p);
        assert forall|i: int| 0 <= i < 2 * b.len() implies #[trigger] hex_of(b)[i] == hex_char(
            nibble(b, i),
        ) by {
            if i < 2 * p.len() {
                assert(p[i / 2] == b[i / 2]);
                assert(hex_of(p)[i] == hex_char(nibble(p, i)));
            }
        }
    }
}

proof fn lemma_hex_char_zero(n: u8)
    requires
        n < 16,
    ensures
        (hex_char(n) == '0') == (n == 0),
{
    let digits = seq!['0', '1', '2', '3', '4', '5', '6', '7', '8', '9', 'a', 'b', 'c', 'd', 'e', 'f'];
    assert(forall|k: int| 1 <= k < 16 ==> digits[k] != '0');
}

/// The one-digit string of a nibble.
fn hex_digit(n: u8) -> (r: &'static str)
    requires
        n < 16,
    ensures
        r@ == seq![hex_char(n)],
{
    proof {
        reveal_strlit("0");
        reveal_strlit("1");
        reveal_strlit("2");
        reveal_strlit("3");
        reveal_strlit("4");
        reveal_strlit("5");
        reveal_strlit("6");
        reveal_strlit("7");
        reveal_strlit("8");
        reveal_strlit("9");
        reveal_strlit("a");
        reveal_strlit("b");
        reveal_strlit("c");
        reveal_strlit("d");
        reveal_strlit("e");
        reveal_strlit("f");
    }
    if n == 0 { "0" }
    else if n == 1 { "1" }
    else if n == 2 { "2" }
    else if n == 3 { "3" }
    else if n == 4 { "4" }
    else if n == 5 { "5" }
    else if n == 6 { "6" }
    else if n == 7 { "7" }
    else if n == 8 { "8" }
    else if n == 9 { "9" }
    else if n == 10 { "a" }
    else if n == 11 { "b" }
    else if n == 12 { "c" }
    else if n == 13 { "d" }
    else if n == 14 { "e" }
    else { "f" }
}

/// Encodes bytes as lower-case hexadecimal text.
pub fn hex_encode(b: &[u8]) -> (r: String)
    ensures
        r@ == hex_of(b@),
{
    let mut r = String::new();
    let mut i: usize = 0;
    while i < b.len()
        invariant
            i <= b@.len(),
            r@ == hex_of(b@.subrange(0, i as int)),
        decreases b@.len() - i,
    {
        let x = b[i];
        r.append(hex_digit(x / 16));
        r.append(hex_digit(x % 16));
        proof {
            let s = b@.subrange(0, i + 1);
            assert(s.drop_last() =~= b@.subrange(0, i as int));
        }
        i = i + 1;
    }
    assert(b@.subrange(0, b@.len() as int) =~= b@);
    r
}

/// Whether the hexadecimal text of `digest` starts with at least `difficulty`
/// zero digits; checked on the digest's nibbles.
pub fn digest_meets_target(digest: &[u8], difficulty: usize) -> (r: bool)
    ensures
        r == meets_target(hex_of(digest@), difficulty as int),
{
    proof {
        lemma_hex_of(digest@);
    }
    if difficulty / 2 > digest.len() || (difficulty / 2 == digest.len() && difficulty % 2 == 1) {
        return false;
    }
    let mut i: usize = 0;
    while i < difficulty
        invariant
            difficulty <= 2 * digest@.len(),
            i <= difficulty,
            forall|k: int| 0 <= k < i ==> nibble(digest@, k) == 0,
        decreases difficulty - i,
    {
        let x = digest[i / 2];
        let n: u8 = if i % 2 == 0 { x / 16 } else { x % 16 };
        if n != 0 {
            proof {
                lemma_hex_of(digest@);
                lemma_hex_char_zero(n);
                assert(hex_of(digest@)[i as int] == hex_char(nibble(digest@, i as int)));
            }
            return false;
        }
        i = i + 1;
    }
    proof {
        lemma_hex_of(digest@);
        assert forall|k: int| 0 <= k < difficulty implies hex_of(digest@)[k] == '0' by {
            lemma_hex_char_zero(nibble(digest@, k));
        }
    }
    true
}

} // verus!
