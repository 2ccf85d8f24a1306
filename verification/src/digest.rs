//! Lower-case hexadecimal text and SHA-256 digests.

use vstd::prelude::*;
use vstd::string::StringExecFns;
use sha2::Digest;

verus! {

/// The lower-case hexadecimal digit for `d` (meaningful for `d < 16`).
pub open spec fn hex_digit(d: int) -> char {
    if d < 10 {
        (48 + d) as char
    } else {
        (87 + d) as char
    }
}

/// Two lower-case hexadecimal digits per byte, most significant first.
pub open spec fn hex_of_bytes(b: Seq<u8>) -> Seq<char>
    decreases b.len(),
{
    if b.len() == 0 {
        Seq::empty()
    } else {
        hex_of_bytes(b.drop_last()) + seq![hex_digit((b.last() / 16) as int), hex_digit((b.last() % 16) as int)]
    }
}

/// Sixteen lower-case hexadecimal digits of `n`, zero-padded, most significant first.
pub open spec fn hex_of_u64(n: u64) -> Seq<char> {
    Seq::new(16, |i: int| hex_digit(nibble(n, i) as int))
}

/// The `i`-th of the sixteen nibbles of `n`, most significant first.
pub open spec fn nibble(n: u64, i: int) -> u64 {
    (n >> ((60 - 4 * i) as u64)) & 0xf
}

/// Whether `c` is an ASCII hexadecimal digit (either case).
pub open spec fn is_hex_char(c: char) -> bool {
    ('0' <= c && c <= '9') || ('a' <= c && c <= 'f') || ('A' <= c && c <= 'F')
}

/// The digit `d` as a one-character text.
fn hex_digit_text(d: u8) -> (t: &'static str)
    requires
        d < 16,
    ensures
        t@ == seq![hex_digit(d as int)],
{
    let t = match d {
        0 => "0",
        1 => "1",
        2 => "2",
        3 => "3",
        4 => "4",
        5 => "5",
        6 => "6",
        7 => "7",
        8 => "8",
        9 => "9",
        10 => "a",
        11 => "b",
        12 => "c",
        13 => "d",
        14 => "e",
        _ => "f",
    };
    proof {
        reveal_strlit("0");
        reveal_strlit("1");
        reveal_strlit("2");
        reveal_strlit("3");
        reveal_strlit("4");
        reveal_strlit("5");
        reveal_strlit("6");
        reveal_strlit("7");
        reveal_strlit("8");
        reveal_strlit("9");
        reveal_strlit("a");
        reveal_strlit("b");
        reveal_strlit("c");
        reveal_strlit("d");
        reveal_strlit("e");
        reveal_strlit("f");
        assert(t@ =~= seq![hex_digit(d as int)]);
    }
    t
}

/// Lower-case hexadecimal text of a byte string.
pub fn to_hex_lower(bytes: &[u8]) -> (s: String)
    ensures
        s@ == hex_of_bytes(bytes@),
{
    let mut s = String::new();
    let n = bytes.len();
    let mut i: usize = 0;
    while i < n
        invariant
            n == bytes@.len(),
            i <= n,
            s@ == hex_of_bytes(bytes@.take(i as int)),
        decreases n - i,
    {
        let b = bytes[i];
        s.append(hex_digit_text(b / 16));
        s.append(hex_digit_text(b % 16));
        proof {
            let t = bytes@.take(i + 1);
            assert(t.drop_last() =~= bytes@.take(i as int));
            assert(t.last() == b);
        }
        i = i + 1;
    }
    assert(bytes@.take(n as int) =~= bytes@);
    s
}

/// Sixteen lower-case hexadecimal digits of `n`, zero-padded.
pub fn hex_u64(n: u64) -> (s: String)
    ensures
        s@ == hex_of_u64(n),
{
    let mut s = String::new();
    let mut i: u64 = 0;
    while i < 16
        invariant
            i <= 16,
            s@ == hex_of_u64(n).take(i as int),
        decreases 16 - i,
    {
        let shift: u64 = 60 - 4 * i;
        let d: u64 = (n >> shift) & 0xf;
        assert(d < 16) by (bit_vector)
            requires
                d == (n >> shift) & 0xf,
        ;
        s.append(hex_digit_text(d as u8));
        assert(s@ =~= hex_of_u64(n).take(i + 1));
        i = i + 1;
    }
    assert(hex_of_u64(n).take(16) =~= hex_of_u64(n));
    s
}

/// The SHA-256 digest of `data`, as the sha2 crate computes it.
pub uninterp spec fn sha256_of(data: Seq<u8>) -> Seq<u8>;

/// Calls `sha2::Sha256` (`new`, `update`, `finalize`) on `data`. The result is
/// the digest named by `sha256_of`; its 32-byte length is the hash's output size.
#[verifier::external_body]
fn sha256(data: &[u8]) -> (digest: Vec<u8>)
    ensures
        digest@ == sha256_of(data@),
        digest@.len() == 32,
{
    let mut h = sha2::Sha256::new();
    h.update(data);
    h.finalize().to_vec()
}

/// Lower-case hexadecimal SHA-256 digest of `data` (64 characters).
pub fn sha256_hex(data: &[u8]) -> (s: String)
    ensures
        s@ == hex_of_bytes(sha256_of(data@)),
        s@.len() == 64,
        vstd::utf8::encode_utf8(s@).len() == 64,
        forall|i: int| 0 <= i < s@.len() ==> is_hex_char(#[trigger] s@[i]),
{
    let d = sha256(data);
    proof {
        lemma_hex_of_bytes(d@);
        vstd::utf8::is_ascii_chars_encode_utf8(hex_of_bytes(d@));
    }
    to_hex_lower(d.as_slice())
}

/// The digit of `d < 16` is an ASCII hexadecimal digit.
pub proof fn lemma_hex_digit(d: int)
    requires
        0 <= d < 16,
    ensures
        is_hex_char(hex_digit(d)),
        '\0' <= hex_digit(d) <= '\u{7f}',
        hex_digit(d) as int == if d < 10 {
            48 + d
        } else {
            87 + d
        },
{
}

/// Hexadecimal text has two ASCII hexadecimal digits per byte.
pub proof fn lemma_hex_of_bytes(b: Seq<u8>)
    ensures
        hex_of_bytes(b).len() == 2 * b.len(),
        forall|i: int| 0 <= i < hex_of_bytes(b).len() ==> is_hex_char(#[trigger] hex_of_bytes(b)[i]),
        vstd::utf8::is_ascii_chars(hex_of_bytes(b)),
    decreases b.len(),
{
    if b.len() > 0 {
        lemma_hex_of_bytes(b.drop_last());
        lemma_hex_digit((b.last() / 16) as int);
        lemma_hex_digit((b.last() % 16) as int);
        let h = hex_of_bytes(b);
        let p = hex_of_bytes(b.drop_last());
        assert forall|i: int| 0 <= i < h.len() implies is_hex_char(#[trigger] h[i]) && '\0' <= h[i]
            <= '\u{7f}' by {
            if i < p.len() {
                assert(h[i] == p[i]);
            }
        }
    }
}

/// The value of a lower-case hexadecimal digit: `0`-`9` are 0 to 9, `a`-`f`
/// are 10 to 15 (-1 for any other character).
pub open spec fn hex_value(c: char) -> int {
    if '0' <= c && c <= '9' {
        c as int - '0' as int
    } else if 'a' <= c && c <= 'f' {
        c as int - 'a' as int + 10
    } else {
        -1
    }
}

/// Hexadecimal text decodes back to its bytes: two digits per byte, the
/// high nibble first, each a lower-case hexadecimal digit.
pub proof fn law_hex_of_bytes_decodes(b: Seq<u8>)
    ensures
        hex_of_bytes(b).len() == 2 * b.len(),
        forall|i: int|
            0 <= i < b.len() ==> hex_value(hex_of_bytes(b)[2 * i]) == #[trigger] b[i] / 16
                && hex_value(hex_of_bytes(b)[2 * i + 1]) == b[i] % 16,
    decreases b.len(),
{
    lemma_hex_of_bytes(b);
    if b.len() > 0 {
        let p = b.drop_last();
        law_hex_of_bytes_decodes(p);
        lemma_hex_of_bytes(p);
        let h = hex_of_bytes(b);
        let hp = hex_of_bytes(p);
        let n = b.len() - 1;
        assert forall|i: int| 0 <= i < b.len() implies hex_value(h[2 * i]) == #[trigger] b[i] / 16
            && hex_value(h[2 * i + 1]) == b[i] % 16 by {
            if i < n {
                assert(p[i] == b[i]);
                assert(h[2 * i] == hp[2 * i]);
                assert(h[2 * i + 1] == hp[2 * i + 1]);
            } else {
                assert(h[2 * i] == hex_digit((b.last() / 16) as int));
                assert(h[2 * i + 1] == hex_digit((b.last() % 16) as int));
            }
        }
    }
}

/// Sixteen equal nibbles make equal numbers.
proof fn lemma_nibbles_determine(n: u64, m: u64)
    by (bit_vector)
    requires
        (n >> 60u64) & 0xf == (m >> 60u64) & 0xf,
        (n >> 56u64) & 0xf == (m >> 56u64) & 0xf,
        (n >> 52u64) & 0xf == (m >> 52u64) & 0xf,
        (n >> 48u64) & 0xf == (m >> 48u64) & 0xf,
        (n >> 44u64) & 0xf == (m >> 44u64) & 0xf,
        (n >> 40u64) & 0xf == (m >> 40u64) & 0xf,
        (n >> 36u64) & 0xf == (m >> 36u64) & 0xf,
        (n >> 32u64) & 0xf == (m >> 32u64) & 0xf,
        (n >> 28u64) & 0xf == (m >> 28u64) & 0xf,
        (n >> 24u64) & 0xf == (m >> 24u64) & 0xf,
        (n >> 20u64) & 0xf == (m >> 20u64) & 0xf,
        (n >> 16u64) & 0xf == (m >> 16u64) & 0xf,
        (n >> 12u64) & 0xf == (m >> 12u64) & 0xf,
        (n >> 8u64) & 0xf == (m >> 8u64) & 0xf,
        (n >> 4u64) & 0xf == (m >> 4u64) & 0xf,
        (n >> 0u64) & 0xf == (m >> 0u64) & 0xf,
    ensures
        n == m,
{
}

/// A nibble is below sixteen.
proof fn lemma_nibble_bound(n: u64, s: u64)
    by (bit_vector)
    ensures
        (n >> s) & 0xf < 16,
{
}

/// Distinct numbers have distinct sixteen-digit hexadecimal texts.
pub proof fn lemma_hex_of_u64_injective(n: u64, m: u64)
    requires
        hex_of_u64(n) == hex_of_u64(m),
    ensures
        n == m,
{
    assert forall|i: int| 0 <= i < 16 implies #[trigger] nibble(n, i) == nibble(m, i) by {
        lemma_nibble_bound(n, (60 - 4 * i) as u64);
        lemma_nibble_bound(m, (60 - 4 * i) as u64);
        assert(hex_of_u64(n)[i] == hex_of_u64(m)[i]);
        assert(hex_of_u64(n)[i] == hex_digit(nibble(n, i) as int));
        assert(hex_of_u64(m)[i] == hex_digit(nibble(m, i) as int));
        lemma_hex_digit(nibble(n, i) as int);
        lemma_hex_digit(nibble(m, i) as int);
    }
    assert(nibble(n, 0) == nibble(m, 0));
    assert(nibble(n, 1) == nibble(m, 1));
    assert(nibble(n, 2) == nibble(m, 2));
    assert(nibble(n, 3) == nibble(m, 3));
    assert(nibble(n, 4) == nibble(m, 4));
    assert(nibble(n, 5) == nibble(m, 5));
    assert(nibble(n, 6) == nibble(m, 6));
    assert(nibble(n, 7) == nibble(m, 7));
    assert(nibble(n, 8) == nibble(m, 8));
    assert(nibble(n, 9) == nibble(m, 9));
    assert(nibble(n, 10) == nibble(m, 10));
    assert(nibble(n, 11) == nibble(m, 11));
    assert(nibble(n, 12) == nibble(m, 12));
    assert(nibble(n, 13) == nibble(m, 13));
    assert(nibble(n, 14) == nibble(m, 14));
    assert(nibble(n, 15) == nibble(m, 15));
    lemma_nibbles_determine(n, m);
}

} // verus!
