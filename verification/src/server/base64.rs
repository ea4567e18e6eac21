//! Bytes as text in base64.
use data_encoding::{DecodeError, BASE64};
use vstd::prelude::*;

verus! {

/// The error of a base64 decoder: what is wrong with the text, and where.
#[verifier::external_type_specification]
#[verifier::external_body]
pub struct ExDecodeError(DecodeError);

/// The character for six bits.
#[verifier::opaque]
pub open spec fn sextet(v: int) -> char {
    if v < 26 {
        ('A' as int + v) as char
    } else if v < 52 {
        ('a' as int + (v - 26)) as char
    } else if v < 62 {
        ('0' as int + (v - 52)) as char
    } else if v == 62 {
        '+'
    } else {
        '/'
    }
}

/// The number that up to three bytes make in 24 bits; missing bytes count as 0.
pub open spec fn triple(bytes: Seq<u8>) -> int {
    (if bytes.len() > 0 { bytes[0] as int } else { 0 }) * 65536 + (if bytes.len() > 1 {
        bytes[1] as int
    } else {
        0
    }) * 256 + (if bytes.len() > 2 { bytes[2] as int } else { 0 })
}

/// The four characters of one to three bytes, with `=` in place of what is missing.
pub open spec fn block(bytes: Seq<u8>) -> Seq<char> {
    let n = triple(bytes);
    seq![
        sextet(n / 262144),
        sextet(n / 4096 % 64),
        if bytes.len() > 1 {
            sextet(n / 64 % 64)
        } else {
            '='
        },
        if bytes.len() > 2 {
            sextet(n % 64)
        } else {
            '='
        },
    ]
}

/// The bytes in base64 (RFC 4648), padded.
pub open spec fn base64(bytes: Seq<u8>) -> Seq<char>
    decreases bytes.len(),
{
    if bytes.len() == 0 {
        Seq::empty()
    } else if bytes.len() <= 3 {
        block(bytes)
    } else {
        block(bytes.take(3)) + base64(bytes.skip(3))
    }
}

/// Whether four characters are those of these one to three bytes.
pub open spec fn stands_for(chars: Seq<char>, bytes: Seq<u8>) -> bool {
    1 <= bytes.len() <= 3 && block(bytes) == chars
}

/// The bytes that a text stands for: each four characters stand for one to three bytes,
/// and padding may occur inside the text as well as at its end.
pub open spec fn unbase64(s: Seq<char>) -> Option<Seq<u8>>
    decreases s.len(),
{
    if s.len() == 0 {
        Some(Seq::empty())
    } else if s.len() < 4 || !exists|b: Seq<u8>| #[trigger] stands_for(s.take(4), b) {
        None
    } else {
        match unbase64(s.skip(4)) {
            Some(rest) => Some((choose|b: Seq<u8>| #[trigger] stands_for(s.take(4), b)) + rest),
            None => None,
        }
    }
}

/// The most bytes that are written at a time. They fill whole blocks, and the encoder takes
/// so many of them on any machine.
const BYTES_AT_ONCE: usize = 0x60_0000;

/// The most characters that are read at a time. They make up whole blocks, and the decoder
/// takes so many of them on any machine.
const CHARS_AT_ONCE: usize = 0x400_0000;

/// Calls [`data_encoding::Encoding::encode`] of [`BASE64`], which writes the bytes in the
/// padded base64 of RFC 4648. It takes no more bytes than `requires` says.
#[verifier::external_body]
fn encode_some(bytes: &[u8]) -> (r: String)
    requires
        bytes@.len() <= usize::MAX / 512,
    ensures
        r@ == base64(bytes@),
{
    BASE64.encode(bytes)
}

/// Calls [`data_encoding::Encoding::decode`] of [`BASE64`]. It reads blocks of four
/// characters, each with its own padding; it refuses other characters, a length that is no
/// multiple of four, wrong padding, and bits that are set behind the last byte of a block. It
/// takes at most an eighth of `usize::MAX` bytes, and a character has at most four.
#[verifier::external_body]
fn decode_some(s: &str) -> (r: Result<Vec<u8>, DecodeError>)
    requires
        s@.len() <= usize::MAX / 32,
    ensures
        r is Ok == unbase64(s@) is Some,
        r matches Ok(bytes) ==> unbase64(s@) == Some(bytes@),
{
    BASE64.decode(s.as_bytes())
}

/// Whole blocks are written by themselves.
pub proof fn base64_of_blocks(a: Seq<u8>, b: Seq<u8>)
    requires
        a.len() % 3 == 0,
    ensures
        base64(a + b) == base64(a) + base64(b),
    decreases a.len(),
{
    if a.len() == 0 {
        assert(a + b =~= b);
        assert(base64(a) + base64(b) =~= base64(b));
    } else if b.len() == 0 {
        assert(a + b =~= a);
        assert(base64(a) + base64(b) =~= base64(a));
    } else {
        let rest = a.skip(3);
        base64_of_blocks(rest, b);
        assert((a + b).take(3) =~= a.take(3));
        assert((a + b).skip(3) =~= rest + b);
        if a.len() == 3 {
            assert(a.take(3) =~= a);
            assert(base64(rest) =~= Seq::<char>::empty());
        }
        assert(base64(a) =~= block(a.take(3)) + base64(rest));
        assert(base64(a + b) =~= base64(a) + base64(b));
    }
}

/// Whole blocks are read by themselves.
pub proof fn unbase64_of_blocks(a: Seq<char>, b: Seq<char>)
    requires
        a.len() % 4 == 0,
    ensures
        unbase64(a + b) == (match (unbase64(a), unbase64(b)) {
            (Some(x), Some(y)) => Some(x + y),
            _ => None,
        }),
    decreases a.len(),
{
    if a.len() == 0 {
        assert(a + b =~= b);
        if unbase64(b) is Some {
            assert(unbase64(a)->0 + unbase64(b)->0 =~= unbase64(b)->0);
        }
    } else {
        let rest = a.skip(4);
        unbase64_of_blocks(rest, b);
        assert((a + b).take(4) =~= a.take(4));
        assert((a + b).skip(4) =~= rest + b);
        if unbase64(a) is Some && unbase64(b) is Some {
            assert(unbase64(a + b)->0 =~= unbase64(a)->0 + unbase64(b)->0);
        }
    }
}

/// The bytes from `i` to `end` in base64.
#[verifier::opaque]
spec fn written(bytes: Seq<u8>, i: int, end: int) -> Seq<char> {
    base64(bytes.subrange(i, end))
}

proof fn written_at_the_ends(bytes: Seq<u8>)
    ensures
        written(bytes, 0, 0) == Seq::<char>::empty(),
        written(bytes, 0, bytes.len() as int) == base64(bytes),
{
    reveal(written);
    assert(bytes.subrange(0, bytes.len() as int) =~= bytes);
}

/// What is written up to `end` is what is written up to `i`, where whole blocks end, and what
/// is written from there.
proof fn written_up_to(bytes: Seq<u8>, i: int, end: int)
    requires
        0 <= i <= end <= bytes.len(),
        i % 3 == 0,
    ensures
        written(bytes, 0, end) == written(bytes, 0, i) + written(bytes, i, end),
{
    reveal(written);
    assert(bytes.subrange(0, i) + bytes.subrange(i, end) =~= bytes.subrange(0, end));
    base64_of_blocks(bytes.subrange(0, i), bytes.subrange(i, end));
}

fn encode_range(bytes: &[u8], i: usize, end: usize) -> (r: String)
    requires
        i <= end <= bytes@.len(),
        end - i <= BYTES_AT_ONCE,
    ensures
        r@ == written(bytes@, i as int, end as int),
{
    let r = encode_some(vstd::slice::slice_subrange(bytes, i, end));
    proof {
        reveal(written);
    }
    r
}

/// Writes bytes in base64.
pub fn encode(bytes: &[u8]) -> (r: String)
    ensures
        r@ == base64(bytes@),
{
    let mut r = String::new();
    let mut i: usize = 0;
    proof {
        written_at_the_ends(bytes@);
    }
    while i < bytes.len()
        invariant
            i <= bytes.len(),
            i % 3 == 0 || i == bytes.len(),
            r@ == written(bytes@, 0, i as int),
        decreases bytes.len() - i,
    {
        let end: usize = if bytes.len() - i > BYTES_AT_ONCE {
            i + BYTES_AT_ONCE
        } else {
            bytes.len()
        };
        let text = encode_range(bytes, i, end);
        r.append(text.as_str());
        proof {
            written_up_to(bytes@, i as int, end as int);
        }
        i = end;
    }
    r
}

/// The bytes that the characters from `i` to `end` stand for.
#[verifier::opaque]
spec fn read(s: Seq<char>, i: int, end: int) -> Option<Seq<u8>> {
    unbase64(s.subrange(i, end))
}

proof fn read_at_the_ends(s: Seq<char>)
    ensures
        read(s, 0, 0) == Some(Seq::<u8>::empty()),
        read(s, 0, s.len() as int) == unbase64(s),
{
    reveal(read);
    assert(s.subrange(0, s.len() as int) =~= s);
}

/// What is read up to `end` is what is read up to `i`, where whole blocks end, and what is read
/// from there.
proof fn read_up_to(s: Seq<char>, i: int, end: int)
    requires
        0 <= i <= end <= s.len(),
        i % 4 == 0,
    ensures
        read(s, 0, end) == (match (read(s, 0, i), read(s, i, end)) {
            (Some(x), Some(y)) => Some(x + y),
            _ => None,
        }),
{
    reveal(read);
    assert(s.subrange(0, i) + s.subrange(i, end) =~= s.subrange(0, end));
    unbase64_of_blocks(s.subrange(0, i), s.subrange(i, end));
}

fn decode_range(s: &str, i: usize, end: usize) -> (r: Option<Vec<u8>>)
    requires
        i <= end <= s@.len(),
        end - i <= CHARS_AT_ONCE,
    ensures
        r is Some == read(s@, i as int, end as int) is Some,
        r matches Some(bytes) ==> read(s@, i as int, end as int) == Some(bytes@),
{
    proof {
        reveal(read);
    }
    match decode_some(s.substring_char(i, end)) {
        Ok(bytes) => Some(bytes),
        Err(_) => None,
    }
}

fn decode_all(s: &str, n: usize) -> (r: Option<Vec<u8>>)
    requires
        n == s@.len(),
        read(s@, 0, 0) == Some(Seq::<u8>::empty()),
    ensures
        r is Some == read(s@, 0, n as int) is Some,
        r matches Some(bytes) ==> read(s@, 0, n as int) == Some(bytes@),
{
    let mut r: Vec<u8> = Vec::new();
    let mut i: usize = 0;
    assert(r@ =~= Seq::<u8>::empty());
    while i < n
        invariant
            i <= n,
            n == s@.len(),
            i % 4 == 0 || i == n,
            read(s@, 0, i as int) == Some(r@),
        decreases n - i,
    {
        let end: usize = if n - i > CHARS_AT_ONCE {
            i + CHARS_AT_ONCE
        } else {
            n
        };
        proof {
            read_up_to(s@, i as int, end as int);
        }
        match decode_range(s, i, end) {
            Some(mut bytes) => {
                r.append(&mut bytes);
            },
            None => {
                if end < n {
                    proof {
                        read_up_to(s@, end as int, n as int);
                    }
                }
                return None;
            },
        }
        i = end;
    }
    Some(r)
}

/// The bytes that a text in base64 stands for, if it stands for any.
pub fn decode(s: &str) -> (r: Option<Vec<u8>>)
    ensures
        r is Some == unbase64(s@) is Some,
        r matches Some(bytes) ==> unbase64(s@) == Some(bytes@),
{
    proof {
        read_at_the_ends(s@);
    }
    decode_all(s, s.unicode_len())
}

proof fn sextet_is_injective(a: int, b: int)
    requires
        0 <= a < 64,
        0 <= b < 64,
    ensures
        sextet(a) == sextet(b) ==> a == b,
        sextet(a) != '=',
{
    reveal(sextet);
}

proof fn triple_from_sextets(m: int, n: int)
    requires
        0 <= m < 16777216,
        0 <= n < 16777216,
        m / 262144 == n / 262144,
        m / 4096 % 64 == n / 4096 % 64,
        m / 64 % 64 == n / 64 % 64,
        m % 64 == n % 64,
    ensures
        m == n,
{
}

/// Different bytes have different blocks.
#[verifier::spinoff_prover]
pub proof fn blocks_are_distinct(a: Seq<u8>, b: Seq<u8>)
    requires
        1 <= a.len() <= 3,
        1 <= b.len() <= 3,
        block(a) == block(b),
    ensures
        a == b,
{
    let x = block(a);
    let y = block(b);
    let m = triple(a);
    let n = triple(b);
    assert(0 <= m < 16777216 && 0 <= n < 16777216);
    assert(x[0] == y[0] && x[1] == y[1] && x[2] == y[2] && x[3] == y[3]);
    sextet_is_injective(m / 262144, n / 262144);
    sextet_is_injective(m / 4096 % 64, n / 4096 % 64);
    sextet_is_injective(m / 64 % 64, n / 64 % 64);
    sextet_is_injective(m % 64, n % 64);
    sextet_is_injective(n / 64 % 64, m / 64 % 64);
    sextet_is_injective(n % 64, m % 64);
    assert(a.len() == b.len());
    assert(a.len() <= 1 ==> m / 64 % 64 == 0 && n / 64 % 64 == 0);
    assert(a.len() <= 2 ==> m % 64 == 0 && n % 64 == 0);
    triple_from_sextets(m, n);
    assert(a =~= b);
}

/// Bytes written in base64 read back as themselves.
pub proof fn base64_reads_back(bytes: Seq<u8>)
    ensures
        unbase64(base64(bytes)) == Some(bytes),
    decreases bytes.len(),
{
    let s = base64(bytes);
    if bytes.len() == 0 {
        assert(bytes =~= Seq::<u8>::empty());
    } else {
        let head = if bytes.len() <= 3 {
            bytes
        } else {
            bytes.take(3)
        };
        let rest = if bytes.len() <= 3 {
            Seq::<u8>::empty()
        } else {
            bytes.skip(3)
        };
        assert(s.take(4) =~= block(head));
        assert(s.skip(4) =~= base64(rest));
        assert(stands_for(s.take(4), head));
        let found = choose|b: Seq<u8>| #[trigger] stands_for(s.take(4), b);
        blocks_are_distinct(found, head);
        base64_reads_back(rest);
        assert(head + rest =~= bytes);
    }
}

/// Printable ASCII without a meaning in the query of an address or in a quoted text.
pub open spec fn is_plain(c: char) -> bool {
    &&& 0x20 <= c as u32 <= 0x7e
    &&& c != '&'
    &&& c != '?'
    &&& c != '"'
    &&& c != '\\'
}

/// Every character of base64 is a plain one.
pub proof fn base64_is_plain(bytes: Seq<u8>)
    ensures
        forall|i: int| 0 <= i < base64(bytes).len() ==> is_plain(#[trigger] base64(bytes)[i]),
    decreases bytes.len(),
{
    reveal(sextet);
    if bytes.len() > 3 {
        base64_is_plain(bytes.skip(3));
        let s = base64(bytes);
        assert forall|i: int| 0 <= i < s.len() implies is_plain(#[trigger] s[i]) by {
            if i >= 4 {
                assert(s[i] == base64(bytes.skip(3))[i - 4]);
            } else {
                assert(s[i] == block(bytes.take(3))[i]);
            }
        }
    }
}

/// Different bytes have different texts.
pub proof fn base64_is_injective(a: Seq<u8>, b: Seq<u8>)
    requires
        base64(a) == base64(b),
    ensures
        a == b,
{
    base64_reads_back(a);
    base64_reads_back(b);
}

/// The 64 characters in their order: A to Z, a to z, 0 to 9, plus and slash.
pub proof fn alphabet_is_in_order(v: int)
    requires
        0 <= v < 64,
    ensures
        v < 26 ==> sextet(v) as int == 65 + v,
        26 <= v < 52 ==> sextet(v) as int == 71 + v,
        52 <= v < 62 ==> sextet(v) as int == v - 4,
        v == 62 ==> sextet(v) == '+',
        v == 63 ==> sextet(v) == '/',
{
    reveal(sextet);
}

/// Four characters stand for three bytes, and a rest of one or two bytes takes four as well,
/// filled up with `=`: two for one byte, one for two.
pub proof fn base64_comes_in_fours(bytes: Seq<u8>)
    ensures
        base64(bytes).len() == (bytes.len() + 2) / 3 * 4,
        bytes.len() % 3 == 1 ==> base64(bytes).last() == '=' && base64(bytes)[base64(bytes).len()
            - 2] == '=',
        bytes.len() % 3 == 2 ==> base64(bytes).last() == '=' && base64(bytes)[base64(bytes).len()
            - 2] != '=',
        bytes.len() > 0 && bytes.len() % 3 == 0 ==> base64(bytes).last() != '=',
    decreases bytes.len(),
{
    reveal(sextet);
    if bytes.len() > 3 {
        base64_comes_in_fours(bytes.skip(3));
        let n = base64(bytes).len();
        let rest = base64(bytes.skip(3));
        assert(base64(bytes).last() == rest.last());
        assert(base64(bytes)[n - 2] == rest[rest.len() - 2]);
    }
}

} // verus!
