//! Byte-level building blocks: ASCII literals as byte vectors, decimal
//! rendering of integers, JSON string escaping, and substring search.

use vstd::prelude::*;
use vstd::string::StringSliceAdditionalSpecFns;

verus! {

/// The bytes of an ASCII character sequence, one byte per character.
pub open spec fn bytes_of(s: Seq<char>) -> Seq<u8> {
    Seq::new(s.len(), |i: int| s[i] as u8)
}

/// Copies an ASCII string slice into a byte vector, one byte per character.
pub fn ascii_bytes(s: &str) -> (r: Vec<u8>)
    requires
        s.is_ascii(),
    ensures
        r@ == bytes_of(s@),
{
    proof {
        vstd::string::is_ascii_spec_bytes(s);
        assert(s.spec_bytes() =~= bytes_of(s@));
    }
    vstd::string::StrSliceExecFns::as_bytes_vec(s)
}

/// The decimal digits of `n`, most significant first, as ASCII bytes.
pub open spec fn dec_digits(n: nat) -> Seq<u8>
    decreases n,
{
    if n < 10 {
        seq![(0x30 + n) as u8]
    } else {
        dec_digits(n / 10).push((0x30 + n % 10) as u8)
    }
}

pub proof fn lemma_dec_digits_range(n: nat)
    ensures
        dec_digits(n).len() >= 1,
        forall|i: int| 0 <= i < dec_digits(n).len() ==> 0x30 <= #[trigger] dec_digits(n)[i] <= 0x39,
    decreases n,
{
    if n >= 10 {
        lemma_dec_digits_range(n / 10);
    }
}

/// Renders `n` in decimal, most significant digit first.
pub fn dec_u64(n: u64) -> (r: Vec<u8>)
    ensures
        r@ == dec_digits(n as nat),
    decreases n,
{
    if n < 10 {
        let mut v: Vec<u8> = Vec::new();
        v.push(0x30 + (n as u8));
        proof {
            assert(v@ =~= dec_digits(n as nat));
        }
        v
    } else {
        let mut v = dec_u64(n / 10);
        v.push(0x30 + ((n % 10) as u8));
        proof {
            assert(v@ =~= dec_digits(n as nat));
        }
        v
    }
}

/// The lower-case hexadecimal digit for a value below 16.
pub open spec fn hex_digit(n: u8) -> u8 {
    if n < 10 {
        (0x30 + n) as u8
    } else {
        (0x57 + n) as u8
    }
}

fn hex_digit_exec(n: u8) -> (r: u8)
    requires
        n < 16,
    ensures
        r == hex_digit(n),
{
    if n < 10 {
        0x30 + n
    } else {
        0x57 + n
    }
}

/// How one byte appears inside a JSON string: quote, backslash and control
/// bytes are escaped; everything else stands as it is.
pub open spec fn esc_byte(b: u8) -> Seq<u8> {
    if b == 0x22 {
        seq![0x5cu8, 0x22u8]
    } else if b == 0x5c {
        seq![0x5cu8, 0x5cu8]
    } else if b == 0x08 {
        seq![0x5cu8, 0x62u8]
    } else if b == 0x09 {
        seq![0x5cu8, 0x74u8]
    } else if b == 0x0a {
        seq![0x5cu8, 0x6eu8]
    } else if b == 0x0c {
        seq![0x5cu8, 0x66u8]
    } else if b == 0x0d {
        seq![0x5cu8, 0x72u8]
    } else if b < 0x20 {
        seq![0x5cu8, 0x75u8, 0x30u8, 0x30u8, hex_digit(b / 16), hex_digit(b % 16)]
    } else {
        seq![b]
    }
}

/// The body of a JSON string holding exactly the bytes of `s`.
pub open spec fn json_escaped(s: Seq<u8>) -> Seq<u8>
    decreases s.len(),
{
    if s.len() == 0 {
        Seq::<u8>::empty()
    } else {
        esc_byte(s[0]) + json_escaped(s.drop_first())
    }
}

/// A complete JSON string token: a quote, the escaped bytes, a quote.
pub open spec fn json_quoted(s: Seq<u8>) -> Seq<u8> {
    seq![0x22u8] + json_escaped(s) + seq![0x22u8]
}

pub proof fn lemma_json_escaped_push(s: Seq<u8>, b: u8)
    ensures
        json_escaped(s.push(b)) == json_escaped(s) + esc_byte(b),
    decreases s.len(),
{
    if s.len() == 0 {
        assert(s.push(b)[0] == b);
        assert(s.push(b).drop_first() =~= Seq::<u8>::empty());
        assert(json_escaped(Seq::<u8>::empty()) == Seq::<u8>::empty());
        assert(json_escaped(s.push(b)) == esc_byte(b) + Seq::<u8>::empty());
        assert(json_escaped(s) == Seq::<u8>::empty());
        assert(json_escaped(s.push(b)) =~= json_escaped(s) + esc_byte(b));
    } else {
        assert(s.push(b)[0] == s[0]);
        assert(s.push(b).drop_first() =~= s.drop_first().push(b));
        lemma_json_escaped_push(s.drop_first(), b);
        assert(json_escaped(s.push(b)) == esc_byte(s[0]) + json_escaped(s.drop_first().push(b)));
        assert(json_escaped(s.push(b)) =~= json_escaped(s) + esc_byte(b));
    }
}

/// No escaped form ever contains a raw newline byte.
pub proof fn lemma_esc_byte_no_newline(b: u8)
    ensures
        forall|i: int| 0 <= i < esc_byte(b).len() ==> #[trigger] esc_byte(b)[i] != 0x0a,
{
}

pub proof fn lemma_json_escaped_no_newline(s: Seq<u8>)
    ensures
        forall|i: int| 0 <= i < json_escaped(s).len() ==> #[trigger] json_escaped(s)[i] != 0x0a,
    decreases s.len(),
{
    if s.len() > 0 {
        lemma_esc_byte_no_newline(s[0]);
        lemma_json_escaped_no_newline(s.drop_first());
        assert forall|i: int| 0 <= i < json_escaped(s).len() implies #[trigger] json_escaped(s)[i]
            != 0x0a by {
            if i < esc_byte(s[0]).len() {
                assert(json_escaped(s)[i] == esc_byte(s[0])[i]);
            } else {
                assert(json_escaped(s)[i] == json_escaped(s.drop_first())[i - esc_byte(
                    s[0],
                ).len()]);
            }
        }
    }
}

/// Escapes `s` for use inside a JSON string.
pub fn json_escape(s: &Vec<u8>) -> (r: Vec<u8>)
    ensures
        r@ == json_escaped(s@),
{
    let mut out: Vec<u8> = Vec::new();
    let mut i: usize = 0;
    while i < s.len()
        invariant
            0 <= i <= s@.len(),
            out@ == json_escaped(s@.take(i as int)),
        decreases s@.len() - i,
    {
        let b = s[i];
        proof {
            lemma_json_escaped_push(s@.take(i as int), s@[i as int]);
            assert(s@.take(i as int).push(s@[i as int]) =~= s@.take(i as int + 1));
        }
        if b == 0x22 {
            out.push(0x5c);
            out.push(0x22);
        } else if b == 0x5c {
            out.push(0x5c);
            out.push(0x5c);
        } else if b == 0x08 {
            out.push(0x5c);
            out.push(0x62);
        } else if b == 0x09 {
            out.push(0x5c);
            out.push(0x74);
        } else if b == 0x0a {
            out.push(0x5c);
            out.push(0x6e);
        } else if b == 0x0c {
            out.push(0x5c);
            out.push(0x66);
        } else if b == 0x0d {
            out.push(0x5c);
            out.push(0x72);
        } else if b < 0x20 {
            out.push(0x5c);
            out.push(0x75);
            out.push(0x30);
            out.push(0x30);
            out.push(hex_digit_exec(b / 16));
            out.push(hex_digit_exec(b % 16));
        } else {
            out.push(b);
        }
        proof {
            assert(out@ =~= json_escaped(s@.take(i as int + 1)));
        }
        i += 1;
    }
    proof {
        assert(s@.take(s@.len() as int) =~= s@);
    }
    out
}

/// `nee` occurs in `hay` starting at position `i`.
pub open spec fn is_match_at(hay: Seq<u8>, nee: Seq<u8>, i: int) -> bool {
    0 <= i && i + nee.len() <= hay.len() && hay.subrange(i, i + nee.len() as int) == nee
}

/// `nee` occurs somewhere in `hay`.
pub open spec fn has_sub(hay: Seq<u8>, nee: Seq<u8>) -> bool {
    exists|i: int| is_match_at(hay, nee, i)
}

/// Whether two byte strings hold exactly the same bytes.
pub fn bytes_equal(a: &Vec<u8>, b: &Vec<u8>) -> (r: bool)
    ensures
        r == (a@ == b@),
{
    if a.len() != b.len() {
        return false;
    }
    let mut i: usize = 0;
    while i < a.len()
        invariant
            a@.len() == b@.len(),
            0 <= i <= a@.len(),
            forall|k: int| 0 <= k < i ==> a@[k] == b@[k],
        decreases a@.len() - i,
    {
        if a[i] != b[i] {
            return false;
        }
        i += 1;
    }
    proof {
        assert(a@ =~= b@);
    }
    true
}

/// Substring search: whether `nee` occurs anywhere in `hay`.
pub fn contains_sub(hay: &Vec<u8>, nee: &Vec<u8>) -> (r: bool)
    ensures
        r == has_sub(hay@, nee@),
{
    if nee.len() > hay.len() {
        proof {
            assert(forall|i: int| !is_match_at(hay@, nee@, i));
        }
        return false;
    }
    if nee.len() == 0 {
        proof {
            assert(hay@.subrange(0, 0) =~= nee@);
            assert(is_match_at(hay@, nee@, 0));
        }
        return true;
    }
    let hn = hay.len();
    let mn = nee.len();
    let end = hn - mn;
    let mut i: usize = 0;
    while i <= end
        invariant
            hn == hay@.len(),
            mn == nee@.len(),
            1 <= mn <= hn,
            end == hn - mn,
            0 <= i <= end + 1,
            forall|k: int| 0 <= k < i ==> !is_match_at(hay@, nee@, k),
        decreases end + 1 - i,
    {
        let mut j: usize = 0;
        let mut ok = true;
        while j < nee.len() && ok
            invariant
                hn == hay@.len(),
                mn == nee@.len(),
                1 <= mn <= hn,
                i + mn <= hn,
                0 <= j <= nee@.len(),
                ok ==> forall|t: int| 0 <= t < j ==> hay@[i + t] == nee@[t],
                !ok ==> !is_match_at(hay@, nee@, i as int),
            decreases nee@.len() - j + (if ok {
                1int
            } else {
                0int
            }),
        {
            if hay[i + j] != nee[j] {
                proof {
                    if is_match_at(hay@, nee@, i as int) {
                        assert(hay@.subrange(i as int, i + nee@.len() as int)[j as int]
                            == nee@[j as int]);
                    }
                }
                ok = false;
            } else {
                j += 1;
            }
        }
        if ok {
            proof {
                assert(hay@.subrange(i as int, i + nee@.len() as int) =~= nee@);
                assert(is_match_at(hay@, nee@, i as int));
            }
            return true;
        }
        i += 1;
    }
    proof {
        assert(forall|k: int| is_match_at(hay@, nee@, k) ==> 0 <= k <= end);
    }
    false
}

} // verus!
