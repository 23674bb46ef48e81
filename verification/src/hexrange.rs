//! Classifying hex prefixes into range queries over the stored byte form:
//! a full-length prefix is an equality, an even prefix a half-open byte
//! range, and an odd prefix (or a range with no upper bound) a lower bound
//! alone.

use vstd::prelude::*;

use crate::hexutil::{all_hex_digits, hex_decode, hex_decode_spec, is_hex};

verus! {

/// A compiled hex prefix search.
#[derive(Debug)]
pub enum HexSearch {
    /// An exact 32-byte value.
    Exact(Vec<u8>),
    /// A half-open byte range `(lower, upper)`, both bounds exclusive.
    Range(Vec<u8>, Vec<u8>),
    /// A lower bound alone, exclusive.
    LowerOnly(Vec<u8>),
}

/// The mathematical value of a compiled search.
pub ghost enum HexSearchV {
    Exact(Seq<u8>),
    Range(Seq<u8>, Seq<u8>),
    LowerOnly(Seq<u8>),
}

impl View for HexSearch {
    type V = HexSearchV;

    open spec fn view(&self) -> HexSearchV {
        match self {
            HexSearch::Exact(b) => HexSearchV::Exact(b@),
            HexSearch::Range(lo, hi) => HexSearchV::Range(lo@, hi@),
            HexSearch::LowerOnly(lo) => HexSearchV::LowerOnly(lo@),
        }
    }
}

impl DeepView for HexSearch {
    type V = HexSearchV;

    open spec fn deep_view(&self) -> HexSearchV {
        self@
    }
}

/// Strict lexicographic order on byte strings: a proper prefix sorts first.
pub open spec fn lex_lt(a: Seq<u8>, b: Seq<u8>) -> bool
    decreases a.len(),
{
    if b.len() == 0 {
        false
    } else if a.len() == 0 {
        true
    } else if a[0] < b[0] {
        true
    } else if a[0] > b[0] {
        false
    } else {
        lex_lt(a.drop_first(), b.drop_first())
    }
}

/// The index of the last byte below `0xff`, if any.
pub open spec fn last_below_ff(b: Seq<u8>) -> Option<int>
    decreases b.len(),
{
    if b.len() == 0 {
        None
    } else if b.last() == 0xff {
        last_below_ff(b.drop_last())
    } else {
        Some(b.len() - 1)
    }
}

/// The least byte string above every string starting with `b`: trailing
/// `0xff` bytes fall away and the last remaining byte steps up.  A prefix of
/// all `0xff` bytes has no such bound.
pub open spec fn next_prefix(b: Seq<u8>) -> Option<Seq<u8>> {
    match last_below_ff(b) {
        None => None,
        Some(k) => Some(b.take(k).push((b[k] + 1) as u8)),
    }
}

/// The compiled form of one hex prefix: nothing for a string that is not hex
/// or too long; an equality for 64 digits; a lower bound padded with a low
/// nibble for an odd prefix; otherwise a byte range, degenerating to a lower
/// bound when no upper bound exists.
pub open spec fn hex_range_spec(s: Seq<char>) -> Option<HexSearchV> {
    if !(all_hex_digits(s) && s.len() <= 64) {
        None
    } else if s.len() == 64 {
        Some(HexSearchV::Exact(hex_decode_spec(s)))
    } else if s.len() % 2 == 1 {
        Some(HexSearchV::LowerOnly(hex_decode_spec(s.push('0'))))
    } else {
        let lower = hex_decode_spec(s);
        match next_prefix(lower) {
            None => Some(HexSearchV::LowerOnly(lower)),
            Some(upper) => Some(HexSearchV::Range(lower, upper)),
        }
    }
}

/// Strict lexicographic comparison of byte vectors.
pub fn lex_lt_bytes(a: &Vec<u8>, b: &Vec<u8>) -> (r: bool)
    ensures
        r == lex_lt(a@, b@),
{
    let mut i: usize = 0;
    proof {
        assert(a@.skip(0) =~= a@);
        assert(b@.skip(0) =~= b@);
    }
    loop
        invariant_except_break
            0 <= i <= a.len(),
            i <= b.len(),
            forall|j: int| 0 <= j < i ==> a@[j] == b@[j],
            lex_lt(a@, b@) == lex_lt(a@.skip(i as int), b@.skip(i as int)),
        ensures
            lex_lt(a@, b@) == lex_lt(a@.skip(i as int), b@.skip(i as int)),
            (i >= a.len() || i >= b.len() || a@[i as int] != b@[i as int]),
            0 <= i <= a.len(),
            i <= b.len(),
        decreases a.len() - i,
    {
        if i >= a.len() || i >= b.len() {
            break;
        }
        if a[i] != b[i] {
            break;
        }
        proof {
            let sa = a@.skip(i as int);
            let sb = b@.skip(i as int);
            assert(sa.len() > 0 && sb.len() > 0);
            assert(sa[0] == a@[i as int] && sb[0] == b@[i as int]);
            assert(sa.drop_first() =~= a@.skip(i + 1));
            assert(sb.drop_first() =~= b@.skip(i + 1));
        }
        i = i + 1;
    }
    let r: bool = if i >= b.len() {
        false
    } else if i >= a.len() {
        true
    } else {
        a[i] < b[i]
    };
    proof {
        let sa = a@.skip(i as int);
        let sb = b@.skip(i as int);
        if i >= b.len() {
            assert(sb.len() == 0);
        } else if i >= a.len() {
            assert(sa.len() == 0 && sb.len() > 0);
        } else {
            assert(sa.len() > 0 && sb.len() > 0);
            assert(sa[0] == a@[i as int] && sb[0] == b@[i as int]);
            assert(sa[0] != sb[0]);
        }
    }
    r
}

/// Compile one hex prefix into a search form, or nothing for a string that
/// is not hex or is longer than a full id.
pub fn hex_range(s: &str) -> (r: Option<HexSearch>)
    ensures
        r.deep_view() == hex_range_spec(s@),
{
    let n: usize = s.unicode_len();
    if !is_hex(s) || n > 64 {
        return None;
    }
    if n == 64 {
        let b = hex_decode(s);
        proof {
            lemma_all_hex_even_decodable(s@);
        }
        return Some(HexSearch::Exact(b.unwrap()));
    }
    if n % 2 == 1 {
        let mut padded = String::from_str(s);
        padded.append("0");
        proof {
            reveal_strlit("0");
            assert(padded@ =~= s@.push('0'));
            lemma_push_zero_hex(s@);
        }
        let b = hex_decode(padded.as_str());
        return Some(HexSearch::LowerOnly(b.unwrap()));
    }
    proof {
        lemma_all_hex_even_decodable(s@);
    }
    let lower = hex_decode(s).unwrap();
    let ghost lo = lower@;
    let mut upper = lower.clone();
    proof {
        assert(upper@ =~= lo);
    }
    loop
        invariant_except_break
            upper@.len() <= lo.len(),
            upper@ =~= lo.take(upper@.len() as int),
            last_below_ff(lo) == last_below_ff(upper@),
        ensures
            upper@.len() <= lo.len(),
            upper@ =~= lo.take(upper@.len() as int),
            last_below_ff(lo) == last_below_ff(upper@),
            upper@.len() == 0 || upper@.last() != 0xff,
        decreases upper.len(),
    {
        if upper.len() == 0 {
            break;
        }
        let last = upper[upper.len() - 1];
        if last != 0xff {
            break;
        }
        proof {
            assert(upper@.last() == 0xff);
            assert(upper@.drop_last() =~= lo.take(upper@.len() - 1));
        }
        upper.pop();
    }
    if upper.len() == 0 {
        assert(last_below_ff(lo) is None);
        return Some(HexSearch::LowerOnly(lower));
    }
    proof {
        assert(last_below_ff(upper@) == Some(upper@.len() - 1));
        assert(lo[upper@.len() - 1] == upper@.last());
    }
    let k = upper.len() - 1;
    let incremented = upper[k] + 1;
    let ghost up0 = upper@;
    upper.pop();
    upper.push(incremented);
    proof {
        assert(upper@ =~= lo.take(up0.len() - 1).push((lo[up0.len() - 1] + 1) as u8));
    }
    Some(HexSearch::Range(lower, upper))
}

/// An all-hex string of even length decodes.
proof fn lemma_all_hex_even_decodable(s: Seq<char>)
    requires
        all_hex_digits(s),
        s.len() % 2 == 0,
    ensures
        crate::hexutil::is_decodable_hex(s),
{
}

/// Padding an odd all-hex string with a zero digit makes it decodable.
proof fn lemma_push_zero_hex(s: Seq<char>)
    requires
        all_hex_digits(s),
        s.len() % 2 == 1,
    ensures
        crate::hexutil::is_decodable_hex(s.push('0')),
{
    assert forall|i: int|
        0 <= i < s.push('0').len() implies crate::hexutil::is_hex_digit(#[trigger] s.push('0')[i]) by {
        if i < s.len() {
            assert(s.push('0')[i] == s[i]);
        } else {
            assert(s.push('0')[i] == '0');
        }
    }
}

} // verus!
