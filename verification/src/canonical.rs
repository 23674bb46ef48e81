//! The canonical serialization of an event — the UTF-8 form
//! `[0,pubkey,created_at,kind,tags,content]` with standard JSON string
//! escaping — and the digest over it that an event's id must equal.

use vstd::prelude::*;

use sha2::Digest;

use crate::event::{Event, EventV};

verus! {

pub assume_specification[ String::push ](s: &mut String, ch: char)
    ensures
        final(s)@ == old(s)@.push(ch),
;

/// A lowercase hexadecimal digit character.
pub open spec fn lower_hex_char(d: u8) -> char
    recommends
        d < 16,
{
    if d < 10 {
        ((48 + d) as char)
    } else {
        ((87 + d) as char)
    }
}

/// The decimal digits of an integer, most significant first.
pub open spec fn dec_digits(n: u64) -> Seq<char>
    decreases n,
{
    if n < 10 {
        seq![lower_hex_char(n as u8)]
    } else {
        dec_digits(n / 10).push(lower_hex_char((n % 10) as u8))
    }
}

/// How one character appears inside a JSON string literal: quotes and
/// backslashes escaped, the named control escapes, and other control
/// characters in the `\u00..` form.
pub open spec fn json_escape_char(c: char) -> Seq<char> {
    if c == '"' {
        seq!['\\', '"']
    } else if c == '\\' {
        seq!['\\', '\\']
    } else if (c as u32) == 10 {
        seq!['\\', 'n']
    } else if (c as u32) == 13 {
        seq!['\\', 'r']
    } else if (c as u32) == 9 {
        seq!['\\', 't']
    } else if (c as u32) == 8 {
        seq!['\\', 'b']
    } else if (c as u32) == 12 {
        seq!['\\', 'f']
    } else if (c as u32) < 32 {
        seq!['\\', 'u', '0', '0', lower_hex_char(((c as u32) / 16) as u8), lower_hex_char(
            ((c as u32) % 16) as u8,
        )]
    } else {
        seq![c]
    }
}

/// A whole string escaped.
pub open spec fn json_escape(s: Seq<char>) -> Seq<char>
    decreases s.len(),
{
    if s.len() == 0 {
        Seq::empty()
    } else {
        json_escape(s.drop_last()) + json_escape_char(s.last())
    }
}

/// A JSON string literal.
pub open spec fn json_string_of(s: Seq<char>) -> Seq<char> {
    seq!['"'] + json_escape(s) + seq!['"']
}

/// The members of a JSON array of strings.
pub open spec fn row_items(row: Seq<Seq<char>>) -> Seq<char>
    decreases row.len(),
{
    if row.len() == 0 {
        Seq::empty()
    } else if row.len() == 1 {
        json_string_of(row[0])
    } else {
        row_items(row.drop_last()) + seq![','] + json_string_of(row.last())
    }
}

/// A JSON array of strings: one tag row.
pub open spec fn row_json(row: Seq<Seq<char>>) -> Seq<char> {
    seq!['['] + row_items(row) + seq![']']
}

/// The members of the tag array.
pub open spec fn tags_items(tags: Seq<Seq<Seq<char>>>) -> Seq<char>
    decreases tags.len(),
{
    if tags.len() == 0 {
        Seq::empty()
    } else if tags.len() == 1 {
        row_json(tags[0])
    } else {
        tags_items(tags.drop_last()) + seq![','] + row_json(tags.last())
    }
}

/// The tag array as JSON.
pub open spec fn tags_json(tags: Seq<Seq<Seq<char>>>) -> Seq<char> {
    seq!['['] + tags_items(tags) + seq![']']
}

/// The canonical form over which an event's id is computed.
pub open spec fn canonical_spec(e: EventV) -> Seq<char> {
    seq!['[', '0', ','] + json_string_of(e.pubkey) + seq![','] + dec_digits(e.created_at) + seq![
        ','
    ] + dec_digits(e.kind) + seq![','] + tags_json(e.tags) + seq![','] + json_string_of(e.content)
        + seq![']']
}

/// A lowercase hexadecimal digit character.
fn hex_char_of(d: u8) -> (r: char)
    requires
        d < 16,
    ensures
        r == lower_hex_char(d),
{
    if d < 10 {
        (48 + d) as char
    } else {
        (87 + d) as char
    }
}

/// Append the decimal form of an integer.
fn push_u64(out: &mut String, n: u64)
    ensures
        final(out)@ == old(out)@ + dec_digits(n),
    decreases n,
{
    if n >= 10 {
        push_u64(out, n / 10);
        let d = (n % 10) as u8;
        out.push(hex_char_of(d));
        proof {
            assert(out@ =~= old(out)@ + dec_digits(n));
        }
    } else {
        out.push(hex_char_of(n as u8));
        proof {
            assert(out@ =~= old(out)@ + dec_digits(n));
        }
    }
}

/// Append one character in its escaped form.
fn push_escaped(out: &mut String, c: char)
    ensures
        final(out)@ == old(out)@ + json_escape_char(c),
{
    let u = c as u32;
    if c == '"' {
        out.push('\\');
        out.push('"');
    } else if c == '\\' {
        out.push('\\');
        out.push('\\');
    } else if u == 10 {
        out.push('\\');
        out.push('n');
    } else if u == 13 {
        out.push('\\');
        out.push('r');
    } else if u == 9 {
        out.push('\\');
        out.push('t');
    } else if u == 8 {
        out.push('\\');
        out.push('b');
    } else if u == 12 {
        out.push('\\');
        out.push('f');
    } else if u < 32 {
        out.push('\\');
        out.push('u');
        out.push('0');
        out.push('0');
        out.push(hex_char_of((u / 16) as u8));
        out.push(hex_char_of((u % 16) as u8));
    } else {
        out.push(c);
    }
    proof {
        assert(out@ =~= old(out)@ + json_escape_char(c));
    }
}

/// Append a JSON string literal.
fn push_json_string(out: &mut String, s: &str)
    ensures
        final(out)@ == old(out)@ + json_string_of(s@),
{
    out.push('"');
    let n: usize = s.unicode_len();
    let mut i: usize = 0;
    while i < n
        invariant
            0 <= i <= n,
            n == s@.len(),
            out@ == old(out)@ + seq!['"'] + json_escape(s@.take(i as int)),
        decreases n - i,
    {
        let c = s.get_char(i);
        push_escaped(out, c);
        proof {
            assert(s@.take(i + 1).drop_last() =~= s@.take(i as int));
            assert(s@.take(i + 1).last() == s@[i as int]);
            assert(out@ =~= old(out)@ + seq!['"'] + json_escape(s@.take(i + 1)));
        }
        i = i + 1;
    }
    out.push('"');
    proof {
        assert(s@.take(s@.len() as int) =~= s@);
        assert(out@ =~= old(out)@ + json_string_of(s@));
    }
}

/// Append one tag row as a JSON array of strings.
fn push_row(out: &mut String, row: &Vec<String>)
    ensures
        final(out)@ == old(out)@ + row_json(row.deep_view()),
{
    let ghost rv = row.deep_view();
    out.push('[');
    let mut j: usize = 0;
    while j < row.len()
        invariant
            0 <= j <= row.len(),
            rv == row.deep_view(),
            rv.len() == row.len(),
            j == 0 ==> out@ == old(out)@ + seq!['['],
            j > 0 ==> out@ == old(out)@ + seq!['['] + row_items(rv.take(j as int)),
        decreases row.len() - j,
    {
        if j > 0 {
            out.push(',');
        }
        proof {
            assert(row@[j as int]@ == rv[j as int]);
        }
        push_json_string(out, row[j].as_str());
        proof {
            if j == 0 {
                assert(rv.take(1).len() == 1);
                assert(rv.take(1)[0] == rv[0]);
                assert(row_items(rv.take(1)) == json_string_of(rv[0]));
                assert(out@ =~= old(out)@ + seq!['['] + row_items(rv.take(1)));
            } else {
                assert(rv.take(j + 1).drop_last() =~= rv.take(j as int));
                assert(rv.take(j + 1).last() == rv[j as int]);
                assert(out@ =~= old(out)@ + seq!['['] + row_items(rv.take(j + 1)));
            }
        }
        j = j + 1;
    }
    out.push(']');
    proof {
        if row.len() == 0 {
            assert(out@ =~= old(out)@ + row_json(rv));
        } else {
            assert(rv.take(rv.len() as int) =~= rv);
            assert(out@ =~= old(out)@ + row_json(rv));
        }
    }
}

/// Append the whole tag array as JSON.
fn push_tags(out: &mut String, tags: &Vec<Vec<String>>)
    ensures
        final(out)@ == old(out)@ + tags_json(tags.deep_view()),
{
    let ghost tv = tags.deep_view();
    out.push('[');
    let mut i: usize = 0;
    while i < tags.len()
        invariant
            0 <= i <= tags.len(),
            tv == tags.deep_view(),
            tv.len() == tags.len(),
            i == 0 ==> out@ == old(out)@ + seq!['['],
            i > 0 ==> out@ == old(out)@ + seq!['['] + tags_items(tv.take(i as int)),
        decreases tags.len() - i,
    {
        if i > 0 {
            out.push(',');
        }
        proof {
            assert(tags@[i as int].deep_view() == tv[i as int]);
        }
        push_row(out, &tags[i]);
        proof {
            if i == 0 {
                assert(tv.take(1).len() == 1);
                assert(tv.take(1)[0] == tv[0]);
                assert(tags_items(tv.take(1)) == row_json(tv[0]));
                assert(out@ =~= old(out)@ + seq!['['] + tags_items(tv.take(1)));
            } else {
                assert(tv.take(i + 1).drop_last() =~= tv.take(i as int));
                assert(tv.take(i + 1).last() == tv[i as int]);
                assert(out@ =~= old(out)@ + seq!['['] + tags_items(tv.take(i + 1)));
            }
        }
        i = i + 1;
    }
    out.push(']');
    proof {
        if tags.len() == 0 {
            assert(out@ =~= old(out)@ + tags_json(tv));
        } else {
            assert(tv.take(tv.len() as int) =~= tv);
            assert(out@ =~= old(out)@ + tags_json(tv));
        }
    }
}

impl Event {
    /// The canonical serialization of this event.
    pub fn canonical(&self) -> (r: String)
        ensures
            r@ == canonical_spec(self@),
    {
        let mut out = String::new();
        out.push('[');
        out.push('0');
        out.push(',');
        push_json_string(&mut out, self.pubkey.as_str());
        out.push(',');
        push_u64(&mut out, self.created_at);
        out.push(',');
        push_u64(&mut out, self.kind);
        out.push(',');
        push_tags(&mut out, &self.tags);
        out.push(',');
        push_json_string(&mut out, self.content.as_str());
        out.push(']');
        proof {
            assert(out@ =~= canonical_spec(self@));
        }
        out
    }

    /// The id this event's content determines: the digest of its canonical
    /// form, in lowercase hex.
    pub fn compute_id(&self) -> (r: String)
        ensures
            r@ == computed_id(self@),
    {
        let canon = self.canonical();
        let bytes = canon.as_str().as_bytes_vec();
        sha256_hex(&bytes)
    }

    /// Whether the stored id equals the digest of the canonical form.
    pub fn validate_id(&self) -> (r: bool)
        ensures
            r == (self@.id == computed_id(self@)),
    {
        let id = self.compute_id();
        crate::utils::str_eq(self.id.as_str(), id.as_str())
    }
}

/// The id an event's content determines.
pub open spec fn computed_id(e: EventV) -> Seq<char> {
    hex_encode_spec(sha256_of(vstd::utf8::encode_utf8(canonical_spec(e))))
}

/// The hex form of a byte string: two lowercase digits per byte, high
/// nibble first.
pub open spec fn hex_encode_spec(b: Seq<u8>) -> Seq<char> {
    Seq::new(
        2 * b.len(),
        |i: int|
            if i % 2 == 0 {
                lower_hex_char(b[i / 2] / 16)
            } else {
                lower_hex_char(b[i / 2] % 16)
            },
    )
}

pub uninterp spec fn sha256_of(data: Seq<u8>) -> Seq<u8>;

/// Relies on sha2's `Sha256::digest`: the digest depends on the input bytes
/// alone and is 32 bytes long.
#[verifier::external_body]
fn sha256(data: &Vec<u8>) -> (r: Vec<u8>)
    ensures
        r@ == sha256_of(data@),
        r@.len() == 32,
{
    sha2::Sha256::digest(data.as_slice()).to_vec()
}

/// Relies on `hex::encode`: two lowercase digits per byte, high nibble
/// first.
#[verifier::external_body]
fn hex_encode(b: &Vec<u8>) -> (r: String)
    ensures
        r@ == hex_encode_spec(b@),
{
    hex::encode(b.as_slice())
}

/// The digest of a byte string, in lowercase hex.
pub fn sha256_hex(data: &Vec<u8>) -> (r: String)
    ensures
        r@ == hex_encode_spec(sha256_of(data@)),
{
    let d = sha256(data);
    hex_encode(&d)
}

} // verus!
