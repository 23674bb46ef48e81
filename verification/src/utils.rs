//! Small string helpers and the clock bridge.

use vstd::prelude::*;

verus! {

/// Character-by-character string equality.
pub fn str_eq(a: &str, b: &str) -> (r: bool)
    ensures
        r == (a@ == b@),
{
    let na: usize = a.unicode_len();
    let nb: usize = b.unicode_len();
    if na != nb {
        assert(a@ != b@) by {
            assert(a@.len() != b@.len());
        }
        return false;
    }
    let mut i: usize = 0;
    while i < na
        invariant
            0 <= i <= na,
            na == a@.len(),
            na == b@.len(),
            forall|j: int| 0 <= j < i ==> a@[j] == b@[j],
        decreases na - i,
    {
        if a.get_char(i) != b.get_char(i) {
            return false;
        }
        i = i + 1;
    }
    proof {
        assert(a@ =~= b@);
    }
    true
}

/// Whether some element of `v` equals `s`.
pub fn contains_string(v: &Vec<String>, s: &str) -> (r: bool)
    ensures
        r == v.deep_view().contains(s@),
{
    let mut i: usize = 0;
    while i < v.len()
        invariant
            0 <= i <= v.len(),
            forall|j: int| 0 <= j < i ==> v.deep_view()[j] != s@,
        decreases v.len() - i,
    {
        if str_eq(v[i].as_str(), s) {
            assert(v.deep_view()[i as int] == s@);
            return true;
        }
        i = i + 1;
    }
    assert(forall|j: int| 0 <= j < v.deep_view().len() ==> v.deep_view()[j] != s@);
    false
}

/// Byte-vector equality.
pub fn vec_u8_eq(a: &Vec<u8>, b: &Vec<u8>) -> (r: bool)
    ensures
        r == (a@ == b@),
{
    if a.len() != b.len() {
        assert(a@.len() != b@.len());
        return false;
    }
    let mut i: usize = 0;
    while i < a.len()
        invariant
            0 <= i <= a.len(),
            a@.len() == b@.len(),
            forall|j: int| 0 <= j < i ==> a@[j] == b@[j],
        decreases a.len() - i,
    {
        if a[i] != b[i] {
            return false;
        }
        i = i + 1;
    }
    proof {
        assert(a@ =~= b@);
    }
    true
}

/// The scheme separator `://` stands at position `i`.
pub open spec fn sep_at(s: Seq<char>, i: int) -> bool {
    s[i] == ':' && s[i + 1] == '/' && s[i + 2] == '/'
}

/// The first position of the scheme separator at or after `from`.
pub open spec fn first_sep_from(s: Seq<char>, from: int) -> Option<int>
    decreases s.len() + 3 - from,
    when 0 <= from
{
    if from + 3 > s.len() {
        None
    } else if sep_at(s, from) {
        Some(from)
    } else {
        first_sep_from(s, from + 1)
    }
}

/// A character that ends the host component of a URL.
pub open spec fn is_host_delim(c: char) -> bool {
    c == '/' || c == ':' || c == '?' || c == '#'
}

/// The position right after the host component that starts at `from`.
pub open spec fn host_end_from(s: Seq<char>, from: int) -> int
    decreases s.len() - from,
    when 0 <= from <= s.len()
{
    if from >= s.len() {
        from
    } else if is_host_delim(s[from]) {
        from
    } else {
        host_end_from(s, from + 1)
    }
}

/// The host component of a URL: the non-empty run after `://` up to the
/// first delimiter, if the URL has one.
pub open spec fn host_of(s: Seq<char>) -> Option<Seq<char>> {
    match first_sep_from(s, 0) {
        None => None,
        Some(i) => {
            let start = i + 3;
            let end = host_end_from(s, start);
            if end == start {
                None
            } else {
                Some(s.subrange(start, end))
            }
        },
    }
}

/// The host component of a URL, if it has one.
pub fn host_str(url: &str) -> (r: Option<String>)
    ensures
        r is Some <==> host_of(url@) is Some,
        r matches Some(h) ==> host_of(url@) == Some(h@),
{
    let n: usize = url.unicode_len();
    let mut i: usize = 0;
    loop
        invariant_except_break
            0 <= i <= n,
            n == url@.len(),
            first_sep_from(url@, 0) == first_sep_from(url@, i as int),
        ensures
            n == url@.len(),
            i + 3 <= n,
            first_sep_from(url@, 0) == Some(i as int),
        decreases n + 3 - i,
    {
        if i >= n || n - i < 3 {
            assert(first_sep_from(url@, i as int) is None);
            return None;
        }
        let c0 = url.get_char(i);
        let c1 = url.get_char(i + 1);
        let c2 = url.get_char(i + 2);
        if c0 == ':' && c1 == '/' && c2 == '/' {
            assert(sep_at(url@, i as int));
            assert(first_sep_from(url@, i as int) == Some(i as int));
            break;
        }
        assert(!sep_at(url@, i as int));
        i = i + 1;
    }
    let start: usize = i + 3;
    let mut end: usize = start;
    loop
        invariant_except_break
            start <= end <= n,
            n == url@.len(),
            start == i + 3,
            host_end_from(url@, start as int) == host_end_from(url@, end as int),
        ensures
            start <= end <= n,
            n == url@.len(),
            host_end_from(url@, start as int) == end as int,
        decreases n - end,
    {
        if end >= n {
            assert(host_end_from(url@, end as int) == end as int);
            break;
        }
        let c = url.get_char(end);
        if c == '/' || c == ':' || c == '?' || c == '#' {
            assert(is_host_delim(url@[end as int]));
            assert(host_end_from(url@, end as int) == end as int);
            break;
        }
        assert(!is_host_delim(url@[end as int]));
        end = end + 1;
    }
    if end == start {
        return None;
    }
    let h = url.substring_char(start, end);
    Some(String::from_str(h))
}

/// Relies on `std::time::SystemTime::now`: seconds since the Unix epoch.  The
/// result depends on the wall clock, so nothing is promised of it.
#[verifier::external_body]
pub fn unix_time() -> u64 {
    match std::time::SystemTime::now().duration_since(std::time::UNIX_EPOCH) {
        Ok(d) => d.as_secs(),
        Err(_) => 0,
    }
}

} // verus!
