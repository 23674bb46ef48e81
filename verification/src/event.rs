//! The event: the immutable unit of content, with the kind ranges that
//! determine retention semantics.

use vstd::prelude::*;

use crate::hexutil::{all_lower_hex_digits, is_lower_hex};

verus! {

/// An event as exchanged on the wire and persisted by the relay.
#[derive(Debug, Clone)]
pub struct Event {
    /// 32-byte hash of the canonical serialization, lowercase hex.
    pub id: String,
    /// 32-byte author key, lowercase hex.
    pub pubkey: String,
    /// Author key on whose behalf this event is signed, if delegated.
    pub delegated_by: Option<String>,
    /// Seconds since the epoch.
    pub created_at: u64,
    /// Numeric class whose range determines retention.
    pub kind: u64,
    /// Ordered tag rows; each row is an ordered list of strings.
    pub tags: Vec<Vec<String>>,
    /// Arbitrary UTF-8 payload.
    pub content: String,
    /// 64-byte signature over the canonical serialization, hex.
    pub sig: String,
}

/// The mathematical value of an event.
pub ghost struct EventV {
    pub id: Seq<char>,
    pub pubkey: Seq<char>,
    pub delegated_by: Option<Seq<char>>,
    pub created_at: u64,
    pub kind: u64,
    pub tags: Seq<Seq<Seq<char>>>,
    pub content: Seq<char>,
    pub sig: Seq<char>,
}

impl View for Event {
    type V = EventV;

    open spec fn view(&self) -> EventV {
        EventV {
            id: self.id@,
            pubkey: self.pubkey@,
            delegated_by: self.delegated_by.deep_view(),
            created_at: self.created_at,
            kind: self.kind,
            tags: self.tags.deep_view(),
            content: self.content@,
            sig: self.sig@,
        }
    }
}

impl DeepView for Event {
    type V = EventV;

    open spec fn deep_view(&self) -> EventV {
        self@
    }
}

/// Replaceable kinds: metadata, contact lists, and the replaceable range.
/// For a given `(pubkey, kind)` only the newest is visible.
pub open spec fn is_replaceable_kind(k: u64) -> bool {
    k == 0 || k == 3 || (10000 <= k < 20000)
}

/// Ephemeral kinds: broadcast but never persisted.
pub open spec fn is_ephemeral_kind(k: u64) -> bool {
    20000 <= k < 30000
}

/// Deletion events reference other events and hide them.
pub open spec fn is_deletion_kind(k: u64) -> bool {
    k == 5
}

/// An ASCII letter.
pub open spec fn is_ascii_letter(c: char) -> bool {
    (('a' as u32) <= (c as u32) <= ('z' as u32)) || (('A' as u32) <= (c as u32) <= ('Z' as u32))
}

/// A tag name that is indexed: a single ASCII letter.
pub open spec fn is_single_letter(s: Seq<char>) -> bool {
    s.len() == 1 && is_ascii_letter(s[0])
}

/// The second entries of all tag rows of length at least two whose name
/// equals `name`, in order.
pub open spec fn tag_values_spec(tags: Seq<Seq<Seq<char>>>, name: Seq<char>) -> Seq<Seq<char>>
    decreases tags.len(),
{
    if tags.len() == 0 {
        Seq::empty()
    } else {
        let init = tag_values_spec(tags.drop_last(), name);
        let t = tags.last();
        if t.len() >= 2 && t[0] == name {
            init.push(t[1])
        } else {
            init
        }
    }
}

impl EventV {
    /// Structural validity: ids and keys are 32 bytes of lowercase hex.
    pub open spec fn wf(self) -> bool {
        &&& self.id.len() == 64
        &&& all_lower_hex_digits(self.id)
        &&& self.pubkey.len() == 64
        &&& all_lower_hex_digits(self.pubkey)
        &&& (self.delegated_by matches Some(d) ==> d.len() == 64 && all_lower_hex_digits(d))
    }
}

/// The tag name under which a row is indexed, if the name is a single ASCII
/// letter; other rows are stored but not queried.
pub fn single_char_tagname(tagname: &str) -> (r: Option<char>)
    ensures
        r is Some <==> is_single_letter(tagname@),
        r is Some ==> r->Some_0 == tagname@[0],
{
    if tagname.unicode_len() == 1 {
        let c = tagname.get_char(0);
        let u = c as u32;
        if (97u32 <= u && u <= 122u32) || (65u32 <= u && u <= 90u32) {
            Some(c)
        } else {
            None
        }
    } else {
        None
    }
}

impl Event {
    /// Whether only the newest event of this `(pubkey, kind)` stays visible.
    pub fn is_replaceable(&self) -> (r: bool)
        ensures
            r == is_replaceable_kind(self@.kind),
    {
        self.kind == 0 || self.kind == 3 || (self.kind >= 10000 && self.kind < 20000)
    }

    /// Whether this event is broadcast but not persisted.
    pub fn is_ephemeral(&self) -> (r: bool)
        ensures
            r == is_ephemeral_kind(self@.kind),
    {
        self.kind >= 20000 && self.kind < 30000
    }

    /// Whether this event hides the events it references.
    pub fn is_deletion(&self) -> (r: bool)
        ensures
            r == is_deletion_kind(self@.kind),
    {
        self.kind == 5
    }

    /// Whether this is an author metadata event, forwarded to the identity
    /// verifier.
    pub fn is_kind_metadata(&self) -> (r: bool)
        ensures
            r == (self@.kind == 0),
    {
        self.kind == 0
    }

    /// Structural validity of the hex fields.
    pub fn check_wf(&self) -> (r: bool)
        ensures
            r == self@.wf(),
    {
        if self.id.as_str().unicode_len() != 64 || !is_lower_hex(self.id.as_str()) {
            return false;
        }
        if self.pubkey.as_str().unicode_len() != 64 || !is_lower_hex(self.pubkey.as_str()) {
            return false;
        }
        match &self.delegated_by {
            Some(d) => {
                if d.as_str().unicode_len() != 64 || !is_lower_hex(d.as_str()) {
                    return false;
                }
            },
            None => {},
        }
        true
    }

    /// A short prefix of the event id, suitable for logging.
    pub fn get_event_id_prefix(&self) -> (r: String)
        ensures
            r@ == self@.id.take(if self@.id.len() < 8 {
                self@.id.len() as int
            } else {
                8
            }),
    {
        let n: usize = self.id.as_str().unicode_len();
        let k: usize = if n < 8 {
            n
        } else {
            8
        };
        String::from_str(self.id.as_str().substring_char(0, k))
    }

    /// A short prefix of the author key, suitable for logging.
    pub fn get_author_prefix(&self) -> (r: String)
        ensures
            r@ == self@.pubkey.take(if self@.pubkey.len() < 8 {
                self@.pubkey.len() as int
            } else {
                8
            }),
    {
        let n: usize = self.pubkey.as_str().unicode_len();
        let k: usize = if n < 8 {
            n
        } else {
            8
        };
        String::from_str(self.pubkey.as_str().substring_char(0, k))
    }

    /// All values of tag rows named `name`.
    pub fn tag_values_by_name(&self, name: &str) -> (r: Vec<String>)
        ensures
            r.deep_view() == tag_values_spec(self@.tags, name@),
    {
        let ghost tags = self@.tags;
        let mut r: Vec<String> = Vec::new();
        assert(r.deep_view() =~= tag_values_spec(tags.take(0), name@));
        let mut i: usize = 0;
        while i < self.tags.len()
            invariant
                0 <= i <= self.tags.len(),
                tags == self@.tags,
                tags.len() == self.tags.len(),
                r.deep_view() == tag_values_spec(tags.take(i as int), name@),
            decreases self.tags.len() - i,
        {
            proof {
                assert(tags.take(i + 1).drop_last() =~= tags.take(i as int));
                assert(tags.take(i + 1).last() == tags[i as int]);
                assert(self.tags[i as int].deep_view() == tags[i as int]);
            }
            let t = &self.tags[i];
            if t.len() >= 2 && crate::utils::str_eq(t[0].as_str(), name) {
                let ghost before = r.deep_view();
                r.push(t[1].clone());
                proof {
                    assert(r.deep_view() =~= before.push(tags[i as int][1]));
                }
            } else {
                proof {
                    assert(!(tags[i as int].len() >= 2 && tags[i as int][0] == name@));
                }
            }
            i = i + 1;
        }
        proof {
            assert(tags.take(tags.len() as int) =~= tags);
        }
        r
    }

    /// A field-by-field copy whose value equals this event's.
    pub fn duplicate(&self) -> (r: Event)
        ensures
            r@ == self@,
    {
        let mut tags: Vec<Vec<String>> = Vec::new();
        let mut i: usize = 0;
        while i < self.tags.len()
            invariant
                0 <= i <= self.tags.len(),
                tags.deep_view() == self@.tags.take(i as int),
            decreases self.tags.len() - i,
        {
            let row = &self.tags[i];
            let mut new_row: Vec<String> = Vec::new();
            let mut j: usize = 0;
            while j < row.len()
                invariant
                    0 <= j <= row.len(),
                    new_row.deep_view() == row.deep_view().take(j as int),
                decreases row.len() - j,
            {
                let ghost before = new_row.deep_view();
                new_row.push(row[j].clone());
                proof {
                    assert(new_row.deep_view() =~= before.push(row@[j as int]@));
                    assert(row.deep_view().take(j + 1) =~= row.deep_view().take(j as int).push(
                        row.deep_view()[j as int],
                    ));
                }
                j = j + 1;
            }
            proof {
                assert(new_row.deep_view() =~= row.deep_view());
            }
            let ghost before_tags = tags.deep_view();
            tags.push(new_row);
            proof {
                assert(tags.deep_view() =~= before_tags.push(self.tags[i as int].deep_view()));
                assert(self@.tags.take(i + 1) =~= self@.tags.take(i as int).push(
                    self@.tags[i as int],
                ));
            }
            i = i + 1;
        }
        proof {
            assert(tags.deep_view() =~= self@.tags);
        }
        let r = Event {
            id: self.id.clone(),
            pubkey: self.pubkey.clone(),
            delegated_by: match &self.delegated_by {
                Some(d) => Some(d.clone()),
                None => None,
            },
            created_at: self.created_at,
            kind: self.kind,
            tags,
            content: self.content.clone(),
            sig: self.sig.clone(),
        };
        assert(r@.delegated_by == self@.delegated_by);
        r
    }
}

} // verus!
