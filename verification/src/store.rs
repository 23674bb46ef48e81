//! The logical event store: rows with a monotone `hidden` bit and the indexed
//! tag table.  `write_event` realizes the persistence transaction of the
//! ingestion pipeline: duplicate suppression, tag indexing, replacement of
//! older replaceable events, deletion handling, and the reverse check that
//! hides an event already referenced by a stored deletion.

use vstd::prelude::*;

use crate::event::{
    is_deletion_kind, is_replaceable_kind, is_single_letter, Event, EventV,
};
use crate::hexutil::{all_hex_digits, all_lower_hex_digits, hex_decode, hex_decode_spec, is_hex,
    is_lower_hex, lemma_lower_hex_is_hex};
use crate::utils::{str_eq, vec_u8_eq};

verus! {

/// One persisted row: the event and its `hidden` bit, which only ever flips
/// from `false` to `true`.
#[derive(Debug, Clone)]
pub struct StoredEvent {
    pub event: Event,
    pub hidden: bool,
}

/// The mathematical value of a stored row.
pub ghost struct RowV {
    pub event: EventV,
    pub hidden: bool,
}

impl View for StoredEvent {
    type V = RowV;

    open spec fn view(&self) -> RowV {
        RowV { event: self.event@, hidden: self.hidden }
    }
}

impl DeepView for StoredEvent {
    type V = RowV;

    open spec fn deep_view(&self) -> RowV {
        self@
    }
}

/// One indexed tag row.  Values that are even-length lowercase hex are stored
/// in their byte form (`value_is_hex`), which keeps them prefix-searchable;
/// other values are stored as text.
#[derive(Debug, Clone)]
pub struct TagRow {
    pub event_id: String,
    pub name: String,
    pub value: String,
    pub value_is_hex: bool,
}

/// The mathematical value of a tag row.
pub ghost struct TagRowV {
    pub event_id: Seq<char>,
    pub name: Seq<char>,
    pub value: Seq<char>,
    pub value_is_hex: bool,
}

impl View for TagRow {
    type V = TagRowV;

    open spec fn view(&self) -> TagRowV {
        TagRowV {
            event_id: self.event_id@,
            name: self.name@,
            value: self.value@,
            value_is_hex: self.value_is_hex,
        }
    }
}

impl DeepView for TagRow {
    type V = TagRowV;

    open spec fn deep_view(&self) -> TagRowV {
        self@
    }
}

/// The event table and the tag index.
pub struct EventStore {
    rows: Vec<StoredEvent>,
    tags: Vec<TagRow>,
}

/// The mathematical value of the store.
pub ghost struct StoreV {
    pub rows: Seq<RowV>,
    pub tags: Seq<TagRowV>,
}

impl View for EventStore {
    type V = StoreV;

    closed spec fn view(&self) -> StoreV {
        StoreV { rows: self.rows.deep_view(), tags: self.tags.deep_view() }
    }
}

/// Whether some row holds an event with this id.
pub open spec fn has_event_id(rows: Seq<RowV>, id: Seq<char>) -> bool {
    exists|i: int| 0 <= i < rows.len() && rows[i].event.id == id
}

/// How many rows hold an event with this id.
pub open spec fn count_with_id(rows: Seq<RowV>, id: Seq<char>) -> nat
    decreases rows.len(),
{
    if rows.len() == 0 {
        0
    } else {
        count_with_id(rows.drop_last(), id) + (if rows.last().event.id == id {
            1nat
        } else {
            0nat
        })
    }
}

/// Whether some already-collected tag row uses this name.
pub open spec fn has_tag_name(rows: Seq<TagRowV>, name: Seq<char>) -> bool {
    exists|i: int| 0 <= i < rows.len() && rows[i].name == name
}

/// Whether a tag value is stored in byte form: even-length lowercase hex.
pub open spec fn stored_as_hex(value: Seq<char>) -> bool {
    value.len() % 2 == 0 && all_lower_hex_digits(value)
}

/// The tag rows indexed when an event with these tags and this id is
/// inserted: rows of length at least two whose name is a single ASCII
/// letter, first row per name winning under the `(event_id, name)`
/// uniqueness constraint.
pub open spec fn insert_tag_rows(tags: Seq<Seq<Seq<char>>>, id: Seq<char>) -> Seq<TagRowV>
    decreases tags.len(),
{
    if tags.len() == 0 {
        Seq::empty()
    } else {
        let init = insert_tag_rows(tags.drop_last(), id);
        let t = tags.last();
        if t.len() >= 2 && is_single_letter(t[0]) && !has_tag_name(init, t[0]) {
            init.push(
                TagRowV {
                    event_id: id,
                    name: t[0],
                    value: t[1],
                    value_is_hex: stored_as_hex(t[1]),
                },
            )
        } else {
            init
        }
    }
}

/// An incoming replaceable event hides this row: same kind and author, issued
/// no later than the incoming event, and not the incoming event itself.
pub open spec fn replaces(e: EventV, r: RowV) -> bool {
    &&& r.event.id != e.id
    &&& r.event.kind == e.kind
    &&& r.event.pubkey == e.pubkey
    &&& r.event.created_at <= e.created_at
}

/// Hide every row an incoming replaceable event replaces.
pub open spec fn hide_replaced(rows: Seq<RowV>, e: EventV) -> Seq<RowV> {
    rows.map(
        |i: int, r: RowV|
            if replaces(e, r) {
                RowV { event: r.event, hidden: true }
            } else {
                r
            },
    )
}

/// A tag row of a deletion event that references the stored id `id`: an `e`
/// tag whose value is 32 bytes of hex naming the same bytes as `id`.
pub open spec fn is_del_ref(t: Seq<Seq<char>>, id: Seq<char>) -> bool {
    &&& t.len() >= 2
    &&& t[0] == "e"@
    &&& t[1].len() == 64
    &&& all_hex_digits(t[1])
    &&& hex_decode_spec(t[1]) == hex_decode_spec(id)
}

/// A deletion event hides this row: another author's events are never
/// touched, deletions themselves are never hidden, and some `e` tag of the
/// deletion references the row's id.
pub open spec fn deletes(e: EventV, r: RowV) -> bool {
    &&& !is_deletion_kind(r.event.kind)
    &&& r.event.pubkey == e.pubkey
    &&& exists|i: int| 0 <= i < e.tags.len() && is_del_ref(#[trigger] e.tags[i], r.event.id)
}

/// Hide every row a deletion event deletes.
pub open spec fn apply_deletion(rows: Seq<RowV>, e: EventV) -> Seq<RowV> {
    rows.map(
        |i: int, r: RowV|
            if deletes(e, r) {
                RowV { event: r.event, hidden: true }
            } else {
                r
            },
    )
}

/// Hide the rows holding this id.
pub open spec fn hide_id(rows: Seq<RowV>, id: Seq<char>) -> Seq<RowV> {
    rows.map(
        |i: int, r: RowV|
            if r.event.id == id {
                RowV { event: r.event, hidden: true }
            } else {
                r
            },
    )
}

/// A stored deletion by this author already references the incoming event:
/// some kind-5 row and an indexed `e` tag row of it carry the incoming id in
/// byte form.
pub open spec fn pre_deleted(s: StoreV, e: EventV) -> bool {
    exists|i: int, j: int|
        {
            &&& 0 <= i < s.rows.len()
            &&& 0 <= j < s.tags.len()
            &&& (#[trigger] s.rows[i]).event.kind == 5
            &&& s.rows[i].event.pubkey == e.pubkey
            &&& (#[trigger] s.tags[j]).event_id == s.rows[i].event.id
            &&& s.tags[j].name == "e"@
            &&& s.tags[j].value_is_hex
            &&& s.tags[j].value == e.id
        }
}

/// The store after writing one event, with the number of rows effectively
/// added: 0 for a duplicate or for an event a stored deletion already
/// references, 1 otherwise.
pub open spec fn write_result(s: StoreV, e: EventV) -> (StoreV, u64) {
    if has_event_id(s.rows, e.id) {
        (s, 0)
    } else {
        let rows1 = s.rows.push(RowV { event: e, hidden: false });
        let tags1 = s.tags + insert_tag_rows(e.tags, e.id);
        let rows2 = if is_replaceable_kind(e.kind) {
            hide_replaced(rows1, e)
        } else {
            rows1
        };
        if is_deletion_kind(e.kind) {
            (StoreV { rows: apply_deletion(rows2, e), tags: tags1 }, 1)
        } else {
            let s2 = StoreV { rows: rows2, tags: tags1 };
            if pre_deleted(s2, e) {
                (StoreV { rows: hide_id(rows2, e.id), tags: tags1 }, 0)
            } else {
                (s2, 1)
            }
        }
    }
}

impl StoreV {
    /// Well-formedness: every stored event is structurally valid, ids are
    /// unique across rows, and every tag row belongs to a stored row.
    pub open spec fn wf(self) -> bool {
        &&& (forall|i: int| 0 <= i < self.rows.len() ==> (#[trigger] self.rows[i]).event.wf())
        &&& (forall|i: int, j: int|
            0 <= i < j < self.rows.len() ==> (#[trigger] self.rows[i]).event.id != (
            #[trigger] self.rows[j]).event.id)
        &&& (forall|j: int|
            0 <= j < self.tags.len() ==> has_event_id(self.rows, (#[trigger] self.tags[j]).event_id))
        &&& (forall|j: int|
            0 <= j < self.tags.len() ==> ((#[trigger] self.tags[j]).value_is_hex ==> stored_as_hex(
                self.tags[j].value,
            )))
    }
}

impl EventStore {
    /// An empty store.
    pub fn new() -> (r: EventStore)
        ensures
            r@.rows == Seq::<RowV>::empty(),
            r@.tags == Seq::<TagRowV>::empty(),
            r@.wf(),
    {
        let r = EventStore { rows: Vec::new(), tags: Vec::new() };
        proof {
            assert(r@.rows =~= Seq::<RowV>::empty());
            assert(r@.tags =~= Seq::<TagRowV>::empty());
        }
        r
    }

    /// The number of rows in the store.
    pub fn row_count(&self) -> (r: usize)
        ensures
            r == self@.rows.len(),
    {
        self.rows.len()
    }

    /// The stored rows, in commit order.
    pub fn stored_rows(&self) -> (r: &Vec<StoredEvent>)
        ensures
            r.deep_view() == self@.rows,
    {
        &self.rows
    }

    /// The indexed tag rows.
    pub fn tag_rows(&self) -> (r: &Vec<TagRow>)
        ensures
            r.deep_view() == self@.tags,
    {
        &self.tags
    }

    /// Whether some row holds this id.
    pub fn contains_id(&self, id: &String) -> (r: bool)
        ensures
            r == has_event_id(self@.rows, id@),
    {
        let mut i: usize = 0;
        while i < self.rows.len()
            invariant
                0 <= i <= self.rows.len(),
                forall|k: int| 0 <= k < i ==> self@.rows[k].event.id != id@,
            decreases self.rows.len() - i,
        {
            if str_eq(self.rows[i].event.id.as_str(), id.as_str()) {
                assert(self@.rows[i as int].event.id == id@);
                return true;
            }
            i = i + 1;
        }
        false
    }

    /// The `hidden` bit of the row holding this id, if one exists.
    pub fn hidden_of(&self, id: &String) -> (r: Option<bool>)
        ensures
            r is Some <==> has_event_id(self@.rows, id@),
            r matches Some(h) ==> exists|i: int|
                0 <= i < self@.rows.len() && (#[trigger] self@.rows[i]).event.id == id@
                    && self@.rows[i].hidden == h,
    {
        let mut i: usize = 0;
        while i < self.rows.len()
            invariant
                0 <= i <= self.rows.len(),
                forall|k: int| 0 <= k < i ==> self@.rows[k].event.id != id@,
            decreases self.rows.len() - i,
        {
            if str_eq(self.rows[i].event.id.as_str(), id.as_str()) {
                assert(self@.rows[i as int].event.id == id@);
                return Some(self.rows[i].hidden);
            }
            i = i + 1;
        }
        None
    }

    /// Write one event: the persistence transaction of the ingestion
    /// pipeline.  Returns the number of rows effectively added, 0 or 1.
    pub fn write_event(&mut self, e: &Event) -> (r: u64)
        requires
            old(self)@.wf(),
            e@.wf(),
        ensures
            final(self)@ == write_result(old(self)@, e@).0,
            r == write_result(old(self)@, e@).1,
            final(self)@.wf(),
    {
        proof {
            lemma_write_result_wf(old(self)@, e@);
        }
        if self.contains_id(&e.id) {
            return 0;
        }
        let ghost s0 = self@;
        self.rows.push(StoredEvent { event: e.duplicate(), hidden: false });
        proof {
            assert(self@.rows =~= s0.rows.push(RowV { event: e@, hidden: false }));
            assert(self@.tags =~= s0.tags);
        }
        self.index_tags(e);
        proof {
            assert(self@.rows == s0.rows.push(RowV { event: e@, hidden: false }));
            assert(self@.tags == s0.tags + insert_tag_rows(e@.tags, e@.id));
        }
        if e.is_replaceable() {
            self.hide_replaced_rows(e);
        }
        if e.is_deletion() {
            proof {
                assert forall|i: int|
                    0 <= i < self@.rows.len() implies (#[trigger] self@.rows[i]).event.wf() by {
                    if i < s0.rows.len() {
                        assert(self@.rows[i] == s0.rows[i]);
                    } else {
                        assert(self@.rows[i].event == e@);
                    }
                }
            }
            self.apply_deletion_rows(e);
            1
        } else {
            if self.check_pre_deleted(e) {
                self.hide_rows_with_id(&e.id);
                0
            } else {
                1
            }
        }
    }

    /// Append the indexed tag rows of `e` to the tag table.
    fn index_tags(&mut self, e: &Event)
        ensures
            final(self)@.rows == old(self)@.rows,
            final(self)@.tags == old(self)@.tags + insert_tag_rows(e@.tags, e@.id),
    {
        let ghost tags = e@.tags;
        let mut fresh: Vec<TagRow> = Vec::new();
        assert(fresh.deep_view() =~= insert_tag_rows(tags.take(0), e@.id));
        let mut i: usize = 0;
        while i < e.tags.len()
            invariant
                0 <= i <= e.tags.len(),
                tags == e@.tags,
                tags.len() == e.tags.len(),
                fresh.deep_view() == insert_tag_rows(tags.take(i as int), e@.id),
            decreases e.tags.len() - i,
        {
            proof {
                assert(tags.take(i + 1).drop_last() =~= tags.take(i as int));
                assert(tags.take(i + 1).last() == tags[i as int]);
                assert(e.tags[i as int].deep_view() == tags[i as int]);
            }
            let t = &e.tags[i];
            if t.len() >= 2 {
                match crate::event::single_char_tagname(t[0].as_str()) {
                    Some(_) => {
                        if !has_tag_name_in(&fresh, &t[0]) {
                            let lower = is_lower_hex(t[1].as_str());
                            let even = t[1].as_str().unicode_len() % 2 == 0;
                            let ghost before = fresh.deep_view();
                            fresh.push(
                                TagRow {
                                    event_id: e.id.clone(),
                                    name: t[0].clone(),
                                    value: t[1].clone(),
                                    value_is_hex: even && lower,
                                },
                            );
                            proof {
                                assert(fresh.deep_view() =~= before.push(
                                    TagRowV {
                                        event_id: e@.id,
                                        name: tags[i as int][0],
                                        value: tags[i as int][1],
                                        value_is_hex: stored_as_hex(tags[i as int][1]),
                                    },
                                ));
                            }
                        }
                    },
                    None => {},
                }
            }
            i = i + 1;
        }
        proof {
            assert(tags.take(tags.len() as int) =~= tags);
        }
        let ghost old_tags = self@.tags;
        self.tags.append(&mut fresh);
        proof {
            assert(self@.tags =~= old_tags + insert_tag_rows(e@.tags, e@.id));
        }
    }

    /// Hide every row the incoming replaceable event replaces.
    fn hide_replaced_rows(&mut self, e: &Event)
        ensures
            final(self)@.rows == hide_replaced(old(self)@.rows, e@),
            final(self)@.tags == old(self)@.tags,
    {
        let ghost rows0 = self@.rows;
        let ghost target = hide_replaced(rows0, e@);
        let mut new_rows: Vec<StoredEvent> = Vec::new();
        assert(new_rows.deep_view() =~= target.take(0));
        let mut i: usize = 0;
        while i < self.rows.len()
            invariant
                0 <= i <= self.rows.len(),
                rows0 == self@.rows,
                target == hide_replaced(rows0, e@),
                rows0.len() == self.rows.len(),
                target.len() == rows0.len(),
                new_rows.deep_view() == target.take(i as int),
            decreases self.rows.len() - i,
        {
            let row = &self.rows[i];
            let same_id = str_eq(row.event.id.as_str(), e.id.as_str());
            let same_pk = str_eq(row.event.pubkey.as_str(), e.pubkey.as_str());
            let is_rep = !same_id && row.event.kind == e.kind && same_pk && row.event.created_at
                <= e.created_at;
            assert(is_rep == replaces(e@, rows0[i as int]));
            let ghost before = new_rows.deep_view();
            let dup = row.event.duplicate();
            let hid = if is_rep {
                true
            } else {
                row.hidden
            };
            new_rows.push(StoredEvent { event: dup, hidden: hid });
            proof {
                assert(new_rows.deep_view() =~= before.push(target[i as int]));
                assert(target.take(i + 1) =~= target.take(i as int).push(target[i as int]));
            }
            i = i + 1;
        }
        proof {
            assert(target.take(target.len() as int) =~= target);
        }
        self.rows = new_rows;
    }

    /// Hide every row the incoming deletion event deletes.
    fn apply_deletion_rows(&mut self, e: &Event)
        requires
            e@.wf(),
            forall|i: int| 0 <= i < old(self)@.rows.len() ==> (#[trigger] old(self)@.rows[i]).event.wf(),
        ensures
            final(self)@.rows == apply_deletion(old(self)@.rows, e@),
            final(self)@.tags == old(self)@.tags,
    {
        let ghost rows0 = self@.rows;
        let ghost target = apply_deletion(rows0, e@);
        let mut new_rows: Vec<StoredEvent> = Vec::new();
        assert(new_rows.deep_view() =~= target.take(0));
        let mut i: usize = 0;
        while i < self.rows.len()
            invariant
                0 <= i <= self.rows.len(),
                rows0 == self@.rows,
                e@.wf(),
                forall|k: int| 0 <= k < rows0.len() ==> (#[trigger] rows0[k]).event.wf(),
                target == apply_deletion(rows0, e@),
                rows0.len() == self.rows.len(),
                target.len() == rows0.len(),
                new_rows.deep_view() == target.take(i as int),
            decreases self.rows.len() - i,
        {
            let row = &self.rows[i];
            let same_pk = str_eq(row.event.pubkey.as_str(), e.pubkey.as_str());
            let mut is_del = false;
            if row.event.kind != 5 && same_pk {
                assert(rows0[i as int].event.wf());
                is_del = references_event(e, &row.event.id);
            }
            assert(is_del == deletes(e@, rows0[i as int]));
            let ghost before = new_rows.deep_view();
            let dup = row.event.duplicate();
            let hid = if is_del {
                true
            } else {
                row.hidden
            };
            new_rows.push(StoredEvent { event: dup, hidden: hid });
            proof {
                assert(new_rows.deep_view() =~= before.push(target[i as int]));
                assert(target.take(i + 1) =~= target.take(i as int).push(target[i as int]));
            }
            i = i + 1;
        }
        proof {
            assert(target.take(target.len() as int) =~= target);
        }
        self.rows = new_rows;
    }

    /// Whether a stored deletion by the same author already references `e`.
    fn check_pre_deleted(&self, e: &Event) -> (r: bool)
        ensures
            r == pre_deleted(self@, e@),
    {
        let mut j: usize = 0;
        while j < self.tags.len()
            invariant
                0 <= j <= self.tags.len(),
                forall|jj: int, i: int|
                    0 <= jj < j && 0 <= i < self@.rows.len() ==> !pre_del_witness(
                        self@,
                        e@,
                        i,
                        jj,
                    ),
            decreases self.tags.len() - j,
        {
            proof {
                assert(self@.tags[j as int] == self.tags@[j as int]@);
            }
            let t = &self.tags[j];
            if t.value_is_hex && str_eq(t.name.as_str(), "e") && str_eq(
                t.value.as_str(),
                e.id.as_str(),
            ) {
                let mut i: usize = 0;
                while i < self.rows.len()
                    invariant
                        0 <= i <= self.rows.len(),
                        0 <= j < self@.tags.len(),
                        t@ == self@.tags[j as int],
                        self@.tags[j as int].name == "e"@,
                        self@.tags[j as int].value_is_hex,
                        self@.tags[j as int].value == e@.id,
                        forall|k: int| 0 <= k < i ==> !pre_del_witness(self@, e@, k, j as int),
                    decreases self.rows.len() - i,
                {
                    proof {
                        assert(self@.rows[i as int] == self.rows@[i as int]@);
                    }
                    let row = &self.rows[i];
                    if row.event.kind == 5 && str_eq(row.event.pubkey.as_str(), e.pubkey.as_str())
                        && str_eq(row.event.id.as_str(), t.event_id.as_str()) {
                        assert(pre_del_witness(self@, e@, i as int, j as int));
                        assert(pre_deleted(self@, e@));
                        return true;
                    }
                    assert(!pre_del_witness(self@, e@, i as int, j as int));
                    i = i + 1;
                }
            } else {
                assert(forall|i: int|
                    0 <= i < self@.rows.len() ==> !pre_del_witness(self@, e@, i, j as int));
            }
            j = j + 1;
        }
        assert(!pre_deleted(self@, e@)) by {
            if pre_deleted(self@, e@) {
                let (i, j) = choose|i: int, j: int|
                    {
                        &&& 0 <= i < self@.rows.len()
                        &&& 0 <= j < self@.tags.len()
                        &&& (#[trigger] self@.rows[i]).event.kind == 5
                        &&& self@.rows[i].event.pubkey == e@.pubkey
                        &&& (#[trigger] self@.tags[j]).event_id == self@.rows[i].event.id
                        &&& self@.tags[j].name == "e"@
                        &&& self@.tags[j].value_is_hex
                        &&& self@.tags[j].value == e@.id
                    };
                assert(pre_del_witness(self@, e@, i, j));
            }
        }
        false
    }

    /// Hide the row holding this id.
    fn hide_rows_with_id(&mut self, id: &String)
        ensures
            final(self)@.rows == hide_id(old(self)@.rows, id@),
            final(self)@.tags == old(self)@.tags,
    {
        let ghost rows0 = self@.rows;
        let ghost target = hide_id(rows0, id@);
        let mut new_rows: Vec<StoredEvent> = Vec::new();
        assert(new_rows.deep_view() =~= target.take(0));
        let mut i: usize = 0;
        while i < self.rows.len()
            invariant
                0 <= i <= self.rows.len(),
                rows0 == self@.rows,
                target == hide_id(rows0, id@),
                rows0.len() == self.rows.len(),
                target.len() == rows0.len(),
                new_rows.deep_view() == target.take(i as int),
            decreases self.rows.len() - i,
        {
            let row = &self.rows[i];
            let same_id = str_eq(row.event.id.as_str(), id.as_str());
            let ghost before = new_rows.deep_view();
            let dup = row.event.duplicate();
            let hid = if same_id {
                true
            } else {
                row.hidden
            };
            new_rows.push(StoredEvent { event: dup, hidden: hid });
            proof {
                assert(new_rows.deep_view() =~= before.push(target[i as int]));
                assert(target.take(i + 1) =~= target.take(i as int).push(target[i as int]));
            }
            i = i + 1;
        }
        proof {
            assert(target.take(target.len() as int) =~= target);
        }
        self.rows = new_rows;
    }
}

/// One candidate pair for the reverse deletion check.
pub open spec fn pre_del_witness(s: StoreV, e: EventV, i: int, j: int) -> bool {
    &&& 0 <= i < s.rows.len()
    &&& 0 <= j < s.tags.len()
    &&& s.rows[i].event.kind == 5
    &&& s.rows[i].event.pubkey == e.pubkey
    &&& s.tags[j].event_id == s.rows[i].event.id
    &&& s.tags[j].name == "e"@
    &&& s.tags[j].value_is_hex
    &&& s.tags[j].value == e.id
}

/// Whether some `e` tag of `e` references the stored id `id`.
fn references_event(e: &Event, id: &String) -> (r: bool)
    requires
        id@.len() == 64,
        all_lower_hex_digits(id@),
    ensures
        r == exists|i: int| 0 <= i < e@.tags.len() && is_del_ref(#[trigger] e@.tags[i], id@),
{
    let ghost tags = e@.tags;
    let mut i: usize = 0;
    while i < e.tags.len()
        invariant
            0 <= i <= e.tags.len(),
            tags == e@.tags,
            tags.len() == e.tags.len(),
            id@.len() == 64,
            all_lower_hex_digits(id@),
            forall|k: int| 0 <= k < i ==> !is_del_ref(#[trigger] tags[k], id@),
        decreases e.tags.len() - i,
    {
        proof {
            assert(e.tags[i as int].deep_view() == tags[i as int]);
        }
        let t = &e.tags[i];
        if t.len() >= 2 && str_eq(t[0].as_str(), "e") && t[1].as_str().unicode_len() == 64
            && is_hex(t[1].as_str()) {
            proof {
                lemma_lower_hex_is_hex(id@);
            }
            let a = hex_decode(t[1].as_str());
            let b = hex_decode(id.as_str());
            if vec_u8_eq(&a.unwrap(), &b.unwrap()) {
                assert(is_del_ref(tags[i as int], id@));
                return true;
            }
            assert(!is_del_ref(tags[i as int], id@));
        } else {
            assert(!is_del_ref(tags[i as int], id@));
        }
        i = i + 1;
    }
    false
}

/// Whether some collected tag row already uses this name.
fn has_tag_name_in(rows: &Vec<TagRow>, name: &String) -> (r: bool)
    ensures
        r == has_tag_name(rows.deep_view(), name@),
{
    let mut i: usize = 0;
    while i < rows.len()
        invariant
            0 <= i <= rows.len(),
            forall|k: int| 0 <= k < i ==> rows.deep_view()[k].name != name@,
        decreases rows.len() - i,
    {
        if str_eq(rows[i].name.as_str(), name.as_str()) {
            assert(rows.deep_view()[i as int].name == name@);
            return true;
        }
        i = i + 1;
    }
    false
}

/// Writing a well-formed event into a well-formed store yields a well-formed
/// store.
pub proof fn lemma_write_result_wf(s: StoreV, e: EventV)
    requires
        s.wf(),
        e.wf(),
    ensures
        write_result(s, e).0.wf(),
{
    if has_event_id(s.rows, e.id) {
    } else {
        let rows1 = s.rows.push(RowV { event: e, hidden: false });
        let tags1 = s.tags + insert_tag_rows(e.tags, e.id);
        let rows2 = if is_replaceable_kind(e.kind) {
            hide_replaced(rows1, e)
        } else {
            rows1
        };
        assert(rows2.len() == rows1.len());
        assert(forall|i: int|
            0 <= i < rows1.len() ==> (#[trigger] rows2[i]).event == rows1[i].event);
        lemma_insert_tag_rows_ids(e.tags, e.id);
        assert forall|j: int|
            0 <= j < tags1.len() implies ((#[trigger] tags1[j]).value_is_hex ==> stored_as_hex(
            tags1[j].value,
        )) by {
            if j < s.tags.len() {
                assert(tags1[j] == s.tags[j]);
            } else {
                assert(tags1[j] == insert_tag_rows(e.tags, e.id)[j - s.tags.len()]);
            }
        }
        assert(forall|j: int|
            0 <= j < tags1.len() ==> has_event_id(rows1, (#[trigger] tags1[j]).event_id)) by {
            assert forall|j: int|
                0 <= j < tags1.len() implies has_event_id(rows1, (#[trigger] tags1[j]).event_id) by {
                if j < s.tags.len() {
                    assert(tags1[j] == s.tags[j]);
                    let i = choose|i: int|
                        0 <= i < s.rows.len() && s.rows[i].event.id == s.tags[j].event_id;
                    assert(rows1[i].event.id == tags1[j].event_id);
                } else {
                    assert(tags1[j] == insert_tag_rows(e.tags, e.id)[j - s.tags.len()]);
                    assert(tags1[j].event_id == e.id);
                    assert(rows1[rows1.len() - 1].event.id == e.id);
                }
            }
        }
        let final_rows = if is_deletion_kind(e.kind) {
            apply_deletion(rows2, e)
        } else {
            if pre_deleted(StoreV { rows: rows2, tags: tags1 }, e) {
                hide_id(rows2, e.id)
            } else {
                rows2
            }
        };
        assert(final_rows.len() == rows2.len());
        assert(forall|i: int|
            0 <= i < rows2.len() ==> (#[trigger] final_rows[i]).event == rows2[i].event);
        assert(forall|j: int|
            0 <= j < tags1.len() ==> has_event_id(final_rows, (#[trigger] tags1[j]).event_id)) by {
            assert forall|j: int|
                0 <= j < tags1.len() implies has_event_id(
                final_rows,
                (#[trigger] tags1[j]).event_id,
            ) by {
                let i = choose|i: int|
                    0 <= i < rows1.len() && rows1[i].event.id == tags1[j].event_id;
                assert(final_rows[i].event.id == tags1[j].event_id);
            }
        }
    }
}

/// Every tag row generated for an insertion carries the inserted event's id
/// and a byte-form mark that agrees with its value.
proof fn lemma_insert_tag_rows_ids(tags: Seq<Seq<Seq<char>>>, id: Seq<char>)
    ensures
        forall|j: int|
            0 <= j < insert_tag_rows(tags, id).len() ==> (#[trigger] insert_tag_rows(tags, id)[j]).event_id
                == id,
        forall|j: int|
            0 <= j < insert_tag_rows(tags, id).len() ==> (#[trigger] insert_tag_rows(tags, id)[j]).value_is_hex
                == stored_as_hex(insert_tag_rows(tags, id)[j].value),
    decreases tags.len(),
{
    if tags.len() == 0 {
    } else {
        lemma_insert_tag_rows_ids(tags.drop_last(), id);
        let init = insert_tag_rows(tags.drop_last(), id);
        let all = insert_tag_rows(tags, id);
        assert forall|j: int|
            0 <= j < all.len() implies (#[trigger] all[j]).event_id == id && all[j].value_is_hex
            == stored_as_hex(all[j].value) by {
            if j < init.len() {
                assert(all[j] == init[j]);
            }
        }
    }
}

} // verus!
