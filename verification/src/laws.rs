//! Laws of the ingestion pipeline, proved against the store's functional
//! model.

use vstd::prelude::*;

use crate::event::{is_deletion_kind, is_replaceable_kind, EventV};
use crate::hexrange::{hex_range_spec, lex_lt, HexSearchV};
use crate::hexutil::{
    add_nibbles, all_hex_digits, hex_decode_spec, is_hex_digit, lemma_lower_hex_is_hex,
};
use crate::query::hs_matches;
use crate::store::{
    apply_deletion, count_with_id, deletes, has_event_id, has_tag_name, hide_id, hide_replaced,
    insert_tag_rows, is_del_ref, pre_del_witness, pre_deleted, stored_as_hex, write_result, RowV,
    StoreV, TagRowV,
};

verus! {

/// For a replaceable kind, at most one row per `(pubkey, kind)` is visible.
pub open spec fn replaceable_unique(rows: Seq<RowV>) -> bool {
    forall|i: int, j: int|
        0 <= i < j < rows.len() && is_replaceable_kind((#[trigger] rows[i]).event.kind)
            && rows[i].event.kind == (#[trigger] rows[j]).event.kind && rows[i].event.pubkey
            == rows[j].event.pubkey ==> rows[i].hidden || rows[j].hidden
}

/// Every row of the store holds this event's id only hidden.
pub open spec fn id_only_hidden(rows: Seq<RowV>, id: Seq<char>) -> bool {
    forall|i: int| 0 <= i < rows.len() && (#[trigger] rows[i]).event.id == id ==> rows[i].hidden
}

/// A tag row of length at least two named `e`.
pub open spec fn is_e_name_tag(t: Seq<Seq<char>>) -> bool {
    t.len() >= 2 && t[0] == "e"@
}

/// Writing preserves the visibility uniqueness of replaceable events,
/// provided an incoming replaceable event is no older than every visible
/// event of its `(pubkey, kind)`.  An older replaceable event would stay
/// visible beside a newer one, so that case is excluded here.
pub proof fn lemma_write_preserves_replaceable_unique(s: StoreV, e: EventV)
    requires
        s.wf(),
        e.wf(),
        replaceable_unique(s.rows),
        is_replaceable_kind(e.kind) ==> (forall|i: int|
            0 <= i < s.rows.len() && !(#[trigger] s.rows[i]).hidden && s.rows[i].event.kind
                == e.kind && s.rows[i].event.pubkey == e.pubkey ==> s.rows[i].event.created_at
                <= e.created_at),
    ensures
        replaceable_unique(write_result(s, e).0.rows),
{
    if has_event_id(s.rows, e.id) {
    } else {
        let rows1 = s.rows.push(RowV { event: e, hidden: false });
        let rows2 = if is_replaceable_kind(e.kind) {
            hide_replaced(rows1, e)
        } else {
            rows1
        };
        let tags1 = s.tags + insert_tag_rows(e.tags, e.id);
        let fin = write_result(s, e).0.rows;
        // events are preserved and rows only ever become hidden
        assert(rows2.len() == rows1.len());
        assert(fin.len() == rows2.len());
        assert(forall|k: int|
            0 <= k < rows2.len() ==> (#[trigger] rows2[k]).event == rows1[k].event);
        assert(forall|k: int| 0 <= k < fin.len() ==> (#[trigger] fin[k]).event == rows2[k].event);
        assert(forall|k: int|
            0 <= k < rows2.len() ==> ((#[trigger] rows1[k]).hidden ==> rows2[k].hidden));
        assert(forall|k: int|
            0 <= k < fin.len() ==> ((#[trigger] rows2[k]).hidden ==> fin[k].hidden));
        assert forall|i: int, j: int|
            0 <= i < j < fin.len() && is_replaceable_kind((#[trigger] fin[i]).event.kind)
                && fin[i].event.kind == (#[trigger] fin[j]).event.kind && fin[i].event.pubkey
                == fin[j].event.pubkey implies fin[i].hidden || fin[j].hidden by {
            if !fin[i].hidden && !fin[j].hidden {
                assert(!rows2[i].hidden && !rows2[j].hidden);
                assert(!rows1[i].hidden && !rows1[j].hidden);
                if j == s.rows.len() {
                    // the partner of the incoming event must have been
                    // replaced by it
                    assert(rows1[j].event == e);
                    assert(rows1[i].event == s.rows[i].event);
                    assert(!s.rows[i].hidden);
                    assert(s.rows[i].event.created_at <= e.created_at);
                    assert(s.rows[i].event.id != e.id) by {
                        if s.rows[i].event.id == e.id {
                            assert(has_event_id(s.rows, e.id));
                        }
                    }
                    assert(crate::store::replaces(e, rows1[i]));
                    assert(rows2[i].hidden);
                } else {
                    assert(rows1[i].event == s.rows[i].event);
                    assert(rows1[j].event == s.rows[j].event);
                    assert(s.rows[i].hidden || s.rows[j].hidden);
                }
            }
        }
    }
}

/// After a deletion event is written, every stored row it targets is hidden:
/// same author, not itself a deletion, referenced by an `e` tag.
pub proof fn lemma_deletion_hides_targets(s: StoreV, d: EventV)
    requires
        s.wf(),
        d.wf(),
        is_deletion_kind(d.kind),
        !has_event_id(s.rows, d.id),
    ensures
        forall|i: int|
            0 <= i < write_result(s, d).0.rows.len() && deletes(
                d,
                #[trigger] write_result(s, d).0.rows[i],
            ) ==> write_result(s, d).0.rows[i].hidden,
{
    let rows1 = s.rows.push(RowV { event: d, hidden: false });
    let fin = write_result(s, d).0.rows;
    assert(fin == apply_deletion(rows1, d));
    assert forall|i: int|
        0 <= i < fin.len() && deletes(d, #[trigger] fin[i]) implies fin[i].hidden by {
        assert(fin[i].event == rows1[i].event);
        assert(deletes(d, rows1[i]));
    }
}

/// Writing the same event twice stores it once: the first effective write
/// makes the second a duplicate that changes nothing, and exactly one row
/// holds the id.
pub proof fn lemma_write_twice(s: StoreV, e: EventV)
    requires
        s.wf(),
        e.wf(),
        write_result(s, e).1 == 1,
    ensures
        write_result(write_result(s, e).0, e).0 == write_result(s, e).0,
        write_result(write_result(s, e).0, e).1 == 0,
        count_with_id(write_result(s, e).0.rows, e.id) == 1,
{
    assert(!has_event_id(s.rows, e.id));
    let rows1 = s.rows.push(RowV { event: e, hidden: false });
    let rows2 = if is_replaceable_kind(e.kind) {
        hide_replaced(rows1, e)
    } else {
        rows1
    };
    let fin = write_result(s, e).0.rows;
    assert(fin.len() == rows1.len());
    assert(forall|k: int| 0 <= k < fin.len() ==> (#[trigger] fin[k]).event == rows1[k].event);
    assert(fin[s.rows.len() as int].event.id == e.id);
    assert(has_event_id(fin, e.id));
    lemma_count_zero_iff(s.rows, e.id);
    lemma_count_push(s.rows, RowV { event: e, hidden: false }, e.id);
    assert(count_with_id(rows1, e.id) == 1);
    lemma_count_same_ids(rows1, fin, e.id);
}

/// A count of zero is exactly the absence of the id.
proof fn lemma_count_zero_iff(rows: Seq<RowV>, id: Seq<char>)
    ensures
        (count_with_id(rows, id) == 0) <==> !has_event_id(rows, id),
    decreases rows.len(),
{
    if rows.len() == 0 {
    } else {
        lemma_count_zero_iff(rows.drop_last(), id);
        if has_event_id(rows, id) {
            let i = choose|i: int| 0 <= i < rows.len() && rows[i].event.id == id;
            if i < rows.len() - 1 {
                assert(rows.drop_last()[i].event.id == id);
                assert(has_event_id(rows.drop_last(), id));
            }
        } else {
            assert(forall|i: int| 0 <= i < rows.len() ==> (#[trigger] rows[i]).event.id != id);
            assert(!has_event_id(rows.drop_last(), id)) by {
                if has_event_id(rows.drop_last(), id) {
                    let i = choose|i: int|
                        0 <= i < rows.drop_last().len() && rows.drop_last()[i].event.id == id;
                    assert(rows[i].event.id == id);
                }
            }
        }
    }
}

/// Pushing one row raises the count by its contribution.
proof fn lemma_count_push(rows: Seq<RowV>, r: RowV, id: Seq<char>)
    ensures
        count_with_id(rows.push(r), id) == count_with_id(rows, id) + (if r.event.id == id {
            1nat
        } else {
            0nat
        }),
{
    assert(rows.push(r).drop_last() =~= rows);
    assert(rows.push(r).last() == r);
}

/// Rows with pointwise equal ids have equal counts.
proof fn lemma_count_same_ids(a: Seq<RowV>, b: Seq<RowV>, id: Seq<char>)
    requires
        a.len() == b.len(),
        forall|k: int| 0 <= k < a.len() ==> (#[trigger] a[k]).event.id == (#[trigger] b[k]).event.id,
    ensures
        count_with_id(a, id) == count_with_id(b, id),
    decreases a.len(),
{
    if a.len() == 0 {
    } else {
        assert(forall|k: int|
            0 <= k < a.drop_last().len() ==> (#[trigger] a.drop_last()[k]).event.id == (
            #[trigger] b.drop_last()[k]).event.id) by {
            assert(forall|k: int|
                0 <= k < a.len() - 1 ==> a.drop_last()[k] == a[k] && b.drop_last()[k] == b[k]);
        }
        lemma_count_same_ids(a.drop_last(), b.drop_last(), id);
        assert(a.last().event.id == b.last().event.id) by {
            assert(a[a.len() - 1].event.id == b[a.len() - 1].event.id);
        }
    }
}

/// Along the generated tag rows, every row named `e` carries value `v`, and
/// one exists as soon as some `e` tag does.
proof fn lemma_e_tag_indexed(tags: Seq<Seq<Seq<char>>>, id: Seq<char>, v: Seq<char>)
    requires
        forall|i: int| 0 <= i < tags.len() && is_e_name_tag(#[trigger] tags[i]) ==> tags[i][1] == v,
        stored_as_hex(v),
    ensures
        forall|j: int|
            0 <= j < insert_tag_rows(tags, id).len() && (#[trigger] insert_tag_rows(tags, id)[j]).name
                == "e"@ ==> insert_tag_rows(tags, id)[j] == (TagRowV {
                event_id: id,
                name: "e"@,
                value: v,
                value_is_hex: true,
            }),
        (exists|i: int| 0 <= i < tags.len() && is_e_name_tag(#[trigger] tags[i])) ==> has_tag_name(
            insert_tag_rows(tags, id),
            "e"@,
        ),
    decreases tags.len(),
{
    reveal_strlit("e");
    if tags.len() == 0 {
    } else {
        assert(forall|i: int|
            0 <= i < tags.drop_last().len() && is_e_name_tag(#[trigger] tags.drop_last()[i])
                ==> tags.drop_last()[i][1] == v) by {
            assert(forall|i: int| 0 <= i < tags.len() - 1 ==> tags.drop_last()[i] == tags[i]);
        }
        lemma_e_tag_indexed(tags.drop_last(), id, v);
        let init = insert_tag_rows(tags.drop_last(), id);
        let all = insert_tag_rows(tags, id);
        let t = tags.last();
        assert(t == tags[tags.len() - 1]);
        assert forall|j: int|
            0 <= j < all.len() && (#[trigger] all[j]).name == "e"@ implies all[j] == (TagRowV {
            event_id: id,
            name: "e"@,
            value: v,
            value_is_hex: true,
        }) by {
            if j < init.len() {
                assert(all[j] == init[j]);
            } else {
                assert(all[j] == all.last());
                assert(is_e_name_tag(t));
            }
        }
        if exists|i: int| 0 <= i < tags.len() && is_e_name_tag(#[trigger] tags[i]) {
            let i = choose|i: int| 0 <= i < tags.len() && is_e_name_tag(#[trigger] tags[i]);
            if i < tags.len() - 1 {
                assert(is_e_name_tag(tags.drop_last()[i]));
                assert(has_tag_name(init, "e"@));
                let j = choose|j: int| 0 <= j < init.len() && init[j].name == "e"@;
                assert(all[j] == init[j]);
                assert(has_tag_name(all, "e"@));
            } else {
                assert(is_e_name_tag(t));
                assert(crate::event::is_single_letter(t[0]));
                if has_tag_name(init, "e"@) {
                    let j = choose|j: int| 0 <= j < init.len() && init[j].name == "e"@;
                    assert(all[j] == init[j]);
                    assert(has_tag_name(all, "e"@));
                } else {
                    assert(all.last().name == "e"@);
                    assert(all[all.len() - 1].name == "e"@);
                    assert(has_tag_name(all, "e"@));
                }
            }
        }
    }
}

/// Deletion is order-independent: whether the target event arrives before
/// or after the deletion that references it, it ends hidden; when it
/// arrives after, its effective insertion count is zero, so it is not
/// broadcast.  The deletion's `e` tags must all name the target, since only
/// the first `e` tag row of an event is indexed.
pub proof fn lemma_deletion_order_independent(s: StoreV, e: EventV, d: EventV)
    requires
        s.wf(),
        e.wf(),
        d.wf(),
        is_deletion_kind(d.kind),
        !is_deletion_kind(e.kind),
        d.pubkey == e.pubkey,
        d.id != e.id,
        !has_event_id(s.rows, e.id),
        !has_event_id(s.rows, d.id),
        exists|i: int| 0 <= i < d.tags.len() && is_e_name_tag(#[trigger] d.tags[i]),
        forall|i: int| 0 <= i < d.tags.len() && is_e_name_tag(#[trigger] d.tags[i]) ==> d.tags[i][1] == e.id,
    ensures
        has_event_id(write_result(write_result(s, e).0, d).0.rows, e.id),
        id_only_hidden(write_result(write_result(s, e).0, d).0.rows, e.id),
        has_event_id(write_result(write_result(s, d).0, e).0.rows, e.id),
        id_only_hidden(write_result(write_result(s, d).0, e).0.rows, e.id),
        write_result(write_result(s, d).0, e).1 == 0,
{
    lemma_lower_hex_is_hex(e.id);
    // the target first, then the deletion
    {
        crate::store::lemma_write_result_wf(s, e);
        let s1 = write_result(s, e).0;
        let e_idx = s.rows.len() as int;
        assert(s1.rows.len() == s.rows.len() + 1);
        assert(s1.rows[e_idx].event == e);
        assert(forall|k: int|
            0 <= k < s.rows.len() ==> (#[trigger] s1.rows[k]).event == s.rows[k].event);
        assert(!has_event_id(s1.rows, d.id)) by {
            if has_event_id(s1.rows, d.id) {
                let i = choose|i: int| 0 <= i < s1.rows.len() && s1.rows[i].event.id == d.id;
                if i < s.rows.len() {
                    assert(s.rows[i].event.id == d.id);
                    assert(has_event_id(s.rows, d.id));
                }
            }
        }
        let rows1 = s1.rows.push(RowV { event: d, hidden: false });
        let fin = write_result(s1, d).0.rows;
        assert(fin == apply_deletion(rows1, d));
        let i0 = choose|i: int| 0 <= i < d.tags.len() && is_e_name_tag(#[trigger] d.tags[i]);
        assert(is_del_ref(d.tags[i0], e.id)) by {
            assert(d.tags[i0][1] == e.id);
        }
        assert forall|k: int|
            0 <= k < fin.len() && (#[trigger] fin[k]).event.id == e.id implies fin[k].hidden by {
            assert(fin[k].event == rows1[k].event);
            if k < s1.rows.len() {
                assert(rows1[k].event == s1.rows[k].event);
                assert(deletes(d, rows1[k]));
            } else {
                assert(rows1[k].event == d);
                assert(d.id != e.id);
            }
        }
        assert(fin[e_idx].event.id == e.id);
        assert(has_event_id(fin, e.id));
    }
    // the deletion first, then the target
    {
        crate::store::lemma_write_result_wf(s, d);
        let t1 = write_result(s, d).0;
        let d_idx = s.rows.len() as int;
        assert(t1.rows.len() == s.rows.len() + 1);
        assert(t1.rows[d_idx].event == d);
        assert(t1.tags == s.tags + insert_tag_rows(d.tags, d.id));
        assert(!has_event_id(t1.rows, e.id)) by {
            if has_event_id(t1.rows, e.id) {
                let i = choose|i: int| 0 <= i < t1.rows.len() && t1.rows[i].event.id == e.id;
                if i < s.rows.len() {
                    assert(s.rows[i].event.id == e.id);
                    assert(has_event_id(s.rows, e.id));
                } else {
                    assert(t1.rows[i].event == d);
                }
            }
        }
        lemma_e_tag_indexed(d.tags, d.id, e.id);
        assert(has_tag_name(insert_tag_rows(d.tags, d.id), "e"@));
        let j0 = choose|j: int|
            0 <= j < insert_tag_rows(d.tags, d.id).len() && insert_tag_rows(d.tags, d.id)[j].name
                == "e"@;
        let erow = insert_tag_rows(d.tags, d.id)[j0];
        assert(erow == (TagRowV { event_id: d.id, name: "e"@, value: e.id, value_is_hex: true }));
        let jt = s.tags.len() + j0;
        assert(t1.tags[jt] == erow);
        // now write the target event
        let rows1 = t1.rows.push(RowV { event: e, hidden: false });
        let rows2 = if is_replaceable_kind(e.kind) {
            hide_replaced(rows1, e)
        } else {
            rows1
        };
        let tags1 = t1.tags + insert_tag_rows(e.tags, e.id);
        assert(rows2.len() == rows1.len());
        assert(forall|k: int|
            0 <= k < rows1.len() ==> (#[trigger] rows2[k]).event == rows1[k].event);
        let s2 = StoreV { rows: rows2, tags: tags1 };
        assert(pre_deleted(s2, e)) by {
            assert(tags1[jt] == t1.tags[jt]);
            assert(rows2[d_idx].event == d);
            assert(pre_del_witness(s2, e, d_idx, jt));
        }
        assert(write_result(t1, e).1 == 0);
        let fin = write_result(t1, e).0.rows;
        assert(fin == hide_id(rows2, e.id));
        assert forall|k: int|
            0 <= k < fin.len() && (#[trigger] fin[k]).event.id == e.id implies fin[k].hidden by {
            assert(fin[k].event == rows2[k].event);
        }
        assert(fin[rows1.len() - 1].event.id == e.id);
        assert(has_event_id(fin, e.id));
    }
}

/// An author prefix of one hex character admits every key that starts with
/// that nibble: the compiled search is a lower bound just below all of them.
pub proof fn lemma_single_hex_prefix_matches(
    c: char,
    pk: Seq<char>,
    delegated: Option<Seq<u8>>,
)
    requires
        is_hex_digit(c),
        pk.len() == 64,
        all_hex_digits(pk),
        pk[0] == c,
    ensures
        crate::query::prefix_hit(seq![c], hex_decode_spec(pk), delegated),
{
    let p = seq![c];
    assert(all_hex_digits(p)) by {
        assert(forall|i: int| 0 <= i < p.len() ==> p[i] == c);
    }
    assert(p.len() == 1);
    let padded = p.push('0');
    assert(padded.len() == 2);
    assert(padded[0] == c && padded[1] == '0');
    let lo = hex_decode_spec(padded);
    assert(hex_range_spec(p) == Some(HexSearchV::LowerOnly(lo)));
    assert(lo.len() == 1);
    assert(lo[0] == add_nibbles(c, '0'));
    let pkb = hex_decode_spec(pk);
    assert(pkb.len() == 32);
    assert(pkb[0] == add_nibbles(pk[0], pk[1]));
    assert(crate::hexutil::hex_digit_value('0') == 0);
    assert(lo[0] == crate::hexutil::hex_digit_value(c) * 16);
    assert(is_hex_digit(pk[1]));
    assert(crate::hexutil::hex_digit_value(pk[1]) < 16);
    assert(pkb[0] >= lo[0]);
    assert(lex_lt(lo, pkb)) by {
        if pkb[0] > lo[0] {
            assert(lex_lt(lo, pkb));
        } else {
            assert(pkb[0] == lo[0]);
            let lo1 = lo.drop_first();
            let pkb1 = pkb.drop_first();
            assert(lo1.len() == 0);
            assert(pkb1.len() == 31);
            assert(lex_lt(lo1, pkb1));
        }
    }
    assert(hs_matches(HexSearchV::LowerOnly(lo), pkb));
}

} // verus!
