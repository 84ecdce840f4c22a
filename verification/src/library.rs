//! The list of the user's saved tracks: how a page from the service is merged
//! into what is known, and how entries leave it.
//!
//! The list holds one entry per track id and is ordered newest first; among
//! entries added in the same second, the greater id comes first.

use vstd::prelude::*;
use crate::model::clone_opt_string;
use crate::model::holds_string;
use crate::model::same_opt_string;
use crate::model::SavedTrack;
use crate::model::SavedTrackView;
use crate::text::is_text_before;
use crate::text::lemma_text_before_asymmetric;
use crate::text::lemma_text_before_total;
use crate::text::lemma_text_before_transitive;
use crate::text::text_before;

verus! {

/// The views of a sequence of entries.
pub open spec fn views(s: Seq<SavedTrack>) -> Seq<SavedTrackView> {
    Seq::new(s.len(), |i: int| s[i]@)
}

/// The track ids of a list of entries, in the list's order.
pub open spec fn track_ids(s: Seq<SavedTrackView>) -> Seq<Option<Seq<char>>> {
    Seq::new(s.len(), |i: int| s[i].track.id)
}

/// Whether the list has an entry with this track id.
pub open spec fn holds_id(s: Seq<SavedTrackView>, id: Option<Seq<char>>) -> bool {
    exists|k: int| 0 <= k < s.len() && (#[trigger] s[k]).track.id == id
}

/// For each track id of `s`, its first entry; in the order of `s`.
pub open spec fn first_entries(s: Seq<SavedTrackView>) -> Seq<SavedTrackView>
    decreases s.len(),
{
    if s.len() == 0 {
        s
    } else {
        let head = first_entries(s.drop_last());
        if holds_id(head, s.last().track.id) {
            head
        } else {
            head.push(s.last())
        }
    }
}

/// The order of track ids: no id before any id, ids by their text.
pub open spec fn id_before(a: Option<Seq<char>>, b: Option<Seq<char>>) -> bool {
    match (a, b) {
        (None, Some(_)) => true,
        (Some(x), Some(y)) => text_before(x, y),
        _ => false,
    }
}

/// Whether `a` stands before `b` in the list: it was added later, or in the
/// same second and has the greater id.
pub open spec fn ranks_before(a: SavedTrackView, b: SavedTrackView) -> bool {
    a.added_at > b.added_at || (a.added_at == b.added_at && id_before(b.track.id, a.track.id))
}

/// Whether each entry of the list stands before all that follow it.
pub open spec fn is_ranked(s: Seq<SavedTrackView>) -> bool {
    forall|i: int, j: int| 0 <= i < j < s.len() ==> ranks_before(s[i], s[j])
}

/// `x` put into `s` behind the last entry that stands before it.
pub open spec fn ranked_insert(s: Seq<SavedTrackView>, x: SavedTrackView) -> Seq<SavedTrackView>
    decreases s.len(),
{
    if s.len() == 0 {
        seq![x]
    } else if ranks_before(s.last(), x) {
        s.push(x)
    } else {
        ranked_insert(s.drop_last(), x).push(s.last())
    }
}

/// The entries of `s` put in order, one after another.
pub open spec fn ranked(s: Seq<SavedTrackView>) -> Seq<SavedTrackView>
    decreases s.len(),
{
    if s.len() == 0 {
        s
    } else {
        ranked_insert(ranked(s.drop_last()), s.last())
    }
}

/// The list after a page is merged into it: one entry per track id, a known
/// entry winning over the page's, in order.
pub open spec fn merged_saved_tracks(
    known: Seq<SavedTrackView>,
    page: Seq<SavedTrackView>,
) -> Seq<SavedTrackView> {
    ranked(first_entries(known + page))
}

/// The list without the entries whose track id is among `ids`.
pub open spec fn without_ids(s: Seq<SavedTrackView>, ids: Seq<Seq<char>>) -> Seq<SavedTrackView>
    decreases s.len(),
{
    if s.len() == 0 {
        s
    } else {
        let head = without_ids(s.drop_last(), ids);
        if is_among(s.last().track.id, ids) {
            head
        } else {
            head.push(s.last())
        }
    }
}

/// Whether a track has an id and the id is among `ids`.
pub open spec fn is_among(id: Option<Seq<char>>, ids: Seq<Seq<char>>) -> bool {
    match id {
        Some(text) => ids.contains(text),
        None => false,
    }
}

/// Whether every entry has a track id.
pub open spec fn all_have_ids(s: Seq<SavedTrackView>) -> bool {
    forall|i: int| 0 <= i < s.len() ==> (#[trigger] s[i]).track.id is Some
}

/// Dropping entries leaves entries with ids.
pub proof fn lemma_without_ids_have_ids(s: Seq<SavedTrackView>, ids: Seq<Seq<char>>)
    requires
        all_have_ids(s),
    ensures
        all_have_ids(without_ids(s, ids)),
    decreases s.len(),
{
    if s.len() > 0 {
        assert(s.last().track.id is Some);
        let t = s.drop_last();
        assert forall|i: int| 0 <= i < t.len() implies (#[trigger] t[i]).track.id is Some by {
            assert(t[i] == s[i]);
        }
        lemma_without_ids_have_ids(t, ids);
    }
}

/// Dropping entries keeps exactly the entries whose track id is not among
/// `ids`.
pub proof fn lemma_without_ids_entries(s: Seq<SavedTrackView>, ids: Seq<Seq<char>>)
    ensures
        forall|e: SavedTrackView|
            #[trigger] without_ids(s, ids).contains(e) <==> s.contains(e) && !is_among(
                e.track.id,
                ids,
            ),
    decreases s.len(),
{
    let w = without_ids(s, ids);
    if s.len() == 0 {
        assert forall|e: SavedTrackView| #[trigger] w.contains(e) <==> s.contains(e) && !is_among(
            e.track.id,
            ids,
        ) by {
            if w.contains(e) {
                let k = choose|k: int| 0 <= k < w.len() && w[k] == e;
            }
            if s.contains(e) {
                let k = choose|k: int| 0 <= k < s.len() && s[k] == e;
            }
        }
    } else {
        let t = s.drop_last();
        let h = without_ids(t, ids);
        lemma_without_ids_entries(t, ids);
        assert forall|e: SavedTrackView| #[trigger] w.contains(e) <==> s.contains(e) && !is_among(
            e.track.id,
            ids,
        ) by {
            if w.contains(e) {
                let k = choose|k: int| 0 <= k < w.len() && w[k] == e;
                if k < h.len() {
                    assert(h[k] == e);
                    assert(h.contains(e));
                    let m = choose|m: int| 0 <= m < t.len() && t[m] == e;
                    assert(s[m] == e);
                } else {
                    assert(s[s.len() - 1] == e);
                }
            }
            if s.contains(e) && !is_among(e.track.id, ids) {
                let k = choose|k: int| 0 <= k < s.len() && s[k] == e;
                if k < t.len() {
                    assert(t[k] == e);
                    assert(t.contains(e));
                    assert(h.contains(e));
                    let m = choose|m: int| 0 <= m < h.len() && h[m] == e;
                    assert(w[m] == e);
                } else {
                    assert(w[h.len() as int] == e);
                }
            }
        }
    }
}

/// Each of the first entries is an entry of the list.
pub proof fn lemma_first_entries_are_entries(s: Seq<SavedTrackView>)
    ensures
        forall|i: int|
            0 <= i < first_entries(s).len() ==> s.contains(#[trigger] first_entries(s)[i]),
    decreases s.len(),
{
    if s.len() > 0 {
        let t = s.drop_last();
        lemma_first_entries_are_entries(t);
        assert forall|i: int| 0 <= i < first_entries(s).len() implies s.contains(
            #[trigger] first_entries(s)[i],
        ) by {
            if i < first_entries(t).len() {
                let e = first_entries(t)[i];
                assert(t.contains(e));
                let k = choose|k: int| 0 <= k < t.len() && t[k] == e;
                assert(s[k] == e);
            } else {
                assert(first_entries(s)[i] == s[s.len() - 1]);
            }
        }
    }
}

/// Putting an entry in place keeps the entries and adds the one.
pub proof fn lemma_ranked_insert_entries(s: Seq<SavedTrackView>, x: SavedTrackView)
    ensures
        ranked_insert(s, x).len() == s.len() + 1,
        forall|e: SavedTrackView|
            #[trigger] ranked_insert(s, x).contains(e) <==> (s.contains(e) || e == x),
    decreases s.len(),
{
    let r = ranked_insert(s, x);
    if s.len() == 0 {
        assert(r[0] == x);
        assert forall|e: SavedTrackView| #[trigger] r.contains(e) <==> (s.contains(e) || e == x) by {
            if r.contains(e) {
                let k = choose|k: int| 0 <= k < r.len() && r[k] == e;
                assert(k == 0);
            }
        }
    } else if ranks_before(s.last(), x) {
        assert forall|e: SavedTrackView| #[trigger] r.contains(e) <==> (s.contains(e) || e == x) by {
            if r.contains(e) {
                let k = choose|k: int| 0 <= k < r.len() && r[k] == e;
                if k < s.len() {
                    assert(s[k] == e);
                }
            }
            if s.contains(e) {
                let k = choose|k: int| 0 <= k < s.len() && s[k] == e;
                assert(r[k] == e);
            }
            if e == x {
                assert(r[s.len() as int] == x);
            }
        }
    } else {
        let t = s.drop_last();
        let rt = ranked_insert(t, x);
        lemma_ranked_insert_entries(t, x);
        assert forall|e: SavedTrackView| #[trigger] r.contains(e) <==> (s.contains(e) || e == x) by {
            if r.contains(e) {
                let k = choose|k: int| 0 <= k < r.len() && r[k] == e;
                if k < rt.len() {
                    assert(rt[k] == e);
                    assert(rt.contains(e));
                    if t.contains(e) {
                        let m = choose|m: int| 0 <= m < t.len() && t[m] == e;
                        assert(s[m] == e);
                    }
                } else {
                    assert(e == s[s.len() - 1]);
                }
            }
            if s.contains(e) {
                let k = choose|k: int| 0 <= k < s.len() && s[k] == e;
                if k < t.len() {
                    assert(t[k] == e);
                    assert(t.contains(e));
                    assert(rt.contains(e));
                    let m = choose|m: int| 0 <= m < rt.len() && rt[m] == e;
                    assert(r[m] == e);
                } else {
                    assert(r[rt.len() as int] == e);
                }
            }
            if e == x {
                assert(rt.contains(x));
                let m = choose|m: int| 0 <= m < rt.len() && rt[m] == x;
                assert(r[m] == x);
            }
        }
    }
}

/// Putting a list in order keeps its entries.
pub proof fn lemma_ranked_entries(s: Seq<SavedTrackView>)
    ensures
        ranked(s).len() == s.len(),
        forall|e: SavedTrackView| #[trigger] ranked(s).contains(e) <==> s.contains(e),
    decreases s.len(),
{
    if s.len() > 0 {
        let t = s.drop_last();
        lemma_ranked_entries(t);
        lemma_ranked_insert_entries(ranked(t), s.last());
        assert forall|e: SavedTrackView| #[trigger] ranked(s).contains(e) <==> s.contains(e) by {
            if s.contains(e) {
                let k = choose|k: int| 0 <= k < s.len() && s[k] == e;
                if k < t.len() {
                    assert(t[k] == e);
                    assert(t.contains(e));
                }
            }
            if t.contains(e) {
                let k = choose|k: int| 0 <= k < t.len() && t[k] == e;
                assert(s[k] == e);
            }
            if e == s.last() {
                assert(s[s.len() - 1] == e);
            }
        }
    }
}

/// Merging lists whose entries have ids gives a list whose entries have ids.
pub proof fn lemma_merged_have_ids(known: Seq<SavedTrackView>, page: Seq<SavedTrackView>)
    requires
        all_have_ids(known),
        all_have_ids(page),
    ensures
        all_have_ids(merged_saved_tracks(known, page)),
{
    let all = known + page;
    let m = merged_saved_tracks(known, page);
    lemma_first_entries_are_entries(all);
    lemma_ranked_entries(first_entries(all));
    assert forall|i: int| 0 <= i < m.len() implies (#[trigger] m[i]).track.id is Some by {
        assert(m.contains(m[i]));
        assert(first_entries(all).contains(m[i]));
        let j = choose|j: int| 0 <= j < first_entries(all).len() && first_entries(all)[j] == m[i];
        assert(all.contains(first_entries(all)[j]));
        let k = choose|k: int| 0 <= k < all.len() && all[k] == m[i];
        if k < known.len() {
            assert(all[k] == known[k]);
        } else {
            assert(all[k] == page[k - known.len()]);
        }
    }
}

/// Whether `e` is the first entry of `s` with its track id.
pub open spec fn is_first_entry(s: Seq<SavedTrackView>, e: SavedTrackView) -> bool {
    exists|j: int|
        0 <= j < s.len() && #[trigger] s[j] == e && forall|k: int|
            0 <= k < j ==> (#[trigger] s[k]).track.id != e.track.id
}

/// Whether no two entries have the same track id.
pub open spec fn ids_distinct(s: Seq<SavedTrackView>) -> bool {
    forall|i: int, j: int| 0 <= i < j < s.len() ==> s[i].track.id != s[j].track.id
}

/// Whether a list is what merging a page into the known list must give: it is
/// in order, it has an entry for every track id of the two lists, and each
/// of its entries is the first one of its track id, the known list taken
/// before the page.
pub open spec fn is_merge_of(
    out: Seq<SavedTrackView>,
    known: Seq<SavedTrackView>,
    page: Seq<SavedTrackView>,
) -> bool {
    &&& is_ranked(out)
    &&& forall|id: Option<Seq<char>>| holds_id(known + page, id) ==> holds_id(out, id)
    &&& forall|i: int| 0 <= i < out.len() ==> is_first_entry(known + page, #[trigger] out[i])
}

/// Of two entries at most one stands before the other, and none before
/// itself.
pub proof fn lemma_ranks_before_asymmetric(a: SavedTrackView, b: SavedTrackView)
    ensures
        !(ranks_before(a, b) && ranks_before(b, a)),
{
    match (a.track.id, b.track.id) {
        (Some(x), Some(y)) => {
            lemma_text_before_asymmetric(x, y);
        },
        _ => {},
    }
}

/// Of two entries with different track ids one stands before the other.
pub proof fn lemma_ranks_before_total(a: SavedTrackView, b: SavedTrackView)
    requires
        a.track.id != b.track.id,
    ensures
        ranks_before(a, b) || ranks_before(b, a),
{
    match (a.track.id, b.track.id) {
        (Some(x), Some(y)) => {
            lemma_text_before_total(x, y);
        },
        _ => {},
    }
}

/// What stands before an entry stands before all that the entry stands
/// before.
pub proof fn lemma_ranks_before_transitive(a: SavedTrackView, b: SavedTrackView, c: SavedTrackView)
    requires
        ranks_before(a, b),
        ranks_before(b, c),
    ensures
        ranks_before(a, c),
{
    if a.added_at == b.added_at && b.added_at == c.added_at {
        match (a.track.id, b.track.id, c.track.id) {
            (Some(x), Some(y), Some(z)) => {
                lemma_text_before_transitive(z, y, x);
            },
            _ => {},
        }
    }
}

/// The first entries have different track ids, stand for every track id of
/// the list, and each is the first entry of its track id.
pub proof fn lemma_first_entries(s: Seq<SavedTrackView>)
    ensures
        ids_distinct(first_entries(s)),
        forall|id: Option<Seq<char>>| holds_id(s, id) ==> holds_id(first_entries(s), id),
        forall|i: int| 0 <= i < first_entries(s).len() ==> is_first_entry(
            s,
            #[trigger] first_entries(s)[i],
        ),
    decreases s.len(),
{
    let f = first_entries(s);
    if s.len() > 0 {
        let t = s.drop_last();
        let h = first_entries(t);
        let last = s.last();
        lemma_first_entries(t);
        assert forall|id: Option<Seq<char>>| holds_id(s, id) implies holds_id(f, id) by {
            let k = choose|k: int| 0 <= k < s.len() && (#[trigger] s[k]).track.id == id;
            if k < t.len() {
                assert(t[k].track.id == id);
                assert(holds_id(t, id));
                let m = choose|m: int| 0 <= m < h.len() && (#[trigger] h[m]).track.id == id;
                assert(f[m].track.id == id);
            } else {
                if holds_id(h, last.track.id) {
                } else {
                    assert(f[h.len() as int].track.id == id);
                }
            }
        }
        assert forall|i: int| 0 <= i < f.len() implies is_first_entry(s, #[trigger] f[i]) by {
            if i < h.len() {
                assert(is_first_entry(t, h[i]));
                let j = choose|j: int|
                    0 <= j < t.len() && #[trigger] t[j] == h[i] && forall|k: int|
                        0 <= k < j ==> (#[trigger] t[k]).track.id != h[i].track.id;
                assert(s[j] == f[i]);
                assert forall|k: int| 0 <= k < j implies (#[trigger] s[k]).track.id
                    != f[i].track.id by {
                    assert(t[k].track.id != h[i].track.id);
                }
            } else {
                let j = s.len() - 1;
                assert(s[j] == f[i]);
                assert forall|k: int| 0 <= k < j implies (#[trigger] s[k]).track.id
                    != f[i].track.id by {
                    if s[k].track.id == last.track.id {
                        assert(t[k].track.id == last.track.id);
                        assert(holds_id(t, last.track.id));
                        assert(holds_id(h, last.track.id));
                    }
                }
            }
        }
        assert forall|i: int, j: int| 0 <= i < j < f.len() implies f[i].track.id
            != f[j].track.id by {
            if j == h.len() {
                assert(h[i].track.id != last.track.id);
            }
        }
    }
}

/// An entry put into an ordered list whose track ids differ from its own
/// leaves the list in order.
pub proof fn lemma_ranked_insert_is_ranked(s: Seq<SavedTrackView>, x: SavedTrackView)
    requires
        is_ranked(s),
        forall|i: int| 0 <= i < s.len() ==> (#[trigger] s[i]).track.id != x.track.id,
    ensures
        is_ranked(ranked_insert(s, x)),
    decreases s.len(),
{
    let r = ranked_insert(s, x);
    if s.len() == 0 {
    } else if ranks_before(s.last(), x) {
        assert forall|i: int, j: int| 0 <= i < j < r.len() implies ranks_before(r[i], r[j]) by {
            if j == s.len() && i < s.len() - 1 {
                assert(ranks_before(s[i], s[s.len() - 1]));
                lemma_ranks_before_transitive(s[i], s.last(), x);
            }
        }
    } else {
        let t = s.drop_last();
        let rt = ranked_insert(t, x);
        assert forall|i: int, j: int| 0 <= i < j < t.len() implies ranks_before(t[i], t[j]) by {
            assert(ranks_before(s[i], s[j]));
        }
        assert forall|i: int| 0 <= i < t.len() implies (#[trigger] t[i]).track.id
            != x.track.id by {
            assert(s[i].track.id != x.track.id);
        }
        lemma_ranked_insert_is_ranked(t, x);
        lemma_ranked_insert_entries(t, x);
        assert(s[s.len() - 1].track.id != x.track.id);
        lemma_ranks_before_total(x, s.last());
        assert forall|i: int, j: int| 0 <= i < j < r.len() implies ranks_before(r[i], r[j]) by {
            if j == rt.len() {
                let e = rt[i];
                assert(rt.contains(e));
                if e == x {
                } else {
                    assert(t.contains(e));
                    let k = choose|k: int| 0 <= k < t.len() && t[k] == e;
                    assert(ranks_before(s[k], s[s.len() - 1]));
                }
            } else {
                assert(ranks_before(rt[i], rt[j]));
            }
        }
    }
}

/// A list with different track ids, put in order, is in order.
pub proof fn lemma_ranked_is_ranked(s: Seq<SavedTrackView>)
    requires
        ids_distinct(s),
    ensures
        is_ranked(ranked(s)),
    decreases s.len(),
{
    if s.len() > 0 {
        let t = s.drop_last();
        assert forall|i: int, j: int| 0 <= i < j < t.len() implies t[i].track.id
            != t[j].track.id by {
            assert(s[i].track.id != s[j].track.id);
        }
        lemma_ranked_is_ranked(t);
        lemma_ranked_entries(t);
        assert forall|i: int| 0 <= i < ranked(t).len() implies (#[trigger] ranked(t)[i]).track.id
            != s.last().track.id by {
            let e = ranked(t)[i];
            assert(ranked(t).contains(e));
            assert(t.contains(e));
            let k = choose|k: int| 0 <= k < t.len() && t[k] == e;
            assert(s[k].track.id != s[s.len() - 1].track.id);
        }
        lemma_ranked_insert_is_ranked(ranked(t), s.last());
    }
}

/// Merging gives what a merge must give.
pub proof fn lemma_merged_is_merge(known: Seq<SavedTrackView>, page: Seq<SavedTrackView>)
    ensures
        is_merge_of(merged_saved_tracks(known, page), known, page),
        ids_distinct(merged_saved_tracks(known, page)),
{
    let all = known + page;
    let f = first_entries(all);
    let m = merged_saved_tracks(known, page);
    lemma_first_entries(all);
    lemma_ranked_is_ranked(f);
    lemma_ranked_entries(f);
    assert forall|id: Option<Seq<char>>| holds_id(all, id) implies holds_id(m, id) by {
        let k = choose|k: int| 0 <= k < f.len() && (#[trigger] f[k]).track.id == id;
        assert(f.contains(f[k]));
        assert(m.contains(f[k]));
        let i = choose|i: int| 0 <= i < m.len() && m[i] == f[k];
        assert(m[i].track.id == id);
    }
    assert forall|i: int| 0 <= i < m.len() implies is_first_entry(all, #[trigger] m[i]) by {
        assert(m.contains(m[i]));
        assert(f.contains(m[i]));
        let k = choose|k: int| 0 <= k < f.len() && f[k] == m[i];
        assert(is_first_entry(all, f[k]));
    }
    assert forall|i: int, j: int| 0 <= i < j < m.len() implies m[i].track.id
        != m[j].track.id by {
        if m[i].track.id == m[j].track.id {
            assert(m.contains(m[i]));
            assert(m.contains(m[j]));
            assert(f.contains(m[i]));
            assert(f.contains(m[j]));
            let a = choose|a: int| 0 <= a < f.len() && f[a] == m[i];
            let b = choose|b: int| 0 <= b < f.len() && f[b] == m[j];
            if a < b {
                assert(f[a].track.id != f[b].track.id);
            } else if b < a {
                assert(f[b].track.id != f[a].track.id);
            }
            assert(m[i] == m[j]);
            assert(ranks_before(m[i], m[j]));
            lemma_ranks_before_asymmetric(m[i], m[j]);
        }
    }
}

/// Two lists in order that hold the same entries are the same list.
pub proof fn lemma_ranked_unique(a: Seq<SavedTrackView>, b: Seq<SavedTrackView>)
    requires
        is_ranked(a),
        is_ranked(b),
        forall|e: SavedTrackView| a.contains(e) <==> b.contains(e),
    ensures
        a == b,
    decreases a.len(),
{
    if a.len() == 0 {
        if b.len() > 0 {
            assert(b.contains(b[0]));
            assert(a.contains(b[0]));
        }
        assert(a =~= b);
    } else {
        let x = a.last();
        assert(a.contains(a[a.len() - 1]));
        assert(b.contains(x));
        let j = choose|j: int| 0 <= j < b.len() && b[j] == x;
        let y = b.last();
        assert(b.contains(b[b.len() - 1]));
        assert(a.contains(y));
        let i = choose|i: int| 0 <= i < a.len() && a[i] == y;
        if j < b.len() - 1 {
            assert(ranks_before(b[j], b[b.len() - 1]));
            if i < a.len() - 1 {
                assert(ranks_before(a[i], a[a.len() - 1]));
            }
            lemma_ranks_before_asymmetric(x, y);
            assert(false);
        }
        let s = a.drop_last();
        let t = b.drop_last();
        assert forall|e: SavedTrackView| s.contains(e) <==> t.contains(e) by {
            if s.contains(e) {
                let k = choose|k: int| 0 <= k < s.len() && s[k] == e;
                assert(ranks_before(a[k], a[a.len() - 1]));
                lemma_ranks_before_asymmetric(e, x);
                assert(a.contains(a[k]));
                assert(b.contains(e));
                let m = choose|m: int| 0 <= m < b.len() && b[m] == e;
                assert(m < b.len() - 1);
                assert(t[m] == e);
            }
            if t.contains(e) {
                let k = choose|k: int| 0 <= k < t.len() && t[k] == e;
                assert(ranks_before(b[k], b[b.len() - 1]));
                lemma_ranks_before_asymmetric(e, x);
                assert(b.contains(b[k]));
                assert(a.contains(e));
                let m = choose|m: int| 0 <= m < a.len() && a[m] == e;
                assert(m < a.len() - 1);
                assert(s[m] == e);
            }
        }
        assert forall|p: int, q: int| 0 <= p < q < s.len() implies ranks_before(s[p], s[q]) by {
            assert(ranks_before(a[p], a[q]));
        }
        assert forall|p: int, q: int| 0 <= p < q < t.len() implies ranks_before(t[p], t[q]) by {
            assert(ranks_before(b[p], b[q]));
        }
        lemma_ranked_unique(s, t);
        assert(a =~= s.push(x));
        assert(b =~= t.push(x));
    }
}

/// What a merge must give is given by one list only: the one that merging
/// computes.
pub proof fn lemma_merge_is_unique(
    out: Seq<SavedTrackView>,
    known: Seq<SavedTrackView>,
    page: Seq<SavedTrackView>,
)
    requires
        is_merge_of(out, known, page),
    ensures
        out == merged_saved_tracks(known, page),
{
    let all = known + page;
    let m = merged_saved_tracks(known, page);
    lemma_merged_is_merge(known, page);
    assert forall|e: SavedTrackView| out.contains(e) <==> m.contains(e) by {
        if out.contains(e) {
            let i = choose|i: int| 0 <= i < out.len() && out[i] == e;
            lemma_same_first_entry(all, out, i, m);
        }
        if m.contains(e) {
            let i = choose|i: int| 0 <= i < m.len() && m[i] == e;
            lemma_same_first_entry(all, m, i, out);
        }
    }
    lemma_ranked_unique(out, m);
}

/// Whether entries with the same track id are the same entry throughout.
pub open spec fn is_consistent(s: Seq<SavedTrackView>) -> bool {
    forall|i: int, j: int|
        0 <= i < s.len() && 0 <= j < s.len() && s[i].track.id == s[j].track.id ==> s[i] == s[j]
}

/// What one of two lists holds is what the two put together hold.
pub proof fn lemma_contains_either(s: Seq<SavedTrackView>, t: Seq<SavedTrackView>)
    ensures
        forall|e: SavedTrackView| #[trigger] (s + t).contains(e) <==> s.contains(e) || t.contains(e),
{
    assert forall|e: SavedTrackView| #[trigger] (s + t).contains(e) <==> s.contains(e)
        || t.contains(e) by {
        if (s + t).contains(e) {
            let k = choose|k: int| 0 <= k < (s + t).len() && (s + t)[k] == e;
            if k < s.len() {
                assert(s[k] == e);
            } else {
                assert(t[k - s.len()] == e);
            }
        }
        if s.contains(e) {
            let k = choose|k: int| 0 <= k < s.len() && s[k] == e;
            assert((s + t)[k] == e);
        }
        if t.contains(e) {
            let k = choose|k: int| 0 <= k < t.len() && t[k] == e;
            assert((s + t)[k + s.len()] == e);
        }
    }
}

/// A page that was merged before changes nothing when it comes again.
pub proof fn lemma_merge_again_changes_nothing(
    known: Seq<SavedTrackView>,
    page: Seq<SavedTrackView>,
)
    ensures
        merged_saved_tracks(merged_saved_tracks(known, page), page) == merged_saved_tracks(
            known,
            page,
        ),
{
    let m = merged_saved_tracks(known, page);
    lemma_merged_is_merge(known, page);
    assert forall|id: Option<Seq<char>>| holds_id(m + page, id) implies holds_id(m, id) by {
        let k = choose|k: int| 0 <= k < (m + page).len() && (#[trigger] (m + page)[k]).track.id == id;
        if k >= m.len() {
            assert((known + page)[known.len() + (k - m.len())].track.id == id);
            assert(holds_id(known + page, id));
        } else {
            assert(m[k].track.id == id);
        }
    }
    assert forall|i: int| 0 <= i < m.len() implies is_first_entry(m + page, #[trigger] m[i]) by {
        assert((m + page)[i] == m[i]);
        assert forall|k: int| 0 <= k < i implies (#[trigger] (m + page)[k]).track.id
            != m[i].track.id by {
            assert(m[k].track.id != m[i].track.id);
        }
    }
    lemma_merge_is_unique(m, m, page);
}

/// With consistent entries, merging keeps exactly the entries of the two
/// lists.
pub proof fn lemma_merged_entries(known: Seq<SavedTrackView>, page: Seq<SavedTrackView>)
    requires
        is_consistent(known + page),
    ensures
        forall|e: SavedTrackView|
            #[trigger] merged_saved_tracks(known, page).contains(e) <==> known.contains(e)
                || page.contains(e),
{
    let all = known + page;
    let m = merged_saved_tracks(known, page);
    lemma_merged_is_merge(known, page);
    lemma_contains_either(known, page);
    assert forall|e: SavedTrackView| #[trigger] m.contains(e) <==> all.contains(e) by {
        if m.contains(e) {
            let i = choose|i: int| 0 <= i < m.len() && m[i] == e;
            assert(is_first_entry(all, m[i]));
        }
        if all.contains(e) {
            let j = choose|j: int| 0 <= j < all.len() && all[j] == e;
            assert(all[j].track.id == e.track.id);
            assert(holds_id(all, e.track.id));
            assert(holds_id(m, e.track.id));
            let i = choose|i: int| 0 <= i < m.len() && (#[trigger] m[i]).track.id == e.track.id;
            assert(is_first_entry(all, m[i]));
            let n = choose|n: int| 0 <= n < all.len() && #[trigger] all[n] == m[i];
            assert(all[n].track.id == all[j].track.id);
            assert(all[n] == all[j]);
        }
    }
}

/// With consistent entries, two pages give the same list in whichever order
/// they are merged.
pub proof fn lemma_merge_order_is_free(
    known: Seq<SavedTrackView>,
    first: Seq<SavedTrackView>,
    second: Seq<SavedTrackView>,
)
    requires
        is_consistent(known + first + second),
    ensures
        merged_saved_tracks(merged_saved_tracks(known, first), second) == merged_saved_tracks(
            merged_saved_tracks(known, second),
            first,
        ),
{
    let all = known + first + second;
    lemma_contains_either(known + first, second);
    lemma_contains_either(known, first);
    lemma_contains_either(known, second);
    lemma_consistent_part(all, known + first);
    lemma_consistent_part(all, known + second);
    let mf = merged_saved_tracks(known, first);
    let ms = merged_saved_tracks(known, second);
    lemma_merged_entries(known, first);
    lemma_merged_entries(known, second);
    lemma_contains_either(mf, second);
    lemma_contains_either(ms, first);
    lemma_consistent_part(all, mf + second);
    lemma_consistent_part(all, ms + first);
    lemma_merged_entries(mf, second);
    lemma_merged_entries(ms, first);
    lemma_merged_is_merge(mf, second);
    lemma_merged_is_merge(ms, first);
    lemma_ranked_unique(merged_saved_tracks(mf, second), merged_saved_tracks(ms, first));
}

proof fn lemma_consistent_part(all: Seq<SavedTrackView>, part: Seq<SavedTrackView>)
    requires
        is_consistent(all),
        forall|e: SavedTrackView| part.contains(e) ==> all.contains(e),
    ensures
        is_consistent(part),
{
    assert forall|i: int, j: int|
        0 <= i < part.len() && 0 <= j < part.len() && part[i].track.id
            == part[j].track.id implies part[i] == part[j] by {
        assert(part.contains(part[i]));
        assert(part.contains(part[j]));
        let a = choose|a: int| 0 <= a < all.len() && all[a] == part[i];
        let b = choose|b: int| 0 <= b < all.len() && all[b] == part[j];
        assert(all[a] == all[b]);
    }
}

proof fn lemma_same_first_entry(
    all: Seq<SavedTrackView>,
    a: Seq<SavedTrackView>,
    i: int,
    b: Seq<SavedTrackView>,
)
    requires
        0 <= i < a.len(),
        is_first_entry(all, a[i]),
        forall|id: Option<Seq<char>>| holds_id(all, id) ==> holds_id(b, id),
        forall|k: int| 0 <= k < b.len() ==> is_first_entry(all, #[trigger] b[k]),
    ensures
        b.contains(a[i]),
{
    let e = a[i];
    let j = choose|j: int|
        0 <= j < all.len() && #[trigger] all[j] == e && forall|k: int|
            0 <= k < j ==> (#[trigger] all[k]).track.id != e.track.id;
    assert(all[j].track.id == e.track.id);
    assert(holds_id(all, e.track.id));
    let m = choose|m: int| 0 <= m < b.len() && (#[trigger] b[m]).track.id == e.track.id;
    assert(is_first_entry(all, b[m]));
    let n = choose|n: int|
        0 <= n < all.len() && #[trigger] all[n] == b[m] && forall|k: int|
            0 <= k < n ==> (#[trigger] all[k]).track.id != b[m].track.id;
    if j < n {
        assert(all[j].track.id != b[m].track.id);
    } else if n < j {
        assert(all[n].track.id != e.track.id);
    }
    assert(b[m] == e);
}

fn is_id_before(a: &Option<String>, b: &Option<String>) -> (r: bool)
    ensures
        r == id_before(a.deep_view(), b.deep_view()),
{
    match b {
        Some(y) => match a {
            Some(x) => is_text_before(x.as_str(), y.as_str()),
            None => true,
        },
        None => false,
    }
}

fn is_ranked_before(a: &SavedTrack, b: &SavedTrack) -> (r: bool)
    ensures
        r == ranks_before(a@, b@),
{
    a.added_at > b.added_at || (a.added_at == b.added_at && is_id_before(
        &b.track.id,
        &a.track.id,
    ))
}

fn has_entry_with_id(list: &Vec<SavedTrack>, id: &Option<String>) -> (r: bool)
    ensures
        r == holds_id(list.deep_view(), id.deep_view()),
{
    let mut i: usize = 0;
    while i < list.len()
        invariant
            i <= list.len(),
            forall|k: int| 0 <= k < i ==> (#[trigger] list.deep_view()[k]).track.id != id.deep_view(),
        decreases list.len() - i,
    {
        if same_opt_string(&list[i].track.id, id) {
            assert(list.deep_view()[i as int].track.id == id.deep_view());
            return true;
        }
        i += 1;
    }
    false
}

proof fn lemma_ranked_insert_split(s: Seq<SavedTrackView>, x: SavedTrackView, p: int)
    requires
        0 <= p <= s.len(),
        forall|k: int| p <= k < s.len() ==> !ranks_before(#[trigger] s[k], x),
    ensures
        ranked_insert(s, x) == ranked_insert(s.take(p), x) + s.skip(p),
    decreases s.len() - p,
{
    if p == s.len() {
        assert(s.take(p) =~= s);
        assert(ranked_insert(s, x) + s.skip(p) =~= ranked_insert(s, x));
    } else {
        let t = s.drop_last();
        assert(!ranks_before(s[s.len() - 1], x));
        lemma_ranked_insert_split(t, x, p);
        assert(t.take(p) =~= s.take(p));
        assert(t.skip(p).push(s.last()) =~= s.skip(p));
        assert((ranked_insert(t.take(p), x) + t.skip(p)).push(s.last()) =~= ranked_insert(
            s.take(p),
            x,
        ) + s.skip(p));
    }
}

/// Puts an entry into an ordered list.
fn insert_ranked(list: &mut Vec<SavedTrack>, entry: SavedTrack)
    ensures
        final(list).deep_view() == ranked_insert(old(list).deep_view(), entry@),
{
    let mut p: usize = list.len();
    while p > 0 && !is_ranked_before(&list[p - 1], &entry)
        invariant
            p <= list.len(),
            list == old(list),
            forall|k: int|
                p <= k < list.len() ==> !ranks_before(#[trigger] list.deep_view()[k], entry@),
        decreases p,
    {
        p -= 1;
    }
    proof {
        let s = list.deep_view();
        lemma_ranked_insert_split(s, entry@, p as int);
        if p > 0 {
            assert(s.take(p as int).last() == s[p - 1]);
            assert(ranked_insert(s.take(p as int), entry@) == s.take(p as int).push(entry@));
        } else {
            assert(s.take(0).len() == 0);
        }
        assert(s.take(p as int).push(entry@) + s.skip(p as int) =~= s.insert(p as int, entry@));
    }
    list.insert(p, entry);
    assert(list.deep_view() =~= old(list).deep_view().insert(p as int, entry@));
}

/// For each track id, its first entry.
fn keep_first_entries(all: Vec<SavedTrack>) -> (kept: Vec<SavedTrack>)
    ensures
        kept.deep_view() == first_entries(all.deep_view()),
{
    let ghost given = all.deep_view();
    let mut kept: Vec<SavedTrack> = Vec::new();
    for entry in it: all
        invariant
            views(it.seq()) == given,
            kept.deep_view() == first_entries(given.take(it.index())),
    {
        proof {
            let k = it.index();
            assert(given.take(k + 1).drop_last() =~= given.take(k));
            assert(given.take(k + 1).last() == entry@);
        }
        if !has_entry_with_id(&kept, &entry.track.id) {
            let ghost before = kept.deep_view();
            kept.push(entry);
            assert(kept.deep_view() =~= before.push(entry@));
        }
    }
    assert(given.take(given.len() as int) =~= given);
    kept
}

/// Puts a list in order.
fn rank(list: Vec<SavedTrack>) -> (out: Vec<SavedTrack>)
    ensures
        out.deep_view() == ranked(list.deep_view()),
{
    let ghost given = list.deep_view();
    let mut out: Vec<SavedTrack> = Vec::new();
    for entry in it: list
        invariant
            views(it.seq()) == given,
            out.deep_view() == ranked(given.take(it.index())),
    {
        proof {
            let k = it.index();
            assert(given.take(k + 1).drop_last() =~= given.take(k));
            assert(given.take(k + 1).last() == entry@);
        }
        insert_ranked(&mut out, entry);
    }
    assert(given.take(given.len() as int) =~= given);
    out
}

/// Drops the entries whose track id is among `ids`.
pub fn remove_saved_tracks(known: Vec<SavedTrack>, ids: &Vec<String>) -> (out: Vec<SavedTrack>)
    ensures
        out.deep_view() == without_ids(known.deep_view(), ids.deep_view()),
{
    let ghost given = known.deep_view();
    let mut out: Vec<SavedTrack> = Vec::new();
    for entry in it: known
        invariant
            views(it.seq()) == given,
            out.deep_view() == without_ids(given.take(it.index()), ids.deep_view()),
    {
        proof {
            let k = it.index();
            assert(given.take(k + 1).drop_last() =~= given.take(k));
            assert(given.take(k + 1).last() == entry@);
        }
        let listed = match &entry.track.id {
            Some(id) => holds_string(ids, id),
            None => false,
        };
        if !listed {
            let ghost before = out.deep_view();
            out.push(entry);
            assert(out.deep_view() =~= before.push(entry@));
        }
    }
    assert(given.take(given.len() as int) =~= given);
    out
}

/// The track ids of a list, in the list's order.
pub fn collect_track_ids(list: &Vec<SavedTrack>) -> (ids: Vec<Option<String>>)
    ensures
        ids.deep_view() == track_ids(list.deep_view()),
{
    let mut ids: Vec<Option<String>> = Vec::new();
    let mut i: usize = 0;
    while i < list.len()
        invariant
            i <= list.len(),
            ids.len() == i,
            forall|k: int| 0 <= k < i ==> ids.deep_view()[k] == list.deep_view()[k].track.id,
        decreases list.len() - i,
    {
        let ghost before = ids.deep_view();
        let id = clone_opt_string(&list[i].track.id);
        ids.push(id);
        assert(ids.deep_view() =~= before.push(list.deep_view()[i as int].track.id));
        i += 1;
    }
    assert(ids.deep_view() =~= track_ids(list.deep_view()));
    ids
}

/// Whether a list holds exactly these track ids, in this order.
pub fn has_track_ids(list: &Vec<SavedTrack>, ids: &Vec<Option<String>>) -> (r: bool)
    ensures
        r == (track_ids(list.deep_view()) == ids.deep_view()),
{
    if list.len() != ids.len() {
        assert(track_ids(list.deep_view()).len() != ids.deep_view().len());
        return false;
    }
    let mut i: usize = 0;
    while i < list.len()
        invariant
            i <= list.len(),
            list.len() == ids.len(),
            forall|k: int| 0 <= k < i ==> track_ids(list.deep_view())[k] == ids.deep_view()[k],
        decreases list.len() - i,
    {
        if !same_opt_string(&list[i].track.id, &ids[i]) {
            assert(track_ids(list.deep_view())[i as int] != ids.deep_view()[i as int]);
            return false;
        }
        i += 1;
    }
    assert(track_ids(list.deep_view()) =~= ids.deep_view());
    true
}

/// Whether every entry has a track id.
pub fn have_ids(list: &Vec<SavedTrack>) -> (r: bool)
    ensures
        r == all_have_ids(list.deep_view()),
{
    let mut i: usize = 0;
    while i < list.len()
        invariant
            i <= list.len(),
            forall|k: int| 0 <= k < i ==> (#[trigger] list.deep_view()[k]).track.id is Some,
        decreases list.len() - i,
    {
        if list[i].track.id.is_none() {
            assert(list.deep_view()[i as int].track.id is None);
            return false;
        }
        i += 1;
    }
    true
}

/// Merges a page into the list of saved tracks.
pub fn merge_saved_tracks(known: Vec<SavedTrack>, page: Vec<SavedTrack>) -> (out: Vec<
    SavedTrack,
>)
    ensures
        out.deep_view() == merged_saved_tracks(known.deep_view(), page.deep_view()),
        is_merge_of(out.deep_view(), known.deep_view(), page.deep_view()),
{
    proof {
        lemma_merged_is_merge(known.deep_view(), page.deep_view());
    }
    let ghost added = page.deep_view();
    let mut all = known;
    let mut page = page;
    all.append(&mut page);
    assert(all.deep_view() =~= known.deep_view() + added);
    rank(keep_first_entries(all))
}

} // verus!
