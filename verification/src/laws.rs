//! What holds of the library across its functions: the inbox order and
//! merging, theme choice, decoding, and the inbox's reactions to repeated
//! events.
use vstd::prelude::*;

use crate::inbox::{index_of_id, merge_all, merge_one, newer_first};
use crate::mail::Email;
use crate::sort::{irreflexive, lemma_stable_sort_multiset, lemma_stable_sort_sorted, sorted_by, stable_sort, transitive};
use crate::text::{lemma_seq_lt_irreflexive, lemma_seq_lt_transitive, trim_end, Trim};
use crate::theme::{
    available_themes, by_name, colors_match, default_theme_id, first_style, is_loaded,
    offered_theme, offered_themes, read_asset, theme_id_of, theme_path, Theme, ThemeAsset,
    ThemeInfoView,
};
use crate::encoding::{b64url_encode, lemma_b64url_roundtrip, utf8_lossy};
use crate::gmail::{decoded_text, fresh_at, GoogleAccount, GoogleTokenResponse};
use crate::inbox::{
    account_key_of, email_with_id, is_active, opened, selected_account_of, selected_google_account,
    listener_next, synced, Inbox, ListenerInput, ListenerStage, OpenAction, SyncAction,
};
use crate::state::{initial_selection, AppState};
use crate::display::placeholder_spec;
use crate::dates::{date_label_spec, decimal, hour12, month_abbrev, same_day, LocalTime};
use crate::inbox::TempMailEvent;
use crate::theme::{color_value, ThemeColors};

verus! {

broadcast use vstd::seq_lib::group_to_multiset_ensures;

/// Some email in `list` has this id.
pub open spec fn has_id(list: Seq<Email>, id: Seq<char>) -> bool {
    exists|i: int| 0 <= i < list.len() && (#[trigger] list[i]).id@ == id
}

/// No two emails in `list` share an id.
pub open spec fn unique_ids(list: Seq<Email>) -> bool {
    forall|i: int, j: int| 0 <= i < j < list.len() ==> (#[trigger] list[i]).id@ != (#[trigger] list[j]).id@
}

/// The inbox list after a merge.
pub open spec fn merged(old: Seq<Email>, incoming: Seq<Email>) -> Seq<Email> {
    stable_sort(merge_all(old, incoming), newer_first())
}

proof fn lemma_newer_first_order()
    ensures
        irreflexive(newer_first()),
        transitive(newer_first()),
{
    assert forall|a: Email| !#[trigger] (newer_first())(a, a) by {
        lemma_seq_lt_irreflexive(a.created_at@);
    }
    assert forall|a: Email, b: Email, c: Email| #[trigger]
        (newer_first())(a, b) && #[trigger] (newer_first())(b, c) implies (newer_first())(a, c) by {
        lemma_seq_lt_transitive(c.created_at@, b.created_at@, a.created_at@);
    }
}

/// The inbox is newest first after every merge: no email comes after one
/// that it is newer than.
pub proof fn law_merge_newest_first(old: Seq<Email>, incoming: Seq<Email>)
    ensures
        sorted_by(merged(old, incoming), newer_first()),
{
    lemma_newer_first_order();
    lemma_stable_sort_sorted(merge_all(old, incoming), newer_first());
}

proof fn lemma_merge_one_ids(list: Seq<Email>, e: Email, id: Seq<char>)
    ensures
        has_id(merge_one(list, e), id) <==> has_id(list, id) || e.id@ == id,
{
    crate::inbox::lemma_index_of_id_facts(list, e.id@);
    let r = merge_one(list, e);
    match index_of_id(list, e.id@) {
        Some(i) => {
            if has_id(list, id) {
                let k = choose|k: int| 0 <= k < list.len() && (#[trigger] list[k]).id@ == id;
                if list[i].body@.len() == 0 || e.body@.len() > 0 {
                    assert(r[k].id@ == id);
                } else {
                    assert(r[k].id@ == id);
                }
            }
            if e.id@ == id {
                if list[i].body@.len() == 0 || e.body@.len() > 0 {
                    assert(r[i].id@ == id);
                } else {
                    assert(r[i].id@ == id);
                }
            }
            if has_id(r, id) {
                let k = choose|k: int| 0 <= k < r.len() && (#[trigger] r[k]).id@ == id;
                assert(list[k].id@ == id || (k == i && e.id@ == id));
            }
        },
        None => {
            if has_id(list, id) {
                let k = choose|k: int| 0 <= k < list.len() && (#[trigger] list[k]).id@ == id;
                assert(r[k].id@ == id);
            }
            if e.id@ == id {
                assert(r[list.len() as int].id@ == id);
            }
            if has_id(r, id) {
                let k = choose|k: int| 0 <= k < r.len() && (#[trigger] r[k]).id@ == id;
                if k < list.len() {
                    assert(list[k].id@ == id);
                }
            }
        },
    }
}

proof fn lemma_merge_all_ids(list: Seq<Email>, incoming: Seq<Email>, id: Seq<char>)
    ensures
        has_id(merge_all(list, incoming), id) <==> has_id(list, id) || has_id(incoming, id),
    decreases incoming.len(),
{
    if incoming.len() > 0 {
        let init = incoming.drop_last();
        lemma_merge_all_ids(list, init, id);
        lemma_merge_one_ids(merge_all(list, init), incoming.last(), id);
        if has_id(init, id) {
            let k = choose|k: int| 0 <= k < init.len() && (#[trigger] init[k]).id@ == id;
            assert(incoming[k].id@ == id);
        }
        if has_id(incoming, id) {
            let k = choose|k: int| 0 <= k < incoming.len() && (#[trigger] incoming[k]).id@ == id;
            if k < init.len() {
                assert(init[k].id@ == id);
            }
        }
    } else {
        assert(!has_id(incoming, id));
    }
}

proof fn lemma_sort_keeps_ids(s: Seq<Email>, id: Seq<char>)
    ensures
        has_id(stable_sort(s, newer_first()), id) <==> has_id(s, id),
{
    let t = stable_sort(s, newer_first());
    lemma_stable_sort_multiset(s, newer_first());
    if has_id(s, id) {
        let k = choose|k: int| 0 <= k < s.len() && (#[trigger] s[k]).id@ == id;
        assert(s.contains(s[k]));
        assert(t.to_multiset().count(s[k]) > 0);
        assert(t.contains(s[k]));
        let j = choose|j: int| 0 <= j < t.len() && t[j] == s[k];
        assert(t[j].id@ == id);
    }
    if has_id(t, id) {
        let k = choose|k: int| 0 <= k < t.len() && (#[trigger] t[k]).id@ == id;
        assert(t.contains(t[k]));
        assert(s.to_multiset().count(t[k]) > 0);
        assert(s.contains(t[k]));
        let j = choose|j: int| 0 <= j < s.len() && s[j] == t[k];
        assert(s[j].id@ == id);
    }
}

/// Merging loses no email and invents none: an id is in the inbox after a
/// merge exactly when it was in the inbox before or came in.
pub proof fn law_merge_keeps_ids(old: Seq<Email>, incoming: Seq<Email>, id: Seq<char>)
    ensures
        has_id(merged(old, incoming), id) <==> has_id(old, id) || has_id(incoming, id),
{
    lemma_merge_all_ids(old, incoming, id);
    lemma_sort_keeps_ids(merge_all(old, incoming), id);
}

/// Lists with the same ids in the same places find ids at the same place.
proof fn lemma_index_same_ids(a: Seq<Email>, b: Seq<Email>, id: Seq<char>)
    requires
        a.len() == b.len(),
        forall|k: int| 0 <= k < a.len() ==> (#[trigger] a[k]).id@ == b[k].id@,
    ensures
        index_of_id(a, id) == index_of_id(b, id),
{
    crate::inbox::lemma_index_of_id_facts(a, id);
    match index_of_id(a, id) {
        Some(i) => {
            assert forall|k: int| 0 <= k < i implies (#[trigger] b[k]).id@ != id by {
                assert(a[k].id@ != id);
            }
            crate::inbox::lemma_index_of_id_at(b, id, i);
        },
        None => {
            assert forall|k: int| 0 <= k < b.len() implies (#[trigger] b[k]).id@ != id by {
                assert(a[k].id@ != id);
            }
            crate::inbox::lemma_index_of_id_none(b, id);
        },
    }
}

/// The first email with `id` has a body.
pub open spec fn body_kept(list: Seq<Email>, id: Seq<char>) -> bool {
    index_of_id(list, id) matches Some(i) && list[i].body@.len() > 0
}

proof fn lemma_merge_one_keeps_body(list: Seq<Email>, e: Email, id: Seq<char>)
    requires
        body_kept(list, id),
    ensures
        body_kept(merge_one(list, e), id),
{
    crate::inbox::lemma_index_of_id_facts(list, e.id@);
    crate::inbox::lemma_index_of_id_facts(list, id);
    let i = index_of_id(list, id)->0;
    let r = merge_one(list, e);
    match index_of_id(list, e.id@) {
        Some(j) => {
            if list[j].body@.len() == 0 || e.body@.len() > 0 {
                assert(r == list.update(j, e));
                assert forall|k: int| 0 <= k < list.len() implies (#[trigger] list[k]).id@
                    == r[k].id@ by {}
                lemma_index_same_ids(list, r, id);
                if j == i {
                    assert(e.body@.len() > 0);
                }
            }
        },
        None => {
            assert(r == list.push(e));
            assert forall|k: int| 0 <= k < i implies (#[trigger] r[k]).id@ != id by {
                assert(r[k] == list[k]);
            }
            assert(r[i] == list[i]);
            crate::inbox::lemma_index_of_id_at(r, id, i);
        },
    }
}

proof fn lemma_merge_all_keeps_body(list: Seq<Email>, incoming: Seq<Email>, id: Seq<char>)
    requires
        body_kept(list, id),
    ensures
        body_kept(merge_all(list, incoming), id),
    decreases incoming.len(),
{
    if incoming.len() > 0 {
        lemma_merge_all_keeps_body(list, incoming.drop_last(), id);
        lemma_merge_one_keeps_body(merge_all(list, incoming.drop_last()), incoming.last(), id);
    }
}

/// A fetched body is never thrown away: if the inbox held a body for an
/// email, it still holds an email with that id and a body after any merge
/// (the list request brings no bodies).
pub proof fn law_merge_keeps_fetched_body(old: Seq<Email>, incoming: Seq<Email>, id: Seq<char>)
    requires
        body_kept(old, id),
    ensures
        exists|k: int|
            0 <= k < merged(old, incoming).len() && (#[trigger] merged(old, incoming)[k]).id@ == id
                && merged(old, incoming)[k].body@.len() > 0,
{
    let m = merge_all(old, incoming);
    lemma_merge_all_keeps_body(old, incoming, id);
    crate::inbox::lemma_index_of_id_facts(m, id);
    let i = index_of_id(m, id)->0;
    let t = merged(old, incoming);
    lemma_stable_sort_multiset(m, newer_first());
    assert(m.contains(m[i]));
    assert(t.to_multiset().count(m[i]) > 0);
    assert(t.contains(m[i]));
    let k = choose|k: int| 0 <= k < t.len() && t[k] == m[i];
    assert(t[k].id@ == id && t[k].body@.len() > 0);
}

proof fn lemma_merge_one_unique(list: Seq<Email>, e: Email)
    requires
        unique_ids(list),
    ensures
        unique_ids(merge_one(list, e)),
{
    crate::inbox::lemma_index_of_id_facts(list, e.id@);
    let r = merge_one(list, e);
    match index_of_id(list, e.id@) {
        Some(j) => {
            assert forall|a: int, b: int| 0 <= a < b < r.len() implies (#[trigger] r[a]).id@ != (
            #[trigger] r[b]).id@ by {
                assert(r[a].id@ == list[a].id@);
                assert(r[b].id@ == list[b].id@);
            }
        },
        None => {
            assert forall|a: int, b: int| 0 <= a < b < r.len() implies (#[trigger] r[a]).id@ != (
            #[trigger] r[b]).id@ by {
                if b < list.len() {
                    assert(r[a] == list[a] && r[b] == list[b]);
                } else {
                    assert(r[a] == list[a]);
                }
            }
        },
    }
}

proof fn lemma_merge_all_unique(list: Seq<Email>, incoming: Seq<Email>)
    requires
        unique_ids(list),
    ensures
        unique_ids(merge_all(list, incoming)),
    decreases incoming.len(),
{
    if incoming.len() > 0 {
        lemma_merge_all_unique(list, incoming.drop_last());
        lemma_merge_one_unique(merge_all(list, incoming.drop_last()), incoming.last());
    }
}

proof fn lemma_sort_unique(s: Seq<Email>)
    requires
        unique_ids(s),
    ensures
        unique_ids(stable_sort(s, newer_first())),
{
    let t = stable_sort(s, newer_first());
    lemma_stable_sort_multiset(s, newer_first());
    assert(s.no_duplicates()) by {
        assert forall|i: int, j: int| 0 <= i < s.len() && 0 <= j < s.len() && i != j implies s[i]
            != s[j] by {
            if i < j {
                assert(s[i].id@ != s[j].id@);
            } else {
                assert(s[j].id@ != s[i].id@);
            }
        }
    }
    s.lemma_multiset_has_no_duplicates();
    t.lemma_multiset_has_no_duplicates_conv();
    assert forall|a: int, b: int| 0 <= a < b < t.len() implies (#[trigger] t[a]).id@ != (
    #[trigger] t[b]).id@ by {
        assert(t.contains(t[a]) && t.contains(t[b]));
        assert(t.to_multiset().count(t[a]) > 0 && t.to_multiset().count(t[b]) > 0);
        assert(s.to_multiset().count(t[a]) > 0 && s.to_multiset().count(t[b]) > 0);
        assert(s.contains(t[a]) && s.contains(t[b]));
        let p = choose|p: int| 0 <= p < s.len() && s[p] == t[a];
        let q = choose|q: int| 0 <= q < s.len() && s[q] == t[b];
        assert(t[a] != t[b]);
        assert(p != q);
        if p < q {
            assert(s[p].id@ != s[q].id@);
        } else {
            assert(s[q].id@ != s[p].id@);
        }
    }
}

/// An inbox that lists no email twice still lists none twice after a
/// merge.
pub proof fn law_merge_no_duplicates(old: Seq<Email>, incoming: Seq<Email>)
    requires
        unique_ids(old),
    ensures
        unique_ids(merged(old, incoming)),
{
    lemma_merge_all_unique(old, incoming);
    lemma_sort_unique(merge_all(old, incoming));
}

/// The ids of a list, in order.
pub open spec fn ids_of(list: Seq<Email>) -> Seq<Seq<char>> {
    list.map_values(|e: Email| e.id@)
}

/// The ids that came in and were not in the list before.
pub open spec fn new_ids(old: Seq<Email>, incoming: Seq<Email>) -> Set<Seq<char>> {
    ids_of(incoming).to_set().difference(ids_of(old).to_set())
}

proof fn lemma_ids_of_contains(list: Seq<Email>, id: Seq<char>)
    ensures
        ids_of(list).to_set().contains(id) <==> has_id(list, id),
{
    if has_id(list, id) {
        let k = choose|k: int| 0 <= k < list.len() && (#[trigger] list[k]).id@ == id;
        assert(ids_of(list)[k] == id);
    }
    if ids_of(list).contains(id) {
        let k = choose|k: int| 0 <= k < ids_of(list).len() && ids_of(list)[k] == id;
        assert(list[k].id@ == id);
    }
}

proof fn lemma_unique_ids_count(list: Seq<Email>)
    requires
        unique_ids(list),
    ensures
        ids_of(list).to_set().len() == list.len(),
{
    let s = ids_of(list);
    assert forall|i: int, j: int| 0 <= i < s.len() && 0 <= j < s.len() && i != j implies s[i]
        != s[j] by {
        if i < j {
            assert(list[i].id@ != list[j].id@);
        } else {
            assert(list[j].id@ != list[i].id@);
        }
    }
    s.unique_seq_to_set();
}

/// A merge into an inbox that lists no email twice adds one email for each
/// id that came in and was not there yet, and no more: the inbox grows by
/// the number of new ids.
pub proof fn law_merge_count(old: Seq<Email>, incoming: Seq<Email>)
    requires
        unique_ids(old),
    ensures
        merged(old, incoming).len() == old.len() + new_ids(old, incoming).len(),
{
    broadcast use vstd::seq_lib::seq_to_set_is_finite;
    broadcast use vstd::set::group_set_axioms;

    let m = merged(old, incoming);
    law_merge_no_duplicates(old, incoming);
    let a = ids_of(old).to_set();
    let b = new_ids(old, incoming);
    assert forall|id: Seq<char>| ids_of(m).to_set().contains(id) <==> (a + b).contains(id) by {
        law_merge_keeps_ids(old, incoming, id);
        lemma_ids_of_contains(m, id);
        lemma_ids_of_contains(old, id);
        lemma_ids_of_contains(incoming, id);
    }
    assert(ids_of(m).to_set() =~= a + b);
    lemma_unique_ids_count(m);
    lemma_unique_ids_count(old);
    assert(a.disjoint(b));
    vstd::set_lib::lemma_set_disjoint_lens(a, b);
}

// ---------------------------------------------------------------------------
// Themes

/// The themes offered are sorted by name: none comes after one whose name
/// sorts after its own.
pub proof fn law_themes_sorted_by_name(assets: Seq<ThemeAsset>)
    ensures
        sorted_by(available_themes(assets), by_name()),
{
    assert forall|a: ThemeInfoView| !#[trigger] (by_name())(a, a) by {
        lemma_seq_lt_irreflexive(a.name);
    }
    assert forall|a: ThemeInfoView, b: ThemeInfoView, c: ThemeInfoView| #[trigger]
        (by_name())(a, b) && #[trigger] (by_name())(b, c) implies (by_name())(a, c) by {
        lemma_seq_lt_transitive(a.name, b.name, c.name);
    }
    lemma_stable_sort_sorted(
        crate::theme::offered_themes(assets, assets.len() as int),
        by_name(),
    );
}

/// No two embedded files share a path (as in any embedding).
pub open spec fn distinct_paths(assets: Seq<ThemeAsset>) -> bool {
    forall|i: int, j: int|
        0 <= i < j < assets.len() ==> (#[trigger] assets[i]).path@ != (#[trigger] assets[j]).path@
}

/// No two themes in the list share an id.
pub open spec fn distinct_theme_ids(themes: Seq<ThemeInfoView>) -> bool {
    forall|i: int, j: int| 0 <= i < j < themes.len() ==> (#[trigger] themes[i]).id != (#[trigger] themes[j]).id
}

/// A path names a theme id only as `themes/<id>.json`.
proof fn lemma_theme_path_of_id(path: Seq<char>)
    ensures
        theme_id_of(path) matches Some(id) ==> path == theme_path(id),
{
    if let Some(id) = theme_id_of(path) {
        let rest = path.skip(7);
        assert(path.take(7) == crate::theme::themes_dir());
        assert(rest.skip(rest.len() - 5) == crate::theme::json_ext());
        assert(id == rest.take(rest.len() - 5));
        assert(rest =~= id + crate::theme::json_ext());
        assert(path =~= path.take(7) + rest);
        assert(path =~= crate::theme::themes_dir() + id + crate::theme::json_ext());
    }
}

proof fn lemma_offered_ids(assets: Seq<ThemeAsset>, n: int)
    requires
        distinct_paths(assets),
        0 <= n <= assets.len(),
    ensures
        distinct_theme_ids(offered_themes(assets, n)),
        forall|k: int|
            0 <= k < offered_themes(assets, n).len() ==> exists|j: int|
                0 <= j < n && assets[j].path@ == theme_path(
                    (#[trigger] offered_themes(assets, n)[k]).id,
                ),
    decreases n,
{
    if n > 0 {
        lemma_offered_ids(assets, n - 1);
        let prev = offered_themes(assets, n - 1);
        let p = assets[n - 1].path@;
        match offered_theme(assets, p) {
            Some(t) => {
                let cur = offered_themes(assets, n);
                assert(cur == prev.push(t));
                lemma_theme_path_of_id(p);
                assert(p == theme_path(t.id));
                assert forall|k: int| 0 <= k < cur.len() implies exists|j: int|
                    0 <= j < n && assets[j].path@ == theme_path((#[trigger] cur[k]).id) by {
                    if k < prev.len() {
                        assert(cur[k] == prev[k]);
                        let j = choose|j: int| 0 <= j < n - 1 && assets[j].path@ == theme_path(prev[k].id);
                        assert(0 <= j < n);
                    } else {
                        assert(cur[k] == t);
                        assert(assets[n - 1].path@ == theme_path(cur[k].id));
                    }
                }
                assert forall|a: int, b: int| 0 <= a < b < cur.len() implies (#[trigger] cur[a]).id
                    != (#[trigger] cur[b]).id by {
                    if b < prev.len() {
                        assert(cur[a] == prev[a] && cur[b] == prev[b]);
                    } else {
                        assert(cur[a] == prev[a] && cur[b] == t);
                        let j = choose|j: int| 0 <= j < n - 1 && assets[j].path@ == theme_path(prev[a].id);
                        assert(assets[j].path@ != assets[n - 1].path@);
                    }
                }
            },
            None => {},
        }
    }
}

/// The themes offered never list an id twice when no two embedded files
/// share a path, so picking a theme by id is unambiguous.
pub proof fn law_theme_ids_distinct(assets: Seq<ThemeAsset>)
    requires
        distinct_paths(assets),
    ensures
        distinct_theme_ids(available_themes(assets)),
{
    let offered = offered_themes(assets, assets.len() as int);
    let t = available_themes(assets);
    lemma_offered_ids(assets, assets.len() as int);
    lemma_stable_sort_multiset(offered, by_name());
    // No theme is offered twice, so the sorted list repeats none either.
    assert(offered.no_duplicates()) by {
        assert forall|i: int, j: int|
            0 <= i < offered.len() && 0 <= j < offered.len() && i != j implies offered[i]
            != offered[j] by {
            if i < j {
                assert(offered[i].id != offered[j].id);
            } else {
                assert(offered[j].id != offered[i].id);
            }
        }
    }
    offered.lemma_multiset_has_no_duplicates();
    t.lemma_multiset_has_no_duplicates_conv();
    assert forall|a: int, b: int| 0 <= a < b < t.len() implies (#[trigger] t[a]).id != (
    #[trigger] t[b]).id by {
        assert(t.contains(t[a]) && t.contains(t[b]));
        assert(t.to_multiset().count(t[a]) > 0 && t.to_multiset().count(t[b]) > 0);
        assert(offered.contains(t[a]) && offered.contains(t[b]));
        let p = choose|p: int| 0 <= p < offered.len() && offered[p] == t[a];
        let q = choose|q: int| 0 <= q < offered.len() && offered[q] == t[b];
        assert(t[a] != t[b]);
        if p < q {
            assert(offered[p].id != offered[q].id);
        } else if q < p {
            assert(offered[q].id != offered[p].id);
        }
    }
}

/// The default theme always loads as itself: when any theme is offered,
/// loading the default gives that theme's own colours, never a fallback.
pub proof fn law_default_theme_loads(assets: Seq<ThemeAsset>, t: Theme)
    requires
        default_theme_id(available_themes(assets)) is Some,
        is_loaded(t, default_theme_id(available_themes(assets))->0, assets),
    ensures
        colors_match(
            t,
            default_theme_id(available_themes(assets))->0,
            first_style(read_asset(assets, theme_path(default_theme_id(available_themes(assets))->0)))->0,
        ),
{
    crate::theme::lemma_default_readable(assets);
}

// ---------------------------------------------------------------------------
// Decoding

proof fn lemma_b64_symbol_not_pad(v: int)
    requires
        0 <= v < 64,
    ensures
        crate::encoding::b64_symbol(v) != '=',
{
    let c = crate::encoding::b64_symbol(v);
    assert(c as u32 != 61);
}

proof fn lemma_b64_no_pad(b: Seq<u8>)
    ensures
        b64url_encode(b).len() > 0 ==> b64url_encode(b).last() != '=',
    decreases b.len(),
{
    if b.len() > 0 {
        let x = b[0] as int;
        if b.len() == 1 {
            lemma_b64_symbol_not_pad((x % 4) * 16);
        } else if b.len() == 2 {
            let y = b[1] as int;
            lemma_b64_symbol_not_pad((y % 16) * 4);
        } else {
            let z = b[2] as int;
            lemma_b64_no_pad(b.skip(3));
            lemma_b64_symbol_not_pad(z % 64);
        }
    }
}

/// Body data decodes back to what was encoded: the unpadded base64url of
/// some bytes reads as those bytes' text.
pub proof fn law_body_data_roundtrip(bytes: Seq<u8>)
    ensures
        decoded_text(b64url_encode(bytes)) == Some(utf8_lossy(bytes)),
{
    let e = b64url_encode(bytes);
    lemma_b64_no_pad(bytes);
    assert(trim_end(e, Trim::Exactly('=')) == e);
    lemma_b64url_roundtrip(bytes);
}

/// `=` padding at the end of body data makes no difference.
pub proof fn law_padding_ignored(data: Seq<char>)
    ensures
        decoded_text(data.push('=')) == decoded_text(data),
{
    assert(data.push('=').drop_last() == data);
}

/// A PKCE challenge (the encoding of a 32-byte digest) is 43 characters.
pub proof fn law_challenge_length(digest: Seq<u8>)
    requires
        digest.len() == 32,
    ensures
        b64url_encode(digest).len() == 43,
{
    reveal_with_fuel(b64url_encode, 12);
}

// ---------------------------------------------------------------------------
// Accounts and the inbox

/// After a refresh (`apply_refresh` at `now`) with a token that lasts more
/// than a minute, the token counts as fresh (`token_is_fresh`) at the time
/// of the refresh, so the next request does not refresh again.
pub proof fn law_refreshed_token_is_fresh(
    before: GoogleAccount,
    tokens: GoogleTokenResponse,
    now: u64,
    after: GoogleAccount,
)
    requires
        after.access_token == tokens.access_token,
        after.expires_at == now + tokens.expires_in,
        after.refresh_token == before.refresh_token,
        after.email == before.email,
        tokens.expires_in > 60,
    ensures
        fresh_at(after, now as int),
{
}

/// At start the sidebar selects an existing account whenever there is one.
pub proof fn law_initial_selection_valid(s: AppState)
    requires
        s.selected_sidebar_email == initial_selection(s.google_accounts@.len(), s.temp_email@.len()),
    ensures
        selected_account_of(s) is Some <==> (s.google_accounts@.len() > 0 || s.temp_email@.len() > 0),
{
}

/// Checking the selection settles: right after a check, a second check
/// changes nothing and starts nothing, so the listener restarts only when
/// the selected account really changes.
pub proof fn law_sync_settles(
    i0: Inbox,
    s0: AppState,
    r1: SyncAction,
    i1: Inbox,
    s1: AppState,
    r2: SyncAction,
    i2: Inbox,
    s2: AppState,
)
    requires
        synced(i0, s0, r1, i1, s1),
        synced(i1, s1, r2, i2, s2),
    ensures
        r2 is Keep,
        i2 == i1,
        s2 == s1,
{
    assert(selected_account_of(s1) == selected_account_of(s0));
}

/// Once no account is selected (as after "Delete all saved mail and
/// accounts"), a check of the selection starts nothing and leaves the
/// inbox empty with no account shown, so a result that arrives later for
/// any account is dropped.
pub proof fn law_unselected_inbox_stops(i0: Inbox, s0: AppState, r: SyncAction, i1: Inbox, s1: AppState)
    requires
        s0.selected_sidebar_email is None,
        synced(i0, s0, r, i1, s1),
    ensures
        !(r is Start),
        i1.active_account_id is None,
        i1.emails@.len() == 0,
        forall|key: Seq<char>| !is_active(i1, key),
        s1.selected_message is None || s1 == s0,
{
}

/// A stopped temp-mail listener stays stopped and hands the UI nothing more,
/// whatever comes in.
pub proof fn law_listener_stop_is_final(input: ListenerInput)
    ensures
        listener_next(ListenerStage::Stop, input).stage == ListenerStage::Stop,
        listener_next(ListenerStage::Stop, input).send is None,
{
}

/// Once the UI side is gone, the listener stops at once, from any stage.
pub proof fn law_listener_stops_when_ui_is_gone(stage: ListenerStage)
    ensures
        listener_next(stage, ListenerInput::Disconnected).stage == ListenerStage::Stop,
{
}

/// A second click on an email that is being fetched starts no second
/// request.
pub proof fn law_open_twice(
    i0: Inbox,
    s0: AppState,
    m: Seq<char>,
    r1: OpenAction,
    i1: Inbox,
    s1: AppState,
    r2: OpenAction,
    i2: Inbox,
    s2: AppState,
)
    requires
        opened(i0, s0, m, r1, i1, s1),
        r1 is Fetch,
        opened(i1, s1, m, r2, i2, s2),
    ensures
        r2 is AlreadyOpening,
        i2 == i1,
        s2 == s1,
{
    crate::inbox::lemma_index_of_id_facts(i0.emails@, m);
    assert(i1.emails == i0.emails);
}

// ---------------------------------------------------------------------------
// What each operation is for

/// The temp-mail listener passes on every message list it loads: whenever a
/// load (the first one, or a reload after a stream message) yields the
/// list `es`, the step hands exactly `es` to the UI and insists on its
/// delivery; a list is never handed over at any other stage.
pub proof fn law_listener_passes_loaded_mail(stage: ListenerStage, es: Vec<Email>)
    ensures
        (stage == ListenerStage::LoadMail || stage == ListenerStage::Reload) ==> {
            let step = listener_next(stage, ListenerInput::Mail(Some(es)));
            &&& step.send == Some(TempMailEvent::Emails(es))
            &&& step.stop_if_undelivered
        },
        !(stage == ListenerStage::LoadMail || stage == ListenerStage::Reload) ==> listener_next(
            stage,
            ListenerInput::Mail(Some(es)),
        ).send is None,
        stage == ListenerStage::Reload ==> listener_next(stage, ListenerInput::Mail(Some(es))).stage
            == ListenerStage::Stream,
{
}

/// The inbox list is shown whenever it has something to show: with an
/// account selected and at least one email in the inbox there is no
/// placeholder, whether or not a load is under way; with no account
/// selected there is always one; and a placeholder is shown for an
/// account only while its inbox is empty.
pub proof fn law_list_shown_when_not_empty(state: AppState, inbox: Inbox)
    ensures
        state.selected_sidebar_email is Some && inbox.emails@.len() > 0 ==> placeholder_spec(
            state,
            inbox,
        ) is None,
        state.selected_sidebar_email is None ==> placeholder_spec(state, inbox) is Some,
        state.selected_sidebar_email is Some && inbox.emails@.len() == 0 ==> placeholder_spec(
            state,
            inbox,
        ) is Some,
{
}

/// Showing another account closes the email that was open: when a check
/// of the selection starts an account, the new state has no open email and
/// differs from the old one in nothing else; the account started is the
/// one selected, and its cached mail is what the inbox shows.
pub proof fn law_switch_closes_open_email(i0: Inbox, s0: AppState, r: SyncAction, i1: Inbox, s1: AppState)
    requires
        synced(i0, s0, r, i1, s1),
        r is Start,
    ensures
        s1.selected_message is None,
        s1.temp_email == s0.temp_email,
        s1.google_accounts == s0.google_accounts,
        s1.email_cache == s0.email_cache,
        s1.temp_starred == s0.temp_starred,
        s1.selected_email == s0.selected_email,
        s1.selected_sidebar_email == s0.selected_sidebar_email,
        s1.google_login_status == s0.google_login_status,
        s1.mail_filter == s0.mail_filter,
        selected_account_of(s0) == Some(r->0),
        i1.emails@ == crate::inbox::cached_emails(s0, account_key_of(r->0)),
        i1.opening_message_id is None,
{
}

/// Every colour of a loaded theme comes from the field of the same name in
/// the first style of its file: the background from `background`, the text
/// colour from `text`, the selection from `selected`, and so on.
pub proof fn law_theme_colors_by_field(t: Theme, name: Seq<char>, assets: Seq<ThemeAsset>)
    requires
        is_loaded(t, name, assets),
        first_style(read_asset(assets, theme_path(name))) is Some,
    ensures
        ({
            let c = first_style(read_asset(assets, theme_path(name)))->0;
            &&& t.name@ == name
            &&& t.background == color_value(c.background@)
            &&& t.surface == color_value(c.surface@)
            &&& t.surface_hover == color_value(c.surface_hover@)
            &&& t.border == color_value(c.border@)
            &&& t.text == color_value(c.text@)
            &&& t.text_muted == color_value(c.text_muted@)
            &&& t.text_inactive == color_value(c.text_inactive@)
            &&& t.selected == color_value(c.selected@)
            &&& t.selected_text == color_value(c.selected_text@)
            &&& t.selected_option == color_value(c.selected_option@)
        }),
{
}

/// A theme built from a style takes each colour from the field of the same
/// name.
pub proof fn law_from_colors_by_field(t: Theme, name: Seq<char>, c: ThemeColors)
    requires
        colors_match(t, name, c),
    ensures
        t.name@ == name,
        t.background == color_value(c.background@),
        t.surface == color_value(c.surface@),
        t.surface_hover == color_value(c.surface_hover@),
        t.border == color_value(c.border@),
        t.text == color_value(c.text@),
        t.text_muted == color_value(c.text_muted@),
        t.text_inactive == color_value(c.text_inactive@),
        t.selected == color_value(c.selected@),
        t.selected_text == color_value(c.selected_text@),
        t.selected_option == color_value(c.selected_option@),
{
}

proof fn lemma_decimal_digits(n: nat)
    ensures
        forall|k: int| 0 <= k < decimal(n).len() ==> '0' <= #[trigger] decimal(n)[k] <= '9',
    decreases n,
{
    if n >= 10 {
        lemma_decimal_digits(n / 10);
        let d = decimal(n / 10);
        assert forall|k: int| 0 <= k < decimal(n).len() implies '0' <= #[trigger] decimal(n)[k]
            <= '9' by {
            if k < d.len() {
                assert(decimal(n)[k] == d[k]);
            }
        }
    }
}

/// A date seen on its own day is shown as a time of day, on any other day
/// as a day and month: the label holds a `:` exactly when the date is on
/// the same local date as the current time.
pub proof fn law_today_shows_time(d: LocalTime, now: LocalTime)
    requires
        d.wf(),
    ensures
        date_label_spec(Some(d), now).contains(':') <==> same_day(d, now),
{
    let label = date_label_spec(Some(d), now);
    if same_day(d, now) {
        let h = decimal(hour12(d.hour));
        assert(label[h.len() as int] == ':');
    } else {
        lemma_decimal_digits(d.day as nat);
        let dd = decimal(d.day as nat);
        let m = month_abbrev(d.month);
        assert(forall|k: int| 0 <= k < m.len() ==> #[trigger] m[k] != ':');
        if label.contains(':') {
            let k = choose|k: int| 0 <= k < label.len() && label[k] == ':';
            if k < dd.len() {
                assert(label[k] == dd[k]);
            } else if k == dd.len() {
                assert(label[k] == ' ');
            } else {
                assert(label[k] == m[k - dd.len() - 1]);
            }
        }
    }
}

} // verus!
