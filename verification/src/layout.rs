//! The layout engine: a mathematical model of row ("shelf") packing, a
//! verified sort of sprite entries by key, and the packing loop itself.
//!
//! The model is a small state machine.  Placing a sprite records the cursor
//! position, advances the cursor by one cell, and rolls over to the next
//! row when the row is full and to a fresh page when the page is full.
//! Everything the engine returns is stated exactly in terms of this model.

use vstd::prelude::*;

use crate::sources::SpriteSource;
use crate::{format_spritegen_name, spec_format_name, Sprite, Spritegen, Spritesheet};
use vstd::arithmetic::div_mod::{
    lemma_fundamental_div_mod, lemma_fundamental_div_mod_converse, lemma_mod_bound,
};
use crate::text::{seq_char_leq, seq_char_lt, str_lt};
use crate::text::{
    lemma_seq_char_lt_asymmetric, lemma_seq_char_lt_connected, lemma_seq_char_lt_irreflexive,
    lemma_seq_char_lt_transitive,
};

verus! {

/// One named sprite handed to the engine: its key and, when resolving its
/// source succeeded, the resolved source.  A sprite whose source failed to
/// resolve is carried as `None` and skipped by the engine.
#[derive(Debug, Clone, PartialEq, Eq)]
pub struct SpriteEntry {
    pub key: String,
    pub source: Option<SpriteSource>,
}

/// The intrinsic dimensions of a resolved source.
#[verifier::ext_equal]
pub ghost struct DimsV {
    pub width: nat,
    pub height: nat,
}

/// The mathematical value of a sprite entry: its key and, for a resolved
/// sprite, its dimensions.  The layout depends on nothing else.
#[verifier::ext_equal]
pub ghost struct EntryV {
    pub key: Seq<char>,
    pub source: Option<DimsV>,
}

impl View for SpriteEntry {
    type V = EntryV;

    open spec fn view(&self) -> EntryV {
        EntryV {
            key: self.key@,
            source: match self.source {
                Option::None => Option::None,
                Option::Some(s) => Option::Some(
                    DimsV { width: s.spec_width() as nat, height: s.spec_height() as nat },
                ),
            },
        }
    }
}

/// The values of a sequence of sprite entries.
pub open spec fn entries_view(es: Seq<SpriteEntry>) -> Seq<EntryV> {
    es.map_values(|e: SpriteEntry| e@)
}

/// One placement decided by the engine: which page, where on it, and the
/// source's intrinsic dimensions.
#[verifier::ext_equal]
pub ghost struct PlacementV {
    pub key: Seq<char>,
    pub page: nat,
    pub x: nat,
    pub y: nat,
    pub width: nat,
    pub height: nat,
}

/// The engine's state: everything placed so far, the number of pages
/// already finalized, and the packing cursor on the current page.
#[verifier::ext_equal]
pub ghost struct LayoutV {
    pub placed: Seq<PlacementV>,
    pub pages_done: nat,
    pub x: nat,
    pub y: nat,
    pub tallest: nat,
}

/// The state before anything is placed.
pub open spec fn layout_init() -> LayoutV {
    LayoutV { placed: Seq::<PlacementV>::empty(), pages_done: 0, x: 0, y: 0, tallest: 0 }
}

/// Place one resolved sprite: record it at the cursor, advance the cursor
/// by one cell, and roll over rows and pages as they fill.
pub open spec fn layout_place(
    size: nat,
    cell: nat,
    st: LayoutV,
    key: Seq<char>,
    width: nat,
    height: nat,
) -> LayoutV {
    let placed = st.placed.push(
        PlacementV { key, page: st.pages_done, x: st.x, y: st.y, width, height },
    );
    let x1 = st.x + cell;
    let t1 = if st.tallest < height {
        height
    } else {
        st.tallest
    };
    if x1 >= size {
        let y1 = st.y + t1;
        if y1 >= size {
            LayoutV { placed, pages_done: st.pages_done + 1, x: 0, y: 0, tallest: 0 }
        } else {
            LayoutV { placed, pages_done: st.pages_done, x: 0, y: y1, tallest: 0 }
        }
    } else {
        LayoutV { placed, pages_done: st.pages_done, x: x1, y: st.y, tallest: t1 }
    }
}

/// Process one entry: place it if its source resolved, skip it otherwise.
pub open spec fn layout_step(size: nat, cell: nat, st: LayoutV, e: EntryV) -> LayoutV {
    match e.source {
        Option::None => st,
        Option::Some(d) => layout_place(size, cell, st, e.key, d.width, d.height),
    }
}

/// Process a sequence of entries in order, starting from the blank state.
pub open spec fn layout_run(size: nat, cell: nat, entries: Seq<EntryV>) -> LayoutV
    decreases entries.len(),
{
    if entries.len() == 0 {
        layout_init()
    } else {
        layout_step(size, cell, layout_run(size, cell, entries.drop_last()), entries.last())
    }
}

/// How many pages a finished run yields: every finalized page, plus the
/// in-progress page whenever it holds anything or nothing was finalized at
/// all.  A run therefore always yields at least one page.
pub open spec fn page_count(st: LayoutV) -> nat {
    if st.x > 0 || st.y > 0 || st.pages_done == 0 {
        st.pages_done + 1
    } else {
        st.pages_done
    }
}

/// Whether a sequence of entries is sorted by key, ascending.
pub open spec fn entries_sorted(s: Seq<EntryV>) -> bool {
    forall|i: int, j: int|
        0 <= i < j < s.len() ==> seq_char_leq(#[trigger] s[i].key, #[trigger] s[j].key)
}

/// Whether no two entries share a key.
pub open spec fn unique_keys(s: Seq<EntryV>) -> bool {
    forall|i: int, j: int| 0 <= i < j < s.len() ==> (#[trigger] s[i].key) != (#[trigger] s[j].key)
}

/// Insert an entry into a sorted sequence, after every strictly smaller
/// key and before equal or larger ones.
pub open spec fn insert_sorted(e: EntryV, s: Seq<EntryV>) -> Seq<EntryV>
    decreases s.len(),
{
    if s.len() == 0 {
        seq![e]
    } else if seq_char_lt(s[0].key, e.key) {
        seq![s[0]] + insert_sorted(e, s.drop_first())
    } else {
        seq![e] + s
    }
}

/// Sort a sequence of entries by key: the canonical order the engine packs
/// in.
pub open spec fn sort_entries_spec(s: Seq<EntryV>) -> Seq<EntryV>
    decreases s.len(),
{
    if s.len() == 0 {
        s
    } else {
        insert_sorted(s.last(), sort_entries_spec(s.drop_last()))
    }
}

/// Inserting into a sorted sequence at the boundary position the
/// executable scan finds produces exactly `insert_sorted`.
proof fn lemma_insert_sorted_at(e: EntryV, s: Seq<EntryV>, j: int)
    requires
        0 <= j <= s.len(),
        forall|k: int| 0 <= k < j ==> seq_char_lt(#[trigger] s[k].key, e.key),
        j < s.len() ==> !seq_char_lt(s[j].key, e.key),
    ensures
        insert_sorted(e, s) == s.insert(j, e),
    decreases j,
{
    if j == 0 {
        if s.len() == 0 {
            assert(insert_sorted(e, s) =~= s.insert(0, e));
        } else {
            assert(insert_sorted(e, s) =~= s.insert(0, e));
        }
    } else {
        assert(seq_char_lt(s[0].key, e.key));
        lemma_insert_sorted_at(e, s.drop_first(), j - 1);
        assert(seq![s[0]] + s.drop_first().insert(j - 1, e) =~= s.insert(j, e));
    }
}

/// Sorting preserves the collection of entries.
pub proof fn lemma_insert_sorted_multiset(e: EntryV, s: Seq<EntryV>)
    ensures
        insert_sorted(e, s).to_multiset() =~= s.to_multiset().insert(e),
    decreases s.len(),
{
    broadcast use vstd::seq_lib::group_seq_properties;
    broadcast use vstd::multiset::group_multiset_axioms;

    if s.len() == 0 {
        assert(seq![e] =~= Seq::<EntryV>::empty().push(e));
        assert(Seq::<EntryV>::empty().push(e).to_multiset() =~= Seq::<
            EntryV,
        >::empty().to_multiset().insert(e));
    } else if seq_char_lt(s[0].key, e.key) {
        lemma_insert_sorted_multiset(e, s.drop_first());
        vstd::seq_lib::lemma_multiset_commutative(seq![s[0]], insert_sorted(e, s.drop_first()));
        vstd::seq_lib::lemma_multiset_commutative(seq![s[0]], s.drop_first());
        assert(seq![s[0]] + s.drop_first() =~= s);
    } else {
        vstd::seq_lib::lemma_multiset_commutative(seq![e], s);
    }
}

/// The canonical sort is a permutation.
pub proof fn lemma_sort_entries_multiset(s: Seq<EntryV>)
    ensures
        sort_entries_spec(s).to_multiset() =~= s.to_multiset(),
    decreases s.len(),
{
    broadcast use vstd::seq_lib::group_seq_properties;
    broadcast use vstd::multiset::group_multiset_axioms;

    if s.len() > 0 {
        lemma_sort_entries_multiset(s.drop_last());
        lemma_insert_sorted_multiset(s.last(), sort_entries_spec(s.drop_last()));
        assert(s.drop_last().push(s.last()) =~= s);
        assert(s.drop_last().push(s.last()).to_multiset() =~= s.drop_last().to_multiset().insert(
            s.last(),
        ));
    }
}

/// Inserting into a sorted sequence keeps it sorted.
proof fn lemma_insert_sorted_sorted(e: EntryV, s: Seq<EntryV>)
    requires
        entries_sorted(s),
    ensures
        entries_sorted(insert_sorted(e, s)),
    decreases s.len(),
{
    if s.len() == 0 {
    } else if seq_char_lt(s[0].key, e.key) {
        assert(entries_sorted(s.drop_first())) by {
            assert(forall|i: int, j: int|
                0 <= i < j < s.drop_first().len() ==> seq_char_leq(
                    #[trigger] s.drop_first()[i].key,
                    #[trigger] s.drop_first()[j].key,
                ));
        }
        lemma_insert_sorted_sorted(e, s.drop_first());
        let r = seq![s[0]] + insert_sorted(e, s.drop_first());
        let inner = insert_sorted(e, s.drop_first());
        // every element of `inner` is either `e` or an element of `s`, and
        // `s[0]` is below both
        assert forall|i: int, j: int| 0 <= i < j < r.len() implies seq_char_leq(
            #[trigger] r[i].key,
            #[trigger] r[j].key,
        ) by {
            lemma_insert_sorted_multiset(e, s.drop_first());
            broadcast use vstd::seq_lib::group_seq_properties;
            broadcast use vstd::multiset::group_multiset_axioms;

            if i == 0 {
                let x = r[j];
                assert(inner[j - 1] == x);
                assert(inner.to_multiset().contains(x));
                if x == e {
                    assert(seq_char_lt(s[0].key, e.key));
                } else {
                    assert(s.drop_first().to_multiset().insert(e).contains(x));
                    assert(s.drop_first().to_multiset().contains(x));
                    assert(s.drop_first().contains(x));
                    let k = choose|k: int|
                        0 <= k < s.drop_first().len() && s.drop_first()[k] == x;
                    assert(s[k + 1] == x);
                    assert(seq_char_leq(s[0].key, s[k + 1].key));
                }
            } else {
                assert(seq_char_leq(inner[i - 1].key, inner[j - 1].key));
            }
        }
    } else {
        // e goes in front: e.key <= s[0].key <= every key of s
        assert(!seq_char_lt(s[0].key, e.key));
        lemma_seq_char_lt_connected(e.key, s[0].key);
        let r = seq![e] + s;
        assert forall|i: int, j: int| 0 <= i < j < r.len() implies seq_char_leq(
            #[trigger] r[i].key,
            #[trigger] r[j].key,
        ) by {
            if i == 0 {
                if j == 1 {
                    assert(seq_char_leq(e.key, s[0].key));
                } else {
                    assert(seq_char_leq(s[0].key, s[j - 1].key));
                    if e.key == s[0].key {
                    } else {
                        assert(seq_char_lt(e.key, s[0].key));
                        if s[0].key == s[j - 1].key {
                        } else {
                            lemma_seq_char_lt_transitive(e.key, s[0].key, s[j - 1].key);
                        }
                    }
                }
            } else {
                assert(seq_char_leq(s[i - 1].key, s[j - 1].key));
            }
        }
    }
}

/// The canonical sort is sorted.
pub proof fn lemma_sort_entries_sorted(s: Seq<EntryV>)
    ensures
        entries_sorted(sort_entries_spec(s)),
    decreases s.len(),
{
    if s.len() > 0 {
        lemma_sort_entries_sorted(s.drop_last());
        lemma_insert_sorted_sorted(s.last(), sort_entries_spec(s.drop_last()));
    }
}

/// Sort sprite entries by key, ascending; the order the engine packs in.
pub fn sort_entries(mut entries: Vec<SpriteEntry>) -> (r: Vec<SpriteEntry>)
    ensures
        entries_view(r@) == sort_entries_spec(entries_view(entries@)),
{
    let ghost ev = entries_view(entries@);
    let n_start = entries.len();
    let ghost n = entries@.len();
    let mut out: Vec<SpriteEntry> = Vec::new();
    proof {
        assert(entries_view(out@) =~= sort_entries_spec(ev.take(0)));
        assert(entries_view(entries@) =~= ev.skip(0));
    }
    let mut i: usize = 0;
    while entries.len() > 0
        invariant
            i + entries@.len() == n,
            i <= n,
            n == n_start,
            n == ev.len(),
            entries_view(entries@) == ev.skip(i as int),
            entries_view(out@) == sort_entries_spec(ev.take(i as int)),
        decreases entries@.len(),
    {
        let ghost entries_before = entries@;
        let e = entries.remove(0);
        proof {
            assert(entries_view(entries_before)[0] == e@);
            assert(e@ == ev[i as int]);
            assert(entries_view(entries@) =~= entries_view(entries_before).remove(0));
            assert(entries_view(entries_before).remove(0) =~= ev.skip(i + 1));
        }
        let ghost before = entries_view(out@);
        let mut j: usize = 0;
        while j < out.len() && str_lt(out[j].key.as_str(), e.key.as_str())
            invariant
                j <= out@.len(),
                entries_view(out@) == before,
                forall|k: int| 0 <= k < j ==> seq_char_lt(#[trigger] before[k].key, e@.key),
            decreases out@.len() - j,
        {
            proof {
                assert(before[j as int].key == out@[j as int].key@);
            }
            j = j + 1;
        }
        proof {
            if (j as int) < before.len() {
                assert(before[j as int].key == out@[j as int].key@);
                assert(!seq_char_lt(before[j as int].key, e@.key));
            }
            lemma_insert_sorted_at(e@, before, j as int);
        }
        out.insert(j, e);
        proof {
            assert(entries_view(out@) =~= before.insert(j as int, e@));
            assert(ev.take(i + 1).drop_last() =~= ev.take(i as int));
            assert(ev.take(i + 1).last() == ev[i as int]);
            assert(e@ == ev[i as int]);
            assert(entries_view(entries@) =~= ev.skip(i + 1));
        }
        i = i + 1;
    }
    proof {
        assert(ev.take(n as int) =~= ev);
    }
    out
}

/// Packing entries none of which resolved places nothing and still yields
/// exactly one (blank) page.
pub proof fn lemma_blank_page(size: nat, cell: nat, entries: Seq<EntryV>)
    requires
        forall|i: int| 0 <= i < entries.len() ==> (#[trigger] entries[i].source) is None,
    ensures
        layout_run(size, cell, entries).placed.len() == 0,
        page_count(layout_run(size, cell, entries)) == 1,
    decreases entries.len(),
{
    if entries.len() > 0 {
        assert(entries.last().source is None);
        lemma_blank_page(size, cell, entries.drop_last());
    }
}

/// A sprite whose source failed to resolve changes nothing: removing it
/// from the input leaves every other placement, and the pages, exactly as
/// they were.  In particular the sprite after it takes the cell it would
/// have taken.
pub proof fn lemma_skip_semantics(size: nat, cell: nat, entries: Seq<EntryV>, i: int)
    requires
        0 <= i < entries.len(),
        entries[i].source is None,
    ensures
        layout_run(size, cell, entries.remove(i)) == layout_run(size, cell, entries),
    decreases entries.len(),
{
    if i == entries.len() - 1 {
        assert(entries.remove(i) =~= entries.drop_last());
    } else {
        assert(entries.remove(i).drop_last() =~= entries.drop_last().remove(i));
        assert(entries.remove(i).last() == entries.last());
        lemma_skip_semantics(size, cell, entries.drop_last(), i);
    }
}

/// Entries whose keys are pairwise distinct are pairwise distinct.
proof fn lemma_unique_keys_no_duplicates(s: Seq<EntryV>)
    requires
        unique_keys(s),
    ensures
        s.no_duplicates(),
{
    assert forall|i: int, j: int|
        0 <= i < s.len() && 0 <= j < s.len() && i != j implies s[i] != s[j] by {
        if i < j {
            assert(s[i].key != s[j].key);
        } else {
            assert(s[j].key != s[i].key);
        }
    }
}

/// Key uniqueness survives any reordering.
pub proof fn lemma_unique_keys_permutation(x: Seq<EntryV>, y: Seq<EntryV>)
    requires
        x.to_multiset() == y.to_multiset(),
        unique_keys(x),
    ensures
        unique_keys(y),
{
    broadcast use vstd::seq_lib::group_seq_properties;
    broadcast use vstd::multiset::group_multiset_axioms;

    x.to_multiset_ensures();
    y.to_multiset_ensures();
    lemma_unique_keys_no_duplicates(x);
    x.lemma_multiset_has_no_duplicates();
    y.lemma_multiset_has_no_duplicates_conv();
    assert(y.no_duplicates());
    assert forall|i: int, j: int| 0 <= i < j < y.len() implies (#[trigger] y[i].key)
        != (#[trigger] y[j].key) by {
        if y[i].key == y[j].key {
            assert(y[i] != y[j]);
            assert(y.contains(y[i]));
            assert(y.contains(y[j]));
            assert(y.to_multiset().count(y[i]) > 0);
            assert(y.to_multiset().count(y[j]) > 0);
            assert(x.contains(y[i]));
            assert(x.contains(y[j]));
            let a = choose|a: int| 0 <= a < x.len() && x[a] == y[i];
            let b = choose|b: int| 0 <= b < x.len() && x[b] == y[j];
            assert(x[a].key == x[b].key);
            if a < b {
                assert(x[a].key != x[b].key);
            } else {
                assert(x[b].key != x[a].key);
            }
        }
    }
}

/// Two sorted sequences with the same entries and pairwise distinct keys
/// are identical.
proof fn lemma_sorted_unique_equal(x: Seq<EntryV>, y: Seq<EntryV>)
    requires
        entries_sorted(x),
        entries_sorted(y),
        x.to_multiset() == y.to_multiset(),
        unique_keys(x),
        unique_keys(y),
    ensures
        x =~= y,
    decreases x.len(),
{
    broadcast use vstd::seq_lib::group_seq_properties;
    broadcast use vstd::multiset::group_multiset_axioms;

    x.to_multiset_ensures();
    y.to_multiset_ensures();
    assert(x.to_multiset().len() == x.len());
    assert(y.to_multiset().len() == y.len());
    if x.len() == 0 {
        assert(x =~= y);
    } else {
        assert(x.contains(x[0]));
        assert(y.contains(y[0]));
        assert(x.to_multiset().count(x[0]) > 0);
        assert(y.to_multiset().count(y[0]) > 0);
        assert(y.contains(x[0]));
        assert(x.contains(y[0]));
        let j = choose|j: int| 0 <= j < y.len() && y[j] == x[0];
        let a = choose|a: int| 0 <= a < x.len() && x[a] == y[0];
        assert(seq_char_leq(y[0].key, y[j].key));
        assert(seq_char_leq(x[0].key, x[a].key));
        assert(x[0].key == y[0].key) by {
            if x[0].key != y[0].key {
                if seq_char_lt(x[0].key, y[0].key) {
                    // y[0] <= y[j] == x[0] < y[0]: impossible
                    if y[0].key == y[j].key {
                        lemma_seq_char_lt_irreflexive(x[0].key);
                    } else {
                        lemma_seq_char_lt_asymmetric(x[0].key, y[0].key);
                    }
                } else {
                    lemma_seq_char_lt_connected(x[0].key, y[0].key);
                    // now y[0] < x[0] <= x[a] == y[0]: impossible
                    if x[0].key == x[a].key {
                        lemma_seq_char_lt_irreflexive(y[0].key);
                    } else {
                        lemma_seq_char_lt_asymmetric(y[0].key, x[0].key);
                    }
                }
            }
        }
        assert(j == 0) by {
            if j != 0 {
                assert(y[0].key != y[j].key);
            }
        }
        assert(x[0] == y[0]);
        assert(x.remove(0) =~= x.drop_first());
        assert(y.remove(0) =~= y.drop_first());
        assert(x.drop_first().to_multiset() =~= x.to_multiset().remove(x[0]));
        assert(y.drop_first().to_multiset() =~= y.to_multiset().remove(y[0]));
        assert(entries_sorted(x.drop_first())) by {
            assert(forall|p: int, q: int|
                0 <= p < q < x.drop_first().len() ==> seq_char_leq(
                    #[trigger] x.drop_first()[p].key,
                    #[trigger] x.drop_first()[q].key,
                ));
        }
        assert(entries_sorted(y.drop_first())) by {
            assert(forall|p: int, q: int|
                0 <= p < q < y.drop_first().len() ==> seq_char_leq(
                    #[trigger] y.drop_first()[p].key,
                    #[trigger] y.drop_first()[q].key,
                ));
        }
        assert(unique_keys(x.drop_first())) by {
            assert(forall|p: int, q: int|
                0 <= p < q < x.drop_first().len() ==> (#[trigger] x.drop_first()[p].key)
                    != (#[trigger] x.drop_first()[q].key));
        }
        assert(unique_keys(y.drop_first())) by {
            assert(forall|p: int, q: int|
                0 <= p < q < y.drop_first().len() ==> (#[trigger] y.drop_first()[p].key)
                    != (#[trigger] y.drop_first()[q].key));
        }
        lemma_sorted_unique_equal(x.drop_first(), y.drop_first());
        assert forall|k: int| 0 <= k < x.len() implies x[k] == y[k] by {
            if k > 0 {
                assert(x[k] == x.drop_first()[k - 1]);
                assert(y[k] == y.drop_first()[k - 1]);
            }
        }
        assert(x =~= y);
    }
}

/// Determinism: two inputs holding the same (key, source) pairs, with no
/// key repeated, sort to the same sequence, so packing them yields
/// identical results however the pairs were ordered.
pub proof fn lemma_pack_deterministic(e1: Seq<EntryV>, e2: Seq<EntryV>)
    requires
        e1.to_multiset() == e2.to_multiset(),
        unique_keys(e1),
    ensures
        sort_entries_spec(e1) == sort_entries_spec(e2),
{
    let s1 = sort_entries_spec(e1);
    let s2 = sort_entries_spec(e2);
    lemma_sort_entries_multiset(e1);
    lemma_sort_entries_multiset(e2);
    lemma_sort_entries_sorted(e1);
    lemma_sort_entries_sorted(e2);
    lemma_unique_keys_permutation(e1, s1);
    lemma_unique_keys_permutation(e1, s2);
    lemma_sorted_unique_equal(s1, s2);
}

/// Whether a single entry's resolved source, if any, is at least one
/// pixel tall.
pub open spec fn entry_positive(e: EntryV) -> bool {
    match e.source {
        Option::None => true,
        Option::Some(d) => d.height >= 1,
    }
}

/// Whether every resolved source is at least one pixel tall.  An image
/// with no height cannot be scaled into a cell, so the engine does not
/// accept one; this is also what keeps the cursor off the page origin
/// whenever the in-progress page holds anything.
pub open spec fn sources_positive(entries: Seq<EntryV>) -> bool {
    forall|i: int| 0 <= i < entries.len() ==> entry_positive(#[trigger] entries[i])
}

/// Sorting preserves positive heights.
pub proof fn lemma_sources_positive_sort(s: Seq<EntryV>)
    requires
        sources_positive(s),
    ensures
        sources_positive(sort_entries_spec(s)),
{
    broadcast use vstd::seq_lib::group_seq_properties;
    broadcast use vstd::multiset::group_multiset_axioms;

    lemma_sort_entries_multiset(s);
    let t = sort_entries_spec(s);
    s.to_multiset_ensures();
    t.to_multiset_ensures();
    assert forall|i: int| 0 <= i < t.len() implies entry_positive(#[trigger] t[i]) by {
        assert(t.contains(t[i]));
        assert(t.to_multiset().count(t[i]) > 0);
        assert(s.contains(t[i]));
        let j = choose|j: int| 0 <= j < s.len() && s[j] == t[i];
        assert(entry_positive(s[j]));
    }
}

/// The liveness invariant of a run with positive heights: no placement is
/// on a page after the current one, and whenever the current page holds a
/// placement the cursor is off the origin, so the end-of-run flush keeps
/// that page.
spec fn pages_live(st: LayoutV) -> bool {
    &&& forall|k: int| 0 <= k < st.placed.len() ==> (#[trigger] st.placed[k]).page <= st.pages_done
    &&& forall|k: int|
        0 <= k < st.placed.len() && (#[trigger] st.placed[k]).page == st.pages_done ==> (st.x > 0
            || st.y > 0)
}

/// The liveness invariant holds after any run with positive heights.
proof fn lemma_pages_live(size: nat, cell: nat, entries: Seq<EntryV>)
    requires
        cell >= 1,
        sources_positive(entries),
    ensures
        pages_live(layout_run(size, cell, entries)),
    decreases entries.len(),
{
    if entries.len() > 0 {
        let prefix = entries.drop_last();
        assert(sources_positive(prefix)) by {
            assert(forall|i: int| 0 <= i < prefix.len() ==> (#[trigger] prefix[i]) == entries[i]);
        }
        lemma_pages_live(size, cell, prefix);
        let st = layout_run(size, cell, prefix);
        let e = entries.last();
        let st1 = layout_run(size, cell, entries);
        match e.source {
            Option::None => {},
            Option::Some(d) => {
                assert(entry_positive(entries[entries.len() - 1]));
                assert(d.height >= 1);
                let t1 = if st.tallest < d.height {
                    d.height
                } else {
                    st.tallest
                };
                assert(t1 >= 1);
                assert forall|k: int|
                    0 <= k < st1.placed.len() && (#[trigger] st1.placed[k]).page
                        == st1.pages_done implies (st1.x > 0 || st1.y > 0) by {
                    if st.x + cell < size {
                        assert(st1.x == st.x + cell >= 1);
                    } else if st.y + t1 < size {
                        assert(st1.y == st.y + t1 >= 1);
                    } else {
                        // a fresh page: nothing is placed on it yet
                        assert(st1.pages_done == st.pages_done + 1);
                        if k < st.placed.len() {
                            assert(st1.placed[k] == st.placed[k]);
                            assert(st.placed[k].page <= st.pages_done);
                        } else {
                            assert(st1.placed[k].page == st.pages_done);
                        }
                    }
                }
                assert(forall|k: int|
                    0 <= k < st1.placed.len() ==> (#[trigger] st1.placed[k]).page
                        <= st1.pages_done);
            },
        }
    }
}

/// With positive heights, every placement's page is one the run yields:
/// the placement map never names a page that is missing from the result.
pub proof fn lemma_pages_complete(size: nat, cell: nat, entries: Seq<EntryV>)
    requires
        cell >= 1,
        sources_positive(entries),
    ensures
        forall|k: int|
            0 <= k < layout_run(size, cell, entries).placed.len() ==> (#[trigger] layout_run(
                size,
                cell,
                entries,
            ).placed[k]).page < page_count(layout_run(size, cell, entries)),
{
    lemma_pages_live(size, cell, entries);
}

/// Whether the destination cells of two placements, each `cell` pixels
/// square, do not overlap.
pub open spec fn cells_disjoint(p: PlacementV, q: PlacementV, cell: nat) -> bool {
    ||| p.x + cell <= q.x
    ||| q.x + cell <= p.x
    ||| p.y + cell <= q.y
    ||| q.y + cell <= p.y
}

/// Whether every resolved entry is at least one cell tall.  Rows advance
/// by the tallest intrinsic height seen, so this is what keeps a new row
/// clear of the cells of the row above.
pub open spec fn heights_fill_cells(entries: Seq<EntryV>, cell: nat) -> bool {
    forall|i: int|
        0 <= i < entries.len() ==> match (#[trigger] entries[i].source) {
            Option::None => true,
            Option::Some(d) => d.height >= cell,
        }
}

/// The geometric invariant of a run: placements on one page occupy
/// disjoint cells, no placement is on a page after the current one, and on
/// the current page everything sits strictly above the cursor's row or to
/// the left of the cursor in its row.
spec fn no_overlap_inv(st: LayoutV, cell: nat) -> bool {
    &&& forall|a: int, b: int|
        0 <= a < b < st.placed.len() && (#[trigger] st.placed[a]).page == (
        #[trigger] st.placed[b]).page ==> cells_disjoint(st.placed[a], st.placed[b], cell)
    &&& forall|a: int| 0 <= a < st.placed.len() ==> (#[trigger] st.placed[a]).page <= st.pages_done
    &&& forall|a: int|
        0 <= a < st.placed.len() && (#[trigger] st.placed[a]).page == st.pages_done ==> (
        st.placed[a].y + cell <= st.y || (st.placed[a].y == st.y && st.placed[a].x + cell <= st.x))
}

/// The geometric invariant holds after any run whose resolved entries all
/// fill their cells vertically.
proof fn lemma_no_overlap_inv(size: nat, cell: nat, entries: Seq<EntryV>)
    requires
        cell >= 1,
        heights_fill_cells(entries, cell),
    ensures
        no_overlap_inv(layout_run(size, cell, entries), cell),
    decreases entries.len(),
{
    if entries.len() == 0 {
    } else {
        let prefix = entries.drop_last();
        assert(heights_fill_cells(prefix, cell)) by {
            assert(forall|i: int|
                0 <= i < prefix.len() ==> (#[trigger] prefix[i]) == entries[i]);
        }
        lemma_no_overlap_inv(size, cell, prefix);
        let st = layout_run(size, cell, prefix);
        let e = entries.last();
        let st1 = layout_run(size, cell, entries);
        match e.source {
            Option::None => {},
            Option::Some(d) => {
                assert(d.height >= cell);
                let p = PlacementV {
                    key: e.key,
                    page: st.pages_done,
                    x: st.x,
                    y: st.y,
                    width: d.width,
                    height: d.height,
                };
                let t1 = if st.tallest < d.height {
                    d.height
                } else {
                    st.tallest
                };
                assert(t1 >= cell);
                // the new placement is disjoint from everything already on
                // its page
                assert forall|a: int, b: int|
                    0 <= a < b < st1.placed.len() && (#[trigger] st1.placed[a]).page == (
                    #[trigger] st1.placed[b]).page implies cells_disjoint(
                    st1.placed[a],
                    st1.placed[b],
                    cell,
                ) by {
                    if b == st.placed.len() {
                        assert(st1.placed[b] == p);
                        assert(st1.placed[a] == st.placed[a]);
                    } else {
                        assert(st1.placed[a] == st.placed[a]);
                        assert(st1.placed[b] == st.placed[b]);
                    }
                }
                // the cursor bound holds again in the new state
                assert forall|a: int|
                    0 <= a < st1.placed.len() && (#[trigger] st1.placed[a]).page
                        == st1.pages_done implies (st1.placed[a].y + cell <= st1.y || (
                st1.placed[a].y == st1.y && st1.placed[a].x + cell <= st1.x)) by {
                    if a < st.placed.len() {
                        assert(st1.placed[a] == st.placed[a]);
                    } else {
                        assert(st1.placed[a] == p);
                    }
                }
                assert(forall|a: int|
                    0 <= a < st1.placed.len() ==> (#[trigger] st1.placed[a]).page
                        <= st1.pages_done);
            },
        }
    }
}

/// No overlap: when every resolved sprite is at least one cell tall, the
/// destination cells of any two sprites placed on the same page are
/// disjoint.
pub proof fn lemma_no_overlap(size: nat, cell: nat, entries: Seq<EntryV>, a: int, b: int)
    requires
        cell >= 1,
        heights_fill_cells(entries, cell),
        0 <= a < layout_run(size, cell, entries).placed.len(),
        0 <= b < layout_run(size, cell, entries).placed.len(),
        a != b,
        layout_run(size, cell, entries).placed[a].page == layout_run(
            size,
            cell,
            entries,
        ).placed[b].page,
    ensures
        cells_disjoint(
            layout_run(size, cell, entries).placed[a],
            layout_run(size, cell, entries).placed[b],
            cell,
        ),
{
    lemma_no_overlap_inv(size, cell, entries);
}

/// Whether every resolved entry is exactly one cell tall, the uniform
/// sizing under which pages fill up in a perfect grid.
pub open spec fn heights_exact(entries: Seq<EntryV>, cell: nat) -> bool {
    forall|i: int|
        0 <= i < entries.len() ==> match (#[trigger] entries[i].source) {
            Option::None => true,
            Option::Some(d) => d.height == cell,
        }
}

/// The arithmetic invariant of a run with uniform cell-tall sources: with
/// `cap = rows * rows` cells to a page, the `i`-th placement lands on page
/// `i / cap`, and the cursor sits exactly where placement count `n` puts
/// it on the grid.
spec fn uniform_inv(st: LayoutV, rows: nat, cell: nat) -> bool {
    let cap = rows * rows;
    let n = st.placed.len();
    &&& st.pages_done == n / cap
    &&& st.x == cell * ((n % cap) % rows)
    &&& st.y == cell * ((n % cap) / rows)
    &&& st.tallest == if (n % cap) % rows == 0 {
        0nat
    } else {
        cell
    }
    &&& forall|i: int| 0 <= i < n ==> (#[trigger] st.placed[i]).page == (i as nat) / cap
}

/// The arithmetic invariant holds after any run with uniform cell-tall
/// sources on pages that divide evenly into rows.
proof fn lemma_uniform_inv(size: nat, cell: nat, rows: nat, entries: Seq<EntryV>)
    requires
        cell >= 1,
        rows >= 1,
        size == rows * cell,
        heights_exact(entries, cell),
    ensures
        uniform_inv(layout_run(size, cell, entries), rows, cell),
    decreases entries.len(),
{
    let cap = rows * rows;
    assert(cap >= rows >= 1) by (nonlinear_arith)
        requires
            rows >= 1,
            cap == rows * rows,
    ;
    if entries.len() == 0 {
        lemma_fundamental_div_mod_converse(0, cap as int, 0, 0);
        lemma_fundamental_div_mod_converse(0, rows as int, 0, 0);
    } else {
        let prefix = entries.drop_last();
        assert(heights_exact(prefix, cell)) by {
            assert(forall|i: int| 0 <= i < prefix.len() ==> (#[trigger] prefix[i]) == entries[i]);
        }
        lemma_uniform_inv(size, cell, rows, prefix);
        let st = layout_run(size, cell, prefix);
        let e = entries.last();
        let st1 = layout_run(size, cell, entries);
        match e.source {
            Option::None => {},
            Option::Some(d) => {
                let n = st.placed.len() as int;
                let q = n / (cap as int);
                let m = n % (cap as int);
                lemma_fundamental_div_mod(n, cap as int);
                lemma_mod_bound(n, cap as int);
                lemma_fundamental_div_mod(m, rows as int);
                lemma_mod_bound(m, rows as int);
                let mq = m / (rows as int);
                let mr = m % (rows as int);
                assert(mq < rows) by (nonlinear_arith)
                    requires
                        m < cap,
                        cap == (rows as int) * (rows as int),
                        rows >= 1,
                        m == (rows as int) * mq + mr,
                        0 <= mr,
                ;
                // the tallest tracker is always exactly one cell once a row
                // has anything in it, so rows advance by exactly one cell
                assert(d.height == cell);
                let t1 = if st.tallest < d.height {
                    d.height
                } else {
                    st.tallest
                };
                assert(t1 == cell);
                assert(st.x + cell == cell * (mr + 1)) by (nonlinear_arith)
                    requires
                        st.x == cell * mr,
                ;
                assert((cell * (mr + 1) >= size) == (mr + 1 >= rows)) by (nonlinear_arith)
                    requires
                        cell >= 1,
                        size == rows * cell,
                ;
                if mr + 1 < rows {
                    // the row keeps filling
                    assert(m + 1 < cap) by (nonlinear_arith)
                        requires
                            m == (rows as int) * mq + mr,
                            mq < rows,
                            mr + 1 < rows,
                            cap == (rows as int) * (rows as int),
                            0 <= mq,
                    ;
                    lemma_fundamental_div_mod_converse(n + 1, cap as int, q, m + 1);
                    lemma_fundamental_div_mod_converse(m + 1, rows as int, mq, mr + 1);
                } else {
                    assert(mr + 1 == rows);
                    assert(st.y + t1 == cell * (mq + 1)) by (nonlinear_arith)
                        requires
                            st.y == cell * mq,
                            t1 == cell,
                    ;
                    assert((cell * (mq + 1) >= size) == (mq + 1 >= rows)) by (nonlinear_arith)
                        requires
                            cell >= 1,
                            size == rows * cell,
                    ;
                    if mq + 1 < rows {
                        // the row is full; the page is not
                        assert(m + 1 == (rows as int) * (mq + 1)) by (nonlinear_arith)
                            requires
                                m == (rows as int) * mq + mr,
                                mr + 1 == rows,
                        ;
                        assert(m + 1 < cap) by (nonlinear_arith)
                            requires
                                m + 1 == (rows as int) * (mq + 1),
                                mq + 1 < rows,
                                cap == (rows as int) * (rows as int),
                                0 <= mq,
                        ;
                        lemma_fundamental_div_mod_converse(n + 1, cap as int, q, m + 1);
                        lemma_fundamental_div_mod_converse(m + 1, rows as int, mq + 1, 0);
                        lemma_fundamental_div_mod_converse(0, rows as int, 0, 0);
                    } else {
                        // the page is full
                        assert(mq + 1 == rows);
                        assert(m + 1 == cap) by (nonlinear_arith)
                            requires
                                m == (rows as int) * mq + mr,
                                mr + 1 == rows,
                                mq + 1 == rows,
                                cap == (rows as int) * (rows as int),
                        ;
                        assert(n + 1 == (q + 1) * (cap as int)) by (nonlinear_arith)
                            requires
                                n == q * (cap as int) + m,
                                m + 1 == cap,
                        ;
                        assert(n + 1 == (q + 1) * (cap as int) + 0);
                        assert(0 == 0 * (cap as int) + 0);
                        assert(0 == 0 * (rows as int) + 0) by (nonlinear_arith);
                        lemma_fundamental_div_mod_converse(n + 1, cap as int, q + 1, 0);
                        lemma_fundamental_div_mod_converse(0, cap as int, 0, 0);
                        lemma_fundamental_div_mod_converse(0, rows as int, 0, 0);
                    }
                }
            },
        }
    }
}

/// Capacity: with pages that divide evenly into `rows` rows and sources
/// each exactly one cell tall, the `i`-th placed sprite lands on page
/// `i / rows²` — so no page receives more than `rows²` sprites — and the
/// number of pages is exactly `ceil(placed / rows²)`, or one blank page
/// when nothing was placed.
pub proof fn lemma_uniform_capacity(size: nat, cell: nat, rows: nat, entries: Seq<EntryV>)
    requires
        cell >= 1,
        rows >= 1,
        size == rows * cell,
        heights_exact(entries, cell),
    ensures
        forall|i: int|
            0 <= i < layout_run(size, cell, entries).placed.len() ==> (#[trigger] layout_run(
                size,
                cell,
                entries,
            ).placed[i]).page == (i as nat) / (rows * rows),
        forall|i: int, j: int|
            0 <= i < layout_run(size, cell, entries).placed.len() && 0 <= j < layout_run(
                size,
                cell,
                entries,
            ).placed.len() && (#[trigger] layout_run(size, cell, entries).placed[i]).page == (
            #[trigger] layout_run(size, cell, entries).placed[j]).page ==> i - j < rows * rows
                && j - i < rows * rows,
        layout_run(size, cell, entries).placed.len() == 0 ==> page_count(
            layout_run(size, cell, entries),
        ) == 1,
        layout_run(size, cell, entries).placed.len() > 0 ==> page_count(
            layout_run(size, cell, entries),
        ) == (layout_run(size, cell, entries).placed.len() - 1) as nat / (rows * rows) + 1,
{
    lemma_uniform_inv(size, cell, rows, entries);
    let fin = layout_run(size, cell, entries);
    let cap = rows * rows;
    assert(cap >= rows >= 1) by (nonlinear_arith)
        requires
            rows >= 1,
            cap == rows * rows,
    ;
    let n = fin.placed.len() as int;
    let q = n / (cap as int);
    let m = n % (cap as int);
    lemma_fundamental_div_mod(n, cap as int);
    lemma_mod_bound(n, cap as int);
    lemma_fundamental_div_mod(m, rows as int);
    lemma_mod_bound(m, rows as int);
    let mq = m / (rows as int);
    let mr = m % (rows as int);

    // two placements on one page are fewer than rows * rows apart
    assert forall|i: int, j: int|
        0 <= i < n && 0 <= j < n && (#[trigger] fin.placed[i]).page == (
        #[trigger] fin.placed[j]).page implies i - j < cap && j - i < cap by {
        lemma_fundamental_div_mod(i, cap as int);
        lemma_fundamental_div_mod(j, cap as int);
        lemma_mod_bound(i, cap as int);
        lemma_mod_bound(j, cap as int);
        assert(i / (cap as int) == j / (cap as int));
    }

    // the page count is the ceiling of n / cap
    assert(m == (rows as int) * mq + mr);
    if n == 0 {
    } else if m == 0 {
        assert(fin.x == 0 && fin.y == 0);
        assert(q >= 1) by (nonlinear_arith)
            requires
                n == q * (cap as int) + m,
                m == 0,
                n > 0,
                cap >= 1,
        ;
        assert(n - 1 == (q - 1) * (cap as int) + (cap - 1)) by (nonlinear_arith)
            requires
                n == q * (cap as int) + m,
                m == 0,
        ;
        lemma_fundamental_div_mod_converse(n - 1, cap as int, q - 1, cap as int - 1);
    } else {
        // the in-progress page holds something: its cursor is off origin
        assert(mr > 0 || mq > 0) by (nonlinear_arith)
            requires
                m == (rows as int) * mq + mr,
                m > 0,
                0 <= mr,
                0 <= mq,
        ;
        assert(fin.x > 0 || fin.y > 0) by (nonlinear_arith)
            requires
                fin.x == cell * mr,
                fin.y == cell * mq,
                cell >= 1,
                mr > 0 || mq > 0,
        ;
        assert(n - 1 == q * (cap as int) + (m - 1)) by (nonlinear_arith)
            requires
                n == q * (cap as int) + m,
        ;
        lemma_fundamental_div_mod_converse(n - 1, cap as int, q, m - 1);
    }
}

/// Why a packing configuration was rejected.
#[derive(Debug, Clone, PartialEq, Eq)]
pub enum ConfigError {
    /// `sprites_per_row` is zero.
    SpritesPerRowZero,
    /// `spritesheet_size` is zero.
    SpritesheetSizeZero,
    /// `sprites_per_row` exceeds `spritesheet_size`, so a cell would be
    /// zero pixels wide.
    CellSizeZero,
}

/// A configuration is valid when pages are at least one pixel wide and a
/// row of cells fits in a page, so cells are at least one pixel wide.
pub open spec fn spec_valid_config(c: Spritegen) -> bool {
    1 <= c.sprites_per_row <= c.spritesheet_size
}

/// The side length of one cell, in pixels.
pub open spec fn spec_cell_size(c: Spritegen) -> nat {
    (c.spritesheet_size as nat) / (c.sprites_per_row as nat)
}

/// The error an invalid configuration is rejected with.
pub open spec fn spec_config_error(c: Spritegen) -> ConfigError {
    if c.sprites_per_row == 0 {
        ConfigError::SpritesPerRowZero
    } else if c.spritesheet_size == 0 {
        ConfigError::SpritesheetSizeZero
    } else {
        ConfigError::CellSizeZero
    }
}

/// Whether one returned placement record states exactly what the model
/// decided: same key, same rectangle, and the page name resolved from the
/// template at the page the model chose.
pub open spec fn placement_matches(
    rec: (String, Sprite),
    fmt: Seq<char>,
    name: Seq<char>,
    p: PlacementV,
) -> bool {
    &&& rec.0@ == p.key
    &&& rec.1.pixmap_key@ == spec_format_name(fmt, name, p.page)
    &&& rec.1.x as nat == p.x
    &&& rec.1.y as nat == p.y
    &&& rec.1.width as nat == p.width
    &&& rec.1.height as nat == p.height
}

/// Whether a returned spritesheet states exactly what the model decided:
/// one placement record per placed sprite, in order, and one page name per
/// page, named by index.
pub open spec fn sheet_matches(
    sheet: Spritesheet,
    fmt: Seq<char>,
    name: Seq<char>,
    fin: LayoutV,
) -> bool {
    &&& sheet.sprites@.len() == fin.placed.len()
    &&& forall|k: int|
        0 <= k < fin.placed.len() ==> placement_matches(
            #[trigger] sheet.sprites@[k],
            fmt,
            name,
            fin.placed[k],
        )
    &&& sheet.pixmap_keys@.len() == page_count(fin)
    &&& forall|k: int|
        0 <= k < sheet.pixmap_keys@.len() ==> (#[trigger] sheet.pixmap_keys@[k])@
            == spec_format_name(fmt, name, k as nat)
}

/// Whether some returned page name is the one this placement record
/// carries.
pub open spec fn page_named(sheet: Spritesheet, s: Sprite) -> bool {
    exists|i: int|
        0 <= i < sheet.pixmap_keys@.len() && (#[trigger] sheet.pixmap_keys@[i])@ == s.pixmap_key@
}

/// Whether every placement's page name is among the returned page names.
pub open spec fn pages_complete(sheet: Spritesheet) -> bool {
    forall|k: int|
        0 <= k < sheet.sprites@.len() ==> page_named(sheet, (#[trigger] sheet.sprites@[k]).1)
}

/// Everything the packing loop maintains: the executable cursor mirrors
/// the model's, the cursor stays inside the page, and the records built so
/// far state exactly what the model decided.
spec fn pack_loop_inv(
    st: LayoutV,
    size: nat,
    x: u64,
    y: u64,
    tallest: u64,
    pages_done: usize,
    sheet_sprites: Seq<(String, Sprite)>,
    pixmap_keys: Seq<String>,
    current_key: Seq<char>,
    fmt: Seq<char>,
    name: Seq<char>,
) -> bool {
    &&& st.x == x as nat
    &&& st.y == y as nat
    &&& st.tallest == tallest as nat
    &&& st.pages_done == pages_done as nat
    &&& st.x < size
    &&& st.y < size
    &&& st.tallest < 0x1_0000_0000
    &&& st.pages_done <= st.placed.len()
    &&& sheet_sprites.len() == st.placed.len()
    &&& forall|k: int|
        0 <= k < st.placed.len() ==> placement_matches(
            #[trigger] sheet_sprites[k],
            fmt,
            name,
            st.placed[k],
        )
    &&& pixmap_keys.len() == st.pages_done
    &&& forall|k: int|
        0 <= k < pixmap_keys.len() ==> (#[trigger] pixmap_keys[k])@ == spec_format_name(
            fmt,
            name,
            k as nat,
        )
    &&& current_key == spec_format_name(fmt, name, st.pages_done)
}

/// Pack sprites, already sorted by key and each at least one pixel tall,
/// into pages.
///
/// Fails exactly when the configuration is invalid.  On success the
/// returned spritesheet states, record for record, what the layout model
/// decides for these entries, always holds at least one page name, and
/// names a page in every placement record that it also returns.
pub fn pack(name: &str, config: &Spritegen, entries: Vec<SpriteEntry>) -> (r: Result<
    Spritesheet,
    ConfigError,
>)
    requires
        entries_sorted(entries_view(entries@)),
        sources_positive(entries_view(entries@)),
    ensures
        r is Ok <==> spec_valid_config(*config),
        r matches Err(e) ==> e == spec_config_error(*config),
        r matches Ok(sheet) ==> sheet_matches(
            sheet,
            config.name_format@,
            name@,
            layout_run(
                config.spritesheet_size as nat,
                spec_cell_size(*config),
                entries_view(entries@),
            ),
        ),
        r matches Ok(sheet) ==> sheet.pixmap_keys@.len() >= 1,
        r matches Ok(sheet) ==> pages_complete(sheet),
{
    let rows = config.sprites_per_row;
    let size32 = config.spritesheet_size;
    if rows == 0 {
        return Err(ConfigError::SpritesPerRowZero);
    }
    if size32 == 0 {
        return Err(ConfigError::SpritesheetSizeZero);
    }
    if rows > size32 {
        return Err(ConfigError::CellSizeZero);
    }
    let cell32 = size32 / rows;
    proof {
        vstd::arithmetic::div_mod::lemma_div_non_zero(size32 as int, rows as int);
    }
    let size: u64 = size32 as u64;
    let cell: u64 = cell32 as u64;
    let ghost size_n = size32 as nat;
    let ghost cell_n = spec_cell_size(*config);
    let ghost fmt = config.name_format@;

    let mut x: u64 = 0;
    let mut y: u64 = 0;
    let mut tallest: u64 = 0;
    let mut pages_done: usize = 0;
    let zero_index: usize = 0;
    let mut pixmap_key: String = format_spritegen_name(config.name_format.as_str(), name, &zero_index);
    let mut sheet_sprites: Vec<(String, Sprite)> = Vec::new();
    let mut pixmap_keys: Vec<String> = Vec::new();

    let ghost ev = entries_view(entries@);
    let n = entries.len();
    let mut i: usize = 0;
    proof {
        assert(ev.take(0) =~= Seq::<EntryV>::empty());
    }
    while i < n
        invariant
            n == ev.len(),
            i <= n,
            ev == entries_view(entries@),
            1 <= cell <= size <= u32::MAX,
            size == size_n,
            cell == cell_n,
            fmt == config.name_format@,
            layout_run(size_n, cell_n, ev.take(i as int)).placed.len() <= i,
            pack_loop_inv(
                layout_run(size_n, cell_n, ev.take(i as int)),
                size_n,
                x,
                y,
                tallest,
                pages_done,
                sheet_sprites@,
                pixmap_keys@,
                pixmap_key@,
                fmt,
                name@,
            ),
        decreases n - i,
    {
        let ghost st = layout_run(size_n, cell_n, ev.take(i as int));
        proof {
            assert(ev.take(i + 1).drop_last() =~= ev.take(i as int));
            assert(ev.take(i + 1).last() == ev[i as int]);
            assert(ev[i as int] == entries@[i as int]@);
        }
        let entry = &entries[i];
        match &entry.source {
            Option::None => {
                proof {
                    assert(layout_run(size_n, cell_n, ev.take(i + 1)) == st);
                }
            },
            Option::Some(src) => {
                let w = src.width();
                let h = src.height();
                sheet_sprites.push(
                    (
                        entry.key.clone(),
                        Sprite {
                            pixmap_key: pixmap_key.clone(),
                            x: x as u32,
                            y: y as u32,
                            width: w,
                            height: h,
                        },
                    ),
                );
                x = x + cell;
                if tallest < h as u64 {
                    tallest = h as u64;
                }
                if x >= size {
                    x = 0;
                    y = y + tallest;
                    tallest = 0;
                    if y >= size {
                        y = 0;
                        pixmap_keys.push(pixmap_key);
                        pages_done = pages_done + 1;
                        pixmap_key = format_spritegen_name(
                            config.name_format.as_str(),
                            name,
                            &pages_done,
                        );
                    }
                }
                proof {
                    let st1 = layout_run(size_n, cell_n, ev.take(i + 1));
                    assert(st1 == layout_place(
                        size_n,
                        cell_n,
                        st,
                        entry.key@,
                        w as nat,
                        h as nat,
                    ));
                    assert(sheet_sprites@.len() == st1.placed.len());
                    assert(placement_matches(
                        sheet_sprites@[st.placed.len() as int],
                        fmt,
                        name@,
                        st1.placed[st.placed.len() as int],
                    ));
                }
            },
        }
        i = i + 1;
    }
    proof {
        assert(ev.take(n as int) =~= ev);
    }

    if x > 0 || y > 0 || pixmap_keys.len() == 0 {
        pixmap_keys.push(pixmap_key);
    }
    let sheet = Spritesheet { pixmap_keys, sprites: sheet_sprites };
    proof {
        let fin = layout_run(size_n, cell_n, ev);
        assert(sheet_matches(sheet, fmt, name@, fin));
        lemma_pages_complete(size_n, cell_n, ev);
        assert forall|k: int| 0 <= k < sheet.sprites@.len() implies page_named(
            sheet,
            (#[trigger] sheet.sprites@[k]).1,
        ) by {
            let p = fin.placed[k];
            assert(p.page < page_count(fin));
            assert((sheet.pixmap_keys@[p.page as int])@ == spec_format_name(fmt, name@, p.page));
            assert(sheet.sprites@[k].1.pixmap_key@ == spec_format_name(fmt, name@, p.page));
        }
    }
    Ok(sheet)
}

/// Pack a collection of named sprites, each at least one pixel tall, into
/// pages.
///
/// The entries are sorted by key first, so the result depends only on
/// which (key, source) pairs are present, never on the order they are
/// handed in.  Fails exactly when the configuration is invalid.  On
/// success the returned spritesheet states, record for record, what the
/// layout model decides for the sorted entries, always holds at least one
/// page name, and names a page in every placement record that it also
/// returns.
pub fn spritegen(name: &str, config: &Spritegen, entries: Vec<SpriteEntry>) -> (r: Result<
    Spritesheet,
    ConfigError,
>)
    requires
        sources_positive(entries_view(entries@)),
    ensures
        r is Ok <==> spec_valid_config(*config),
        r matches Err(e) ==> e == spec_config_error(*config),
        r matches Ok(sheet) ==> sheet_matches(
            sheet,
            config.name_format@,
            name@,
            layout_run(
                config.spritesheet_size as nat,
                spec_cell_size(*config),
                sort_entries_spec(entries_view(entries@)),
            ),
        ),
        r matches Ok(sheet) ==> sheet.pixmap_keys@.len() >= 1,
        r matches Ok(sheet) ==> pages_complete(sheet),
{
    proof {
        lemma_sort_entries_sorted(entries_view(entries@));
        lemma_sources_positive_sort(entries_view(entries@));
    }
    let sorted = sort_entries(entries);
    pack(name, config, sorted)
}

} // verus!

