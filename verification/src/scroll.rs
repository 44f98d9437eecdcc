//! The navigable list: an ordered sequence of labelled entries with one
//! current selection, circular stepping, and a non-mutating substring filter.
//! Each entry carries the position it had in the unfiltered source list, so
//! a choice made on a filtered view can be committed back to the source.

use vstd::prelude::*;
use crate::text::{has_substring, lemma_empty_substring, str_has_substring};

verus! {

/// Position of an entry in the unfiltered source list, carried through
/// filtered views so a selection can be committed back.
#[derive(Clone, Copy)]
pub struct Index(pub usize);

/// Mathematical content of a `Scrollable`: the labelled entries, each paired
/// with its source position, and the current selection.
#[verifier::ext_equal]
pub ghost struct ScrollV {
    pub items: Seq<(Seq<char>, int)>,
    pub sel: int,
}

/// The entries of an executable item vector, seen mathematically.
pub open spec fn items_view(items: Seq<(String, Index)>) -> Seq<(Seq<char>, int)> {
    items.map_values(|p: (String, Index)| (p.0@, p.1.0 as int))
}

/// The entries whose label contains `q`, in their original order.
pub open spec fn filter_by(items: Seq<(Seq<char>, int)>, q: Seq<char>) -> Seq<(Seq<char>, int)> {
    items.filter(|p: (Seq<char>, int)| has_substring(p.0, q))
}

/// Selection after one forward step on a list of length `len`: wraps to the
/// start from the last entry or from an out-of-bounds selection.
pub open spec fn wrap_next(len: int, sel: int) -> int {
    if sel >= len - 1 {
        0
    } else {
        sel + 1
    }
}

/// Selection after one backward step on a list of length `len`: wraps to the
/// end from the first entry or from an out-of-bounds selection.
pub open spec fn wrap_prev(len: int, sel: int) -> int {
    if sel >= len || sel == 0 {
        len - 1
    } else {
        sel - 1
    }
}

/// Every entry's carried position lies below `n`.
pub open spec fn tags_bounded(items: Seq<(Seq<char>, int)>, n: int) -> bool {
    forall|i: int| 0 <= i < items.len() ==> 0 <= (#[trigger] items[i]).1 < n
}

/// Repeated stepping keeps the selection of a non-empty list within bounds:
/// one step from anywhere lands inside `[0, len)`, so any chain of `next`
/// and `prev` calls stays there.
pub proof fn lemma_nav_stays_in_bounds(len: int, sel: int)
    requires
        len > 0,
        sel >= 0,
    ensures
        0 <= wrap_next(len, sel) < len,
        0 <= wrap_prev(len, sel) < len,
{
}

/// From a valid, non-boundary selection, a forward step followed by a
/// backward step restores the selection, and symmetrically.
pub proof fn lemma_step_round_trip(len: int, sel: int)
    requires
        0 < sel < len - 1,
    ensures
        wrap_prev(len, wrap_next(len, sel)) == sel,
        wrap_next(len, wrap_prev(len, sel)) == sel,
{
}

/// Filtering with the empty query keeps every entry, in order.
pub proof fn lemma_filter_empty_query_keeps_all(items: Seq<(Seq<char>, int)>)
    ensures
        filter_by(items, Seq::<char>::empty()) == items,
    decreases items.len(),
{
    reveal(Seq::filter);
    if items.len() > 0 {
        lemma_filter_empty_query_keeps_all(items.drop_last());
        let l = items.last();
        lemma_empty_substring(l.0, Seq::<char>::empty());
        assert(items.drop_last().push(l) =~= items);
    }
}

/// For a non-empty query, every entry of the filtered view carries the query
/// in its label.
pub proof fn lemma_filtered_labels_carry_query(items: Seq<(Seq<char>, int)>, q: Seq<char>, i: int)
    requires
        0 <= i < filter_by(items, q).len(),
    ensures
        has_substring(filter_by(items, q)[i].0, q),
{
    broadcast use vstd::seq_lib::group_filter_ensures;
}

/// Every entry of a filtered view is an entry of the source list.
pub proof fn lemma_filter_by_element(items: Seq<(Seq<char>, int)>, q: Seq<char>, i: int)
    requires
        0 <= i < filter_by(items, q).len(),
    ensures
        exists|j: int| 0 <= j < items.len() && items[j] == filter_by(items, q)[i],
    decreases items.len(),
{
    reveal(Seq::filter);
    if items.len() > 0 {
        let dl = items.drop_last();
        let fdl = filter_by(dl, q);
        if i < fdl.len() {
            lemma_filter_by_element(dl, q, i);
            let j = choose|j: int| 0 <= j < dl.len() && dl[j] == fdl[i];
            assert(items[j] == filter_by(items, q)[i]);
        } else {
            assert(items[items.len() - 1] == filter_by(items, q)[i]);
        }
    }
}

proof fn lemma_filter_by_take_step(items: Seq<(Seq<char>, int)>, q: Seq<char>, i: int)
    requires
        0 <= i < items.len(),
    ensures
        filter_by(items.take(i + 1), q) == if has_substring(items[i].0, q) {
            filter_by(items.take(i), q).push(items[i])
        } else {
            filter_by(items.take(i), q)
        },
{
    reveal(Seq::filter);
    assert(items.take(i + 1).drop_last() =~= items.take(i));
    assert(items.take(i + 1).last() == items[i]);
}

/// A committed navigation target is a position carried by the list, so it is
/// bounded like every carried position (or the selection stays put when
/// nothing matches the query).
pub proof fn lemma_nav_step_bounded(
    items: Seq<(Seq<char>, int)>,
    sel: int,
    q: Seq<char>,
    forward: bool,
    n: int,
)
    requires
        tags_bounded(items, n),
        0 <= sel,
    ensures
        nav_step_view(items, sel, q, forward).0 == sel || 0 <= nav_step_view(
            items,
            sel,
            q,
            forward,
        ).0 < n,
{
    let f = filter_by(items, q);
    if f.len() > 0 {
        let ns = if forward {
            wrap_next(f.len() as int, sel)
        } else {
            wrap_prev(f.len() as int, sel)
        };
        lemma_nav_stays_in_bounds(f.len() as int, sel);
        lemma_filter_by_element(items, q, ns);
    }
}

/// The selection committed when search capture ends is likewise bounded.
pub proof fn lemma_first_match_bounded(items: Seq<(Seq<char>, int)>, q: Seq<char>, n: int)
    requires
        tags_bounded(items, n),
    ensures
        first_match_target(items, q) == 0 || 0 <= first_match_target(items, q) < n,
{
    let f = filter_by(items, q);
    if f.len() > 0 {
        lemma_filter_by_element(items, q, 0);
    }
}

/// The generic navigable list of the browser.
pub struct Scrollable {
    items: Vec<(String, Index)>,
    selection: usize,
}

impl View for Scrollable {
    type V = ScrollV;

    closed spec fn view(&self) -> ScrollV {
        ScrollV { items: items_view(self.items@), sel: self.selection as int }
    }
}

/// Absolute selection committed by one filtered step, and whether the step
/// reached the filtered view's boundary (an empty view counts as a boundary).
pub open spec fn nav_step_view(
    items: Seq<(Seq<char>, int)>,
    sel: int,
    q: Seq<char>,
    forward: bool,
) -> (int, bool) {
    let f = filter_by(items, q);
    if f.len() == 0 {
        (sel, true)
    } else {
        let ns = if forward {
            wrap_next(f.len() as int, sel)
        } else {
            wrap_prev(f.len() as int, sel)
        };
        (f[ns].1, if forward {
            ns == f.len() - 1
        } else {
            ns == 0
        })
    }
}

/// Absolute selection committed when search capture ends: the source position
/// of the first matching entry, or the start of the list when nothing matches.
pub open spec fn first_match_target(items: Seq<(Seq<char>, int)>, q: Seq<char>) -> int {
    let f = filter_by(items, q);
    if f.len() == 0 {
        0
    } else {
        f[0].1
    }
}

impl Scrollable {
    pub fn new(items: Vec<(String, Index)>, index: Option<usize>) -> (r: Scrollable)
        ensures
            r@.items == items_view(items@),
            r@.sel == match index {
                Some(i) => i as int,
                None => 0,
            },
    {
        Scrollable {
            items,
            selection: match index {
                Some(i) => i,
                None => 0,
            },
        }
    }

    /// A new list holding only the entries whose label contains `query`; the
    /// selection is carried over unvalidated, and the source is untouched.
    pub fn filtered(&self, query: &str) -> (r: Scrollable)
        ensures
            r@.items == filter_by(self@.items, query@),
            r@.sel == self@.sel,
    {
        let ghost iv = items_view(self.items@);
        let mut out: Vec<(String, Index)> = Vec::new();
        let mut i: usize = 0;
        while i < self.items.len()
            invariant
                i <= self.items.len(),
                iv == items_view(self.items@),
                iv.len() == self.items@.len(),
                items_view(out@) == filter_by(iv.take(i as int), query@),
            decreases self.items.len() - i,
        {
            let keep = if !query.is_empty() {
                str_has_substring(self.items[i].0.as_str(), query)
            } else {
                proof {
                    lemma_empty_substring(self.items@[i as int].0@, query@);
                }
                true
            };
            proof {
                lemma_filter_by_take_step(iv, query@, i as int);
            }
            if keep {
                let ghost old_out = out@;
                let pair = (self.items[i].0.clone(), self.items[i].1);
                out.push(pair);
                proof {
                    assert(items_view(out@) =~= items_view(old_out).push(iv[i as int]));
                }
            }
            i += 1;
        }
        proof {
            assert(iv.take(self.items@.len() as int) =~= iv);
        }
        Scrollable::new(out, Some(self.selection))
    }

    /// The selected entry, or nothing while the list is empty or the carried
    /// selection lies outside the list.
    pub fn get_current(&self) -> (r: Option<&(String, Index)>)
        ensures
            (r is Some) == (self@.sel < self@.items.len()),
            r matches Some(p) ==> (p.0@, p.1.0 as int) == self@.items[self@.sel],
    {
        if self.is_empty() {
            return None;
        }
        if self.selection_invalid() {
            return None;
        }
        Some(&self.items[self.selection])
    }

    /// Step forward, wrapping to the start from the last entry or from an
    /// invalid selection; an empty list is left alone.
    pub fn next(&mut self) -> (r: Option<(String, Index)>)
        ensures
            final(self)@.items == old(self)@.items,
            (r is Some) == (old(self)@.items.len() > 0),
            old(self)@.items.len() == 0 ==> final(self)@.sel == old(self)@.sel,
            old(self)@.items.len() > 0 ==> {
                &&& final(self)@.sel == wrap_next(
                    old(self)@.items.len() as int,
                    old(self)@.sel,
                )
                &&& r matches Some(p) && (p.0@, p.1.0 as int)
                    == old(self)@.items[final(self)@.sel]
            },
    {
        if self.is_empty() {
            return None;
        }
        if self.selection_invalid() || self.is_last() {
            self.selection = 0;
        } else {
            let n = self.items.len();
            proof {
                assert(self.selection < n - 1);
            }
            self.selection += 1;
        }
        let p = &self.items[self.selection];
        Some((p.0.clone(), p.1))
    }

    /// Step backward, wrapping to the end from the first entry or from an
    /// invalid selection; an empty list is left alone.
    pub fn prev(&mut self) -> (r: Option<(String, Index)>)
        ensures
            final(self)@.items == old(self)@.items,
            (r is Some) == (old(self)@.items.len() > 0),
            old(self)@.items.len() == 0 ==> final(self)@.sel == old(self)@.sel,
            old(self)@.items.len() > 0 ==> {
                &&& final(self)@.sel == wrap_prev(
                    old(self)@.items.len() as int,
                    old(self)@.sel,
                )
                &&& r matches Some(p) && (p.0@, p.1.0 as int)
                    == old(self)@.items[final(self)@.sel]
            },
    {
        if self.is_empty() {
            return None;
        }
        if self.selection_invalid() || self.is_first() {
            self.selection = self.items.len() - 1;
        } else {
            self.selection -= 1;
        }
        let p = &self.items[self.selection];
        Some((p.0.clone(), p.1))
    }

    /// The selection sits on the last entry; an empty list reports true,
    /// which is what ends navigation mode.
    pub fn is_last(&self) -> (r: bool)
        ensures
            r == (self@.items.len() == 0 || self@.sel == self@.items.len() - 1),
    {
        if self.is_empty() {
            return true;
        }
        self.selection == self.items.len() - 1
    }

    /// The carried selection lies outside the list.
    pub fn selection_invalid(&self) -> (r: bool)
        ensures
            r == (self@.sel >= self@.items.len()),
    {
        self.selection >= self.items.len()
    }

    /// The selection sits on the first entry; an empty list reports true, by
    /// the same convention as `is_last`.
    pub fn is_first(&self) -> (r: bool)
        ensures
            r == (self@.items.len() == 0 || self@.sel == 0),
    {
        self.is_empty() || self.selection == 0
    }

    pub fn is_empty(&self) -> (r: bool)
        ensures
            r == (self@.items.len() == 0),
    {
        self.items.len() == 0
    }

    pub fn reset_index(&mut self)
        ensures
            final(self)@.items == old(self)@.items,
            final(self)@.sel == 0,
    {
        self.selection = 0;
    }

    /// Unconditionally adopt `index` as the selection; used to commit a
    /// source position obtained from a filtered view.
    pub fn select_from_index(&mut self, index: usize) -> (r: (String, Index))
        requires
            index < old(self)@.items.len(),
        ensures
            final(self)@.items == old(self)@.items,
            final(self)@.sel == index as int,
            (r.0@, r.1.0 as int) == old(self)@.items[index as int],
    {
        self.selection = index;
        let p = &self.items[self.selection];
        (p.0.clone(), p.1)
    }

    pub fn get_index(&self) -> (r: usize)
        ensures
            r as int == self@.sel,
    {
        self.selection
    }

    pub fn get_items(&self) -> (r: &Vec<(String, Index)>)
        ensures
            items_view(r@) == self@.items,
    {
        &self.items
    }

    /// One navigation key on this list: step through the view filtered by
    /// `query`, commit the reached entry's source position as the new
    /// selection, and report whether the step hit the filtered boundary.
    pub fn nav_filtered(&mut self, query: &str, forward: bool) -> (boundary: bool)
        requires
            tags_bounded(old(self)@.items, old(self)@.items.len() as int),
        ensures
            final(self)@.items == old(self)@.items,
            final(self)@.sel == nav_step_view(
                old(self)@.items,
                old(self)@.sel,
                query@,
                forward,
            ).0,
            boundary == nav_step_view(old(self)@.items, old(self)@.sel, query@, forward).1,
    {
        let mut f = self.filtered(query);
        let stepped = if forward {
            f.next()
        } else {
            f.prev()
        };
        match stepped {
            Some((_, Index(t))) => {
                proof {
                    lemma_filter_by_element(self@.items, query@, f@.sel);
                }
                self.select_from_index(t);
                if forward {
                    f.is_last()
                } else {
                    f.is_first()
                }
            },
            None => true,
        }
    }

    /// Leaving search capture: reset the selection, then commit the first
    /// entry matching `query`, if any.
    pub fn commit_first_match(&mut self, query: &str)
        requires
            tags_bounded(old(self)@.items, old(self)@.items.len() as int),
        ensures
            final(self)@.items == old(self)@.items,
            final(self)@.sel == first_match_target(old(self)@.items, query@),
    {
        self.reset_index();
        let f = self.filtered(query);
        if f.items.len() > 0 {
            proof {
                lemma_filter_by_element(self@.items, query@, 0);
            }
            let Index(t) = f.items[0].1;
            self.select_from_index(t);
        }
    }
}

} // verus!
