//! The branch registry: branches parsed from the version-control gateway's
//! output, a current selection, substring filtering, and the guarded switch
//! and merge operations that keep at most one branch checked out.
//!
//! Gateway calls happen outside this crate. A switch or merge therefore has
//! two phases: `switch_current` / `merge_current` run the local guard and
//! yield the branch name for the gateway, and `apply_switch_output` /
//! `apply_merge_output` classify the captured output and, on success, update
//! the registry.

use vstd::prelude::*;
use vstd::string::*;
use crate::errors::{GituiError, GituiErrorV};
use crate::scroll::{Index, Scrollable};
use crate::text::{
    has_substring, skip_blanks, str_has_substring, trim_ends, trim_leading, trimmed,
};

verus! {

/// A branch as parsed from one gateway output line.
#[derive(Debug)]
pub struct Branch {
    pub name: String,
    pub is_checked_out: bool,
}

/// Mathematical content of a `Branch`.
#[verifier::ext_equal]
pub ghost struct BranchV {
    pub name: Seq<char>,
    pub is_checked_out: bool,
}

impl View for Branch {
    type V = BranchV;

    open spec fn view(&self) -> BranchV {
        BranchV { name: self.name@, is_checked_out: self.is_checked_out }
    }
}

impl Branch {
    pub fn new(name: &str, is_checked_out: bool) -> (r: Branch)
        ensures
            r@ == (BranchV { name: name@, is_checked_out }),
    {
        Branch { name: name.to_owned(), is_checked_out }
    }
}

/// A branch together with the position it had in the loaded list; the
/// position survives filtering, so a selection made on a filtered view can be
/// committed back to the full list.
#[derive(Debug)]
pub struct IndexedBranch {
    pub name: String,
    pub is_checked_out: bool,
    pub index: usize,
}

/// Mathematical content of an `IndexedBranch`.
#[verifier::ext_equal]
pub ghost struct IndexedBranchV {
    pub name: Seq<char>,
    pub is_checked_out: bool,
    pub index: int,
}

impl View for IndexedBranch {
    type V = IndexedBranchV;

    open spec fn view(&self) -> IndexedBranchV {
        IndexedBranchV {
            name: self.name@,
            is_checked_out: self.is_checked_out,
            index: self.index as int,
        }
    }
}

impl Clone for IndexedBranch {
    fn clone(&self) -> (r: Self)
        ensures
            r@ == self@,
    {
        IndexedBranch {
            name: self.name.clone(),
            is_checked_out: self.is_checked_out,
            index: self.index,
        }
    }
}

/// The line as shown in the list: the checked-out branch carries the marker.
pub open spec fn display_view(b: IndexedBranchV) -> Seq<char> {
    if b.is_checked_out {
        "* "@ + b.name
    } else {
        b.name
    }
}

impl IndexedBranch {
    pub fn new(name: &str, is_checked_out: bool, index: usize) -> (r: Self)
        ensures
            r@ == (IndexedBranchV { name: name@, is_checked_out, index: index as int }),
    {
        IndexedBranch { name: name.to_owned(), is_checked_out, index }
    }

    pub fn get_display_name(&self) -> (r: String)
        ensures
            r@ == display_view(self@),
    {
        if self.is_checked_out {
            let mut s = String::from_str("* ");
            s.append(self.name.as_str());
            s
        } else {
            self.get_name()
        }
    }

    pub fn get_name(&self) -> (r: String)
        ensures
            r@ == self@.name,
    {
        self.name.clone()
    }

    pub fn set_is_checked_out(&mut self, value: bool)
        ensures
            final(self)@ == (IndexedBranchV { is_checked_out: value, ..old(self)@ }),
    {
        self.is_checked_out = value;
    }
}

/// One gateway line, cleaned up: a blank line yields nothing; leading blanks
/// are dropped; a leading checked-out marker flags the branch and is stripped
/// from its name.
pub open spec fn parse_line(line: Seq<char>) -> Option<BranchV> {
    let t = skip_blanks(line);
    if t.len() == 0 {
        None
    } else if t.len() >= 2 && t[0] == '*' && t[1] == ' ' {
        Some(BranchV { name: t.subrange(2, t.len() as int), is_checked_out: true })
    } else {
        Some(BranchV { name: t, is_checked_out: false })
    }
}

/// All gateway lines parsed in order, blank lines discarded.
pub open spec fn parse_lines(lines: Seq<Seq<char>>) -> Seq<BranchV>
    decreases lines.len(),
{
    if lines.len() == 0 {
        Seq::empty()
    } else {
        let front = parse_lines(lines.drop_last());
        match parse_line(lines.last()) {
            Some(b) => front.push(b),
            None => front,
        }
    }
}

/// The character content of a sequence of lines.
pub open spec fn lines_view(lines: Seq<String>) -> Seq<Seq<char>> {
    lines.map_values(|s: String| s@)
}

/// The mathematical content of a sequence of parsed branches.
pub open spec fn branch_seq_view(bs: Seq<Branch>) -> Seq<BranchV> {
    bs.map_values(|b: Branch| b@)
}

/// The mathematical content of a sequence of indexed branches.
pub open spec fn entries_view(bs: Seq<IndexedBranch>) -> Seq<IndexedBranchV> {
    bs.map_values(|b: IndexedBranch| b@)
}

/// Branches numbered by their position in the freshly built list.
pub open spec fn with_positions(bs: Seq<BranchV>) -> Seq<IndexedBranchV> {
    Seq::new(
        bs.len(),
        |i: int| IndexedBranchV {
            name: bs[i].name,
            is_checked_out: bs[i].is_checked_out,
            index: i,
        },
    )
}

/// The gateway signals failure through this marker somewhere in its captured
/// output, independent of the process's exit status.
pub open spec fn is_failure_output(out: Seq<char>) -> bool {
    has_substring(out, "error:"@)
}

/// The branch list after a switch to the entry at `k` succeeded: that entry
/// is checked out and every other one is not.
pub open spec fn checked_only_at(entries: Seq<IndexedBranchV>, k: int) -> Seq<IndexedBranchV> {
    Seq::new(
        entries.len(),
        |i: int| IndexedBranchV { is_checked_out: i == k, ..entries[i] },
    )
}

/// After a successful switch, exactly one branch is checked out, and it is
/// the branch the switch targeted; names and positions are untouched.
pub proof fn lemma_switch_success_single_checkout(entries: Seq<IndexedBranchV>, k: int)
    requires
        0 <= k < entries.len(),
    ensures
        checked_only_at(entries, k)[k].is_checked_out,
        checked_only_at(entries, k)[k].name == entries[k].name,
        forall|i: int| 0 <= i < entries.len() && i != k
            ==> !(#[trigger] checked_only_at(entries, k)[i]).is_checked_out,
        forall|i: int| 0 <= i < entries.len() ==> (#[trigger] checked_only_at(entries, k)[i]).name
            == entries[i].name && checked_only_at(entries, k)[i].index == entries[i].index,
{
}

/// Gateway lines turned into branches, in order.
pub fn parse_branches(lines: &Vec<String>) -> (r: Vec<Branch>)
    ensures
        branch_seq_view(r@) == parse_lines(lines_view(lines@)),
{
    let ghost lv = lines_view(lines@);
    let mut out: Vec<Branch> = Vec::new();
    let mut i: usize = 0;
    while i < lines.len()
        invariant
            i <= lines.len(),
            lv == lines_view(lines@),
            lv.len() == lines@.len(),
            branch_seq_view(out@) == parse_lines(lv.take(i as int)),
        decreases lines.len() - i,
    {
        proof {
            assert(lv.take(i + 1).drop_last() =~= lv.take(i as int));
            assert(lv.take(i + 1).last() == lv[i as int]);
        }
        let t = trim_leading(lines[i].as_str());
        let l = t.as_str().unicode_len();
        if l >= 2 && t.as_str().get_char(0) == '*' && t.as_str().get_char(1) == ' ' {
            let ghost old_out = out@;
            let name = t.as_str().substring_char(2, l);
            out.push(Branch::new(name, true));
            proof {
                assert(branch_seq_view(out@) =~= branch_seq_view(old_out).push(
                    parse_line(lv[i as int])->Some_0,
                ));
            }
        } else if l > 0 {
            let ghost old_out = out@;
            out.push(Branch::new(t.as_str(), false));
            proof {
                assert(branch_seq_view(out@) =~= branch_seq_view(old_out).push(
                    parse_line(lv[i as int])->Some_0,
                ));
            }
        }
        i += 1;
    }
    proof {
        assert(lv.take(lines@.len() as int) =~= lv);
    }
    out
}

/// The registry's branch list seen mathematically, with the current selection.
#[verifier::ext_equal]
pub ghost struct BranchesV {
    pub entries: Seq<IndexedBranchV>,
    pub cur: int,
}

/// The registry freshly loaded from gateway lines: parsed branches numbered
/// by position, selection at the start.
pub open spec fn loaded_view(lines: Seq<Seq<char>>) -> BranchesV {
    BranchesV { entries: with_positions(parse_lines(lines)), cur: 0 }
}

/// The entries whose name contains `q`, in order.
pub open spec fn name_filter(entries: Seq<IndexedBranchV>, q: Seq<char>) -> Seq<IndexedBranchV> {
    entries.filter(|b: IndexedBranchV| has_substring(b.name, q))
}

/// The filtered entries as navigable-list items: display name plus carried
/// source position.
pub open spec fn display_items(entries: Seq<IndexedBranchV>) -> Seq<(Seq<char>, int)> {
    entries.map_values(|b: IndexedBranchV| (display_view(b), b.index))
}

/// Every entry of a name-filtered list is an entry of the source list.
pub proof fn lemma_name_filter_element(entries: Seq<IndexedBranchV>, q: Seq<char>, i: int)
    requires
        0 <= i < name_filter(entries, q).len(),
    ensures
        exists|j: int| 0 <= j < entries.len() && entries[j] == name_filter(entries, q)[i],
    decreases entries.len(),
{
    reveal(Seq::filter);
    if entries.len() > 0 {
        let dl = entries.drop_last();
        let fdl = name_filter(dl, q);
        if i < fdl.len() {
            lemma_name_filter_element(dl, q, i);
            let j = choose|j: int| 0 <= j < dl.len() && dl[j] == fdl[i];
            assert(entries[j] == name_filter(entries, q)[i]);
        } else {
            assert(entries[entries.len() - 1] == name_filter(entries, q)[i]);
        }
    }
}

proof fn lemma_name_filter_take_step(entries: Seq<IndexedBranchV>, q: Seq<char>, i: int)
    requires
        0 <= i < entries.len(),
    ensures
        name_filter(entries.take(i + 1), q) == if has_substring(entries[i].name, q) {
            name_filter(entries.take(i), q).push(entries[i])
        } else {
            name_filter(entries.take(i), q)
        },
{
    reveal(Seq::filter);
    assert(entries.take(i + 1).drop_last() =~= entries.take(i));
    assert(entries.take(i + 1).last() == entries[i]);
}

/// A committed branch navigation target is the position of some loaded
/// branch, so it stays within the list when each branch carries its own
/// position (or the selection stays put when nothing matches).
pub proof fn lemma_branch_nav_bounded(
    entries: Seq<IndexedBranchV>,
    cur: int,
    q: Seq<char>,
    forward: bool,
)
    requires
        forall|i: int| 0 <= i < entries.len() ==> (#[trigger] entries[i]).index == i,
        0 <= cur,
    ensures
        branch_nav_view(entries, cur, q, forward).0 == cur || 0 <= branch_nav_view(
            entries,
            cur,
            q,
            forward,
        ).0 < entries.len(),
{
    let f = name_filter(entries, q);
    if f.len() > 0 {
        let ns = if forward {
            crate::scroll::wrap_next(f.len() as int, cur)
        } else {
            crate::scroll::wrap_prev(f.len() as int, cur)
        };
        crate::scroll::lemma_nav_stays_in_bounds(f.len() as int, cur);
        lemma_name_filter_element(entries, q, ns);
    }
}

/// The selection committed when search capture on the branch list ends is
/// likewise within the list (or at its start).
pub proof fn lemma_branch_first_match_bounded(entries: Seq<IndexedBranchV>, q: Seq<char>)
    requires
        forall|i: int| 0 <= i < entries.len() ==> (#[trigger] entries[i]).index == i,
    ensures
        branch_first_match(entries, q) == 0 || 0 <= branch_first_match(entries, q)
            < entries.len(),
{
    let f = name_filter(entries, q);
    if f.len() > 0 {
        lemma_name_filter_element(entries, q, 0);
    }
}

/// The owner of the authoritative branch list and of the selection that
/// branch operations act on.
pub struct Branches {
    values: Vec<IndexedBranch>,
    curr_index: usize,
}

impl View for Branches {
    type V = BranchesV;

    closed spec fn view(&self) -> BranchesV {
        BranchesV { entries: entries_view(self.values@), cur: self.curr_index as int }
    }
}

/// Selection and boundary flag after one filtered navigation step on the
/// branch list (an empty filtered view counts as a boundary).
pub open spec fn branch_nav_view(
    entries: Seq<IndexedBranchV>,
    cur: int,
    q: Seq<char>,
    forward: bool,
) -> (int, bool) {
    let f = name_filter(entries, q);
    if f.len() == 0 {
        (cur, true)
    } else {
        let ns = if forward {
            crate::scroll::wrap_next(f.len() as int, cur)
        } else {
            crate::scroll::wrap_prev(f.len() as int, cur)
        };
        (f[ns].index, if forward {
            ns == f.len() - 1
        } else {
            ns == 0
        })
    }
}

/// Selection committed when search capture on the branch list ends: the
/// position of the first matching branch, or the start when nothing matches.
pub open spec fn branch_first_match(entries: Seq<IndexedBranchV>, q: Seq<char>) -> int {
    let f = name_filter(entries, q);
    if f.len() == 0 {
        0
    } else {
        f[0].index
    }
}

impl Branches {
    /// Wrap freshly parsed branches, numbering each by its position.
    pub fn new(branches: Vec<Branch>) -> (r: Branches)
        ensures
            r@.entries == with_positions(branch_seq_view(branches@)),
            r@.cur == 0,
    {
        let mut indexed: Vec<IndexedBranch> = Vec::new();
        let mut i: usize = 0;
        while i < branches.len()
            invariant
                i <= branches.len(),
                indexed@.len() == i,
                entries_view(indexed@) == with_positions(branch_seq_view(branches@)).take(
                    i as int,
                ),
            decreases branches.len() - i,
        {
            let ghost old_indexed = indexed@;
            let b = &branches[i];
            indexed.push(IndexedBranch::new(b.name.as_str(), b.is_checked_out, i));
            proof {
                assert(entries_view(indexed@) =~= with_positions(
                    branch_seq_view(branches@),
                ).take(i + 1));
            }
            i += 1;
        }
        proof {
            assert(with_positions(branch_seq_view(branches@)).take(branches@.len() as int)
                =~= with_positions(branch_seq_view(branches@)));
        }
        Branches { values: indexed, curr_index: 0 }
    }

    /// Build the registry straight from the gateway's raw output lines.
    pub fn load(lines: &Vec<String>) -> (r: Branches)
        ensures
            r@ == loaded_view(lines_view(lines@)),
    {
        let r = Branches::new(parse_branches(lines));
        proof {
            assert(r@ =~= loaded_view(lines_view(lines@)));
        }
        r
    }

    pub fn get_values(&self) -> (r: &Vec<IndexedBranch>)
        ensures
            entries_view(r@) == self@.entries,
    {
        &self.values
    }

    pub fn get_index(&self) -> (r: usize)
        ensures
            r as int == self@.cur,
    {
        self.curr_index
    }

    pub fn reset_index(&mut self)
        ensures
            final(self)@.entries == old(self)@.entries,
            final(self)@.cur == 0,
    {
        self.curr_index = 0;
    }

    /// A new registry holding only the branches whose name contains `query`;
    /// positions and selection are carried over unchanged.
    pub fn filtered(&self, query: &str) -> (r: Branches)
        ensures
            r@.entries == name_filter(self@.entries, query@),
            r@.cur == self@.cur,
    {
        let ghost ev = entries_view(self.values@);
        let mut out: Vec<IndexedBranch> = Vec::new();
        let mut i: usize = 0;
        while i < self.values.len()
            invariant
                i <= self.values.len(),
                ev == entries_view(self.values@),
                ev.len() == self.values@.len(),
                entries_view(out@) == name_filter(ev.take(i as int), query@),
            decreases self.values.len() - i,
        {
            let keep = if !query.is_empty() {
                str_has_substring(self.values[i].name.as_str(), query)
            } else {
                proof {
                    crate::text::lemma_empty_substring(self.values@[i as int].name@, query@);
                }
                true
            };
            proof {
                lemma_name_filter_take_step(ev, query@, i as int);
            }
            if keep {
                let ghost old_out = out@;
                out.push(self.values[i].clone());
                proof {
                    assert(entries_view(out@) =~= entries_view(old_out).push(ev[i as int]));
                }
            }
            i += 1;
        }
        proof {
            assert(ev.take(self.values@.len() as int) =~= ev);
        }
        Branches { values: out, curr_index: self.curr_index }
    }

    /// Unconditionally adopt `index` as the selection; used to commit a
    /// position obtained from a filtered view.
    pub fn select_from_index(&mut self, index: usize) -> (r: IndexedBranch)
        requires
            index < old(self)@.entries.len(),
        ensures
            final(self)@.entries == old(self)@.entries,
            final(self)@.cur == index as int,
            r@ == old(self)@.entries[index as int],
    {
        self.curr_index = index;
        self.values[self.curr_index].clone()
    }

    /// The name of the checked-out branch, if any: the first entry flagged as
    /// checked out.
    pub fn get_currently_checkedout_name(&self) -> (r: Option<String>)
        ensures
            match r {
                None => forall|i: int|
                    0 <= i < self@.entries.len() ==> !(#[trigger] self@.entries[i]).is_checked_out,
                Some(n) => exists|i: int|
                    {
                        &&& 0 <= i < self@.entries.len()
                        &&& (#[trigger] self@.entries[i]).is_checked_out
                        &&& n@ == self@.entries[i].name
                        &&& forall|j: int| 0 <= j < i ==> !(#[trigger] self@.entries[j]).is_checked_out
                    },
            },
    {
        let mut i: usize = 0;
        while i < self.values.len()
            invariant
                i <= self.values.len(),
                forall|j: int| 0 <= j < i ==> !(#[trigger] self@.entries[j]).is_checked_out,
            decreases self.values.len() - i,
        {
            if self.values[i].is_checked_out {
                let r = Some(self.values[i].name.clone());
                proof {
                    assert(0 <= i < self@.entries.len() && self@.entries[
                        i as int
                    ].is_checked_out);
                }
                return r;
            }
            i += 1;
        }
        None
    }

    /// First phase of a switch: the local guard, run before any gateway call.
    /// Yields the trimmed branch name to hand to the gateway, or the failure
    /// when the selected branch is already checked out.
    pub fn switch_current(&self) -> (r: Result<String, GituiError>)
        requires
            0 <= self@.cur < self@.entries.len(),
        ensures
            self@.entries[self@.cur].is_checked_out ==> (r matches Err(e) && e@
                == GituiErrorV::BranchSwitch("branch is already checked out"@)),
            !self@.entries[self@.cur].is_checked_out ==> (r matches Ok(n) && n@ == trimmed(
                self@.entries[self@.cur].name,
            )),
    {
        let b = &self.values[self.curr_index];
        if b.is_checked_out {
            Err(GituiError::BranchSwitch(String::from_str("branch is already checked out")))
        } else {
            Ok(trim_ends(b.name.as_str()))
        }
    }

    /// Second phase of a switch: classify the gateway's captured output; on
    /// success the selected branch becomes the only checked-out one, on
    /// failure the registry is untouched and the output is carried in the
    /// error.
    pub fn apply_switch_output(&mut self, output: &str) -> (r: Result<(), GituiError>)
        ensures
            final(self)@.cur == old(self)@.cur,
            is_failure_output(output@) ==> (r matches Err(e) && e@ == GituiErrorV::BranchSwitch(
                "failed to switch branch. output: "@ + output@,
            ) && final(self)@.entries == old(self)@.entries),
            !is_failure_output(output@) ==> r is Ok && final(self)@.entries == checked_only_at(
                old(self)@.entries,
                old(self)@.cur,
            ),
    {
        if str_has_substring(output, "error:") {
            let mut msg = String::from_str("failed to switch branch. output: ");
            msg.append(output);
            Err(GituiError::BranchSwitch(msg))
        } else {
            let n = self.values.len();
            let mut i: usize = 0;
            while i < n
                invariant
                    i <= n,
                    n == self.values@.len(),
                    self.curr_index == old(self).curr_index,
                    forall|j: int| i <= j < n ==> #[trigger] self.values@[j]
                        == old(self).values@[j],
                    forall|j: int| 0 <= j < i ==> #[trigger] self.values@[j]@
                        == (IndexedBranchV {
                        is_checked_out: j == old(self)@.cur,
                        ..old(self).values@[j]@
                    }),
                decreases n - i,
            {
                let checked = i == self.curr_index;
                self.values[i].set_is_checked_out(checked);
                i += 1;
            }
            proof {
                assert(self@.entries =~= checked_only_at(old(self)@.entries, old(self)@.cur));
            }
            Ok(())
        }
    }

    /// First phase of a merge: the local guard, run before any gateway call.
    /// Merging the checked-out branch into itself is rejected.
    pub fn merge_current(&self) -> (r: Result<String, GituiError>)
        requires
            0 <= self@.cur < self@.entries.len(),
        ensures
            self@.entries[self@.cur].is_checked_out ==> (r matches Err(e) && e@
                == GituiErrorV::BranchMerge("cant merge branch"@)),
            !self@.entries[self@.cur].is_checked_out ==> (r matches Ok(n) && n@ == trimmed(
                self@.entries[self@.cur].name,
            )),
    {
        let b = &self.values[self.curr_index];
        if b.is_checked_out {
            Err(GituiError::BranchMerge(String::from_str("cant merge branch")))
        } else {
            Ok(trim_ends(b.name.as_str()))
        }
    }

    /// Second phase of a merge: classify the gateway's captured output. A
    /// successful merge does not change any checked-out flag.
    pub fn apply_merge_output(&self, output: &str) -> (r: Result<(), GituiError>)
        ensures
            is_failure_output(output@) ==> (r matches Err(e) && e@ == GituiErrorV::BranchMerge(
                "failed to merge branch. output: "@ + output@,
            )),
            !is_failure_output(output@) ==> r is Ok,
    {
        if str_has_substring(output, "error:") {
            let mut msg = String::from_str("failed to merge branch. output: ");
            msg.append(output);
            Err(GituiError::BranchMerge(msg))
        } else {
            Ok(())
        }
    }

    /// Drop the checked-out flag of every branch whose name differs from
    /// `name`; branches sharing that name keep their flag.
    pub fn uncheckout_all_except(&mut self, name: String)
        ensures
            final(self)@.cur == old(self)@.cur,
            final(self)@.entries.len() == old(self)@.entries.len(),
            forall|i: int| 0 <= i < old(self)@.entries.len()
                ==> #[trigger] final(self)@.entries[i] == (IndexedBranchV {
                is_checked_out: old(self)@.entries[i].name == name@
                    && old(self)@.entries[i].is_checked_out,
                ..old(self)@.entries[i]
            }),
    {
        let n = self.values.len();
        let mut i: usize = 0;
        while i < n
            invariant
                i <= n,
                n == self.values@.len(),
                self.curr_index == old(self).curr_index,
                forall|j: int| i <= j < n ==> #[trigger] self.values@[j]
                    == old(self).values@[j],
                forall|j: int| 0 <= j < i ==> #[trigger] self.values@[j]@
                    == (IndexedBranchV {
                    is_checked_out: old(self).values@[j]@.name == name@
                        && old(self).values@[j]@.is_checked_out,
                    ..old(self).values@[j]@
                }),
            decreases n - i,
        {
            if name != self.values[i].name {
                self.values[i].set_is_checked_out(false);
            }
            i += 1;
        }
    }

    /// The registry as a navigable list: display names paired with positions,
    /// the selection carried over.
    pub fn to_scrollable(&self) -> (r: Scrollable)
        ensures
            r@.items == display_items(self@.entries),
            r@.sel == self@.cur,
    {
        let mut items: Vec<(String, Index)> = Vec::new();
        let mut i: usize = 0;
        while i < self.values.len()
            invariant
                i <= self.values.len(),
                self@.entries.len() == self.values@.len(),
                crate::scroll::items_view(items@) == display_items(self@.entries).take(i as int),
            decreases self.values.len() - i,
        {
            let ghost old_items = items@;
            let label = self.values[i].get_display_name();
            let idx = self.values[i].index;
            items.push((label, Index(idx)));
            proof {
                assert(crate::scroll::items_view(items@) =~= crate::scroll::items_view(
                    old_items,
                ).push(display_items(self@.entries)[i as int]));
                assert(display_items(self@.entries).take(i + 1) =~= display_items(
                    self@.entries,
                ).take(i as int).push(display_items(self@.entries)[i as int]));
            }
            i += 1;
        }
        proof {
            assert(display_items(self@.entries).take(self.values@.len() as int) =~= display_items(
                self@.entries,
            ));
        }
        Scrollable::new(items, Some(self.curr_index))
    }

    /// One navigation key on the branch list: step through the name-filtered
    /// view, commit the reached branch's position as the new selection, and
    /// report whether the step hit the filtered boundary.
    pub fn nav_filtered(&mut self, query: &str, forward: bool) -> (boundary: bool)
        requires
            forall|i: int| 0 <= i < old(self)@.entries.len()
                ==> 0 <= (#[trigger] old(self)@.entries[i]).index < old(self)@.entries.len(),
        ensures
            final(self)@.entries == old(self)@.entries,
            final(self)@.cur == branch_nav_view(
                old(self)@.entries,
                old(self)@.cur,
                query@,
                forward,
            ).0,
            boundary == branch_nav_view(old(self)@.entries, old(self)@.cur, query@, forward).1,
    {
        let mut sc = self.filtered(query).to_scrollable();
        let ghost f = name_filter(self@.entries, query@);
        let stepped = if forward {
            sc.next()
        } else {
            sc.prev()
        };
        match stepped {
            Some((_, Index(t))) => {
                proof {
                    lemma_name_filter_element(self@.entries, query@, sc@.sel);
                }
                self.select_from_index(t);
                if forward {
                    sc.is_last()
                } else {
                    sc.is_first()
                }
            },
            None => true,
        }
    }

    /// Leaving search capture on the branch list: reset the selection, then
    /// commit the first branch matching `query`, if any.
    pub fn commit_first_match(&mut self, query: &str)
        requires
            forall|i: int| 0 <= i < old(self)@.entries.len()
                ==> 0 <= (#[trigger] old(self)@.entries[i]).index < old(self)@.entries.len(),
        ensures
            final(self)@.entries == old(self)@.entries,
            final(self)@.cur == branch_first_match(old(self)@.entries, query@),
    {
        self.reset_index();
        let f = self.filtered(query);
        if f.values.len() > 0 {
            proof {
                lemma_name_filter_element(self@.entries, query@, 0);
            }
            let t = f.values[0].index;
            self.select_from_index(t);
        }
    }
}

} // verus!
