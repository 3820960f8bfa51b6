use vstd::prelude::*;

verus! {

/// An entry of depth `depth` closes its block when the next entry is
/// shallower, or when there is none.
pub open spec fn closes_block(depth: nat, next_depth: Option<usize>) -> bool {
    match next_depth {
        Some(nd) => nd < depth,
        None => true,
    }
}

/// The ancestor stack cut or extended to `depth` slots; new slots say
/// "has more".
pub open spec fn fit_stack(s: Seq<bool>, depth: nat) -> Seq<bool> {
    Seq::new(depth, |k: int| if k < s.len() { s[k] } else { true })
}

/// The ancestor stack after an entry of depth `depth`.
pub open spec fn stack_after(s: Seq<bool>, depth: nat, next_depth: Option<usize>) -> Seq<bool> {
    if depth == 0 {
        Seq::empty()
    } else {
        fit_stack(s, depth).update(depth - 1, !closes_block(depth, next_depth))
    }
}

/// The "is last" flags of an entry of depth `depth`, one per level: those of
/// its ancestors come from the stack, its own from the next depth.
pub open spec fn flags_for(s: Seq<bool>, depth: nat, next_depth: Option<usize>) -> Seq<bool> {
    Seq::new(
        depth,
        |k: int|
            if k == depth - 1 {
                closes_block(depth, next_depth)
            } else {
                !fit_stack(s, depth)[k]
            },
    )
}

/// Per-level "has more" state of the ancestors of the entry being rendered,
/// kept in a single pass over the entries with a one-entry lookahead.
pub struct AncestorTracker {
    has_more: Vec<bool>,
}

impl AncestorTracker {
    pub closed spec fn view(&self) -> Seq<bool> {
        self.has_more@
    }

    /// A tracker before the first entry.
    pub fn new() -> (r: AncestorTracker)
        ensures
            r.view() == Seq::<bool>::empty(),
    {
        AncestorTracker { has_more: Vec::new() }
    }

    /// Takes the next entry, of depth `depth`, given the depth of the entry
    /// after it, and returns that entry's "is last" flags, one per level.
    pub fn step(&mut self, depth: usize, next_depth: Option<usize>) -> (is_last: Vec<bool>)
        ensures
            is_last@ == flags_for(old(self).view(), depth as nat, next_depth),
            final(self).view() == stack_after(old(self).view(), depth as nat, next_depth),
    {
        let ghost s0 = self.has_more@;
        if depth < self.has_more.len() {
            self.has_more.truncate(depth);
        } else {
            while self.has_more.len() < depth
                invariant
                    s0.len() <= self.has_more@.len() <= depth,
                    forall|k: int|
                        0 <= k < self.has_more@.len() ==> self.has_more@[k] == fit_stack(
                            s0,
                            depth as nat,
                        )[k],
                decreases depth - self.has_more@.len(),
            {
                self.has_more.push(true);
            }
        }
        assert(self.has_more@ =~= fit_stack(s0, depth as nat));
        let current_is_last = match next_depth {
            Some(nd) => nd < depth,
            None => true,
        };
        let mut is_last: Vec<bool> = Vec::new();
        let mut i: usize = 0;
        while i < depth
            invariant
                i <= depth,
                self.has_more@ == fit_stack(s0, depth as nat),
                current_is_last == closes_block(depth as nat, next_depth),
                is_last@ =~= flags_for(s0, depth as nat, next_depth).subrange(0, i as int),
            decreases depth - i,
        {
            if i + 1 == depth {
                is_last.push(current_is_last);
            } else {
                is_last.push(!self.has_more[i]);
            }
            i = i + 1;
        }
        if depth > 0 {
            self.has_more.set(depth - 1, !current_is_last);
        }
        assert(self.has_more@ =~= stack_after(s0, depth as nat, next_depth));
        assert(is_last@ =~= flags_for(s0, depth as nat, next_depth));
        is_last
    }
}

/// In a sequence of depths, entry `i` is the last of its block when the
/// entry after it is shallower, or when it has none.
pub open spec fn last_in_block(ds: Seq<nat>, i: int) -> bool {
    i + 1 >= ds.len() || ds[i + 1] < ds[i]
}

/// The depth of the entry after `i`, if any.
pub open spec fn next_of(ds: Seq<nat>, i: int) -> Option<usize> {
    if i + 1 < ds.len() {
        Some(ds[i + 1] as usize)
    } else {
        None
    }
}

/// Whether, once the entries before `i` are drawn, level `k` (counted from
/// 0) still has entries to come: the nearest earlier entry that is not deeper
/// than level `k + 1` decides; one at exactly that depth says so unless it
/// closed its block, a shallower one (or none) leaves the level fresh.
pub open spec fn level_open(ds: Seq<nat>, i: int, k: int) -> bool
    decreases i,
{
    if i <= 0 || i > ds.len() {
        true
    } else if k == ds[i - 1] - 1 {
        !last_in_block(ds, i - 1)
    } else if k >= ds[i - 1] {
        true
    } else {
        level_open(ds, i - 1, k)
    }
}

/// The "is last" flags of entry `i`, one per level: its ancestors' come
/// from the entries before it, its own from the entry after it.
pub open spec fn flags_of(ds: Seq<nat>, i: int) -> Seq<bool> {
    Seq::new(
        ds[i],
        |k: int|
            if k == ds[i] - 1 {
                last_in_block(ds, i)
            } else {
                !level_open(ds, i, k)
            },
    )
}

/// The tracker's state once the entries before `i` are taken, in closed form.
pub open spec fn tracker_state(ds: Seq<nat>, i: int) -> Seq<bool> {
    if i <= 0 {
        Seq::empty()
    } else {
        Seq::new(ds[i - 1], |k: int| level_open(ds, i, k))
    }
}

/// Taking one more entry moves the tracker from its closed-form state
/// before that entry to the one after it, and yields the entry's flags.
pub proof fn lemma_step_closed_form(ds: Seq<nat>, i: int)
    requires
        0 <= i < ds.len(),
        i + 1 < ds.len() ==> ds[i + 1] <= usize::MAX,
    ensures
        flags_for(tracker_state(ds, i), ds[i], next_of(ds, i)) == flags_of(ds, i),
        stack_after(tracker_state(ds, i), ds[i], next_of(ds, i)) == tracker_state(ds, i + 1),
{
    let s = tracker_state(ds, i);
    assert(closes_block(ds[i], next_of(ds, i)) == last_in_block(ds, i));
    assert forall|k: int| 0 <= k < ds[i] implies fit_stack(s, ds[i])[k] == level_open(
        ds,
        i,
        k,
    ) by {
        if i > 0 && k >= ds[i - 1] {
            assert(level_open(ds, i, k));
        }
    }
    assert(flags_for(s, ds[i], next_of(ds, i)) =~= flags_of(ds, i));
    if ds[i] == 0 {
        assert(stack_after(s, ds[i], next_of(ds, i)) =~= tracker_state(ds, i + 1));
    } else {
        assert forall|k: int| 0 <= k < ds[i] implies stack_after(s, ds[i], next_of(ds, i))[k]
            == tracker_state(ds, i + 1)[k] by {
            if k < ds[i] - 1 {
                assert(level_open(ds, i + 1, k) == level_open(ds, i, k));
            }
        }
        assert(stack_after(s, ds[i], next_of(ds, i)) =~= tracker_state(ds, i + 1));
    }
}

/// Level `a` (counted from 1) still has an entry to come after entry `i`:
/// a later entry of depth `a` with nothing shallower than `a` before it.
pub open spec fn pending_at(ds: Seq<nat>, i: int, a: int) -> bool {
    exists|j: int|
        #![trigger ds[j]]
        i < j < ds.len() && ds[j] == a && forall|k: int| i < k < j ==> ds[k] >= a
}

/// The "is last" flags of entry `i` as seen over the whole sequence, one per
/// level: an ancestor level is last when no sibling of that ancestor is
/// still to come; the entry's own level when the entry after it is
/// shallower, or when it has none.
pub open spec fn sibling_flags(ds: Seq<nat>, i: int) -> Seq<bool> {
    Seq::new(
        ds[i],
        |k: int|
            if k == ds[i] - 1 {
                last_in_block(ds, i)
            } else {
                !pending_at(ds, i, k + 1)
            },
    )
}

/// "Is last" at an entry's own level means: no later entry at that depth or
/// deeper comes before one that is shallower.
pub open spec fn no_later_in_block(ds: Seq<nat>, i: int) -> bool {
    !exists|j: int|
        i < j < ds.len() && ds[j] >= ds[i] && forall|m: int| i < m < j ==> ds[m] >= ds[i]
}

/// The own-level flag, which both the streaming tracker and the whole-sequence
/// map draw from one entry of lookahead, is exactly "no later entry of the
/// same depth or deeper before a shallower one".
pub proof fn lemma_last_flag_correct(ds: Seq<nat>, i: int)
    requires
        0 <= i < ds.len(),
        ds[i] >= 1,
    ensures
        flags_of(ds, i)[ds[i] - 1] <==> no_later_in_block(ds, i),
        sibling_flags(ds, i)[ds[i] - 1] <==> no_later_in_block(ds, i),
{
    if i + 1 < ds.len() && ds[i + 1] >= ds[i] {
        assert(forall|m: int| i < m < i + 1 ==> ds[m] >= ds[i]);
    }
    if last_in_block(ds, i) {
        assert forall|j: int|
            i < j < ds.len() && ds[j] >= ds[i] implies !(forall|m: int|
            i < m < j ==> ds[m] >= ds[i]) by {
            assert(j != i + 1);
            assert(!(ds[i + 1] >= ds[i]));
        }
    }
}

} // verus!
