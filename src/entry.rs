use vstd::prelude::*;

use crate::text::chars_of;

verus! {

/// The path separator placed between components.
pub open spec fn separator() -> char {
    '/'
}

/// A path below the scan root written out as text: each component preceded
/// by one separator, so that it can be appended to the root's own text.
pub open spec fn rel_text(comps: Seq<Seq<char>>) -> Seq<char>
    decreases comps.len(),
{
    if comps.len() == 0 {
        Seq::empty()
    } else {
        rel_text(comps.drop_last()) + seq![separator()] + comps.last()
    }
}

/// How many separators a text holds.
pub open spec fn separator_count(s: Seq<char>) -> nat
    decreases s.len(),
{
    if s.len() == 0 {
        0
    } else {
        separator_count(s.drop_last()) + if s.last() == separator() {
            1nat
        } else {
            0nat
        }
    }
}

/// One entry of a walk below a scan root.
#[derive(Debug)]
pub struct Entry {
    /// Path components below the scan root, outermost first; the last one is
    /// the entry's own name.
    pub components: Vec<String>,
    pub is_dir: bool,
    /// Byte length of a file, when its metadata could be read.
    pub size: Option<u64>,
}

impl Entry {
    /// The components as texts.
    pub open spec fn comps(&self) -> Seq<Seq<char>> {
        self.components@.map_values(|c: String| c@)
    }

    /// Number of components below the scan root (its direct children have 1).
    pub open spec fn depth_spec(&self) -> nat {
        self.components@.len()
    }

    /// The entry's own name: its last component.
    pub open spec fn name_spec(&self) -> Seq<char> {
        if self.components@.len() == 0 {
            Seq::empty()
        } else {
            self.components@.last()@
        }
    }

    /// A walk entry lies below the root, and each component is a non-empty
    /// name without a separator.
    pub open spec fn wf(&self) -> bool {
        &&& self.components@.len() >= 1
        &&& forall|i: int|
            0 <= i < self.components@.len() ==> {
                &&& (#[trigger] self.components@[i])@.len() > 0
                &&& !self.components@[i]@.contains(separator())
            }
    }

    pub fn depth(&self) -> (r: usize)
        ensures
            r == self.depth_spec(),
    {
        self.components.len()
    }

    /// The entry's own name (empty for the root itself).
    pub fn name(&self) -> (r: &str)
        ensures
            r@ == self.name_spec(),
    {
        if self.components.len() == 0 {
            proof {
                reveal_strlit("");
            }
            assert(""@ =~= Seq::<char>::empty());
            ""
        } else {
            self.components[self.components.len() - 1].as_str()
        }
    }

    /// The full path text of this entry below `root`. No separator is
    /// added after a root that is empty or already ends in one.
    pub fn path_text(&self, root: &str) -> (r: String)
        ensures
            r@ == path_join(root@, self.comps()),
    {
        let rc = chars_of(root);
        let closed = rc.len() == 0 || rc[rc.len() - 1] == '/';
        assert(closed == root_closed(root@));
        let mut r = String::from_str(root);
        let mut i: usize = 0;
        assert(self.comps().subrange(0, 0) =~= Seq::<Seq<char>>::empty());
        while i < self.components.len()
            invariant
                i <= self.components@.len(),
                closed == root_closed(root@),
                r@ == path_join(root@, self.comps().subrange(0, i as int)),
            decreases self.components@.len() - i,
        {
            let ghost before = r@;
            let ghost prev = self.comps().subrange(0, i as int);
            let ghost sub = self.comps().subrange(0, i + 1);
            proof {
                reveal_strlit("/");
                assert(sub.drop_last() =~= prev);
                assert(sub.last() == self.components@[i as int]@);
            }
            if i > 0 || !closed {
                r.append("/");
            }
            r.append(self.components[i].as_str());
            proof {
                if i == 0 && closed {
                    assert(prev =~= Seq::<Seq<char>>::empty());
                    assert(rel_text(sub) =~= seq![separator()] + sub.last());
                    assert(rel_text(sub).drop_first() =~= sub.last());
                    assert(r@ =~= path_join(root@, sub));
                } else if closed {
                    let rp = rel_text(prev);
                    assert(rp.len() > 0);
                    assert(rel_text(sub).drop_first() =~= rp.drop_first() + seq![separator()]
                        + sub.last());
                    assert(r@ =~= path_join(root@, sub));
                } else {
                    assert(r@ =~= path_join(root@, sub));
                }
            }
            i = i + 1;
        }
        assert(self.comps().subrange(0, self.components@.len() as int) =~= self.comps());
        r
    }
}

/// A root after which no separator is written: an empty one, or one that
/// already ends in a separator.
pub open spec fn root_closed(root: Seq<char>) -> bool {
    root.len() == 0 || root.last() == separator()
}

/// The path text of the components `comps` below `root`.
pub open spec fn path_join(root: Seq<char>, comps: Seq<Seq<char>>) -> Seq<char> {
    if comps.len() > 0 && root_closed(root) {
        root + rel_text(comps).drop_first()
    } else {
        root + rel_text(comps)
    }
}

proof fn lemma_separator_count_concat(a: Seq<char>, b: Seq<char>)
    ensures
        separator_count(a + b) == separator_count(a) + separator_count(b),
    decreases b.len(),
{
    if b.len() > 0 {
        assert((a + b).drop_last() =~= a + b.drop_last());
        lemma_separator_count_concat(a, b.drop_last());
    } else {
        assert(a + b =~= a);
    }
}

proof fn lemma_no_separator(s: Seq<char>)
    requires
        !s.contains(separator()),
    ensures
        separator_count(s) == 0,
    decreases s.len(),
{
    if s.len() > 0 {
        assert(s.drop_last().contains(separator()) ==> s.contains(separator()));
        lemma_no_separator(s.drop_last());
        assert(s.last() == s[s.len() - 1]);
    }
}

proof fn lemma_rel_text_separators(comps: Seq<Seq<char>>)
    requires
        forall|i: int| 0 <= i < comps.len() ==> !(#[trigger] comps[i]).contains(separator()),
    ensures
        separator_count(rel_text(comps)) == comps.len(),
    decreases comps.len(),
{
    if comps.len() > 0 {
        assert forall|i: int| 0 <= i < comps.drop_last().len() implies !(
        #[trigger] comps.drop_last()[i]).contains(separator()) by {
            assert(comps.drop_last()[i] == comps[i]);
        }
        lemma_rel_text_separators(comps.drop_last());
        lemma_separator_count_concat(rel_text(comps.drop_last()) + seq![separator()], comps.last());
        lemma_separator_count_concat(rel_text(comps.drop_last()), seq![separator()]);
        assert(seq![separator()].drop_last() =~= Seq::<char>::empty());
        assert(separator_count(Seq::<char>::empty()) == 0);
        assert(seq![separator()].last() == separator());
        assert(separator_count(seq![separator()]) == 1);
        assert(comps.last() == comps[comps.len() - 1]);
        lemma_no_separator(comps.last());
    }
}

/// The depth of a walk entry equals the number of separators between the
/// scan root and the entry in its path text.
pub proof fn lemma_depth_counts_separators(e: Entry)
    requires
        e.wf(),
    ensures
        separator_count(rel_text(e.comps())) == e.depth_spec(),
{
    assert forall|i: int| 0 <= i < e.comps().len() implies !(#[trigger] e.comps()[i]).contains(
        separator(),
    ) by {
        assert(e.comps()[i] == e.components@[i]@);
    }
    lemma_rel_text_separators(e.comps());
}

} // verus!
