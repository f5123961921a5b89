use vstd::prelude::*;
use vstd::assert_multisets_equal;
use vstd::multiset::Multiset;

use crate::models::{
    JournalEntry, Project, ProjectActivity, ProjectAttachment, ProjectLink, ProjectTodo,
};

verus! {

/// A total preorder used to present stored rows in their listing order.
pub trait StoreOrd: Sized {
    /// `self` may come before `other` in a listing.
    spec fn le(self, other: Self) -> bool;

    proof fn le_total(a: Self, b: Self)
        ensures
            a.le(b) || b.le(a),
    ;

    proof fn le_trans(a: Self, b: Self, c: Self)
        requires
            a.le(b),
            b.le(c),
        ensures
            a.le(c),
    ;

    fn le_exec(&self, other: &Self) -> (r: bool)
        ensures
            r == self.le(*other),
    ;
}

/// Every element is `le` every later element.
pub open spec fn seq_sorted<T: StoreOrd>(s: Seq<T>) -> bool {
    forall|i: int, j: int| 0 <= i < j < s.len() ==> #[trigger] s[i].le(#[trigger] s[j])
}

fn insert_sorted<T: StoreOrd>(out: &mut Vec<T>, x: T)
    requires
        seq_sorted(old(out)@),
    ensures
        seq_sorted(final(out)@),
        final(out)@.to_multiset() == old(out)@.to_multiset().insert(x),
        final(out)@.len() == old(out)@.len() + 1,
{
    broadcast use vstd::seq_lib::group_to_multiset_ensures;
    broadcast use vstd::multiset::group_multiset_axioms;
    broadcast use vstd::multiset::group_multiset_properties;

    let mut j: usize = 0;
    while j < out.len() && out[j].le_exec(&x)
        invariant
            j <= out@.len(),
            forall|k: int| 0 <= k < j ==> #[trigger] out@[k].le(x),
            seq_sorted(out@),
            out@ == old(out)@,
        decreases out@.len() - j,
    {
        j = j + 1;
    }
    proof {
        if (j as int) < out@.len() {
            T::le_total(out@[j as int], x);
        }
        assert forall|k: int| j <= k < out@.len() implies x.le(#[trigger] out@[k]) by {
            if (j as int) < k {
                T::le_trans(x, out@[j as int], out@[k]);
            }
        }
    }
    let ghost pre = out@;
    out.insert(j, x);
    proof {
        assert forall|a: int, b: int| 0 <= a < b < out@.len() implies #[trigger] out@[a].le(
            #[trigger] out@[b],
        ) by {
            let ji = j as int;
            if a < ji && b < ji {
                assert(out@[a] == pre[a] && out@[b] == pre[b]);
            } else if a < ji && b == ji {
                assert(out@[a] == pre[a]);
            } else if a < ji && b > ji {
                assert(out@[a] == pre[a] && out@[b] == pre[b - 1]);
            } else if a == ji && b > ji {
                assert(out@[b] == pre[b - 1]);
            } else if a > ji && b > ji {
                assert(out@[a] == pre[a - 1] && out@[b] == pre[b - 1]);
            }
        }
    }
}

/// Sorts rows into listing order: the result holds exactly the input rows,
/// arranged so that every row is `le` every later row.
pub fn sort_rows<T: StoreOrd>(v: Vec<T>) -> (r: Vec<T>)
    ensures
        r@.to_multiset() == v@.to_multiset(),
        r@.len() == v@.len(),
        seq_sorted(r@),
{
    broadcast use vstd::seq_lib::group_to_multiset_ensures;
    broadcast use vstd::multiset::group_multiset_axioms;
    broadcast use vstd::multiset::group_multiset_properties;

    let mut src = v;
    let ghost orig = src@;
    let mut out: Vec<T> = Vec::new();
    proof {
        assert(out@.to_multiset() =~= Multiset::<T>::empty());
    }
    while src.len() > 0
        invariant
            out@.to_multiset().add(src@.to_multiset()) == orig.to_multiset(),
            out@.len() + src@.len() == orig.len(),
            seq_sorted(out@),
        decreases src@.len(),
    {
        let ghost pre_src = src@;
        let ghost pre_out = out@;
        let x = src.remove(0);
        insert_sorted(&mut out, x);
        proof {
            assert(pre_src.remove(0) == src@);
            assert(pre_src.contains(x)) by {
                assert(pre_src[0] == x);
            }
            vstd::seq_lib::to_multiset_remove(pre_src, 0);
            vstd::seq_lib::to_multiset_contains(pre_src, x);
            assert(src@.to_multiset() == pre_src.to_multiset().remove(x));
            assert(pre_src.to_multiset().count(x) > 0);
            assert_multisets_equal!(
                out@.to_multiset().add(src@.to_multiset()),
                pre_out.to_multiset().add(pre_src.to_multiset()),
            );
        }
    }
    proof {
        assert(src@.to_multiset() =~= Multiset::<T>::empty());
        assert(out@.to_multiset() =~= out@.to_multiset().add(src@.to_multiset()));
    }
    out
}

/// The listing order of projects: pinned rows first, pinned rows ascending by
/// their manual order, unpinned rows descending by their last update time.
pub open spec fn project_le(a: Project, b: Project) -> bool {
    if a.is_pinned != b.is_pinned {
        a.is_pinned
    } else if a.is_pinned {
        a.pinned_order < b.pinned_order || (a.pinned_order == b.pinned_order && a.updated_at
            >= b.updated_at)
    } else {
        a.updated_at >= b.updated_at
    }
}

impl StoreOrd for Project {
    open spec fn le(self, other: Self) -> bool {
        project_le(self, other)
    }

    proof fn le_total(a: Self, b: Self) {
    }

    proof fn le_trans(a: Self, b: Self, c: Self) {
    }

    fn le_exec(&self, other: &Self) -> (r: bool) {
        if self.is_pinned != other.is_pinned {
            self.is_pinned
        } else if self.is_pinned {
            self.pinned_order < other.pinned_order || (self.pinned_order == other.pinned_order
                && self.updated_at >= other.updated_at)
        } else {
            self.updated_at >= other.updated_at
        }
    }
}

impl StoreOrd for ProjectLink {
    open spec fn le(self, other: Self) -> bool {
        self.created_at >= other.created_at
    }

    proof fn le_total(a: Self, b: Self) {
    }

    proof fn le_trans(a: Self, b: Self, c: Self) {
    }

    fn le_exec(&self, other: &Self) -> (r: bool) {
        self.created_at >= other.created_at
    }
}

impl StoreOrd for ProjectAttachment {
    open spec fn le(self, other: Self) -> bool {
        self.created_at >= other.created_at
    }

    proof fn le_total(a: Self, b: Self) {
    }

    proof fn le_trans(a: Self, b: Self, c: Self) {
    }

    fn le_exec(&self, other: &Self) -> (r: bool) {
        self.created_at >= other.created_at
    }
}

impl StoreOrd for JournalEntry {
    open spec fn le(self, other: Self) -> bool {
        self.created_at >= other.created_at
    }

    proof fn le_total(a: Self, b: Self) {
    }

    proof fn le_trans(a: Self, b: Self, c: Self) {
    }

    fn le_exec(&self, other: &Self) -> (r: bool) {
        self.created_at >= other.created_at
    }
}

impl StoreOrd for ProjectTodo {
    open spec fn le(self, other: Self) -> bool {
        self.created_at >= other.created_at
    }

    proof fn le_total(a: Self, b: Self) {
    }

    proof fn le_trans(a: Self, b: Self, c: Self) {
    }

    fn le_exec(&self, other: &Self) -> (r: bool) {
        self.created_at >= other.created_at
    }
}

impl StoreOrd for ProjectActivity {
    open spec fn le(self, other: Self) -> bool {
        self.created_at >= other.created_at
    }

    proof fn le_total(a: Self, b: Self) {
    }

    proof fn le_trans(a: Self, b: Self, c: Self) {
    }

    fn le_exec(&self, other: &Self) -> (r: bool) {
        self.created_at >= other.created_at
    }
}

} // verus!
