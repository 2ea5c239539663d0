use vstd::prelude::*;
use vstd::multiset::Multiset;
use crate::rows::{
    ContextDocument, Folder, FrameworkCategoryRow, FrameworkDefRow, FrameworkOutput, SavedPromptRow,
    SearchResult,
};
use crate::text::{chars_le, chars_le_total, chars_le_trans};

verus! {

/// The total preorder a listing sorts its rows by.
pub trait RowOrd: Sized {
    spec fn le(self, other: Self) -> bool;

    proof fn le_total(a: Self, b: Self)
        ensures
            a.le(b) || b.le(a),
    ;

    proof fn le_trans(a: Self, b: Self, c: Self)
        requires
            a.le(b),
            b.le(c),
        ensures
            a.le(c),
    ;

    fn le_exec(&self, other: &Self) -> (r: bool)
        ensures
            r == self.le(*other),
    ;
}

/// Whether the sequence is ordered by the type's listing order.
pub open spec fn ord_sorted<T: RowOrd>(s: Seq<T>) -> bool {
    forall|i: int, j: int| 0 <= i < j < s.len() ==> #[trigger] s[i].le(s[j])
}

/// Places one row into an already ordered vector, keeping it ordered.
fn insert_sorted<T: RowOrd>(out: &mut Vec<T>, x: T)
    requires
        ord_sorted(old(out)@),
    ensures
        ord_sorted(final(out)@),
        final(out)@.to_multiset() == old(out)@.to_multiset().insert(x),
{
    broadcast use vstd::seq_lib::group_to_multiset_ensures;

    let ghost orig = out@;
    let mut j: usize = 0;
    loop
        invariant
            out@ == orig,
            ord_sorted(out@),
            j <= out@.len(),
            forall|k: int| 0 <= k < j ==> #[trigger] out@[k].le(x),
        ensures
            out@ == orig,
            j <= orig.len(),
            forall|k: int| 0 <= k < j ==> #[trigger] orig[k].le(x),
            j < orig.len() ==> !orig[j as int].le(x),
        decreases out@.len() - j,
    {
        if j >= out.len() {
            break ;
        }
        let keep_going = out[j].le_exec(&x);
        if !keep_going {
            break ;
        }
        j = j + 1;
    }
    proof {
        if (j as int) < orig.len() {
            T::le_total(orig[j as int], x);
            assert(x.le(orig[j as int]));
        }
    }
    out.insert(j, x);
    proof {
        assert forall|p: int, q: int| 0 <= p < q < out@.len() implies #[trigger] out@[p].le(
            out@[q],
        ) by {
            if q < j {
                assert(orig[p].le(orig[q]));
            } else if p < j && q == j {
                assert(orig[p].le(x));
            } else if p == j && q > j {
                assert(x.le(orig[j as int]));
                if q - 1 > j {
                    assert(orig[j as int].le(orig[q - 1]));
                    T::le_trans(x, orig[j as int], orig[q - 1]);
                }
            } else if p < j && q > j {
                assert(orig[p].le(orig[q - 1]));
            } else {
                assert(p > j && q > j);
                assert(orig[p - 1].le(orig[q - 1]));
            }
        }
        vstd::seq_lib::to_multiset_insert(orig, j as int, x);
        assert(out@.to_multiset() == orig.to_multiset().insert(x));
    }
}

/// Sorts rows by the type's listing order; the result holds exactly the
/// given rows, as a multiset, in that order.
pub fn sort_rows<T: RowOrd>(v: Vec<T>) -> (r: Vec<T>)
    ensures
        ord_sorted(r@),
        r@.to_multiset() == v@.to_multiset(),
{
    broadcast use vstd::seq_lib::group_to_multiset_ensures;

    let ghost all = v@;
    let mut rest = v;
    let mut out: Vec<T> = Vec::new();
    proof {
        assert(out@.to_multiset().add(rest@.to_multiset()) =~= all.to_multiset());
    }
    loop
        invariant
            ord_sorted(out@),
            out@.to_multiset().add(rest@.to_multiset()) == all.to_multiset(),
        ensures
            ord_sorted(out@),
            out@.to_multiset().add(rest@.to_multiset()) == all.to_multiset(),
            rest@.len() == 0,
        decreases rest@.len(),
    {
        let ghost prev_rest = rest@;
        let ghost prev_out = out@;
        match rest.pop() {
            None => {
                break ;
            },
            Some(x) => {
                insert_sorted(&mut out, x);
                proof {
                    assert(prev_rest =~= rest@.push(x));
                    vstd::seq_lib::to_multiset_build(rest@, x);
                    assert(out@.to_multiset().add(rest@.to_multiset()) =~= all.to_multiset());
                }
            },
        }
    }
    proof {
        broadcast use vstd::multiset::group_multiset_axioms;

        assert(rest@.to_multiset() =~= Multiset::empty()) by {
            vstd::seq_lib::to_multiset_len(rest@);
            assert(rest@.to_multiset().len() == 0);
            assert forall|a: T| rest@.to_multiset().count(a) == 0 by {
                vstd::multiset::axiom_count_le_len(rest@.to_multiset(), a);
            }
        }
        assert(out@.to_multiset() =~= all.to_multiset());
    }
    out
}

impl RowOrd for FrameworkCategoryRow {
    open spec fn le(self, other: Self) -> bool {
        self.sort_order <= other.sort_order
    }

    proof fn le_total(a: Self, b: Self) {
    }

    proof fn le_trans(a: Self, b: Self, c: Self) {
    }

    fn le_exec(&self, other: &Self) -> bool {
        self.sort_order <= other.sort_order
    }
}

impl RowOrd for FrameworkDefRow {
    open spec fn le(self, other: Self) -> bool {
        self.sort_order <= other.sort_order
    }

    proof fn le_total(a: Self, b: Self) {
    }

    proof fn le_trans(a: Self, b: Self, c: Self) {
    }

    fn le_exec(&self, other: &Self) -> bool {
        self.sort_order <= other.sort_order
    }
}

impl RowOrd for SavedPromptRow {
    open spec fn le(self, other: Self) -> bool {
        self.sort_order < other.sort_order || (self.sort_order == other.sort_order && chars_le(
            self.name@,
            other.name@,
        ))
    }

    proof fn le_total(a: Self, b: Self) {
        chars_le_total(a.name@, b.name@);
    }

    proof fn le_trans(a: Self, b: Self, c: Self) {
        if a.sort_order == b.sort_order && b.sort_order == c.sort_order {
            chars_le_trans(a.name@, b.name@, c.name@);
        }
    }

    fn le_exec(&self, other: &Self) -> bool {
        self.sort_order < other.sort_order || (self.sort_order == other.sort_order
            && crate::text::str_le(self.name.as_str(), other.name.as_str()))
    }
}

impl RowOrd for Folder {
    open spec fn le(self, other: Self) -> bool {
        self.sort_order < other.sort_order || (self.sort_order == other.sort_order && chars_le(
            self.name@,
            other.name@,
        ))
    }

    proof fn le_total(a: Self, b: Self) {
        chars_le_total(a.name@, b.name@);
    }

    proof fn le_trans(a: Self, b: Self, c: Self) {
        if a.sort_order == b.sort_order && b.sort_order == c.sort_order {
            chars_le_trans(a.name@, b.name@, c.name@);
        }
    }

    fn le_exec(&self, other: &Self) -> bool {
        self.sort_order < other.sort_order || (self.sort_order == other.sort_order
            && crate::text::str_le(self.name.as_str(), other.name.as_str()))
    }
}

impl RowOrd for SearchResult {
    open spec fn le(self, other: Self) -> bool {
        chars_le(self.name@, other.name@)
    }

    proof fn le_total(a: Self, b: Self) {
        chars_le_total(a.name@, b.name@);
    }

    proof fn le_trans(a: Self, b: Self, c: Self) {
        chars_le_trans(a.name@, b.name@, c.name@);
    }

    fn le_exec(&self, other: &Self) -> bool {
        crate::text::str_le(self.name.as_str(), other.name.as_str())
    }
}

impl RowOrd for ContextDocument {
    open spec fn le(self, other: Self) -> bool {
        self.sort_order < other.sort_order || (self.sort_order == other.sort_order
            && self.created_at >= other.created_at)
    }

    proof fn le_total(a: Self, b: Self) {
    }

    proof fn le_trans(a: Self, b: Self, c: Self) {
    }

    fn le_exec(&self, other: &Self) -> bool {
        self.sort_order < other.sort_order || (self.sort_order == other.sort_order
            && self.created_at >= other.created_at)
    }
}

impl RowOrd for FrameworkOutput {
    open spec fn le(self, other: Self) -> bool {
        self.sort_order < other.sort_order || (self.sort_order == other.sort_order
            && self.updated_at >= other.updated_at)
    }

    proof fn le_total(a: Self, b: Self) {
    }

    proof fn le_trans(a: Self, b: Self, c: Self) {
    }

    fn le_exec(&self, other: &Self) -> bool {
        self.sort_order < other.sort_order || (self.sort_order == other.sort_order
            && self.updated_at >= other.updated_at)
    }
}

} // verus!
