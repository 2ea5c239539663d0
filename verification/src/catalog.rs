use vstd::prelude::*;
use crate::error::StoreError;
use crate::order::{ord_sorted, sort_rows};
use crate::rows::FrameworkCategoryRow;
use crate::store::{clone_vec, find_key, has_key, key_idx, keys_unique, lemma_key_idx, Keyed,
    Workspace};
use crate::text::{slug_of, slugify, str_eq};

verus! {

/// The greatest `sort_order` among all categories, -1 of an empty table.
pub open spec fn max_cat_order(s: Seq<FrameworkCategoryRow>) -> int
    decreases s.len(),
{
    if s.len() == 0 {
        -1
    } else {
        let m = max_cat_order(s.drop_last());
        if s.last().sort_order > m {
            s.last().sort_order as int
        } else {
            m
        }
    }
}

/// The `sort_order` a newly created row gets: one past the greatest in its
/// scope, saturating at the type's maximum.
pub open spec fn next_order(m: int) -> int {
    if m >= i32::MAX {
        i32::MAX as int
    } else {
        m + 1
    }
}

/// Law: after a successful delete, the id is unfetchable — no row of
/// the shrunk table carries it.
pub proof fn lemma_removed_key_gone<T: Keyed>(s: Seq<T>, id: Seq<char>)
    requires
        keys_unique(s),
        has_key(s, id),
    ensures
        !has_key(s.remove(key_idx(s, id)), id),
{
    let i = key_idx(s, id);
    if has_key(s.remove(i), id) {
        let j = choose|j: int|
            0 <= j < s.remove(i).len() && (#[trigger] s.remove(i)[j]).key() == id;
        let sj = if j < i {
            j
        } else {
            j + 1
        };
        assert(s.remove(i)[j] == s[sj]);
        assert(s[sj].key() != s[i].key());
    }
}

/// Uniqueness survives removing a row.
pub proof fn lemma_keys_unique_remove<T: Keyed>(s: Seq<T>, i: int)
    requires
        keys_unique(s),
        0 <= i < s.len(),
    ensures
        keys_unique(s.remove(i)),
{
    assert forall|p: int, q: int|
        0 <= p < q < s.remove(i).len() implies (#[trigger] s.remove(i)[p]).key() != (
    #[trigger] s.remove(i)[q]).key() by {
        let sp = if p < i {
            p
        } else {
            p + 1
        };
        let sq = if q < i {
            q
        } else {
            q + 1
        };
        assert(s.remove(i)[p] == s[sp]);
        assert(s.remove(i)[q] == s[sq]);
    }
}

/// Uniqueness survives appending a row with a fresh id.
pub proof fn lemma_keys_unique_push<T: Keyed>(s: Seq<T>, x: T)
    requires
        keys_unique(s),
        !has_key(s, x.key()),
    ensures
        keys_unique(s.push(x)),
{
    assert forall|p: int, q: int|
        0 <= p < q < s.push(x).len() implies (#[trigger] s.push(x)[p]).key() != (
    #[trigger] s.push(x)[q]).key() by {
        if q == s.len() {
            assert(s.push(x)[p] == s[p]);
            if s[p].key() == x.key() {
                assert(has_key(s, x.key()));
            }
        } else {
            assert(s.push(x)[p] == s[p]);
            assert(s.push(x)[q] == s[q]);
        }
    }
}

/// Uniqueness survives replacing a row, id kept.
pub proof fn lemma_keys_unique_update<T: Keyed>(s: Seq<T>, i: int, x: T)
    requires
        keys_unique(s),
        0 <= i < s.len(),
        x.key() == s[i].key(),
    ensures
        keys_unique(s.update(i, x)),
{
    assert forall|p: int, q: int|
        0 <= p < q < s.update(i, x).len() implies (#[trigger] s.update(i, x)[p]).key() != (
    #[trigger] s.update(i, x)[q]).key() by {
        assert(s[p].key() != s[q].key());
    }
}

/// The greatest `sort_order` among all categories, or -1.
fn max_order_categories(v: &Vec<FrameworkCategoryRow>) -> (r: i32)
    ensures
        r as int == max_cat_order(v@),
{
    let n = v.len();
    let mut m: i32 = -1;
    for i in 0..n
        invariant
            n == v@.len(),
            m as int == max_cat_order(v@.take(i as int)),
    {
        proof {
            assert(v@.take(i + 1).drop_last() =~= v@.take(i as int));
            assert(v@.take(i + 1).last() == v@[i as int]);
        }
        if v[i].sort_order > m {
            m = v[i].sort_order;
        }
    }
    proof {
        assert(v@.take(n as int) =~= v@);
    }
    m
}

impl Workspace {
    /// Nothing outside the category table changed.
    pub open spec fn same_but_categories(self, other: Workspace) -> bool {
        &&& self.defs@ == other.defs@
        &&& self.prompts@ == other.prompts@
        &&& self.folders@ == other.folders@
        &&& self.docs@ == other.docs@
        &&& self.outputs@ == other.outputs@
        &&& self.settings == other.settings
    }

    /// All categories, ordered by `sort_order`.
    pub fn list_framework_categories(&self) -> (r: Vec<FrameworkCategoryRow>)
        ensures
            r@.to_multiset() == self.categories@.to_multiset(),
            ord_sorted::<FrameworkCategoryRow>(r@),
    {
        sort_rows(clone_vec(&self.categories))
    }

    /// The category with the id, if it exists.
    pub fn get_framework_category(&self, id: &str) -> (r: Option<FrameworkCategoryRow>)
        requires
            self.wf(),
        ensures
            match r {
                Some(row) => has_key(self.categories@, id@) && row == self.categories@[key_idx(
                    self.categories@,
                    id@,
                )],
                None => !has_key(self.categories@, id@),
            },
    {
        match find_key(&self.categories, id) {
            Some(i) => {
                proof {
                    lemma_key_idx(self.categories@, id@, i as int);
                }
                Some(self.categories[i].clone())
            },
            None => None,
        }
    }

    /// Creates a custom category. Its id is the slug of the name; a slug
    /// that collides with an existing id is rejected. Its `sort_order` is
    /// one past the table's greatest.
    pub fn create_framework_category(
        &mut self,
        name: &str,
        description: &str,
        icon: &str,
        now: i64,
    ) -> (r: Result<FrameworkCategoryRow, StoreError>)
        requires
            old(self).wf(),
        ensures
            final(self).wf(),
            old(self).same_but_categories(*final(self)),
            match r {
                Ok(row) => {
                    &&& !has_key(old(self).categories@, slug_of(name@))
                    &&& final(self).categories@ == old(self).categories@.push(row)
                    &&& row.id@ == slug_of(name@)
                    &&& row.name@ == name@
                    &&& row.description@ == description@
                    &&& row.icon@ == icon@
                    &&& row.is_builtin == false
                    &&& row.sort_order as int == next_order(max_cat_order(old(self).categories@))
                    &&& row.created_at == now
                    &&& row.updated_at == now
                },
                Err(e) => {
                    &&& e == StoreError::DuplicateId
                    &&& has_key(old(self).categories@, slug_of(name@))
                    &&& *final(self) == *old(self)
                },
            },
    {
        let id = slugify(name);
        match find_key(&self.categories, id.as_str()) {
            Some(_) => Err(StoreError::DuplicateId),
            None => {
                let m = max_order_categories(&self.categories);
                let ord: i32 = if m == i32::MAX {
                    m
                } else {
                    m + 1
                };
                let row = FrameworkCategoryRow {
                    id,
                    name: String::from_str(name),
                    description: String::from_str(description),
                    icon: String::from_str(icon),
                    is_builtin: false,
                    sort_order: ord,
                    created_at: now,
                    updated_at: now,
                };
                let copy = row.clone();
                proof {
                    lemma_keys_unique_push(self.categories@, row);
                }
                self.categories.push(row);
                Ok(copy)
            },
        }
    }

    /// Rewrites a category's name, description and icon; `updated_at` is
    /// refreshed, everything else kept.
    pub fn update_framework_category(
        &mut self,
        id: &str,
        name: &str,
        description: &str,
        icon: &str,
        now: i64,
    ) -> (r: Result<FrameworkCategoryRow, StoreError>)
        requires
            old(self).wf(),
        ensures
            final(self).wf(),
            old(self).same_but_categories(*final(self)),
            match r {
                Ok(row) => {
                    &&& has_key(old(self).categories@, id@)
                    &&& {
                        let i = key_idx(old(self).categories@, id@);
                        let prev = old(self).categories@[i];
                        &&& final(self).categories@ == old(self).categories@.update(i, row)
                        &&& row.id@ == id@
                        &&& row.name@ == name@
                        &&& row.description@ == description@
                        &&& row.icon@ == icon@
                        &&& row.is_builtin == prev.is_builtin
                        &&& row.sort_order == prev.sort_order
                        &&& row.created_at == prev.created_at
                        &&& row.updated_at == now
                    }
                },
                Err(e) => {
                    &&& e == StoreError::NotFound
                    &&& !has_key(old(self).categories@, id@)
                    &&& *final(self) == *old(self)
                },
            },
    {
        match find_key(&self.categories, id) {
            None => Err(StoreError::NotFound),
            Some(i) => {
                proof {
                    lemma_key_idx(self.categories@, id@, i as int);
                }
                let prev = self.categories.remove(i);
                let row = FrameworkCategoryRow {
                    id: prev.id,
                    name: String::from_str(name),
                    description: String::from_str(description),
                    icon: String::from_str(icon),
                    is_builtin: prev.is_builtin,
                    sort_order: prev.sort_order,
                    created_at: prev.created_at,
                    updated_at: now,
                };
                let copy = row.clone();
                self.categories.insert(i, row);
                proof {
                    assert(self.categories@ =~= old(self).categories@.update(i as int, copy));
                    lemma_keys_unique_update(old(self).categories@, i as int, copy);
                }
                Ok(copy)
            },
        }
    }

    /// Deletes a category. A builtin category is protected, and so is any
    /// category that still has framework definitions attached.
    pub fn delete_framework_category(&mut self, id: &str) -> (r: Result<(), StoreError>)
        requires
            old(self).wf(),
        ensures
            final(self).wf(),
            old(self).same_but_categories(*final(self)),
            match r {
                Ok(()) => {
                    &&& has_key(old(self).categories@, id@)
                    &&& !old(self).categories@[key_idx(old(self).categories@, id@)].is_builtin
                    &&& forall|k: int|
                        0 <= k < old(self).defs@.len() ==> (#[trigger] old(
                            self,
                        ).defs@[k]).category@ != id@
                    &&& final(self).categories@ == old(self).categories@.remove(
                        key_idx(old(self).categories@, id@),
                    )
                },
                Err(e) => {
                    &&& *final(self) == *old(self)
                    &&& match e {
                        StoreError::NotFound => !has_key(old(self).categories@, id@),
                        StoreError::ProtectedEntity => has_key(old(self).categories@, id@)
                            && old(self).categories@[key_idx(
                            old(self).categories@,
                            id@,
                        )].is_builtin,
                        StoreError::CatalogNotEmpty => {
                            &&& has_key(old(self).categories@, id@)
                            &&& !old(self).categories@[key_idx(
                                old(self).categories@,
                                id@,
                            )].is_builtin
                            &&& exists|k: int|
                                0 <= k < old(self).defs@.len() && (#[trigger] old(
                                    self,
                                ).defs@[k]).category@ == id@
                        },
                        _ => false,
                    }
                },
            },
    {
        match find_key(&self.categories, id) {
            None => Err(StoreError::NotFound),
            Some(i) => {
                proof {
                    lemma_key_idx(self.categories@, id@, i as int);
                }
                if self.categories[i].is_builtin {
                    return Err(StoreError::ProtectedEntity);
                }
                let n = self.defs.len();
                for k in 0..n
                    invariant
                        *self == *old(self),
                        self.wf(),
                        n == self.defs@.len(),
                        i < self.categories@.len(),
                        has_key(self.categories@, id@),
                        key_idx(self.categories@, id@) == i as int,
                        !self.categories@[i as int].is_builtin,
                        forall|t: int| 0 <= t < k ==> (#[trigger] self.defs@[t]).category@ != id@,
                {
                    if str_eq(self.defs[k].category.as_str(), id) {
                        return Err(StoreError::CatalogNotEmpty);
                    }
                }
                proof {
                    lemma_keys_unique_remove(self.categories@, i as int);
                }
                self.categories.remove(i);
                Ok(())
            },
        }
    }
}

} // verus!
