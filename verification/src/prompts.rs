use vstd::prelude::*;
use crate::catalog::{lemma_keys_unique_push, lemma_keys_unique_remove, lemma_keys_unique_update,
    next_order};
use crate::error::StoreError;
use crate::order::{ord_sorted, sort_rows};
use crate::rows::{clone_opt_string, SavedPromptRow};
use crate::store::{find_key, fresh_uuid, has_key, key_idx, lemma_key_idx, Workspace};
use crate::text::{chars_le, chars_le_total, chars_le_trans, contains_like, like_match, str_eq,
    str_le};

verus! {

/// The view of an optional string argument.
pub open spec fn opt_view(o: Option<String>) -> Option<Seq<char>> {
    match o {
        Option::Some(s) => Option::Some(s@),
        Option::None => Option::None,
    }
}

/// Whether a prompt passes the optional category and framework filters.
pub open spec fn prompt_matches(
    p: SavedPromptRow,
    cat: Option<Seq<char>>,
    fid: Option<Seq<char>>,
) -> bool {
    &&& match cat {
        Option::Some(c) => p.category@ == c,
        Option::None => true,
    }
    &&& match fid {
        Option::Some(f) => match p.framework_id {
            Option::Some(pf) => pf@ == f,
            Option::None => false,
        },
        Option::None => true,
    }
}

/// The prompts that pass the optional filters, in table order.
pub open spec fn prompts_filtered(
    s: Seq<SavedPromptRow>,
    cat: Option<Seq<char>>,
    fid: Option<Seq<char>>,
) -> Seq<SavedPromptRow>
    decreases s.len(),
{
    if s.len() == 0 {
        s
    } else {
        let rest = prompts_filtered(s.drop_last(), cat, fid);
        if prompt_matches(s.last(), cat, fid) {
            rest.push(s.last())
        } else {
            rest
        }
    }
}

/// The prompts whose name, description or text contains the query,
/// case-insensitively, in table order.
pub open spec fn prompts_like(s: Seq<SavedPromptRow>, q: Seq<char>) -> Seq<SavedPromptRow>
    decreases s.len(),
{
    if s.len() == 0 {
        s
    } else {
        let rest = prompts_like(s.drop_last(), q);
        if like_match(s.last().name@, q) || like_match(s.last().description@, q) || like_match(
            s.last().prompt_text@,
            q,
        ) {
            rest.push(s.last())
        } else {
            rest
        }
    }
}

/// The greatest `sort_order` among the prompts of a category, or -1.
pub open spec fn max_prompt_order_in(s: Seq<SavedPromptRow>, cat: Seq<char>) -> int
    decreases s.len(),
{
    if s.len() == 0 {
        -1
    } else {
        let m = max_prompt_order_in(s.drop_last(), cat);
        if s.last().category@ == cat && s.last().sort_order > m {
            s.last().sort_order as int
        } else {
            m
        }
    }
}

/// The search listing's order: most used first, then by name.
pub open spec fn usage_le(a: SavedPromptRow, b: SavedPromptRow) -> bool {
    a.usage_count > b.usage_count || (a.usage_count == b.usage_count && chars_le(a.name@, b.name@))
}

/// Whether the sequence is in the search listing's order.
pub open spec fn usage_sorted(s: Seq<SavedPromptRow>) -> bool {
    forall|i: int, j: int| 0 <= i < j < s.len() ==> usage_le(#[trigger] s[i], #[trigger] s[j])
}

fn prompts_filtered_exec(
    v: &Vec<SavedPromptRow>,
    cat: &Option<String>,
    fid: &Option<String>,
) -> (r: Vec<SavedPromptRow>)
    ensures
        r@ == prompts_filtered(v@, opt_view(*cat), opt_view(*fid)),
{
    let n = v.len();
    let mut out: Vec<SavedPromptRow> = Vec::new();
    for i in 0..n
        invariant
            n == v@.len(),
            out@ == prompts_filtered(v@.take(i as int), opt_view(*cat), opt_view(*fid)),
    {
        proof {
            assert(v@.take(i + 1).drop_last() =~= v@.take(i as int));
            assert(v@.take(i + 1).last() == v@[i as int]);
        }
        let cat_ok = match cat {
            Some(c) => str_eq(v[i].category.as_str(), c.as_str()),
            None => true,
        };
        let fid_ok = match fid {
            Some(f) => match &v[i].framework_id {
                Some(pf) => str_eq(pf.as_str(), f.as_str()),
                None => false,
            },
            None => true,
        };
        if cat_ok && fid_ok {
            out.push(v[i].clone());
        }
    }
    proof {
        assert(v@.take(n as int) =~= v@);
    }
    out
}

fn prompts_like_exec(v: &Vec<SavedPromptRow>, q: &str) -> (r: Vec<SavedPromptRow>)
    ensures
        r@ == prompts_like(v@, q@),
{
    let n = v.len();
    let mut out: Vec<SavedPromptRow> = Vec::new();
    for i in 0..n
        invariant
            n == v@.len(),
            out@ == prompts_like(v@.take(i as int), q@),
    {
        proof {
            assert(v@.take(i + 1).drop_last() =~= v@.take(i as int));
            assert(v@.take(i + 1).last() == v@[i as int]);
        }
        let hit = contains_like(v[i].name.as_str(), q) || contains_like(
            v[i].description.as_str(),
            q,
        ) || contains_like(v[i].prompt_text.as_str(), q);
        if hit {
            out.push(v[i].clone());
        }
    }
    proof {
        assert(v@.take(n as int) =~= v@);
    }
    out
}

fn max_order_prompts_in(v: &Vec<SavedPromptRow>, cat: &str) -> (r: i32)
    ensures
        r as int == max_prompt_order_in(v@, cat@),
{
    let n = v.len();
    let mut m: i32 = -1;
    for i in 0..n
        invariant
            n == v@.len(),
            m as int == max_prompt_order_in(v@.take(i as int), cat@),
    {
        proof {
            assert(v@.take(i + 1).drop_last() =~= v@.take(i as int));
            assert(v@.take(i + 1).last() == v@[i as int]);
        }
        if str_eq(v[i].category.as_str(), cat) && v[i].sort_order > m {
            m = v[i].sort_order;
        }
    }
    proof {
        assert(v@.take(n as int) =~= v@);
    }
    m
}

/// Places one prompt into a vector ordered for search results.
fn insert_by_usage(out: &mut Vec<SavedPromptRow>, x: SavedPromptRow)
    requires
        usage_sorted(old(out)@),
    ensures
        usage_sorted(final(out)@),
        final(out)@.to_multiset() == old(out)@.to_multiset().insert(x),
{
    let ghost orig = out@;
    let mut j: usize = 0;
    loop
        invariant
            out@ == orig,
            usage_sorted(out@),
            j <= out@.len(),
            forall|k: int| 0 <= k < j ==> usage_le(#[trigger] out@[k], x),
        ensures
            out@ == orig,
            j <= orig.len(),
            forall|k: int| 0 <= k < j ==> usage_le(#[trigger] orig[k], x),
            j < orig.len() ==> !usage_le(orig[j as int], x),
        decreases out@.len() - j,
    {
        if j >= out.len() {
            break ;
        }
        let cur = &out[j];
        let le = cur.usage_count > x.usage_count || (cur.usage_count == x.usage_count && str_le(
            cur.name.as_str(),
            x.name.as_str(),
        ));
        if !le {
            break ;
        }
        j = j + 1;
    }
    proof {
        if (j as int) < orig.len() {
            chars_le_total(orig[j as int].name@, x.name@);
            assert(usage_le(x, orig[j as int]));
        }
    }
    out.insert(j, x);
    proof {
        assert forall|p: int, q: int| 0 <= p < q < out@.len() implies usage_le(
            #[trigger] out@[p],
            #[trigger] out@[q],
        ) by {
            if q < j {
                assert(usage_le(orig[p], orig[q]));
            } else if p < j && q == j {
                assert(usage_le(orig[p], x));
            } else if p == j && q > j {
                assert(usage_le(x, orig[j as int]));
                if q - 1 > j {
                    assert(usage_le(orig[j as int], orig[q - 1]));
                    if orig[j as int].usage_count == x.usage_count && orig[q - 1].usage_count
                        == x.usage_count {
                        chars_le_trans(x.name@, orig[j as int].name@, orig[q - 1].name@);
                    }
                }
            } else if p < j && q > j {
                assert(usage_le(orig[p], orig[q - 1]));
            } else {
                assert(p > j && q > j);
                assert(usage_le(orig[p - 1], orig[q - 1]));
            }
        }
        vstd::seq_lib::to_multiset_insert(orig, j as int, x);
    }
}

/// Sorts prompts for a search listing: most used first, ties by name.
fn sort_prompts_by_usage(v: Vec<SavedPromptRow>) -> (r: Vec<SavedPromptRow>)
    ensures
        usage_sorted(r@),
        r@.to_multiset() == v@.to_multiset(),
{
    broadcast use vstd::seq_lib::group_to_multiset_ensures;

    let ghost all = v@;
    let mut rest = v;
    let mut out: Vec<SavedPromptRow> = Vec::new();
    proof {
        assert(out@.to_multiset().add(rest@.to_multiset()) =~= all.to_multiset());
    }
    loop
        invariant
            usage_sorted(out@),
            out@.to_multiset().add(rest@.to_multiset()) == all.to_multiset(),
        ensures
            usage_sorted(out@),
            out@.to_multiset().add(rest@.to_multiset()) == all.to_multiset(),
            rest@.len() == 0,
        decreases rest@.len(),
    {
        let ghost prev_rest = rest@;
        match rest.pop() {
            None => {
                break ;
            },
            Some(x) => {
                insert_by_usage(&mut out, x);
                proof {
                    assert(prev_rest =~= rest@.push(x));
                    vstd::seq_lib::to_multiset_build(rest@, x);
                    assert(out@.to_multiset().add(rest@.to_multiset()) =~= all.to_multiset());
                }
            },
        }
    }
    proof {
        assert(rest@.to_multiset() =~= vstd::multiset::Multiset::empty()) by {
            vstd::seq_lib::to_multiset_len(rest@);
            assert(rest@.to_multiset().len() == 0);
            assert forall|a: SavedPromptRow| rest@.to_multiset().count(a) == 0 by {
                vstd::multiset::axiom_count_le_len(rest@.to_multiset(), a);
            }
        }
        assert(out@.to_multiset() =~= all.to_multiset());
    }
    out
}

impl Workspace {
    /// Nothing outside the prompt table changed.
    pub open spec fn same_but_prompts(self, other: Workspace) -> bool {
        &&& self.categories@ == other.categories@
        &&& self.defs@ == other.defs@
        &&& self.folders@ == other.folders@
        &&& self.docs@ == other.docs@
        &&& self.outputs@ == other.outputs@
        &&& self.settings == other.settings
    }

    /// The prompts passing the optional category and framework filters,
    /// ordered by `sort_order` then name.
    pub fn list_saved_prompts(&self, category: Option<String>, framework_id: Option<String>) -> (r:
        Vec<SavedPromptRow>)
        ensures
            ord_sorted::<SavedPromptRow>(r@),
            r@.to_multiset() == prompts_filtered(
                self.prompts@,
                opt_view(category),
                opt_view(framework_id),
            ).to_multiset(),
    {
        sort_rows(prompts_filtered_exec(&self.prompts, &category, &framework_id))
    }

    /// The prompt with the id, if it exists.
    pub fn get_saved_prompt(&self, id: &str) -> (r: Option<SavedPromptRow>)
        requires
            self.wf(),
        ensures
            match r {
                Some(row) => has_key(self.prompts@, id@) && row == self.prompts@[key_idx(
                    self.prompts@,
                    id@,
                )],
                None => !has_key(self.prompts@, id@),
            },
    {
        match find_key(&self.prompts, id) {
            Some(i) => {
                proof {
                    lemma_key_idx(self.prompts@, id@, i as int);
                }
                Some(self.prompts[i].clone())
            },
            None => None,
        }
    }

    /// Creates a custom prompt under a given fresh id; a caller that
    /// hands an id already in use is refused. `sort_order` is one past
    /// the greatest within the prompt's category.
    pub fn create_saved_prompt_with_id(
        &mut self,
        id: &str,
        name: &str,
        description: &str,
        category: &str,
        prompt_text: &str,
        variables: &str,
        framework_id: Option<String>,
        now: i64,
    ) -> (r: Result<SavedPromptRow, StoreError>)
        requires
            old(self).wf(),
        ensures
            final(self).wf(),
            old(self).same_but_prompts(*final(self)),
            match r {
                Ok(row) => {
                    &&& !has_key(old(self).prompts@, id@)
                    &&& final(self).prompts@ == old(self).prompts@.push(row)
                    &&& row.id@ == id@
                    &&& row.name@ == name@
                    &&& row.description@ == description@
                    &&& row.category@ == category@
                    &&& row.prompt_text@ == prompt_text@
                    &&& row.variables@ == variables@
                    &&& row.framework_id == framework_id
                    &&& row.is_builtin == false
                    &&& row.is_favorite == false
                    &&& row.usage_count == 0
                    &&& row.sort_order as int == next_order(
                        max_prompt_order_in(old(self).prompts@, category@),
                    )
                    &&& row.created_at == now
                    &&& row.updated_at == now
                },
                Err(e) => {
                    &&& e == StoreError::DuplicateId
                    &&& has_key(old(self).prompts@, id@)
                    &&& *final(self) == *old(self)
                },
            },
    {
        match find_key(&self.prompts, id) {
            Some(_) => Err(StoreError::DuplicateId),
            None => {
                let m = max_order_prompts_in(&self.prompts, category);
                let ord: i32 = if m == i32::MAX {
                    m
                } else {
                    m + 1
                };
                let row = SavedPromptRow {
                    id: String::from_str(id),
                    name: String::from_str(name),
                    description: String::from_str(description),
                    category: String::from_str(category),
                    prompt_text: String::from_str(prompt_text),
                    variables: String::from_str(variables),
                    framework_id,
                    is_builtin: false,
                    is_favorite: false,
                    usage_count: 0,
                    sort_order: ord,
                    created_at: now,
                    updated_at: now,
                };
                let copy = row.clone();
                proof {
                    lemma_keys_unique_push(self.prompts@, row);
                }
                self.prompts.push(row);
                Ok(copy)
            },
        }
    }

    /// Creates a custom prompt under a freshly drawn random id.
    pub fn create_saved_prompt(
        &mut self,
        name: &str,
        description: &str,
        category: &str,
        prompt_text: &str,
        variables: &str,
        framework_id: Option<String>,
        now: i64,
    ) -> (r: Result<SavedPromptRow, StoreError>)
        requires
            old(self).wf(),
        ensures
            final(self).wf(),
            old(self).same_but_prompts(*final(self)),
            match r {
                Ok(row) => {
                    &&& !has_key(old(self).prompts@, row.id@)
                    &&& final(self).prompts@ == old(self).prompts@.push(row)
                    &&& row.name@ == name@
                    &&& row.description@ == description@
                    &&& row.category@ == category@
                    &&& row.prompt_text@ == prompt_text@
                    &&& row.variables@ == variables@
                    &&& row.framework_id == framework_id
                    &&& row.is_builtin == false
                    &&& row.is_favorite == false
                    &&& row.usage_count == 0
                    &&& row.sort_order as int == next_order(
                        max_prompt_order_in(old(self).prompts@, category@),
                    )
                    &&& row.created_at == now
                    &&& row.updated_at == now
                },
                Err(e) => {
                    &&& e == StoreError::DuplicateId
                    &&& *final(self) == *old(self)
                },
            },
    {
        let id = fresh_uuid();
        self.create_saved_prompt_with_id(
            id.as_str(),
            name,
            description,
            category,
            prompt_text,
            variables,
            framework_id,
            now,
        )
    }

    /// Partially updates a prompt: omitted fields keep their previous
    /// values; `framework_id` distinguishes "leave" (`None`), "clear"
    /// (`Some(None)`) and "set" (`Some(Some(..))`).
    pub fn update_saved_prompt(
        &mut self,
        id: &str,
        name: Option<String>,
        description: Option<String>,
        category: Option<String>,
        prompt_text: Option<String>,
        variables: Option<String>,
        framework_id: Option<Option<String>>,
        is_favorite: Option<bool>,
        now: i64,
    ) -> (r: Result<SavedPromptRow, StoreError>)
        requires
            old(self).wf(),
        ensures
            final(self).wf(),
            old(self).same_but_prompts(*final(self)),
            match r {
                Ok(row) => {
                    &&& has_key(old(self).prompts@, id@)
                    &&& {
                        let i = key_idx(old(self).prompts@, id@);
                        let prev = old(self).prompts@[i];
                        &&& final(self).prompts@ == old(self).prompts@.update(i, row)
                        &&& row.id@ == id@
                        &&& row.name@ == crate::defs::coal(name, prev.name@)
                        &&& row.description@ == crate::defs::coal(description, prev.description@)
                        &&& row.category@ == crate::defs::coal(category, prev.category@)
                        &&& row.prompt_text@ == crate::defs::coal(prompt_text, prev.prompt_text@)
                        &&& row.variables@ == crate::defs::coal(variables, prev.variables@)
                        &&& row.framework_id == (match framework_id {
                            Option::Some(f) => f,
                            Option::None => prev.framework_id,
                        })
                        &&& row.is_favorite == (match is_favorite {
                            Option::Some(b) => b,
                            Option::None => prev.is_favorite,
                        })
                        &&& row.is_builtin == prev.is_builtin
                        &&& row.usage_count == prev.usage_count
                        &&& row.sort_order == prev.sort_order
                        &&& row.created_at == prev.created_at
                        &&& row.updated_at == now
                    }
                },
                Err(e) => {
                    &&& e == StoreError::NotFound
                    &&& !has_key(old(self).prompts@, id@)
                    &&& *final(self) == *old(self)
                },
            },
    {
        match find_key(&self.prompts, id) {
            None => Err(StoreError::NotFound),
            Some(i) => {
                proof {
                    lemma_key_idx(self.prompts@, id@, i as int);
                }
                let prev = self.prompts.remove(i);
                let row = SavedPromptRow {
                    id: prev.id,
                    name: match name {
                        Some(v) => v,
                        None => prev.name,
                    },
                    description: match description {
                        Some(v) => v,
                        None => prev.description,
                    },
                    category: match category {
                        Some(v) => v,
                        None => prev.category,
                    },
                    prompt_text: match prompt_text {
                        Some(v) => v,
                        None => prev.prompt_text,
                    },
                    variables: match variables {
                        Some(v) => v,
                        None => prev.variables,
                    },
                    framework_id: match framework_id {
                        Some(f) => f,
                        None => prev.framework_id,
                    },
                    is_favorite: match is_favorite {
                        Some(b) => b,
                        None => prev.is_favorite,
                    },
                    is_builtin: prev.is_builtin,
                    usage_count: prev.usage_count,
                    sort_order: prev.sort_order,
                    created_at: prev.created_at,
                    updated_at: now,
                };
                let copy = row.clone();
                self.prompts.insert(i, row);
                proof {
                    assert(self.prompts@ =~= old(self).prompts@.update(i as int, copy));
                    lemma_keys_unique_update(old(self).prompts@, i as int, copy);
                }
                Ok(copy)
            },
        }
    }

    /// Deletes a prompt; a builtin prompt is protected.
    pub fn delete_saved_prompt(&mut self, id: &str) -> (r: Result<(), StoreError>)
        requires
            old(self).wf(),
        ensures
            final(self).wf(),
            old(self).same_but_prompts(*final(self)),
            match r {
                Ok(()) => {
                    &&& has_key(old(self).prompts@, id@)
                    &&& !old(self).prompts@[key_idx(old(self).prompts@, id@)].is_builtin
                    &&& final(self).prompts@ == old(self).prompts@.remove(
                        key_idx(old(self).prompts@, id@),
                    )
                },
                Err(e) => {
                    &&& *final(self) == *old(self)
                    &&& match e {
                        StoreError::NotFound => !has_key(old(self).prompts@, id@),
                        StoreError::ProtectedEntity => has_key(old(self).prompts@, id@) && old(
                            self,
                        ).prompts@[key_idx(old(self).prompts@, id@)].is_builtin,
                        _ => false,
                    }
                },
            },
    {
        match find_key(&self.prompts, id) {
            None => Err(StoreError::NotFound),
            Some(i) => {
                proof {
                    lemma_key_idx(self.prompts@, id@, i as int);
                }
                if self.prompts[i].is_builtin {
                    return Err(StoreError::ProtectedEntity);
                }
                proof {
                    lemma_keys_unique_remove(self.prompts@, i as int);
                }
                self.prompts.remove(i);
                Ok(())
            },
        }
    }

    /// The prompts whose name, description or text contains the query,
    /// most used first, ties by name.
    pub fn search_saved_prompts(&self, query: &str) -> (r: Vec<SavedPromptRow>)
        ensures
            usage_sorted(r@),
            r@.to_multiset() == prompts_like(self.prompts@, query@).to_multiset(),
    {
        sort_prompts_by_usage(prompts_like_exec(&self.prompts, query))
    }

    /// Duplicates a prompt under a new name and a freshly drawn id:
    /// always a custom copy with usage and favorite reset.
    pub fn duplicate_saved_prompt(&mut self, id: &str, new_name: &str, now: i64) -> (r: Result<
        SavedPromptRow,
        StoreError,
    >)
        requires
            old(self).wf(),
        ensures
            final(self).wf(),
            old(self).same_but_prompts(*final(self)),
            match r {
                Ok(row) => {
                    &&& has_key(old(self).prompts@, id@)
                    &&& !has_key(old(self).prompts@, row.id@)
                    &&& {
                        let src = old(self).prompts@[key_idx(old(self).prompts@, id@)];
                        &&& final(self).prompts@ == old(self).prompts@.push(row)
                        &&& row.name@ == new_name@
                        &&& row.description@ == src.description@
                        &&& row.category@ == src.category@
                        &&& row.prompt_text@ == src.prompt_text@
                        &&& row.variables@ == src.variables@
                        &&& row.framework_id == src.framework_id
                        &&& row.is_builtin == false
                        &&& row.is_favorite == false
                        &&& row.usage_count == 0
                        &&& row.sort_order as int == next_order(
                            max_prompt_order_in(old(self).prompts@, src.category@),
                        )
                        &&& row.created_at == now
                        &&& row.updated_at == now
                    }
                },
                Err(e) => {
                    &&& *final(self) == *old(self)
                    &&& match e {
                        StoreError::NotFound => !has_key(old(self).prompts@, id@),
                        StoreError::DuplicateId => has_key(old(self).prompts@, id@),
                        _ => false,
                    }
                },
            },
    {
        match find_key(&self.prompts, id) {
            None => Err(StoreError::NotFound),
            Some(i) => {
                proof {
                    lemma_key_idx(self.prompts@, id@, i as int);
                }
                let src = &self.prompts[i];
                let description = src.description.clone();
                let category = src.category.clone();
                let prompt_text = src.prompt_text.clone();
                let variables = src.variables.clone();
                let framework_id = clone_opt_string(&src.framework_id);
                self.create_saved_prompt(
                    new_name,
                    description.as_str(),
                    category.as_str(),
                    prompt_text.as_str(),
                    variables.as_str(),
                    framework_id,
                    now,
                )
            },
        }
    }

    /// Records one use of a prompt: its `usage_count` grows by one
    /// (saturating) and `updated_at` refreshes; an unknown id changes
    /// nothing, as a storage-level update of no rows would.
    pub fn increment_prompt_usage(&mut self, id: &str, now: i64) -> (r: Result<(), StoreError>)
        requires
            old(self).wf(),
        ensures
            final(self).wf(),
            old(self).same_but_prompts(*final(self)),
            r is Ok,
            !has_key(old(self).prompts@, id@) ==> *final(self) == *old(self),
            has_key(old(self).prompts@, id@) ==> {
                let i = key_idx(old(self).prompts@, id@);
                let prev = old(self).prompts@[i];
                let row = final(self).prompts@[i];
                &&& final(self).prompts@ == old(self).prompts@.update(i, row)
                &&& row.id == prev.id
                &&& row.name == prev.name
                &&& row.description == prev.description
                &&& row.category == prev.category
                &&& row.prompt_text == prev.prompt_text
                &&& row.variables == prev.variables
                &&& row.framework_id == prev.framework_id
                &&& row.is_builtin == prev.is_builtin
                &&& row.is_favorite == prev.is_favorite
                &&& row.usage_count as int == next_order(prev.usage_count as int)
                &&& row.sort_order == prev.sort_order
                &&& row.created_at == prev.created_at
                &&& row.updated_at == now
            },
    {
        match find_key(&self.prompts, id) {
            None => Ok(()),
            Some(i) => {
                proof {
                    lemma_key_idx(self.prompts@, id@, i as int);
                }
                let prev = self.prompts.remove(i);
                let bumped: i32 = if prev.usage_count == i32::MAX {
                    prev.usage_count
                } else {
                    prev.usage_count + 1
                };
                let row = SavedPromptRow {
                    usage_count: bumped,
                    updated_at: now,
                    ..prev
                };
                self.prompts.insert(i, row);
                proof {
                    let fr = final(self).prompts@[i as int];
                    assert(self.prompts@ =~= old(self).prompts@.update(i as int, fr));
                    lemma_keys_unique_update(old(self).prompts@, i as int, fr);
                }
                Ok(())
            },
        }
    }
}

} // verus!
