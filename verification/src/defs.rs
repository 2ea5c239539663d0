use vstd::prelude::*;
use crate::catalog::{lemma_keys_unique_push, lemma_keys_unique_remove, lemma_keys_unique_update,
    next_order};
use crate::error::StoreError;
use crate::order::{ord_sorted, sort_rows};
use crate::rows::{FrameworkDefRow, SeedDef};
use crate::store::{clone_vec, find_key, has_key, key_idx, keys_unique, lemma_key_idx, Keyed,
    Workspace};
use crate::text::{def_slug_of, like_match, slugify_def, str_eq, contains_like};

verus! {

impl Keyed for SeedDef {
    open spec fn key(self) -> Seq<char> {
        self.id@
    }

    fn key_eq(&self, id: &str) -> bool {
        str_eq(self.id.as_str(), id)
    }
}

/// What an omitted field of a partial update leaves in place.
pub open spec fn coal(n: Option<String>, prev: Seq<char>) -> Seq<char> {
    match n {
        Option::Some(s) => s@,
        Option::None => prev,
    }
}

/// The definitions that belong to a category, in table order.
pub open spec fn defs_in_category(s: Seq<FrameworkDefRow>, cat: Seq<char>) -> Seq<FrameworkDefRow>
    decreases s.len(),
{
    if s.len() == 0 {
        s
    } else {
        let rest = defs_in_category(s.drop_last(), cat);
        if s.last().category@ == cat {
            rest.push(s.last())
        } else {
            rest
        }
    }
}

/// The definitions whose name or description contains the query,
/// case-insensitively, in table order.
pub open spec fn defs_like(s: Seq<FrameworkDefRow>, q: Seq<char>) -> Seq<FrameworkDefRow>
    decreases s.len(),
{
    if s.len() == 0 {
        s
    } else {
        let rest = defs_like(s.drop_last(), q);
        if like_match(s.last().name@, q) || like_match(s.last().description@, q) {
            rest.push(s.last())
        } else {
            rest
        }
    }
}

/// The greatest `sort_order` among the definitions of a category, or -1.
pub open spec fn max_def_order_in(s: Seq<FrameworkDefRow>, cat: Seq<char>) -> int
    decreases s.len(),
{
    if s.len() == 0 {
        -1
    } else {
        let m = max_def_order_in(s.drop_last(), cat);
        if s.last().category@ == cat && s.last().sort_order > m {
            s.last().sort_order as int
        } else {
            m
        }
    }
}

fn defs_in_category_exec(v: &Vec<FrameworkDefRow>, cat: &str) -> (r: Vec<FrameworkDefRow>)
    ensures
        r@ == defs_in_category(v@, cat@),
{
    let n = v.len();
    let mut out: Vec<FrameworkDefRow> = Vec::new();
    for i in 0..n
        invariant
            n == v@.len(),
            out@ == defs_in_category(v@.take(i as int), cat@),
    {
        proof {
            assert(v@.take(i + 1).drop_last() =~= v@.take(i as int));
            assert(v@.take(i + 1).last() == v@[i as int]);
        }
        if str_eq(v[i].category.as_str(), cat) {
            out.push(v[i].clone());
        }
    }
    proof {
        assert(v@.take(n as int) =~= v@);
    }
    out
}

fn defs_like_exec(v: &Vec<FrameworkDefRow>, q: &str) -> (r: Vec<FrameworkDefRow>)
    ensures
        r@ == defs_like(v@, q@),
{
    let n = v.len();
    let mut out: Vec<FrameworkDefRow> = Vec::new();
    for i in 0..n
        invariant
            n == v@.len(),
            out@ == defs_like(v@.take(i as int), q@),
    {
        proof {
            assert(v@.take(i + 1).drop_last() =~= v@.take(i as int));
            assert(v@.take(i + 1).last() == v@[i as int]);
        }
        let hit = contains_like(v[i].name.as_str(), q) || contains_like(
            v[i].description.as_str(),
            q,
        );
        if hit {
            out.push(v[i].clone());
        }
    }
    proof {
        assert(v@.take(n as int) =~= v@);
    }
    out
}

fn max_order_defs_in(v: &Vec<FrameworkDefRow>, cat: &str) -> (r: i32)
    ensures
        r as int == max_def_order_in(v@, cat@),
{
    let n = v.len();
    let mut m: i32 = -1;
    for i in 0..n
        invariant
            n == v@.len(),
            m as int == max_def_order_in(v@.take(i as int), cat@),
    {
        proof {
            assert(v@.take(i + 1).drop_last() =~= v@.take(i as int));
            assert(v@.take(i + 1).last() == v@[i as int]);
        }
        if str_eq(v[i].category.as_str(), cat) && v[i].sort_order > m {
            m = v[i].sort_order;
        }
    }
    proof {
        assert(v@.take(n as int) =~= v@);
    }
    m
}

impl Workspace {
    /// Nothing outside the definition table changed.
    pub open spec fn same_but_defs(self, other: Workspace) -> bool {
        &&& self.categories@ == other.categories@
        &&& self.prompts@ == other.prompts@
        &&& self.folders@ == other.folders@
        &&& self.docs@ == other.docs@
        &&& self.outputs@ == other.outputs@
        &&& self.settings == other.settings
    }

    /// The definitions of one category, or all of them, ordered by
    /// `sort_order`.
    pub fn list_framework_defs(&self, category: Option<String>) -> (r: Vec<FrameworkDefRow>)
        ensures
            ord_sorted::<FrameworkDefRow>(r@),
            match category {
                Option::Some(c) => r@.to_multiset() == defs_in_category(
                    self.defs@,
                    c@,
                ).to_multiset(),
                Option::None => r@.to_multiset() == self.defs@.to_multiset(),
            },
    {
        match category {
            Some(c) => sort_rows(defs_in_category_exec(&self.defs, c.as_str())),
            None => sort_rows(clone_vec(&self.defs)),
        }
    }

    /// The definition with the id, if it exists.
    pub fn get_framework_def(&self, id: &str) -> (r: Option<FrameworkDefRow>)
        requires
            self.wf(),
        ensures
            match r {
                Some(row) => has_key(self.defs@, id@) && row == self.defs@[key_idx(
                    self.defs@,
                    id@,
                )],
                None => !has_key(self.defs@, id@),
            },
    {
        match find_key(&self.defs, id) {
            Some(i) => {
                proof {
                    lemma_key_idx(self.defs@, id@, i as int);
                }
                Some(self.defs[i].clone())
            },
            None => None,
        }
    }

    /// Creates a custom definition. Its id is the slug of the name (with
    /// parentheses stripped); a colliding slug is rejected. Its
    /// `sort_order` is one past the greatest within its category.
    pub fn create_framework_def(
        &mut self,
        category: &str,
        name: &str,
        description: &str,
        icon: &str,
        system_prompt: &str,
        guiding_questions: &str,
        example_output: &str,
        supports_visuals: bool,
        visual_instructions: Option<String>,
        now: i64,
    ) -> (r: Result<FrameworkDefRow, StoreError>)
        requires
            old(self).wf(),
        ensures
            final(self).wf(),
            old(self).same_but_defs(*final(self)),
            match r {
                Ok(row) => {
                    &&& !has_key(old(self).defs@, def_slug_of(name@))
                    &&& final(self).defs@ == old(self).defs@.push(row)
                    &&& row.id@ == def_slug_of(name@)
                    &&& row.category@ == category@
                    &&& row.name@ == name@
                    &&& row.description@ == description@
                    &&& row.icon@ == icon@
                    &&& row.system_prompt@ == system_prompt@
                    &&& row.guiding_questions@ == guiding_questions@
                    &&& row.example_output@ == example_output@
                    &&& row.supports_visuals == supports_visuals
                    &&& row.visual_instructions == visual_instructions
                    &&& row.is_builtin == false
                    &&& row.sort_order as int == next_order(
                        max_def_order_in(old(self).defs@, category@),
                    )
                    &&& row.created_at == now
                    &&& row.updated_at == now
                },
                Err(e) => {
                    &&& e == StoreError::DuplicateId
                    &&& has_key(old(self).defs@, def_slug_of(name@))
                    &&& *final(self) == *old(self)
                },
            },
    {
        let id = slugify_def(name);
        match find_key(&self.defs, id.as_str()) {
            Some(_) => Err(StoreError::DuplicateId),
            None => {
                let m = max_order_defs_in(&self.defs, category);
                let ord: i32 = if m == i32::MAX {
                    m
                } else {
                    m + 1
                };
                let row = FrameworkDefRow {
                    id,
                    category: String::from_str(category),
                    name: String::from_str(name),
                    description: String::from_str(description),
                    icon: String::from_str(icon),
                    example_output: String::from_str(example_output),
                    system_prompt: String::from_str(system_prompt),
                    guiding_questions: String::from_str(guiding_questions),
                    supports_visuals,
                    visual_instructions,
                    is_builtin: false,
                    sort_order: ord,
                    created_at: now,
                    updated_at: now,
                };
                let copy = row.clone();
                proof {
                    lemma_keys_unique_push(self.defs@, row);
                }
                self.defs.push(row);
                Ok(copy)
            },
        }
    }

    /// Partially updates a definition: every omitted field keeps its
    /// previous value; `updated_at` is refreshed.
    pub fn update_framework_def(
        &mut self,
        id: &str,
        category: Option<String>,
        name: Option<String>,
        description: Option<String>,
        icon: Option<String>,
        system_prompt: Option<String>,
        guiding_questions: Option<String>,
        example_output: Option<String>,
        supports_visuals: Option<bool>,
        visual_instructions: Option<String>,
        now: i64,
    ) -> (r: Result<FrameworkDefRow, StoreError>)
        requires
            old(self).wf(),
        ensures
            final(self).wf(),
            old(self).same_but_defs(*final(self)),
            match r {
                Ok(row) => {
                    &&& has_key(old(self).defs@, id@)
                    &&& {
                        let i = key_idx(old(self).defs@, id@);
                        let prev = old(self).defs@[i];
                        &&& final(self).defs@ == old(self).defs@.update(i, row)
                        &&& row.id@ == id@
                        &&& row.category@ == coal(category, prev.category@)
                        &&& row.name@ == coal(name, prev.name@)
                        &&& row.description@ == coal(description, prev.description@)
                        &&& row.icon@ == coal(icon, prev.icon@)
                        &&& row.system_prompt@ == coal(system_prompt, prev.system_prompt@)
                        &&& row.guiding_questions@ == coal(
                            guiding_questions,
                            prev.guiding_questions@,
                        )
                        &&& row.example_output@ == coal(example_output, prev.example_output@)
                        &&& row.supports_visuals == (match supports_visuals {
                            Option::Some(b) => b,
                            Option::None => prev.supports_visuals,
                        })
                        &&& row.visual_instructions == (match visual_instructions {
                            Option::Some(s) => Option::Some(s),
                            Option::None => prev.visual_instructions,
                        })
                        &&& row.is_builtin == prev.is_builtin
                        &&& row.sort_order == prev.sort_order
                        &&& row.created_at == prev.created_at
                        &&& row.updated_at == now
                    }
                },
                Err(e) => {
                    &&& e == StoreError::NotFound
                    &&& !has_key(old(self).defs@, id@)
                    &&& *final(self) == *old(self)
                },
            },
    {
        match find_key(&self.defs, id) {
            None => Err(StoreError::NotFound),
            Some(i) => {
                proof {
                    lemma_key_idx(self.defs@, id@, i as int);
                }
                let prev = self.defs.remove(i);
                let row = FrameworkDefRow {
                    id: prev.id,
                    category: match category {
                        Some(c) => c,
                        None => prev.category,
                    },
                    name: match name {
                        Some(v) => v,
                        None => prev.name,
                    },
                    description: match description {
                        Some(v) => v,
                        None => prev.description,
                    },
                    icon: match icon {
                        Some(v) => v,
                        None => prev.icon,
                    },
                    system_prompt: match system_prompt {
                        Some(v) => v,
                        None => prev.system_prompt,
                    },
                    guiding_questions: match guiding_questions {
                        Some(v) => v,
                        None => prev.guiding_questions,
                    },
                    example_output: match example_output {
                        Some(v) => v,
                        None => prev.example_output,
                    },
                    supports_visuals: match supports_visuals {
                        Some(b) => b,
                        None => prev.supports_visuals,
                    },
                    visual_instructions: match visual_instructions {
                        Some(v) => Some(v),
                        None => prev.visual_instructions,
                    },
                    is_builtin: prev.is_builtin,
                    sort_order: prev.sort_order,
                    created_at: prev.created_at,
                    updated_at: now,
                };
                let copy = row.clone();
                self.defs.insert(i, row);
                proof {
                    assert(self.defs@ =~= old(self).defs@.update(i as int, copy));
                    lemma_keys_unique_update(old(self).defs@, i as int, copy);
                }
                Ok(copy)
            },
        }
    }

    /// Deletes a definition; a builtin definition is protected.
    pub fn delete_framework_def(&mut self, id: &str) -> (r: Result<(), StoreError>)
        requires
            old(self).wf(),
        ensures
            final(self).wf(),
            old(self).same_but_defs(*final(self)),
            match r {
                Ok(()) => {
                    &&& has_key(old(self).defs@, id@)
                    &&& !old(self).defs@[key_idx(old(self).defs@, id@)].is_builtin
                    &&& final(self).defs@ == old(self).defs@.remove(key_idx(old(self).defs@, id@))
                },
                Err(e) => {
                    &&& *final(self) == *old(self)
                    &&& match e {
                        StoreError::NotFound => !has_key(old(self).defs@, id@),
                        StoreError::ProtectedEntity => has_key(old(self).defs@, id@) && old(
                            self,
                        ).defs@[key_idx(old(self).defs@, id@)].is_builtin,
                        _ => false,
                    }
                },
            },
    {
        match find_key(&self.defs, id) {
            None => Err(StoreError::NotFound),
            Some(i) => {
                proof {
                    lemma_key_idx(self.defs@, id@, i as int);
                }
                if self.defs[i].is_builtin {
                    return Err(StoreError::ProtectedEntity);
                }
                proof {
                    lemma_keys_unique_remove(self.defs@, i as int);
                }
                self.defs.remove(i);
                Ok(())
            },
        }
    }

    /// Resets a builtin definition's content fields — `system_prompt`,
    /// `guiding_questions`, `example_output`, `visual_instructions` — to
    /// the bundled seed entry with its id, leaving the structural fields
    /// (`category`, `name`, `icon`, `sort_order`) as the user last set
    /// them.
    pub fn reset_framework_def(&mut self, id: &str, seeds: &Vec<SeedDef>, now: i64) -> (r: Result<
        FrameworkDefRow,
        StoreError,
    >)
        requires
            old(self).wf(),
            keys_unique(seeds@),
        ensures
            final(self).wf(),
            old(self).same_but_defs(*final(self)),
            match r {
                Ok(row) => {
                    &&& has_key(old(self).defs@, id@)
                    &&& has_key(seeds@, id@)
                    &&& {
                        let i = key_idx(old(self).defs@, id@);
                        let prev = old(self).defs@[i];
                        let sd = seeds@[key_idx(seeds@, id@)];
                        &&& prev.is_builtin
                        &&& final(self).defs@ == old(self).defs@.update(i, row)
                        &&& row.id@ == id@
                        &&& row.system_prompt == sd.system_prompt
                        &&& row.guiding_questions == sd.guiding_questions
                        &&& row.example_output == sd.example_output
                        &&& row.visual_instructions == sd.visual_instructions
                        &&& row.category == prev.category
                        &&& row.name == prev.name
                        &&& row.description == prev.description
                        &&& row.icon == prev.icon
                        &&& row.supports_visuals == prev.supports_visuals
                        &&& row.is_builtin == prev.is_builtin
                        &&& row.sort_order == prev.sort_order
                        &&& row.created_at == prev.created_at
                        &&& row.updated_at == now
                    }
                },
                Err(e) => {
                    &&& *final(self) == *old(self)
                    &&& match e {
                        StoreError::NotFound => !has_key(old(self).defs@, id@),
                        StoreError::NotBuiltin => has_key(old(self).defs@, id@) && !old(
                            self,
                        ).defs@[key_idx(old(self).defs@, id@)].is_builtin,
                        StoreError::SeedNotFound => has_key(old(self).defs@, id@) && old(
                            self,
                        ).defs@[key_idx(old(self).defs@, id@)].is_builtin && !has_key(seeds@, id@),
                        _ => false,
                    }
                },
            },
    {
        match find_key(&self.defs, id) {
            None => Err(StoreError::NotFound),
            Some(i) => {
                proof {
                    lemma_key_idx(self.defs@, id@, i as int);
                }
                if !self.defs[i].is_builtin {
                    return Err(StoreError::NotBuiltin);
                }
                match find_key(seeds, id) {
                    None => Err(StoreError::SeedNotFound),
                    Some(k) => {
                        proof {
                            lemma_key_idx(seeds@, id@, k as int);
                        }
                        let sd = &seeds[k];
                        let prev = self.defs.remove(i);
                        let row = FrameworkDefRow {
                            id: prev.id,
                            category: prev.category,
                            name: prev.name,
                            description: prev.description,
                            icon: prev.icon,
                            example_output: sd.example_output.clone(),
                            system_prompt: sd.system_prompt.clone(),
                            guiding_questions: sd.guiding_questions.clone(),
                            supports_visuals: prev.supports_visuals,
                            visual_instructions: crate::rows::clone_opt_string(
                                &sd.visual_instructions,
                            ),
                            is_builtin: prev.is_builtin,
                            sort_order: prev.sort_order,
                            created_at: prev.created_at,
                            updated_at: now,
                        };
                        let copy = row.clone();
                        self.defs.insert(i, row);
                        proof {
                            assert(self.defs@ =~= old(self).defs@.update(i as int, copy));
                            lemma_keys_unique_update(old(self).defs@, i as int, copy);
                        }
                        Ok(copy)
                    },
                }
            },
        }
    }

    /// The definitions whose name or description contains the query,
    /// case-insensitively, ordered by `sort_order`.
    pub fn search_framework_defs(&self, query: &str) -> (r: Vec<FrameworkDefRow>)
        ensures
            ord_sorted::<FrameworkDefRow>(r@),
            r@.to_multiset() == defs_like(self.defs@, query@).to_multiset(),
    {
        sort_rows(defs_like_exec(&self.defs, query))
    }

    /// Duplicates a definition under a new name: always a custom row with
    /// a fresh slug id, the source's content, and `sort_order` one past
    /// the source's.
    pub fn duplicate_framework_def(&mut self, id: &str, new_name: &str, now: i64) -> (r: Result<
        FrameworkDefRow,
        StoreError,
    >)
        requires
            old(self).wf(),
        ensures
            final(self).wf(),
            old(self).same_but_defs(*final(self)),
            match r {
                Ok(row) => {
                    &&& has_key(old(self).defs@, id@)
                    &&& !has_key(old(self).defs@, def_slug_of(new_name@))
                    &&& {
                        let src = old(self).defs@[key_idx(old(self).defs@, id@)];
                        &&& final(self).defs@ == old(self).defs@.push(row)
                        &&& row.id@ == def_slug_of(new_name@)
                        &&& row.id@ != id@
                        &&& row.name@ == new_name@
                        &&& row.category == src.category
                        &&& row.description == src.description
                        &&& row.icon == src.icon
                        &&& row.example_output == src.example_output
                        &&& row.system_prompt == src.system_prompt
                        &&& row.guiding_questions == src.guiding_questions
                        &&& row.supports_visuals == src.supports_visuals
                        &&& row.visual_instructions == src.visual_instructions
                        &&& row.is_builtin == false
                        &&& row.sort_order as int == next_order(src.sort_order as int)
                        &&& row.created_at == now
                        &&& row.updated_at == now
                    }
                },
                Err(e) => {
                    &&& *final(self) == *old(self)
                    &&& match e {
                        StoreError::NotFound => !has_key(old(self).defs@, id@),
                        StoreError::DuplicateId => has_key(old(self).defs@, id@) && has_key(
                            old(self).defs@,
                            def_slug_of(new_name@),
                        ),
                        _ => false,
                    }
                },
            },
    {
        match find_key(&self.defs, id) {
            None => Err(StoreError::NotFound),
            Some(i) => {
                proof {
                    lemma_key_idx(self.defs@, id@, i as int);
                }
                let new_id = slugify_def(new_name);
                match find_key(&self.defs, new_id.as_str()) {
                    Some(_) => Err(StoreError::DuplicateId),
                    None => {
                        let src = &self.defs[i];
                        let ord: i32 = if src.sort_order == i32::MAX {
                            src.sort_order
                        } else {
                            src.sort_order + 1
                        };
                        let row = FrameworkDefRow {
                            id: new_id,
                            category: src.category.clone(),
                            name: String::from_str(new_name),
                            description: src.description.clone(),
                            icon: src.icon.clone(),
                            example_output: src.example_output.clone(),
                            system_prompt: src.system_prompt.clone(),
                            guiding_questions: src.guiding_questions.clone(),
                            supports_visuals: src.supports_visuals,
                            visual_instructions: crate::rows::clone_opt_string(
                                &src.visual_instructions,
                            ),
                            is_builtin: false,
                            sort_order: ord,
                            created_at: now,
                            updated_at: now,
                        };
                        let copy = row.clone();
                        proof {
                            lemma_keys_unique_push(self.defs@, row);
                        }
                        self.defs.push(row);
                        Ok(copy)
                    },
                }
            },
        }
    }
}

} // verus!
