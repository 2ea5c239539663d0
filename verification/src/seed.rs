use vstd::prelude::*;
use crate::catalog::lemma_keys_unique_push;
use crate::rows::{FrameworkCategoryRow, FrameworkDefRow, SavedPromptRow, SeedCategory, SeedDef,
    SeedPrompt};
use crate::rows::clone_opt_string;
use crate::store::{find_key, has_key, keys_unique, Keyed, Workspace};
use crate::text::str_eq;

verus! {

impl Keyed for SeedCategory {
    open spec fn key(self) -> Seq<char> {
        self.id@
    }

    fn key_eq(&self, id: &str) -> bool {
        str_eq(self.id.as_str(), id)
    }
}

impl Keyed for SeedPrompt {
    open spec fn key(self) -> Seq<char> {
        self.id@
    }

    fn key_eq(&self, id: &str) -> bool {
        str_eq(self.id.as_str(), id)
    }
}

/// What a category row seeded from the bundled entry at position `k` holds.
pub open spec fn cat_from_seed(
    row: FrameworkCategoryRow,
    sd: SeedCategory,
    k: int,
    now: int,
) -> bool {
    &&& row.id@ == sd.id@
    &&& row.name@ == sd.name@
    &&& row.description@ == sd.description@
    &&& row.icon@ == sd.icon@
    &&& row.is_builtin == true
    &&& row.sort_order as int == k
    &&& row.created_at as int == now
    &&& row.updated_at as int == now
}

/// What a definition row seeded from the bundled entry at position `k`
/// holds.
pub open spec fn def_from_seed(row: FrameworkDefRow, sd: SeedDef, k: int, now: int) -> bool {
    &&& row.id@ == sd.id@
    &&& row.category@ == sd.category@
    &&& row.name@ == sd.name@
    &&& row.description@ == sd.description@
    &&& row.icon@ == sd.icon@
    &&& row.example_output@ == sd.example_output@
    &&& row.system_prompt@ == sd.system_prompt@
    &&& row.guiding_questions@ == sd.guiding_questions@
    &&& row.supports_visuals == sd.supports_visuals
    &&& row.visual_instructions == sd.visual_instructions
    &&& row.is_builtin == true
    &&& row.sort_order as int == k
    &&& row.created_at as int == now
    &&& row.updated_at as int == now
}

/// Whether a row is what seeding could have appended: it comes from some
/// bundled entry whose id was absent before the run.
pub open spec fn seeded_def_row(
    orig: Seq<FrameworkDefRow>,
    seeds: Seq<SeedDef>,
    now: int,
    row: FrameworkDefRow,
) -> bool {
    exists|k: int|
        0 <= k < seeds.len() && !has_key(orig, (#[trigger] seeds[k]).id@) && def_from_seed(
            row,
            seeds[k],
            k,
            now,
        )
}

/// What a prompt row seeded from the bundled entry at position `k` holds.
pub open spec fn prompt_from_seed(row: SavedPromptRow, sd: SeedPrompt, k: int, now: int) -> bool {
    &&& row.id@ == sd.id@
    &&& row.name@ == sd.name@
    &&& row.description@ == sd.description@
    &&& row.category@ == sd.category@
    &&& row.prompt_text@ == sd.prompt_text@
    &&& row.variables@ == sd.variables@
    &&& row.framework_id == sd.framework_id
    &&& row.is_builtin == true
    &&& row.is_favorite == false
    &&& row.usage_count == 0
    &&& row.sort_order as int == k
    &&& row.created_at as int == now
    &&& row.updated_at as int == now
}

/// Whether a row is what prompt seeding could have appended.
pub open spec fn seeded_prompt_row(
    orig: Seq<SavedPromptRow>,
    seeds: Seq<SeedPrompt>,
    now: int,
    row: SavedPromptRow,
) -> bool {
    exists|k: int|
        0 <= k < seeds.len() && !has_key(orig, (#[trigger] seeds[k]).id@) && prompt_from_seed(
            row,
            seeds[k],
            k,
            now,
        )
}

/// An id present in a prefix stays present in the whole.
proof fn lemma_has_key_prefix<T: Keyed>(s: Seq<T>, t: Seq<T>, id: Seq<char>)
    requires
        s == t.take(s.len() as int),
        s.len() <= t.len(),
        has_key(s, id),
    ensures
        has_key(t, id),
{
    let i = choose|i: int| 0 <= i < s.len() && (#[trigger] s[i]).key() == id;
    assert(t[i].key() == id);
}

impl Workspace {
    /// Nothing outside the category and definition tables changed.
    pub open spec fn same_but_catalog(self, other: Workspace) -> bool {
        &&& self.prompts@ == other.prompts@
        &&& self.folders@ == other.folders@
        &&& self.docs@ == other.docs@
        &&& self.outputs@ == other.outputs@
        &&& self.settings == other.settings
    }

    /// Seeds the category and definition catalogs from the bundled
    /// entries. Categories are seeded only into an empty table; each
    /// definition is inserted only if its id is absent, so a reseed never
    /// duplicates a row and never reverts a user's edit. Seed order
    /// becomes each new row's `sort_order`. A run against a store that
    /// already holds every seeded id changes nothing.
    pub fn seed_frameworks(
        &mut self,
        categories: &Vec<SeedCategory>,
        defs: &Vec<SeedDef>,
        now: i64,
    )
        requires
            old(self).wf(),
            keys_unique(categories@),
            categories@.len() <= i32::MAX,
            defs@.len() <= i32::MAX,
        ensures
            final(self).wf(),
            old(self).same_but_catalog(*final(self)),
            // the category table is seeded only when it is empty
            old(self).categories@.len() > 0 ==> final(self).categories@ == old(self).categories@,
            old(self).categories@.len() == 0 ==> {
                &&& final(self).categories@.len() == categories@.len()
                &&& forall|k: int|
                    0 <= k < categories@.len() ==> cat_from_seed(
                        #[trigger] final(self).categories@[k],
                        categories@[k],
                        k,
                        now as int,
                    )
            },
            // existing definitions stay exactly as they were, in place
            old(self).defs@.len() <= final(self).defs@.len(),
            final(self).defs@.take(old(self).defs@.len() as int) == old(self).defs@,
            // after seeding, every bundled definition id is present
            forall|k: int|
                0 <= k < defs@.len() ==> has_key(final(self).defs@, (#[trigger] defs@[k]).id@),
            // what was appended comes from a bundled entry that was absent
            forall|j: int|
                old(self).defs@.len() <= j < final(self).defs@.len() ==> seeded_def_row(
                    old(self).defs@,
                    defs@,
                    now as int,
                    #[trigger] final(self).defs@[j],
                ),
            // a store already holding every bundled id is left unchanged
            (forall|k: int|
                0 <= k < defs@.len() ==> has_key(old(self).defs@, (#[trigger] defs@[k]).id@))
                ==> final(self).defs@ == old(self).defs@,
    {
        if self.categories.len() == 0 {
            let n = categories.len();
            for i in 0..n
                invariant
                    n == categories@.len(),
                    n <= i32::MAX,
                    keys_unique(categories@),
                    self.categories@.len() == i,
                    forall|k: int|
                        0 <= k < i ==> cat_from_seed(
                            #[trigger] self.categories@[k],
                            categories@[k],
                            k,
                            now as int,
                        ),
                    forall|k: int|
                        0 <= k < i ==> (#[trigger] self.categories@[k]).id@ == categories@[k].id@,
                    self.wf(),
                    self.defs@ == old(self).defs@,
                    old(self).same_but_catalog(*self),
            {
                let sd = &categories[i];
                let row = FrameworkCategoryRow {
                    id: sd.id.clone(),
                    name: sd.name.clone(),
                    description: sd.description.clone(),
                    icon: sd.icon.clone(),
                    is_builtin: true,
                    sort_order: i as i32,
                    created_at: now,
                    updated_at: now,
                };
                proof {
                    if has_key(self.categories@, row.id@) {
                        let t = choose|t: int|
                            0 <= t < self.categories@.len() && (#[trigger] self.categories@[t]).key()
                                == row.id@;
                        assert(categories@[t].id@ == categories@[i as int].id@);
                        assert(false);
                    }
                    lemma_keys_unique_push(self.categories@, row);
                }
                self.categories.push(row);
            }
        }
        let ghost mid = *self;
        let n = defs.len();
        for k in 0..n
            invariant
                n == defs@.len(),
                n <= i32::MAX,
                self.wf(),
                self.categories@ == mid.categories@,
                old(self).same_but_catalog(*self),
                mid.defs@ == old(self).defs@,
                old(self).defs@.len() <= self.defs@.len(),
                self.defs@.take(old(self).defs@.len() as int) == old(self).defs@,
                forall|t: int|
                    0 <= t < k ==> has_key(self.defs@, (#[trigger] defs@[t]).id@),
                forall|j: int|
                    old(self).defs@.len() <= j < self.defs@.len() ==> seeded_def_row(
                        old(self).defs@,
                        defs@,
                        now as int,
                        #[trigger] self.defs@[j],
                    ),
                (forall|t: int|
                    0 <= t < k ==> has_key(old(self).defs@, (#[trigger] defs@[t]).id@))
                    ==> self.defs@ == old(self).defs@,
        {
            let ghost before = self.defs@;
            match find_key(&self.defs, defs[k].id.as_str()) {
                Some(_) => {
                    proof {
                        assert(has_key(self.defs@, defs@[k as int].id@));
                    }
                },
                None => {
                    let sd = &defs[k];
                    let row = FrameworkDefRow {
                        id: sd.id.clone(),
                        category: sd.category.clone(),
                        name: sd.name.clone(),
                        description: sd.description.clone(),
                        icon: sd.icon.clone(),
                        example_output: sd.example_output.clone(),
                        system_prompt: sd.system_prompt.clone(),
                        guiding_questions: sd.guiding_questions.clone(),
                        supports_visuals: sd.supports_visuals,
                        visual_instructions: clone_opt_string(&sd.visual_instructions),
                        is_builtin: true,
                        sort_order: k as i32,
                        created_at: now,
                        updated_at: now,
                    };
                    proof {
                        lemma_keys_unique_push(self.defs@, row);
                        // the new row's id was absent from the original table
                        if has_key(old(self).defs@, row.id@) {
                            lemma_has_key_prefix(old(self).defs@, before, row.id@);
                        }
                    }
                    self.defs.push(row);
                    proof {
                        assert(self.defs@.take(old(self).defs@.len() as int) =~= old(self).defs@);
                        assert(def_from_seed(
                            self.defs@[self.defs@.len() - 1],
                            defs@[k as int],
                            k as int,
                            now as int,
                        ));
                    }
                },
            }
            proof {
                // ids seen before this step stay present
                assert forall|t: int| 0 <= t < k + 1 implies has_key(
                    self.defs@,
                    (#[trigger] defs@[t]).id@,
                ) by {
                    if t < k {
                        let w = choose|w: int|
                            0 <= w < before.len() && (#[trigger] before[w]).key() == defs@[t].id@;
                        assert(self.defs@[w].key() == defs@[t].id@);
                    }
                }
            }
        }
    }

    /// Seeds the saved-prompt catalog from the bundled entries: each one
    /// is inserted only if its id is absent. A run against a store that
    /// already holds every bundled id changes nothing.
    pub fn seed_prompts(&mut self, prompts: &Vec<SeedPrompt>, now: i64)
        requires
            old(self).wf(),
            prompts@.len() <= i32::MAX,
        ensures
            final(self).wf(),
            old(self).same_but_prompts(*final(self)),
            old(self).prompts@.len() <= final(self).prompts@.len(),
            final(self).prompts@.take(old(self).prompts@.len() as int) == old(self).prompts@,
            forall|k: int|
                0 <= k < prompts@.len() ==> has_key(
                    final(self).prompts@,
                    (#[trigger] prompts@[k]).id@,
                ),
            forall|j: int|
                old(self).prompts@.len() <= j < final(self).prompts@.len() ==> seeded_prompt_row(
                    old(self).prompts@,
                    prompts@,
                    now as int,
                    #[trigger] final(self).prompts@[j],
                ),
            (forall|k: int|
                0 <= k < prompts@.len() ==> has_key(old(self).prompts@, (#[trigger] prompts@[k]).id@))
                ==> final(self).prompts@ == old(self).prompts@,
    {
        let n = prompts.len();
        for k in 0..n
            invariant
                n == prompts@.len(),
                n <= i32::MAX,
                self.wf(),
                old(self).same_but_prompts(*self),
                old(self).prompts@.len() <= self.prompts@.len(),
                self.prompts@.take(old(self).prompts@.len() as int) == old(self).prompts@,
                forall|t: int|
                    0 <= t < k ==> has_key(self.prompts@, (#[trigger] prompts@[t]).id@),
                forall|j: int|
                    old(self).prompts@.len() <= j < self.prompts@.len() ==> seeded_prompt_row(
                        old(self).prompts@,
                        prompts@,
                        now as int,
                        #[trigger] self.prompts@[j],
                    ),
                (forall|t: int|
                    0 <= t < k ==> has_key(old(self).prompts@, (#[trigger] prompts@[t]).id@))
                    ==> self.prompts@ == old(self).prompts@,
        {
            let ghost before = self.prompts@;
            match find_key(&self.prompts, prompts[k].id.as_str()) {
                Some(_) => {
                    proof {
                        assert(has_key(self.prompts@, prompts@[k as int].id@));
                    }
                },
                None => {
                    let sd = &prompts[k];
                    let row = SavedPromptRow {
                        id: sd.id.clone(),
                        name: sd.name.clone(),
                        description: sd.description.clone(),
                        category: sd.category.clone(),
                        prompt_text: sd.prompt_text.clone(),
                        variables: sd.variables.clone(),
                        framework_id: clone_opt_string(&sd.framework_id),
                        is_builtin: true,
                        is_favorite: false,
                        usage_count: 0,
                        sort_order: k as i32,
                        created_at: now,
                        updated_at: now,
                    };
                    proof {
                        lemma_keys_unique_push(self.prompts@, row);
                        if has_key(old(self).prompts@, row.id@) {
                            lemma_has_key_prefix(old(self).prompts@, before, row.id@);
                        }
                    }
                    self.prompts.push(row);
                    proof {
                        assert(self.prompts@.take(old(self).prompts@.len() as int) =~= old(
                            self,
                        ).prompts@);
                        assert(prompt_from_seed(
                            self.prompts@[self.prompts@.len() - 1],
                            prompts@[k as int],
                            k as int,
                            now as int,
                        ));
                    }
                },
            }
            proof {
                assert forall|t: int| 0 <= t < k + 1 implies has_key(
                    self.prompts@,
                    (#[trigger] prompts@[t]).id@,
                ) by {
                    if t < k {
                        let w = choose|w: int|
                            0 <= w < before.len() && (#[trigger] before[w]).key() == prompts@[t].id@;
                        assert(self.prompts@[w].key() == prompts@[t].id@);
                    }
                }
            }
        }
    }
}

} // verus!
