use vstd::prelude::*;
use crate::catalog::{lemma_keys_unique_push, lemma_keys_unique_update};
use crate::error::StoreError;
use crate::order::{ord_sorted, sort_rows};
use crate::rows::{clone_opt_string, Folder, SearchResult};
use crate::store::{find_key, fresh_uuid, has_key, key_idx, keys_unique, lemma_key_idx, Keyed,
    Workspace};
use crate::text::str_eq;

verus! {

/// The folders of one project, in table order.
pub open spec fn folders_in_project(s: Seq<Folder>, proj: Seq<char>) -> Seq<Folder>
    decreases s.len(),
{
    if s.len() == 0 {
        s
    } else {
        let rest = folders_in_project(s.drop_last(), proj);
        if s.last().project_id@ == proj {
            rest.push(s.last())
        } else {
            rest
        }
    }
}

fn folders_in_project_exec(v: &Vec<Folder>, proj: &str) -> (r: Vec<Folder>)
    ensures
        r@ == folders_in_project(v@, proj@),
{
    let n = v.len();
    let mut out: Vec<Folder> = Vec::new();
    for i in 0..n
        invariant
            n == v@.len(),
            out@ == folders_in_project(v@.take(i as int), proj@),
    {
        proof {
            assert(v@.take(i + 1).drop_last() =~= v@.take(i as int));
            assert(v@.take(i + 1).last() == v@[i as int]);
        }
        if str_eq(v[i].project_id.as_str(), proj) {
            out.push(v[i].clone());
        }
    }
    proof {
        assert(v@.take(n as int) =~= v@);
    }
    out
}

/// How many entries of a boolean sequence are set.
pub open spec fn count_trues(s: Seq<bool>) -> int
    decreases s.len(),
{
    if s.len() == 0 {
        0
    } else {
        count_trues(s.drop_last()) + (if s.last() {
            1int
        } else {
            0int
        })
    }
}

proof fn lemma_count_le_len(s: Seq<bool>)
    ensures
        0 <= count_trues(s) <= s.len(),
    decreases s.len(),
{
    if s.len() > 0 {
        lemma_count_le_len(s.drop_last());
    }
}

proof fn lemma_count_zero_all_false(s: Seq<bool>)
    requires
        forall|t: int| 0 <= t < s.len() ==> !(#[trigger] s[t]),
    ensures
        count_trues(s) == 0,
    decreases s.len(),
{
    if s.len() > 0 {
        lemma_count_zero_all_false(s.drop_last());
    }
}

proof fn lemma_count_update_true(s: Seq<bool>, i: int)
    requires
        0 <= i < s.len(),
        !s[i],
    ensures
        count_trues(s.update(i, true)) == count_trues(s) + 1,
    decreases s.len(),
{
    if s.len() > 0 {
        if i == s.len() - 1 {
            assert(s.update(i, true).drop_last() =~= s.drop_last());
        } else {
            assert(s.update(i, true).drop_last() =~= s.drop_last().update(i, true));
            lemma_count_update_true(s.drop_last(), i);
        }
    }
}

/// Replaces one entry of a boolean vector.
fn set_bool(v: &mut Vec<bool>, i: usize, b: bool)
    requires
        i < old(v)@.len(),
    ensures
        final(v)@ == old(v)@.update(i as int, b),
{
    v.remove(i);
    v.insert(i, b);
    proof {
        assert(final(v)@ =~= old(v)@.update(i as int, b));
    }
}

/// A marked folder is the deleted root or the child of a marked folder.
pub open spec fn mark_justified_at(fs: Seq<Folder>, m: Seq<bool>, root: Seq<char>, t: int) -> bool {
    fs[t].id@ == root || (match fs[t].parent_id {
        Option::Some(p) => exists|w: int|
            0 <= w < fs.len() && #[trigger] m[w] && fs[w].id@ == p@,
        Option::None => false,
    })
}

/// Every marked folder is justified.
pub open spec fn mark_justified(fs: Seq<Folder>, m: Seq<bool>, root: Seq<char>) -> bool {
    forall|t: int| 0 <= t < fs.len() && #[trigger] m[t] ==> mark_justified_at(fs, m, root, t)
}

/// Whether an unmarked folder has a marked parent.
pub open spec fn mark_eligible(fs: Seq<Folder>, m: Seq<bool>, j: int) -> bool {
    match fs[j].parent_id {
        Option::Some(p) => exists|w: int|
            0 <= w < fs.len() && #[trigger] m[w] && fs[w].id@ == p@,
        Option::None => false,
    }
}

/// The folders whose ids are not in the removed set, in table order.
pub open spec fn drop_folders(s: Seq<Folder>, d: Set<Seq<char>>) -> Seq<Folder>
    decreases s.len(),
{
    if s.len() == 0 {
        s
    } else {
        let rest = drop_folders(s.drop_last(), d);
        if d.contains(s.last().id@) {
            rest
        } else {
            rest.push(s.last())
        }
    }
}

proof fn lemma_drop_folders_elems(s: Seq<Folder>, d: Set<Seq<char>>)
    ensures
        forall|p: int|
            0 <= p < drop_folders(s, d).len() ==> s.contains(#[trigger] drop_folders(s, d)[p]),
    decreases s.len(),
{
    if s.len() > 0 {
        lemma_drop_folders_elems(s.drop_last(), d);
        assert forall|p: int| 0 <= p < drop_folders(s, d).len() implies s.contains(
            #[trigger] drop_folders(s, d)[p],
        ) by {
            let r = drop_folders(s, d);
            let rr = drop_folders(s.drop_last(), d);
            if p < rr.len() {
                assert(rr[p] == r[p]);
                assert(s.drop_last().contains(rr[p]));
                let w = choose|w: int| 0 <= w < s.drop_last().len() && s.drop_last()[w] == rr[p];
                assert(s[w] == rr[p]);
            } else {
                assert(r[p] == s.last());
                assert(s[s.len() - 1] == s.last());
            }
        }
    }
}

/// Removing rows keeps ids unique.
pub proof fn lemma_drop_folders_unique(s: Seq<Folder>, d: Set<Seq<char>>)
    requires
        keys_unique(s),
    ensures
        keys_unique(drop_folders(s, d)),
    decreases s.len(),
{
    if s.len() > 0 {
        assert(keys_unique(s.drop_last())) by {
            assert forall|p: int, q: int|
                0 <= p < q < s.drop_last().len() implies (#[trigger] s.drop_last()[p]).key() != (
            #[trigger] s.drop_last()[q]).key() by {
                assert(s[p].key() != s[q].key());
            }
        }
        lemma_drop_folders_unique(s.drop_last(), d);
        if !d.contains(s.last().id@) {
            lemma_drop_folders_elems(s.drop_last(), d);
            let r = drop_folders(s, d);
            let rr = drop_folders(s.drop_last(), d);
            assert forall|p: int, q: int|
                0 <= p < q < r.len() implies (#[trigger] r[p]).key() != (#[trigger] r[q]).key() by {
                if q < rr.len() {
                    assert(r[p] == rr[p] && r[q] == rr[q]);
                } else {
                    assert(r[q] == s.last());
                    assert(r[p] == rr[p]);
                    assert(s.drop_last().contains(rr[p]));
                    let w = choose|w: int|
                        0 <= w < s.drop_last().len() && s.drop_last()[w] == rr[p];
                    assert(s[w].key() != s[s.len() - 1].key());
                }
            }
        }
    }
}

/// A document is left exactly as it was unless it was filed in a removed
/// folder, in which case only its `folder_id` is cleared.
pub open spec fn detached_doc(
    a: crate::rows::ContextDocument,
    b: crate::rows::ContextDocument,
    d: Set<Seq<char>>,
) -> bool {
    match a.folder_id {
        Option::Some(f) => {
            if d.contains(f@) {
                &&& b.folder_id is None
                &&& b.id == a.id
                &&& b.project_id == a.project_id
                &&& b.name == a.name
                &&& b.doc_type == a.doc_type
                &&& b.content == a.content
                &&& b.url == a.url
                &&& b.is_global == a.is_global
                &&& b.size_bytes == a.size_bytes
                &&& b.created_at == a.created_at
                &&& b.tags == a.tags
                &&& b.is_favorite == a.is_favorite
                &&& b.sort_order == a.sort_order
            } else {
                b == a
            }
        },
        Option::None => b == a,
    }
}

/// A framework output is left exactly as it was unless it was filed in a
/// removed folder, in which case only its `folder_id` is cleared.
pub open spec fn detached_output(
    a: crate::rows::FrameworkOutput,
    b: crate::rows::FrameworkOutput,
    d: Set<Seq<char>>,
) -> bool {
    match a.folder_id {
        Option::Some(f) => {
            if d.contains(f@) {
                &&& b.folder_id is None
                &&& b.id == a.id
                &&& b.project_id == a.project_id
                &&& b.framework_id == a.framework_id
                &&& b.category == a.category
                &&& b.name == a.name
                &&& b.user_prompt == a.user_prompt
                &&& b.context_doc_ids == a.context_doc_ids
                &&& b.generated_content == a.generated_content
                &&& b.format == a.format
                &&& b.created_at == a.created_at
                &&& b.updated_at == a.updated_at
                &&& b.tags == a.tags
                &&& b.is_favorite == a.is_favorite
                &&& b.sort_order == a.sort_order
            } else {
                b == a
            }
        },
        Option::None => b == a,
    }
}

/// Whether a context document matches a project search: same project,
/// and the query occurs in its name or its tags, ignoring case.
pub open spec fn doc_hit(d: crate::rows::ContextDocument, proj: Seq<char>, q: Seq<char>) -> bool {
    d.project_id@ == proj && (crate::text::like_match(d.name@, q) || crate::text::like_match(
        d.tags@,
        q,
    ))
}

/// Whether a framework output matches a project search.
pub open spec fn output_hit(o: crate::rows::FrameworkOutput, proj: Seq<char>, q: Seq<char>) -> bool {
    o.project_id@ == proj && (crate::text::like_match(o.name@, q) || crate::text::like_match(
        o.tags@,
        q,
    ))
}

/// The context documents a project search matches, in table order.
pub open spec fn docs_hits(
    s: Seq<crate::rows::ContextDocument>,
    proj: Seq<char>,
    q: Seq<char>,
) -> Seq<crate::rows::ContextDocument>
    decreases s.len(),
{
    if s.len() == 0 {
        s
    } else {
        let rest = docs_hits(s.drop_last(), proj, q);
        if doc_hit(s.last(), proj, q) {
            rest.push(s.last())
        } else {
            rest
        }
    }
}

/// The framework outputs a project search matches, in table order.
pub open spec fn outputs_hits(
    s: Seq<crate::rows::FrameworkOutput>,
    proj: Seq<char>,
    q: Seq<char>,
) -> Seq<crate::rows::FrameworkOutput>
    decreases s.len(),
{
    if s.len() == 0 {
        s
    } else {
        let rest = outputs_hits(s.drop_last(), proj, q);
        if output_hit(s.last(), proj, q) {
            rest.push(s.last())
        } else {
            rest
        }
    }
}

/// Whether a search row faithfully presents a context document: its kind
/// is the document kind, the fields carry over, and the inapplicable
/// category is empty.
pub open spec fn presents_doc(x: crate::rows::SearchResult, d: crate::rows::ContextDocument) -> bool {
    &&& x.id == d.id
    &&& x.name == d.name
    &&& x.item_type@ == "context_doc"@
    &&& x.folder_id == d.folder_id
    &&& x.category is None
    &&& (match x.doc_type {
        Option::Some(t) => t == d.doc_type,
        Option::None => false,
    })
    &&& x.is_favorite == d.is_favorite
    &&& x.created_at == d.created_at
}

/// Whether a search row faithfully presents a framework output.
pub open spec fn presents_output(
    x: crate::rows::SearchResult,
    o: crate::rows::FrameworkOutput,
) -> bool {
    &&& x.id == o.id
    &&& x.name == o.name
    &&& x.item_type@ == "framework_output"@
    &&& x.folder_id == o.folder_id
    &&& (match x.category {
        Option::Some(c) => c == o.category,
        Option::None => false,
    })
    &&& x.doc_type is None
    &&& x.is_favorite == o.is_favorite
    &&& x.created_at == o.created_at
}

/// Whether a search row presents some matching item of the store.
pub open spec fn presents_some_hit(
    x: crate::rows::SearchResult,
    docs: Seq<crate::rows::ContextDocument>,
    outs: Seq<crate::rows::FrameworkOutput>,
    proj: Seq<char>,
    q: Seq<char>,
) -> bool {
    ||| exists|j: int|
        0 <= j < docs.len() && doc_hit(#[trigger] docs[j], proj, q) && presents_doc(x, docs[j])
    ||| exists|j: int|
        0 <= j < outs.len() && output_hit(#[trigger] outs[j], proj, q) && presents_output(
            x,
            outs[j],
        )
}

impl Workspace {
    /// Nothing outside the folder table changed.
    pub open spec fn same_but_folders(self, other: Workspace) -> bool {
        &&& self.categories@ == other.categories@
        &&& self.defs@ == other.defs@
        &&& self.prompts@ == other.prompts@
        &&& self.docs@ == other.docs@
        &&& self.outputs@ == other.outputs@
        &&& self.settings == other.settings
    }

    /// Nothing outside the folder, document and output tables changed.
    pub open spec fn same_but_tree(self, other: Workspace) -> bool {
        &&& self.categories@ == other.categories@
        &&& self.defs@ == other.defs@
        &&& self.prompts@ == other.prompts@
        &&& self.settings == other.settings
    }

    /// What deleting the folder `root` does, witnessed by the set `d` of
    /// removed folder ids: `d` holds only existing folders, each removed
    /// folder is the root or the child of a removed one, the root is
    /// removed when it exists, no surviving folder is the root or has a
    /// removed parent, the surviving folders keep their order and
    /// content, and every item filed in a removed folder — or still
    /// pointing at the deleted id itself, even when no such folder row
    /// exists — is detached, never deleted, while all other items stay
    /// exactly as they were.
    pub open spec fn folder_delete_spec(
        w0: Workspace,
        w1: Workspace,
        root: Seq<char>,
        d: Set<Seq<char>>,
    ) -> bool {
        &&& forall|fid: Seq<char>| #[trigger]
            d.contains(fid) ==> has_key(w0.folders@, fid) && (fid == root || (match w0.folders@[key_idx(
                w0.folders@,
                fid,
            )].parent_id {
                Option::Some(p) => d.contains(p@),
                Option::None => false,
            }))
        &&& (has_key(w0.folders@, root) ==> d.contains(root))
        &&& forall|j: int|
            0 <= j < w0.folders@.len() && !d.contains((#[trigger] w0.folders@[j]).id@) ==> (
            w0.folders@[j].id@ != root && (match w0.folders@[j].parent_id {
                Option::Some(p) => !d.contains(p@),
                Option::None => true,
            }))
        &&& w1.folders@ == drop_folders(w0.folders@, d)
        &&& w1.docs@.len() == w0.docs@.len()
        &&& forall|j: int|
            0 <= j < w0.docs@.len() ==> detached_doc(
                #[trigger] w0.docs@[j],
                w1.docs@[j],
                d.insert(root),
            )
        &&& w1.outputs@.len() == w0.outputs@.len()
        &&& forall|j: int|
            0 <= j < w0.outputs@.len() ==> detached_output(
                #[trigger] w0.outputs@[j],
                w1.outputs@[j],
                d.insert(root),
            )
    }

    /// Law: folder deletion removes the entire subtree — the root goes,
    /// and a folder whose parent was removed is removed too.
    pub proof fn lemma_subtree_removed(
        w0: Workspace,
        w1: Workspace,
        root: Seq<char>,
        d: Set<Seq<char>>,
        j: int,
    )
        requires
            Workspace::folder_delete_spec(w0, w1, root, d),
            0 <= j < w0.folders@.len(),
            w0.folders@[j].id@ == root || (match w0.folders@[j].parent_id {
                Option::Some(p) => d.contains(p@),
                Option::None => false,
            }),
        ensures
            d.contains(w0.folders@[j].id@),
    {
        if !d.contains(w0.folders@[j].id@) {
            assert(w0.folders@[j].id@ != root);
        }
    }

    /// Creates a folder under a given fresh id, at the root or under an
    /// existing parent folder. A new folder always starts with
    /// `sort_order` 0 — callers reorder explicitly.
    pub fn create_folder_with_id(
        &mut self,
        id: &str,
        project_id: &str,
        name: &str,
        parent_id: Option<String>,
        color: Option<String>,
        now: i64,
    ) -> (r: Result<Folder, StoreError>)
        requires
            old(self).wf(),
        ensures
            final(self).wf(),
            old(self).same_but_folders(*final(self)),
            match r {
                Ok(row) => {
                    &&& !has_key(old(self).folders@, id@)
                    &&& match parent_id {
                        Option::Some(p) => has_key(old(self).folders@, p@),
                        Option::None => true,
                    }
                    &&& final(self).folders@ == old(self).folders@.push(row)
                    &&& row.id@ == id@
                    &&& row.project_id@ == project_id@
                    &&& row.name@ == name@
                    &&& row.parent_id == parent_id
                    &&& row.color == color
                    &&& row.sort_order == 0
                    &&& row.created_at == now
                    &&& row.updated_at == now
                },
                Err(e) => {
                    &&& *final(self) == *old(self)
                    &&& match e {
                        StoreError::DuplicateId => has_key(old(self).folders@, id@),
                        StoreError::NotFound => !has_key(old(self).folders@, id@) && (
                        match parent_id {
                            Option::Some(p) => !has_key(old(self).folders@, p@),
                            Option::None => false,
                        }),
                        _ => false,
                    }
                },
            },
    {
        match find_key(&self.folders, id) {
            Some(_) => Err(StoreError::DuplicateId),
            None => {
                match &parent_id {
                    Some(p) => {
                        if find_key(&self.folders, p.as_str()).is_none() {
                            return Err(StoreError::NotFound);
                        }
                    },
                    None => {},
                }
                let row = Folder {
                    id: String::from_str(id),
                    project_id: String::from_str(project_id),
                    parent_id,
                    name: String::from_str(name),
                    color,
                    sort_order: 0,
                    created_at: now,
                    updated_at: now,
                };
                let copy = row.clone();
                proof {
                    lemma_keys_unique_push(self.folders@, row);
                }
                self.folders.push(row);
                Ok(copy)
            },
        }
    }

    /// Creates a folder under a freshly drawn random id.
    pub fn create_folder(
        &mut self,
        project_id: &str,
        name: &str,
        parent_id: Option<String>,
        color: Option<String>,
        now: i64,
    ) -> (r: Result<Folder, StoreError>)
        requires
            old(self).wf(),
        ensures
            final(self).wf(),
            old(self).same_but_folders(*final(self)),
            match r {
                Ok(row) => {
                    &&& !has_key(old(self).folders@, row.id@)
                    &&& final(self).folders@ == old(self).folders@.push(row)
                    &&& row.project_id@ == project_id@
                    &&& row.name@ == name@
                    &&& row.parent_id == parent_id
                    &&& row.color == color
                    &&& row.sort_order == 0
                    &&& row.created_at == now
                    &&& row.updated_at == now
                },
                Err(e) => {
                    &&& *final(self) == *old(self)
                    &&& match e {
                        StoreError::DuplicateId => true,
                        StoreError::NotFound => (match parent_id {
                            Option::Some(p) => !has_key(old(self).folders@, p@),
                            Option::None => false,
                        }),
                        _ => false,
                    }
                },
            },
    {
        let id = fresh_uuid();
        self.create_folder_with_id(id.as_str(), project_id, name, parent_id, color, now)
    }

    /// The folders of a project, ordered by `sort_order` then name.
    pub fn list_folders(&self, project_id: &str) -> (r: Vec<Folder>)
        ensures
            ord_sorted::<Folder>(r@),
            r@.to_multiset() == folders_in_project(self.folders@, project_id@).to_multiset(),
    {
        sort_rows(folders_in_project_exec(&self.folders, project_id))
    }

    /// The folder with the id, if it exists.
    pub fn get_folder(&self, id: &str) -> (r: Option<Folder>)
        requires
            self.wf(),
        ensures
            match r {
                Some(row) => has_key(self.folders@, id@) && row == self.folders@[key_idx(
                    self.folders@,
                    id@,
                )],
                None => !has_key(self.folders@, id@),
            },
    {
        match find_key(&self.folders, id) {
            Some(i) => {
                proof {
                    lemma_key_idx(self.folders@, id@, i as int);
                }
                Some(self.folders[i].clone())
            },
            None => None,
        }
    }

    /// Whether following parent pointers from `from` reaches `target`
    /// within `fuel` steps.
    pub open spec fn anc_reaches(
        s: Seq<Folder>,
        from: Seq<char>,
        target: Seq<char>,
        fuel: nat,
    ) -> bool
        decreases fuel,
    {
        if from == target {
            true
        } else if fuel == 0 {
            false
        } else if !has_key(s, from) {
            false
        } else {
            match s[key_idx(s, from)].parent_id {
                Option::Some(p) => Self::anc_reaches(s, p@, target, (fuel - 1) as nat),
                Option::None => false,
            }
        }
    }

    /// Walks the parent chain from `from`, bounded by one step more than
    /// the table size, and reports whether it hits `target`.
    fn reaches(v: &Vec<Folder>, from: &str, target: &str) -> (r: bool)
        requires
            keys_unique(v@),
        ensures
            r == Self::anc_reaches(v@, from@, target@, v@.len() as nat),
    {
        let n = v.len();
        let mut cur: String = String::from_str(from);
        let mut steps: usize = 0;
        loop
            invariant
                keys_unique(v@),
                n == v@.len(),
                steps <= n,
                Self::anc_reaches(v@, from@, target@, n as nat) == Self::anc_reaches(
                    v@,
                    cur@,
                    target@,
                    (n - steps) as nat,
                ),
            decreases n - steps,
        {
            if str_eq(cur.as_str(), target) {
                return true;
            }
            if steps >= n {
                return false;
            }
            match find_key(v, cur.as_str()) {
                None => {
                    return false;
                },
                Some(i) => {
                    proof {
                        lemma_key_idx(v@, cur@, i as int);
                    }
                    match &v[i].parent_id {
                        None => {
                            return false;
                        },
                        Some(p) => {
                            cur = p.clone();
                            steps = steps + 1;
                        },
                    }
                },
            }
        }
    }

    /// Partially updates a folder: an omitted name, color or sort order
    /// keeps its previous value. The parent argument distinguishes
    /// "leave unchanged" (`None`), "move to the root" (the sentinel), and
    /// "move under a folder" — the last is refused when the new parent
    /// does not exist, and refused as a cycle when the new parent's
    /// ancestor chain passes through this folder.
    pub fn update_folder(
        &mut self,
        id: &str,
        name: Option<String>,
        parent_id: Option<String>,
        color: Option<String>,
        sort_order: Option<i32>,
        now: i64,
    ) -> (r: Result<Folder, StoreError>)
        requires
            old(self).wf(),
        ensures
            final(self).wf(),
            old(self).same_but_folders(*final(self)),
            match r {
                Ok(row) => {
                    &&& has_key(old(self).folders@, id@)
                    &&& {
                        let i = key_idx(old(self).folders@, id@);
                        let prev = old(self).folders@[i];
                        &&& final(self).folders@ == old(self).folders@.update(i, row)
                        &&& row.id@ == id@
                        &&& row.name@ == crate::defs::coal(name, prev.name@)
                        &&& row.color == (match color {
                            Option::Some(c) => Option::Some(c),
                            Option::None => prev.color,
                        })
                        &&& row.sort_order == (match sort_order {
                            Option::Some(o) => o,
                            Option::None => prev.sort_order,
                        })
                        &&& row.project_id == prev.project_id
                        &&& row.created_at == prev.created_at
                        &&& row.updated_at == now
                        &&& match parent_id {
                            Option::None => row.parent_id == prev.parent_id,
                            Option::Some(p) => {
                                if p@ == "__null__"@ {
                                    row.parent_id is None
                                } else {
                                    &&& (match row.parent_id {
                                        Option::Some(q) => q@ == p@,
                                        Option::None => false,
                                    })
                                    &&& has_key(old(self).folders@, p@)
                                    &&& !Self::anc_reaches(
                                        old(self).folders@,
                                        p@,
                                        id@,
                                        old(self).folders@.len() as nat,
                                    )
                                }
                            },
                        }
                    }
                },
                Err(e) => {
                    &&& *final(self) == *old(self)
                    &&& match e {
                        StoreError::NotFound => !has_key(old(self).folders@, id@) || (
                        match parent_id {
                            Option::Some(p) => p@ != "__null__"@ && !has_key(
                                old(self).folders@,
                                p@,
                            ),
                            Option::None => false,
                        }),
                        StoreError::CycleDetected => {
                            &&& has_key(old(self).folders@, id@)
                            &&& match parent_id {
                                Option::Some(p) => {
                                    &&& p@ != "__null__"@
                                    &&& has_key(old(self).folders@, p@)
                                    &&& Self::anc_reaches(
                                        old(self).folders@,
                                        p@,
                                        id@,
                                        old(self).folders@.len() as nat,
                                    )
                                },
                                Option::None => false,
                            }
                        },
                        _ => false,
                    }
                },
            },
    {
        match find_key(&self.folders, id) {
            None => Err(StoreError::NotFound),
            Some(i) => {
                proof {
                    lemma_key_idx(self.folders@, id@, i as int);
                }
                let new_parent: Option<Option<String>> = match parent_id {
                    None => None,
                    Some(p) => {
                        if str_eq(p.as_str(), "__null__") {
                            Some(None)
                        } else {
                            if find_key(&self.folders, p.as_str()).is_none() {
                                return Err(StoreError::NotFound);
                            }
                            if Self::reaches(&self.folders, p.as_str(), id) {
                                return Err(StoreError::CycleDetected);
                            }
                            Some(Some(p))
                        }
                    },
                };
                let prev = self.folders.remove(i);
                let row = Folder {
                    id: prev.id,
                    project_id: prev.project_id,
                    parent_id: match new_parent {
                        Some(np) => np,
                        None => prev.parent_id,
                    },
                    name: match name {
                        Some(v) => v,
                        None => prev.name,
                    },
                    color: match color {
                        Some(c) => Some(c),
                        None => prev.color,
                    },
                    sort_order: match sort_order {
                        Some(o) => o,
                        None => prev.sort_order,
                    },
                    created_at: prev.created_at,
                    updated_at: now,
                };
                let copy = row.clone();
                self.folders.insert(i, row);
                proof {
                    assert(self.folders@ =~= old(self).folders@.update(i as int, copy));
                    lemma_keys_unique_update(old(self).folders@, i as int, copy);
                }
                Ok(copy)
            },
        }
    }

    /// Sets or clears a folder's color and refreshes `updated_at`; an
    /// unknown id changes nothing, as a storage-level update of no rows
    /// would.
    pub fn set_folder_color(&mut self, id: &str, color: Option<String>, now: i64) -> (r: Result<
        (),
        StoreError,
    >)
        requires
            old(self).wf(),
        ensures
            final(self).wf(),
            old(self).same_but_folders(*final(self)),
            r is Ok,
            !has_key(old(self).folders@, id@) ==> *final(self) == *old(self),
            has_key(old(self).folders@, id@) ==> {
                let i = key_idx(old(self).folders@, id@);
                let prev = old(self).folders@[i];
                let row = final(self).folders@[i];
                &&& final(self).folders@ == old(self).folders@.update(i, row)
                &&& row.color == color
                &&& row.updated_at == now
                &&& row.id == prev.id
                &&& row.project_id == prev.project_id
                &&& row.parent_id == prev.parent_id
                &&& row.name == prev.name
                &&& row.sort_order == prev.sort_order
                &&& row.created_at == prev.created_at
            },
    {
        match find_key(&self.folders, id) {
            None => Ok(()),
            Some(i) => {
                proof {
                    lemma_key_idx(self.folders@, id@, i as int);
                }
                let prev = self.folders.remove(i);
                let row = Folder { color, updated_at: now, ..prev };
                self.folders.insert(i, row);
                proof {
                    let fr = final(self).folders@[i as int];
                    assert(self.folders@ =~= old(self).folders@.update(i as int, fr));
                    lemma_keys_unique_update(old(self).folders@, i as int, fr);
                }
                Ok(())
            },
        }
    }


    /// Removes a folder and its whole subtree, first detaching — never
    /// deleting — every context document and framework output filed
    /// anywhere in it. Always succeeds; an unknown id removes nothing,
    /// though items still pointing at it are detached.
    #[verifier::rlimit(60)]
    pub fn delete_folder(&mut self, id: &str) -> (r: Result<(), StoreError>)
        requires
            old(self).wf(),
        ensures
            final(self).wf(),
            old(self).same_but_tree(*final(self)),
            r is Ok,
            exists|d: Set<Seq<char>>|
                #[trigger] Workspace::folder_delete_spec(*old(self), *final(self), id@, d),
    {
        let n = self.folders.len();
        let mut marked: Vec<bool> = Vec::new();
        for j in 0..n
            invariant
                marked@.len() == j,
                forall|t: int| 0 <= t < j ==> !(#[trigger] marked@[t]),
        {
            marked.push(false);
        }
        let mut cnt: usize = 0;
        match find_key(&self.folders, id) {
            Some(ri) => {
                proof {
                    lemma_key_idx(self.folders@, id@, ri as int);
                    lemma_count_zero_all_false(marked@);
                    lemma_count_update_true(marked@, ri as int);
                }
                set_bool(&mut marked, ri, true);
                cnt = 1;
            },
            None => {
                proof {
                    lemma_count_zero_all_false(marked@);
                }
            },
        }
        let ghost fs = self.folders@;
        loop
            invariant
                *self == *old(self),
                self.wf(),
                fs == self.folders@,
                n == fs.len(),
                marked@.len() == n,
                cnt as int == count_trues(marked@),
                cnt <= n,
                mark_justified(fs, marked@, id@),
                has_key(fs, id@) ==> marked@[key_idx(fs, id@)],
            ensures
                *self == *old(self),
                fs == self.folders@,
                marked@.len() == n,
                mark_justified(fs, marked@, id@),
                has_key(fs, id@) ==> marked@[key_idx(fs, id@)],
                forall|j: int|
                    0 <= j < n && !(#[trigger] marked@[j]) ==> !mark_eligible(fs, marked@, j),
            decreases n - cnt,
        {
            let mut changed = false;
            let ghost marked0 = marked@;
            let ghost cnt0 = cnt;
            for j in 0..n
                invariant
                    *self == *old(self),
                    self.wf(),
                    fs == self.folders@,
                    n == fs.len(),
                    marked@.len() == n,
                    cnt as int == count_trues(marked@),
                    cnt0 <= cnt <= n,
                    changed ==> cnt0 < cnt,
                    !changed ==> marked@ == marked0,
                    mark_justified(fs, marked@, id@),
                    has_key(fs, id@) ==> marked@[key_idx(fs, id@)],
                    !changed ==> forall|t: int|
                        0 <= t < j && !(#[trigger] marked0[t]) ==> !mark_eligible(fs, marked0, t),
            {
                if !marked[j] {
                    let mut eligible = false;
                    match &self.folders[j].parent_id {
                        Some(p) => {
                            match find_key(&self.folders, p.as_str()) {
                                Some(pi) => {
                                    proof {
                                        lemma_key_idx(fs, p@, pi as int);
                                    }
                                    eligible = marked[pi];
                                    proof {
                                        if mark_eligible(fs, marked@, j as int) {
                                            let w = choose|w: int|
                                                0 <= w < fs.len() && #[trigger] marked@[w]
                                                    && fs[w].id@ == p@;
                                            lemma_key_idx(fs, p@, w);
                                        }
                                        assert(eligible == mark_eligible(fs, marked@, j as int));
                                    }
                                },
                                None => {
                                    proof {
                                        if mark_eligible(fs, marked@, j as int) {
                                            let w = choose|w: int|
                                                0 <= w < fs.len() && #[trigger] marked@[w]
                                                    && fs[w].id@ == p@;
                                            assert(has_key(fs, p@));
                                        }
                                        assert(!mark_eligible(fs, marked@, j as int));
                                    }
                                },
                            }
                        },
                        None => {
                            proof {
                                assert(!mark_eligible(fs, marked@, j as int));
                            }
                        },
                    }
                    if eligible {
                        let ghost mpre = marked@;
                        proof {
                            lemma_count_update_true(marked@, j as int);
                            lemma_count_le_len(marked@.update(j as int, true));
                        }
                        set_bool(&mut marked, j, true);
                        cnt = cnt + 1;
                        changed = true;
                        proof {
                            assert forall|t: int|
                                0 <= t < n && #[trigger] marked@[t] implies mark_justified_at(
                                fs,
                                marked@,
                                id@,
                                t,
                            ) by {
                                if t == j {
                                    match fs[t].parent_id {
                                        Option::Some(p) => {
                                            let w = choose|w: int|
                                                0 <= w < fs.len() && #[trigger] mpre[w]
                                                    && fs[w].id@ == p@;
                                            assert(marked@[w]);
                                        },
                                        Option::None => {},
                                    }
                                } else {
                                    assert(mpre[t]);
                                    assert(mark_justified_at(fs, mpre, id@, t));
                                    if fs[t].id@ != id@ {
                                        match fs[t].parent_id {
                                            Option::Some(p) => {
                                                let w = choose|w: int|
                                                    0 <= w < fs.len() && #[trigger] mpre[w]
                                                        && fs[w].id@ == p@;
                                                assert(marked@[w]);
                                            },
                                            Option::None => {},
                                        }
                                    }
                                }
                            }
                        }
                    }
                }
            }
            if !changed {
                break ;
            }
        }
        let ghost d = Set::new(
            |fid: Seq<char>|
                exists|t: int| 0 <= t < n && #[trigger] marked@[t] && fs[t].id@ == fid,
        );
        proof {
            assert forall|j: int| 0 <= j < n implies (d.contains(#[trigger] fs[j].id@)
                == marked@[j]) by {
                if marked@[j] {
                    assert(d.contains(fs[j].id@));
                }
                if d.contains(fs[j].id@) {
                    let t = choose|t: int|
                        0 <= t < n && #[trigger] marked@[t] && fs[t].id@ == fs[j].id@;
                    if t != j {
                        assert(fs[t].key() != fs[j].key());
                    }
                }
            }
            assert forall|fid: Seq<char>| #[trigger] d.contains(fid) implies has_key(fs, fid) by {
                let t = choose|t: int| 0 <= t < n && #[trigger] marked@[t] && fs[t].id@ == fid;
            }
        }
        let ghost dd = d.insert(id@);
        let m = self.docs.len();
        for c in 0..m
            invariant
                self.folders@ == fs,
                n == fs.len(),
                marked@.len() == n,
                self.wf(),
                old(self).wf(),
                m == self.docs@.len(),
                self.docs@.len() == old(self).docs@.len(),
                self.categories@ == old(self).categories@,
                self.defs@ == old(self).defs@,
                self.prompts@ == old(self).prompts@,
                self.outputs@ == old(self).outputs@,
                self.settings == old(self).settings,
                forall|j: int| 0 <= j < n ==> (d.contains((#[trigger] fs[j]).id@) == marked@[j]),
                forall|fid: Seq<char>| #[trigger] d.contains(fid) ==> has_key(fs, fid),
                dd == d.insert(id@),
                forall|t: int|
                    0 <= t < c ==> detached_doc(#[trigger] old(self).docs@[t], self.docs@[t], dd),
                forall|t: int| c <= t < m ==> self.docs@[t] == old(self).docs@[t],
        {
            let mut in_removed = false;
            match &self.docs[c].folder_id {
                Some(f) => {
                    if str_eq(f.as_str(), id) {
                        in_removed = true;
                    } else {
                        match find_key(&self.folders, f.as_str()) {
                            Some(fi) => {
                                in_removed = marked[fi];
                                proof {
                                    assert(fs[fi as int].id@ == f@);
                                    assert(d.contains(f@) == marked@[fi as int]);
                                }
                            },
                            None => {
                                proof {
                                    assert(!has_key(fs, f@));
                                    assert(!d.contains(f@));
                                }
                            },
                        }
                    }
                    proof {
                        assert(in_removed == dd.contains(f@));
                    }
                },
                None => {},
            }
            if in_removed {
                let ghost pre_docs = self.docs@;
                let prev = self.docs.remove(c);
                let row = crate::rows::ContextDocument { folder_id: None, ..prev };
                self.docs.insert(c, row);
                proof {
                    let fr = self.docs@[c as int];
                    assert(self.docs@ =~= pre_docs.update(c as int, fr));
                    lemma_keys_unique_update(pre_docs, c as int, fr);
                }
            }
        }
        let ghost docs_mid = self.docs@;
        let mo = self.outputs.len();
        for c in 0..mo
            invariant
                self.folders@ == fs,
                n == fs.len(),
                marked@.len() == n,
                self.wf(),
                old(self).wf(),
                mo == self.outputs@.len(),
                self.outputs@.len() == old(self).outputs@.len(),
                self.docs@ == docs_mid,
                self.categories@ == old(self).categories@,
                self.defs@ == old(self).defs@,
                self.prompts@ == old(self).prompts@,
                self.settings == old(self).settings,
                forall|j: int| 0 <= j < n ==> (d.contains((#[trigger] fs[j]).id@) == marked@[j]),
                forall|fid: Seq<char>| #[trigger] d.contains(fid) ==> has_key(fs, fid),
                dd == d.insert(id@),
                forall|t: int|
                    0 <= t < c ==> detached_output(
                        #[trigger] old(self).outputs@[t],
                        self.outputs@[t],
                        dd,
                    ),
                forall|t: int| c <= t < mo ==> self.outputs@[t] == old(self).outputs@[t],
        {
            let mut in_removed = false;
            match &self.outputs[c].folder_id {
                Some(f) => {
                    if str_eq(f.as_str(), id) {
                        in_removed = true;
                    } else {
                        match find_key(&self.folders, f.as_str()) {
                            Some(fi) => {
                                in_removed = marked[fi];
                                proof {
                                    assert(fs[fi as int].id@ == f@);
                                    assert(d.contains(f@) == marked@[fi as int]);
                                }
                            },
                            None => {
                                proof {
                                    assert(!has_key(fs, f@));
                                    assert(!d.contains(f@));
                                }
                            },
                        }
                    }
                    proof {
                        assert(in_removed == dd.contains(f@));
                    }
                },
                None => {},
            }
            if in_removed {
                let ghost pre_outs = self.outputs@;
                let prev = self.outputs.remove(c);
                let row = crate::rows::FrameworkOutput { folder_id: None, ..prev };
                self.outputs.insert(c, row);
                proof {
                    let fr = self.outputs@[c as int];
                    assert(self.outputs@ =~= pre_outs.update(c as int, fr));
                    lemma_keys_unique_update(pre_outs, c as int, fr);
                }
            }
        }
        let mut kept: Vec<Folder> = Vec::new();
        for j in 0..n
            invariant
                self.folders@ == fs,
                n == fs.len(),
                marked@.len() == n,
                forall|t: int| 0 <= t < n ==> (d.contains((#[trigger] fs[t]).id@) == marked@[t]),
                kept@ == drop_folders(fs.take(j as int), d),
        {
            proof {
                assert(fs.take(j + 1).drop_last() =~= fs.take(j as int));
                assert(fs.take(j + 1).last() == fs[j as int]);
            }
            if !marked[j] {
                kept.push(self.folders[j].clone());
            }
        }
        proof {
            assert(fs.take(n as int) =~= fs);
        }
        self.folders = kept;
        proof {
            lemma_drop_folders_unique(fs, d);
            assert forall|fid: Seq<char>| #[trigger] d.contains(fid) implies has_key(fs, fid) && (
            fid == id@ || (match fs[key_idx(fs, fid)].parent_id {
                Option::Some(p) => d.contains(p@),
                Option::None => false,
            })) by {
                let t = choose|t: int| 0 <= t < n && #[trigger] marked@[t] && fs[t].id@ == fid;
                lemma_key_idx(fs, fid, t);
                assert(mark_justified_at(fs, marked@, id@, t));
                if fs[t].id@ != id@ {
                    match fs[t].parent_id {
                        Option::Some(p) => {
                            let w = choose|w: int|
                                0 <= w < fs.len() && #[trigger] marked@[w] && fs[w].id@ == p@;
                            assert(d.contains(p@));
                        },
                        Option::None => {},
                    }
                }
            }
            assert forall|j: int|
                0 <= j < fs.len() && !d.contains((#[trigger] fs[j]).id@) implies (fs[j].id@ != id@
                && (match fs[j].parent_id {
                Option::Some(p) => !d.contains(p@),
                Option::None => true,
            })) by {
                assert(!marked@[j]);
                if fs[j].id@ == id@ {
                    lemma_key_idx(fs, id@, j);
                }
                assert(!mark_eligible(fs, marked@, j));
                match fs[j].parent_id {
                    Option::Some(p) => {
                        if d.contains(p@) {
                            let t = choose|t: int|
                                0 <= t < n && #[trigger] marked@[t] && fs[t].id@ == p@;
                            assert(mark_eligible(fs, marked@, j));
                        }
                    },
                    Option::None => {},
                }
            }
            assert(Workspace::folder_delete_spec(*old(self), *self, id@, d));
        }
        Ok(())
    }

    /// Searches a project's foldered items — context documents and
    /// framework outputs — by name or tags, ignoring case, into one
    /// result shape ordered by name. Every matching item is presented by
    /// a row, every row presents a matching item, and there are exactly
    /// as many rows as matches.
    pub fn search_project_items(&self, project_id: &str, query: &str) -> (r: Vec<SearchResult>)
        ensures
            ord_sorted::<SearchResult>(r@),
            r@.len() == docs_hits(self.docs@, project_id@, query@).len() + outputs_hits(
                self.outputs@,
                project_id@,
                query@,
            ).len(),
            forall|t: int|
                0 <= t < r@.len() ==> presents_some_hit(
                    #[trigger] r@[t],
                    self.docs@,
                    self.outputs@,
                    project_id@,
                    query@,
                ),
            forall|j: int|
                0 <= j < self.docs@.len() && doc_hit(#[trigger] self.docs@[j], project_id@, query@)
                    ==> exists|t: int|
                    0 <= t < r@.len() && presents_doc(#[trigger] r@[t], self.docs@[j]),
            forall|j: int|
                0 <= j < self.outputs@.len() && output_hit(
                    #[trigger] self.outputs@[j],
                    project_id@,
                    query@,
                ) ==> exists|t: int|
                    0 <= t < r@.len() && presents_output(#[trigger] r@[t], self.outputs@[j]),
    {
        broadcast use vstd::seq_lib::group_to_multiset_ensures;

        let nd = self.docs.len();
        let mut res: Vec<SearchResult> = Vec::new();
        for i in 0..nd
            invariant
                nd == self.docs@.len(),
                res@.len() == docs_hits(self.docs@.take(i as int), project_id@, query@).len(),
                forall|t: int|
                    0 <= t < res@.len() ==> presents_some_hit(
                        #[trigger] res@[t],
                        self.docs@,
                        self.outputs@,
                        project_id@,
                        query@,
                    ),
                forall|j: int|
                    0 <= j < i && doc_hit(#[trigger] self.docs@[j], project_id@, query@)
                        ==> exists|t: int|
                        0 <= t < res@.len() && presents_doc(#[trigger] res@[t], self.docs@[j]),
        {
            proof {
                assert(self.docs@.take(i + 1).drop_last() =~= self.docs@.take(i as int));
                assert(self.docs@.take(i + 1).last() == self.docs@[i as int]);
            }
            let d = &self.docs[i];
            let hit = str_eq(d.project_id.as_str(), project_id) && (crate::text::contains_like(
                d.name.as_str(),
                query,
            ) || crate::text::contains_like(d.tags.as_str(), query));
            if hit {
                let x = SearchResult {
                    id: d.id.clone(),
                    name: d.name.clone(),
                    item_type: String::from_str("context_doc"),
                    folder_id: clone_opt_string(&d.folder_id),
                    category: None,
                    doc_type: Some(d.doc_type.clone()),
                    is_favorite: d.is_favorite,
                    created_at: d.created_at,
                };
                proof {
                    assert(presents_doc(x, self.docs@[i as int]));
                }
                let ghost pre = res@;
                res.push(x);
                proof {
                    assert forall|t: int| 0 <= t < res@.len() implies presents_some_hit(
                        #[trigger] res@[t],
                        self.docs@,
                        self.outputs@,
                        project_id@,
                        query@,
                    ) by {
                        if t < pre.len() {
                            assert(res@[t] == pre[t]);
                        } else {
                            assert(res@[t] == x);
                            assert(doc_hit(self.docs@[i as int], project_id@, query@));
                        }
                    }
                    assert forall|j: int|
                        0 <= j < i + 1 && doc_hit(
                            #[trigger] self.docs@[j],
                            project_id@,
                            query@,
                        ) implies exists|t: int|
                        0 <= t < res@.len() && presents_doc(#[trigger] res@[t], self.docs@[j]) by {
                        if j < i {
                            let w = choose|w: int|
                                0 <= w < pre.len() && presents_doc(
                                    #[trigger] pre[w],
                                    self.docs@[j],
                                );
                            assert(res@[w] == pre[w]);
                            assert(presents_doc(res@[w], self.docs@[j]));
                        } else {
                            assert(presents_doc(res@[pre.len() as int], self.docs@[j]));
                        }
                    }
                }
            }
        }
        proof {
            assert(self.docs@.take(nd as int) =~= self.docs@);
        }
        let no = self.outputs.len();
        for i in 0..no
            invariant
                no == self.outputs@.len(),
                res@.len() == docs_hits(self.docs@, project_id@, query@).len() + outputs_hits(
                    self.outputs@.take(i as int),
                    project_id@,
                    query@,
                ).len(),
                forall|t: int|
                    0 <= t < res@.len() ==> presents_some_hit(
                        #[trigger] res@[t],
                        self.docs@,
                        self.outputs@,
                        project_id@,
                        query@,
                    ),
                forall|j: int|
                    0 <= j < self.docs@.len() && doc_hit(
                        #[trigger] self.docs@[j],
                        project_id@,
                        query@,
                    ) ==> exists|t: int|
                        0 <= t < res@.len() && presents_doc(#[trigger] res@[t], self.docs@[j]),
                forall|j: int|
                    0 <= j < i && output_hit(#[trigger] self.outputs@[j], project_id@, query@)
                        ==> exists|t: int|
                        0 <= t < res@.len() && presents_output(#[trigger] res@[t], self.outputs@[j]),
        {
            proof {
                assert(self.outputs@.take(i + 1).drop_last() =~= self.outputs@.take(i as int));
                assert(self.outputs@.take(i + 1).last() == self.outputs@[i as int]);
            }
            let o = &self.outputs[i];
            let hit = str_eq(o.project_id.as_str(), project_id) && (crate::text::contains_like(
                o.name.as_str(),
                query,
            ) || crate::text::contains_like(o.tags.as_str(), query));
            if hit {
                let x = SearchResult {
                    id: o.id.clone(),
                    name: o.name.clone(),
                    item_type: String::from_str("framework_output"),
                    folder_id: clone_opt_string(&o.folder_id),
                    category: Some(o.category.clone()),
                    doc_type: None,
                    is_favorite: o.is_favorite,
                    created_at: o.created_at,
                };
                proof {
                    assert(presents_output(x, self.outputs@[i as int]));
                }
                let ghost pre = res@;
                res.push(x);
                proof {
                    assert forall|t: int| 0 <= t < res@.len() implies presents_some_hit(
                        #[trigger] res@[t],
                        self.docs@,
                        self.outputs@,
                        project_id@,
                        query@,
                    ) by {
                        if t < pre.len() {
                            assert(res@[t] == pre[t]);
                        } else {
                            assert(res@[t] == x);
                            assert(output_hit(self.outputs@[i as int], project_id@, query@));
                        }
                    }
                    assert forall|j: int|
                        0 <= j < self.docs@.len() && doc_hit(
                            #[trigger] self.docs@[j],
                            project_id@,
                            query@,
                        ) implies exists|t: int|
                        0 <= t < res@.len() && presents_doc(#[trigger] res@[t], self.docs@[j]) by {
                        let w = choose|w: int|
                            0 <= w < pre.len() && presents_doc(#[trigger] pre[w], self.docs@[j]);
                        assert(res@[w] == pre[w]);
                        assert(presents_doc(res@[w], self.docs@[j]));
                    }
                    assert forall|j: int|
                        0 <= j < i + 1 && output_hit(
                            #[trigger] self.outputs@[j],
                            project_id@,
                            query@,
                        ) implies exists|t: int|
                        0 <= t < res@.len() && presents_output(
                            #[trigger] res@[t],
                            self.outputs@[j],
                        ) by {
                        if j < i {
                            let w = choose|w: int|
                                0 <= w < pre.len() && presents_output(
                                    #[trigger] pre[w],
                                    self.outputs@[j],
                                );
                            assert(res@[w] == pre[w]);
                            assert(presents_output(res@[w], self.outputs@[j]));
                        } else {
                            assert(presents_output(res@[pre.len() as int], self.outputs@[j]));
                        }
                    }
                }
            }
        }
        proof {
            assert(self.outputs@.take(no as int) =~= self.outputs@);
        }
        let ghost unsorted = res@;
        let out = sort_rows(res);
        proof {
            vstd::seq_lib::to_multiset_len(out@);
            vstd::seq_lib::to_multiset_len(unsorted);
            assert(out@.len() == unsorted.len());
            assert forall|t: int| 0 <= t < out@.len() implies presents_some_hit(
                #[trigger] out@[t],
                self.docs@,
                self.outputs@,
                project_id@,
                query@,
            ) by {
                assert(out@.to_multiset().count(out@[t]) > 0);
                assert(unsorted.contains(out@[t]));
                let w = choose|w: int| 0 <= w < unsorted.len() && unsorted[w] == out@[t];
            }
            assert forall|j: int|
                0 <= j < self.docs@.len() && doc_hit(
                    #[trigger] self.docs@[j],
                    project_id@,
                    query@,
                ) implies exists|t: int|
                0 <= t < out@.len() && presents_doc(#[trigger] out@[t], self.docs@[j]) by {
                let w = choose|w: int|
                    0 <= w < unsorted.len() && presents_doc(#[trigger] unsorted[w], self.docs@[j]);
                assert(unsorted.contains(unsorted[w]));
                assert(unsorted.to_multiset().count(unsorted[w]) > 0);
                assert(out@.contains(unsorted[w]));
                let t = choose|t: int| 0 <= t < out@.len() && out@[t] == unsorted[w];
                assert(presents_doc(out@[t], self.docs@[j]));
            }
            assert forall|j: int|
                0 <= j < self.outputs@.len() && output_hit(
                    #[trigger] self.outputs@[j],
                    project_id@,
                    query@,
                ) implies exists|t: int|
                0 <= t < out@.len() && presents_output(#[trigger] out@[t], self.outputs@[j]) by {
                let w = choose|w: int|
                    0 <= w < unsorted.len() && presents_output(
                        #[trigger] unsorted[w],
                        self.outputs@[j],
                    );
                assert(unsorted.contains(unsorted[w]));
                assert(unsorted.to_multiset().count(unsorted[w]) > 0);
                assert(out@.contains(unsorted[w]));
                let t = choose|t: int| 0 <= t < out@.len() && out@[t] == unsorted[w];
                assert(presents_output(out@[t], self.outputs@[j]));
            }
        }
        out
    }

    /// Moves one foldered item — a context document or a framework
    /// output — into a folder, or out of any (`None`). An unknown item id
    /// changes nothing; an unknown item kind is rejected.
    pub fn move_item_to_folder(
        &mut self,
        item_id: &str,
        item_type: &str,
        folder_id: Option<String>,
    ) -> (r: Result<(), StoreError>)
        requires
            old(self).wf(),
        ensures
            final(self).wf(),
            match r {
                Ok(()) => {
                    &&& (item_type@ == "context_doc"@ || item_type@ == "framework_output"@)
                    &&& item_type@ == "context_doc"@ ==> {
                        &&& old(self).same_but_docs(*final(self))
                        &&& !has_key(old(self).docs@, item_id@) ==> *final(self) == *old(self)
                        &&& has_key(old(self).docs@, item_id@) ==> {
                            let i = key_idx(old(self).docs@, item_id@);
                            let prev = old(self).docs@[i];
                            let row = final(self).docs@[i];
                            &&& final(self).docs@ == old(self).docs@.update(i, row)
                            &&& row.folder_id == folder_id
                            &&& row.id == prev.id
                            &&& row.project_id == prev.project_id
                            &&& row.name == prev.name
                            &&& row.doc_type == prev.doc_type
                            &&& row.content == prev.content
                            &&& row.url == prev.url
                            &&& row.is_global == prev.is_global
                            &&& row.size_bytes == prev.size_bytes
                            &&& row.created_at == prev.created_at
                            &&& row.tags == prev.tags
                            &&& row.is_favorite == prev.is_favorite
                            &&& row.sort_order == prev.sort_order
                        }
                    }
                    &&& item_type@ == "framework_output"@ ==> {
                        &&& old(self).same_but_outputs(*final(self))
                        &&& !has_key(old(self).outputs@, item_id@) ==> *final(self) == *old(self)
                        &&& has_key(old(self).outputs@, item_id@) ==> {
                            let i = key_idx(old(self).outputs@, item_id@);
                            let prev = old(self).outputs@[i];
                            let row = final(self).outputs@[i];
                            &&& final(self).outputs@ == old(self).outputs@.update(i, row)
                            &&& row.folder_id == folder_id
                            &&& row.id == prev.id
                            &&& row.project_id == prev.project_id
                            &&& row.framework_id == prev.framework_id
                            &&& row.category == prev.category
                            &&& row.name == prev.name
                            &&& row.user_prompt == prev.user_prompt
                            &&& row.context_doc_ids == prev.context_doc_ids
                            &&& row.generated_content == prev.generated_content
                            &&& row.format == prev.format
                            &&& row.created_at == prev.created_at
                            &&& row.updated_at == prev.updated_at
                            &&& row.tags == prev.tags
                            &&& row.is_favorite == prev.is_favorite
                            &&& row.sort_order == prev.sort_order
                        }
                    }
                },
                Err(e) => {
                    &&& e == StoreError::InvalidItemKind
                    &&& item_type@ != "context_doc"@
                    &&& item_type@ != "framework_output"@
                    &&& *final(self) == *old(self)
                },
            },
    {
        proof {
            reveal_strlit("context_doc");
            reveal_strlit("framework_output");
            assert("context_doc"@.len() == 11);
            assert("framework_output"@.len() == 16);
        }
        if str_eq(item_type, "context_doc") {
            match find_key(&self.docs, item_id) {
                None => Ok(()),
                Some(i) => {
                    proof {
                        lemma_key_idx(self.docs@, item_id@, i as int);
                    }
                    let prev = self.docs.remove(i);
                    let row = crate::rows::ContextDocument { folder_id, ..prev };
                    self.docs.insert(i, row);
                    proof {
                        let fr = final(self).docs@[i as int];
                        assert(self.docs@ =~= old(self).docs@.update(i as int, fr));
                        lemma_keys_unique_update(old(self).docs@, i as int, fr);
                    }
                    Ok(())
                },
            }
        } else if str_eq(item_type, "framework_output") {
            match find_key(&self.outputs, item_id) {
                None => Ok(()),
                Some(i) => {
                    proof {
                        lemma_key_idx(self.outputs@, item_id@, i as int);
                    }
                    let prev = self.outputs.remove(i);
                    let row = crate::rows::FrameworkOutput { folder_id, ..prev };
                    self.outputs.insert(i, row);
                    proof {
                        let fr = final(self).outputs@[i as int];
                        assert(self.outputs@ =~= old(self).outputs@.update(i as int, fr));
                        lemma_keys_unique_update(old(self).outputs@, i as int, fr);
                    }
                    Ok(())
                },
            }
        } else {
            Err(StoreError::InvalidItemKind)
        }
    }

    /// Sets the favorite flag of one foldered item. An unknown item id
    /// changes nothing; an unknown item kind is rejected.
    pub fn toggle_item_favorite(
        &mut self,
        item_id: &str,
        item_type: &str,
        is_favorite: bool,
    ) -> (r: Result<(), StoreError>)
        requires
            old(self).wf(),
        ensures
            final(self).wf(),
            match r {
                Ok(()) => {
                    &&& (item_type@ == "context_doc"@ || item_type@ == "framework_output"@)
                    &&& item_type@ == "context_doc"@ ==> {
                        &&& old(self).same_but_docs(*final(self))
                        &&& !has_key(old(self).docs@, item_id@) ==> *final(self) == *old(self)
                        &&& has_key(old(self).docs@, item_id@) ==> {
                            let i = key_idx(old(self).docs@, item_id@);
                            let prev = old(self).docs@[i];
                            let row = final(self).docs@[i];
                            &&& final(self).docs@ == old(self).docs@.update(i, row)
                            &&& row.is_favorite == is_favorite
                            &&& row.id == prev.id
                            &&& row.project_id == prev.project_id
                            &&& row.name == prev.name
                            &&& row.doc_type == prev.doc_type
                            &&& row.content == prev.content
                            &&& row.url == prev.url
                            &&& row.is_global == prev.is_global
                            &&& row.size_bytes == prev.size_bytes
                            &&& row.created_at == prev.created_at
                            &&& row.folder_id == prev.folder_id
                            &&& row.tags == prev.tags
                            &&& row.sort_order == prev.sort_order
                        }
                    }
                    &&& item_type@ == "framework_output"@ ==> {
                        &&& old(self).same_but_outputs(*final(self))
                        &&& !has_key(old(self).outputs@, item_id@) ==> *final(self) == *old(self)
                        &&& has_key(old(self).outputs@, item_id@) ==> {
                            let i = key_idx(old(self).outputs@, item_id@);
                            let prev = old(self).outputs@[i];
                            let row = final(self).outputs@[i];
                            &&& final(self).outputs@ == old(self).outputs@.update(i, row)
                            &&& row.is_favorite == is_favorite
                            &&& row.id == prev.id
                            &&& row.project_id == prev.project_id
                            &&& row.framework_id == prev.framework_id
                            &&& row.category == prev.category
                            &&& row.name == prev.name
                            &&& row.user_prompt == prev.user_prompt
                            &&& row.context_doc_ids == prev.context_doc_ids
                            &&& row.generated_content == prev.generated_content
                            &&& row.format == prev.format
                            &&& row.created_at == prev.created_at
                            &&& row.updated_at == prev.updated_at
                            &&& row.folder_id == prev.folder_id
                            &&& row.tags == prev.tags
                            &&& row.sort_order == prev.sort_order
                        }
                    }
                },
                Err(e) => {
                    &&& e == StoreError::InvalidItemKind
                    &&& item_type@ != "context_doc"@
                    &&& item_type@ != "framework_output"@
                    &&& *final(self) == *old(self)
                },
            },
    {
        proof {
            reveal_strlit("context_doc");
            reveal_strlit("framework_output");
            assert("context_doc"@.len() == 11);
            assert("framework_output"@.len() == 16);
        }
        if str_eq(item_type, "context_doc") {
            match find_key(&self.docs, item_id) {
                None => Ok(()),
                Some(i) => {
                    proof {
                        lemma_key_idx(self.docs@, item_id@, i as int);
                    }
                    let prev = self.docs.remove(i);
                    let row = crate::rows::ContextDocument { is_favorite, ..prev };
                    self.docs.insert(i, row);
                    proof {
                        let fr = final(self).docs@[i as int];
                        assert(self.docs@ =~= old(self).docs@.update(i as int, fr));
                        lemma_keys_unique_update(old(self).docs@, i as int, fr);
                    }
                    Ok(())
                },
            }
        } else if str_eq(item_type, "framework_output") {
            match find_key(&self.outputs, item_id) {
                None => Ok(()),
                Some(i) => {
                    proof {
                        lemma_key_idx(self.outputs@, item_id@, i as int);
                    }
                    let prev = self.outputs.remove(i);
                    let row = crate::rows::FrameworkOutput { is_favorite, ..prev };
                    self.outputs.insert(i, row);
                    proof {
                        let fr = final(self).outputs@[i as int];
                        assert(self.outputs@ =~= old(self).outputs@.update(i as int, fr));
                        lemma_keys_unique_update(old(self).outputs@, i as int, fr);
                    }
                    Ok(())
                },
            }
        } else {
            Err(StoreError::InvalidItemKind)
        }
    }
}

} // verus!
