use vstd::prelude::*;
use crate::rows::{
    ContextDocument, Folder, FrameworkCategoryRow, FrameworkDefRow, FrameworkOutput, SavedPromptRow,
    Settings,
};
use crate::text::str_eq;

verus! {

/// Relies on uuid's `Uuid::new_v4`: a fresh random identifier in the
/// 36-character hyphenated form. Nothing is assumed of the value beyond
/// its length.
#[verifier::external_body]
pub fn fresh_uuid() -> (r: String)
    ensures
        r@.len() == 36,
{
    uuid::Uuid::new_v4().to_string()
}

/// A table row addressed by its id.
pub trait Keyed: Sized {
    spec fn key(self) -> Seq<char>;

    fn key_eq(&self, id: &str) -> (r: bool)
        ensures
            r == (self.key() == id@),
    ;
}

/// Whether some row of the table carries the id.
pub open spec fn has_key<T: Keyed>(s: Seq<T>, id: Seq<char>) -> bool {
    exists|i: int| 0 <= i < s.len() && (#[trigger] s[i]).key() == id
}

/// The index of the row carrying the id; under [`keys_unique`] it is the
/// only one.
pub open spec fn key_idx<T: Keyed>(s: Seq<T>, id: Seq<char>) -> int {
    choose|i: int| 0 <= i < s.len() && (#[trigger] s[i]).key() == id
}

/// No two rows of the table share an id.
pub open spec fn keys_unique<T: Keyed>(s: Seq<T>) -> bool {
    forall|i: int, j: int|
        0 <= i < j < s.len() ==> (#[trigger] s[i]).key() != (#[trigger] s[j]).key()
}

/// In a table with unique ids, any match is the match.
pub proof fn lemma_key_idx<T: Keyed>(s: Seq<T>, id: Seq<char>, i: int)
    requires
        keys_unique(s),
        0 <= i < s.len(),
        s[i].key() == id,
    ensures
        has_key(s, id),
        key_idx(s, id) == i,
{
    assert(has_key(s, id));
    let j = key_idx(s, id);
    if i != j {
        assert(s[i].key() != s[j].key());
    }
}

/// Finds the first row carrying the id.
pub fn find_key<T: Keyed>(v: &Vec<T>, id: &str) -> (r: Option<usize>)
    ensures
        match r {
            Some(i) => i < v@.len() && v@[i as int].key() == id@ && (forall|k: int|
                0 <= k < i ==> (#[trigger] v@[k]).key() != id@),
            None => !has_key(v@, id@),
        },
{
    let n = v.len();
    for i in 0..n
        invariant
            n == v@.len(),
            forall|k: int| 0 <= k < i ==> (#[trigger] v@[k]).key() != id@,
    {
        if v[i].key_eq(id) {
            return Some(i);
        }
    }
    None
}

/// A row whose clone keeps the value exactly.
pub trait CloneExact: Sized {
    fn clone_exact(&self) -> (r: Self)
        ensures
            r == *self,
    ;
}

/// Copies a table, keeping every row exactly.
pub fn clone_vec<T: CloneExact>(v: &Vec<T>) -> (r: Vec<T>)
    ensures
        r@ == v@,
{
    let n = v.len();
    let mut out: Vec<T> = Vec::new();
    for i in 0..n
        invariant
            n == v@.len(),
            out@ == v@.take(i as int),
    {
        out.push(v[i].clone_exact());
        proof {
            assert(v@.take(i + 1) =~= v@.take(i as int).push(v@[i as int]));
        }
    }
    proof {
        assert(v@.take(n as int) =~= v@);
    }
    out
}

impl Keyed for FrameworkCategoryRow {
    open spec fn key(self) -> Seq<char> {
        self.id@
    }

    fn key_eq(&self, id: &str) -> bool {
        str_eq(self.id.as_str(), id)
    }
}

impl Keyed for FrameworkDefRow {
    open spec fn key(self) -> Seq<char> {
        self.id@
    }

    fn key_eq(&self, id: &str) -> bool {
        str_eq(self.id.as_str(), id)
    }
}

impl Keyed for SavedPromptRow {
    open spec fn key(self) -> Seq<char> {
        self.id@
    }

    fn key_eq(&self, id: &str) -> bool {
        str_eq(self.id.as_str(), id)
    }
}

impl Keyed for Folder {
    open spec fn key(self) -> Seq<char> {
        self.id@
    }

    fn key_eq(&self, id: &str) -> bool {
        str_eq(self.id.as_str(), id)
    }
}

impl Keyed for ContextDocument {
    open spec fn key(self) -> Seq<char> {
        self.id@
    }

    fn key_eq(&self, id: &str) -> bool {
        str_eq(self.id.as_str(), id)
    }
}

impl Keyed for FrameworkOutput {
    open spec fn key(self) -> Seq<char> {
        self.id@
    }

    fn key_eq(&self, id: &str) -> bool {
        str_eq(self.id.as_str(), id)
    }
}

impl CloneExact for FrameworkCategoryRow {
    fn clone_exact(&self) -> Self {
        self.clone()
    }
}

impl CloneExact for FrameworkDefRow {
    fn clone_exact(&self) -> Self {
        self.clone()
    }
}

impl CloneExact for SavedPromptRow {
    fn clone_exact(&self) -> Self {
        self.clone()
    }
}

impl CloneExact for Folder {
    fn clone_exact(&self) -> Self {
        self.clone()
    }
}

impl CloneExact for ContextDocument {
    fn clone_exact(&self) -> Self {
        self.clone()
    }
}

impl CloneExact for FrameworkOutput {
    fn clone_exact(&self) -> Self {
        self.clone()
    }
}

/// The whole in-memory store: the three overridable catalogs, the folder
/// tree with its two foldered item tables, and the settings singleton.
/// Persistence (the relational file) lives outside the library and mirrors
/// this state.
pub struct Workspace {
    pub categories: Vec<FrameworkCategoryRow>,
    pub defs: Vec<FrameworkDefRow>,
    pub prompts: Vec<SavedPromptRow>,
    pub folders: Vec<Folder>,
    pub docs: Vec<ContextDocument>,
    pub outputs: Vec<FrameworkOutput>,
    pub settings: Option<Settings>,
}

impl Workspace {
    /// Every table keeps its primary-key invariant: ids are unique.
    pub open spec fn wf(self) -> bool {
        &&& keys_unique(self.categories@)
        &&& keys_unique(self.defs@)
        &&& keys_unique(self.prompts@)
        &&& keys_unique(self.folders@)
        &&& keys_unique(self.docs@)
        &&& keys_unique(self.outputs@)
    }

    /// A fresh, empty store.
    pub fn new() -> (r: Workspace)
        ensures
            r.wf(),
            r.categories@.len() == 0,
            r.defs@.len() == 0,
            r.prompts@.len() == 0,
            r.folders@.len() == 0,
            r.docs@.len() == 0,
            r.outputs@.len() == 0,
            r.settings is None,
    {
        Workspace {
            categories: Vec::new(),
            defs: Vec::new(),
            prompts: Vec::new(),
            folders: Vec::new(),
            docs: Vec::new(),
            outputs: Vec::new(),
            settings: None,
        }
    }
}

} // verus!
