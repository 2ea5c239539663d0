use vstd::prelude::*;
use vstd::utf8::encode_utf8;
use crate::catalog::{lemma_keys_unique_push, lemma_keys_unique_update};
use crate::error::StoreError;
use crate::order::{ord_sorted, sort_rows};
use crate::rows::{clone_opt_string, ContextDocument, FrameworkOutput};
use crate::store::{find_key, fresh_uuid, has_key, key_idx, lemma_key_idx, Workspace};
use crate::text::str_eq;

verus! {

/// The stored byte size of a document body: its UTF-8 length as the
/// machine reports it, saturated to the column's signed 64-bit range.
pub open spec fn stored_size(content: Seq<char>) -> int {
    let l = encode_utf8(content).len() as usize;
    if (l as u64) > (i64::MAX as u64) {
        i64::MAX as int
    } else {
        l as int
    }
}

/// The context documents of one project, in table order.
pub open spec fn docs_in_project(s: Seq<ContextDocument>, proj: Seq<char>) -> Seq<ContextDocument>
    decreases s.len(),
{
    if s.len() == 0 {
        s
    } else {
        let rest = docs_in_project(s.drop_last(), proj);
        if s.last().project_id@ == proj {
            rest.push(s.last())
        } else {
            rest
        }
    }
}

/// The framework outputs of one project, in table order.
pub open spec fn outputs_in_project(s: Seq<FrameworkOutput>, proj: Seq<char>) -> Seq<
    FrameworkOutput,
>
    decreases s.len(),
{
    if s.len() == 0 {
        s
    } else {
        let rest = outputs_in_project(s.drop_last(), proj);
        if s.last().project_id@ == proj {
            rest.push(s.last())
        } else {
            rest
        }
    }
}

fn docs_in_project_exec(v: &Vec<ContextDocument>, proj: &str) -> (r: Vec<ContextDocument>)
    ensures
        r@ == docs_in_project(v@, proj@),
{
    let n = v.len();
    let mut out: Vec<ContextDocument> = Vec::new();
    for i in 0..n
        invariant
            n == v@.len(),
            out@ == docs_in_project(v@.take(i as int), proj@),
    {
        proof {
            assert(v@.take(i + 1).drop_last() =~= v@.take(i as int));
            assert(v@.take(i + 1).last() == v@[i as int]);
        }
        if str_eq(v[i].project_id.as_str(), proj) {
            out.push(v[i].clone());
        }
    }
    proof {
        assert(v@.take(n as int) =~= v@);
    }
    out
}

fn outputs_in_project_exec(v: &Vec<FrameworkOutput>, proj: &str) -> (r: Vec<FrameworkOutput>)
    ensures
        r@ == outputs_in_project(v@, proj@),
{
    let n = v.len();
    let mut out: Vec<FrameworkOutput> = Vec::new();
    for i in 0..n
        invariant
            n == v@.len(),
            out@ == outputs_in_project(v@.take(i as int), proj@),
    {
        proof {
            assert(v@.take(i + 1).drop_last() =~= v@.take(i as int));
            assert(v@.take(i + 1).last() == v@[i as int]);
        }
        if str_eq(v[i].project_id.as_str(), proj) {
            out.push(v[i].clone());
        }
    }
    proof {
        assert(v@.take(n as int) =~= v@);
    }
    out
}

impl Workspace {
    /// Nothing outside the context-document table changed.
    pub open spec fn same_but_docs(self, other: Workspace) -> bool {
        &&& self.categories@ == other.categories@
        &&& self.defs@ == other.defs@
        &&& self.prompts@ == other.prompts@
        &&& self.folders@ == other.folders@
        &&& self.outputs@ == other.outputs@
        &&& self.settings == other.settings
    }

    /// Nothing outside the framework-output table changed.
    pub open spec fn same_but_outputs(self, other: Workspace) -> bool {
        &&& self.categories@ == other.categories@
        &&& self.defs@ == other.defs@
        &&& self.prompts@ == other.prompts@
        &&& self.folders@ == other.folders@
        &&& self.docs@ == other.docs@
        &&& self.settings == other.settings
    }

    /// Files a context document under a given fresh id: unfiled, untagged,
    /// not a favorite, with `size_bytes` the byte length of its body at
    /// creation.
    pub fn create_context_document_with_id(
        &mut self,
        id: &str,
        project_id: &str,
        name: &str,
        doc_type: &str,
        content: &str,
        url: Option<String>,
        is_global: bool,
        now: i64,
    ) -> (r: Result<ContextDocument, StoreError>)
        requires
            old(self).wf(),
        ensures
            final(self).wf(),
            old(self).same_but_docs(*final(self)),
            match r {
                Ok(row) => {
                    &&& !has_key(old(self).docs@, id@)
                    &&& final(self).docs@ == old(self).docs@.push(row)
                    &&& row.id@ == id@
                    &&& row.project_id@ == project_id@
                    &&& row.name@ == name@
                    &&& row.doc_type@ == doc_type@
                    &&& row.content@ == content@
                    &&& row.url == url
                    &&& row.is_global == is_global
                    &&& row.size_bytes as int == stored_size(content@)
                    &&& row.created_at == now
                    &&& row.folder_id is None
                    &&& row.tags@ == "[]"@
                    &&& row.is_favorite == false
                    &&& row.sort_order == 0
                },
                Err(e) => {
                    &&& e == StoreError::DuplicateId
                    &&& has_key(old(self).docs@, id@)
                    &&& *final(self) == *old(self)
                },
            },
    {
        match find_key(&self.docs, id) {
            Some(_) => Err(StoreError::DuplicateId),
            None => {
                let len = content.len();
                let size_bytes: i64 = if (len as u64) > (i64::MAX as u64) {
                    i64::MAX
                } else {
                    len as i64
                };
                let row = ContextDocument {
                    id: String::from_str(id),
                    project_id: String::from_str(project_id),
                    name: String::from_str(name),
                    doc_type: String::from_str(doc_type),
                    content: String::from_str(content),
                    url,
                    is_global,
                    size_bytes,
                    created_at: now,
                    folder_id: None,
                    tags: String::from_str("[]"),
                    is_favorite: false,
                    sort_order: 0,
                };
                let copy = row.clone();
                proof {
                    lemma_keys_unique_push(self.docs@, row);
                }
                self.docs.push(row);
                Ok(copy)
            },
        }
    }

    /// Files a context document under a freshly drawn random id.
    pub fn create_context_document(
        &mut self,
        project_id: &str,
        name: &str,
        doc_type: &str,
        content: &str,
        url: Option<String>,
        is_global: bool,
        now: i64,
    ) -> (r: Result<ContextDocument, StoreError>)
        requires
            old(self).wf(),
        ensures
            final(self).wf(),
            old(self).same_but_docs(*final(self)),
            match r {
                Ok(row) => {
                    &&& !has_key(old(self).docs@, row.id@)
                    &&& final(self).docs@ == old(self).docs@.push(row)
                    &&& row.project_id@ == project_id@
                    &&& row.name@ == name@
                    &&& row.doc_type@ == doc_type@
                    &&& row.content@ == content@
                    &&& row.url == url
                    &&& row.is_global == is_global
                    &&& row.size_bytes as int == stored_size(content@)
                    &&& row.created_at == now
                    &&& row.folder_id is None
                    &&& row.tags@ == "[]"@
                    &&& row.is_favorite == false
                    &&& row.sort_order == 0
                },
                Err(e) => {
                    &&& e == StoreError::DuplicateId
                    &&& *final(self) == *old(self)
                },
            },
    {
        let id = fresh_uuid();
        self.create_context_document_with_id(
            id.as_str(),
            project_id,
            name,
            doc_type,
            content,
            url,
            is_global,
            now,
        )
    }

    /// The context documents of a project, ordered by `sort_order`, then
    /// newest first.
    pub fn list_context_documents(&self, project_id: &str) -> (r: Vec<ContextDocument>)
        ensures
            ord_sorted::<ContextDocument>(r@),
            r@.to_multiset() == docs_in_project(self.docs@, project_id@).to_multiset(),
    {
        sort_rows(docs_in_project_exec(&self.docs, project_id))
    }

    /// The context document with the id, if it exists.
    pub fn get_context_document(&self, id: &str) -> (r: Option<ContextDocument>)
        requires
            self.wf(),
        ensures
            match r {
                Some(row) => has_key(self.docs@, id@) && row == self.docs@[key_idx(
                    self.docs@,
                    id@,
                )],
                None => !has_key(self.docs@, id@),
            },
    {
        match find_key(&self.docs, id) {
            Some(i) => {
                proof {
                    lemma_key_idx(self.docs@, id@, i as int);
                }
                Some(self.docs[i].clone())
            },
            None => None,
        }
    }

    /// Renames a context document and sets its global flag; nothing else
    /// changes, the stored byte size included.
    pub fn update_context_document(&mut self, id: &str, name: &str, is_global: bool) -> (r: Result<
        ContextDocument,
        StoreError,
    >)
        requires
            old(self).wf(),
        ensures
            final(self).wf(),
            old(self).same_but_docs(*final(self)),
            match r {
                Ok(row) => {
                    &&& has_key(old(self).docs@, id@)
                    &&& {
                        let i = key_idx(old(self).docs@, id@);
                        let prev = old(self).docs@[i];
                        &&& final(self).docs@ == old(self).docs@.update(i, row)
                        &&& row.id@ == id@
                        &&& row.name@ == name@
                        &&& row.is_global == is_global
                        &&& row.project_id == prev.project_id
                        &&& row.doc_type == prev.doc_type
                        &&& row.content == prev.content
                        &&& row.url == prev.url
                        &&& row.size_bytes == prev.size_bytes
                        &&& row.created_at == prev.created_at
                        &&& row.folder_id == prev.folder_id
                        &&& row.tags == prev.tags
                        &&& row.is_favorite == prev.is_favorite
                        &&& row.sort_order == prev.sort_order
                    }
                },
                Err(e) => {
                    &&& e == StoreError::NotFound
                    &&& !has_key(old(self).docs@, id@)
                    &&& *final(self) == *old(self)
                },
            },
    {
        match find_key(&self.docs, id) {
            None => Err(StoreError::NotFound),
            Some(i) => {
                proof {
                    lemma_key_idx(self.docs@, id@, i as int);
                }
                let prev = self.docs.remove(i);
                let row = ContextDocument {
                    name: String::from_str(name),
                    is_global,
                    ..prev
                };
                let copy = row.clone();
                self.docs.insert(i, row);
                proof {
                    assert(self.docs@ =~= old(self).docs@.update(i as int, copy));
                    lemma_keys_unique_update(old(self).docs@, i as int, copy);
                }
                Ok(copy)
            },
        }
    }

    /// Removes a context document; an unknown id removes nothing, as a
    /// storage-level delete of no rows would.
    pub fn delete_context_document(&mut self, id: &str) -> (r: Result<(), StoreError>)
        requires
            old(self).wf(),
        ensures
            final(self).wf(),
            old(self).same_but_docs(*final(self)),
            r is Ok,
            has_key(old(self).docs@, id@) ==> final(self).docs@ == old(self).docs@.remove(
                key_idx(old(self).docs@, id@),
            ),
            !has_key(old(self).docs@, id@) ==> *final(self) == *old(self),
    {
        match find_key(&self.docs, id) {
            None => Ok(()),
            Some(i) => {
                proof {
                    lemma_key_idx(self.docs@, id@, i as int);
                    crate::catalog::lemma_keys_unique_remove(self.docs@, i as int);
                }
                self.docs.remove(i);
                Ok(())
            },
        }
    }

    /// Records a framework output under a given fresh id: unfiled,
    /// untagged, not a favorite.
    pub fn create_framework_output_with_id(
        &mut self,
        id: &str,
        project_id: &str,
        framework_id: &str,
        category: &str,
        name: &str,
        user_prompt: &str,
        context_doc_ids: &str,
        generated_content: &str,
        format: &str,
        now: i64,
    ) -> (r: Result<FrameworkOutput, StoreError>)
        requires
            old(self).wf(),
        ensures
            final(self).wf(),
            old(self).same_but_outputs(*final(self)),
            match r {
                Ok(row) => {
                    &&& !has_key(old(self).outputs@, id@)
                    &&& final(self).outputs@ == old(self).outputs@.push(row)
                    &&& row.id@ == id@
                    &&& row.project_id@ == project_id@
                    &&& row.framework_id@ == framework_id@
                    &&& row.category@ == category@
                    &&& row.name@ == name@
                    &&& row.user_prompt@ == user_prompt@
                    &&& row.context_doc_ids@ == context_doc_ids@
                    &&& row.generated_content@ == generated_content@
                    &&& row.format@ == format@
                    &&& row.created_at == now
                    &&& row.updated_at == now
                    &&& row.folder_id is None
                    &&& row.tags@ == "[]"@
                    &&& row.is_favorite == false
                    &&& row.sort_order == 0
                },
                Err(e) => {
                    &&& e == StoreError::DuplicateId
                    &&& has_key(old(self).outputs@, id@)
                    &&& *final(self) == *old(self)
                },
            },
    {
        match find_key(&self.outputs, id) {
            Some(_) => Err(StoreError::DuplicateId),
            None => {
                let row = FrameworkOutput {
                    id: String::from_str(id),
                    project_id: String::from_str(project_id),
                    framework_id: String::from_str(framework_id),
                    category: String::from_str(category),
                    name: String::from_str(name),
                    user_prompt: String::from_str(user_prompt),
                    context_doc_ids: String::from_str(context_doc_ids),
                    generated_content: String::from_str(generated_content),
                    format: String::from_str(format),
                    created_at: now,
                    updated_at: now,
                    folder_id: None,
                    tags: String::from_str("[]"),
                    is_favorite: false,
                    sort_order: 0,
                };
                let copy = row.clone();
                proof {
                    lemma_keys_unique_push(self.outputs@, row);
                }
                self.outputs.push(row);
                Ok(copy)
            },
        }
    }

    /// Records a framework output under a freshly drawn random id.
    pub fn create_framework_output(
        &mut self,
        project_id: &str,
        framework_id: &str,
        category: &str,
        name: &str,
        user_prompt: &str,
        context_doc_ids: &str,
        generated_content: &str,
        format: &str,
        now: i64,
    ) -> (r: Result<FrameworkOutput, StoreError>)
        requires
            old(self).wf(),
        ensures
            final(self).wf(),
            old(self).same_but_outputs(*final(self)),
            match r {
                Ok(row) => {
                    &&& !has_key(old(self).outputs@, row.id@)
                    &&& final(self).outputs@ == old(self).outputs@.push(row)
                    &&& row.project_id@ == project_id@
                    &&& row.framework_id@ == framework_id@
                    &&& row.category@ == category@
                    &&& row.name@ == name@
                    &&& row.user_prompt@ == user_prompt@
                    &&& row.context_doc_ids@ == context_doc_ids@
                    &&& row.generated_content@ == generated_content@
                    &&& row.format@ == format@
                    &&& row.created_at == now
                    &&& row.updated_at == now
                    &&& row.folder_id is None
                    &&& row.tags@ == "[]"@
                    &&& row.is_favorite == false
                    &&& row.sort_order == 0
                },
                Err(e) => {
                    &&& e == StoreError::DuplicateId
                    &&& *final(self) == *old(self)
                },
            },
    {
        let id = fresh_uuid();
        self.create_framework_output_with_id(
            id.as_str(),
            project_id,
            framework_id,
            category,
            name,
            user_prompt,
            context_doc_ids,
            generated_content,
            format,
            now,
        )
    }

    /// The framework outputs of a project, ordered by `sort_order`, then
    /// most recently updated first.
    pub fn list_framework_outputs(&self, project_id: &str) -> (r: Vec<FrameworkOutput>)
        ensures
            ord_sorted::<FrameworkOutput>(r@),
            r@.to_multiset() == outputs_in_project(self.outputs@, project_id@).to_multiset(),
    {
        sort_rows(outputs_in_project_exec(&self.outputs, project_id))
    }

    /// The framework output with the id, if it exists.
    pub fn get_framework_output(&self, id: &str) -> (r: Option<FrameworkOutput>)
        requires
            self.wf(),
        ensures
            match r {
                Some(row) => has_key(self.outputs@, id@) && row == self.outputs@[key_idx(
                    self.outputs@,
                    id@,
                )],
                None => !has_key(self.outputs@, id@),
            },
    {
        match find_key(&self.outputs, id) {
            Some(i) => {
                proof {
                    lemma_key_idx(self.outputs@, id@, i as int);
                }
                Some(self.outputs[i].clone())
            },
            None => None,
        }
    }

    /// Renames a framework output and replaces its generated content;
    /// `updated_at` is refreshed, everything else kept.
    pub fn update_framework_output(
        &mut self,
        id: &str,
        name: &str,
        generated_content: &str,
        now: i64,
    ) -> (r: Result<FrameworkOutput, StoreError>)
        requires
            old(self).wf(),
        ensures
            final(self).wf(),
            old(self).same_but_outputs(*final(self)),
            match r {
                Ok(row) => {
                    &&& has_key(old(self).outputs@, id@)
                    &&& {
                        let i = key_idx(old(self).outputs@, id@);
                        let prev = old(self).outputs@[i];
                        &&& final(self).outputs@ == old(self).outputs@.update(i, row)
                        &&& row.id@ == id@
                        &&& row.name@ == name@
                        &&& row.generated_content@ == generated_content@
                        &&& row.updated_at == now
                        &&& row.project_id == prev.project_id
                        &&& row.framework_id == prev.framework_id
                        &&& row.category == prev.category
                        &&& row.user_prompt == prev.user_prompt
                        &&& row.context_doc_ids == prev.context_doc_ids
                        &&& row.format == prev.format
                        &&& row.created_at == prev.created_at
                        &&& row.folder_id == prev.folder_id
                        &&& row.tags == prev.tags
                        &&& row.is_favorite == prev.is_favorite
                        &&& row.sort_order == prev.sort_order
                    }
                },
                Err(e) => {
                    &&& e == StoreError::NotFound
                    &&& !has_key(old(self).outputs@, id@)
                    &&& *final(self) == *old(self)
                },
            },
    {
        match find_key(&self.outputs, id) {
            None => Err(StoreError::NotFound),
            Some(i) => {
                proof {
                    lemma_key_idx(self.outputs@, id@, i as int);
                }
                let prev = self.outputs.remove(i);
                let row = FrameworkOutput {
                    name: String::from_str(name),
                    generated_content: String::from_str(generated_content),
                    updated_at: now,
                    ..prev
                };
                let copy = row.clone();
                self.outputs.insert(i, row);
                proof {
                    assert(self.outputs@ =~= old(self).outputs@.update(i as int, copy));
                    lemma_keys_unique_update(old(self).outputs@, i as int, copy);
                }
                Ok(copy)
            },
        }
    }

    /// Removes a framework output; an unknown id removes nothing, as a
    /// storage-level delete of no rows would.
    pub fn delete_framework_output(&mut self, id: &str) -> (r: Result<(), StoreError>)
        requires
            old(self).wf(),
        ensures
            final(self).wf(),
            old(self).same_but_outputs(*final(self)),
            r is Ok,
            has_key(old(self).outputs@, id@) ==> final(self).outputs@ == old(
                self,
            ).outputs@.remove(key_idx(old(self).outputs@, id@)),
            !has_key(old(self).outputs@, id@) ==> *final(self) == *old(self),
    {
        match find_key(&self.outputs, id) {
            None => Ok(()),
            Some(i) => {
                proof {
                    lemma_key_idx(self.outputs@, id@, i as int);
                    crate::catalog::lemma_keys_unique_remove(self.outputs@, i as int);
                }
                self.outputs.remove(i);
                Ok(())
            },
        }
    }
}

} // verus!
