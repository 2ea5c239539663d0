use vstd::prelude::*;

verus! {

/// Clones an optional string, keeping the value exactly.
pub fn clone_opt_string(s: &Option<String>) -> (r: Option<String>)
    ensures
        r == *s,
{
    match s {
        Some(x) => Some(x.clone()),
        None => None,
    }
}

/// One catalog category; builtin rows come from seed data.
#[derive(Debug)]
pub struct FrameworkCategoryRow {
    pub id: String,
    pub name: String,
    pub description: String,
    pub icon: String,
    pub is_builtin: bool,
    pub sort_order: i32,
    pub created_at: i64,
    pub updated_at: i64,
}

impl Clone for FrameworkCategoryRow {
    fn clone(&self) -> (r: Self)
        ensures
            r == *self,
    {
        FrameworkCategoryRow {
            id: self.id.clone(),
            name: self.name.clone(),
            description: self.description.clone(),
            icon: self.icon.clone(),
            is_builtin: self.is_builtin,
            sort_order: self.sort_order,
            created_at: self.created_at,
            updated_at: self.updated_at,
        }
    }
}

/// One framework definition; content fields can be reset to their seed values.
#[derive(Debug)]
pub struct FrameworkDefRow {
    pub id: String,
    pub category: String,
    pub name: String,
    pub description: String,
    pub icon: String,
    pub example_output: String,
    pub system_prompt: String,
    pub guiding_questions: String,
    pub supports_visuals: bool,
    pub visual_instructions: Option<String>,
    pub is_builtin: bool,
    pub sort_order: i32,
    pub created_at: i64,
    pub updated_at: i64,
}

impl Clone for FrameworkDefRow {
    fn clone(&self) -> (r: Self)
        ensures
            r == *self,
    {
        FrameworkDefRow {
            id: self.id.clone(),
            category: self.category.clone(),
            name: self.name.clone(),
            description: self.description.clone(),
            icon: self.icon.clone(),
            example_output: self.example_output.clone(),
            system_prompt: self.system_prompt.clone(),
            guiding_questions: self.guiding_questions.clone(),
            supports_visuals: self.supports_visuals,
            visual_instructions: clone_opt_string(&self.visual_instructions),
            is_builtin: self.is_builtin,
            sort_order: self.sort_order,
            created_at: self.created_at,
            updated_at: self.updated_at,
        }
    }
}

/// One saved prompt; `usage_count` only ever grows.
#[derive(Debug)]
pub struct SavedPromptRow {
    pub id: String,
    pub name: String,
    pub description: String,
    pub category: String,
    pub prompt_text: String,
    pub variables: String,
    pub framework_id: Option<String>,
    pub is_builtin: bool,
    pub is_favorite: bool,
    pub usage_count: i32,
    pub sort_order: i32,
    pub created_at: i64,
    pub updated_at: i64,
}

impl Clone for SavedPromptRow {
    fn clone(&self) -> (r: Self)
        ensures
            r == *self,
    {
        SavedPromptRow {
            id: self.id.clone(),
            name: self.name.clone(),
            description: self.description.clone(),
            category: self.category.clone(),
            prompt_text: self.prompt_text.clone(),
            variables: self.variables.clone(),
            framework_id: clone_opt_string(&self.framework_id),
            is_builtin: self.is_builtin,
            is_favorite: self.is_favorite,
            usage_count: self.usage_count,
            sort_order: self.sort_order,
            created_at: self.created_at,
            updated_at: self.updated_at,
        }
    }
}

/// One folder of a project's tree; `parent_id` is `None` at a root.
#[derive(Debug)]
pub struct Folder {
    pub id: String,
    pub project_id: String,
    pub parent_id: Option<String>,
    pub name: String,
    pub color: Option<String>,
    pub sort_order: i32,
    pub created_at: i64,
    pub updated_at: i64,
}

impl Clone for Folder {
    fn clone(&self) -> (r: Self)
        ensures
            r == *self,
    {
        Folder {
            id: self.id.clone(),
            project_id: self.project_id.clone(),
            parent_id: clone_opt_string(&self.parent_id),
            name: self.name.clone(),
            color: clone_opt_string(&self.color),
            sort_order: self.sort_order,
            created_at: self.created_at,
            updated_at: self.updated_at,
        }
    }
}

/// A context document: one of the two item kinds that folders can hold.
#[derive(Debug)]
pub struct ContextDocument {
    pub id: String,
    pub project_id: String,
    pub name: String,
    pub doc_type: String,
    pub content: String,
    pub url: Option<String>,
    pub is_global: bool,
    pub size_bytes: i64,
    pub created_at: i64,
    pub folder_id: Option<String>,
    pub tags: String,
    pub is_favorite: bool,
    pub sort_order: i32,
}

impl Clone for ContextDocument {
    fn clone(&self) -> (r: Self)
        ensures
            r == *self,
    {
        ContextDocument {
            id: self.id.clone(),
            project_id: self.project_id.clone(),
            name: self.name.clone(),
            doc_type: self.doc_type.clone(),
            content: self.content.clone(),
            url: clone_opt_string(&self.url),
            is_global: self.is_global,
            size_bytes: self.size_bytes,
            created_at: self.created_at,
            folder_id: clone_opt_string(&self.folder_id),
            tags: self.tags.clone(),
            is_favorite: self.is_favorite,
            sort_order: self.sort_order,
        }
    }
}

/// A framework output: the other item kind that folders can hold.
#[derive(Debug)]
pub struct FrameworkOutput {
    pub id: String,
    pub project_id: String,
    pub framework_id: String,
    pub category: String,
    pub name: String,
    pub user_prompt: String,
    pub context_doc_ids: String,
    pub generated_content: String,
    pub format: String,
    pub created_at: i64,
    pub updated_at: i64,
    pub folder_id: Option<String>,
    pub tags: String,
    pub is_favorite: bool,
    pub sort_order: i32,
}

impl Clone for FrameworkOutput {
    fn clone(&self) -> (r: Self)
        ensures
            r == *self,
    {
        FrameworkOutput {
            id: self.id.clone(),
            project_id: self.project_id.clone(),
            framework_id: self.framework_id.clone(),
            category: self.category.clone(),
            name: self.name.clone(),
            user_prompt: self.user_prompt.clone(),
            context_doc_ids: self.context_doc_ids.clone(),
            generated_content: self.generated_content.clone(),
            format: self.format.clone(),
            created_at: self.created_at,
            updated_at: self.updated_at,
            folder_id: clone_opt_string(&self.folder_id),
            tags: self.tags.clone(),
            is_favorite: self.is_favorite,
            sort_order: self.sort_order,
        }
    }
}

/// One row of the cross-table search over foldered items; fields that do
/// not apply to the item's kind are `None`.
#[derive(Debug)]
pub struct SearchResult {
    pub id: String,
    pub name: String,
    pub item_type: String,
    pub folder_id: Option<String>,
    pub category: Option<String>,
    pub doc_type: Option<String>,
    pub is_favorite: bool,
    pub created_at: i64,
}

impl Clone for SearchResult {
    fn clone(&self) -> (r: Self)
        ensures
            r == *self,
    {
        SearchResult {
            id: self.id.clone(),
            name: self.name.clone(),
            item_type: self.item_type.clone(),
            folder_id: clone_opt_string(&self.folder_id),
            category: clone_opt_string(&self.category),
            doc_type: clone_opt_string(&self.doc_type),
            is_favorite: self.is_favorite,
            created_at: self.created_at,
        }
    }
}

/// The process-wide settings singleton; the API key is stored encrypted.
#[derive(Debug)]
pub struct Settings {
    pub id: String,
    pub api_key_encrypted: Option<String>,
    pub username: Option<String>,
    pub name: Option<String>,
    pub surname: Option<String>,
    pub job_title: Option<String>,
    pub company: Option<String>,
    pub company_url: Option<String>,
    pub profile_pic: Option<String>,
    pub about_me: Option<String>,
    pub about_role: Option<String>,
    pub created_at: i64,
    pub updated_at: i64,
}

impl Clone for Settings {
    fn clone(&self) -> (r: Self)
        ensures
            r == *self,
    {
        Settings {
            id: self.id.clone(),
            api_key_encrypted: clone_opt_string(&self.api_key_encrypted),
            username: clone_opt_string(&self.username),
            name: clone_opt_string(&self.name),
            surname: clone_opt_string(&self.surname),
            job_title: clone_opt_string(&self.job_title),
            company: clone_opt_string(&self.company),
            company_url: clone_opt_string(&self.company_url),
            profile_pic: clone_opt_string(&self.profile_pic),
            about_me: clone_opt_string(&self.about_me),
            about_role: clone_opt_string(&self.about_role),
            created_at: self.created_at,
            updated_at: self.updated_at,
        }
    }
}

/// A partial settings update: every `None` field keeps its previous value.
#[derive(Debug)]
pub struct SettingsUpdate {
    pub api_key: Option<String>,
    pub username: Option<String>,
    pub name: Option<String>,
    pub surname: Option<String>,
    pub job_title: Option<String>,
    pub company: Option<String>,
    pub company_url: Option<String>,
    pub profile_pic: Option<String>,
    pub about_me: Option<String>,
    pub about_role: Option<String>,
}

/// One bundled category, as parsed from a seed document.
#[derive(Debug)]
pub struct SeedCategory {
    pub id: String,
    pub name: String,
    pub description: String,
    pub icon: String,
}

impl Clone for SeedCategory {
    fn clone(&self) -> (r: Self)
        ensures
            r == *self,
    {
        SeedCategory {
            id: self.id.clone(),
            name: self.name.clone(),
            description: self.description.clone(),
            icon: self.icon.clone(),
        }
    }
}

/// One bundled framework definition, as parsed from a seed document.
#[derive(Debug)]
pub struct SeedDef {
    pub id: String,
    pub category: String,
    pub name: String,
    pub description: String,
    pub icon: String,
    pub example_output: String,
    pub system_prompt: String,
    pub guiding_questions: String,
    pub supports_visuals: bool,
    pub visual_instructions: Option<String>,
}

impl Clone for SeedDef {
    fn clone(&self) -> (r: Self)
        ensures
            r == *self,
    {
        SeedDef {
            id: self.id.clone(),
            category: self.category.clone(),
            name: self.name.clone(),
            description: self.description.clone(),
            icon: self.icon.clone(),
            example_output: self.example_output.clone(),
            system_prompt: self.system_prompt.clone(),
            guiding_questions: self.guiding_questions.clone(),
            supports_visuals: self.supports_visuals,
            visual_instructions: clone_opt_string(&self.visual_instructions),
        }
    }
}

/// One bundled saved prompt, as parsed from a seed document.
#[derive(Debug)]
pub struct SeedPrompt {
    pub id: String,
    pub name: String,
    pub description: String,
    pub category: String,
    pub prompt_text: String,
    pub variables: String,
    pub framework_id: Option<String>,
}

impl Clone for SeedPrompt {
    fn clone(&self) -> (r: Self)
        ensures
            r == *self,
    {
        SeedPrompt {
            id: self.id.clone(),
            name: self.name.clone(),
            description: self.description.clone(),
            category: self.category.clone(),
            prompt_text: self.prompt_text.clone(),
            variables: self.variables.clone(),
            framework_id: clone_opt_string(&self.framework_id),
        }
    }
}

} // verus!
