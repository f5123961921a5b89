use vstd::prelude::*;

verus! {

/// A stored project row. Timestamps are seconds since the Unix epoch.
#[derive(Debug, PartialEq)]
pub struct Project {
    pub id: i64,
    pub name: String,
    pub description: String,
    pub local_path: String,
    pub documentation_url: Option<String>,
    pub ai_documentation_url: Option<String>,
    pub drive_link: Option<String>,
    pub notes: Option<String>,
    pub image_data: Option<String>,
    /// Loaded on read; `None` on a row that has not had its links attached.
    pub links: Option<Vec<ProjectLink>>,
    pub created_at: u64,
    pub updated_at: u64,
    pub last_opened_at: Option<u64>,
    pub opened_count: u64,
    pub total_time_seconds: u64,
    /// Free-text lifecycle tag; "active" on creation.
    pub status: String,
    pub status_changed_at: Option<u64>,
    pub is_pinned: bool,
    /// Manual ordering among pinned rows; only meaningful when `is_pinned`.
    pub pinned_order: i64,
}

#[derive(Debug, PartialEq)]
pub struct ProjectLink {
    pub id: i64,
    pub project_id: i64,
    pub link_type: String,
    pub title: String,
    pub url: String,
    pub created_at: u64,
}

#[derive(Debug, PartialEq)]
pub struct ProjectAttachment {
    pub id: i64,
    pub project_id: i64,
    pub filename: String,
    pub file_data: String,
    pub file_size: i64,
    pub mime_type: String,
    pub created_at: u64,
}

#[derive(Debug, PartialEq)]
pub struct JournalEntry {
    pub id: i64,
    pub project_id: i64,
    pub content: String,
    pub tags: Option<String>,
    pub created_at: u64,
    pub updated_at: u64,
}

#[derive(Debug, PartialEq)]
pub struct ProjectTodo {
    pub id: i64,
    pub project_id: i64,
    pub content: String,
    pub is_completed: bool,
    pub created_at: u64,
    /// Set when the todo transitions to completed.
    pub completed_at: Option<u64>,
}

#[derive(Debug, PartialEq)]
pub struct ProjectActivity {
    pub id: i64,
    pub project_id: i64,
    pub activity_type: String,
    pub description: Option<String>,
    pub duration_seconds: Option<i64>,
    pub created_at: u64,
}

/// Aggregated analytics. Total time is reported in seconds; presentation
/// layers may convert it to hours.
#[derive(Debug, PartialEq)]
pub struct ProjectStats {
    pub total_projects: i64,
    pub active_today: i64,
    pub total_time_seconds: u64,
    pub most_active_project: Option<String>,
    pub recent_activities: Vec<ProjectActivity>,
}

#[derive(Debug, PartialEq)]
pub struct CreateProjectDTO {
    pub name: String,
    pub description: String,
    pub local_path: String,
    pub documentation_url: Option<String>,
    pub ai_documentation_url: Option<String>,
    pub drive_link: Option<String>,
    pub notes: Option<String>,
    pub image_data: Option<String>,
}

/// A sparse project update: every field is independently optional, and only
/// the supplied fields are written.
#[derive(Debug, PartialEq)]
pub struct UpdateProjectDTO {
    pub name: Option<String>,
    pub description: Option<String>,
    pub local_path: Option<String>,
    pub documentation_url: Option<String>,
    pub ai_documentation_url: Option<String>,
    pub drive_link: Option<String>,
    pub notes: Option<String>,
    pub image_data: Option<String>,
}

#[derive(Debug, PartialEq)]
pub struct CreateLinkDTO {
    pub project_id: i64,
    pub link_type: String,
    pub title: String,
    pub url: String,
}

#[derive(Debug, PartialEq)]
pub struct UpdateLinkDTO {
    pub link_type: Option<String>,
    pub title: Option<String>,
    pub url: Option<String>,
}

#[derive(Debug, PartialEq)]
pub struct CreateAttachmentDTO {
    pub project_id: i64,
    pub filename: String,
    pub file_data: String,
    pub file_size: i64,
    pub mime_type: String,
}

#[derive(Debug, PartialEq)]
pub struct CreateJournalEntryDTO {
    pub project_id: i64,
    pub content: String,
    pub tags: Option<String>,
}

#[derive(Debug, PartialEq)]
pub struct UpdateJournalEntryDTO {
    pub content: Option<String>,
    pub tags: Option<String>,
}

#[derive(Debug, PartialEq)]
pub struct CreateTodoDTO {
    pub project_id: i64,
    pub content: String,
}

#[derive(Debug, PartialEq)]
pub struct UpdateTodoDTO {
    pub content: Option<String>,
    pub is_completed: Option<bool>,
}

#[derive(Debug, PartialEq)]
pub struct CreateActivityDTO {
    pub project_id: i64,
    pub activity_type: String,
    pub description: Option<String>,
    pub duration_seconds: Option<i64>,
}

/// The pieces of a generated project backup document, handed to the
/// presentation layer for writing to disk.
#[derive(Debug, PartialEq)]
pub struct BackupData {
    pub content: String,
    pub path: String,
    pub filename: String,
}

/// One parsed line of version-control history.
#[derive(Debug, PartialEq)]
pub struct GitCommit {
    pub hash: String,
    pub author: String,
    pub date: String,
    pub message: String,
}

/// Clones an optional string, preserving the value exactly.
pub fn clone_opt_string(o: &Option<String>) -> (r: Option<String>)
    ensures
        r == *o,
{
    match o {
        Option::None => Option::None,
        Option::Some(s) => Option::Some(s.clone()),
    }
}

impl Clone for ProjectLink {
    fn clone(&self) -> (res: Self)
        ensures
            res == *self,
    {
        ProjectLink {
            id: self.id,
            project_id: self.project_id,
            link_type: self.link_type.clone(),
            title: self.title.clone(),
            url: self.url.clone(),
            created_at: self.created_at,
        }
    }
}

/// Clones a vector of links, preserving the sequence exactly.
pub fn clone_links(v: &Vec<ProjectLink>) -> (r: Vec<ProjectLink>)
    ensures
        r@ == v@,
{
    let mut r: Vec<ProjectLink> = Vec::new();
    let mut i: usize = 0;
    while i < v.len()
        invariant
            i <= v.len(),
            r@ == v@.take(i as int),
        decreases v.len() - i,
    {
        r.push(v[i].clone());
        proof {
            assert(v@.take(i + 1 as int) =~= v@.take(i as int).push(v@[i as int]));
        }
        i = i + 1;
    }
    proof {
        assert(v@.take(v@.len() as int) =~= v@);
    }
    r
}

impl Project {
    /// Copies a row without its attached links collection.
    pub fn row_copy(&self) -> (res: Project)
        ensures
            res == (Project { links: Option::<Vec<ProjectLink>>::None, ..*self }),
    {
        Project {
            id: self.id,
            name: self.name.clone(),
            description: self.description.clone(),
            local_path: self.local_path.clone(),
            documentation_url: clone_opt_string(&self.documentation_url),
            ai_documentation_url: clone_opt_string(&self.ai_documentation_url),
            drive_link: clone_opt_string(&self.drive_link),
            notes: clone_opt_string(&self.notes),
            image_data: clone_opt_string(&self.image_data),
            links: Option::None,
            created_at: self.created_at,
            updated_at: self.updated_at,
            last_opened_at: self.last_opened_at,
            opened_count: self.opened_count,
            total_time_seconds: self.total_time_seconds,
            status: self.status.clone(),
            status_changed_at: self.status_changed_at,
            is_pinned: self.is_pinned,
            pinned_order: self.pinned_order,
        }
    }

    /// Attaches a loaded links collection to a copy of a row.
    pub fn with_links(&self, ls: Vec<ProjectLink>) -> (res: Project)
        ensures
            res == (Project { links: Option::Some(ls), ..*self }),
    {
        Project {
            id: self.id,
            name: self.name.clone(),
            description: self.description.clone(),
            local_path: self.local_path.clone(),
            documentation_url: clone_opt_string(&self.documentation_url),
            ai_documentation_url: clone_opt_string(&self.ai_documentation_url),
            drive_link: clone_opt_string(&self.drive_link),
            notes: clone_opt_string(&self.notes),
            image_data: clone_opt_string(&self.image_data),
            links: Option::Some(ls),
            created_at: self.created_at,
            updated_at: self.updated_at,
            last_opened_at: self.last_opened_at,
            opened_count: self.opened_count,
            total_time_seconds: self.total_time_seconds,
            status: self.status.clone(),
            status_changed_at: self.status_changed_at,
            is_pinned: self.is_pinned,
            pinned_order: self.pinned_order,
        }
    }
}

impl Clone for ProjectAttachment {
    fn clone(&self) -> (res: Self)
        ensures
            res == *self,
    {
        ProjectAttachment {
            id: self.id,
            project_id: self.project_id,
            filename: self.filename.clone(),
            file_data: self.file_data.clone(),
            file_size: self.file_size,
            mime_type: self.mime_type.clone(),
            created_at: self.created_at,
        }
    }
}

impl Clone for JournalEntry {
    fn clone(&self) -> (res: Self)
        ensures
            res == *self,
    {
        JournalEntry {
            id: self.id,
            project_id: self.project_id,
            content: self.content.clone(),
            tags: clone_opt_string(&self.tags),
            created_at: self.created_at,
            updated_at: self.updated_at,
        }
    }
}

impl Clone for ProjectTodo {
    fn clone(&self) -> (res: Self)
        ensures
            res == *self,
    {
        ProjectTodo {
            id: self.id,
            project_id: self.project_id,
            content: self.content.clone(),
            is_completed: self.is_completed,
            created_at: self.created_at,
            completed_at: self.completed_at,
        }
    }
}

impl Clone for ProjectActivity {
    fn clone(&self) -> (res: Self)
        ensures
            res == *self,
    {
        ProjectActivity {
            id: self.id,
            project_id: self.project_id,
            activity_type: self.activity_type.clone(),
            description: clone_opt_string(&self.description),
            duration_seconds: self.duration_seconds,
            created_at: self.created_at,
        }
    }
}

} // verus!
