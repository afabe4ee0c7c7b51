//! Notes of the service.
use vstd::prelude::*;
use crate::hackmd::permission;

verus! {

/// A note with everything the service reports of it.
#[derive(Debug)]
pub struct Note {
    pub id: String,
    pub title: String,
    pub tags: Vec<String>,
    pub created_at: u64,
    pub publish_type: String,
    pub published_at: Option<u64>,
    pub permalink: Option<String>,
    pub short_id: String,
    pub last_changed_at: u64,
    pub user_path: String,
    pub team_path: String,
    pub read_permission: permission::Read,
    pub write_permission: permission::Write,
    pub publish_link: String,
}

/// The fields of a note to create; those left `None` take the service's defaults.
#[derive(Debug)]
pub struct NoteBuilder {
    pub title: Option<String>,
    pub content: Option<String>,
    pub comment_permission: Option<permission::Comment>,
    pub read_permission: Option<permission::Read>,
    pub write_permission: Option<permission::Write>,
}

impl NoteBuilder {
    /// A note with every field left to the service.
    pub fn new() -> (r: NoteBuilder)
        ensures
            r.title is None,
            r.content is None,
            r.comment_permission is None,
            r.read_permission is None,
            r.write_permission is None,
    {
        NoteBuilder {
            title: None,
            content: None,
            comment_permission: None,
            read_permission: None,
            write_permission: None,
        }
    }

    pub fn title(self, title: String) -> (r: NoteBuilder)
        ensures
            r == (NoteBuilder { title: Some(title), ..self }),
    {
        NoteBuilder { title: Some(title), ..self }
    }

    pub fn content(self, content: String) -> (r: NoteBuilder)
        ensures
            r == (NoteBuilder { content: Some(content), ..self }),
    {
        NoteBuilder { content: Some(content), ..self }
    }

    pub fn comment_permission(self, comment_permission: permission::Comment) -> (r: NoteBuilder)
        ensures
            r == (NoteBuilder { comment_permission: Some(comment_permission), ..self }),
    {
        NoteBuilder { comment_permission: Some(comment_permission), ..self }
    }

    pub fn read_permission(self, read_permission: permission::Read) -> (r: NoteBuilder)
        ensures
            r == (NoteBuilder { read_permission: Some(read_permission), ..self }),
    {
        NoteBuilder { read_permission: Some(read_permission), ..self }
    }

    pub fn write_permission(self, write_permission: permission::Write) -> (r: NoteBuilder)
        ensures
            r == (NoteBuilder { write_permission: Some(write_permission), ..self }),
    {
        NoteBuilder { write_permission: Some(write_permission), ..self }
    }
}

/// The changes to make to the note `id`; fields left `None` stay as they are.
#[derive(Debug)]
pub struct UpdateNote {
    pub id: String,
    pub content: Option<String>,
    pub read_permission: Option<permission::Read>,
    pub write_permission: Option<permission::Write>,
    pub permalink: Option<String>,
}

impl UpdateNote {
    /// No change yet to the note `id`.
    pub fn new(id: String) -> (r: UpdateNote)
        ensures
            r.id == id,
            r.content is None,
            r.read_permission is None,
            r.write_permission is None,
            r.permalink is None,
    {
        UpdateNote { id, content: None, read_permission: None, write_permission: None, permalink: None }
    }

    pub fn content(self, content: String) -> (r: UpdateNote)
        ensures
            r == (UpdateNote { content: Some(content), ..self }),
    {
        UpdateNote { content: Some(content), ..self }
    }

    pub fn read_permission(self, read_permission: permission::Read) -> (r: UpdateNote)
        ensures
            r == (UpdateNote { read_permission: Some(read_permission), ..self }),
    {
        UpdateNote { read_permission: Some(read_permission), ..self }
    }

    pub fn write_permission(self, write_permission: permission::Write) -> (r: UpdateNote)
        ensures
            r == (UpdateNote { write_permission: Some(write_permission), ..self }),
    {
        UpdateNote { write_permission: Some(write_permission), ..self }
    }

    pub fn permalink(self, permalink: String) -> (r: UpdateNote)
        ensures
            r == (UpdateNote { permalink: Some(permalink), ..self }),
    {
        UpdateNote { permalink: Some(permalink), ..self }
    }
}

} // verus!
