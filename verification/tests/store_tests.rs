use gestor_proyectos::models::{
    CreateAttachmentDTO, CreateJournalEntryDTO, CreateLinkDTO, CreateProjectDTO, CreateTodoDTO,
    UpdateJournalEntryDTO, UpdateLinkDTO, UpdateProjectDTO, UpdateTodoDTO,
};
use gestor_proyectos::store::Store;
use gestor_proyectos::AppError;

fn demo_dto(name: &str) -> CreateProjectDTO {
    CreateProjectDTO {
        name: name.to_string(),
        description: "d".to_string(),
        local_path: "/p".to_string(),
        documentation_url: None,
        ai_documentation_url: None,
        drive_link: Some("https://drive".to_string()),
        notes: Some("note".to_string()),
        image_data: None,
    }
}

#[test]
fn create_then_get_returns_equal_record() {
    let mut s = Store::new();
    let created = s.create_project(demo_dto("demo"), 100).unwrap();
    let got = s.get_project(created.id).unwrap();
    assert_eq!(got.id, created.id);
    assert_eq!(got.name, created.name);
    assert_eq!(got.description, created.description);
    assert_eq!(got.local_path, created.local_path);
    assert_eq!(got.drive_link, created.drive_link);
    assert_eq!(got.notes, created.notes);
    assert_eq!(got.created_at, created.created_at);
    assert_eq!(got.updated_at, created.updated_at);
    assert_eq!(got.status, created.status);
    assert_eq!(got.is_pinned, created.is_pinned);
    // the read attaches the links collection; creation leaves it unloaded
    assert_eq!(created.links, None);
    assert_eq!(got.links, Some(vec![]));
}

#[test]
fn partial_update_changes_only_supplied_field() {
    let mut s = Store::new();
    let p = s.create_project(demo_dto("demo"), 100).unwrap();
    let before = s.get_project(p.id).unwrap();
    let updates = UpdateProjectDTO {
        name: Some("renamed".to_string()),
        description: None,
        local_path: None,
        documentation_url: None,
        ai_documentation_url: None,
        drive_link: None,
        notes: None,
        image_data: None,
    };
    let after = s.update_project(p.id, updates, 200).unwrap();
    assert_eq!(after.name, "renamed");
    assert_eq!(after.updated_at, 200);
    assert_eq!(after.description, before.description);
    assert_eq!(after.local_path, before.local_path);
    assert_eq!(after.drive_link, before.drive_link);
    assert_eq!(after.notes, before.notes);
    assert_eq!(after.created_at, before.created_at);
    assert_eq!(after.status, before.status);
    assert_eq!(after.is_pinned, before.is_pinned);
    assert_eq!(after.pinned_order, before.pinned_order);
    assert_eq!(after.opened_count, before.opened_count);
    assert_eq!(after.total_time_seconds, before.total_time_seconds);
}

#[test]
fn empty_update_is_rejected_and_mutates_nothing() {
    let mut s = Store::new();
    let p = s.create_project(demo_dto("demo"), 100).unwrap();
    let empty = UpdateProjectDTO {
        name: None,
        description: None,
        local_path: None,
        documentation_url: None,
        ai_documentation_url: None,
        drive_link: None,
        notes: None,
        image_data: None,
    };
    let r = s.update_project(p.id, empty, 999);
    assert_eq!(r.unwrap_err(), AppError::InvalidRequest);
    let got = s.get_project(p.id).unwrap();
    assert_eq!(got.updated_at, 100);
}

#[test]
fn update_of_missing_id_is_not_found() {
    let mut s = Store::new();
    let updates = UpdateProjectDTO {
        name: Some("x".to_string()),
        description: None,
        local_path: None,
        documentation_url: None,
        ai_documentation_url: None,
        drive_link: None,
        notes: None,
        image_data: None,
    };
    assert_eq!(s.update_project(42, updates, 1).unwrap_err(), AppError::NotFound);
    assert_eq!(s.get_project(42).unwrap_err(), AppError::NotFound);
}

#[test]
fn delete_cascades_to_every_child_table() {
    let mut s = Store::new();
    let p = s.create_project(demo_dto("demo"), 10).unwrap();
    let other = s.create_project(demo_dto("other"), 11).unwrap();
    let link = s
        .create_link(
            CreateLinkDTO {
                project_id: p.id,
                link_type: "repo".to_string(),
                title: "t".to_string(),
                url: "u".to_string(),
            },
            12,
        )
        .unwrap();
    let todo = s
        .create_todo(CreateTodoDTO { project_id: p.id, content: "todo".to_string() }, 13)
        .unwrap();
    let entry = s
        .create_journal_entry(
            CreateJournalEntryDTO { project_id: p.id, content: "j".to_string(), tags: None },
            14,
        )
        .unwrap();
    let att = s
        .add_attachment(
            CreateAttachmentDTO {
                project_id: p.id,
                filename: "f".to_string(),
                file_data: "x".to_string(),
                file_size: 1,
                mime_type: "text/plain".to_string(),
            },
            15,
        )
        .unwrap();
    s.track_project_open(p.id, 16).unwrap();
    let keep_link = s
        .create_link(
            CreateLinkDTO {
                project_id: other.id,
                link_type: "docs".to_string(),
                title: "k".to_string(),
                url: "ku".to_string(),
            },
            17,
        )
        .unwrap();

    s.delete_project(p.id).unwrap();

    assert_eq!(s.get_project(p.id).unwrap_err(), AppError::NotFound);
    assert!(s.get_project_links(p.id).unwrap().is_empty());
    assert!(s.get_project_todos(p.id).unwrap().is_empty());
    assert!(s.get_journal_entries(p.id).unwrap().is_empty());
    assert!(s.get_attachments(p.id).unwrap().is_empty());
    assert!(s.get_project_activities(p.id, -1).unwrap().is_empty());
    // looking the former children up by their ids finds nothing
    let relink = UpdateLinkDTO { link_type: None, title: Some("z".to_string()), url: None };
    assert_eq!(s.update_link(link.id, relink).unwrap_err(), AppError::NotFound);
    let retodo = UpdateTodoDTO { content: None, is_completed: Some(true) };
    assert_eq!(s.update_todo(todo.id, retodo, 20).unwrap_err(), AppError::NotFound);
    let rejournal = UpdateJournalEntryDTO { content: Some("y".to_string()), tags: None };
    assert_eq!(s.update_journal_entry(entry.id, rejournal, 21).unwrap_err(), AppError::NotFound);
    assert_eq!(att.project_id, p.id);
    // the sibling project keeps its rows
    let kept = s.get_project_links(other.id).unwrap();
    assert_eq!(kept.len(), 1);
    assert_eq!(kept[0].id, keep_link.id);
}

#[test]
fn listing_orders_pinned_first_then_pin_order_then_recency() {
    let mut s = Store::new();
    let a = s.create_project(demo_dto("a"), 100).unwrap(); // unpinned, old
    let b = s.create_project(demo_dto("b"), 300).unwrap(); // unpinned, newest
    let c = s.create_project(demo_dto("c"), 200).unwrap(); // pinned, order 2
    let d = s.create_project(demo_dto("d"), 150).unwrap(); // pinned, order 1
    s.toggle_pin_project(c.id, 200).unwrap();
    s.toggle_pin_project(d.id, 150).unwrap();
    s.reorder_pinned_projects(vec![d.id, c.id]).unwrap();
    let all = s.get_all_projects().unwrap();
    let names: Vec<&str> = all.iter().map(|p| p.name.as_str()).collect();
    assert_eq!(names, vec!["d", "c", "b", "a"]);
    assert!(all[0].is_pinned && all[1].is_pinned);
    assert!(!all[2].is_pinned && !all[3].is_pinned);
    assert!(all[0].pinned_order <= all[1].pinned_order);
    assert!(all[2].updated_at >= all[3].updated_at);
    assert_eq!(a.id, all[3].id);
    assert_eq!(b.id, all[2].id);
}

#[test]
fn oversized_attachment_is_rejected_and_stores_nothing() {
    let mut s = Store::new();
    let p = s.create_project(demo_dto("demo"), 1).unwrap();
    let big = CreateAttachmentDTO {
        project_id: p.id,
        filename: "big.bin".to_string(),
        file_data: "data".to_string(),
        file_size: 5_242_881,
        mime_type: "application/octet-stream".to_string(),
    };
    assert_eq!(s.add_attachment(big, 2).unwrap_err(), AppError::ConstraintViolation);
    assert!(s.get_attachments(p.id).unwrap().is_empty());
    let exact = CreateAttachmentDTO {
        project_id: p.id,
        filename: "ok.bin".to_string(),
        file_data: "data".to_string(),
        file_size: 5_242_880,
        mime_type: "application/octet-stream".to_string(),
    };
    assert!(s.add_attachment(exact, 3).is_ok());
    assert_eq!(s.get_attachments(p.id).unwrap().len(), 1);
}

#[test]
fn search_matches_substrings_case_sensitively() {
    let mut s = Store::new();
    let mut dto = demo_dto("Alpha");
    dto.notes = Some("shared-note".to_string());
    s.create_project(dto, 1).unwrap();
    s.create_project(demo_dto("beta"), 2).unwrap();
    let hits = s.search_projects("Alp").unwrap();
    assert_eq!(hits.len(), 1);
    assert_eq!(hits[0].name, "Alpha");
    // case sensitive: a lowercase query misses the capitalised name
    assert!(s.search_projects("alp").unwrap().is_empty());
    // notes participate in the match
    let by_note = s.search_projects("shared-note").unwrap();
    assert_eq!(by_note.len(), 1);
    // multibyte text is matched by characters
    let mut unicode = demo_dto("año nuevo");
    unicode.notes = None;
    s.create_project(unicode, 3).unwrap();
    assert_eq!(s.search_projects("ño").unwrap().len(), 1);
    assert!(s.search_projects("ñx").unwrap().is_empty());
}

#[test]
fn scenario_create_update_track_stats() {
    let mut s = Store::new();
    let p = s
        .create_project(
            CreateProjectDTO {
                name: "demo".to_string(),
                description: "d".to_string(),
                local_path: "/p".to_string(),
                documentation_url: None,
                ai_documentation_url: None,
                drive_link: None,
                notes: None,
                image_data: None,
            },
            1000,
        )
        .unwrap();
    assert_eq!(p.id, 1);
    assert_eq!(p.status, "active");
    assert!(!p.is_pinned);
    let updated = s
        .update_project(
            1,
            UpdateProjectDTO {
                name: Some("demo2".to_string()),
                description: None,
                local_path: None,
                documentation_url: None,
                ai_documentation_url: None,
                drive_link: None,
                notes: None,
                image_data: None,
            },
            1001,
        )
        .unwrap();
    assert_eq!(updated.name, "demo2");
    assert_eq!(updated.local_path, "/p");
    s.track_project_open(1, 1002).unwrap();
    let stats = s.get_project_stats(1002).unwrap();
    assert_eq!(stats.total_projects, 1);
    assert_eq!(stats.active_today, 1);
    assert_eq!(stats.most_active_project, Some("demo2".to_string()));
    assert_eq!(s.get_project(1).unwrap().opened_count, 1);
    assert_eq!(stats.recent_activities.len(), 1);
    assert_eq!(stats.recent_activities[0].activity_type, "opened");
}

#[test]
fn stats_count_distinct_projects_per_day_and_total_time() {
    let mut s = Store::new();
    let a = s.create_project(demo_dto("a"), 1).unwrap();
    let b = s.create_project(demo_dto("b"), 2).unwrap();
    let day = 86_400;
    s.track_project_open(a.id, 2 * day + 10).unwrap();
    s.track_project_open(a.id, 2 * day + 20).unwrap();
    s.track_project_open(b.id, 2 * day + 30).unwrap();
    s.track_project_open(b.id, 5 * day).unwrap(); // another day
    s.add_project_time(a.id, 3600).unwrap();
    s.add_project_time(a.id, 1800).unwrap();
    let stats = s.get_project_stats(2 * day + 40).unwrap();
    assert_eq!(stats.active_today, 2);
    assert_eq!(stats.total_time_seconds, 5400);
    // the most opened project wins; earlier rows win ties by storage order
    assert_eq!(stats.most_active_project, Some("a".to_string()));
}

#[test]
fn activity_limit_and_order() {
    let mut s = Store::new();
    let p = s.create_project(demo_dto("demo"), 1).unwrap();
    for t in 0..5u64 {
        s.track_project_open(p.id, 100 + t).unwrap();
    }
    let latest = s.get_project_activities(p.id, 2).unwrap();
    assert_eq!(latest.len(), 2);
    assert_eq!(latest[0].created_at, 104);
    assert_eq!(latest[1].created_at, 103);
    let all = s.get_project_activities(p.id, -1).unwrap();
    assert_eq!(all.len(), 5);
    let none = s.get_project_activities(p.id, 0).unwrap();
    assert!(none.is_empty());
}

#[test]
fn todo_completion_timestamps() {
    let mut s = Store::new();
    let p = s.create_project(demo_dto("demo"), 1).unwrap();
    let t = s
        .create_todo(CreateTodoDTO { project_id: p.id, content: "task".to_string() }, 5)
        .unwrap();
    assert!(!t.is_completed);
    assert_eq!(t.completed_at, None);
    let done = s
        .update_todo(t.id, UpdateTodoDTO { content: None, is_completed: Some(true) }, 9)
        .unwrap();
    assert!(done.is_completed);
    assert_eq!(done.completed_at, Some(9));
    let reopened = s
        .update_todo(t.id, UpdateTodoDTO { content: None, is_completed: Some(false) }, 12)
        .unwrap();
    assert!(!reopened.is_completed);
    assert_eq!(reopened.completed_at, None);
    let empty = s.update_todo(t.id, UpdateTodoDTO { content: None, is_completed: None }, 13);
    assert_eq!(empty.unwrap_err(), AppError::InvalidRequest);
}

#[test]
fn link_update_writes_only_supplied_fields() {
    let mut s = Store::new();
    let p = s.create_project(demo_dto("demo"), 1).unwrap();
    let l = s
        .create_link(
            CreateLinkDTO {
                project_id: p.id,
                link_type: "repo".to_string(),
                title: "old".to_string(),
                url: "u".to_string(),
            },
            2,
        )
        .unwrap();
    let updated = s
        .update_link(l.id, UpdateLinkDTO { link_type: None, title: Some("new".to_string()), url: None })
        .unwrap();
    assert_eq!(updated.title, "new");
    assert_eq!(updated.link_type, "repo");
    assert_eq!(updated.url, "u");
    assert_eq!(updated.created_at, 2);
    let empty = s.update_link(l.id, UpdateLinkDTO { link_type: None, title: None, url: None });
    assert_eq!(empty.unwrap_err(), AppError::InvalidRequest);
}

#[test]
fn delete_is_idempotent_for_missing_ids() {
    let mut s = Store::new();
    assert!(s.delete_project(7).is_ok());
    assert!(s.delete_link(7).is_ok());
    assert!(s.delete_attachment(7).is_ok());
    assert!(s.delete_journal_entry(7).is_ok());
    assert!(s.delete_todo(7).is_ok());
}

#[test]
fn status_change_records_when_it_happened() {
    let mut s = Store::new();
    let p = s.create_project(demo_dto("demo"), 1).unwrap();
    s.update_project_status(p.id, "paused".to_string(), 50).unwrap();
    let got = s.get_project(p.id).unwrap();
    assert_eq!(got.status, "paused");
    assert_eq!(got.status_changed_at, Some(50));
    // a missing id changes nothing and is not an error
    assert!(s.update_project_status(99, "x".to_string(), 51).is_ok());
}

#[test]
fn deleting_an_absent_id_changes_nothing_at_all() {
    let mut s = Store::new();
    // a stray link whose project id matches no row survives a no-match delete
    let stray = s
        .create_link(
            CreateLinkDTO {
                project_id: 99,
                link_type: "repo".to_string(),
                title: "stray".to_string(),
                url: "u".to_string(),
            },
            1,
        )
        .unwrap();
    assert!(s.delete_project(99).is_ok());
    let kept = s.get_project_links(99).unwrap();
    assert_eq!(kept.len(), 1);
    assert_eq!(kept[0].id, stray.id);
}
