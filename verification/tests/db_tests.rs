use gestor_proyectos::db::{Database, SqlValue, build_project_update};
use gestor_proyectos::models::{CreateLinkDTO, CreateProjectDTO, UpdateProjectDTO};
use gestor_proyectos::AppError;

fn dto(name: &str) -> CreateProjectDTO {
    CreateProjectDTO {
        name: name.to_string(),
        description: "d".to_string(),
        local_path: "/p".to_string(),
        documentation_url: None,
        ai_documentation_url: None,
        drive_link: None,
        notes: None,
        image_data: None,
    }
}

#[test]
fn database_writes_through_to_sqlite() {
    let mut db = Database::open_in_memory().unwrap();
    let p = db.create_project(dto("demo"), 100).unwrap();
    assert_eq!(p.id, 1);
    let got = db.get_project(1).unwrap();
    assert_eq!(got.name, "demo");
    let updated = db
        .update_project(
            1,
            UpdateProjectDTO {
                name: Some("demo2".to_string()),
                description: None,
                local_path: None,
                documentation_url: None,
                ai_documentation_url: None,
                drive_link: None,
                notes: None,
                image_data: None,
            },
            200,
        )
        .unwrap();
    assert_eq!(updated.name, "demo2");
    assert_eq!(updated.local_path, "/p");
    let l = db
        .create_link(
            CreateLinkDTO {
                project_id: 1,
                link_type: "repo".to_string(),
                title: "t".to_string(),
                url: "u".to_string(),
            },
            201,
        )
        .unwrap();
    assert_eq!(db.get_project_links(1).unwrap().len(), 1);
    db.track_project_open(1, 202).unwrap();
    let stats = db.get_project_stats(202).unwrap();
    assert_eq!(stats.total_projects, 1);
    assert_eq!(stats.most_active_project, Some("demo2".to_string()));
    db.delete_link(l.id).unwrap();
    assert!(db.get_project_links(1).unwrap().is_empty());
    db.delete_project(1).unwrap();
    assert_eq!(db.get_project(1).unwrap_err(), AppError::NotFound);
}

#[test]
fn update_statement_holds_exactly_the_supplied_columns() {
    let u = UpdateProjectDTO {
        name: Some("n".to_string()),
        description: None,
        local_path: Some("/q".to_string()),
        documentation_url: None,
        ai_documentation_url: None,
        drive_link: None,
        notes: None,
        image_data: None,
    };
    let (sql, params) = build_project_update(&u, 7, 99).unwrap();
    assert_eq!(
        sql,
        "UPDATE projects SET name = ?, local_path = ?, updated_at = ? WHERE id = ?"
    );
    assert_eq!(
        params,
        vec![
            SqlValue::Text("n".to_string()),
            SqlValue::Text("/q".to_string()),
            SqlValue::Int(99),
            SqlValue::Int(7),
        ]
    );
    let empty = UpdateProjectDTO {
        name: None,
        description: None,
        local_path: None,
        documentation_url: None,
        ai_documentation_url: None,
        drive_link: None,
        notes: None,
        image_data: None,
    };
    assert_eq!(build_project_update(&empty, 7, 99).unwrap_err(), AppError::InvalidRequest);
}

#[test]
fn empty_update_reaches_no_database() {
    let mut db = Database::open_in_memory().unwrap();
    db.create_project(dto("demo"), 100).unwrap();
    let empty = UpdateProjectDTO {
        name: None,
        description: None,
        local_path: None,
        documentation_url: None,
        ai_documentation_url: None,
        drive_link: None,
        notes: None,
        image_data: None,
    };
    assert_eq!(db.update_project(1, empty, 999).unwrap_err(), AppError::InvalidRequest);
    assert_eq!(db.get_project(1).unwrap().updated_at, 100);
}

#[test]
fn reopening_a_populated_database_preserves_its_rows() {
    // a shared in-memory database survives as long as one connection holds it
    let uri = "file:reopen_probe?mode=memory&cache=shared";
    let mut first = Database::new(uri).unwrap();
    let p = first.create_project(dto("persisted"), 100).unwrap();
    first
        .create_link(
            CreateLinkDTO {
                project_id: p.id,
                link_type: "repo".to_string(),
                title: "t".to_string(),
                url: "u".to_string(),
            },
            101,
        )
        .unwrap();
    first.track_project_open(p.id, 102).unwrap();
    // a second open of the same database rebuilds the mirror from its rows
    let mut second = Database::new(uri).unwrap();
    let got = second.get_project(p.id).unwrap();
    assert_eq!(got.name, "persisted");
    assert_eq!(got.local_path, "/p");
    assert_eq!(got.created_at, 100);
    assert_eq!(got.opened_count, 1);
    assert_eq!(got.last_opened_at, Some(102));
    assert_eq!(got.status, "active");
    assert_eq!(second.get_project_links(p.id).unwrap().len(), 1);
    assert_eq!(second.get_project_activities(p.id, -1).unwrap().len(), 1);
    // the counters resume past the stored ids: new rows do not collide
    let q = second.create_project(dto("later"), 200).unwrap();
    assert!(q.id > p.id);
    second.track_project_open(q.id, 201).unwrap();
    assert_eq!(second.get_project_stats(201).unwrap().total_projects, 2);
}
