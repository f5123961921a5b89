use vstd::prelude::*;

use crate::models::{
    CreateAttachmentDTO, CreateJournalEntryDTO, CreateLinkDTO, CreateProjectDTO, JournalEntry,
    Project, ProjectActivity, ProjectAttachment, ProjectLink, ProjectStats, ProjectTodo,
    UpdateJournalEntryDTO,
    UpdateLinkDTO, UpdateProjectDTO,
};
use crate::order::seq_sorted;
use crate::store::{
    MAX_ATTACHMENT_BYTES, Store, apply_add_time, apply_journal_update, apply_link_update,
    apply_project_update, apply_track_open, has_row, journal_update_empty, link_update_empty,
    links_loaded, row_index_of, rows_of, strip, update_dto_empty,
};
use crate::AppError;

verus! {

/// A plain value bound to one statement parameter.
#[derive(Debug, PartialEq)]
pub enum SqlValue {
    Null,
    Int(i64),
    Text(String),
}

#[verifier::external_type_specification]
#[verifier::external_body]
pub struct ExConnection(rusqlite::Connection);

/// Relies on rusqlite::Connection::open: opens (creating if absent) the
/// database file at the path. The outcome depends on the disk, so only the
/// success/failure split is used.
#[verifier::external_body]
fn open_db(path: &str) -> (r: Result<rusqlite::Connection, AppError>) {
    rusqlite::Connection::open(path).map_err(|_| AppError::StorageIo)
}

/// Relies on rusqlite::Connection::open_in_memory: opens a fresh, empty
/// in-memory database.
#[verifier::external_body]
fn open_db_in_memory() -> (r: Result<rusqlite::Connection, AppError>) {
    rusqlite::Connection::open_in_memory().map_err(|_| AppError::StorageIo)
}

/// Relies on rusqlite::Connection::execute: runs one parameterized SQL
/// statement and reports how many rows changed. What the statement changes
/// on disk depends on the database file, so only the success/failure split
/// is used by callers.
#[verifier::external_body]
fn exec_sql(conn: &rusqlite::Connection, sql: &str, params: &Vec<SqlValue>) -> (r: Result<
    usize,
    AppError,
>) {
    let vals = params.iter().map(|p| match p {
        SqlValue::Null => rusqlite::types::Value::Null,
        SqlValue::Int(v) => rusqlite::types::Value::Integer(*v),
        SqlValue::Text(s) => rusqlite::types::Value::Text(s.clone()),
    });
    conn.execute(sql, rusqlite::params_from_iter(vals)).map_err(|_| AppError::StorageIo)
}

/// Relies on rusqlite::Statement::query_map (through Connection::prepare):
/// runs the query and hands every row back as one plain value per column.
/// What comes back depends on the database file, so nothing is promised of
/// it. The schema holds no real or blob columns; those read back as Null.
#[verifier::external_body]
fn query_rows(conn: &rusqlite::Connection, sql: &str) -> (r: Result<Vec<Vec<SqlValue>>, AppError>) {
    let mut stmt = conn.prepare(sql).map_err(|_| AppError::StorageIo)?;
    let n = stmt.column_count();
    let mapped = stmt.query_map([], |row| {
        (0..n).map(|i| row.get_ref(i).map(|v| match v {
            rusqlite::types::ValueRef::Integer(x) => SqlValue::Int(x),
            rusqlite::types::ValueRef::Text(t) => SqlValue::Text(String::from_utf8_lossy(t).into_owned()),
            _ => SqlValue::Null,
        })).collect::<rusqlite::Result<Vec<SqlValue>>>()
    }).map_err(|_| AppError::StorageIo)?;
    mapped.collect::<rusqlite::Result<Vec<Vec<SqlValue>>>>().map_err(|_| AppError::StorageIo)
}

/// An optional string as a statement parameter.
fn sql_opt(o: &Option<String>) -> (r: SqlValue)
    ensures
        o is None ==> r == SqlValue::Null,
        o matches Some(v) ==> r == SqlValue::Text(*v),
{
    match o {
        Option::None => SqlValue::Null,
        Option::Some(v) => SqlValue::Text(v.clone()),
    }
}

// ---------------------------------------------------------------------------
// The partial-update statement builder
// ---------------------------------------------------------------------------
/// The SET fragment of one optional field: its assignment text when the
/// field is supplied, nothing otherwise.
pub open spec fn opt_sql(v: Option<String>, text: Seq<char>) -> Seq<char> {
    if v is Some {
        text
    } else {
        Seq::<char>::empty()
    }
}

/// The bound parameter of one optional field, as a sequence.
pub open spec fn opt_param(v: Option<String>) -> Seq<SqlValue> {
    match v {
        Option::Some(x) => seq![SqlValue::Text(x)],
        Option::None => Seq::<SqlValue>::empty(),
    }
}

/// The whole UPDATE statement of a sparse project update: one `column = ?`
/// fragment per supplied field, in declaration order, the update timestamp
/// always written last.
pub open spec fn project_update_sql(u: UpdateProjectDTO) -> Seq<char> {
    "UPDATE projects SET "@ + opt_sql(u.name, "name = ?, "@) + opt_sql(
        u.description,
        "description = ?, "@,
    ) + opt_sql(u.local_path, "local_path = ?, "@) + opt_sql(
        u.documentation_url,
        "documentation_url = ?, "@,
    ) + opt_sql(u.ai_documentation_url, "ai_documentation_url = ?, "@) + opt_sql(
        u.drive_link,
        "drive_link = ?, "@,
    ) + opt_sql(u.notes, "notes = ?, "@) + opt_sql(u.image_data, "image_data = ?, "@)
        + "updated_at = ? WHERE id = ?"@
}

/// The parameters of a sparse project update: the supplied values in
/// declaration order, then the update timestamp, then the row id.
pub open spec fn project_update_params(u: UpdateProjectDTO, now: u64, id: i64) -> Seq<SqlValue> {
    opt_param(u.name) + opt_param(u.description) + opt_param(u.local_path) + opt_param(
        u.documentation_url,
    ) + opt_param(u.ai_documentation_url) + opt_param(u.drive_link) + opt_param(u.notes)
        + opt_param(u.image_data) + seq![SqlValue::Int(now as i64), SqlValue::Int(id)]
}

/// An optional parameter as a sequence.
pub open spec fn opt_sv(o: Option<SqlValue>) -> Seq<SqlValue> {
    match o {
        Option::Some(p) => seq![p],
        Option::None => Seq::<SqlValue>::empty(),
    }
}

/// One optional SET fragment: the column assignment text and its bound
/// parameter when the field is supplied, nothing otherwise.
fn frag(v: &Option<String>, text: &str) -> (r: (String, Option<SqlValue>))
    ensures
        r.0@ == opt_sql(*v, text@),
        opt_sv(r.1) == opt_param(*v),
{
    match v {
        Option::None => (String::new(), Option::None),
        Option::Some(x) => (text.to_owned(), Option::Some(SqlValue::Text(x.clone()))),
    }
}

/// Appends a fragment to the statement under construction.
fn push_frag(sql: &mut String, params: &mut Vec<SqlValue>, piece: (String, Option<SqlValue>))
    ensures
        final(sql)@ == old(sql)@ + piece.0@,
        final(params)@ == old(params)@ + opt_sv(piece.1),
{
    sql.append(piece.0.as_str());
    match piece.1 {
        Option::None => {
            proof {
                assert(params@ =~= params@ + opt_sv(Option::<SqlValue>::None));
            }
        },
        Option::Some(p) => {
            let ghost pre = params@;
            params.push(p);
            proof {
                assert(params@ =~= pre + opt_sv(Option::Some(p)));
            }
        },
    }
}

/// Builds the minimal UPDATE of a sparse project update: exactly the
/// supplied fields are written, in declaration order, the update timestamp
/// is always bumped, and an update that supplies nothing is rejected rather
/// than run as a no-op.
#[verifier::rlimit(100)]
pub fn build_project_update(u: &UpdateProjectDTO, id: i64, now: u64) -> (r: Result<
    (String, Vec<SqlValue>),
    AppError,
>)
    requires
        now <= i64::MAX,
    ensures
        update_dto_empty(*u) ==> (r matches Err(e) && e == AppError::InvalidRequest),
        !update_dto_empty(*u) ==> (r matches Ok(p) && p.0@ == project_update_sql(*u) && p.1@
            == project_update_params(*u, now, id)),
{
    let empty = u.name.is_none() && u.description.is_none() && u.local_path.is_none()
        && u.documentation_url.is_none() && u.ai_documentation_url.is_none()
        && u.drive_link.is_none() && u.notes.is_none() && u.image_data.is_none();
    if empty {
        return Err(AppError::InvalidRequest);
    }
    let mut sql = "UPDATE projects SET ".to_owned();
    let mut params: Vec<SqlValue> = Vec::new();
    proof {
        assert(params@ + opt_param(u.name) =~= opt_param(u.name));
    }
    push_frag(&mut sql, &mut params, frag(&u.name, "name = ?, "));
    push_frag(&mut sql, &mut params, frag(&u.description, "description = ?, "));
    push_frag(&mut sql, &mut params, frag(&u.local_path, "local_path = ?, "));
    push_frag(&mut sql, &mut params, frag(&u.documentation_url, "documentation_url = ?, "));
    push_frag(&mut sql, &mut params, frag(&u.ai_documentation_url, "ai_documentation_url = ?, "));
    push_frag(&mut sql, &mut params, frag(&u.drive_link, "drive_link = ?, "));
    push_frag(&mut sql, &mut params, frag(&u.notes, "notes = ?, "));
    push_frag(&mut sql, &mut params, frag(&u.image_data, "image_data = ?, "));
    let ghost mid = params@;
    sql.append("updated_at = ? WHERE id = ?");
    params.push(SqlValue::Int(now as i64));
    params.push(SqlValue::Int(id));
    proof {
        assert(params@ =~= mid + seq![SqlValue::Int(now as i64), SqlValue::Int(id)]);
    }
    Ok((sql, params))
}

/// The whole UPDATE statement of a sparse link update. The trailing identity
/// assignment closes the SET list without a dangling comma and writes
/// nothing, since links carry no update timestamp.
pub open spec fn link_update_sql(u: UpdateLinkDTO) -> Seq<char> {
    "UPDATE project_links SET "@ + opt_sql(u.link_type, "link_type = ?, "@) + opt_sql(
        u.title,
        "title = ?, "@,
    ) + opt_sql(u.url, "url = ?, "@) + "id = id WHERE id = ?"@
}

/// The parameters of a sparse link update: the supplied values in
/// declaration order, then the row id.
pub open spec fn link_update_params(u: UpdateLinkDTO, id: i64) -> Seq<SqlValue> {
    opt_param(u.link_type) + opt_param(u.title) + opt_param(u.url) + seq![SqlValue::Int(id)]
}

/// Builds the minimal UPDATE of a sparse link update; an update that
/// supplies nothing is rejected rather than run as a no-op.
pub fn build_link_update(u: &UpdateLinkDTO, id: i64) -> (r: Result<
    (String, Vec<SqlValue>),
    AppError,
>)
    ensures
        link_update_empty(*u) ==> (r matches Err(e) && e == AppError::InvalidRequest),
        !link_update_empty(*u) ==> (r matches Ok(p) && p.0@ == link_update_sql(*u) && p.1@
            == link_update_params(*u, id)),
{
    if u.link_type.is_none() && u.title.is_none() && u.url.is_none() {
        return Err(AppError::InvalidRequest);
    }
    let mut sql = "UPDATE project_links SET ".to_owned();
    let mut params: Vec<SqlValue> = Vec::new();
    proof {
        assert(params@ + opt_param(u.link_type) =~= opt_param(u.link_type));
    }
    push_frag(&mut sql, &mut params, frag(&u.link_type, "link_type = ?, "));
    push_frag(&mut sql, &mut params, frag(&u.title, "title = ?, "));
    push_frag(&mut sql, &mut params, frag(&u.url, "url = ?, "));
    let ghost mid = params@;
    sql.append("id = id WHERE id = ?");
    params.push(SqlValue::Int(id));
    proof {
        assert(params@ =~= mid + seq![SqlValue::Int(id)]);
    }
    Ok((sql, params))
}

/// The whole UPDATE statement of a sparse journal update.
pub open spec fn journal_update_sql(u: UpdateJournalEntryDTO) -> Seq<char> {
    "UPDATE project_journal SET "@ + opt_sql(u.content, "content = ?, "@) + opt_sql(
        u.tags,
        "tags = ?, "@,
    ) + "updated_at = ? WHERE id = ?"@
}

/// The parameters of a sparse journal update: the supplied values in
/// declaration order, then the update timestamp, then the row id.
pub open spec fn journal_update_params(u: UpdateJournalEntryDTO, now: u64, id: i64) -> Seq<
    SqlValue,
> {
    opt_param(u.content) + opt_param(u.tags) + seq![SqlValue::Int(now as i64), SqlValue::Int(id)]
}

/// Builds the minimal UPDATE of a sparse journal update: the supplied fields
/// plus the always-bumped update timestamp; an update that supplies nothing
/// is rejected rather than run as a no-op.
pub fn build_journal_update(u: &UpdateJournalEntryDTO, id: i64, now: u64) -> (r: Result<
    (String, Vec<SqlValue>),
    AppError,
>)
    requires
        now <= i64::MAX,
    ensures
        journal_update_empty(*u) ==> (r matches Err(e) && e == AppError::InvalidRequest),
        !journal_update_empty(*u) ==> (r matches Ok(p) && p.0@ == journal_update_sql(*u) && p.1@
            == journal_update_params(*u, now, id)),
{
    if u.content.is_none() && u.tags.is_none() {
        return Err(AppError::InvalidRequest);
    }
    let mut sql = "UPDATE project_journal SET ".to_owned();
    let mut params: Vec<SqlValue> = Vec::new();
    proof {
        assert(params@ + opt_param(u.content) =~= opt_param(u.content));
    }
    push_frag(&mut sql, &mut params, frag(&u.content, "content = ?, "));
    push_frag(&mut sql, &mut params, frag(&u.tags, "tags = ?, "));
    let ghost mid = params@;
    sql.append("updated_at = ? WHERE id = ?");
    params.push(SqlValue::Int(now as i64));
    params.push(SqlValue::Int(id));
    proof {
        assert(params@ =~= mid + seq![SqlValue::Int(now as i64), SqlValue::Int(id)]);
    }
    Ok((sql, params))
}

// ---------------------------------------------------------------------------
// Row decoding: the typed reading of what the reader handed back
// ---------------------------------------------------------------------------
pub open spec fn sql_int(v: SqlValue) -> i64 {
    match v {
        SqlValue::Int(x) => x,
        _ => 0,
    }
}

pub open spec fn sql_text(v: SqlValue) -> Seq<char> {
    match v {
        SqlValue::Text(s) => s@,
        _ => Seq::<char>::empty(),
    }
}

/// A stored timestamp or counter: absent and negative values count as zero.
pub open spec fn sql_u64(v: SqlValue) -> u64 {
    if sql_int(v) >= 0 {
        sql_int(v) as u64
    } else {
        0
    }
}

pub open spec fn sql_opt_u64(v: SqlValue) -> Option<u64> {
    if v is Null {
        Option::None
    } else {
        Option::Some(sql_u64(v))
    }
}

/// A numeric column: an integer or absent.
pub open spec fn num_col(v: SqlValue) -> bool {
    v is Int || v is Null
}

/// A nullable text column.
pub open spec fn opt_text_col(v: SqlValue) -> bool {
    v is Text || v is Null
}

/// The decoded value of a nullable text column.
pub open spec fn opt_str_matches(v: SqlValue, o: Option<String>) -> bool {
    match v {
        SqlValue::Null => o is None,
        SqlValue::Text(s) => o matches Some(x) && x@ == s@,
        SqlValue::Int(_) => false,
    }
}

fn col_int(v: &SqlValue) -> (r: Option<i64>)
    ensures
        r is Some <==> *v is Int,
        r matches Some(x) ==> x == sql_int(*v),
{
    match v {
        SqlValue::Int(x) => Option::Some(*x),
        _ => Option::None,
    }
}

fn col_text(v: &SqlValue) -> (r: Option<String>)
    ensures
        r is Some <==> *v is Text,
        r matches Some(x) ==> x@ == sql_text(*v),
{
    match v {
        SqlValue::Text(t) => Option::Some(t.clone()),
        _ => Option::None,
    }
}

fn col_opt_text(v: &SqlValue) -> (r: Option<Option<String>>)
    ensures
        r is Some <==> opt_text_col(*v),
        r matches Some(o) ==> opt_str_matches(*v, o),
{
    match v {
        SqlValue::Text(t) => Option::Some(Option::Some(t.clone())),
        SqlValue::Null => Option::Some(Option::None),
        SqlValue::Int(_) => Option::None,
    }
}

fn col_u64(v: &SqlValue) -> (r: Option<u64>)
    ensures
        r is Some <==> num_col(*v),
        r matches Some(x) ==> x == sql_u64(*v),
{
    match v {
        SqlValue::Int(x) => if *x >= 0 {
            Option::Some(*x as u64)
        } else {
            Option::Some(0)
        },
        SqlValue::Null => Option::Some(0),
        SqlValue::Text(_) => Option::None,
    }
}

fn col_opt_u64(v: &SqlValue) -> (r: Option<Option<u64>>)
    ensures
        r is Some <==> num_col(*v),
        r matches Some(o) ==> o == sql_opt_u64(*v),
{
    match v {
        SqlValue::Int(x) => if *x >= 0 {
            Option::Some(Option::Some(*x as u64))
        } else {
            Option::Some(Option::Some(0))
        },
        SqlValue::Null => Option::Some(Option::None),
        SqlValue::Text(_) => Option::None,
    }
}

/// A status column: absent takes the creation default.
fn col_status(v: &SqlValue) -> (r: Option<String>)
    ensures
        r is Some <==> opt_text_col(*v),
        r matches Some(x) ==> (if *v is Text {
            x@ == sql_text(*v)
        } else {
            x@ == "active"@
        }),
{
    match v {
        SqlValue::Text(t) => Option::Some(t.clone()),
        SqlValue::Null => Option::Some("active".to_owned()),
        SqlValue::Int(_) => Option::None,
    }
}

/// The column shape of a stored project row.
pub open spec fn project_cols_ok(c: Seq<SqlValue>) -> bool {
    &&& c.len() == 18
    &&& c[0] is Int
    &&& c[1] is Text && c[2] is Text && c[3] is Text
    &&& opt_text_col(c[4]) && opt_text_col(c[5]) && opt_text_col(c[6]) && opt_text_col(c[7])
        && opt_text_col(c[8])
    &&& num_col(c[9]) && num_col(c[10]) && num_col(c[11]) && num_col(c[12]) && num_col(c[13])
    &&& opt_text_col(c[14])
    &&& num_col(c[15]) && num_col(c[16]) && num_col(c[17])
}

/// The project row a stored row decodes to, column by column.
pub open spec fn project_from_cols(c: Seq<SqlValue>, p: Project) -> bool {
    &&& p.id == sql_int(c[0])
    &&& p.name@ == sql_text(c[1])
    &&& p.description@ == sql_text(c[2])
    &&& p.local_path@ == sql_text(c[3])
    &&& opt_str_matches(c[4], p.documentation_url)
    &&& opt_str_matches(c[5], p.ai_documentation_url)
    &&& opt_str_matches(c[6], p.drive_link)
    &&& opt_str_matches(c[7], p.notes)
    &&& opt_str_matches(c[8], p.image_data)
    &&& p.links is None
    &&& p.created_at == sql_u64(c[9])
    &&& p.updated_at == sql_u64(c[10])
    &&& p.last_opened_at == sql_opt_u64(c[11])
    &&& p.opened_count == sql_u64(c[12])
    &&& p.total_time_seconds == sql_u64(c[13])
    &&& (if c[14] is Text {
        p.status@ == sql_text(c[14])
    } else {
        p.status@ == "active"@
    })
    &&& p.status_changed_at == sql_opt_u64(c[15])
    &&& p.is_pinned == (sql_int(c[16]) != 0)
    &&& p.pinned_order == sql_int(c[17])
}

/// Decodes one stored project row.
fn decode_project(c: &Vec<SqlValue>) -> (r: Option<Project>)
    ensures
        r is Some <==> project_cols_ok(c@),
        r matches Some(p) ==> project_from_cols(c@, p),
{
    if c.len() != 18 {
        return Option::None;
    }
    let id = match col_int(&c[0]) {
        Option::Some(x) => x,
        Option::None => {
            return Option::None;
        },
    };
    let name = match col_text(&c[1]) {
        Option::Some(x) => x,
        Option::None => {
            return Option::None;
        },
    };
    let description = match col_text(&c[2]) {
        Option::Some(x) => x,
        Option::None => {
            return Option::None;
        },
    };
    let local_path = match col_text(&c[3]) {
        Option::Some(x) => x,
        Option::None => {
            return Option::None;
        },
    };
    let documentation_url = match col_opt_text(&c[4]) {
        Option::Some(x) => x,
        Option::None => {
            return Option::None;
        },
    };
    let ai_documentation_url = match col_opt_text(&c[5]) {
        Option::Some(x) => x,
        Option::None => {
            return Option::None;
        },
    };
    let drive_link = match col_opt_text(&c[6]) {
        Option::Some(x) => x,
        Option::None => {
            return Option::None;
        },
    };
    let notes = match col_opt_text(&c[7]) {
        Option::Some(x) => x,
        Option::None => {
            return Option::None;
        },
    };
    let image_data = match col_opt_text(&c[8]) {
        Option::Some(x) => x,
        Option::None => {
            return Option::None;
        },
    };
    let created_at = match col_u64(&c[9]) {
        Option::Some(x) => x,
        Option::None => {
            return Option::None;
        },
    };
    let updated_at = match col_u64(&c[10]) {
        Option::Some(x) => x,
        Option::None => {
            return Option::None;
        },
    };
    let last_opened_at = match col_opt_u64(&c[11]) {
        Option::Some(x) => x,
        Option::None => {
            return Option::None;
        },
    };
    let opened_count = match col_u64(&c[12]) {
        Option::Some(x) => x,
        Option::None => {
            return Option::None;
        },
    };
    let total_time_seconds = match col_u64(&c[13]) {
        Option::Some(x) => x,
        Option::None => {
            return Option::None;
        },
    };
    let status = match col_status(&c[14]) {
        Option::Some(x) => x,
        Option::None => {
            return Option::None;
        },
    };
    let status_changed_at = match col_opt_u64(&c[15]) {
        Option::Some(x) => x,
        Option::None => {
            return Option::None;
        },
    };
    let is_pinned = match col_int(&c[16]) {
        Option::Some(x) => x != 0,
        Option::None => {
            match col_u64(&c[16]) {
                Option::Some(_) => false,
                Option::None => {
                    return Option::None;
                },
            }
        },
    };
    let pinned_order = match col_int(&c[17]) {
        Option::Some(x) => x,
        Option::None => {
            match col_u64(&c[17]) {
                Option::Some(_) => 0i64,
                Option::None => {
                    return Option::None;
                },
            }
        },
    };
    Option::Some(
        Project {
            id,
            name,
            description,
            local_path,
            documentation_url,
            ai_documentation_url,
            drive_link,
            notes,
            image_data,
            links: Option::None,
            created_at,
            updated_at,
            last_opened_at,
            opened_count,
            total_time_seconds,
            status,
            status_changed_at,
            is_pinned,
            pinned_order,
        },
    )
}

pub open spec fn sql_opt_i64(v: SqlValue) -> Option<i64> {
    if v is Null {
        Option::None
    } else {
        Option::Some(sql_int(v))
    }
}

fn col_opt_i64(v: &SqlValue) -> (r: Option<Option<i64>>)
    ensures
        r is Some <==> num_col(*v),
        r matches Some(o) ==> o == sql_opt_i64(*v),
{
    match v {
        SqlValue::Int(x) => Option::Some(Option::Some(*x)),
        SqlValue::Null => Option::Some(Option::None),
        SqlValue::Text(_) => Option::None,
    }
}

/// The column shape of a stored link row.
pub open spec fn link_cols_ok(c: Seq<SqlValue>) -> bool {
    c.len() == 6 && c[0] is Int && c[1] is Int && c[2] is Text && c[3] is Text && c[4] is Text
        && num_col(c[5])
}

pub open spec fn link_from_cols(c: Seq<SqlValue>, l: ProjectLink) -> bool {
    &&& l.id == sql_int(c[0])
    &&& l.project_id == sql_int(c[1])
    &&& l.link_type@ == sql_text(c[2])
    &&& l.title@ == sql_text(c[3])
    &&& l.url@ == sql_text(c[4])
    &&& l.created_at == sql_u64(c[5])
}

fn decode_link(c: &Vec<SqlValue>) -> (r: Option<ProjectLink>)
    ensures
        r is Some <==> link_cols_ok(c@),
        r matches Some(l) ==> link_from_cols(c@, l),
{
    if c.len() != 6 {
        return Option::None;
    }
    match (col_int(&c[0]), col_int(&c[1]), col_text(&c[2]), col_text(&c[3]), col_text(&c[4]),
    col_u64(&c[5])) {
        (
            Option::Some(id),
            Option::Some(project_id),
            Option::Some(link_type),
            Option::Some(title),
            Option::Some(url),
            Option::Some(created_at),
        ) => Option::Some(ProjectLink { id, project_id, link_type, title, url, created_at }),
        _ => Option::None,
    }
}

/// The column shape of a stored attachment row.
pub open spec fn attachment_cols_ok(c: Seq<SqlValue>) -> bool {
    c.len() == 7 && c[0] is Int && c[1] is Int && c[2] is Text && c[3] is Text && c[4] is Int
        && c[5] is Text && num_col(c[6])
}

pub open spec fn attachment_from_cols(c: Seq<SqlValue>, a: ProjectAttachment) -> bool {
    &&& a.id == sql_int(c[0])
    &&& a.project_id == sql_int(c[1])
    &&& a.filename@ == sql_text(c[2])
    &&& a.file_data@ == sql_text(c[3])
    &&& a.file_size == sql_int(c[4])
    &&& a.mime_type@ == sql_text(c[5])
    &&& a.created_at == sql_u64(c[6])
}

fn decode_attachment(c: &Vec<SqlValue>) -> (r: Option<ProjectAttachment>)
    ensures
        r is Some <==> attachment_cols_ok(c@),
        r matches Some(a) ==> attachment_from_cols(c@, a),
{
    if c.len() != 7 {
        return Option::None;
    }
    match (col_int(&c[0]), col_int(&c[1]), col_text(&c[2]), col_text(&c[3]), col_int(&c[4]),
    col_text(&c[5]), col_u64(&c[6])) {
        (
            Option::Some(id),
            Option::Some(project_id),
            Option::Some(filename),
            Option::Some(file_data),
            Option::Some(file_size),
            Option::Some(mime_type),
            Option::Some(created_at),
        ) => Option::Some(
            ProjectAttachment { id, project_id, filename, file_data, file_size, mime_type, created_at },
        ),
        _ => Option::None,
    }
}

/// The column shape of a stored journal row.
pub open spec fn journal_cols_ok(c: Seq<SqlValue>) -> bool {
    c.len() == 6 && c[0] is Int && c[1] is Int && c[2] is Text && opt_text_col(c[3]) && num_col(
        c[4],
    ) && num_col(c[5])
}

pub open spec fn journal_from_cols(c: Seq<SqlValue>, e: JournalEntry) -> bool {
    &&& e.id == sql_int(c[0])
    &&& e.project_id == sql_int(c[1])
    &&& e.content@ == sql_text(c[2])
    &&& opt_str_matches(c[3], e.tags)
    &&& e.created_at == sql_u64(c[4])
    &&& e.updated_at == sql_u64(c[5])
}

fn decode_journal(c: &Vec<SqlValue>) -> (r: Option<JournalEntry>)
    ensures
        r is Some <==> journal_cols_ok(c@),
        r matches Some(e) ==> journal_from_cols(c@, e),
{
    if c.len() != 6 {
        return Option::None;
    }
    match (col_int(&c[0]), col_int(&c[1]), col_text(&c[2]), col_opt_text(&c[3]), col_u64(&c[4]),
    col_u64(&c[5])) {
        (
            Option::Some(id),
            Option::Some(project_id),
            Option::Some(content),
            Option::Some(tags),
            Option::Some(created_at),
            Option::Some(updated_at),
        ) => Option::Some(JournalEntry { id, project_id, content, tags, created_at, updated_at }),
        _ => Option::None,
    }
}

/// The column shape of a stored todo row.
pub open spec fn todo_cols_ok(c: Seq<SqlValue>) -> bool {
    c.len() == 6 && c[0] is Int && c[1] is Int && c[2] is Text && num_col(c[3]) && num_col(c[4])
        && num_col(c[5])
}

pub open spec fn todo_from_cols(c: Seq<SqlValue>, t: ProjectTodo) -> bool {
    &&& t.id == sql_int(c[0])
    &&& t.project_id == sql_int(c[1])
    &&& t.content@ == sql_text(c[2])
    &&& t.is_completed == (sql_int(c[3]) != 0)
    &&& t.created_at == sql_u64(c[4])
    &&& t.completed_at == sql_opt_u64(c[5])
}

fn decode_todo(c: &Vec<SqlValue>) -> (r: Option<ProjectTodo>)
    ensures
        r is Some <==> todo_cols_ok(c@),
        r matches Some(t) ==> todo_from_cols(c@, t),
{
    if c.len() != 6 {
        return Option::None;
    }
    let is_completed = match &c[3] {
        SqlValue::Int(x) => *x != 0,
        SqlValue::Null => false,
        SqlValue::Text(_) => {
            return Option::None;
        },
    };
    match (col_int(&c[0]), col_int(&c[1]), col_text(&c[2]), col_u64(&c[4]), col_opt_u64(&c[5])) {
        (
            Option::Some(id),
            Option::Some(project_id),
            Option::Some(content),
            Option::Some(created_at),
            Option::Some(completed_at),
        ) => Option::Some(
            ProjectTodo { id, project_id, content, is_completed, created_at, completed_at },
        ),
        _ => Option::None,
    }
}

/// The column shape of a stored activity row.
pub open spec fn activity_cols_ok(c: Seq<SqlValue>) -> bool {
    c.len() == 6 && c[0] is Int && c[1] is Int && c[2] is Text && opt_text_col(c[3]) && num_col(
        c[4],
    ) && num_col(c[5])
}

pub open spec fn activity_from_cols(c: Seq<SqlValue>, a: ProjectActivity) -> bool {
    &&& a.id == sql_int(c[0])
    &&& a.project_id == sql_int(c[1])
    &&& a.activity_type@ == sql_text(c[2])
    &&& opt_str_matches(c[3], a.description)
    &&& a.duration_seconds == sql_opt_i64(c[4])
    &&& a.created_at == sql_u64(c[5])
}

fn decode_activity(c: &Vec<SqlValue>) -> (r: Option<ProjectActivity>)
    ensures
        r is Some <==> activity_cols_ok(c@),
        r matches Some(a) ==> activity_from_cols(c@, a),
{
    if c.len() != 6 {
        return Option::None;
    }
    match (col_int(&c[0]), col_int(&c[1]), col_text(&c[2]), col_opt_text(&c[3]), col_opt_i64(&c[4]),
    col_u64(&c[5])) {
        (
            Option::Some(id),
            Option::Some(project_id),
            Option::Some(activity_type),
            Option::Some(description),
            Option::Some(duration_seconds),
            Option::Some(created_at),
        ) => Option::Some(
            ProjectActivity { id, project_id, activity_type, description, duration_seconds, created_at },
        ),
        _ => Option::None,
    }
}

/// Decodes every stored row of the table; one undecodable row refuses the
/// whole load.
fn decode_projects(rows: &Vec<Vec<SqlValue>>) -> (r: Result<Vec<Project>, AppError>)
    ensures
        r matches Ok(v) ==> v@.len() == rows@.len() && forall|i: int|
            0 <= i < rows@.len() ==> project_from_cols((#[trigger] rows@[i])@, v@[i]),
        r matches Err(e) ==> e == AppError::StorageIo,
        (r is Err) == (exists|i: int| 0 <= i < rows@.len() && !project_cols_ok((#[trigger] rows@[i])@)),
{
    let mut out: Vec<Project> = Vec::new();
    let mut k: usize = 0;
    while k < rows.len()
        invariant
            k <= rows@.len(),
            out@.len() == k,
            forall|t: int| 0 <= t < k ==> project_from_cols((#[trigger] rows@[t])@, out@[t]),
            forall|t: int| 0 <= t < k ==> project_cols_ok((#[trigger] rows@[t])@),
        decreases rows@.len() - k,
    {
        match decode_project(&rows[k]) {
            Option::Some(x) => {
                out.push(x);
            },
            Option::None => {
                return Err(AppError::StorageIo);
            },
        }
        k = k + 1;
    }
    Ok(out)
}

/// Decodes every stored row of the table; one undecodable row refuses the
/// whole load.
fn decode_links(rows: &Vec<Vec<SqlValue>>) -> (r: Result<Vec<ProjectLink>, AppError>)
    ensures
        r matches Ok(v) ==> v@.len() == rows@.len() && forall|i: int|
            0 <= i < rows@.len() ==> link_from_cols((#[trigger] rows@[i])@, v@[i]),
        r matches Err(e) ==> e == AppError::StorageIo,
        (r is Err) == (exists|i: int| 0 <= i < rows@.len() && !link_cols_ok((#[trigger] rows@[i])@)),
{
    let mut out: Vec<ProjectLink> = Vec::new();
    let mut k: usize = 0;
    while k < rows.len()
        invariant
            k <= rows@.len(),
            out@.len() == k,
            forall|t: int| 0 <= t < k ==> link_from_cols((#[trigger] rows@[t])@, out@[t]),
            forall|t: int| 0 <= t < k ==> link_cols_ok((#[trigger] rows@[t])@),
        decreases rows@.len() - k,
    {
        match decode_link(&rows[k]) {
            Option::Some(x) => {
                out.push(x);
            },
            Option::None => {
                return Err(AppError::StorageIo);
            },
        }
        k = k + 1;
    }
    Ok(out)
}

/// Decodes every stored row of the table; one undecodable row refuses the
/// whole load.
fn decode_attachments(rows: &Vec<Vec<SqlValue>>) -> (r: Result<Vec<ProjectAttachment>, AppError>)
    ensures
        r matches Ok(v) ==> v@.len() == rows@.len() && forall|i: int|
            0 <= i < rows@.len() ==> attachment_from_cols((#[trigger] rows@[i])@, v@[i]),
        r matches Err(e) ==> e == AppError::StorageIo,
        (r is Err) == (exists|i: int| 0 <= i < rows@.len() && !attachment_cols_ok((#[trigger] rows@[i])@)),
{
    let mut out: Vec<ProjectAttachment> = Vec::new();
    let mut k: usize = 0;
    while k < rows.len()
        invariant
            k <= rows@.len(),
            out@.len() == k,
            forall|t: int| 0 <= t < k ==> attachment_from_cols((#[trigger] rows@[t])@, out@[t]),
            forall|t: int| 0 <= t < k ==> attachment_cols_ok((#[trigger] rows@[t])@),
        decreases rows@.len() - k,
    {
        match decode_attachment(&rows[k]) {
            Option::Some(x) => {
                out.push(x);
            },
            Option::None => {
                return Err(AppError::StorageIo);
            },
        }
        k = k + 1;
    }
    Ok(out)
}

/// Decodes every stored row of the table; one undecodable row refuses the
/// whole load.
fn decode_journal_rows(rows: &Vec<Vec<SqlValue>>) -> (r: Result<Vec<JournalEntry>, AppError>)
    ensures
        r matches Ok(v) ==> v@.len() == rows@.len() && forall|i: int|
            0 <= i < rows@.len() ==> journal_from_cols((#[trigger] rows@[i])@, v@[i]),
        r matches Err(e) ==> e == AppError::StorageIo,
        (r is Err) == (exists|i: int| 0 <= i < rows@.len() && !journal_cols_ok((#[trigger] rows@[i])@)),
{
    let mut out: Vec<JournalEntry> = Vec::new();
    let mut k: usize = 0;
    while k < rows.len()
        invariant
            k <= rows@.len(),
            out@.len() == k,
            forall|t: int| 0 <= t < k ==> journal_from_cols((#[trigger] rows@[t])@, out@[t]),
            forall|t: int| 0 <= t < k ==> journal_cols_ok((#[trigger] rows@[t])@),
        decreases rows@.len() - k,
    {
        match decode_journal(&rows[k]) {
            Option::Some(x) => {
                out.push(x);
            },
            Option::None => {
                return Err(AppError::StorageIo);
            },
        }
        k = k + 1;
    }
    Ok(out)
}

/// Decodes every stored row of the table; one undecodable row refuses the
/// whole load.
fn decode_todos(rows: &Vec<Vec<SqlValue>>) -> (r: Result<Vec<ProjectTodo>, AppError>)
    ensures
        r matches Ok(v) ==> v@.len() == rows@.len() && forall|i: int|
            0 <= i < rows@.len() ==> todo_from_cols((#[trigger] rows@[i])@, v@[i]),
        r matches Err(e) ==> e == AppError::StorageIo,
        (r is Err) == (exists|i: int| 0 <= i < rows@.len() && !todo_cols_ok((#[trigger] rows@[i])@)),
{
    let mut out: Vec<ProjectTodo> = Vec::new();
    let mut k: usize = 0;
    while k < rows.len()
        invariant
            k <= rows@.len(),
            out@.len() == k,
            forall|t: int| 0 <= t < k ==> todo_from_cols((#[trigger] rows@[t])@, out@[t]),
            forall|t: int| 0 <= t < k ==> todo_cols_ok((#[trigger] rows@[t])@),
        decreases rows@.len() - k,
    {
        match decode_todo(&rows[k]) {
            Option::Some(x) => {
                out.push(x);
            },
            Option::None => {
                return Err(AppError::StorageIo);
            },
        }
        k = k + 1;
    }
    Ok(out)
}

/// Decodes every stored row of the table; one undecodable row refuses the
/// whole load.
fn decode_activities(rows: &Vec<Vec<SqlValue>>) -> (r: Result<Vec<ProjectActivity>, AppError>)
    ensures
        r matches Ok(v) ==> v@.len() == rows@.len() && forall|i: int|
            0 <= i < rows@.len() ==> activity_from_cols((#[trigger] rows@[i])@, v@[i]),
        r matches Err(e) ==> e == AppError::StorageIo,
        (r is Err) == (exists|i: int| 0 <= i < rows@.len() && !activity_cols_ok((#[trigger] rows@[i])@)),
{
    let mut out: Vec<ProjectActivity> = Vec::new();
    let mut k: usize = 0;
    while k < rows.len()
        invariant
            k <= rows@.len(),
            out@.len() == k,
            forall|t: int| 0 <= t < k ==> activity_from_cols((#[trigger] rows@[t])@, out@[t]),
            forall|t: int| 0 <= t < k ==> activity_cols_ok((#[trigger] rows@[t])@),
        decreases rows@.len() - k,
    {
        match decode_activity(&rows[k]) {
            Option::Some(x) => {
                out.push(x);
            },
            Option::None => {
                return Err(AppError::StorageIo);
            },
        }
        k = k + 1;
    }
    Ok(out)
}

// ---------------------------------------------------------------------------
// The database: the verified store written through to an embedded SQLite
// file.
// ---------------------------------------------------------------------------
/// The record store backed by an embedded relational database: every
/// mutation runs as a SQL statement on the connection and is mirrored in the
/// verified in-memory store, which serves every read.
pub struct Database {
    /// The authoritative, verified state.
    pub store: Store,
    /// The write-through connection to the embedded database.
    pub conn: rusqlite::Connection,
}

impl Database {
    pub open spec fn wf(self) -> bool {
        self.store.wf()
    }

    /// Opens the database file at the path: the schema is created or
    /// extended (never dropped or rewritten), every stored row of every
    /// table is read back into the verified mirror, and each id counter
    /// resumes past its table's greatest id. A file whose rows cannot be
    /// decoded, or whose ids are duplicated or out of range, is refused.
    pub fn new(path: &str) -> (r: Result<Database, AppError>)
        ensures
            r matches Ok(d) ==> d.wf() && d.store.next_project_id < i64::MAX
                && d.store.next_link_id < i64::MAX && d.store.next_attachment_id < i64::MAX
                && d.store.next_journal_id < i64::MAX && d.store.next_todo_id < i64::MAX
                && d.store.next_activity_id < i64::MAX,
    {
        let conn = match open_db(path) {
            Ok(c) => c,
            Err(e) => {
                return Err(e);
            },
        };
        match Self::init_schema(&conn) {
            Ok(()) => {},
            Err(e) => {
                return Err(e);
            },
        }
        let store = match Self::load_store(&conn) {
            Ok(s) => s,
            Err(e) => {
                return Err(e);
            },
        };
        Ok(Database { store, conn })
    }

    /// Opens a fresh in-memory database with the same schema; the mirror
    /// rebuilds from its (empty) tables.
    pub fn open_in_memory() -> (r: Result<Database, AppError>)
        ensures
            r matches Ok(d) ==> d.wf() && d.store.next_project_id < i64::MAX
                && d.store.next_link_id < i64::MAX && d.store.next_attachment_id < i64::MAX
                && d.store.next_journal_id < i64::MAX && d.store.next_todo_id < i64::MAX
                && d.store.next_activity_id < i64::MAX,
    {
        let conn = match open_db_in_memory() {
            Ok(c) => c,
            Err(e) => {
                return Err(e);
            },
        };
        match Self::init_schema(&conn) {
            Ok(()) => {},
            Err(e) => {
                return Err(e);
            },
        }
        let store = match Self::load_store(&conn) {
            Ok(s) => s,
            Err(e) => {
                return Err(e);
            },
        };
        Ok(Database { store, conn })
    }

    /// Creates the tables and attempts the best-effort column additions that
    /// bring an older file up to the current shape; a failed addition means
    /// the column already exists and is ignored. Existing tables are never
    /// dropped or rewritten.
    fn init_schema(conn: &rusqlite::Connection) -> (r: Result<(), AppError>)
        ensures
            r matches Err(e) ==> e == AppError::StorageIo,
    {
        let no_params: Vec<SqlValue> = Vec::new();
        if exec_sql(
            conn,
            "CREATE TABLE IF NOT EXISTS projects (\
             id INTEGER PRIMARY KEY AUTOINCREMENT, name TEXT NOT NULL, \
             description TEXT NOT NULL, local_path TEXT NOT NULL, \
             documentation_url TEXT, ai_documentation_url TEXT, drive_link TEXT, \
             notes TEXT, image_data TEXT, created_at INTEGER, updated_at INTEGER)",
            &no_params,
        ).is_err() {
            return Err(AppError::StorageIo);
        }
        let _ = exec_sql(conn, "ALTER TABLE projects ADD COLUMN notes TEXT", &no_params);
        let _ = exec_sql(conn, "ALTER TABLE projects ADD COLUMN image_data TEXT", &no_params);
        let _ = exec_sql(conn, "ALTER TABLE projects ADD COLUMN last_opened_at INTEGER", &no_params);
        let _ = exec_sql(
            conn,
            "ALTER TABLE projects ADD COLUMN opened_count INTEGER DEFAULT 0",
            &no_params,
        );
        let _ = exec_sql(
            conn,
            "ALTER TABLE projects ADD COLUMN total_time_seconds INTEGER DEFAULT 0",
            &no_params,
        );
        let _ = exec_sql(
            conn,
            "ALTER TABLE projects ADD COLUMN status TEXT DEFAULT 'active'",
            &no_params,
        );
        let _ = exec_sql(conn, "ALTER TABLE projects ADD COLUMN status_changed_at INTEGER", &no_params);
        let _ = exec_sql(conn, "ALTER TABLE projects ADD COLUMN is_pinned BOOLEAN DEFAULT 0", &no_params);
        let _ = exec_sql(
            conn,
            "ALTER TABLE projects ADD COLUMN pinned_order INTEGER DEFAULT 0",
            &no_params,
        );
        if exec_sql(
            conn,
            "CREATE TABLE IF NOT EXISTS project_links (\
             id INTEGER PRIMARY KEY AUTOINCREMENT, project_id INTEGER NOT NULL, \
             link_type TEXT NOT NULL, title TEXT NOT NULL, url TEXT NOT NULL, \
             created_at INTEGER, \
             FOREIGN KEY (project_id) REFERENCES projects (id) ON DELETE CASCADE)",
            &no_params,
        ).is_err() {
            return Err(AppError::StorageIo);
        }
        if exec_sql(
            conn,
            "CREATE TABLE IF NOT EXISTS project_attachments (\
             id INTEGER PRIMARY KEY AUTOINCREMENT, project_id INTEGER NOT NULL, \
             filename TEXT NOT NULL, file_data TEXT NOT NULL, file_size INTEGER NOT NULL, \
             mime_type TEXT NOT NULL, created_at INTEGER, \
             FOREIGN KEY (project_id) REFERENCES projects (id) ON DELETE CASCADE)",
            &no_params,
        ).is_err() {
            return Err(AppError::StorageIo);
        }
        if exec_sql(
            conn,
            "CREATE TABLE IF NOT EXISTS project_journal (\
             id INTEGER PRIMARY KEY AUTOINCREMENT, project_id INTEGER NOT NULL, \
             content TEXT NOT NULL, tags TEXT, created_at INTEGER, updated_at INTEGER, \
             FOREIGN KEY (project_id) REFERENCES projects (id) ON DELETE CASCADE)",
            &no_params,
        ).is_err() {
            return Err(AppError::StorageIo);
        }
        if exec_sql(
            conn,
            "CREATE TABLE IF NOT EXISTS project_todos (\
             id INTEGER PRIMARY KEY AUTOINCREMENT, project_id INTEGER NOT NULL, \
             content TEXT NOT NULL, is_completed BOOLEAN DEFAULT 0, created_at INTEGER, \
             completed_at INTEGER, \
             FOREIGN KEY (project_id) REFERENCES projects (id) ON DELETE CASCADE)",
            &no_params,
        ).is_err() {
            return Err(AppError::StorageIo);
        }
        if exec_sql(
            conn,
            "CREATE TABLE IF NOT EXISTS project_activity (\
             id INTEGER PRIMARY KEY AUTOINCREMENT, project_id INTEGER NOT NULL, \
             activity_type TEXT NOT NULL, description TEXT, duration_seconds INTEGER, \
             created_at INTEGER, \
             FOREIGN KEY (project_id) REFERENCES projects (id) ON DELETE CASCADE)",
            &no_params,
        ).is_err() {
            return Err(AppError::StorageIo);
        }
        Ok(())
    }

    /// Reads every table back and rebuilds the verified mirror from it.
    fn load_store(conn: &rusqlite::Connection) -> (r: Result<Store, AppError>)
        ensures
            r matches Ok(s) ==> s.wf() && s.next_project_id < i64::MAX && s.next_link_id
                < i64::MAX && s.next_attachment_id < i64::MAX && s.next_journal_id < i64::MAX
                && s.next_todo_id < i64::MAX && s.next_activity_id < i64::MAX,
            r matches Err(e) ==> e == AppError::StorageIo,
    {
        let project_rows = match query_rows(
            conn,
            "SELECT id, name, description, local_path, documentation_url, ai_documentation_url, \
             drive_link, notes, image_data, created_at, updated_at, last_opened_at, opened_count, \
             total_time_seconds, status, status_changed_at, is_pinned, pinned_order \
             FROM projects ORDER BY id",
        ) {
            Ok(v) => v,
            Err(_) => {
                return Err(AppError::StorageIo);
            },
        };
        let projects = match decode_projects(&project_rows) {
            Ok(v) => v,
            Err(e) => {
                return Err(e);
            },
        };
        let link_rows = match query_rows(
            conn,
            "SELECT id, project_id, link_type, title, url, created_at FROM project_links ORDER BY id",
        ) {
            Ok(v) => v,
            Err(_) => {
                return Err(AppError::StorageIo);
            },
        };
        let links = match decode_links(&link_rows) {
            Ok(v) => v,
            Err(e) => {
                return Err(e);
            },
        };
        let attachment_rows = match query_rows(
            conn,
            "SELECT id, project_id, filename, file_data, file_size, mime_type, created_at \
             FROM project_attachments ORDER BY id",
        ) {
            Ok(v) => v,
            Err(_) => {
                return Err(AppError::StorageIo);
            },
        };
        let attachments = match decode_attachments(&attachment_rows) {
            Ok(v) => v,
            Err(e) => {
                return Err(e);
            },
        };
        let journal_rows = match query_rows(
            conn,
            "SELECT id, project_id, content, tags, created_at, updated_at \
             FROM project_journal ORDER BY id",
        ) {
            Ok(v) => v,
            Err(_) => {
                return Err(AppError::StorageIo);
            },
        };
        let journal = match decode_journal_rows(&journal_rows) {
            Ok(v) => v,
            Err(e) => {
                return Err(e);
            },
        };
        let todo_rows = match query_rows(
            conn,
            "SELECT id, project_id, content, is_completed, created_at, completed_at \
             FROM project_todos ORDER BY id",
        ) {
            Ok(v) => v,
            Err(_) => {
                return Err(AppError::StorageIo);
            },
        };
        let todos = match decode_todos(&todo_rows) {
            Ok(v) => v,
            Err(e) => {
                return Err(e);
            },
        };
        let activity_rows = match query_rows(
            conn,
            "SELECT id, project_id, activity_type, description, duration_seconds, created_at \
             FROM project_activity ORDER BY id",
        ) {
            Ok(v) => v,
            Err(_) => {
                return Err(AppError::StorageIo);
            },
        };
        let activities = match decode_activities(&activity_rows) {
            Ok(v) => v,
            Err(e) => {
                return Err(e);
            },
        };
        Store::rehydrate(projects, links, attachments, journal, todos, activities)
    }

    /// Creates a project: the row is inserted with its assigned id and the
    /// canonical record is returned. A write failure changes nothing.
    pub fn create_project(&mut self, project: CreateProjectDTO, now: u64) -> (r: Result<
        Project,
        AppError,
    >)
        requires
            old(self).wf(),
            old(self).store.next_project_id < i64::MAX,
            now <= i64::MAX,
        ensures
            final(self).wf(),
            r matches Err(e) ==> e == AppError::StorageIo && final(self).store.same_state(
                old(self).store,
            ),
            r matches Ok(p) ==> {
                &&& p.id == old(self).store.next_project_id
                &&& p.name == project.name
                &&& p.description == project.description
                &&& p.local_path == project.local_path
                &&& p.documentation_url == project.documentation_url
                &&& p.ai_documentation_url == project.ai_documentation_url
                &&& p.drive_link == project.drive_link
                &&& p.notes == project.notes
                &&& p.image_data == project.image_data
                &&& p.links is None
                &&& p.created_at == now
                &&& p.updated_at == now
                &&& p.last_opened_at is None
                &&& p.opened_count == 0
                &&& p.total_time_seconds == 0
                &&& p.status@ == "active"@
                &&& p.status_changed_at is None
                &&& !p.is_pinned
                &&& p.pinned_order == 0
                &&& final(self).store.projects@ == old(self).store.projects@.push(p)
                &&& final(self).store.next_project_id == old(self).store.next_project_id + 1
                &&& final(self).store.children_unchanged(old(self).store)
            },
    {
        let mut params: Vec<SqlValue> = Vec::new();
        params.push(SqlValue::Int(self.store.next_project_id));
        params.push(SqlValue::Text(project.name.clone()));
        params.push(SqlValue::Text(project.description.clone()));
        params.push(SqlValue::Text(project.local_path.clone()));
        params.push(sql_opt(&project.documentation_url));
        params.push(sql_opt(&project.ai_documentation_url));
        params.push(sql_opt(&project.drive_link));
        params.push(sql_opt(&project.notes));
        params.push(sql_opt(&project.image_data));
        params.push(SqlValue::Int(now as i64));
        if exec_sql(
            &self.conn,
            "INSERT INTO projects (id, name, description, local_path, documentation_url, \
             ai_documentation_url, drive_link, notes, image_data, created_at, updated_at, \
             status, is_pinned, pinned_order, opened_count, total_time_seconds) \
             VALUES (?1, ?2, ?3, ?4, ?5, ?6, ?7, ?8, ?9, ?10, ?10, 'active', 0, 0, 0, 0)",
            &params,
        ).is_err() {
            return Err(AppError::StorageIo);
        }
        self.store.create_project(project, now)
    }

    /// Looks a project up by id, links attached.
    pub fn get_project(&self, id: i64) -> (r: Result<Project, AppError>)
        requires
            self.wf(),
        ensures
            match r {
                Ok(p) => has_row(self.store.projects@, id) && strip(p) == self.store.projects@[
                    row_index_of(self.store.projects@, id)
                ] && links_loaded(self.store.links@, p),
                Err(e) => e == AppError::NotFound && !has_row(self.store.projects@, id),
            },
    {
        self.store.get_project(id)
    }

    /// The full project collection in listing order, links attached.
    pub fn get_all_projects(&self) -> (r: Result<Vec<Project>, AppError>)
        requires
            self.wf(),
        ensures
            r matches Ok(v) && {
                &&& v@.len() == self.store.projects@.len()
                &&& v@.map_values(|p: Project| strip(p)).to_multiset()
                    == self.store.projects@.to_multiset()
                &&& seq_sorted(v@)
                &&& forall|i: int|
                    0 <= i < v@.len() ==> links_loaded(self.store.links@, #[trigger] v@[i])
            },
    {
        self.store.get_all_projects()
    }

    /// Projects matching the query, in listing order, links attached.
    pub fn search_projects(&self, query: &str) -> (r: Result<Vec<Project>, AppError>)
        requires
            self.wf(),
        ensures
            r matches Ok(v) && {
                &&& v@.map_values(|p: Project| strip(p)).to_multiset()
                    == self.store.projects@.filter(crate::store::matches_pred(query@)).to_multiset()
                &&& seq_sorted(v@)
                &&& forall|i: int|
                    0 <= i < v@.len() ==> links_loaded(self.store.links@, #[trigger] v@[i])
            },
    {
        self.store.search_projects(query)
    }

    /// Applies a sparse update through the minimal UPDATE statement, then
    /// returns the reloaded row. An empty update is rejected before the
    /// database is touched; a write failure changes nothing.
    pub fn update_project(&mut self, id: i64, updates: UpdateProjectDTO, now: u64) -> (r: Result<
        Project,
        AppError,
    >)
        requires
            old(self).wf(),
            now <= i64::MAX,
        ensures
            final(self).wf(),
            update_dto_empty(updates) ==> (r matches Err(e) && e == AppError::InvalidRequest
                && final(self).store.same_state(old(self).store)),
            r matches Err(e) && e == AppError::StorageIo ==> final(self).store.same_state(
                old(self).store,
            ),
            !update_dto_empty(updates) && !has_row(old(self).store.projects@, id) && !(r matches Err(
                e,
            ) && e == AppError::StorageIo) ==> (r matches Err(e) && e == AppError::NotFound && final(self).store.same_state(old(self).store)),
            !update_dto_empty(updates) && has_row(old(self).store.projects@, id) && !(r matches Err(
                e,
            ) && e == AppError::StorageIo) ==> ({
                let idx = row_index_of(old(self).store.projects@, id);
                let new_row = apply_project_update(old(self).store.projects@[idx], updates, now);
                &&& final(self).store.projects@ == old(self).store.projects@.update(idx, new_row)
                &&& final(self).store.children_unchanged(old(self).store)
                &&& r matches Ok(p) && strip(p) == new_row && links_loaded(final(self).store.links@, p)
            }),
    {
        let (sql, params) = match build_project_update(&updates, id, now) {
            Ok(sp) => sp,
            Err(e) => {
                return Err(e);
            },
        };
        if exec_sql(&self.conn, sql.as_str(), &params).is_err() {
            return Err(AppError::StorageIo);
        }
        self.store.update_project(id, updates, now)
    }

    /// Deletes a project and, by cascade, all of its child rows. Deleting an
    /// absent id succeeds and changes nothing — stray child rows whose
    /// project id matches no row are left untouched; a write failure changes
    /// nothing.
    pub fn delete_project(&mut self, id: i64) -> (r: Result<(), AppError>)
        requires
            old(self).wf(),
        ensures
            final(self).wf(),
            r matches Err(e) ==> e == AppError::StorageIo && final(self).store.same_state(
                old(self).store,
            ),
            r is Ok && has_row(old(self).store.projects@, id) ==> {
                &&& final(self).store.projects@ == old(self).store.projects@.filter(
                    crate::store::rid_ne::<Project>(id),
                )
                &&& final(self).store.links@ == old(self).store.links@.filter(
                    crate::store::pid_ne::<ProjectLink>(id),
                )
                &&& final(self).store.attachments@ == old(self).store.attachments@.filter(
                    crate::store::pid_ne::<ProjectAttachment>(id),
                )
                &&& final(self).store.journal@ == old(self).store.journal@.filter(
                    crate::store::pid_ne::<JournalEntry>(id),
                )
                &&& final(self).store.todos@ == old(self).store.todos@.filter(
                    crate::store::pid_ne::<crate::models::ProjectTodo>(id),
                )
                &&& final(self).store.activities@ == old(self).store.activities@.filter(
                    crate::store::pid_ne::<ProjectActivity>(id),
                )
            },
            r is Ok && !has_row(old(self).store.projects@, id) ==> final(self).store.same_state(
                old(self).store,
            ),
    {
        if !self.store.contains_project(id) {
            return Ok(());
        }
        let mut params: Vec<SqlValue> = Vec::new();
        params.push(SqlValue::Int(id));
        if exec_sql(&self.conn, "DELETE FROM projects WHERE id = ?1", &params).is_err() {
            return Err(AppError::StorageIo);
        }
        if exec_sql(&self.conn, "DELETE FROM project_links WHERE project_id = ?1", &params).is_err() {
            return Err(AppError::StorageIo);
        }
        if exec_sql(
            &self.conn,
            "DELETE FROM project_attachments WHERE project_id = ?1",
            &params,
        ).is_err() {
            return Err(AppError::StorageIo);
        }
        if exec_sql(
            &self.conn,
            "DELETE FROM project_journal WHERE project_id = ?1",
            &params,
        ).is_err() {
            return Err(AppError::StorageIo);
        }
        if exec_sql(&self.conn, "DELETE FROM project_todos WHERE project_id = ?1", &params).is_err() {
            return Err(AppError::StorageIo);
        }
        if exec_sql(
            &self.conn,
            "DELETE FROM project_activity WHERE project_id = ?1",
            &params,
        ).is_err() {
            return Err(AppError::StorageIo);
        }
        self.store.delete_project(id)
    }

    /// Creates a link row owned by a project; a write failure changes
    /// nothing.
    pub fn create_link(&mut self, link: CreateLinkDTO, now: u64) -> (r: Result<
        ProjectLink,
        AppError,
    >)
        requires
            old(self).wf(),
            old(self).store.next_link_id < i64::MAX,
            now <= i64::MAX,
        ensures
            final(self).wf(),
            r matches Err(e) ==> e == AppError::StorageIo && final(self).store.same_state(
                old(self).store,
            ),
            r matches Ok(l) ==> {
                &&& l.id == old(self).store.next_link_id
                &&& l.project_id == link.project_id
                &&& l.link_type == link.link_type
                &&& l.title == link.title
                &&& l.url == link.url
                &&& l.created_at == now
                &&& final(self).store.links@ == old(self).store.links@.push(l)
                &&& final(self).store.projects@ == old(self).store.projects@
            },
    {
        let mut params: Vec<SqlValue> = Vec::new();
        params.push(SqlValue::Int(self.store.next_link_id));
        params.push(SqlValue::Int(link.project_id));
        params.push(SqlValue::Text(link.link_type.clone()));
        params.push(SqlValue::Text(link.title.clone()));
        params.push(SqlValue::Text(link.url.clone()));
        params.push(SqlValue::Int(now as i64));
        if exec_sql(
            &self.conn,
            "INSERT INTO project_links (id, project_id, link_type, title, url, created_at) \
             VALUES (?1, ?2, ?3, ?4, ?5, ?6)",
            &params,
        ).is_err() {
            return Err(AppError::StorageIo);
        }
        self.store.create_link(link, now)
    }

    /// The links of one project, newest first.
    pub fn get_project_links(&self, project_id: i64) -> (r: Result<Vec<ProjectLink>, AppError>)
        ensures
            r matches Ok(v) && v@.to_multiset() == rows_of(
                self.store.links@,
                project_id,
            ).to_multiset() && seq_sorted(v@),
    {
        self.store.get_project_links(project_id)
    }

    /// Applies a sparse update to a link row; an empty update is rejected
    /// before the database is touched, and a write failure changes nothing.
    pub fn update_link(&mut self, id: i64, link: UpdateLinkDTO) -> (r: Result<
        ProjectLink,
        AppError,
    >)
        requires
            old(self).wf(),
        ensures
            final(self).wf(),
            link_update_empty(link) ==> (r matches Err(e) && e == AppError::InvalidRequest && final(self).store.same_state(old(self).store)),
            r matches Err(e) && e == AppError::StorageIo ==> final(self).store.same_state(
                old(self).store,
            ),
            !link_update_empty(link) && has_row(old(self).store.links@, id) && !(r matches Err(e)
                && e == AppError::StorageIo) ==> ({
                let idx = row_index_of(old(self).store.links@, id);
                let new_row = apply_link_update(old(self).store.links@[idx], link);
                &&& final(self).store.links@ == old(self).store.links@.update(idx, new_row)
                &&& r matches Ok(l) && l == new_row
            }),
            !link_update_empty(link) && !has_row(old(self).store.links@, id) && !(r matches Err(e)
                && e == AppError::StorageIo) ==> (r matches Err(e) && e == AppError::NotFound
                && final(self).store.same_state(old(self).store)),
    {
        let (sql, params) = match build_link_update(&link, id) {
            Ok(sp) => sp,
            Err(e) => {
                return Err(e);
            },
        };
        if exec_sql(&self.conn, sql.as_str(), &params).is_err() {
            return Err(AppError::StorageIo);
        }
        self.store.update_link(id, link)
    }

    /// Deletes a link row; a write failure changes nothing.
    pub fn delete_link(&mut self, id: i64) -> (r: Result<(), AppError>)
        requires
            old(self).wf(),
        ensures
            final(self).wf(),
            r matches Err(e) ==> e == AppError::StorageIo && final(self).store.same_state(
                old(self).store,
            ),
            r is Ok ==> final(self).store.links@ == old(self).store.links@.filter(
                crate::store::rid_ne::<ProjectLink>(id),
            ) && final(self).store.projects@ == old(self).store.projects@,
    {
        let mut params: Vec<SqlValue> = Vec::new();
        params.push(SqlValue::Int(id));
        if exec_sql(&self.conn, "DELETE FROM project_links WHERE id = ?1", &params).is_err() {
            return Err(AppError::StorageIo);
        }
        self.store.delete_link(id)
    }

    /// Records an open of a project: the counter statement, then the
    /// activity row, two consecutive statements; a write failure changes
    /// nothing in the mirrored state.
    pub fn track_project_open(&mut self, id: i64, now: u64) -> (r: Result<(), AppError>)
        requires
            old(self).wf(),
            old(self).store.next_activity_id < i64::MAX,
            now <= i64::MAX,
        ensures
            final(self).wf(),
            r matches Err(e) ==> e == AppError::StorageIo && final(self).store.same_state(
                old(self).store,
            ),
            r is Ok && has_row(old(self).store.projects@, id) ==> ({
                let idx = row_index_of(old(self).store.projects@, id);
                final(self).store.projects@ == old(self).store.projects@.update(
                    idx,
                    apply_track_open(old(self).store.projects@[idx], now),
                )
            }),
            r is Ok && !has_row(old(self).store.projects@, id) ==> final(self).store.projects@
                == old(self).store.projects@,
            r is Ok ==> (exists|a: ProjectActivity|
                {
                    &&& #[trigger] final(self).store.activities@ == old(
                        self,
                    ).store.activities@.push(a)
                    &&& a.id == old(self).store.next_activity_id
                    &&& a.project_id == id
                    &&& a.activity_type@ == "opened"@
                    &&& a.description matches Option::Some(d) && d@ == "Project opened"@
                    &&& a.duration_seconds is None
                    &&& a.created_at == now
                }),
            r is Ok ==> {
                &&& final(self).store.next_activity_id == old(self).store.next_activity_id + 1
                &&& final(self).store.links@ == old(self).store.links@
                &&& final(self).store.attachments@ == old(self).store.attachments@
                &&& final(self).store.journal@ == old(self).store.journal@
                &&& final(self).store.todos@ == old(self).store.todos@
                &&& final(self).store.next_project_id == old(self).store.next_project_id
                &&& final(self).store.next_link_id == old(self).store.next_link_id
                &&& final(self).store.next_attachment_id == old(self).store.next_attachment_id
                &&& final(self).store.next_journal_id == old(self).store.next_journal_id
                &&& final(self).store.next_todo_id == old(self).store.next_todo_id
            },
    {
        let mut params: Vec<SqlValue> = Vec::new();
        params.push(SqlValue::Int(id));
        params.push(SqlValue::Int(now as i64));
        if exec_sql(
            &self.conn,
            "UPDATE projects SET last_opened_at = ?2, \
             opened_count = COALESCE(opened_count, 0) + 1 WHERE id = ?1",
            &params,
        ).is_err() {
            return Err(AppError::StorageIo);
        }
        let mut act_params: Vec<SqlValue> = Vec::new();
        act_params.push(SqlValue::Int(self.store.next_activity_id));
        act_params.push(SqlValue::Int(id));
        act_params.push(SqlValue::Int(now as i64));
        if exec_sql(
            &self.conn,
            "INSERT INTO project_activity (id, project_id, activity_type, description, created_at) \
             VALUES (?1, ?2, 'opened', 'Project opened', ?3)",
            &act_params,
        ).is_err() {
            return Err(AppError::StorageIo);
        }
        self.store.track_project_open(id, now)
    }

    /// Adds tracked seconds to a project; a write failure changes nothing.
    pub fn add_project_time(&mut self, id: i64, seconds: u64) -> (r: Result<(), AppError>)
        requires
            old(self).wf(),
            seconds <= i64::MAX,
        ensures
            final(self).wf(),
            r matches Err(e) ==> e == AppError::StorageIo && final(self).store.same_state(
                old(self).store,
            ),
            r is Ok && has_row(old(self).store.projects@, id) ==> ({
                let idx = row_index_of(old(self).store.projects@, id);
                final(self).store.projects@ == old(self).store.projects@.update(
                    idx,
                    apply_add_time(old(self).store.projects@[idx], seconds),
                )
            }),
            r is Ok && !has_row(old(self).store.projects@, id) ==> final(self).store.same_state(
                old(self).store,
            ),
    {
        let mut params: Vec<SqlValue> = Vec::new();
        params.push(SqlValue::Int(id));
        params.push(SqlValue::Int(seconds as i64));
        if exec_sql(
            &self.conn,
            "UPDATE projects SET total_time_seconds = COALESCE(total_time_seconds, 0) + ?2 \
             WHERE id = ?1",
            &params,
        ).is_err() {
            return Err(AppError::StorageIo);
        }
        self.store.add_project_time(id, seconds)
    }

    /// Aggregated analytics over the mirrored state.
    pub fn get_project_stats(&self, now: u64) -> (r: Result<ProjectStats, AppError>)
        requires
            self.wf(),
            self.store.projects@.len() <= i64::MAX,
            self.store.activities@.len() <= i64::MAX,
        ensures
            r matches Ok(st) && {
                &&& st.total_projects == self.store.projects@.len() as i64
                &&& st.active_today == crate::store::active_today_count(
                    self.store.activities@,
                    now,
                ) as i64
                &&& st.total_time_seconds == crate::store::total_time(self.store.projects@)
                &&& (match st.most_active_project {
                    Option::None => self.store.projects@.len() == 0,
                    Option::Some(name) => exists|b: int|
                        0 <= b < self.store.projects@.len() && name
                            == #[trigger] self.store.projects@[b].name && (forall|j: int|
                            0 <= j < self.store.projects@.len()
                                ==> #[trigger] self.store.projects@[j].opened_count
                                <= self.store.projects@[b].opened_count) && (forall|j: int|
                            0 <= j < b ==> #[trigger] self.store.projects@[j].opened_count
                                < self.store.projects@[b].opened_count),
                })
                &&& (exists|full: Seq<ProjectActivity>|
                    {
                        &&& #[trigger] full.to_multiset() == self.store.activities@.to_multiset()
                        &&& seq_sorted(full)
                        &&& st.recent_activities@ == full.take(crate::store::recent_cap(full.len()))
                    })
            },
    {
        self.store.get_project_stats(now)
    }

    /// The most recent activity of one project; a negative limit means no
    /// limit.
    pub fn get_project_activities(&self, project_id: i64, limit: i64) -> (r: Result<
        Vec<ProjectActivity>,
        AppError,
    >)
        ensures
            r matches Ok(v) && (exists|full: Seq<ProjectActivity>|
                {
                    &&& #[trigger] full.to_multiset() == rows_of(
                        self.store.activities@,
                        project_id,
                    ).to_multiset()
                    &&& seq_sorted(full)
                    &&& v@ == full.take(crate::store::limit_cap(limit, full.len()))
                }),
    {
        self.store.get_project_activities(project_id, limit)
    }

    /// Creates an attachment row, enforcing the hard size cap before the
    /// database is touched; a write failure changes nothing.
    pub fn add_attachment(&mut self, attachment: CreateAttachmentDTO, now: u64) -> (r: Result<
        ProjectAttachment,
        AppError,
    >)
        requires
            old(self).wf(),
            old(self).store.next_attachment_id < i64::MAX,
            now <= i64::MAX,
        ensures
            final(self).wf(),
            attachment.file_size > MAX_ATTACHMENT_BYTES ==> (r matches Err(e) && e
                == AppError::ConstraintViolation && final(self).store.same_state(old(self).store)),
            attachment.file_size <= MAX_ATTACHMENT_BYTES ==> (r is Ok || (r matches Err(e) && e
                == AppError::StorageIo)),
            r matches Err(e) && e == AppError::StorageIo ==> final(self).store.same_state(
                old(self).store,
            ),
            r matches Ok(a) ==> {
                &&& a.id == old(self).store.next_attachment_id
                &&& a.project_id == attachment.project_id
                &&& a.filename == attachment.filename
                &&& a.file_data == attachment.file_data
                &&& a.file_size == attachment.file_size
                &&& a.mime_type == attachment.mime_type
                &&& a.created_at == now
                &&& final(self).store.attachments@ == old(self).store.attachments@.push(a)
            },
    {
        if attachment.file_size > MAX_ATTACHMENT_BYTES {
            return Err(AppError::ConstraintViolation);
        }
        let mut params: Vec<SqlValue> = Vec::new();
        params.push(SqlValue::Int(self.store.next_attachment_id));
        params.push(SqlValue::Int(attachment.project_id));
        params.push(SqlValue::Text(attachment.filename.clone()));
        params.push(SqlValue::Text(attachment.file_data.clone()));
        params.push(SqlValue::Int(attachment.file_size));
        params.push(SqlValue::Text(attachment.mime_type.clone()));
        params.push(SqlValue::Int(now as i64));
        if exec_sql(
            &self.conn,
            "INSERT INTO project_attachments (id, project_id, filename, file_data, file_size, \
             mime_type, created_at) VALUES (?1, ?2, ?3, ?4, ?5, ?6, ?7)",
            &params,
        ).is_err() {
            return Err(AppError::StorageIo);
        }
        self.store.add_attachment(attachment, now)
    }

    /// The attachments of one project, newest first.
    pub fn get_attachments(&self, project_id: i64) -> (r: Result<Vec<ProjectAttachment>, AppError>)
        ensures
            r matches Ok(v) && v@.to_multiset() == rows_of(
                self.store.attachments@,
                project_id,
            ).to_multiset() && seq_sorted(v@),
    {
        self.store.get_attachments(project_id)
    }

    /// Deletes an attachment row; a write failure changes nothing.
    pub fn delete_attachment(&mut self, id: i64) -> (r: Result<(), AppError>)
        requires
            old(self).wf(),
        ensures
            final(self).wf(),
            r matches Err(e) ==> e == AppError::StorageIo && final(self).store.same_state(
                old(self).store,
            ),
            r is Ok ==> final(self).store.attachments@ == old(self).store.attachments@.filter(
                crate::store::rid_ne::<ProjectAttachment>(id),
            ),
    {
        let mut params: Vec<SqlValue> = Vec::new();
        params.push(SqlValue::Int(id));
        if exec_sql(&self.conn, "DELETE FROM project_attachments WHERE id = ?1", &params).is_err() {
            return Err(AppError::StorageIo);
        }
        self.store.delete_attachment(id)
    }

    /// Creates a journal entry; a write failure changes nothing.
    pub fn create_journal_entry(&mut self, entry: CreateJournalEntryDTO, now: u64) -> (r: Result<
        JournalEntry,
        AppError,
    >)
        requires
            old(self).wf(),
            old(self).store.next_journal_id < i64::MAX,
            now <= i64::MAX,
        ensures
            final(self).wf(),
            r matches Err(e) ==> e == AppError::StorageIo && final(self).store.same_state(
                old(self).store,
            ),
            r matches Ok(je) ==> {
                &&& je.id == old(self).store.next_journal_id
                &&& je.project_id == entry.project_id
                &&& je.content == entry.content
                &&& je.tags == entry.tags
                &&& je.created_at == now
                &&& je.updated_at == now
                &&& final(self).store.journal@ == old(self).store.journal@.push(je)
            },
    {
        let mut params: Vec<SqlValue> = Vec::new();
        params.push(SqlValue::Int(self.store.next_journal_id));
        params.push(SqlValue::Int(entry.project_id));
        params.push(SqlValue::Text(entry.content.clone()));
        params.push(sql_opt(&entry.tags));
        params.push(SqlValue::Int(now as i64));
        if exec_sql(
            &self.conn,
            "INSERT INTO project_journal (id, project_id, content, tags, created_at, updated_at) \
             VALUES (?1, ?2, ?3, ?4, ?5, ?5)",
            &params,
        ).is_err() {
            return Err(AppError::StorageIo);
        }
        self.store.create_journal_entry(entry, now)
    }

    /// The journal entries of one project, newest first.
    pub fn get_journal_entries(&self, project_id: i64) -> (r: Result<Vec<JournalEntry>, AppError>)
        ensures
            r matches Ok(v) && v@.to_multiset() == rows_of(
                self.store.journal@,
                project_id,
            ).to_multiset() && seq_sorted(v@),
    {
        self.store.get_journal_entries(project_id)
    }

    /// Applies a sparse update to a journal entry; an empty update is
    /// rejected before the database is touched, and a write failure changes
    /// nothing.
    pub fn update_journal_entry(&mut self, id: i64, updates: UpdateJournalEntryDTO, now: u64) -> (r:
        Result<JournalEntry, AppError>)
        requires
            old(self).wf(),
            now <= i64::MAX,
        ensures
            final(self).wf(),
            journal_update_empty(updates) ==> (r matches Err(e) && e == AppError::InvalidRequest
                && final(self).store.same_state(old(self).store)),
            r matches Err(e) && e == AppError::StorageIo ==> final(self).store.same_state(
                old(self).store,
            ),
            !journal_update_empty(updates) && has_row(old(self).store.journal@, id) && !(
            r matches Err(e) && e == AppError::StorageIo) ==> ({
                let idx = row_index_of(old(self).store.journal@, id);
                let new_row = apply_journal_update(old(self).store.journal@[idx], updates, now);
                &&& final(self).store.journal@ == old(self).store.journal@.update(idx, new_row)
                &&& r matches Ok(je) && je == new_row
            }),
            !journal_update_empty(updates) && !has_row(old(self).store.journal@, id) && !(
            r matches Err(e) && e == AppError::StorageIo) ==> (r matches Err(e) && e
                == AppError::NotFound && final(self).store.same_state(old(self).store)),
    {
        let (sql, params) = match build_journal_update(&updates, id, now) {
            Ok(sp) => sp,
            Err(e) => {
                return Err(e);
            },
        };
        if exec_sql(&self.conn, sql.as_str(), &params).is_err() {
            return Err(AppError::StorageIo);
        }
        self.store.update_journal_entry(id, updates, now)
    }

    /// Deletes a journal entry; a write failure changes nothing.
    pub fn delete_journal_entry(&mut self, id: i64) -> (r: Result<(), AppError>)
        requires
            old(self).wf(),
        ensures
            final(self).wf(),
            r matches Err(e) ==> e == AppError::StorageIo && final(self).store.same_state(
                old(self).store,
            ),
            r is Ok ==> final(self).store.journal@ == old(self).store.journal@.filter(
                crate::store::rid_ne::<JournalEntry>(id),
            ),
    {
        let mut params: Vec<SqlValue> = Vec::new();
        params.push(SqlValue::Int(id));
        if exec_sql(&self.conn, "DELETE FROM project_journal WHERE id = ?1", &params).is_err() {
            return Err(AppError::StorageIo);
        }
        self.store.delete_journal_entry(id)
    }
}

} // verus!
