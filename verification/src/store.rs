use vstd::prelude::*;
use vstd::multiset::Multiset;
use vstd::pervasive::VecAdditionalExecFns;

use crate::models::{
    CreateAttachmentDTO, CreateJournalEntryDTO, CreateLinkDTO, CreateProjectDTO, CreateTodoDTO,
    JournalEntry, Project, ProjectActivity, ProjectAttachment, ProjectLink, ProjectStats,
    ProjectTodo, UpdateJournalEntryDTO, UpdateLinkDTO, UpdateProjectDTO, UpdateTodoDTO,
    clone_opt_string,
};
use crate::order::{StoreOrd, seq_sorted, sort_rows};
use crate::strutil::contains_seq;
use crate::strutil::str_contains;
use crate::AppError;

verus! {

// ---------------------------------------------------------------------------
// Row traits: every stored row has a unique id; child rows also carry the id
// of the project that owns them.
// ---------------------------------------------------------------------------
/// A stored row with a primary key.
pub trait HasId: Sized {
    spec fn rid(self) -> i64;

    fn rid_exec(&self) -> (r: i64)
        ensures
            r == self.rid(),
    ;
}

/// A child row: owned by a project, cloneable value-for-value.
pub trait ChildRow: HasId {
    spec fn pid(self) -> i64;

    fn pid_exec(&self) -> (r: i64)
        ensures
            r == self.pid(),
    ;

    fn row_clone(&self) -> (r: Self)
        ensures
            r == *self,
    ;
}

impl HasId for Project {
    open spec fn rid(self) -> i64 {
        self.id
    }

    fn rid_exec(&self) -> i64 {
        self.id
    }
}

impl HasId for ProjectLink {
    open spec fn rid(self) -> i64 {
        self.id
    }

    fn rid_exec(&self) -> i64 {
        self.id
    }
}

impl ChildRow for ProjectLink {
    open spec fn pid(self) -> i64 {
        self.project_id
    }

    fn pid_exec(&self) -> i64 {
        self.project_id
    }

    fn row_clone(&self) -> Self {
        self.clone()
    }
}

impl HasId for ProjectAttachment {
    open spec fn rid(self) -> i64 {
        self.id
    }

    fn rid_exec(&self) -> i64 {
        self.id
    }
}

impl ChildRow for ProjectAttachment {
    open spec fn pid(self) -> i64 {
        self.project_id
    }

    fn pid_exec(&self) -> i64 {
        self.project_id
    }

    fn row_clone(&self) -> Self {
        self.clone()
    }
}

impl HasId for JournalEntry {
    open spec fn rid(self) -> i64 {
        self.id
    }

    fn rid_exec(&self) -> i64 {
        self.id
    }
}

impl ChildRow for JournalEntry {
    open spec fn pid(self) -> i64 {
        self.project_id
    }

    fn pid_exec(&self) -> i64 {
        self.project_id
    }

    fn row_clone(&self) -> Self {
        self.clone()
    }
}

impl HasId for ProjectTodo {
    open spec fn rid(self) -> i64 {
        self.id
    }

    fn rid_exec(&self) -> i64 {
        self.id
    }
}

impl ChildRow for ProjectTodo {
    open spec fn pid(self) -> i64 {
        self.project_id
    }

    fn pid_exec(&self) -> i64 {
        self.project_id
    }

    fn row_clone(&self) -> Self {
        self.clone()
    }
}

impl HasId for ProjectActivity {
    open spec fn rid(self) -> i64 {
        self.id
    }

    fn rid_exec(&self) -> i64 {
        self.id
    }
}

impl ChildRow for ProjectActivity {
    open spec fn pid(self) -> i64 {
        self.project_id
    }

    fn pid_exec(&self) -> i64 {
        self.project_id
    }

    fn row_clone(&self) -> Self {
        self.clone()
    }
}

// ---------------------------------------------------------------------------
// Spec-level table views
// ---------------------------------------------------------------------------
/// Some row of the table has the given id.
pub open spec fn has_row<T: HasId>(s: Seq<T>, id: i64) -> bool {
    exists|i: int| 0 <= i < s.len() && #[trigger] s[i].rid() == id
}

pub open spec fn row_index_of<T: HasId>(s: Seq<T>, id: i64) -> int {
    choose|i: int| 0 <= i < s.len() && #[trigger] s[i].rid() == id
}

/// The row of the table with the given id (meaningful under unique ids).
pub open spec fn row_at<T: HasId>(s: Seq<T>, id: i64) -> T {
    s[row_index_of(s, id)]
}

pub open spec fn ids_unique<T: HasId>(s: Seq<T>) -> bool {
    forall|i: int, j: int|
        0 <= i < j < s.len() ==> #[trigger] s[i].rid() != #[trigger] s[j].rid()
}

pub open spec fn ids_bounded<T: HasId>(s: Seq<T>, bound: i64) -> bool {
    forall|i: int| 0 <= i < s.len() ==> 1 <= #[trigger] s[i].rid() < bound
}

/// The predicate selecting the child rows owned by one project.
pub open spec fn pid_eq<T: ChildRow>(pid: i64) -> spec_fn(T) -> bool {
    |r: T| r.pid() == pid
}

/// The predicate keeping the child rows not owned by one project.
pub open spec fn pid_ne<T: ChildRow>(pid: i64) -> spec_fn(T) -> bool {
    |r: T| r.pid() != pid
}

/// The predicate keeping the rows whose id differs from the given one.
pub open spec fn rid_ne<T: HasId>(id: i64) -> spec_fn(T) -> bool {
    |r: T| r.rid() != id
}

/// The child rows owned by one project, in storage order.
pub open spec fn rows_of<T: ChildRow>(s: Seq<T>, pid: i64) -> Seq<T> {
    s.filter(pid_eq(pid))
}

/// The predicate selecting the rows that match a search query.
pub open spec fn matches_pred(q: Seq<char>) -> spec_fn(Project) -> bool {
    |p: Project| project_matches(p, q)
}

/// A row as it sits in the projects table: without an attached links
/// collection.
pub open spec fn strip(p: Project) -> Project {
    Project { links: Option::None, ..p }
}

/// `p` carries a correctly loaded links collection: the links owned by the
/// project with `p`'s id, newest first.
pub open spec fn links_loaded(links_table: Seq<ProjectLink>, p: Project) -> bool {
    p.links matches Option::Some(ls) && ls@.to_multiset() == rows_of(
        links_table,
        p.id,
    ).to_multiset() && seq_sorted(ls@)
}

/// The search predicate: a case-sensitive substring match against the name,
/// description, local path, or notes of a row.
pub open spec fn project_matches(p: Project, q: Seq<char>) -> bool {
    ||| contains_seq(p.name@, q)
    ||| contains_seq(p.description@, q)
    ||| contains_seq(p.local_path@, q)
    ||| (p.notes matches Option::Some(n) && contains_seq(n@, q))
}

// ---------------------------------------------------------------------------
// Shared lemmas
// ---------------------------------------------------------------------------
/// Filtering after a push grows the result by the pushed element exactly when
/// it satisfies the predicate.
pub proof fn lemma_filter_push<A>(s: Seq<A>, x: A, p: spec_fn(A) -> bool)
    ensures
        s.push(x).filter(p) == if p(x) {
            s.filter(p).push(x)
        } else {
            s.filter(p)
        },
{
    reveal_with_fuel(Seq::filter, 2);
    assert(s.push(x).drop_last() =~= s);
    assert(s.push(x).last() == x);
}

/// Every row of a filtered table is a row of the table, and unique ids stay
/// unique through filtering.
pub proof fn lemma_filter_rows<T: HasId>(s: Seq<T>, p: spec_fn(T) -> bool)
    ensures
        forall|i: int| 0 <= i < s.filter(p).len() ==> s.contains(#[trigger] s.filter(p)[i]),
        ids_unique(s) ==> ids_unique(s.filter(p)),
    decreases s.len(),
{
    reveal_with_fuel(Seq::filter, 1);
    if s.len() > 0 {
        let front = s.drop_last();
        lemma_filter_rows(front, p);
        assert forall|i: int| 0 <= i < front.filter(p).len() implies s.contains(
            #[trigger] front.filter(p)[i],
        ) by {
            assert(front.contains(front.filter(p)[i]));
            let j = choose|j: int| 0 <= j < front.len() && front[j] == front.filter(p)[i];
            assert(s[j] == front.filter(p)[i]);
        }
        if p(s.last()) {
            assert(s.filter(p) == front.filter(p).push(s.last()));
            assert(s.contains(s.last())) by {
                assert(s[s.len() - 1] == s.last());
            }
            if ids_unique(s) {
                assert(ids_unique(front));
                assert forall|a: int, b: int|
                    0 <= a < b < s.filter(p).len() implies #[trigger] s.filter(p)[a].rid()
                    != #[trigger] s.filter(p)[b].rid() by {
                    if b == s.filter(p).len() - 1 {
                        assert(s.filter(p)[b] == s.last());
                        assert(front.contains(front.filter(p)[a]));
                        let j = choose|j: int|
                            0 <= j < front.len() && front[j] == front.filter(p)[a];
                        assert(s[j] == front.filter(p)[a]);
                        assert(s[j].rid() != s[s.len() - 1].rid());
                    } else {
                        assert(front.filter(p)[a].rid() != front.filter(p)[b].rid());
                    }
                }
            }
        } else {
            assert(s.filter(p) == front.filter(p));
        }
    }
}

/// With unique ids, the id of a row determines its index.
pub proof fn lemma_row_index<T: HasId>(s: Seq<T>, i: int, id: i64)
    requires
        0 <= i < s.len(),
        s[i].rid() == id,
        ids_unique(s),
    ensures
        has_row(s, id),
        row_index_of(s, id) == i,
        row_at(s, id) == s[i],
{
    assert(has_row(s, id));
    let j = row_index_of(s, id);
    assert(0 <= j < s.len() && s[j].rid() == id);
    if i < j {
        assert(s[i].rid() != s[j].rid());
    } else if j < i {
        assert(s[j].rid() != s[i].rid());
    }
}

// ---------------------------------------------------------------------------
// Generic exec helpers over tables
// ---------------------------------------------------------------------------
/// Index of the row with the given id, if any.
fn find_row<T: HasId>(v: &Vec<T>, id: i64) -> (r: Option<usize>)
    ensures
        match r {
            Option::Some(i) => i < v@.len() && v@[i as int].rid() == id,
            Option::None => !has_row(v@, id),
        },
{
    let mut i: usize = 0;
    while i < v.len()
        invariant
            i <= v@.len(),
            forall|k: int| 0 <= k < i ==> #[trigger] v@[k].rid() != id,
        decreases v@.len() - i,
    {
        if v[i].rid_exec() == id {
            return Option::Some(i);
        }
        i = i + 1;
    }
    Option::None
}

/// The child rows owned by one project, in storage order.
fn collect_by_pid<T: ChildRow>(v: &Vec<T>, pid: i64) -> (r: Vec<T>)
    ensures
        r@ == rows_of(v@, pid),
{
    let mut r: Vec<T> = Vec::new();
    let mut i: usize = 0;
    proof {
        assert(v@.take(0).filter(pid_eq::<T>(pid)) =~= Seq::<T>::empty());
    }
    while i < v.len()
        invariant
            i <= v@.len(),
            r@ == v@.take(i as int).filter(pid_eq::<T>(pid)),
        decreases v@.len() - i,
    {
        proof {
            lemma_filter_push(v@.take(i as int), v@[i as int], pid_eq::<T>(pid));
            assert(v@.take(i + 1) =~= v@.take(i as int).push(v@[i as int]));
        }
        if v[i].pid_exec() == pid {
            r.push(v[i].row_clone());
        }
        i = i + 1;
    }
    proof {
        assert(v@.take(v@.len() as int) =~= v@);
    }
    r
}

/// The child rows not owned by the given project: what a cascade delete keeps.
fn filter_out_pid<T: ChildRow>(v: &Vec<T>, pid: i64) -> (r: Vec<T>)
    ensures
        r@ == v@.filter(pid_ne::<T>(pid)),
{
    let mut r: Vec<T> = Vec::new();
    let mut i: usize = 0;
    proof {
        assert(v@.take(0).filter(pid_ne::<T>(pid)) =~= Seq::<T>::empty());
    }
    while i < v.len()
        invariant
            i <= v@.len(),
            r@ == v@.take(i as int).filter(pid_ne::<T>(pid)),
        decreases v@.len() - i,
    {
        proof {
            lemma_filter_push(v@.take(i as int), v@[i as int], pid_ne::<T>(pid));
            assert(v@.take(i + 1) =~= v@.take(i as int).push(v@[i as int]));
        }
        if v[i].pid_exec() != pid {
            r.push(v[i].row_clone());
        }
        i = i + 1;
    }
    proof {
        assert(v@.take(v@.len() as int) =~= v@);
    }
    r
}

/// The child rows whose id differs from the given one: what a row delete
/// keeps.
fn filter_out_id<T: ChildRow>(v: &Vec<T>, id: i64) -> (r: Vec<T>)
    ensures
        r@ == v@.filter(rid_ne::<T>(id)),
{
    let mut r: Vec<T> = Vec::new();
    let mut i: usize = 0;
    proof {
        assert(v@.take(0).filter(rid_ne::<T>(id)) =~= Seq::<T>::empty());
    }
    while i < v.len()
        invariant
            i <= v@.len(),
            r@ == v@.take(i as int).filter(rid_ne::<T>(id)),
        decreases v@.len() - i,
    {
        proof {
            lemma_filter_push(v@.take(i as int), v@[i as int], rid_ne::<T>(id));
            assert(v@.take(i + 1) =~= v@.take(i as int).push(v@[i as int]));
        }
        if v[i].rid_exec() != id {
            r.push(v[i].row_clone());
        }
        i = i + 1;
    }
    proof {
        assert(v@.take(v@.len() as int) =~= v@);
    }
    r
}

/// Copies of the project rows, valid for rows without attached links.
fn copy_project_rows(v: &Vec<Project>) -> (r: Vec<Project>)
    requires
        forall|i: int| 0 <= i < v@.len() ==> #[trigger] v@[i].links is None,
    ensures
        r@ == v@,
{
    let mut r: Vec<Project> = Vec::new();
    let mut i: usize = 0;
    while i < v.len()
        invariant
            i <= v@.len(),
            forall|k: int| 0 <= k < v@.len() ==> #[trigger] v@[k].links is None,
            r@ == v@.take(i as int),
        decreases v@.len() - i,
    {
        proof {
            assert(v@[i as int].links is None);
        }
        r.push(v[i].row_copy());
        proof {
            assert(v@.take(i + 1) =~= v@.take(i as int).push(v@[i as int]));
        }
        i = i + 1;
    }
    proof {
        assert(v@.take(v@.len() as int) =~= v@);
    }
    r
}

/// Keeps the project rows whose id differs from the given one.
fn filter_projects_keep(v: &Vec<Project>, id: i64) -> (r: Vec<Project>)
    requires
        forall|i: int| 0 <= i < v@.len() ==> #[trigger] v@[i].links is None,
    ensures
        r@ == v@.filter(rid_ne::<Project>(id)),
{
    let mut r: Vec<Project> = Vec::new();
    let mut i: usize = 0;
    proof {
        assert(v@.take(0).filter(rid_ne::<Project>(id)) =~= Seq::<Project>::empty());
    }
    while i < v.len()
        invariant
            i <= v@.len(),
            forall|k: int| 0 <= k < v@.len() ==> #[trigger] v@[k].links is None,
            r@ == v@.take(i as int).filter(rid_ne::<Project>(id)),
        decreases v@.len() - i,
    {
        proof {
            lemma_filter_push(v@.take(i as int), v@[i as int], rid_ne::<Project>(id));
            assert(v@.take(i + 1) =~= v@.take(i as int).push(v@[i as int]));
            assert(v@[i as int].links is None);
        }
        if v[i].id != id {
            r.push(v[i].row_copy());
        }
        i = i + 1;
    }
    proof {
        assert(v@.take(v@.len() as int) =~= v@);
    }
    r
}

// ---------------------------------------------------------------------------
// Partial-update semantics
// ---------------------------------------------------------------------------
/// A partial project update that supplies no field at all.
pub open spec fn update_dto_empty(u: UpdateProjectDTO) -> bool {
    &&& u.name is None
    &&& u.description is None
    &&& u.local_path is None
    &&& u.documentation_url is None
    &&& u.ai_documentation_url is None
    &&& u.drive_link is None
    &&& u.notes is None
    &&& u.image_data is None
}

/// A timestamp update that never moves backwards.
pub open spec fn bump(updated_at: u64, now: u64) -> u64 {
    if now >= updated_at {
        now
    } else {
        updated_at
    }
}

/// The row that results from a partial update: exactly the supplied fields
/// are overwritten, and the update timestamp advances.
pub open spec fn apply_project_update(p: Project, u: UpdateProjectDTO, now: u64) -> Project {
    Project {
        name: match u.name {
            Option::Some(v) => v,
            Option::None => p.name,
        },
        description: match u.description {
            Option::Some(v) => v,
            Option::None => p.description,
        },
        local_path: match u.local_path {
            Option::Some(v) => v,
            Option::None => p.local_path,
        },
        documentation_url: match u.documentation_url {
            Option::Some(v) => Option::Some(v),
            Option::None => p.documentation_url,
        },
        ai_documentation_url: match u.ai_documentation_url {
            Option::Some(v) => Option::Some(v),
            Option::None => p.ai_documentation_url,
        },
        drive_link: match u.drive_link {
            Option::Some(v) => Option::Some(v),
            Option::None => p.drive_link,
        },
        notes: match u.notes {
            Option::Some(v) => Option::Some(v),
            Option::None => p.notes,
        },
        image_data: match u.image_data {
            Option::Some(v) => Option::Some(v),
            Option::None => p.image_data,
        },
        updated_at: bump(p.updated_at, now),
        ..p
    }
}

pub open spec fn link_update_empty(u: UpdateLinkDTO) -> bool {
    u.link_type is None && u.title is None && u.url is None
}

pub open spec fn apply_link_update(l: ProjectLink, u: UpdateLinkDTO) -> ProjectLink {
    ProjectLink {
        link_type: match u.link_type {
            Option::Some(v) => v,
            Option::None => l.link_type,
        },
        title: match u.title {
            Option::Some(v) => v,
            Option::None => l.title,
        },
        url: match u.url {
            Option::Some(v) => v,
            Option::None => l.url,
        },
        ..l
    }
}

pub open spec fn journal_update_empty(u: UpdateJournalEntryDTO) -> bool {
    u.content is None && u.tags is None
}

pub open spec fn apply_journal_update(e: JournalEntry, u: UpdateJournalEntryDTO, now: u64) -> JournalEntry {
    JournalEntry {
        content: match u.content {
            Option::Some(v) => v,
            Option::None => e.content,
        },
        tags: match u.tags {
            Option::Some(v) => Option::Some(v),
            Option::None => e.tags,
        },
        updated_at: bump(e.updated_at, now),
        ..e
    }
}

pub open spec fn todo_update_empty(u: UpdateTodoDTO) -> bool {
    u.content is None && u.is_completed is None
}

/// A todo update; the completion timestamp is set on the transition to
/// completed and cleared when the todo is reopened.
pub open spec fn apply_todo_update(t: ProjectTodo, u: UpdateTodoDTO, now: u64) -> ProjectTodo {
    ProjectTodo {
        content: match u.content {
            Option::Some(v) => v,
            Option::None => t.content,
        },
        is_completed: match u.is_completed {
            Option::Some(b) => b,
            Option::None => t.is_completed,
        },
        completed_at: match u.is_completed {
            Option::None => t.completed_at,
            Option::Some(b) => if b {
                if t.is_completed {
                    t.completed_at
                } else {
                    Option::Some(now)
                }
            } else {
                Option::None
            },
        },
        ..t
    }
}

/// A status change: the tag, its change time, and the update time move.
pub open spec fn apply_status(p: Project, status: String, now: u64) -> Project {
    Project {
        status: status,
        status_changed_at: Option::Some(now),
        updated_at: bump(p.updated_at, now),
        ..p
    }
}

/// A pin toggle.
pub open spec fn apply_toggle_pin(p: Project, now: u64) -> Project {
    Project { is_pinned: !p.is_pinned, updated_at: bump(p.updated_at, now), ..p }
}

/// An open event on a row: the open counter grows (saturating) and the last
/// open time is recorded.
pub open spec fn apply_track_open(p: Project, now: u64) -> Project {
    Project {
        last_opened_at: Option::Some(now),
        opened_count: if p.opened_count == u64::MAX {
            p.opened_count
        } else {
            (p.opened_count + 1) as u64
        },
        ..p
    }
}

pub open spec fn sat_add(a: u64, x: u64) -> u64 {
    if a + x > u64::MAX {
        u64::MAX
    } else {
        (a + x) as u64
    }
}

pub open spec fn apply_add_time(p: Project, seconds: u64) -> Project {
    Project { total_time_seconds: sat_add(p.total_time_seconds, seconds), ..p }
}

/// One pass of the manual reorder: every row with the given id takes the
/// given pin order.
pub open spec fn set_order_of(s: Seq<Project>, id: i64, ord: i64) -> Seq<Project> {
    Seq::new(
        s.len(),
        |i: int|
            if s[i].id == id {
                Project { pinned_order: ord, ..s[i] }
            } else {
                s[i]
            },
    )
}

/// The result of reordering: the row named at position `k` of the id list
/// receives pin order `k`, later positions winning over earlier ones.
pub open spec fn apply_reorder(s: Seq<Project>, ids: Seq<i64>) -> Seq<Project>
    decreases ids.len(),
{
    if ids.len() == 0 {
        s
    } else {
        set_order_of(apply_reorder(s, ids.drop_last()), ids.last(), (ids.len() - 1) as i64)
    }
}

// ---------------------------------------------------------------------------
// Analytics semantics
// ---------------------------------------------------------------------------
/// Two timestamps fall on the same calendar day.
pub open spec fn same_day(a: u64, b: u64) -> bool {
    a / 86400 == b / 86400
}

/// The predicate selecting activity rows recorded on the day of `now`.
pub open spec fn today_pred(now: u64) -> spec_fn(ProjectActivity) -> bool {
    |a: ProjectActivity| same_day(a.created_at, now)
}

pub open spec fn act_pid_fn() -> spec_fn(ProjectActivity) -> i64 {
    |a: ProjectActivity| a.project_id
}

/// The project ids of the activity recorded on the day of `now`.
pub open spec fn today_pids(acts: Seq<ProjectActivity>, now: u64) -> Seq<i64> {
    acts.filter(today_pred(now)).map_values(act_pid_fn())
}

/// First occurrences only, in order.
pub open spec fn dedup(s: Seq<i64>) -> Seq<i64>
    decreases s.len(),
{
    if s.len() == 0 {
        s
    } else if s.drop_last().contains(s.last()) {
        dedup(s.drop_last())
    } else {
        dedup(s.drop_last()).push(s.last())
    }
}

/// How many distinct projects saw activity on the day of `now`.
pub open spec fn active_today_count(acts: Seq<ProjectActivity>, now: u64) -> int {
    dedup(today_pids(acts, now)).len() as int
}

/// The total tracked seconds over all projects, saturating.
pub open spec fn total_time(s: Seq<Project>) -> u64
    decreases s.len(),
{
    if s.len() == 0 {
        0
    } else {
        sat_add(total_time(s.drop_last()), s.last().total_time_seconds)
    }
}

/// A deduplicated sequence holds the same values as its source.
pub proof fn lemma_dedup_contains(s: Seq<i64>)
    ensures
        forall|v: i64| dedup(s).contains(v) <==> s.contains(v),
        dedup(s).len() <= s.len(),
    decreases s.len(),
{
    if s.len() > 0 {
        let front = s.drop_last();
        lemma_dedup_contains(front);
        assert forall|v: i64| dedup(s).contains(v) <==> s.contains(v) by {
            if s.contains(v) {
                let j = choose|j: int| 0 <= j < s.len() && s[j] == v;
                if j < s.len() - 1 {
                    assert(front[j] == v);
                    assert(front.contains(v));
                    if front.contains(s.last()) {
                        assert(dedup(s) == dedup(front));
                    } else {
                        assert(dedup(s) == dedup(front).push(s.last()));
                        assert(dedup(front).contains(v));
                        let k = choose|k: int| 0 <= k < dedup(front).len() && dedup(front)[k] == v;
                        assert(dedup(s)[k] == v);
                    }
                } else {
                    if front.contains(s.last()) {
                        assert(dedup(s) == dedup(front));
                        assert(front.contains(v));
                    } else {
                        assert(dedup(s) == dedup(front).push(s.last()));
                        assert(dedup(s)[dedup(s).len() - 1] == v);
                    }
                }
            }
            if dedup(s).contains(v) {
                if front.contains(s.last()) {
                    assert(dedup(s) == dedup(front));
                    assert(front.contains(v));
                    let j = choose|j: int| 0 <= j < front.len() && front[j] == v;
                    assert(front[j] == s[j]);
                    assert(s[j] == v);
                } else {
                    assert(dedup(s) == dedup(front).push(s.last()));
                    let k = choose|k: int| 0 <= k < dedup(s).len() && dedup(s)[k] == v;
                    if k < dedup(s).len() - 1 {
                        assert(dedup(front)[k] == v);
                        assert(dedup(front).contains(v));
                        assert(front.contains(v));
                        let j = choose|j: int| 0 <= j < front.len() && front[j] == v;
                        assert(front[j] == s[j]);
                        assert(s[j] == v);
                    } else {
                        assert(v == s.last());
                        assert(s[s.len() - 1] == v);
                    }
                }
            }
        }
    }
}

// ---------------------------------------------------------------------------
// The store
// ---------------------------------------------------------------------------
/// The record store: the authoritative collection of projects and their
/// child rows, with an auto-increment counter per table.
pub struct Store {
    pub projects: Vec<Project>,
    pub links: Vec<ProjectLink>,
    pub attachments: Vec<ProjectAttachment>,
    pub journal: Vec<JournalEntry>,
    pub todos: Vec<ProjectTodo>,
    pub activities: Vec<ProjectActivity>,
    pub next_project_id: i64,
    pub next_link_id: i64,
    pub next_attachment_id: i64,
    pub next_journal_id: i64,
    pub next_todo_id: i64,
    pub next_activity_id: i64,
}

impl Store {
    /// Well-formedness: every table holds unique, bounded ids, and stored
    /// project rows carry no attached links collection.
    pub open spec fn wf(self) -> bool {
        &&& ids_unique(self.projects@) && ids_bounded(self.projects@, self.next_project_id)
        &&& ids_unique(self.links@) && ids_bounded(self.links@, self.next_link_id)
        &&& ids_unique(self.attachments@) && ids_bounded(
            self.attachments@,
            self.next_attachment_id,
        )
        &&& ids_unique(self.journal@) && ids_bounded(self.journal@, self.next_journal_id)
        &&& ids_unique(self.todos@) && ids_bounded(self.todos@, self.next_todo_id)
        &&& ids_unique(self.activities@) && ids_bounded(self.activities@, self.next_activity_id)
        &&& 1 <= self.next_project_id && 1 <= self.next_link_id && 1 <= self.next_attachment_id
        &&& 1 <= self.next_journal_id && 1 <= self.next_todo_id && 1 <= self.next_activity_id
        &&& forall|i: int| 0 <= i < self.projects@.len() ==> #[trigger] self.projects@[i].links is None
    }

    pub open spec fn counters_unchanged(self, other: Store) -> bool {
        &&& self.next_project_id == other.next_project_id
        &&& self.next_link_id == other.next_link_id
        &&& self.next_attachment_id == other.next_attachment_id
        &&& self.next_journal_id == other.next_journal_id
        &&& self.next_todo_id == other.next_todo_id
        &&& self.next_activity_id == other.next_activity_id
    }

    /// All tables and counters of `self` equal those of `other`.
    pub open spec fn same_state(self, other: Store) -> bool {
        &&& self.projects@ == other.projects@
        &&& self.children_unchanged(other)
        &&& self.counters_unchanged(other)
    }

    /// The child tables of `self` equal those of `other`.
    pub open spec fn children_unchanged(self, other: Store) -> bool {
        &&& self.links@ == other.links@
        &&& self.attachments@ == other.attachments@
        &&& self.journal@ == other.journal@
        &&& self.todos@ == other.todos@
        &&& self.activities@ == other.activities@
    }

    /// An empty store.
    pub fn new() -> (r: Store)
        ensures
            r.wf(),
            r.projects@.len() == 0,
            r.links@.len() == 0,
            r.attachments@.len() == 0,
            r.journal@.len() == 0,
            r.todos@.len() == 0,
            r.activities@.len() == 0,
            r.next_project_id == 1,
            r.next_link_id == 1,
            r.next_attachment_id == 1,
            r.next_journal_id == 1,
            r.next_todo_id == 1,
            r.next_activity_id == 1,
    {
        Store {
            projects: Vec::new(),
            links: Vec::new(),
            attachments: Vec::new(),
            journal: Vec::new(),
            todos: Vec::new(),
            activities: Vec::new(),
            next_project_id: 1,
            next_link_id: 1,
            next_attachment_id: 1,
            next_journal_id: 1,
            next_todo_id: 1,
            next_activity_id: 1,
        }
    }

    /// The sorted, loaded links collection of one project, newest first.
    pub fn get_project_links(&self, project_id: i64) -> (r: Result<Vec<ProjectLink>, AppError>)
        ensures
            r matches Ok(v) && v@.to_multiset() == rows_of(self.links@, project_id).to_multiset()
                && seq_sorted(v@) && v@.len() == rows_of(self.links@, project_id).len(),
    {
        let collected = collect_by_pid(&self.links, project_id);
        Ok(sort_rows(collected))
    }

    /// Creates a project row: the id comes from the auto-increment counter,
    /// and the server-populated fields take their creation defaults.
    pub fn create_project(&mut self, project: CreateProjectDTO, now: u64) -> (r: Result<
        Project,
        AppError,
    >)
        requires
            old(self).wf(),
            old(self).next_project_id < i64::MAX,
        ensures
            final(self).wf(),
            r matches Ok(p) && {
                &&& p.id == old(self).next_project_id
                &&& p.name == project.name
                &&& p.description == project.description
                &&& p.local_path == project.local_path
                &&& p.documentation_url == project.documentation_url
                &&& p.ai_documentation_url == project.ai_documentation_url
                &&& p.drive_link == project.drive_link
                &&& p.notes == project.notes
                &&& p.image_data == project.image_data
                &&& p.links is None
                &&& p.created_at == now
                &&& p.updated_at == now
                &&& p.last_opened_at is None
                &&& p.opened_count == 0
                &&& p.total_time_seconds == 0
                &&& p.status@ == "active"@
                &&& p.status_changed_at is None
                &&& !p.is_pinned
                &&& p.pinned_order == 0
                &&& final(self).projects@ == old(self).projects@.push(p)
            },
            final(self).next_project_id == old(self).next_project_id + 1,
            final(self).children_unchanged(*old(self)),
            final(self).next_link_id == old(self).next_link_id,
            final(self).next_attachment_id == old(self).next_attachment_id,
            final(self).next_journal_id == old(self).next_journal_id,
            final(self).next_todo_id == old(self).next_todo_id,
            final(self).next_activity_id == old(self).next_activity_id,
    {
        let row = Project {
            id: self.next_project_id,
            name: project.name,
            description: project.description,
            local_path: project.local_path,
            documentation_url: project.documentation_url,
            ai_documentation_url: project.ai_documentation_url,
            drive_link: project.drive_link,
            notes: project.notes,
            image_data: project.image_data,
            links: Option::None,
            created_at: now,
            updated_at: now,
            last_opened_at: Option::None,
            opened_count: 0,
            total_time_seconds: 0,
            status: "active".to_owned(),
            status_changed_at: Option::None,
            is_pinned: false,
            pinned_order: 0,
        };
        let out = row.row_copy();
        self.projects.push(row);
        self.next_project_id = self.next_project_id + 1;
        Ok(out)
    }

    /// Looks a project up by id and attaches its links collection.
    pub fn get_project(&self, id: i64) -> (r: Result<Project, AppError>)
        requires
            self.wf(),
        ensures
            match r {
                Ok(p) => has_row(self.projects@, id) && strip(p) == row_at(self.projects@, id)
                    && links_loaded(self.links@, p),
                Err(e) => e == AppError::NotFound && !has_row(self.projects@, id),
            },
    {
        match find_row(&self.projects, id) {
            Option::None => Err(AppError::NotFound),
            Option::Some(i) => {
                proof {
                    lemma_row_index(self.projects@, i as int, id);
                }
                let ls = match self.get_project_links(id) {
                    Ok(v) => v,
                    Err(_) => Vec::new(),
                };
                let p = self.projects[i].with_links(ls);
                proof {
                    assert(self.projects@[i as int].links is None);
                    assert(strip(p) == self.projects@[i as int]);
                }
                Ok(p)
            },
        }
    }

    /// Attaches the links collection to each of a set of copied rows.
    fn attach_links_all(&self, rows: Vec<Project>) -> (r: Vec<Project>)
        requires
            forall|i: int| 0 <= i < rows@.len() ==> #[trigger] rows@[i].links is None,
        ensures
            r@.len() == rows@.len(),
            forall|i: int|
                0 <= i < r@.len() ==> strip(#[trigger] r@[i]) == rows@[i] && links_loaded(
                    self.links@,
                    r@[i],
                ),
    {
        let mut r: Vec<Project> = Vec::new();
        let mut i: usize = 0;
        while i < rows.len()
            invariant
                i <= rows@.len(),
                r@.len() == i,
                forall|k: int| 0 <= k < rows@.len() ==> #[trigger] rows@[k].links is None,
                forall|k: int|
                    0 <= k < i ==> strip(#[trigger] r@[k]) == rows@[k] && links_loaded(
                        self.links@,
                        r@[k],
                    ),
            decreases rows@.len() - i,
        {
            let ls = match self.get_project_links(rows[i].id) {
                Ok(v) => v,
                Err(_) => Vec::new(),
            };
            proof {
                assert(rows@[i as int].links is None);
            }
            r.push(rows[i].with_links(ls));
            proof {
                assert(strip(r@[i as int]) == rows@[i as int]);
            }
            i = i + 1;
        }
        r
    }

    /// The full project collection, pinned rows first, then by manual pin
    /// order, then most recently updated first; each row carries its loaded
    /// links collection.
    pub fn get_all_projects(&self) -> (r: Result<Vec<Project>, AppError>)
        requires
            self.wf(),
        ensures
            r matches Ok(v) && {
                &&& v@.len() == self.projects@.len()
                &&& v@.map_values(|p: Project| strip(p)).to_multiset()
                    == self.projects@.to_multiset()
                &&& seq_sorted(v@)
                &&& forall|i: int| 0 <= i < v@.len() ==> links_loaded(self.links@, #[trigger] v@[i])
            },
    {
        let rows = copy_project_rows(&self.projects);
        let sorted = sort_rows(rows);
        proof {
            assert forall|k: int| 0 <= k < sorted@.len() implies #[trigger] sorted@[k].links
                is None by {
                vstd::seq_lib::to_multiset_contains(sorted@, sorted@[k]);
                vstd::seq_lib::to_multiset_contains(self.projects@, sorted@[k]);
                assert(sorted@.contains(sorted@[k])) by {
                    assert(sorted@[k] == sorted@[k]);
                }
                assert(self.projects@.contains(sorted@[k]));
            }
        }
        let out = self.attach_links_all(sorted);
        proof {
            assert(out@.map_values(|p: Project| strip(p)) =~= sorted@);
            assert forall|a: int, b: int| 0 <= a < b < out@.len() implies #[trigger] out@[a].le(
                #[trigger] out@[b],
            ) by {
                assert(strip(out@[a]) == sorted@[a] && strip(out@[b]) == sorted@[b]);
                assert(sorted@[a].le(sorted@[b]));
            }
        }
        Ok(out)
    }

    /// Projects whose name, description, local path or notes contain the
    /// query as a substring, in the listing order, links attached.
    pub fn search_projects(&self, query: &str) -> (r: Result<Vec<Project>, AppError>)
        requires
            self.wf(),
        ensures
            r matches Ok(v) && {
                &&& v@.map_values(|p: Project| strip(p)).to_multiset() == self.projects@.filter(
                    matches_pred(query@),
                ).to_multiset()
                &&& seq_sorted(v@)
                &&& forall|i: int| 0 <= i < v@.len() ==> links_loaded(self.links@, #[trigger] v@[i])
            },
    {
        let mut rows: Vec<Project> = Vec::new();
        let mut i: usize = 0;
        proof {
            assert(self.projects@.take(0).filter(matches_pred(query@)) =~= Seq::<
                Project,
            >::empty());
        }
        while i < self.projects.len()
            invariant
                self.wf(),
                i <= self.projects@.len(),
                rows@ == self.projects@.take(i as int).filter(matches_pred(query@)),
            decreases self.projects@.len() - i,
        {
            proof {
                lemma_filter_push(
                    self.projects@.take(i as int),
                    self.projects@[i as int],
                    matches_pred(query@),
                );
                assert(matches_pred(query@)(self.projects@[i as int]) == project_matches(
                    self.projects@[i as int],
                    query@,
                ));
                assert(self.projects@.take(i + 1) =~= self.projects@.take(i as int).push(
                    self.projects@[i as int],
                ));
            }
            proof {
                assert(self.projects@[i as int].links is None);
            }
            if Self::row_matches(&self.projects[i], query) {
                rows.push(self.projects[i].row_copy());
            }
            i = i + 1;
        }
        proof {
            assert(self.projects@.take(self.projects@.len() as int) =~= self.projects@);
            lemma_filter_rows(self.projects@, matches_pred(query@));
            assert forall|k: int| 0 <= k < rows@.len() implies #[trigger] rows@[k].links is None by {
                assert(self.projects@.contains(rows@[k]));
            }
        }
        let sorted = sort_rows(rows);
        proof {
            assert forall|k: int| 0 <= k < sorted@.len() implies #[trigger] sorted@[k].links
                is None by {
                vstd::seq_lib::to_multiset_contains(sorted@, sorted@[k]);
                vstd::seq_lib::to_multiset_contains(rows@, sorted@[k]);
                assert(rows@.contains(sorted@[k]));
            }
        }
        let out = self.attach_links_all(sorted);
        proof {
            assert(out@.map_values(|p: Project| strip(p)) =~= sorted@);
            assert forall|a: int, b: int| 0 <= a < b < out@.len() implies #[trigger] out@[a].le(
                #[trigger] out@[b],
            ) by {
                assert(strip(out@[a]) == sorted@[a] && strip(out@[b]) == sorted@[b]);
                assert(sorted@[a].le(sorted@[b]));
            }
        }
        Ok(out)
    }

    /// Whether a row matches the search query.
    fn row_matches(p: &Project, query: &str) -> (r: bool)
        ensures
            r == project_matches(*p, query@),
    {
        if str_contains(p.name.as_str(), query) {
            return true;
        }
        if str_contains(p.description.as_str(), query) {
            return true;
        }
        if str_contains(p.local_path.as_str(), query) {
            return true;
        }
        match &p.notes {
            Option::Some(n) => str_contains(n.as_str(), query),
            Option::None => false,
        }
    }

    /// Whether a project row with the given id exists.
    pub fn contains_project(&self, id: i64) -> (r: bool)
        ensures
            r == has_row(self.projects@, id),
    {
        match find_row(&self.projects, id) {
            Option::Some(_) => true,
            Option::None => false,
        }
    }

    /// Deletes a project row and, by cascade, every child row that
    /// referenced it. Deleting an absent id succeeds and changes nothing,
    /// matching the affected-rows-unchecked behaviour of the store: in
    /// particular, stray child rows whose project id matches no row are left
    /// untouched.
    pub fn delete_project(&mut self, id: i64) -> (r: Result<(), AppError>)
        requires
            old(self).wf(),
        ensures
            final(self).wf(),
            r is Ok,
            has_row(old(self).projects@, id) ==> {
                &&& final(self).projects@ == old(self).projects@.filter(rid_ne::<Project>(id))
                &&& final(self).links@ == old(self).links@.filter(pid_ne::<ProjectLink>(id))
                &&& final(self).attachments@ == old(self).attachments@.filter(
                    pid_ne::<ProjectAttachment>(id),
                )
                &&& final(self).journal@ == old(self).journal@.filter(pid_ne::<JournalEntry>(id))
                &&& final(self).todos@ == old(self).todos@.filter(pid_ne::<ProjectTodo>(id))
                &&& final(self).activities@ == old(self).activities@.filter(
                    pid_ne::<ProjectActivity>(id),
                )
            },
            !has_row(old(self).projects@, id) ==> final(self).same_state(*old(self)),
            final(self).counters_unchanged(*old(self)),
    {
        if !self.contains_project(id) {
            return Ok(());
        }
        let fp = filter_projects_keep(&self.projects, id);
        self.projects = fp;
        let fl = filter_out_pid(&self.links, id);
        self.links = fl;
        let fa = filter_out_pid(&self.attachments, id);
        self.attachments = fa;
        let fj = filter_out_pid(&self.journal, id);
        self.journal = fj;
        let ft = filter_out_pid(&self.todos, id);
        self.todos = ft;
        let fc = filter_out_pid(&self.activities, id);
        self.activities = fc;
        proof {
            lemma_filter_rows(old(self).projects@, rid_ne::<Project>(id));
            lemma_filter_rows(old(self).links@, pid_ne::<ProjectLink>(id));
            lemma_filter_rows(old(self).attachments@, pid_ne::<ProjectAttachment>(id));
            lemma_filter_rows(old(self).journal@, pid_ne::<JournalEntry>(id));
            lemma_filter_rows(old(self).todos@, pid_ne::<ProjectTodo>(id));
            lemma_filter_rows(old(self).activities@, pid_ne::<ProjectActivity>(id));
            assert forall|i: int| 0 <= i < self.projects@.len() implies 1 <= (
            #[trigger] self.projects@[i]).rid() < self.next_project_id && self.projects@[i].links
                is None by {
                assert(old(self).projects@.contains(self.projects@[i]));
            }
            assert forall|i: int| 0 <= i < self.links@.len() implies 1 <= (
            #[trigger] self.links@[i]).rid() < self.next_link_id by {
                assert(old(self).links@.contains(self.links@[i]));
            }
            assert forall|i: int| 0 <= i < self.attachments@.len() implies 1 <= (
            #[trigger] self.attachments@[i]).rid() < self.next_attachment_id by {
                assert(old(self).attachments@.contains(self.attachments@[i]));
            }
            assert forall|i: int| 0 <= i < self.journal@.len() implies 1 <= (
            #[trigger] self.journal@[i]).rid() < self.next_journal_id by {
                assert(old(self).journal@.contains(self.journal@[i]));
            }
            assert forall|i: int| 0 <= i < self.todos@.len() implies 1 <= (
            #[trigger] self.todos@[i]).rid() < self.next_todo_id by {
                assert(old(self).todos@.contains(self.todos@[i]));
            }
            assert forall|i: int| 0 <= i < self.activities@.len() implies 1 <= (
            #[trigger] self.activities@[i]).rid() < self.next_activity_id by {
                assert(old(self).activities@.contains(self.activities@[i]));
            }
        }
        Ok(())
    }

    /// Applies a sparse update to a project row, then returns the reloaded
    /// canonical row with its links attached. An update that supplies no
    /// field is rejected and changes nothing.
    pub fn update_project(&mut self, id: i64, updates: UpdateProjectDTO, now: u64) -> (r: Result<
        Project,
        AppError,
    >)
        requires
            old(self).wf(),
        ensures
            final(self).wf(),
            update_dto_empty(updates) ==> (r matches Err(e) && e == AppError::InvalidRequest
                && final(self).same_state(*old(self))),
            !update_dto_empty(updates) && !has_row(old(self).projects@, id) ==> (r matches Err(e)
                && e == AppError::NotFound && final(self).same_state(*old(self))),
            !update_dto_empty(updates) && has_row(old(self).projects@, id) ==> ({
                let idx = row_index_of(old(self).projects@, id);
                let new_row = apply_project_update(old(self).projects@[idx], updates, now);
                &&& final(self).projects@ == old(self).projects@.update(idx, new_row)
                &&& final(self).children_unchanged(*old(self))
                &&& final(self).counters_unchanged(*old(self))
                &&& r matches Ok(p) && strip(p) == new_row && links_loaded(final(self).links@, p)
            }),
    {
        let empty = updates.name.is_none() && updates.description.is_none()
            && updates.local_path.is_none() && updates.documentation_url.is_none()
            && updates.ai_documentation_url.is_none() && updates.drive_link.is_none()
            && updates.notes.is_none() && updates.image_data.is_none();
        if empty {
            return Err(AppError::InvalidRequest);
        }
        match find_row(&self.projects, id) {
            Option::None => Err(AppError::NotFound),
            Option::Some(i) => {
                proof {
                    lemma_row_index(self.projects@, i as int, id);
                    assert(self.projects@[i as int].links is None);
                }
                let UpdateProjectDTO {
                    name,
                    description,
                    local_path,
                    documentation_url,
                    ai_documentation_url,
                    drive_link,
                    notes,
                    image_data,
                } = updates;
                let row = &self.projects[i];
                let new_row = Project {
                    id: row.id,
                    name: match name {
                        Option::Some(v) => v,
                        Option::None => row.name.clone(),
                    },
                    description: match description {
                        Option::Some(v) => v,
                        Option::None => row.description.clone(),
                    },
                    local_path: match local_path {
                        Option::Some(v) => v,
                        Option::None => row.local_path.clone(),
                    },
                    documentation_url: match documentation_url {
                        Option::Some(v) => Option::Some(v),
                        Option::None => clone_opt_string(&row.documentation_url),
                    },
                    ai_documentation_url: match ai_documentation_url {
                        Option::Some(v) => Option::Some(v),
                        Option::None => clone_opt_string(&row.ai_documentation_url),
                    },
                    drive_link: match drive_link {
                        Option::Some(v) => Option::Some(v),
                        Option::None => clone_opt_string(&row.drive_link),
                    },
                    notes: match notes {
                        Option::Some(v) => Option::Some(v),
                        Option::None => clone_opt_string(&row.notes),
                    },
                    image_data: match image_data {
                        Option::Some(v) => Option::Some(v),
                        Option::None => clone_opt_string(&row.image_data),
                    },
                    links: Option::None,
                    created_at: row.created_at,
                    updated_at: if now >= row.updated_at {
                        now
                    } else {
                        row.updated_at
                    },
                    last_opened_at: row.last_opened_at,
                    opened_count: row.opened_count,
                    total_time_seconds: row.total_time_seconds,
                    status: row.status.clone(),
                    status_changed_at: row.status_changed_at,
                    is_pinned: row.is_pinned,
                    pinned_order: row.pinned_order,
                };
                proof {
                    assert(new_row == apply_project_update(
                        old(self).projects@[i as int],
                        updates,
                        now,
                    ));
                }
                self.projects.set(i, new_row);
                proof {
                    lemma_update_row(old(self).projects@, i as int, self.projects@[i as int], old(
                        self,
                    ).next_project_id);
                    assert forall|k: int| 0 <= k < self.projects@.len() implies #[trigger] self
                        .projects@[k].links is None by {
                        if k != i {
                            assert(self.projects@[k] == old(self).projects@[k]);
                        }
                    }
                    lemma_row_index(self.projects@, i as int, id);
                }
                match self.get_project(id) {
                    Ok(p) => Ok(p),
                    Err(_) => {
                        proof {
                            assert(self.projects@[i as int].id == id);
                            assert(false);
                        }
                        Err(AppError::NotFound)
                    },
                }
            },
        }
    }

    /// Sets the lifecycle status tag of a project, recording when it
    /// changed. Like the underlying UPDATE, a missing id changes nothing and
    /// is not an error.
    pub fn update_project_status(&mut self, project_id: i64, status: String, now: u64) -> (r:
        Result<(), AppError>)
        requires
            old(self).wf(),
        ensures
            final(self).wf(),
            r is Ok,
            has_row(old(self).projects@, project_id) ==> ({
                let idx = row_index_of(old(self).projects@, project_id);
                final(self).projects@ == old(self).projects@.update(
                    idx,
                    apply_status(old(self).projects@[idx], status, now),
                )
            }),
            !has_row(old(self).projects@, project_id) ==> final(self).projects@ == old(
                self,
            ).projects@,
            final(self).children_unchanged(*old(self)),
            final(self).counters_unchanged(*old(self)),
    {
        match find_row(&self.projects, project_id) {
            Option::None => Ok(()),
            Option::Some(i) => {
                proof {
                    lemma_row_index(self.projects@, i as int, project_id);
                    assert(self.projects@[i as int].links is None);
                }
                let mut new_row = self.projects[i].row_copy();
                new_row.status = status;
                new_row.status_changed_at = Option::Some(now);
                if now >= new_row.updated_at {
                    new_row.updated_at = now;
                }
                self.projects.set(i, new_row);
                proof {
                    lemma_update_row(old(self).projects@, i as int, self.projects@[i as int], old(
                        self,
                    ).next_project_id);
                    assert forall|k: int| 0 <= k < self.projects@.len() implies #[trigger] self
                        .projects@[k].links is None by {
                        if k != i {
                            assert(self.projects@[k] == old(self).projects@[k]);
                        }
                    }
                }
                Ok(())
            },
        }
    }

    /// Flips the pinned flag of a project and reports the new value.
    pub fn toggle_pin_project(&mut self, project_id: i64, now: u64) -> (r: Result<bool, AppError>)
        requires
            old(self).wf(),
        ensures
            final(self).wf(),
            !has_row(old(self).projects@, project_id) ==> (r matches Err(e) && e
                == AppError::NotFound && final(self).same_state(*old(self))),
            has_row(old(self).projects@, project_id) ==> ({
                let idx = row_index_of(old(self).projects@, project_id);
                &&& final(self).projects@ == old(self).projects@.update(
                    idx,
                    apply_toggle_pin(old(self).projects@[idx], now),
                )
                &&& r matches Ok(b) && b == !old(self).projects@[idx].is_pinned
            }),
            final(self).children_unchanged(*old(self)),
            final(self).counters_unchanged(*old(self)),
    {
        match find_row(&self.projects, project_id) {
            Option::None => Err(AppError::NotFound),
            Option::Some(i) => {
                proof {
                    lemma_row_index(self.projects@, i as int, project_id);
                    assert(self.projects@[i as int].links is None);
                }
                let mut new_row = self.projects[i].row_copy();
                let pinned = !new_row.is_pinned;
                new_row.is_pinned = pinned;
                if now >= new_row.updated_at {
                    new_row.updated_at = now;
                }
                self.projects.set(i, new_row);
                proof {
                    lemma_update_row(old(self).projects@, i as int, self.projects@[i as int], old(
                        self,
                    ).next_project_id);
                    assert forall|k: int| 0 <= k < self.projects@.len() implies #[trigger] self
                        .projects@[k].links is None by {
                        if k != i {
                            assert(self.projects@[k] == old(self).projects@[k]);
                        }
                    }
                }
                Ok(pinned)
            },
        }
    }

    /// Assigns manual pin order by position in the given id list. Ids that
    /// match no row are skipped.
    pub fn reorder_pinned_projects(&mut self, project_ids: Vec<i64>) -> (r: Result<(), AppError>)
        requires
            old(self).wf(),
            old(self).next_project_id < i64::MAX,
            project_ids@.len() <= i64::MAX,
        ensures
            final(self).wf(),
            r is Ok,
            final(self).projects@ == apply_reorder(old(self).projects@, project_ids@),
            final(self).children_unchanged(*old(self)),
            final(self).counters_unchanged(*old(self)),
    {
        let ghost s0 = self.projects@;
        let mut k: usize = 0;
        proof {
            assert(project_ids@.take(0) =~= Seq::<i64>::empty());
            assert(apply_reorder(s0, project_ids@.take(0)) == s0);
        }
        while k < project_ids.len()
            invariant
                k <= project_ids@.len(),
                project_ids@.len() <= i64::MAX,
                self.wf(),
                self.projects@ == apply_reorder(s0, project_ids@.take(k as int)),
                self.projects@.len() == s0.len(),
                self.children_unchanged(*old(self)),
                self.counters_unchanged(*old(self)),
                forall|j: int|
                    0 <= j < s0.len() ==> #[trigger] self.projects@[j].id == s0[j].id
                        && self.projects@[j].links is None,
            decreases project_ids@.len() - k,
        {
            let ghost cur = self.projects@;
            let idv = project_ids[k];
            proof {
                assert(project_ids@.take(k + 1).drop_last() =~= project_ids@.take(k as int));
                assert(project_ids@.take(k + 1).last() == project_ids@[k as int]);
            }
            match find_row(&self.projects, idv) {
                Option::None => {
                    proof {
                        assert forall|j: int| 0 <= j < cur.len() implies set_order_of(
                            cur,
                            idv,
                            k as i64,
                        )[j] == cur[j] by {
                            assert(cur[j].rid() != idv);
                        }
                        assert(set_order_of(cur, idv, k as i64) =~= cur);
                        assert(apply_reorder(s0, project_ids@.take(k + 1)) == set_order_of(
                            apply_reorder(s0, project_ids@.take(k as int)),
                            idv,
                            k as i64,
                        ));
                    }
                },
                Option::Some(i) => {
                    proof {
                        assert(self.projects@[i as int].links is None);
                    }
                    let mut new_row = self.projects[i].row_copy();
                    new_row.pinned_order = k as i64;
                    self.projects.set(i, new_row);
                    proof {
                        assert forall|j: int| 0 <= j < cur.len() implies #[trigger] self
                            .projects@[j] == set_order_of(cur, idv, k as i64)[j] by {
                            if j == i {
                            } else {
                                assert(cur[j].rid() != cur[i as int].rid());
                            }
                        }
                        assert(self.projects@ =~= set_order_of(cur, idv, k as i64));
                        assert(apply_reorder(s0, project_ids@.take(k + 1)) == set_order_of(
                            apply_reorder(s0, project_ids@.take(k as int)),
                            idv,
                            k as i64,
                        ));
                        lemma_update_row(cur, i as int, self.projects@[i as int], old(
                            self,
                        ).next_project_id);
                        assert forall|j: int| 0 <= j < self.projects@.len() implies #[trigger] self
                            .projects@[j].links is None by {
                            if j != i {
                                assert(self.projects@[j] == cur[j]);
                            }
                        }
                    }
                },
            }
            k = k + 1;
        }
        proof {
            assert(project_ids@.take(project_ids@.len() as int) =~= project_ids@);
        }
        Ok(())
    }

    /// Records an open of a project: the open counter and last-open time move
    /// and an activity row is appended. As with the underlying UPDATE, a
    /// missing project id still appends the activity row.
    pub fn track_project_open(&mut self, id: i64, now: u64) -> (r: Result<(), AppError>)
        requires
            old(self).wf(),
            old(self).next_activity_id < i64::MAX,
        ensures
            final(self).wf(),
            r is Ok,
            has_row(old(self).projects@, id) ==> ({
                let idx = row_index_of(old(self).projects@, id);
                final(self).projects@ == old(self).projects@.update(
                    idx,
                    apply_track_open(old(self).projects@[idx], now),
                )
            }),
            !has_row(old(self).projects@, id) ==> final(self).projects@ == old(self).projects@,
            (exists|a: ProjectActivity|
                {
                    &&& #[trigger] final(self).activities@ == old(self).activities@.push(a)
                    &&& a.id == old(self).next_activity_id
                    &&& a.project_id == id
                    &&& a.activity_type@ == "opened"@
                    &&& a.description matches Option::Some(d) && d@ == "Project opened"@
                    &&& a.duration_seconds is None
                    &&& a.created_at == now
                }),
            final(self).next_activity_id == old(self).next_activity_id + 1,
            final(self).links@ == old(self).links@,
            final(self).attachments@ == old(self).attachments@,
            final(self).journal@ == old(self).journal@,
            final(self).todos@ == old(self).todos@,
            final(self).next_project_id == old(self).next_project_id,
            final(self).next_link_id == old(self).next_link_id,
            final(self).next_attachment_id == old(self).next_attachment_id,
            final(self).next_journal_id == old(self).next_journal_id,
            final(self).next_todo_id == old(self).next_todo_id,
    {
        match find_row(&self.projects, id) {
            Option::None => {},
            Option::Some(i) => {
                proof {
                    lemma_row_index(self.projects@, i as int, id);
                    assert(self.projects@[i as int].links is None);
                }
                let mut new_row = self.projects[i].row_copy();
                new_row.last_opened_at = Option::Some(now);
                if new_row.opened_count < u64::MAX {
                    new_row.opened_count = new_row.opened_count + 1;
                }
                self.projects.set(i, new_row);
                proof {
                    lemma_update_row(old(self).projects@, i as int, self.projects@[i as int], old(
                        self,
                    ).next_project_id);
                    assert forall|k: int| 0 <= k < self.projects@.len() implies #[trigger] self
                        .projects@[k].links is None by {
                        if k != i {
                            assert(self.projects@[k] == old(self).projects@[k]);
                        }
                    }
                }
            },
        }
        let act = ProjectActivity {
            id: self.next_activity_id,
            project_id: id,
            activity_type: "opened".to_owned(),
            description: Option::Some("Project opened".to_owned()),
            duration_seconds: Option::None,
            created_at: now,
        };
        self.activities.push(act);
        self.next_activity_id = self.next_activity_id + 1;
        Ok(())
    }

    /// Adds tracked seconds to a project, saturating at the counter limit. A
    /// missing id changes nothing.
    pub fn add_project_time(&mut self, id: i64, seconds: u64) -> (r: Result<(), AppError>)
        requires
            old(self).wf(),
        ensures
            final(self).wf(),
            r is Ok,
            has_row(old(self).projects@, id) ==> ({
                let idx = row_index_of(old(self).projects@, id);
                final(self).projects@ == old(self).projects@.update(
                    idx,
                    apply_add_time(old(self).projects@[idx], seconds),
                )
            }),
            !has_row(old(self).projects@, id) ==> final(self).projects@ == old(self).projects@,
            final(self).children_unchanged(*old(self)),
            final(self).counters_unchanged(*old(self)),
    {
        match find_row(&self.projects, id) {
            Option::None => Ok(()),
            Option::Some(i) => {
                proof {
                    lemma_row_index(self.projects@, i as int, id);
                    assert(self.projects@[i as int].links is None);
                }
                let mut new_row = self.projects[i].row_copy();
                if new_row.total_time_seconds > u64::MAX - seconds {
                    new_row.total_time_seconds = u64::MAX;
                } else {
                    new_row.total_time_seconds = new_row.total_time_seconds + seconds;
                }
                self.projects.set(i, new_row);
                proof {
                    lemma_update_row(old(self).projects@, i as int, self.projects@[i as int], old(
                        self,
                    ).next_project_id);
                    assert forall|k: int| 0 <= k < self.projects@.len() implies #[trigger] self
                        .projects@[k].links is None by {
                        if k != i {
                            assert(self.projects@[k] == old(self).projects@[k]);
                        }
                    }
                }
                Ok(())
            },
        }
    }

    /// Creates a link row owned by the given project.
    pub fn create_link(&mut self, link: CreateLinkDTO, now: u64) -> (r: Result<
        ProjectLink,
        AppError,
    >)
        requires
            old(self).wf(),
            old(self).next_link_id < i64::MAX,
        ensures
            final(self).wf(),
            r matches Ok(l) && {
                &&& l.id == old(self).next_link_id
                &&& l.project_id == link.project_id
                &&& l.link_type == link.link_type
                &&& l.title == link.title
                &&& l.url == link.url
                &&& l.created_at == now
                &&& final(self).links@ == old(self).links@.push(l)
            },
            final(self).next_link_id == old(self).next_link_id + 1,
            final(self).projects@ == old(self).projects@,
            final(self).attachments@ == old(self).attachments@,
            final(self).journal@ == old(self).journal@,
            final(self).todos@ == old(self).todos@,
            final(self).activities@ == old(self).activities@,
            final(self).next_project_id == old(self).next_project_id,
            final(self).next_attachment_id == old(self).next_attachment_id,
            final(self).next_journal_id == old(self).next_journal_id,
            final(self).next_todo_id == old(self).next_todo_id,
            final(self).next_activity_id == old(self).next_activity_id,
    {
        let row = ProjectLink {
            id: self.next_link_id,
            project_id: link.project_id,
            link_type: link.link_type,
            title: link.title,
            url: link.url,
            created_at: now,
        };
        let out = row.clone();
        self.links.push(row);
        self.next_link_id = self.next_link_id + 1;
        Ok(out)
    }

    /// Applies a sparse update to a link row. An update that supplies no
    /// field is rejected and changes nothing.
    pub fn update_link(&mut self, id: i64, link: UpdateLinkDTO) -> (r: Result<
        ProjectLink,
        AppError,
    >)
        requires
            old(self).wf(),
        ensures
            final(self).wf(),
            link_update_empty(link) ==> (r matches Err(e) && e == AppError::InvalidRequest
                && final(self).same_state(*old(self))),
            !link_update_empty(link) && !has_row(old(self).links@, id) ==> (r matches Err(e) && e
                == AppError::NotFound && final(self).same_state(*old(self))),
            !link_update_empty(link) && has_row(old(self).links@, id) ==> ({
                let idx = row_index_of(old(self).links@, id);
                let new_row = apply_link_update(old(self).links@[idx], link);
                &&& final(self).links@ == old(self).links@.update(idx, new_row)
                &&& r matches Ok(l) && l == new_row
                &&& final(self).projects@ == old(self).projects@
                &&& final(self).attachments@ == old(self).attachments@
                &&& final(self).journal@ == old(self).journal@
                &&& final(self).todos@ == old(self).todos@
                &&& final(self).activities@ == old(self).activities@
                &&& final(self).counters_unchanged(*old(self))
            }),
    {
        if link.link_type.is_none() && link.title.is_none() && link.url.is_none() {
            return Err(AppError::InvalidRequest);
        }
        match find_row(&self.links, id) {
            Option::None => Err(AppError::NotFound),
            Option::Some(i) => {
                proof {
                    lemma_row_index(self.links@, i as int, id);
                }
                let UpdateLinkDTO { link_type, title, url } = link;
                let row = &self.links[i];
                let new_row = ProjectLink {
                    id: row.id,
                    project_id: row.project_id,
                    link_type: match link_type {
                        Option::Some(v) => v,
                        Option::None => row.link_type.clone(),
                    },
                    title: match title {
                        Option::Some(v) => v,
                        Option::None => row.title.clone(),
                    },
                    url: match url {
                        Option::Some(v) => v,
                        Option::None => row.url.clone(),
                    },
                    created_at: row.created_at,
                };
                let out = new_row.clone();
                self.links.set(i, new_row);
                proof {
                    lemma_update_row(old(self).links@, i as int, self.links@[i as int], old(
                        self,
                    ).next_link_id);
                }
                Ok(out)
            },
        }
    }

    /// Deletes a link row by id; an absent id succeeds and changes nothing.
    pub fn delete_link(&mut self, id: i64) -> (r: Result<(), AppError>)
        requires
            old(self).wf(),
        ensures
            final(self).wf(),
            r is Ok,
            final(self).links@ == old(self).links@.filter(rid_ne::<ProjectLink>(id)),
            final(self).projects@ == old(self).projects@,
            final(self).attachments@ == old(self).attachments@,
            final(self).journal@ == old(self).journal@,
            final(self).todos@ == old(self).todos@,
            final(self).activities@ == old(self).activities@,
            final(self).counters_unchanged(*old(self)),
    {
        let fl = filter_out_id(&self.links, id);
        self.links = fl;
        proof {
            lemma_filter_rows(old(self).links@, rid_ne::<ProjectLink>(id));
            assert forall|i: int| 0 <= i < self.links@.len() implies 1 <= (
            #[trigger] self.links@[i]).rid() < self.next_link_id by {
                assert(old(self).links@.contains(self.links@[i]));
            }
        }
        Ok(())
    }

    /// Creates an attachment row, enforcing the hard size cap: a request
    /// whose declared size exceeds the cap is rejected and stores nothing.
    pub fn add_attachment(&mut self, attachment: CreateAttachmentDTO, now: u64) -> (r: Result<
        ProjectAttachment,
        AppError,
    >)
        requires
            old(self).wf(),
            old(self).next_attachment_id < i64::MAX,
        ensures
            final(self).wf(),
            attachment.file_size > MAX_ATTACHMENT_BYTES ==> (r matches Err(e) && e
                == AppError::ConstraintViolation && final(self).same_state(*old(self))),
            attachment.file_size <= MAX_ATTACHMENT_BYTES ==> (r matches Ok(a) && {
                &&& a.id == old(self).next_attachment_id
                &&& a.project_id == attachment.project_id
                &&& a.filename == attachment.filename
                &&& a.file_data == attachment.file_data
                &&& a.file_size == attachment.file_size
                &&& a.mime_type == attachment.mime_type
                &&& a.created_at == now
                &&& final(self).attachments@ == old(self).attachments@.push(a)
                &&& final(self).next_attachment_id == old(self).next_attachment_id + 1
                &&& final(self).projects@ == old(self).projects@
                &&& final(self).links@ == old(self).links@
                &&& final(self).journal@ == old(self).journal@
                &&& final(self).todos@ == old(self).todos@
                &&& final(self).activities@ == old(self).activities@
            }),
    {
        if attachment.file_size > MAX_ATTACHMENT_BYTES {
            return Err(AppError::ConstraintViolation);
        }
        let row = ProjectAttachment {
            id: self.next_attachment_id,
            project_id: attachment.project_id,
            filename: attachment.filename,
            file_data: attachment.file_data,
            file_size: attachment.file_size,
            mime_type: attachment.mime_type,
            created_at: now,
        };
        let out = row.clone();
        self.attachments.push(row);
        self.next_attachment_id = self.next_attachment_id + 1;
        Ok(out)
    }

    /// The attachments of one project, newest first.
    pub fn get_attachments(&self, project_id: i64) -> (r: Result<Vec<ProjectAttachment>, AppError>)
        ensures
            r matches Ok(v) && v@.to_multiset() == rows_of(
                self.attachments@,
                project_id,
            ).to_multiset() && seq_sorted(v@) && v@.len() == rows_of(
                self.attachments@,
                project_id,
            ).len(),
    {
        let collected = collect_by_pid(&self.attachments, project_id);
        Ok(sort_rows(collected))
    }

    /// Deletes an attachment row by id; an absent id succeeds and changes
    /// nothing.
    pub fn delete_attachment(&mut self, id: i64) -> (r: Result<(), AppError>)
        requires
            old(self).wf(),
        ensures
            final(self).wf(),
            r is Ok,
            final(self).attachments@ == old(self).attachments@.filter(
                rid_ne::<ProjectAttachment>(id),
            ),
            final(self).projects@ == old(self).projects@,
            final(self).links@ == old(self).links@,
            final(self).journal@ == old(self).journal@,
            final(self).todos@ == old(self).todos@,
            final(self).activities@ == old(self).activities@,
            final(self).counters_unchanged(*old(self)),
    {
        let fa = filter_out_id(&self.attachments, id);
        self.attachments = fa;
        proof {
            lemma_filter_rows(old(self).attachments@, rid_ne::<ProjectAttachment>(id));
            assert forall|i: int| 0 <= i < self.attachments@.len() implies 1 <= (
            #[trigger] self.attachments@[i]).rid() < self.next_attachment_id by {
                assert(old(self).attachments@.contains(self.attachments@[i]));
            }
        }
        Ok(())
    }

    /// Creates a journal entry owned by the given project.
    pub fn create_journal_entry(&mut self, entry: CreateJournalEntryDTO, now: u64) -> (r: Result<
        JournalEntry,
        AppError,
    >)
        requires
            old(self).wf(),
            old(self).next_journal_id < i64::MAX,
        ensures
            final(self).wf(),
            r matches Ok(e) && {
                &&& e.id == old(self).next_journal_id
                &&& e.project_id == entry.project_id
                &&& e.content == entry.content
                &&& e.tags == entry.tags
                &&& e.created_at == now
                &&& e.updated_at == now
                &&& final(self).journal@ == old(self).journal@.push(e)
            },
            final(self).next_journal_id == old(self).next_journal_id + 1,
            final(self).projects@ == old(self).projects@,
            final(self).links@ == old(self).links@,
            final(self).attachments@ == old(self).attachments@,
            final(self).todos@ == old(self).todos@,
            final(self).activities@ == old(self).activities@,
            final(self).next_project_id == old(self).next_project_id,
            final(self).next_link_id == old(self).next_link_id,
            final(self).next_attachment_id == old(self).next_attachment_id,
            final(self).next_todo_id == old(self).next_todo_id,
            final(self).next_activity_id == old(self).next_activity_id,
    {
        let row = JournalEntry {
            id: self.next_journal_id,
            project_id: entry.project_id,
            content: entry.content,
            tags: entry.tags,
            created_at: now,
            updated_at: now,
        };
        let out = row.clone();
        self.journal.push(row);
        self.next_journal_id = self.next_journal_id + 1;
        Ok(out)
    }

    /// The journal entries of one project, newest first.
    pub fn get_journal_entries(&self, project_id: i64) -> (r: Result<Vec<JournalEntry>, AppError>)
        ensures
            r matches Ok(v) && v@.to_multiset() == rows_of(self.journal@, project_id).to_multiset()
                && seq_sorted(v@) && v@.len() == rows_of(self.journal@, project_id).len(),
    {
        let collected = collect_by_pid(&self.journal, project_id);
        Ok(sort_rows(collected))
    }

    /// Applies a sparse update to a journal entry, bumping its update time.
    /// An update that supplies no field is rejected and changes nothing.
    pub fn update_journal_entry(&mut self, id: i64, updates: UpdateJournalEntryDTO, now: u64) -> (r:
        Result<JournalEntry, AppError>)
        requires
            old(self).wf(),
        ensures
            final(self).wf(),
            journal_update_empty(updates) ==> (r matches Err(e) && e == AppError::InvalidRequest
                && final(self).same_state(*old(self))),
            !journal_update_empty(updates) && !has_row(old(self).journal@, id) ==> (r matches Err(
                e,
            ) && e == AppError::NotFound && final(self).same_state(*old(self))),
            !journal_update_empty(updates) && has_row(old(self).journal@, id) ==> ({
                let idx = row_index_of(old(self).journal@, id);
                let new_row = apply_journal_update(old(self).journal@[idx], updates, now);
                &&& final(self).journal@ == old(self).journal@.update(idx, new_row)
                &&& r matches Ok(e) && e == new_row
                &&& final(self).projects@ == old(self).projects@
                &&& final(self).links@ == old(self).links@
                &&& final(self).attachments@ == old(self).attachments@
                &&& final(self).todos@ == old(self).todos@
                &&& final(self).activities@ == old(self).activities@
                &&& final(self).counters_unchanged(*old(self))
            }),
    {
        if updates.content.is_none() && updates.tags.is_none() {
            return Err(AppError::InvalidRequest);
        }
        match find_row(&self.journal, id) {
            Option::None => Err(AppError::NotFound),
            Option::Some(i) => {
                proof {
                    lemma_row_index(self.journal@, i as int, id);
                }
                let UpdateJournalEntryDTO { content, tags } = updates;
                let row = &self.journal[i];
                let new_row = JournalEntry {
                    id: row.id,
                    project_id: row.project_id,
                    content: match content {
                        Option::Some(v) => v,
                        Option::None => row.content.clone(),
                    },
                    tags: match tags {
                        Option::Some(v) => Option::Some(v),
                        Option::None => clone_opt_string(&row.tags),
                    },
                    created_at: row.created_at,
                    updated_at: if now >= row.updated_at {
                        now
                    } else {
                        row.updated_at
                    },
                };
                let out = new_row.clone();
                self.journal.set(i, new_row);
                proof {
                    lemma_update_row(old(self).journal@, i as int, self.journal@[i as int], old(
                        self,
                    ).next_journal_id);
                }
                Ok(out)
            },
        }
    }

    /// Deletes a journal entry by id; an absent id succeeds and changes
    /// nothing.
    pub fn delete_journal_entry(&mut self, id: i64) -> (r: Result<(), AppError>)
        requires
            old(self).wf(),
        ensures
            final(self).wf(),
            r is Ok,
            final(self).journal@ == old(self).journal@.filter(rid_ne::<JournalEntry>(id)),
            final(self).projects@ == old(self).projects@,
            final(self).links@ == old(self).links@,
            final(self).attachments@ == old(self).attachments@,
            final(self).todos@ == old(self).todos@,
            final(self).activities@ == old(self).activities@,
            final(self).counters_unchanged(*old(self)),
    {
        let fj = filter_out_id(&self.journal, id);
        self.journal = fj;
        proof {
            lemma_filter_rows(old(self).journal@, rid_ne::<JournalEntry>(id));
            assert forall|i: int| 0 <= i < self.journal@.len() implies 1 <= (
            #[trigger] self.journal@[i]).rid() < self.next_journal_id by {
                assert(old(self).journal@.contains(self.journal@[i]));
            }
        }
        Ok(())
    }

    /// Creates a todo owned by the given project, initially open.
    pub fn create_todo(&mut self, todo: CreateTodoDTO, now: u64) -> (r: Result<
        ProjectTodo,
        AppError,
    >)
        requires
            old(self).wf(),
            old(self).next_todo_id < i64::MAX,
        ensures
            final(self).wf(),
            r matches Ok(t) && {
                &&& t.id == old(self).next_todo_id
                &&& t.project_id == todo.project_id
                &&& t.content == todo.content
                &&& !t.is_completed
                &&& t.created_at == now
                &&& t.completed_at is None
                &&& final(self).todos@ == old(self).todos@.push(t)
            },
            final(self).next_todo_id == old(self).next_todo_id + 1,
            final(self).projects@ == old(self).projects@,
            final(self).links@ == old(self).links@,
            final(self).attachments@ == old(self).attachments@,
            final(self).journal@ == old(self).journal@,
            final(self).activities@ == old(self).activities@,
            final(self).next_project_id == old(self).next_project_id,
            final(self).next_link_id == old(self).next_link_id,
            final(self).next_attachment_id == old(self).next_attachment_id,
            final(self).next_journal_id == old(self).next_journal_id,
            final(self).next_activity_id == old(self).next_activity_id,
    {
        let row = ProjectTodo {
            id: self.next_todo_id,
            project_id: todo.project_id,
            content: todo.content,
            is_completed: false,
            created_at: now,
            completed_at: Option::None,
        };
        let out = row.clone();
        self.todos.push(row);
        self.next_todo_id = self.next_todo_id + 1;
        Ok(out)
    }

    /// The todos of one project, newest first.
    pub fn get_project_todos(&self, project_id: i64) -> (r: Result<Vec<ProjectTodo>, AppError>)
        ensures
            r matches Ok(v) && v@.to_multiset() == rows_of(self.todos@, project_id).to_multiset()
                && seq_sorted(v@) && v@.len() == rows_of(self.todos@, project_id).len(),
    {
        let collected = collect_by_pid(&self.todos, project_id);
        Ok(sort_rows(collected))
    }

    /// Applies a sparse update to a todo; the completion timestamp is set on
    /// the transition to completed and cleared on reopening. An update that
    /// supplies no field is rejected and changes nothing.
    pub fn update_todo(&mut self, id: i64, updates: UpdateTodoDTO, now: u64) -> (r: Result<
        ProjectTodo,
        AppError,
    >)
        requires
            old(self).wf(),
        ensures
            final(self).wf(),
            todo_update_empty(updates) ==> (r matches Err(e) && e == AppError::InvalidRequest
                && final(self).same_state(*old(self))),
            !todo_update_empty(updates) && !has_row(old(self).todos@, id) ==> (r matches Err(e)
                && e == AppError::NotFound && final(self).same_state(*old(self))),
            !todo_update_empty(updates) && has_row(old(self).todos@, id) ==> ({
                let idx = row_index_of(old(self).todos@, id);
                let new_row = apply_todo_update(old(self).todos@[idx], updates, now);
                &&& final(self).todos@ == old(self).todos@.update(idx, new_row)
                &&& r matches Ok(t) && t == new_row
                &&& final(self).projects@ == old(self).projects@
                &&& final(self).links@ == old(self).links@
                &&& final(self).attachments@ == old(self).attachments@
                &&& final(self).journal@ == old(self).journal@
                &&& final(self).activities@ == old(self).activities@
                &&& final(self).counters_unchanged(*old(self))
            }),
    {
        if updates.content.is_none() && updates.is_completed.is_none() {
            return Err(AppError::InvalidRequest);
        }
        match find_row(&self.todos, id) {
            Option::None => Err(AppError::NotFound),
            Option::Some(i) => {
                proof {
                    lemma_row_index(self.todos@, i as int, id);
                }
                let UpdateTodoDTO { content, is_completed } = updates;
                let row = &self.todos[i];
                let new_row = ProjectTodo {
                    id: row.id,
                    project_id: row.project_id,
                    content: match content {
                        Option::Some(v) => v,
                        Option::None => row.content.clone(),
                    },
                    is_completed: match is_completed {
                        Option::Some(b) => b,
                        Option::None => row.is_completed,
                    },
                    created_at: row.created_at,
                    completed_at: match is_completed {
                        Option::None => row.completed_at,
                        Option::Some(b) => if b {
                            if row.is_completed {
                                row.completed_at
                            } else {
                                Option::Some(now)
                            }
                        } else {
                            Option::None
                        },
                    },
                };
                let out = new_row.clone();
                self.todos.set(i, new_row);
                proof {
                    lemma_update_row(old(self).todos@, i as int, self.todos@[i as int], old(
                        self,
                    ).next_todo_id);
                }
                Ok(out)
            },
        }
    }

    /// Deletes a todo by id; an absent id succeeds and changes nothing.
    pub fn delete_todo(&mut self, id: i64) -> (r: Result<(), AppError>)
        requires
            old(self).wf(),
        ensures
            final(self).wf(),
            r is Ok,
            final(self).todos@ == old(self).todos@.filter(rid_ne::<ProjectTodo>(id)),
            final(self).projects@ == old(self).projects@,
            final(self).links@ == old(self).links@,
            final(self).attachments@ == old(self).attachments@,
            final(self).journal@ == old(self).journal@,
            final(self).activities@ == old(self).activities@,
            final(self).counters_unchanged(*old(self)),
    {
        let ft = filter_out_id(&self.todos, id);
        self.todos = ft;
        proof {
            lemma_filter_rows(old(self).todos@, rid_ne::<ProjectTodo>(id));
            assert forall|i: int| 0 <= i < self.todos@.len() implies 1 <= (
            #[trigger] self.todos@[i]).rid() < self.next_todo_id by {
                assert(old(self).todos@.contains(self.todos@[i]));
            }
        }
        Ok(())
    }

    /// The most recent activity rows of one project, newest first; a
    /// negative limit means no limit.
    pub fn get_project_activities(&self, project_id: i64, limit: i64) -> (r: Result<
        Vec<ProjectActivity>,
        AppError,
    >)
        ensures
            r matches Ok(v) && (exists|full: Seq<ProjectActivity>|
                {
                    &&& #[trigger] full.to_multiset() == rows_of(
                        self.activities@,
                        project_id,
                    ).to_multiset()
                    &&& seq_sorted(full)
                    &&& v@ == full.take(limit_cap(limit, full.len()))
                }),
    {
        let collected = collect_by_pid(&self.activities, project_id);
        let mut sorted = sort_rows(collected);
        let ghost full = sorted@;
        if limit >= 0 && (limit as u64) < (sorted.len() as u64) {
            sorted.truncate(limit as usize);
            proof {
                assert(sorted@ == full.subrange(0, limit as int));
                assert(full.take(limit_cap(limit, full.len())) =~= sorted@);
            }
        } else {
            proof {
                assert(full.take(limit_cap(limit, full.len())) =~= sorted@);
            }
        }
        Ok(sorted)
    }

    /// Aggregated analytics: project count, distinct projects active on the
    /// day of `now`, total tracked seconds, the most opened project (ties
    /// broken by storage order), and the twenty most recent activity rows.
    pub fn get_project_stats(&self, now: u64) -> (r: Result<ProjectStats, AppError>)
        requires
            self.wf(),
            self.projects@.len() <= i64::MAX,
            self.activities@.len() <= i64::MAX,
        ensures
            r matches Ok(st) && {
                &&& st.total_projects == self.projects@.len() as i64
                &&& st.active_today == active_today_count(self.activities@, now) as i64
                &&& st.total_time_seconds == total_time(self.projects@)
                &&& (match st.most_active_project {
                    Option::None => self.projects@.len() == 0,
                    Option::Some(name) => exists|b: int|
                        0 <= b < self.projects@.len() && name == #[trigger] self.projects@[b].name
                            && (forall|j: int|
                            0 <= j < self.projects@.len()
                                ==> #[trigger] self.projects@[j].opened_count
                                <= self.projects@[b].opened_count) && (forall|j: int|
                            0 <= j < b ==> #[trigger] self.projects@[j].opened_count
                                < self.projects@[b].opened_count),
                })
                &&& (exists|full: Seq<ProjectActivity>|
                    {
                        &&& #[trigger] full.to_multiset() == self.activities@.to_multiset()
                        &&& seq_sorted(full)
                        &&& st.recent_activities@ == full.take(recent_cap(full.len()))
                    })
            },
    {
        let total_projects = self.projects.len() as i64;
        let active_today = self.count_active_today(now);
        let total_seconds = self.sum_total_time();
        let most_active = self.find_most_active();
        let cloned = clone_child_rows(&self.activities);
        let mut recent = sort_rows(cloned);
        let ghost full = recent@;
        if recent.len() > 20 {
            recent.truncate(20);
            proof {
                assert(recent@ =~= full.take(recent_cap(full.len())));
            }
        } else {
            proof {
                assert(recent@ =~= full.take(recent_cap(full.len())));
            }
        }
        Ok(
            ProjectStats {
                total_projects,
                active_today,
                total_time_seconds: total_seconds,
                most_active_project: most_active,
                recent_activities: recent,
            },
        )
    }

    /// Counts the distinct projects with activity on the day of `now`.
    fn count_active_today(&self, now: u64) -> (r: i64)
        requires
            self.activities@.len() <= i64::MAX,
        ensures
            r == active_today_count(self.activities@, now) as i64,
    {
        let mut seen: Vec<i64> = Vec::new();
        let mut i: usize = 0;
        proof {
            assert(self.activities@.take(0).filter(today_pred(now)) =~= Seq::<
                ProjectActivity,
            >::empty());
            assert(today_pids(self.activities@.take(0), now) =~= Seq::<i64>::empty());
        }
        while i < self.activities.len()
            invariant
                i <= self.activities@.len(),
                self.activities@.len() <= i64::MAX,
                seen@ == dedup(today_pids(self.activities@.take(i as int), now)),
                seen@.len() <= i,
            decreases self.activities@.len() - i,
        {
            let ghost pre = self.activities@.take(i as int);
            let ghost a = self.activities@[i as int];
            proof {
                lemma_filter_push(pre, a, today_pred(now));
                assert(self.activities@.take(i + 1) =~= pre.push(a));
                if today_pred(now)(a) {
                    assert(today_pids(self.activities@.take(i + 1), now) =~= today_pids(
                        pre,
                        now,
                    ).push(a.project_id));
                    assert(today_pids(pre, now).push(a.project_id).drop_last() =~= today_pids(
                        pre,
                        now,
                    ));
                } else {
                    assert(today_pids(self.activities@.take(i + 1), now) =~= today_pids(pre, now));
                }
                lemma_dedup_contains(today_pids(pre, now));
            }
            let act = &self.activities[i];
            if act.created_at / 86400 == now / 86400 {
                let pid = act.project_id;
                if !contains_i64(&seen, pid) {
                    seen.push(pid);
                }
            }
            i = i + 1;
        }
        proof {
            assert(self.activities@.take(self.activities@.len() as int) =~= self.activities@);
        }
        seen.len() as i64
    }

    /// The total tracked seconds over all projects, saturating.
    fn sum_total_time(&self) -> (r: u64)
        ensures
            r == total_time(self.projects@),
    {
        let mut acc: u64 = 0;
        let mut i: usize = 0;
        proof {
            assert(total_time(self.projects@.take(0)) == 0);
        }
        while i < self.projects.len()
            invariant
                i <= self.projects@.len(),
                acc == total_time(self.projects@.take(i as int)),
            decreases self.projects@.len() - i,
        {
            proof {
                assert(self.projects@.take(i + 1).drop_last() =~= self.projects@.take(i as int));
                assert(self.projects@.take(i + 1).last() == self.projects@[i as int]);
            }
            let t = self.projects[i].total_time_seconds;
            if acc > u64::MAX - t {
                acc = u64::MAX;
            } else {
                acc = acc + t;
            }
            i = i + 1;
        }
        proof {
            assert(self.projects@.take(self.projects@.len() as int) =~= self.projects@);
        }
        acc
    }

    /// The name of the project with the highest open count, ties broken by
    /// storage order; nothing when the store is empty.
    fn find_most_active(&self) -> (r: Option<String>)
        ensures
            match r {
                Option::None => self.projects@.len() == 0,
                Option::Some(name) => exists|b: int|
                    0 <= b < self.projects@.len() && name == #[trigger] self.projects@[b].name && (
                    forall|j: int|
                        0 <= j < self.projects@.len() ==> #[trigger] self.projects@[j].opened_count
                            <= self.projects@[b].opened_count) && (forall|j: int|
                        0 <= j < b ==> #[trigger] self.projects@[j].opened_count
                            < self.projects@[b].opened_count),
            },
    {
        if self.projects.len() == 0 {
            return Option::None;
        }
        let mut best: usize = 0;
        let mut j: usize = 1;
        while j < self.projects.len()
            invariant
                1 <= j <= self.projects@.len(),
                best < j,
                forall|k: int|
                    0 <= k < j ==> #[trigger] self.projects@[k].opened_count
                        <= self.projects@[best as int].opened_count,
                forall|k: int|
                    0 <= k < best ==> #[trigger] self.projects@[k].opened_count
                        < self.projects@[best as int].opened_count,
            decreases self.projects@.len() - j,
        {
            if self.projects[j].opened_count > self.projects[best].opened_count {
                best = j;
            }
            j = j + 1;
        }
        Option::Some(self.projects[best].name.clone())
    }
}

/// How many rows a limited listing returns: all of them under a negative
/// limit, at most `limit` otherwise.
pub open spec fn limit_cap(limit: i64, n: nat) -> int {
    if limit < 0 {
        n as int
    } else if limit as int <= n as int {
        limit as int
    } else {
        n as int
    }
}

/// How many rows the recent-activity listing returns: at most twenty.
pub open spec fn recent_cap(n: nat) -> int {
    if n < 20 {
        n as int
    } else {
        20
    }
}

/// The maximum accepted attachment size, in bytes.
pub const MAX_ATTACHMENT_BYTES: i64 = 5242880;

/// Replacing a row by one with the same id preserves uniqueness and bounds.
pub proof fn lemma_update_row<T: HasId>(pre: Seq<T>, i: int, x: T, bound: i64)
    requires
        0 <= i < pre.len(),
        x.rid() == pre[i].rid(),
        ids_unique(pre),
        ids_bounded(pre, bound),
    ensures
        ids_unique(pre.update(i, x)),
        ids_bounded(pre.update(i, x), bound),
{
    let post = pre.update(i, x);
    assert forall|a: int| 0 <= a < post.len() implies #[trigger] post[a].rid() == pre[a].rid() by {
        if a != i {
            assert(post[a] == pre[a]);
        }
    }
    assert forall|a: int, b: int| 0 <= a < b < post.len() implies #[trigger] post[a].rid()
        != #[trigger] post[b].rid() by {
        assert(post[a].rid() == pre[a].rid() && post[b].rid() == pre[b].rid());
        assert(pre[a].rid() != pre[b].rid());
    }
    assert forall|a: int| 0 <= a < post.len() implies 1 <= #[trigger] post[a].rid() < bound by {
        assert(post[a].rid() == pre[a].rid());
        assert(1 <= pre[a].rid() < bound);
    }
}

/// Copies of child rows, value for value.
fn clone_child_rows<T: ChildRow>(v: &Vec<T>) -> (r: Vec<T>)
    ensures
        r@ == v@,
{
    let mut r: Vec<T> = Vec::new();
    let mut i: usize = 0;
    while i < v.len()
        invariant
            i <= v@.len(),
            r@ == v@.take(i as int),
        decreases v@.len() - i,
    {
        r.push(v[i].row_clone());
        proof {
            assert(v@.take(i + 1) =~= v@.take(i as int).push(v@[i as int]));
        }
        i = i + 1;
    }
    proof {
        assert(v@.take(v@.len() as int) =~= v@);
    }
    r
}

/// Rows that can rebuild a table: unique ids, each positive and leaving
/// room in the auto-increment counter for at least one further row.
pub open spec fn rows_loadable<T: HasId>(s: Seq<T>) -> bool {
    ids_unique(s) && forall|i: int| 0 <= i < s.len() ==> 1 <= (#[trigger] s[i]).rid() <= i64::MAX
        - 2
}

/// Whether the rows can rebuild a table.
fn check_rows<T: HasId>(v: &Vec<T>) -> (r: bool)
    ensures
        r == rows_loadable(v@),
{
    let mut i: usize = 0;
    while i < v.len()
        invariant
            i <= v@.len(),
            forall|a: int| 0 <= a < i ==> 1 <= (#[trigger] v@[a]).rid() <= i64::MAX - 2,
            forall|a: int, b: int|
                0 <= a < b < i ==> #[trigger] v@[a].rid() != #[trigger] v@[b].rid(),
        decreases v@.len() - i,
    {
        let id = v[i].rid_exec();
        proof {
            assert(v@[i as int].rid() == id);
        }
        if id < 1 || id > i64::MAX - 2 {
            proof {
                assert(!(1 <= v@[i as int].rid() <= i64::MAX - 2));
            }
            return false;
        }
        let mut j: usize = 0;
        while j < i
            invariant
                j <= i < v@.len(),
                id == v@[i as int].rid(),
                forall|a: int| 0 <= a < j ==> #[trigger] v@[a].rid() != v@[i as int].rid(),
            decreases i - j,
        {
            if v[j].rid_exec() == id {
                proof {
                    assert(v@[j as int].rid() == v@[i as int].rid());
                }
                return false;
            }
            j = j + 1;
        }
        i = i + 1;
    }
    true
}

/// The auto-increment counter a rebuilt table resumes from: one past its
/// greatest id.
fn next_counter<T: HasId>(v: &Vec<T>) -> (r: i64)
    requires
        rows_loadable(v@),
    ensures
        ids_bounded(v@, r),
        1 <= r < i64::MAX,
{
    let mut m: i64 = 0;
    let mut i: usize = 0;
    while i < v.len()
        invariant
            i <= v@.len(),
            rows_loadable(v@),
            0 <= m <= i64::MAX - 2,
            forall|a: int| 0 <= a < i ==> (#[trigger] v@[a]).rid() <= m,
        decreases v@.len() - i,
    {
        let id = v[i].rid_exec();
        if id > m {
            m = id;
        }
        i = i + 1;
    }
    m + 1
}

/// Copies of project rows with their links collections stripped.
fn strip_rows(v: &Vec<Project>) -> (r: Vec<Project>)
    ensures
        r@.len() == v@.len(),
        forall|i: int| 0 <= i < v@.len() ==> #[trigger] r@[i] == strip(v@[i]),
{
    let mut r: Vec<Project> = Vec::new();
    let mut i: usize = 0;
    while i < v.len()
        invariant
            i <= v@.len(),
            r@.len() == i,
            forall|k: int| 0 <= k < i ==> #[trigger] r@[k] == strip(v@[k]),
        decreases v@.len() - i,
    {
        r.push(v[i].row_copy());
        i = i + 1;
    }
    r
}

impl Store {
    /// Rebuilds a store from the rows of a persisted database: the tables
    /// are taken as given (project rows stripped of any attached links
    /// collection) and each counter resumes past its table's greatest id.
    /// Duplicate, non-positive or counter-exhausting ids are rejected.
    pub fn rehydrate(
        projects: Vec<Project>,
        links: Vec<ProjectLink>,
        attachments: Vec<ProjectAttachment>,
        journal: Vec<JournalEntry>,
        todos: Vec<ProjectTodo>,
        activities: Vec<ProjectActivity>,
    ) -> (r: Result<Store, AppError>)
        ensures
            r matches Ok(s) ==> {
                &&& s.wf()
                &&& s.projects@.len() == projects@.len()
                &&& forall|i: int|
                    0 <= i < projects@.len() ==> #[trigger] s.projects@[i] == strip(projects@[i])
                &&& s.links@ == links@
                &&& s.attachments@ == attachments@
                &&& s.journal@ == journal@
                &&& s.todos@ == todos@
                &&& s.activities@ == activities@
                &&& s.next_project_id < i64::MAX
                &&& s.next_link_id < i64::MAX
                &&& s.next_attachment_id < i64::MAX
                &&& s.next_journal_id < i64::MAX
                &&& s.next_todo_id < i64::MAX
                &&& s.next_activity_id < i64::MAX
            },
            r matches Err(e) ==> e == AppError::StorageIo,
            (r is Err) == !(rows_loadable(projects@) && rows_loadable(links@) && rows_loadable(
                attachments@,
            ) && rows_loadable(journal@) && rows_loadable(todos@) && rows_loadable(activities@)),
    {
        if !check_rows(&projects) || !check_rows(&links) || !check_rows(&attachments)
            || !check_rows(&journal) || !check_rows(&todos) || !check_rows(&activities) {
            return Err(AppError::StorageIo);
        }
        let next_project_id = next_counter(&projects);
        let next_link_id = next_counter(&links);
        let next_attachment_id = next_counter(&attachments);
        let next_journal_id = next_counter(&journal);
        let next_todo_id = next_counter(&todos);
        let next_activity_id = next_counter(&activities);
        let stripped = strip_rows(&projects);
        proof {
            assert forall|a: int, b: int|
                0 <= a < b < stripped@.len() implies #[trigger] stripped@[a].rid()
                != #[trigger] stripped@[b].rid() by {
                assert(stripped@[a] == strip(projects@[a]) && stripped@[b] == strip(projects@[b]));
                assert(projects@[a].rid() != projects@[b].rid());
            }
            assert forall|a: int| 0 <= a < stripped@.len() implies 1 <= (
            #[trigger] stripped@[a]).rid() < next_project_id && stripped@[a].links is None by {
                assert(stripped@[a] == strip(projects@[a]));
                assert(1 <= projects@[a].rid() < next_project_id);
            }
        }
        Ok(
            Store {
                projects: stripped,
                links,
                attachments,
                journal,
                todos,
                activities,
                next_project_id,
                next_link_id,
                next_attachment_id,
                next_journal_id,
                next_todo_id,
                next_activity_id,
            },
        )
    }
}

/// Membership test in a plain id list.
fn contains_i64(v: &Vec<i64>, x: i64) -> (r: bool)
    ensures
        r == v@.contains(x),
{
    let mut i: usize = 0;
    while i < v.len()
        invariant
            i <= v@.len(),
            forall|k: int| 0 <= k < i ==> v@[k] != x,
        decreases v@.len() - i,
    {
        if v[i] == x {
            return true;
        }
        i = i + 1;
    }
    false
}

} // verus!
