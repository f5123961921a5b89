use vstd::prelude::*;

use crate::models::{Project, UpdateProjectDTO};
use crate::order::{StoreOrd, seq_sorted};
use crate::store::{
    ChildRow, HasId, Store, apply_project_update, bump, has_row, ids_unique, lemma_filter_rows,
    lemma_row_index, pid_ne, row_at, strip,
};

verus! {

/// Reading a freshly created project back by its id yields the created
/// record unchanged, except that the read attaches the links collection:
/// `p` is the row that `create_project` returned and appended, and `got` is
/// any row satisfying the read contract for its id.
pub proof fn lemma_create_then_get(s: Store, p: Project, got: Project)
    requires
        s.wf(),
        s.projects@.len() > 0,
        s.projects@.last() == p,
        strip(got) == row_at(s.projects@, p.id),
    ensures
        strip(got) == strip(p),
{
    lemma_row_index(s.projects@, s.projects@.len() - 1, p.id);
    assert(row_at(s.projects@, p.id) == p);
    assert(p.links is None);
    assert(strip(p) == p);
}

/// A partial update writes exactly the supplied fields: every absent field
/// keeps its previous value byte for byte, every supplied field takes the
/// supplied value, and only the update timestamp moves besides them.
pub proof fn lemma_partial_update_exact(p: Project, u: UpdateProjectDTO, now: u64)
    ensures
        ({
            let q = apply_project_update(p, u, now);
            &&& u.name is None ==> q.name == p.name
            &&& u.name matches Option::Some(v) ==> q.name == v
            &&& u.description is None ==> q.description == p.description
            &&& u.description matches Option::Some(v) ==> q.description == v
            &&& u.local_path is None ==> q.local_path == p.local_path
            &&& u.local_path matches Option::Some(v) ==> q.local_path == v
            &&& u.documentation_url is None ==> q.documentation_url == p.documentation_url
            &&& u.documentation_url matches Option::Some(v) ==> q.documentation_url
                == Option::Some(v)
            &&& u.ai_documentation_url is None ==> q.ai_documentation_url == p.ai_documentation_url
            &&& u.ai_documentation_url matches Option::Some(v) ==> q.ai_documentation_url
                == Option::Some(v)
            &&& u.drive_link is None ==> q.drive_link == p.drive_link
            &&& u.drive_link matches Option::Some(v) ==> q.drive_link == Option::Some(v)
            &&& u.notes is None ==> q.notes == p.notes
            &&& u.notes matches Option::Some(v) ==> q.notes == Option::Some(v)
            &&& u.image_data is None ==> q.image_data == p.image_data
            &&& u.image_data matches Option::Some(v) ==> q.image_data == Option::Some(v)
            &&& q.updated_at == bump(p.updated_at, now)
            &&& q.id == p.id
            &&& q.created_at == p.created_at
            &&& q.links == p.links
            &&& q.last_opened_at == p.last_opened_at
            &&& q.opened_count == p.opened_count
            &&& q.total_time_seconds == p.total_time_seconds
            &&& q.status == p.status
            &&& q.status_changed_at == p.status_changed_at
            &&& q.is_pinned == p.is_pinned
            &&& q.pinned_order == p.pinned_order
        }),
{
}

/// After a cascade delete of one project, no child row that referenced it
/// can be found by its id: the filtered table has lost every such row.
pub proof fn lemma_cascade_removes_children<T: ChildRow>(pre: Seq<T>, post: Seq<T>, pid: i64)
    requires
        ids_unique(pre),
        post == pre.filter(pid_ne::<T>(pid)),
    ensures
        forall|j: int|
            0 <= j < pre.len() && (#[trigger] pre[j]).pid() == pid ==> !has_row(
                post,
                pre[j].rid(),
            ),
{
    lemma_filter_rows(pre, pid_ne::<T>(pid));
    assert forall|j: int| 0 <= j < pre.len() && (#[trigger] pre[j]).pid() == pid implies !has_row(
        post,
        pre[j].rid(),
    ) by {
        if has_row(post, pre[j].rid()) {
            let i = choose|i: int| 0 <= i < post.len() && #[trigger] post[i].rid() == pre[j].rid();
            pre.lemma_filter_pred(pid_ne::<T>(pid), i);
            assert(post[i].pid() != pid);
            assert(pre.contains(post[i]));
            let m = choose|m: int| 0 <= m < pre.len() && pre[m] == post[i];
            if m < j {
                assert(pre[m].rid() != pre[j].rid());
            } else if j < m {
                assert(pre[j].rid() != pre[m].rid());
            }
            assert(m == j);
            assert(pre[j].pid() != pid);
        }
    }
}

/// The whole cascade of one delete: after `delete_project(pid)`, looking up
/// any former child of the project by its id finds nothing, in every child
/// table at once.
pub proof fn lemma_delete_cascades(pre: Store, post: Store, pid: i64)
    requires
        pre.wf(),
        post.links@ == pre.links@.filter(pid_ne::<crate::models::ProjectLink>(pid)),
        post.attachments@ == pre.attachments@.filter(
            pid_ne::<crate::models::ProjectAttachment>(pid),
        ),
        post.journal@ == pre.journal@.filter(pid_ne::<crate::models::JournalEntry>(pid)),
        post.todos@ == pre.todos@.filter(pid_ne::<crate::models::ProjectTodo>(pid)),
        post.activities@ == pre.activities@.filter(pid_ne::<crate::models::ProjectActivity>(pid)),
    ensures
        forall|j: int|
            0 <= j < pre.links@.len() && (#[trigger] pre.links@[j]).pid() == pid ==> !has_row(
                post.links@,
                pre.links@[j].rid(),
            ),
        forall|j: int|
            0 <= j < pre.attachments@.len() && (#[trigger] pre.attachments@[j]).pid() == pid
                ==> !has_row(post.attachments@, pre.attachments@[j].rid()),
        forall|j: int|
            0 <= j < pre.journal@.len() && (#[trigger] pre.journal@[j]).pid() == pid ==> !has_row(
                post.journal@,
                pre.journal@[j].rid(),
            ),
        forall|j: int|
            0 <= j < pre.todos@.len() && (#[trigger] pre.todos@[j]).pid() == pid ==> !has_row(
                post.todos@,
                pre.todos@[j].rid(),
            ),
        forall|j: int|
            0 <= j < pre.activities@.len() && (#[trigger] pre.activities@[j]).pid() == pid
                ==> !has_row(post.activities@, pre.activities@[j].rid()),
{
    lemma_cascade_removes_children(pre.links@, post.links@, pid);
    lemma_cascade_removes_children(pre.attachments@, post.attachments@, pid);
    lemma_cascade_removes_children(pre.journal@, post.journal@, pid);
    lemma_cascade_removes_children(pre.todos@, post.todos@, pid);
    lemma_cascade_removes_children(pre.activities@, post.activities@, pid);
}

/// The listing order: pinned rows precede unpinned rows, pinned rows are
/// ascending in their manual order, and unpinned rows are descending in
/// their last update time.
pub proof fn lemma_listing_order(v: Seq<Project>)
    requires
        seq_sorted(v),
    ensures
        forall|i: int, j: int|
            0 <= i < j < v.len() ==> ((#[trigger] v[j]).is_pinned ==> (#[trigger] v[i]).is_pinned),
        forall|i: int, j: int|
            0 <= i < j < v.len() && (#[trigger] v[i]).is_pinned && (#[trigger] v[j]).is_pinned
                ==> v[i].pinned_order <= v[j].pinned_order,
        forall|i: int, j: int|
            0 <= i < j < v.len() && !(#[trigger] v[i]).is_pinned && !(#[trigger] v[j]).is_pinned
                ==> v[i].updated_at >= v[j].updated_at,
{
    assert forall|i: int, j: int| 0 <= i < j < v.len() implies ((#[trigger] v[j]).is_pinned ==> (
    #[trigger] v[i]).is_pinned) && (v[i].is_pinned && v[j].is_pinned ==> v[i].pinned_order
        <= v[j].pinned_order) && (!v[i].is_pinned && !v[j].is_pinned ==> v[i].updated_at
        >= v[j].updated_at) by {
        assert(v[i].le(v[j]));
    }
}

} // verus!
