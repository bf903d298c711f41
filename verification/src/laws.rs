//! Laws relating separate operations of the library, proved over the same
//! specifications the operations' contracts use.
use vstd::prelude::*;

use crate::contact::{find_message, lemma_message_idx, message_idx, ContactMessage};
use crate::envelope::{page_slice, spec_total_pages};
use crate::project::{find_project, lemma_project_idx, project_idx, Project};
use crate::skill::{find_skill, lemma_skill_idx, skill_idx, Skill};

verus! {

/// Updating a row and then reading its id back yields exactly the merged
/// row: changed fields reflect the update, untouched positions keep their
/// rows. This is the project half of the partial-merge law; the update
/// operation's own contract pins the merged row's fields.
pub proof fn law_update_then_get_project(rows: Seq<Project>, i: int, p: Project)
    requires
        0 <= i < rows.len(),
        forall|j: int, k: int| 0 <= j < k < rows.len() ==> rows[j].id != rows[k].id,
        rows[i].id == p.id,
    ensures
        find_project(rows.update(i, p), p.id) == Some(p),
        forall|k: int| 0 <= k < rows.len() && k != i ==> rows.update(i, p)[k] == rows[k],
{
    let updated = rows.update(i, p);
    lemma_project_idx(updated, p.id);
    match project_idx(updated, p.id) {
        Some(j) => {
            if j != i {
                assert(updated[j] == rows[j]);
                assert(rows[j].id != rows[i].id);
            }
        },
        None => {
            assert(updated[i].id == p.id);
        },
    }
}

/// The skill half of the partial-merge law.
pub proof fn law_update_then_get_skill(rows: Seq<Skill>, i: int, s: Skill)
    requires
        0 <= i < rows.len(),
        forall|j: int, k: int| 0 <= j < k < rows.len() ==> rows[j].id != rows[k].id,
        rows[i].id == s.id,
    ensures
        find_skill(rows.update(i, s), s.id) == Some(s),
        forall|k: int| 0 <= k < rows.len() && k != i ==> rows.update(i, s)[k] == rows[k],
{
    let updated = rows.update(i, s);
    lemma_skill_idx(updated, s.id);
    match skill_idx(updated, s.id) {
        Some(j) => {
            if j != i {
                assert(updated[j] == rows[j]);
                assert(rows[j].id != rows[i].id);
            }
        },
        None => {
            assert(updated[i].id == s.id);
        },
    }
}

/// After a deletion, reading the deleted id back finds nothing, and every
/// other row survives. The deletion contract itself says that deleting a
/// missing id leaves the table unchanged and reports the miss.
pub proof fn law_delete_then_get_project(rows: Seq<Project>, i: int)
    requires
        0 <= i < rows.len(),
        forall|j: int, k: int| 0 <= j < k < rows.len() ==> rows[j].id != rows[k].id,
    ensures
        find_project(rows.remove(i), rows[i].id) is None,
        rows.remove(i).len() == rows.len() - 1,
{
    let id = rows[i].id;
    let remaining = rows.remove(i);
    lemma_project_idx(remaining, id);
    match project_idx(remaining, id) {
        Some(j) => {
            if j < i {
                assert(remaining[j] == rows[j]);
                assert(rows[j].id != rows[i].id);
            } else {
                assert(remaining[j] == rows[j + 1]);
                assert(rows[i].id != rows[j + 1].id);
            }
        },
        None => {},
    }
}

/// The skill half of the delete law.
pub proof fn law_delete_then_get_skill(rows: Seq<Skill>, i: int)
    requires
        0 <= i < rows.len(),
        forall|j: int, k: int| 0 <= j < k < rows.len() ==> rows[j].id != rows[k].id,
    ensures
        find_skill(rows.remove(i), rows[i].id) is None,
        rows.remove(i).len() == rows.len() - 1,
{
    let id = rows[i].id;
    let remaining = rows.remove(i);
    lemma_skill_idx(remaining, id);
    match skill_idx(remaining, id) {
        Some(j) => {
            if j < i {
                assert(remaining[j] == rows[j]);
                assert(rows[j].id != rows[i].id);
            } else {
                assert(remaining[j] == rows[j + 1]);
                assert(rows[i].id != rows[j + 1].id);
            }
        },
        None => {},
    }
}

/// The contact message half of the delete law.
pub proof fn law_delete_then_get_message(rows: Seq<ContactMessage>, i: int)
    requires
        0 <= i < rows.len(),
        forall|j: int, k: int| 0 <= j < k < rows.len() ==> rows[j].id != rows[k].id,
    ensures
        find_message(rows.remove(i), rows[i].id) is None,
        rows.remove(i).len() == rows.len() - 1,
{
    let id = rows[i].id;
    let remaining = rows.remove(i);
    lemma_message_idx(remaining, id);
    match message_idx(remaining, id) {
        Some(j) => {
            if j < i {
                assert(remaining[j] == rows[j]);
                assert(rows[j].id != rows[i].id);
            } else {
                assert(remaining[j] == rows[j + 1]);
                assert(rows[i].id != rows[j + 1].id);
            }
        },
        None => {},
    }
}

/// Pagination arithmetic: a page holds at most the page size asked for, and
/// the page count is the total divided by the size, rounded up -- the least
/// count of full pages covering the total.
pub proof fn law_pagination<T>(listing: Seq<T>, offset: int, size: int, total: int)
    requires
        offset >= 0,
        1 <= size,
        0 <= total,
    ensures
        page_slice(listing, offset, size).len() <= size,
        spec_total_pages(total, size) * size >= total,
        (spec_total_pages(total, size) - 1) * size < total,
{
    let tp = spec_total_pages(total, size);
    assert(tp * size >= total && (tp - 1) * size < total) by (nonlinear_arith)
        requires
            tp == (total + size - 1) / size,
            1 <= size,
            0 <= total,
    ;
}

} // verus!
