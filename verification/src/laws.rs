//! Laws relating several operations.
//!
//! Each proof function here states, over the ghost model, a property that
//! spans more than one platform operation; together with the operations'
//! own contracts it pins the behaviour of the corresponding call sequence
//! for every input.

use vstd::prelude::*;
use crate::model::{
    count_enr, enr_matches, first_enr_from, has_enr, lemma_count_enr_push, lemma_count_enr_remove,
    lemma_count_enr_update_same_pair, lemma_count_enr_zero, lemma_first_enr_from_char,
    lemma_unique_pairs_count_le_one, new_enrollment, unique_enrollment_pairs, with_outcome,
};
use crate::types::{EnrollmentView, ProfileView};

verus! {

/// Storing a profile twice for the same identity leaves exactly the second
/// profile: the directory map after both updates equals the one where only
/// the second was stored, and the identity's entry is the second profile.
pub proof fn lemma_profile_last_write_wins(
    m: Map<Seq<u8>, ProfileView>,
    id: Seq<u8>,
    p1: ProfileView,
    p2: ProfileView,
)
    ensures
        m.insert(id, p1).insert(id, p2) == m.insert(id, p2),
        m.insert(id, p1).insert(id, p2)[id] == p2,
{
    assert(m.insert(id, p1).insert(id, p2) =~= m.insert(id, p2));
}

/// After a first successful enrollment the (course, student) pair is
/// present — so a second attempt reports "already enrolled" and changes
/// nothing, by the enrollment contract — and the ledger holds exactly one
/// record for the pair.
pub proof fn lemma_enroll_is_exclusive(
    e: Seq<EnrollmentView>,
    course_id: u64,
    student: Seq<u8>,
    p: ProfileView,
)
    requires
        !has_enr(e, course_id, student),
    ensures
        has_enr(e.push(new_enrollment(course_id, student, p)), course_id, student),
        count_enr(e.push(new_enrollment(course_id, student, p)), course_id, student) == 1,
{
    let ne = new_enrollment(course_id, student, p);
    let e2 = e.push(ne);
    lemma_count_enr_push(e, ne, course_id, student);
    lemma_count_enr_zero(e, course_id, student);
    assert(enr_matches(e2[e.len() as int], course_id, student));
}

/// Dropping out deletes the pair's only record, and enrolling again then
/// recreates exactly one record, whose outcome is unset.
pub proof fn lemma_drop_then_enroll(
    e: Seq<EnrollmentView>,
    k: int,
    course_id: u64,
    student: Seq<u8>,
    p: ProfileView,
)
    requires
        unique_enrollment_pairs(e),
        0 <= k < e.len(),
        enr_matches(e[k], course_id, student),
    ensures
        !has_enr(e.remove(k), course_id, student),
        count_enr(
            e.remove(k).push(new_enrollment(course_id, student, p)),
            course_id,
            student,
        ) == 1,
        e.remove(k).push(new_enrollment(course_id, student, p)).last().passed == None::<bool>,
{
    lemma_unique_pairs_count_le_one(e, course_id, student);
    lemma_count_enr_zero(e, course_id, student);
    assert(count_enr(e, course_id, student) == 1);
    lemma_count_enr_remove(e, k, course_id, student);
    lemma_count_enr_zero(e.remove(k), course_id, student);
    lemma_count_enr_push(e.remove(k), new_enrollment(course_id, student, p), course_id, student);
}

/// If a record matches the pair at `k` and none does before, `k` is the
/// index the search finds.
pub proof fn lemma_first_enr_is(
    s: Seq<EnrollmentView>,
    course_id: u64,
    student: Seq<u8>,
    k: int,
)
    requires
        0 <= k < s.len(),
        enr_matches(s[k], course_id, student),
        forall|j: int| 0 <= j < k ==> !enr_matches(#[trigger] s[j], course_id, student),
    ensures
        first_enr_from(s, course_id, student, 0) == k,
{
    lemma_first_enr_from_char(s, course_id, student, 0);
}

/// Marking a pass and then a fail for the same (course, student) touches
/// the same single record both times and leaves exactly one record for the
/// pair, whose outcome is fail.
pub proof fn lemma_mark_pass_then_fail(
    e: Seq<EnrollmentView>,
    course_id: u64,
    student: Seq<u8>,
)
    requires
        unique_enrollment_pairs(e),
        first_enr_from(e, course_id, student, 0) >= 0,
    ensures
        ({
            let k = first_enr_from(e, course_id, student, 0);
            let e1 = e.update(k, with_outcome(e[k], true));
            &&& first_enr_from(e1, course_id, student, 0) == k
            &&& {
                let e2 = e1.update(k, with_outcome(e1[k], false));
                &&& count_enr(e2, course_id, student) == 1
                &&& e2[k].passed == Some(false)
                &&& e2.len() == e.len()
            }
        }),
{
    let k = first_enr_from(e, course_id, student, 0);
    lemma_first_enr_from_char(e, course_id, student, 0);
    let e1 = e.update(k, with_outcome(e[k], true));
    assert(forall|j: int| 0 <= j < k ==> !enr_matches(#[trigger] e1[j], course_id, student));
    assert(enr_matches(e1[k], course_id, student));
    lemma_first_enr_is(e1, course_id, student, k);
    let e2 = e1.update(k, with_outcome(e1[k], false));
    lemma_count_enr_update_same_pair(e, k, with_outcome(e[k], true), course_id, student);
    lemma_count_enr_update_same_pair(e1, k, with_outcome(e1[k], false), course_id, student);
    lemma_unique_pairs_count_le_one(e, course_id, student);
    lemma_count_enr_zero(e, course_id, student);
    assert(count_enr(e, course_id, student) == 1);
}

} // verus!
