//! The mathematical model of the ledger.
//!
//! [`PlatformView`] is the ghost state every operation contract speaks of:
//! plain sequences, a derived map for the profile directory, and recursive
//! counting / searching functions over them. The lemmas at the end relate
//! the sequence representation to the derived map and to the counts.

use vstd::prelude::*;
use crate::types::{CourseView, EnrollmentView, ProfileView, ProposalView, RequestView, TokenConfig};

verus! {

/// One entry of the profile directory: an identity and its profile.
pub type StudentEntry = (Seq<u8>, ProfileView);

/// Ghost view of the whole platform state.
pub ghost struct PlatformView {
    /// Profile directory entries, in insertion order, keys pairwise distinct.
    pub students: Seq<StudentEntry>,
    /// Approved course catalog, ids pairwise distinct.
    pub courses: Seq<CourseView>,
    /// Enrollment ledger, (course, student) pairs pairwise distinct.
    pub enrollments: Seq<EnrollmentView>,
    /// Pending course requests, in insertion order.
    pub pending: Seq<RequestView>,
    /// Governance proposals, in insertion order.
    pub proposals: Seq<ProposalView>,
    /// Banned instructor identities, append-only, duplicates possible.
    pub banned: Seq<Seq<u8>>,
    /// Removed student identities, append-only, duplicates possible.
    pub removed: Seq<Seq<u8>>,
    /// The singleton token configuration.
    pub config: TokenConfig,
}

/// The profile directory as a map: later entries for the same key win.
pub open spec fn students_to_map(s: Seq<StudentEntry>) -> Map<Seq<u8>, ProfileView>
    decreases s.len(),
{
    if s.len() == 0 {
        Map::empty()
    } else {
        students_to_map(s.drop_last()).insert(s.last().0, s.last().1)
    }
}

/// No two directory entries share an identity.
pub open spec fn unique_student_keys(s: Seq<StudentEntry>) -> bool {
    forall|i: int, j: int| 0 <= i < j < s.len() ==> s[i].0 != s[j].0
}

/// No two catalog entries share a course id.
pub open spec fn unique_course_ids(s: Seq<CourseView>) -> bool {
    forall|i: int, j: int| 0 <= i < j < s.len() ==> s[i].id != s[j].id
}

/// Whether an enrollment record is the one for the given (course, student) pair.
pub open spec fn enr_matches(e: EnrollmentView, course_id: u64, student: Seq<u8>) -> bool {
    e.course_id == course_id && e.student == student
}

/// No two enrollment records share a (course, student) pair.
pub open spec fn unique_enrollment_pairs(s: Seq<EnrollmentView>) -> bool {
    forall|i: int, j: int|
        0 <= i < j < s.len() ==> !(s[i].course_id == s[j].course_id && s[i].student == s[j].student)
}

/// Whether an identity stands on a moderation list.
pub open spec fn id_listed(s: Seq<Seq<u8>>, id: Seq<u8>) -> bool {
    exists|i: int| 0 <= i < s.len() && s[i] == id
}

/// Index of the first directory entry for `id` from position `i` on, or -1.
pub open spec fn first_student_from(s: Seq<StudentEntry>, id: Seq<u8>, i: int) -> int
    decreases s.len() - i,
{
    if i < 0 || i >= s.len() {
        -1
    } else if s[i].0 == id {
        i
    } else {
        first_student_from(s, id, i + 1)
    }
}

/// Index of the first enrollment for the pair from position `i` on, or -1.
pub open spec fn first_enr_from(s: Seq<EnrollmentView>, course_id: u64, student: Seq<u8>, i: int) -> int
    decreases s.len() - i,
{
    if i < 0 || i >= s.len() {
        -1
    } else if enr_matches(s[i], course_id, student) {
        i
    } else {
        first_enr_from(s, course_id, student, i + 1)
    }
}

/// Index of the first catalog entry with `id` from position `i` on, or -1.
pub open spec fn first_course_from(s: Seq<CourseView>, id: u64, i: int) -> int
    decreases s.len() - i,
{
    if i < 0 || i >= s.len() {
        -1
    } else if s[i].id == id {
        i
    } else {
        first_course_from(s, id, i + 1)
    }
}

/// Index of the first pending request with `id` from position `i` on, or -1.
pub open spec fn first_request_from(s: Seq<RequestView>, id: u64, i: int) -> int
    decreases s.len() - i,
{
    if i < 0 || i >= s.len() {
        -1
    } else if s[i].id == id {
        i
    } else {
        first_request_from(s, id, i + 1)
    }
}

/// How many enrollment records carry the given (course, student) pair.
pub open spec fn count_enr(s: Seq<EnrollmentView>, course_id: u64, student: Seq<u8>) -> nat
    decreases s.len(),
{
    if s.len() == 0 {
        0
    } else {
        count_enr(s.drop_last(), course_id, student) + (if enr_matches(
            s.last(),
            course_id,
            student,
        ) {
            1nat
        } else {
            0nat
        })
    }
}

/// How many enrollment records have a pass outcome.
pub open spec fn count_passed(s: Seq<EnrollmentView>) -> nat
    decreases s.len(),
{
    if s.len() == 0 {
        0
    } else {
        count_passed(s.drop_last()) + (if s.last().passed == Some(true) {
            1nat
        } else {
            0nat
        })
    }
}

/// How many catalog entries carry the given id.
pub open spec fn count_course(s: Seq<CourseView>, id: u64) -> nat
    decreases s.len(),
{
    if s.len() == 0 {
        0
    } else {
        count_course(s.drop_last(), id) + (if s.last().id == id {
            1nat
        } else {
            0nat
        })
    }
}

/// Whether some enrollment record carries the given (course, student) pair.
pub open spec fn has_enr(s: Seq<EnrollmentView>, course_id: u64, student: Seq<u8>) -> bool {
    exists|i: int| 0 <= i < s.len() && enr_matches(s[i], course_id, student)
}

/// The catalog entries taught by the given instructor, in catalog order.
pub open spec fn courses_of(s: Seq<CourseView>, instructor: Seq<u8>) -> Seq<CourseView>
    decreases s.len(),
{
    if s.len() == 0 {
        Seq::empty()
    } else if s.last().instructor == instructor {
        courses_of(s.drop_last(), instructor).push(s.last())
    } else {
        courses_of(s.drop_last(), instructor)
    }
}

/// The enrollment records for the given course, in ledger order.
pub open spec fn enrollments_of_course(s: Seq<EnrollmentView>, course_id: u64) -> Seq<EnrollmentView>
    decreases s.len(),
{
    if s.len() == 0 {
        Seq::empty()
    } else if s.last().course_id == course_id {
        enrollments_of_course(s.drop_last(), course_id).push(s.last())
    } else {
        enrollments_of_course(s.drop_last(), course_id)
    }
}

/// The course a request turns into on approval.
pub open spec fn course_of_request(r: RequestView) -> CourseView {
    CourseView { id: r.id, title: r.title, description: r.description, instructor: r.instructor }
}

/// Catalog after inserting a course: an entry with the same id is replaced,
/// otherwise the course is appended.
pub open spec fn upsert_course(s: Seq<CourseView>, c: CourseView) -> Seq<CourseView> {
    let k = first_course_from(s, c.id, 0);
    if k >= 0 {
        s.update(k, c)
    } else {
        s.push(c)
    }
}

/// The same enrollment record with its outcome set.
pub open spec fn with_outcome(e: EnrollmentView, pass: bool) -> EnrollmentView {
    EnrollmentView {
        course_id: e.course_id,
        student: e.student,
        student_name: e.student_name,
        roll_no: e.roll_no,
        passed: Some(pass),
    }
}

/// The fresh enrollment record a successful enrollment appends.
pub open spec fn new_enrollment(course_id: u64, student: Seq<u8>, p: ProfileView) -> EnrollmentView {
    EnrollmentView {
        course_id: course_id,
        student: student,
        student_name: p.name,
        roll_no: p.roll_no,
        passed: None,
    }
}

impl PlatformView {
    /// Structural invariant of the ledger: the keyed collections hold at
    /// most one entry per key.
    pub open spec fn wf(self) -> bool {
        &&& unique_student_keys(self.students)
        &&& unique_course_ids(self.courses)
        &&& unique_enrollment_pairs(self.enrollments)
    }

    /// The profile directory as a map from identity to profile.
    pub open spec fn students_map(self) -> Map<Seq<u8>, ProfileView> {
        students_to_map(self.students)
    }
}

/// A negative search result means no entry from `i` on carries the key;
/// a non-negative one points at the first such entry.
pub proof fn lemma_first_student_from_char(s: Seq<StudentEntry>, id: Seq<u8>, i: int)
    requires
        0 <= i <= s.len(),
    ensures
        first_student_from(s, id, i) == -1 || first_student_from(s, id, i) >= 0,
        first_student_from(s, id, i) == -1 ==> forall|j: int| i <= j < s.len() ==> s[j].0 != id,
        first_student_from(s, id, i) >= 0 ==> {
            let r = first_student_from(s, id, i);
            &&& i <= r < s.len()
            &&& s[r].0 == id
            &&& forall|j: int| i <= j < r ==> s[j].0 != id
        },
    decreases s.len() - i,
{
    if i < s.len() && s[i].0 != id {
        lemma_first_student_from_char(s, id, i + 1);
    }
}

/// Same characterization for the enrollment search.
pub proof fn lemma_first_enr_from_char(s: Seq<EnrollmentView>, c: u64, st: Seq<u8>, i: int)
    requires
        0 <= i <= s.len(),
    ensures
        first_enr_from(s, c, st, i) == -1 || first_enr_from(s, c, st, i) >= 0,
        first_enr_from(s, c, st, i) == -1 ==> forall|j: int|
            i <= j < s.len() ==> !enr_matches(s[j], c, st),
        first_enr_from(s, c, st, i) >= 0 ==> {
            let r = first_enr_from(s, c, st, i);
            &&& i <= r < s.len()
            &&& enr_matches(s[r], c, st)
            &&& forall|j: int| i <= j < r ==> !enr_matches(s[j], c, st)
        },
    decreases s.len() - i,
{
    if i < s.len() && !enr_matches(s[i], c, st) {
        lemma_first_enr_from_char(s, c, st, i + 1);
    }
}

/// Same characterization for the catalog search.
pub proof fn lemma_first_course_from_char(s: Seq<CourseView>, id: u64, i: int)
    requires
        0 <= i <= s.len(),
    ensures
        first_course_from(s, id, i) == -1 || first_course_from(s, id, i) >= 0,
        first_course_from(s, id, i) == -1 ==> forall|j: int| i <= j < s.len() ==> s[j].id != id,
        first_course_from(s, id, i) >= 0 ==> {
            let r = first_course_from(s, id, i);
            &&& i <= r < s.len()
            &&& s[r].id == id
            &&& forall|j: int| i <= j < r ==> s[j].id != id
        },
    decreases s.len() - i,
{
    if i < s.len() && s[i].id != id {
        lemma_first_course_from_char(s, id, i + 1);
    }
}

/// Same characterization for the request-queue search.
pub proof fn lemma_first_request_from_char(s: Seq<RequestView>, id: u64, i: int)
    requires
        0 <= i <= s.len(),
    ensures
        first_request_from(s, id, i) == -1 || first_request_from(s, id, i) >= 0,
        first_request_from(s, id, i) == -1 ==> forall|j: int| i <= j < s.len() ==> s[j].id != id,
        first_request_from(s, id, i) >= 0 ==> {
            let r = first_request_from(s, id, i);
            &&& i <= r < s.len()
            &&& s[r].id == id
            &&& forall|j: int| i <= j < r ==> s[j].id != id
        },
    decreases s.len() - i,
{
    if i < s.len() && s[i].id != id {
        lemma_first_request_from_char(s, id, i + 1);
    }
}

/// The derived map holds a key exactly when some directory entry carries it.
pub proof fn lemma_smap_contains(s: Seq<StudentEntry>, id: Seq<u8>)
    ensures
        students_to_map(s).contains_key(id) <==> exists|k: int| 0 <= k < s.len() && s[k].0 == id,
    decreases s.len(),
{
    if s.len() > 0 {
        lemma_smap_contains(s.drop_last(), id);
        if s.last().0 == id {
            assert(s[s.len() - 1].0 == id);
        } else if students_to_map(s.drop_last()).contains_key(id) {
            let k = choose|k: int| 0 <= k < s.drop_last().len() && s.drop_last()[k].0 == id;
            assert(s[k].0 == id);
        } else if exists|k: int| 0 <= k < s.len() && s[k].0 == id {
            let k = choose|k: int| 0 <= k < s.len() && s[k].0 == id;
            assert(k < s.len() - 1);
            assert(s.drop_last()[k].0 == id);
        }
    }
}

/// With distinct keys, each directory entry is what the map returns for it.
pub proof fn lemma_smap_index(s: Seq<StudentEntry>, i: int)
    requires
        unique_student_keys(s),
        0 <= i < s.len(),
    ensures
        students_to_map(s).contains_key(s[i].0),
        students_to_map(s)[s[i].0] == s[i].1,
    decreases s.len(),
{
    if i == s.len() - 1 {
        assert(s.last() == s[i]);
    } else {
        assert(unique_student_keys(s.drop_last()));
        assert(s.drop_last()[i] == s[i]);
        lemma_smap_index(s.drop_last(), i);
        assert(s[i].0 != s.last().0);
    }
}

/// Replacing the profile of the entry at `i` is, on the map, an insert at
/// that entry's key.
pub proof fn lemma_smap_update(s: Seq<StudentEntry>, i: int, p: ProfileView)
    requires
        unique_student_keys(s),
        0 <= i < s.len(),
    ensures
        students_to_map(s.update(i, (s[i].0, p))) == students_to_map(s).insert(s[i].0, p),
    decreases s.len(),
{
    let s2 = s.update(i, (s[i].0, p));
    if i == s.len() - 1 {
        assert(s2.drop_last() =~= s.drop_last());
        assert(s2.last() == (s[i].0, p));
        assert(students_to_map(s2) == students_to_map(s.drop_last()).insert(s[i].0, p));
        assert(students_to_map(s).insert(s[i].0, p) =~= students_to_map(s.drop_last()).insert(
            s[i].0,
            p,
        ));
    } else {
        assert(unique_student_keys(s.drop_last()));
        assert(s2.drop_last() =~= s.drop_last().update(i, (s.drop_last()[i].0, p)));
        assert(s2.last() == s.last());
        lemma_smap_update(s.drop_last(), i, p);
        assert(s[i].0 != s.last().0);
        assert(students_to_map(s2) == students_to_map(s.drop_last()).insert(s[i].0, p).insert(
            s.last().0,
            s.last().1,
        ));
        assert(students_to_map(s.drop_last()).insert(s[i].0, p).insert(s.last().0, s.last().1)
            =~= students_to_map(s.drop_last()).insert(s.last().0, s.last().1).insert(s[i].0, p));
    }
}

/// Appending a directory entry is, on the map, an insert.
pub proof fn lemma_smap_push(s: Seq<StudentEntry>, id: Seq<u8>, p: ProfileView)
    ensures
        students_to_map(s.push((id, p))) == students_to_map(s).insert(id, p),
{
    assert(s.push((id, p)).drop_last() =~= s);
    assert(s.push((id, p)).last() == (id, p));
}

/// With distinct keys, the map is as large as the directory.
pub proof fn lemma_smap_len(s: Seq<StudentEntry>)
    requires
        unique_student_keys(s),
    ensures
        students_to_map(s).dom().finite(),
        students_to_map(s).len() == s.len(),
    decreases s.len(),
{
    if s.len() == 0 {
        assert(students_to_map(s).dom() =~= Set::<Seq<u8>>::empty());
    } else {
        assert(unique_student_keys(s.drop_last()));
        lemma_smap_len(s.drop_last());
        lemma_smap_contains(s.drop_last(), s.last().0);
        assert(forall|k: int|
            0 <= k < s.len() - 1 ==> s.drop_last()[k] == s[k] && s[k].0 != s[s.len() - 1].0);
        assert(!students_to_map(s.drop_last()).contains_key(s.last().0));
    }
}

/// Concatenation splits the pair count.
pub proof fn lemma_count_enr_concat(a: Seq<EnrollmentView>, b: Seq<EnrollmentView>, c: u64, st: Seq<u8>)
    ensures
        count_enr(a + b, c, st) == count_enr(a, c, st) + count_enr(b, c, st),
    decreases b.len(),
{
    if b.len() == 0 {
        assert(a + b =~= a);
    } else {
        lemma_count_enr_concat(a, b.drop_last(), c, st);
        assert((a + b).drop_last() =~= a + b.drop_last());
        assert((a + b).last() == b.last());
    }
}

/// The pair count is zero exactly when no record matches.
pub proof fn lemma_count_enr_zero(s: Seq<EnrollmentView>, c: u64, st: Seq<u8>)
    ensures
        (count_enr(s, c, st) == 0) <==> (forall|j: int|
            0 <= j < s.len() ==> !enr_matches(s[j], c, st)),
    decreases s.len(),
{
    if s.len() > 0 {
        lemma_count_enr_zero(s.drop_last(), c, st);
        assert(forall|j: int| 0 <= j < s.len() - 1 ==> s.drop_last()[j] == s[j]);
        assert(s.last() == s[s.len() - 1]);
    }
}

/// Appending a record adjusts the pair count by whether it matches.
pub proof fn lemma_count_enr_push(s: Seq<EnrollmentView>, e: EnrollmentView, c: u64, st: Seq<u8>)
    ensures
        count_enr(s.push(e), c, st) == count_enr(s, c, st) + (if enr_matches(e, c, st) {
            1nat
        } else {
            0nat
        }),
{
    assert(s.push(e).drop_last() =~= s);
    assert(s.push(e).last() == e);
}

/// Removing the record at `i` adjusts the pair count by whether it matched.
pub proof fn lemma_count_enr_remove(s: Seq<EnrollmentView>, i: int, c: u64, st: Seq<u8>)
    requires
        0 <= i < s.len(),
    ensures
        count_enr(s.remove(i), c, st) == count_enr(s, c, st) - (if enr_matches(s[i], c, st) {
            1nat
        } else {
            0nat
        }),
{
    let pre = s.subrange(0, i);
    let at = s.subrange(i, i + 1);
    let post = s.subrange(i + 1, s.len() as int);
    assert(s =~= pre + at + post);
    assert(s.remove(i) =~= pre + post);
    lemma_count_enr_concat(pre + at, post, c, st);
    lemma_count_enr_concat(pre, at, c, st);
    lemma_count_enr_concat(pre, post, c, st);
    assert(at.drop_last() =~= Seq::<EnrollmentView>::empty());
    assert(at.last() == s[i]);
    assert(count_enr(Seq::<EnrollmentView>::empty(), c, st) == 0);
    assert(at.len() == 1);
    assert(count_enr(at, c, st) == (if enr_matches(s[i], c, st) {
        1nat
    } else {
        0nat
    }));
}

/// Replacing a record with one for the same pair keeps every pair count.
pub proof fn lemma_count_enr_update_same_pair(
    s: Seq<EnrollmentView>,
    i: int,
    e: EnrollmentView,
    c: u64,
    st: Seq<u8>,
)
    requires
        0 <= i < s.len(),
        e.course_id == s[i].course_id,
        e.student == s[i].student,
    ensures
        count_enr(s.update(i, e), c, st) == count_enr(s, c, st),
    decreases s.len(),
{
    let s2 = s.update(i, e);
    if i == s.len() - 1 {
        assert(s2.drop_last() =~= s.drop_last());
        assert(s2.last() == e);
        assert(enr_matches(e, c, st) == enr_matches(s[i], c, st));
    } else {
        assert(s2.drop_last() =~= s.drop_last().update(i, e));
        assert(s2.last() == s.last());
        assert(s.drop_last()[i] == s[i]);
        lemma_count_enr_update_same_pair(s.drop_last(), i, e, c, st);
    }
}

/// With distinct pairs, no pair is counted more than once.
pub proof fn lemma_unique_pairs_count_le_one(s: Seq<EnrollmentView>, c: u64, st: Seq<u8>)
    requires
        unique_enrollment_pairs(s),
    ensures
        count_enr(s, c, st) <= 1,
    decreases s.len(),
{
    if s.len() > 0 {
        assert(unique_enrollment_pairs(s.drop_last()));
        lemma_unique_pairs_count_le_one(s.drop_last(), c, st);
        if enr_matches(s.last(), c, st) {
            assert(forall|j: int|
                0 <= j < s.len() - 1 ==> !enr_matches(#[trigger] s.drop_last()[j], c, st)) by {
                assert(forall|j: int|
                    0 <= j < s.len() - 1 ==> !(#[trigger] s[j].course_id == s[s.len() - 1].course_id
                        && s[j].student == s[s.len() - 1].student));
            }
            lemma_count_enr_zero(s.drop_last(), c, st);
        }
    }
}

/// One loop step of counting passed records in a prefix.
pub proof fn lemma_count_passed_take_step(s: Seq<EnrollmentView>, i: int)
    requires
        0 <= i < s.len(),
    ensures
        count_passed(s.take(i + 1)) == count_passed(s.take(i)) + (if s[i].passed == Some(true) {
            1nat
        } else {
            0nat
        }),
{
    assert(s.take(i + 1).drop_last() =~= s.take(i));
    assert(s.take(i + 1).last() == s[i]);
}

/// The catalog-id count is zero exactly when no entry carries the id.
pub proof fn lemma_count_course_zero(s: Seq<CourseView>, id: u64)
    ensures
        (count_course(s, id) == 0) <==> (forall|j: int| 0 <= j < s.len() ==> s[j].id != id),
    decreases s.len(),
{
    if s.len() > 0 {
        lemma_count_course_zero(s.drop_last(), id);
        assert(forall|j: int| 0 <= j < s.len() - 1 ==> s.drop_last()[j] == s[j]);
        assert(s.last() == s[s.len() - 1]);
    }
}

/// Appending a course adjusts the id count by whether it carries the id.
pub proof fn lemma_count_course_push(s: Seq<CourseView>, c: CourseView, id: u64)
    ensures
        count_course(s.push(c), id) == count_course(s, id) + (if c.id == id {
            1nat
        } else {
            0nat
        }),
{
    assert(s.push(c).drop_last() =~= s);
    assert(s.push(c).last() == c);
}

/// Replacing an entry with one of the same id keeps every id count.
pub proof fn lemma_count_course_update_same_id(s: Seq<CourseView>, i: int, c: CourseView, id: u64)
    requires
        0 <= i < s.len(),
        c.id == s[i].id,
    ensures
        count_course(s.update(i, c), id) == count_course(s, id),
    decreases s.len(),
{
    let s2 = s.update(i, c);
    if i == s.len() - 1 {
        assert(s2.drop_last() =~= s.drop_last());
        assert(s2.last() == c);
    } else {
        assert(s2.drop_last() =~= s.drop_last().update(i, c));
        assert(s2.last() == s.last());
        assert(s.drop_last()[i] == s[i]);
        lemma_count_course_update_same_id(s.drop_last(), i, c, id);
    }
}

/// With distinct ids, no id is counted more than once.
pub proof fn lemma_unique_course_count_le_one(s: Seq<CourseView>, id: u64)
    requires
        unique_course_ids(s),
    ensures
        count_course(s, id) <= 1,
    decreases s.len(),
{
    if s.len() > 0 {
        assert(unique_course_ids(s.drop_last()));
        lemma_unique_course_count_le_one(s.drop_last(), id);
        if s.last().id == id {
            assert(forall|j: int| 0 <= j < s.len() - 1 ==> s.drop_last()[j].id != id) by {
                assert(forall|j: int| 0 <= j < s.len() - 1 ==> (#[trigger] s[j].id) != s[s.len() - 1].id);
            }
            lemma_count_course_zero(s.drop_last(), id);
        }
    }
}

/// One loop step of collecting an instructor's courses from a prefix.
pub proof fn lemma_courses_of_take_step(s: Seq<CourseView>, instructor: Seq<u8>, i: int)
    requires
        0 <= i < s.len(),
    ensures
        courses_of(s.take(i + 1), instructor) == (if s[i].instructor == instructor {
            courses_of(s.take(i), instructor).push(s[i])
        } else {
            courses_of(s.take(i), instructor)
        }),
{
    assert(s.take(i + 1).drop_last() =~= s.take(i));
    assert(s.take(i + 1).last() == s[i]);
}

/// One loop step of collecting a course's enrollments from a prefix.
pub proof fn lemma_enrollments_of_course_take_step(s: Seq<EnrollmentView>, course_id: u64, i: int)
    requires
        0 <= i < s.len(),
    ensures
        enrollments_of_course(s.take(i + 1), course_id) == (if s[i].course_id == course_id {
            enrollments_of_course(s.take(i), course_id).push(s[i])
        } else {
            enrollments_of_course(s.take(i), course_id)
        }),
{
    assert(s.take(i + 1).drop_last() =~= s.take(i));
    assert(s.take(i + 1).last() == s[i]);
}

/// Removing a record keeps the remaining pairs distinct.
pub proof fn lemma_unique_pairs_remove(s: Seq<EnrollmentView>, i: int)
    requires
        unique_enrollment_pairs(s),
        0 <= i < s.len(),
    ensures
        unique_enrollment_pairs(s.remove(i)),
{
    let s2 = s.remove(i);
    assert(forall|j: int| 0 <= j < i ==> s2[j] == s[j]);
    assert(forall|j: int| i <= j < s2.len() ==> s2[j] == s[j + 1]);
}

/// Inserting into a catalog with distinct ids leaves exactly one entry with
/// the new course's id — the new course itself — keeps every other entry,
/// and keeps the ids distinct.
pub proof fn lemma_upsert_course(s: Seq<CourseView>, c: CourseView)
    requires
        unique_course_ids(s),
    ensures
        unique_course_ids(upsert_course(s, c)),
        count_course(upsert_course(s, c), c.id) == 1,
        exists|i: int|
            0 <= i < upsert_course(s, c).len() && #[trigger] upsert_course(s, c)[i] == c,
        forall|i: int|
            0 <= i < upsert_course(s, c).len() && #[trigger] upsert_course(s, c)[i].id != c.id
                ==> 0 <= i < s.len() && upsert_course(s, c)[i] == s[i],
{
    let k = first_course_from(s, c.id, 0);
    lemma_first_course_from_char(s, c.id, 0);
    if k >= 0 {
        let s2 = s.update(k, c);
        assert(s[k].id == c.id);
        assert(forall|i: int| 0 <= i < s2.len() ==> (#[trigger] s2[i]).id == s[i].id);
        assert(unique_course_ids(s2));
        lemma_count_course_update_same_id(s, k, c, c.id);
        lemma_unique_course_count_le_one(s, c.id);
        assert(count_course(s, c.id) != 0) by {
            lemma_count_course_zero(s, c.id);
        }
        assert(s2[k] == c);
    } else {
        let s2 = s.push(c);
        assert(forall|j: int| 0 <= j < s.len() ==> (#[trigger] s[j].id) != c.id);
        assert(forall|i: int| 0 <= i < s.len() ==> s2[i] == s[i]);
        assert(s2[s.len() as int] == c);
        assert(unique_course_ids(s2));
        lemma_count_course_push(s, c, c.id);
        assert(count_course(s, c.id) == 0) by {
            lemma_count_course_zero(s, c.id);
        }
    }
}

} // verus!
