//! The platform store and its verified operations.
//!
//! [`Platform`] owns every collection of the ledger. The host environment
//! authenticates the caller and supplies the current time; each operation
//! is a plain state transition whose contract is stated over the ghost
//! [`PlatformView`].

use vstd::prelude::*;
use vstd::pervasive::VecAdditionalExecFns;
use crate::identity::Identity;
use crate::model::{
    PlatformView, course_of_request, count_course, count_enr, count_passed, courses_of,
    enr_matches, enrollments_of_course, first_course_from, first_enr_from, first_request_from,
    first_student_from, has_enr, id_listed, lemma_count_enr_remove, lemma_count_enr_zero,
    lemma_count_passed_take_step, lemma_courses_of_take_step, lemma_enrollments_of_course_take_step,
    lemma_first_course_from_char, lemma_first_enr_from_char, lemma_first_request_from_char,
    lemma_first_student_from_char, lemma_smap_contains, lemma_smap_index, lemma_smap_len,
    lemma_smap_push, lemma_smap_update, lemma_unique_pairs_count_le_one, lemma_unique_pairs_remove,
    lemma_upsert_course, new_enrollment, unique_course_ids, unique_enrollment_pairs,
    unique_student_keys, upsert_course, with_outcome,
};
use crate::types::{
    ApproveStatus, Course, CourseRequest, DaoProposal, DropStatus, Enrollment, EnrollStatus,
    MarkStatus, PlatformStats, ProfileView, ProposalView, RequestView, StudentProfile, TokenConfig,
    VoteStatus,
};

verus! {

/// The default reward credited per completed course.
pub const DEFAULT_REWARD_PER_COURSE: u64 = 10;

/// The default token cost of enrolling in a course.
pub const DEFAULT_COST_TO_ENROLL: u64 = 5;

/// The in-memory state of the educational platform.
pub struct Platform {
    /// Profile directory: one entry per identity that stored a profile.
    pub students: Vec<(Identity, StudentProfile)>,
    /// Approved course catalog, ids pairwise distinct.
    pub courses: Vec<Course>,
    /// Enrollment ledger, (course, student) pairs pairwise distinct.
    pub enrollments: Vec<Enrollment>,
    /// Course requests awaiting approval, in insertion order.
    pub pending_requests: Vec<CourseRequest>,
    /// Governance proposals, in insertion order.
    pub dao_proposals: Vec<DaoProposal>,
    /// Banned instructor identities, append-only.
    pub banned_instructors: Vec<Identity>,
    /// Removed student identities, append-only.
    pub removed_students: Vec<Identity>,
    /// The singleton token configuration.
    pub config: TokenConfig,
}

impl View for Platform {
    type V = PlatformView;

    open spec fn view(&self) -> PlatformView {
        PlatformView {
            students: self.students@.map_values(|e: (Identity, StudentProfile)| (e.0@, e.1@)),
            courses: self.courses@.map_values(|c: Course| c@),
            enrollments: self.enrollments@.map_values(|e: Enrollment| e@),
            pending: self.pending_requests@.map_values(|r: CourseRequest| r@),
            proposals: self.dao_proposals@.map_values(|p: DaoProposal| p@),
            banned: self.banned_instructors@.map_values(|b: Identity| b@),
            removed: self.removed_students@.map_values(|r: Identity| r@),
            config: self.config,
        }
    }
}

impl Platform {
    /// A fresh platform: every collection empty and the token configuration
    /// at its defaults.
    pub fn new() -> (r: Platform)
        ensures
            r@.wf(),
            r@.students.len() == 0,
            r@.courses.len() == 0,
            r@.enrollments.len() == 0,
            r@.pending.len() == 0,
            r@.proposals.len() == 0,
            r@.banned.len() == 0,
            r@.removed.len() == 0,
            r@.config == (TokenConfig {
                reward_per_course: DEFAULT_REWARD_PER_COURSE,
                cost_to_enroll: DEFAULT_COST_TO_ENROLL,
            }),
    {
        Platform {
            students: Vec::new(),
            courses: Vec::new(),
            enrollments: Vec::new(),
            pending_requests: Vec::new(),
            dao_proposals: Vec::new(),
            banned_instructors: Vec::new(),
            removed_students: Vec::new(),
            config: TokenConfig {
                reward_per_course: DEFAULT_REWARD_PER_COURSE,
                cost_to_enroll: DEFAULT_COST_TO_ENROLL,
            },
        }
    }

    /// Index of the caller's profile entry, if one is stored.
    fn find_student_index(&self, id: &Identity) -> (r: Option<usize>)
        ensures
            match r {
                Some(i) => 0 <= i < self@.students.len() && first_student_from(
                    self@.students,
                    id@,
                    0,
                ) == i as int,
                None => first_student_from(self@.students, id@, 0) == -1,
            },
    {
        let n: usize = self.students.len();
        let mut i: usize = 0;
        while i < n
            invariant
                n == self@.students.len(),
                0 <= i <= n,
                first_student_from(self@.students, id@, 0) == first_student_from(
                    self@.students,
                    id@,
                    i as int,
                ),
            decreases n - i,
        {
            if self.students[i].0.same_as(id) {
                assert(self@.students[i as int].0 == id@);
                return Some(i);
            }
            assert(self@.students[i as int].0 != id@);
            i += 1;
        }
        None
    }

    /// Index of the enrollment for (course, student), if one exists.
    fn find_enrollment_index(&self, course_id: u64, student: &Identity) -> (r: Option<usize>)
        ensures
            match r {
                Some(i) => 0 <= i < self@.enrollments.len() && first_enr_from(
                    self@.enrollments,
                    course_id,
                    student@,
                    0,
                ) == i as int,
                None => first_enr_from(self@.enrollments, course_id, student@, 0) == -1,
            },
    {
        let n: usize = self.enrollments.len();
        let mut i: usize = 0;
        while i < n
            invariant
                n == self@.enrollments.len(),
                0 <= i <= n,
                first_enr_from(self@.enrollments, course_id, student@, 0) == first_enr_from(
                    self@.enrollments,
                    course_id,
                    student@,
                    i as int,
                ),
            decreases n - i,
        {
            let e = &self.enrollments[i];
            if e.course_id == course_id && e.student.same_as(student) {
                assert(enr_matches(self@.enrollments[i as int], course_id, student@));
                return Some(i);
            }
            assert(!enr_matches(self@.enrollments[i as int], course_id, student@));
            i += 1;
        }
        None
    }

    /// Whether an identity stands on one of the moderation lists.
    fn id_on_list(list: &Vec<Identity>, id: &Identity) -> (r: bool)
        ensures
            r == id_listed(list@.map_values(|b: Identity| b@), id@),
    {
        let ghost view = list@.map_values(|b: Identity| b@);
        let n: usize = list.len();
        let mut i: usize = 0;
        while i < n
            invariant
                n == list@.len(),
                view == list@.map_values(|b: Identity| b@),
                0 <= i <= n,
                forall|j: int| 0 <= j < i ==> view[j] != id@,
            decreases n - i,
        {
            if list[i].same_as(id) {
                assert(view[i as int] == id@);
                return true;
            }
            i += 1;
        }
        false
    }

    /// Stores or overwrites the caller's profile: on the profile directory
    /// this is exactly a map insert at the caller's identity. Every other
    /// collection is untouched. Always succeeds.
    pub fn update_student_profile(
        &mut self,
        caller: &Identity,
        name: String,
        roll_no: String,
        email: String,
    )
        requires
            old(self)@.wf(),
        ensures
            final(self)@.wf(),
            final(self)@.students_map() == old(self)@.students_map().insert(
                caller@,
                (ProfileView { name: name@, roll_no: roll_no@, email: email@ }),
            ),
            final(self)@ == (PlatformView { students: final(self)@.students, ..old(self)@ }),
    {
        let ghost old_students = self@.students;
        let ghost pv = ProfileView { name: name@, roll_no: roll_no@, email: email@ };
        let profile = StudentProfile { name, roll_no, email };
        proof {
            lemma_first_student_from_char(old_students, caller@, 0);
        }
        match self.find_student_index(caller) {
            Some(i) => {
                self.students.set(i, (caller.clone(), profile));
                assert(self@.students =~= old_students.update(i as int, (caller@, pv)));
                proof {
                    assert(old_students[i as int].0 == caller@);
                    lemma_smap_update(old_students, i as int, pv);
                    assert(forall|j: int|
                        0 <= j < self@.students.len() ==> (#[trigger] self@.students[j]).0
                            == old_students[j].0);
                    assert(unique_student_keys(self@.students));
                }
            },
            None => {
                self.students.push((caller.clone(), profile));
                assert(self@.students =~= old_students.push((caller@, pv)));
                proof {
                    lemma_smap_push(old_students, caller@, pv);
                    assert(forall|j: int|
                        0 <= j < old_students.len() ==> (#[trigger] old_students[j]).0 != caller@);
                    assert(forall|j: int|
                        0 <= j < old_students.len() ==> self@.students[j] == old_students[j]);
                    assert(unique_student_keys(self@.students));
                }
            },
        }
    }

    /// Enrolls the caller in a course. The checks run in this order: a
    /// removed student is refused, then a caller without a profile, then a
    /// caller already enrolled in the course. Otherwise exactly one new
    /// record with an unset outcome is appended. The course id is not
    /// checked against the catalog. On any refusal the state is unchanged.
    pub fn enroll_in_course(&mut self, caller: &Identity, course_id: u64) -> (r: EnrollStatus)
        requires
            old(self)@.wf(),
        ensures
            final(self)@.wf(),
            id_listed(old(self)@.removed, caller@) ==> r == EnrollStatus::Removed && final(self)@
                == old(self)@,
            !id_listed(old(self)@.removed, caller@) && !old(self)@.students_map().contains_key(
                caller@,
            ) ==> r == EnrollStatus::NoProfile && final(self)@ == old(self)@,
            !id_listed(old(self)@.removed, caller@) && old(self)@.students_map().contains_key(
                caller@,
            ) && has_enr(old(self)@.enrollments, course_id, caller@) ==> r
                == EnrollStatus::AlreadyEnrolled && final(self)@ == old(self)@,
            !id_listed(old(self)@.removed, caller@) && old(self)@.students_map().contains_key(
                caller@,
            ) && !has_enr(old(self)@.enrollments, course_id, caller@) ==> r
                == EnrollStatus::Enrolled && final(self)@.enrollments == old(
                self,
            )@.enrollments.push(
                new_enrollment(course_id, caller@, old(self)@.students_map()[caller@]),
            ) && final(self)@ == (PlatformView {
                enrollments: final(self)@.enrollments,
                ..old(self)@
            }),
    {
        let ghost old_students = self@.students;
        let ghost old_enr = self@.enrollments;
        if Self::id_on_list(&self.removed_students, caller) {
            return EnrollStatus::Removed;
        }
        proof {
            lemma_smap_contains(old_students, caller@);
            lemma_first_student_from_char(old_students, caller@, 0);
        }
        let pi = match self.find_student_index(caller) {
            Some(i) => i,
            None => {
                return EnrollStatus::NoProfile;
            },
        };
        proof {
            lemma_smap_index(old_students, pi as int);
            lemma_first_enr_from_char(old_enr, course_id, caller@, 0);
        }
        match self.find_enrollment_index(course_id, caller) {
            Some(_) => EnrollStatus::AlreadyEnrolled,
            None => {
                assert(forall|j: int|
                    0 <= j < old_enr.len() ==> !enr_matches(#[trigger] old_enr[j], course_id, caller@));
                let p = &self.students[pi].1;
                let e = Enrollment {
                    course_id: course_id,
                    student: caller.clone(),
                    student_name: p.name.clone(),
                    roll_no: p.roll_no.clone(),
                    passed: None,
                };
                assert(e@ == new_enrollment(course_id, caller@, old_students[pi as int].1));
                self.enrollments.push(e);
                assert(self@.enrollments =~= old_enr.push(
                    new_enrollment(course_id, caller@, old(self)@.students_map()[caller@]),
                ));
                proof {
                    let se = self@.enrollments;
                    assert(forall|j: int| 0 <= j < old_enr.len() ==> se[j] == old_enr[j]);
                    assert(unique_enrollment_pairs(se)) by {
                        assert(forall|i2: int, j2: int|
                            0 <= i2 < j2 < se.len() && j2 < old_enr.len() ==> !(se[i2].course_id
                                == se[j2].course_id && se[i2].student == se[j2].student));
                        assert(forall|i2: int|
                            0 <= i2 < old_enr.len() ==> !(#[trigger] se[i2].course_id
                                == course_id && se[i2].student == caller@));
                    }
                }
                EnrollStatus::Enrolled
            },
        }
    }

    /// Deletes the caller's enrollment for the course if one exists and
    /// reports which of the two cases held; afterwards the caller holds no
    /// record for the course either way. Every other collection and every
    /// other enrollment is untouched.
    pub fn drop_out_of_course(&mut self, caller: &Identity, course_id: u64) -> (r: DropStatus)
        requires
            old(self)@.wf(),
        ensures
            final(self)@.wf(),
            !has_enr(final(self)@.enrollments, course_id, caller@),
            ({
                let k = first_enr_from(old(self)@.enrollments, course_id, caller@, 0);
                if k >= 0 {
                    r == DropStatus::Dropped && final(self)@.enrollments == old(
                        self,
                    )@.enrollments.remove(k) && final(self)@ == (PlatformView {
                        enrollments: final(self)@.enrollments,
                        ..old(self)@
                    })
                } else {
                    r == DropStatus::NotEnrolled && final(self)@ == old(self)@
                }
            }),
    {
        let ghost old_enr = self@.enrollments;
        proof {
            lemma_first_enr_from_char(old_enr, course_id, caller@, 0);
        }
        match self.find_enrollment_index(course_id, caller) {
            Some(i) => {
                self.enrollments.remove(i);
                assert(self@.enrollments =~= old_enr.remove(i as int));
                proof {
                    lemma_unique_pairs_remove(old_enr, i as int);
                    lemma_unique_pairs_count_le_one(old_enr, course_id, caller@);
                    lemma_count_enr_remove(old_enr, i as int, course_id, caller@);
                    lemma_count_enr_zero(old_enr, course_id, caller@);
                    assert(count_enr(old_enr, course_id, caller@) == 1);
                    lemma_count_enr_zero(self@.enrollments, course_id, caller@);
                    assert(!has_enr(self@.enrollments, course_id, caller@));
                }
                DropStatus::Dropped
            },
            None => {
                proof {
                    assert(forall|j: int|
                        0 <= j < old_enr.len() ==> !enr_matches(
                            #[trigger] old_enr[j],
                            course_id,
                            caller@,
                        ));
                }
                DropStatus::NotEnrolled
            },
        }
    }

    /// Snapshot of the full course catalog.
    pub fn browse_courses(&self) -> (r: Vec<Course>)
        ensures
            r@.map_values(|c: Course| c@) == self@.courses,
    {
        let n: usize = self.courses.len();
        let mut r: Vec<Course> = Vec::new();
        let mut i: usize = 0;
        while i < n
            invariant
                n == self@.courses.len(),
                0 <= i <= n,
                r@.len() == i,
                forall|j: int| 0 <= j < i ==> r@[j]@ == self@.courses[j],
            decreases n - i,
        {
            r.push(self.courses[i].clone());
            i += 1;
        }
        assert(r@.map_values(|c: Course| c@) =~= self@.courses);
        r
    }

    /// The catalog entries whose instructor is the caller, in catalog order.
    pub fn list_my_courses(&self, caller: &Identity) -> (r: Vec<Course>)
        ensures
            r@.map_values(|c: Course| c@) == courses_of(self@.courses, caller@),
    {
        let ghost cv = self@.courses;
        let n: usize = self.courses.len();
        let mut r: Vec<Course> = Vec::new();
        let mut i: usize = 0;
        while i < n
            invariant
                n == cv.len(),
                cv == self@.courses,
                0 <= i <= n,
                r@.map_values(|c: Course| c@) == courses_of(cv.take(i as int), caller@),
            decreases n - i,
        {
            proof {
                lemma_courses_of_take_step(cv, caller@, i as int);
            }
            if self.courses[i].instructor.same_as(caller) {
                r.push(self.courses[i].clone());
                assert(r@.map_values(|c: Course| c@) =~= courses_of(cv.take(i + 1), caller@));
            }
            i += 1;
        }
        assert(cv.take(n as int) =~= cv);
        r
    }

    /// All enrollment records for the given course, in ledger order,
    /// whoever asks.
    pub fn list_enrolled_students(&self, course_id: u64) -> (r: Vec<Enrollment>)
        ensures
            r@.map_values(|e: Enrollment| e@) == enrollments_of_course(self@.enrollments, course_id),
    {
        let ghost ev = self@.enrollments;
        let n: usize = self.enrollments.len();
        let mut r: Vec<Enrollment> = Vec::new();
        let mut i: usize = 0;
        while i < n
            invariant
                n == ev.len(),
                ev == self@.enrollments,
                0 <= i <= n,
                r@.map_values(|e: Enrollment| e@) == enrollments_of_course(
                    ev.take(i as int),
                    course_id,
                ),
            decreases n - i,
        {
            proof {
                lemma_enrollments_of_course_take_step(ev, course_id, i as int);
            }
            if self.enrollments[i].course_id == course_id {
                r.push(self.enrollments[i].clone());
                assert(r@.map_values(|e: Enrollment| e@) =~= enrollments_of_course(
                    ev.take(i + 1),
                    course_id,
                ));
            }
            i += 1;
        }
        assert(ev.take(n as int) =~= ev);
        r
    }

    /// Snapshot of the pending request queue, in insertion order.
    pub fn list_pending_requests(&self) -> (r: Vec<CourseRequest>)
        ensures
            r@.map_values(|q: CourseRequest| q@) == self@.pending,
    {
        let n: usize = self.pending_requests.len();
        let mut r: Vec<CourseRequest> = Vec::new();
        let mut i: usize = 0;
        while i < n
            invariant
                n == self@.pending.len(),
                0 <= i <= n,
                r@.len() == i,
                forall|j: int| 0 <= j < i ==> r@[j]@ == self@.pending[j],
            decreases n - i,
        {
            r.push(self.pending_requests[i].clone());
            i += 1;
        }
        assert(r@.map_values(|q: CourseRequest| q@) =~= self@.pending);
        r
    }

    /// Snapshot of all governance proposals, in insertion order.
    pub fn view_dao_proposals(&self) -> (r: Vec<DaoProposal>)
        ensures
            r@.map_values(|p: DaoProposal| p@) == self@.proposals,
    {
        let n: usize = self.dao_proposals.len();
        let mut r: Vec<DaoProposal> = Vec::new();
        let mut i: usize = 0;
        while i < n
            invariant
                n == self@.proposals.len(),
                0 <= i <= n,
                r@.len() == i,
                forall|j: int| 0 <= j < i ==> r@[j]@ == self@.proposals[j],
            decreases n - i,
        {
            r.push(self.dao_proposals[i].clone());
            i += 1;
        }
        assert(r@.map_values(|p: DaoProposal| p@) =~= self@.proposals);
        r
    }

    /// Appends a course request owned by the caller, with an id derived
    /// from the host's monotonic time source, and returns a copy of it.
    /// Nothing is validated and nothing else changes.
    pub fn request_new_course(
        &mut self,
        caller: &Identity,
        now: u64,
        title: String,
        description: String,
        instructor_name: String,
    ) -> (r: CourseRequest)
        requires
            old(self)@.wf(),
        ensures
            final(self)@.wf(),
            r@ == (RequestView {
                id: now,
                title: title@,
                description: description@,
                instructor: caller@,
                instructor_name: instructor_name@,
            }),
            final(self)@.pending == old(self)@.pending.push(r@),
            final(self)@ == (PlatformView { pending: final(self)@.pending, ..old(self)@ }),
    {
        let ghost old_pending = self@.pending;
        let req = CourseRequest {
            id: now,
            title: title,
            description: description,
            instructor: caller.clone(),
            instructor_name: instructor_name,
        };
        let copy = req.clone();
        self.pending_requests.push(req);
        assert(self@.pending =~= old_pending.push(copy@));
        copy
    }

    /// Sets the outcome of the (course, student) enrollment, overwriting any
    /// earlier mark; reports "not found" when no such record exists, and
    /// changes nothing then. Only that one record's outcome changes.
    fn mark_student(&mut self, course_id: u64, student: &Identity, pass: bool) -> (r: MarkStatus)
        requires
            old(self)@.wf(),
        ensures
            final(self)@.wf(),
            ({
                let k = first_enr_from(old(self)@.enrollments, course_id, student@, 0);
                if k >= 0 {
                    r == MarkStatus::Marked && final(self)@.enrollments == old(
                        self,
                    )@.enrollments.update(
                        k,
                        with_outcome(old(self)@.enrollments[k], pass),
                    ) && final(self)@ == (PlatformView {
                        enrollments: final(self)@.enrollments,
                        ..old(self)@
                    })
                } else {
                    r == MarkStatus::NotFound && final(self)@ == old(self)@
                }
            }),
    {
        let ghost old_enr = self@.enrollments;
        proof {
            lemma_first_enr_from_char(old_enr, course_id, student@, 0);
        }
        match self.find_enrollment_index(course_id, student) {
            Some(i) => {
                let e = &self.enrollments[i];
                let updated = Enrollment {
                    course_id: e.course_id,
                    student: e.student.clone(),
                    student_name: e.student_name.clone(),
                    roll_no: e.roll_no.clone(),
                    passed: Some(pass),
                };
                assert(updated@ == with_outcome(old_enr[i as int], pass));
                self.enrollments.set(i, updated);
                assert(self@.enrollments =~= old_enr.update(
                    i as int,
                    with_outcome(old_enr[i as int], pass),
                ));
                proof {
                    let se = self@.enrollments;
                    assert(forall|j: int|
                        0 <= j < se.len() ==> (#[trigger] se[j]).course_id == old_enr[j].course_id
                            && se[j].student == old_enr[j].student);
                    assert(unique_enrollment_pairs(se));
                }
                MarkStatus::Marked
            },
            None => MarkStatus::NotFound,
        }
    }

    /// Marks the (course, student) enrollment as passed; "not found" when
    /// no such record exists.
    pub fn mark_pass(&mut self, course_id: u64, student: &Identity) -> (r: MarkStatus)
        requires
            old(self)@.wf(),
        ensures
            final(self)@.wf(),
            ({
                let k = first_enr_from(old(self)@.enrollments, course_id, student@, 0);
                if k >= 0 {
                    r == MarkStatus::Marked && final(self)@.enrollments == old(
                        self,
                    )@.enrollments.update(
                        k,
                        with_outcome(old(self)@.enrollments[k], true),
                    ) && final(self)@ == (PlatformView {
                        enrollments: final(self)@.enrollments,
                        ..old(self)@
                    })
                } else {
                    r == MarkStatus::NotFound && final(self)@ == old(self)@
                }
            }),
    {
        self.mark_student(course_id, student, true)
    }

    /// Marks the (course, student) enrollment as failed; "not found" when
    /// no such record exists.
    pub fn mark_fail(&mut self, course_id: u64, student: &Identity) -> (r: MarkStatus)
        requires
            old(self)@.wf(),
        ensures
            final(self)@.wf(),
            ({
                let k = first_enr_from(old(self)@.enrollments, course_id, student@, 0);
                if k >= 0 {
                    r == MarkStatus::Marked && final(self)@.enrollments == old(
                        self,
                    )@.enrollments.update(
                        k,
                        with_outcome(old(self)@.enrollments[k], false),
                    ) && final(self)@ == (PlatformView {
                        enrollments: final(self)@.enrollments,
                        ..old(self)@
                    })
                } else {
                    r == MarkStatus::NotFound && final(self)@ == old(self)@
                }
            }),
    {
        self.mark_student(course_id, student, false)
    }

    /// Index of the first pending request with the given id, if any.
    fn find_request_index(&self, id: u64) -> (r: Option<usize>)
        ensures
            match r {
                Some(i) => 0 <= i < self@.pending.len() && first_request_from(self@.pending, id, 0)
                    == i as int,
                None => first_request_from(self@.pending, id, 0) == -1,
            },
    {
        let n: usize = self.pending_requests.len();
        let mut i: usize = 0;
        while i < n
            invariant
                n == self@.pending.len(),
                0 <= i <= n,
                first_request_from(self@.pending, id, 0) == first_request_from(
                    self@.pending,
                    id,
                    i as int,
                ),
            decreases n - i,
        {
            if self.pending_requests[i].id == id {
                assert(self@.pending[i as int].id == id);
                return Some(i);
            }
            assert(self@.pending[i as int].id != id);
            i += 1;
        }
        None
    }

    /// Index of the catalog entry with the given id, if any.
    fn find_course_index(&self, id: u64) -> (r: Option<usize>)
        ensures
            match r {
                Some(i) => 0 <= i < self@.courses.len() && first_course_from(self@.courses, id, 0)
                    == i as int,
                None => first_course_from(self@.courses, id, 0) == -1,
            },
    {
        let n: usize = self.courses.len();
        let mut i: usize = 0;
        while i < n
            invariant
                n == self@.courses.len(),
                0 <= i <= n,
                first_course_from(self@.courses, id, 0) == first_course_from(
                    self@.courses,
                    id,
                    i as int,
                ),
            decreases n - i,
        {
            if self.courses[i].id == id {
                assert(self@.courses[i as int].id == id);
                return Some(i);
            }
            assert(self@.courses[i as int].id != id);
            i += 1;
        }
        None
    }

    /// Approves the first pending request with the given id: the request
    /// leaves the queue and the catalog afterwards holds exactly one course
    /// with that id, carrying the request's title, description and
    /// instructor. This is the only path that creates courses. On an
    /// unknown id both collections stay unchanged and "not found" is
    /// reported.
    pub fn approve_course_request(&mut self, id: u64) -> (r: ApproveStatus)
        requires
            old(self)@.wf(),
        ensures
            final(self)@.wf(),
            ({
                let k = first_request_from(old(self)@.pending, id, 0);
                if k >= 0 {
                    r == ApproveStatus::Approved && final(self)@.pending == old(
                        self,
                    )@.pending.remove(k) && final(self)@.courses == upsert_course(
                        old(self)@.courses,
                        course_of_request(old(self)@.pending[k]),
                    ) && count_course(final(self)@.courses, id) == 1 && final(self)@
                        == (PlatformView {
                        pending: final(self)@.pending,
                        courses: final(self)@.courses,
                        ..old(self)@
                    })
                } else {
                    r == ApproveStatus::NotFound && final(self)@ == old(self)@
                }
            }),
    {
        let ghost old_pending = self@.pending;
        let ghost old_courses = self@.courses;
        proof {
            lemma_first_request_from_char(old_pending, id, 0);
        }
        match self.find_request_index(id) {
            Some(i) => {
                let req = self.pending_requests.remove(i);
                assert(self@.pending =~= old_pending.remove(i as int));
                assert(req@ == old_pending[i as int]);
                let course = Course {
                    id: req.id,
                    title: req.title,
                    description: req.description,
                    instructor: req.instructor,
                };
                assert(course@ == course_of_request(old_pending[i as int]));
                assert(course.id == id);
                proof {
                    lemma_first_course_from_char(old_courses, course@.id, 0);
                    lemma_upsert_course(old_courses, course@);
                }
                match self.find_course_index(course.id) {
                    Some(j) => {
                        self.courses.set(j, course);
                        assert(self@.courses =~= upsert_course(
                            old_courses,
                            course_of_request(old_pending[i as int]),
                        ));
                    },
                    None => {
                        self.courses.push(course);
                        assert(self@.courses =~= upsert_course(
                            old_courses,
                            course_of_request(old_pending[i as int]),
                        ));
                    },
                }
                ApproveStatus::Approved
            },
            None => ApproveStatus::NotFound,
        }
    }

    /// Appends a governance proposal with both tallies at zero.
    pub fn add_dao_proposal(&mut self, text: String)
        requires
            old(self)@.wf(),
        ensures
            final(self)@.wf(),
            final(self)@.proposals == old(self)@.proposals.push(
                (ProposalView { text: text@, yes_votes: 0, no_votes: 0 }),
            ),
            final(self)@ == (PlatformView { proposals: final(self)@.proposals, ..old(self)@ }),
    {
        let ghost old_props = self@.proposals;
        let ghost tv = text@;
        self.dao_proposals.push(DaoProposal { text, yes_votes: 0, no_votes: 0 });
        assert(self@.proposals =~= old_props.push(
            ProposalView { text: tv, yes_votes: 0, no_votes: 0 },
        ));
    }

    /// Counts one vote on the proposal at `index`: the chosen tally grows
    /// by one, the other tally and the text stay, and every other proposal
    /// is untouched. An out-of-range index changes nothing and reports
    /// "not found". Tallies saturate at the counter's maximum.
    pub fn vote_on_proposal(&mut self, index: u64, yes: bool) -> (r: VoteStatus)
        requires
            old(self)@.wf(),
        ensures
            final(self)@.wf(),
            index >= old(self)@.proposals.len() ==> r == VoteStatus::NotFound && final(self)@
                == old(self)@,
            index < old(self)@.proposals.len() ==> {
                let p = old(self)@.proposals[index as int];
                r == VoteStatus::Voted && final(self)@.proposals == old(self)@.proposals.update(
                    index as int,
                    (ProposalView {
                        text: p.text,
                        yes_votes: if yes {
                            saturating_inc(p.yes_votes)
                        } else {
                            p.yes_votes
                        },
                        no_votes: if yes {
                            p.no_votes
                        } else {
                            saturating_inc(p.no_votes)
                        },
                    }),
                ) && final(self)@ == (PlatformView {
                    proposals: final(self)@.proposals,
                    ..old(self)@
                })
            },
    {
        let ghost old_props = self@.proposals;
        let n: usize = self.dao_proposals.len();
        if index >= n as u64 {
            return VoteStatus::NotFound;
        }
        let i = index as usize;
        let p = &self.dao_proposals[i];
        let updated = DaoProposal {
            text: p.text.clone(),
            yes_votes: if yes {
                saturating_inc_u32(p.yes_votes)
            } else {
                p.yes_votes
            },
            no_votes: if yes {
                p.no_votes
            } else {
                saturating_inc_u32(p.no_votes)
            },
        };
        self.dao_proposals.set(i, updated);
        assert(self@.proposals =~= old_props.update(
            index as int,
            ProposalView {
                text: old_props[index as int].text,
                yes_votes: if yes {
                    saturating_inc(old_props[index as int].yes_votes)
                } else {
                    old_props[index as int].yes_votes
                },
                no_votes: if yes {
                    old_props[index as int].no_votes
                } else {
                    saturating_inc(old_props[index as int].no_votes)
                },
            },
        ));
        VoteStatus::Voted
    }

    /// Appends the identity to the banned-instructor list, unconditionally
    /// and without a duplicate check; nothing else changes.
    pub fn ban_instructor(&mut self, instructor: &Identity)
        requires
            old(self)@.wf(),
        ensures
            final(self)@.wf(),
            final(self)@.banned == old(self)@.banned.push(instructor@),
            id_listed(final(self)@.banned, instructor@),
            final(self)@ == (PlatformView { banned: final(self)@.banned, ..old(self)@ }),
    {
        let ghost old_banned = self@.banned;
        self.banned_instructors.push(instructor.clone());
        assert(self@.banned =~= old_banned.push(instructor@));
        assert(self@.banned[old_banned.len() as int] == instructor@);
    }

    /// Appends the identity to the removed-student list, unconditionally
    /// and without a duplicate check; existing enrollments stay. Only
    /// future enrollment attempts by this identity are refused.
    pub fn remove_student(&mut self, student: &Identity)
        requires
            old(self)@.wf(),
        ensures
            final(self)@.wf(),
            final(self)@.removed == old(self)@.removed.push(student@),
            id_listed(final(self)@.removed, student@),
            final(self)@ == (PlatformView { removed: final(self)@.removed, ..old(self)@ }),
    {
        let ghost old_removed = self@.removed;
        self.removed_students.push(student.clone());
        assert(self@.removed =~= old_removed.push(student@));
        assert(self@.removed[old_removed.len() as int] == student@);
    }

    /// Overwrites the per-course reward setting; no bounds are enforced.
    pub fn set_token_reward(&mut self, amount: u64)
        requires
            old(self)@.wf(),
        ensures
            final(self)@.wf(),
            final(self)@.config == (TokenConfig {
                reward_per_course: amount,
                cost_to_enroll: old(self)@.config.cost_to_enroll,
            }),
            final(self)@ == (PlatformView { config: final(self)@.config, ..old(self)@ }),
    {
        self.config.reward_per_course = amount;
    }

    /// Overwrites the enrollment cost setting; no bounds are enforced.
    pub fn set_cost_to_enroll(&mut self, amount: u64)
        requires
            old(self)@.wf(),
        ensures
            final(self)@.wf(),
            final(self)@.config == (TokenConfig {
                reward_per_course: old(self)@.config.reward_per_course,
                cost_to_enroll: amount,
            }),
            final(self)@ == (PlatformView { config: final(self)@.config, ..old(self)@ }),
    {
        self.config.cost_to_enroll = amount;
    }

    /// Computed read over the current collections: how many profiles and
    /// courses are stored, and how many enrollments carry a pass outcome.
    pub fn get_platform_stats(&self) -> (r: PlatformStats)
        requires
            self@.wf(),
        ensures
            r.total_students == self@.students_map().len(),
            r.total_students == self@.students.len(),
            r.total_courses == self@.courses.len(),
            r.certificates_issued == count_passed(self@.enrollments),
    {
        proof {
            lemma_smap_len(self@.students);
        }
        let ghost ev = self@.enrollments;
        let n: usize = self.enrollments.len();
        let mut certificates: u64 = 0;
        let mut i: usize = 0;
        while i < n
            invariant
                n == ev.len(),
                ev == self@.enrollments,
                0 <= i <= n,
                certificates == count_passed(ev.take(i as int)),
                certificates <= i,
            decreases n - i,
        {
            proof {
                lemma_count_passed_take_step(ev, i as int);
            }
            let passed = self.enrollments[i].passed;
            if passed == Some(true) {
                certificates = certificates + 1;
            }
            i += 1;
        }
        assert(ev.take(n as int) =~= ev);
        PlatformStats {
            total_students: self.students.len() as u64,
            total_courses: self.courses.len() as u64,
            certificates_issued: certificates,
        }
    }
}

/// A tally one higher, capped at the counter's maximum.
pub open spec fn saturating_inc(x: u32) -> u32 {
    if x == u32::MAX {
        x
    } else {
        (x + 1) as u32
    }
}

/// Executable counterpart of [`saturating_inc`].
fn saturating_inc_u32(x: u32) -> (r: u32)
    ensures
        r == saturating_inc(x),
{
    if x == u32::MAX {
        x
    } else {
        x + 1
    }
}

} // verus!
