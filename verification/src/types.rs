//! The records the ledger stores and the statuses its operations report.
//!
//! Each executable record type has a ghost view (`@`) made of sequences and
//! plain values; the contracts of the platform operations speak only of
//! those views.

use vstd::prelude::*;
use crate::identity::Identity;

verus! {

/// A student's self-reported profile, keyed by the caller's identity.
pub struct StudentProfile {
    pub name: String,
    pub roll_no: String,
    pub email: String,
}

/// Ghost view of a [`StudentProfile`].
pub ghost struct ProfileView {
    pub name: Seq<char>,
    pub roll_no: Seq<char>,
    pub email: Seq<char>,
}

impl View for StudentProfile {
    type V = ProfileView;

    open spec fn view(&self) -> ProfileView {
        ProfileView { name: self.name@, roll_no: self.roll_no@, email: self.email@ }
    }
}

impl Clone for StudentProfile {
    /// A cloned profile carries the same fields.
    fn clone(&self) -> (r: Self)
        ensures
            r@ == self@,
    {
        StudentProfile {
            name: self.name.clone(),
            roll_no: self.roll_no.clone(),
            email: self.email.clone(),
        }
    }
}

/// An approved course in the catalog. Courses are created only by approving
/// a pending [`CourseRequest`]; the instructor never changes afterwards.
pub struct Course {
    pub id: u64,
    pub title: String,
    pub description: String,
    pub instructor: Identity,
}

/// Ghost view of a [`Course`].
pub ghost struct CourseView {
    pub id: u64,
    pub title: Seq<char>,
    pub description: Seq<char>,
    pub instructor: Seq<u8>,
}

impl View for Course {
    type V = CourseView;

    open spec fn view(&self) -> CourseView {
        CourseView {
            id: self.id,
            title: self.title@,
            description: self.description@,
            instructor: self.instructor@,
        }
    }
}

impl Clone for Course {
    /// A cloned course carries the same fields.
    fn clone(&self) -> (r: Self)
        ensures
            r@ == self@,
    {
        Course {
            id: self.id,
            title: self.title.clone(),
            description: self.description.clone(),
            instructor: self.instructor.clone(),
        }
    }
}

/// An instructor's course proposal awaiting administrative approval.
pub struct CourseRequest {
    pub id: u64,
    pub title: String,
    pub description: String,
    pub instructor: Identity,
    pub instructor_name: String,
}

/// Ghost view of a [`CourseRequest`].
pub ghost struct RequestView {
    pub id: u64,
    pub title: Seq<char>,
    pub description: Seq<char>,
    pub instructor: Seq<u8>,
    pub instructor_name: Seq<char>,
}

impl View for CourseRequest {
    type V = RequestView;

    open spec fn view(&self) -> RequestView {
        RequestView {
            id: self.id,
            title: self.title@,
            description: self.description@,
            instructor: self.instructor@,
            instructor_name: self.instructor_name@,
        }
    }
}

impl Clone for CourseRequest {
    /// A cloned request carries the same fields.
    fn clone(&self) -> (r: Self)
        ensures
            r@ == self@,
    {
        CourseRequest {
            id: self.id,
            title: self.title.clone(),
            description: self.description.clone(),
            instructor: self.instructor.clone(),
            instructor_name: self.instructor_name.clone(),
        }
    }
}

/// One (course, student) enrollment record with its pass/fail outcome.
/// `passed` is `None` until course staff mark the student.
pub struct Enrollment {
    pub course_id: u64,
    pub student: Identity,
    pub student_name: String,
    pub roll_no: String,
    pub passed: Option<bool>,
}

/// Ghost view of an [`Enrollment`].
pub ghost struct EnrollmentView {
    pub course_id: u64,
    pub student: Seq<u8>,
    pub student_name: Seq<char>,
    pub roll_no: Seq<char>,
    pub passed: Option<bool>,
}

impl View for Enrollment {
    type V = EnrollmentView;

    open spec fn view(&self) -> EnrollmentView {
        EnrollmentView {
            course_id: self.course_id,
            student: self.student@,
            student_name: self.student_name@,
            roll_no: self.roll_no@,
            passed: self.passed,
        }
    }
}

impl Clone for Enrollment {
    /// A cloned enrollment carries the same fields.
    fn clone(&self) -> (r: Self)
        ensures
            r@ == self@,
    {
        Enrollment {
            course_id: self.course_id,
            student: self.student.clone(),
            student_name: self.student_name.clone(),
            roll_no: self.roll_no.clone(),
            passed: self.passed,
        }
    }
}

/// A governance proposal with its running vote tallies.
pub struct DaoProposal {
    pub text: String,
    pub yes_votes: u32,
    pub no_votes: u32,
}

/// Ghost view of a [`DaoProposal`].
pub ghost struct ProposalView {
    pub text: Seq<char>,
    pub yes_votes: u32,
    pub no_votes: u32,
}

impl View for DaoProposal {
    type V = ProposalView;

    open spec fn view(&self) -> ProposalView {
        ProposalView { text: self.text@, yes_votes: self.yes_votes, no_votes: self.no_votes }
    }
}

impl Clone for DaoProposal {
    /// A cloned proposal carries the same fields.
    fn clone(&self) -> (r: Self)
        ensures
            r@ == self@,
    {
        DaoProposal {
            text: self.text.clone(),
            yes_votes: self.yes_votes,
            no_votes: self.no_votes,
        }
    }
}

/// The singleton token-economy configuration.
#[derive(Clone, Copy, PartialEq, Eq, Structural, Debug)]
pub struct TokenConfig {
    pub reward_per_course: u64,
    pub cost_to_enroll: u64,
}

/// Counts of stored profiles, approved courses and passed enrollments.
#[derive(Clone, Copy, PartialEq, Eq, Structural, Debug)]
pub struct PlatformStats {
    pub total_students: u64,
    pub total_courses: u64,
    pub certificates_issued: u64,
}

/// What enrolling in a course reported.
#[derive(Clone, Copy, PartialEq, Eq, Structural, Debug)]
pub enum EnrollStatus {
    /// A new enrollment with an unset outcome was created.
    Enrolled,
    /// The caller already holds an enrollment for this course.
    AlreadyEnrolled,
    /// The caller has not stored a profile yet.
    NoProfile,
    /// The caller is on the removed-students list.
    Removed,
}

/// What dropping out of a course reported.
#[derive(Clone, Copy, PartialEq, Eq, Structural, Debug)]
pub enum DropStatus {
    /// The caller's enrollment for this course was deleted.
    Dropped,
    /// The caller held no enrollment for this course.
    NotEnrolled,
}

/// What marking a student's outcome reported.
#[derive(Clone, Copy, PartialEq, Eq, Structural, Debug)]
pub enum MarkStatus {
    /// The (course, student) enrollment exists and its outcome was set.
    Marked,
    /// No enrollment matches the (course, student) pair.
    NotFound,
}

/// What approving a course request reported.
#[derive(Clone, Copy, PartialEq, Eq, Structural, Debug)]
pub enum ApproveStatus {
    /// The request left the queue and a matching course entered the catalog.
    Approved,
    /// No pending request carries the given id.
    NotFound,
}

/// What voting on a governance proposal reported.
#[derive(Clone, Copy, PartialEq, Eq, Structural, Debug)]
pub enum VoteStatus {
    /// The proposal exists and one tally was incremented.
    Voted,
    /// The index is outside the proposal list.
    NotFound,
}

} // verus!
