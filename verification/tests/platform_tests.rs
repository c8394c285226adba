use educhain_backend::identity::Identity;
use educhain_backend::platform::Platform;
use educhain_backend::types::{ApproveStatus, DropStatus, EnrollStatus, MarkStatus, VoteStatus};

fn id(bytes: &[u8]) -> Identity {
    Identity::from_bytes(bytes.to_vec())
}

fn set_profile(p: &mut Platform, who: &Identity, name: &str, roll: &str, email: &str) {
    p.update_student_profile(who, name.to_string(), roll.to_string(), email.to_string());
}

#[test]
fn profile_last_write_wins() {
    let mut p = Platform::new();
    let alice = id(b"alice");
    set_profile(&mut p, &alice, "Alice", "r-1", "a@old.example");
    set_profile(&mut p, &alice, "Alice B.", "r-2", "a@new.example");
    assert_eq!(p.students.len(), 1);
    assert_eq!(p.students[0].1.name, "Alice B.");
    assert_eq!(p.students[0].1.roll_no, "r-2");
    assert_eq!(p.students[0].1.email, "a@new.example");
}

#[test]
fn profiles_of_two_identities_are_kept_apart() {
    let mut p = Platform::new();
    let alice = id(b"alice");
    let bob = id(b"bob");
    set_profile(&mut p, &alice, "Alice", "1", "a@example");
    set_profile(&mut p, &bob, "Bob", "2", "b@example");
    set_profile(&mut p, &alice, "Alice2", "3", "c@example");
    assert_eq!(p.students.len(), 2);
    assert_eq!(p.students[1].1.name, "Bob");
}

#[test]
fn enroll_twice_reports_already_enrolled() {
    let mut p = Platform::new();
    let alice = id(b"alice");
    set_profile(&mut p, &alice, "Alice", "1", "a@example");
    assert_eq!(p.enroll_in_course(&alice, 7), EnrollStatus::Enrolled);
    assert_eq!(p.enroll_in_course(&alice, 7), EnrollStatus::AlreadyEnrolled);
    let matching = p
        .enrollments
        .iter()
        .filter(|e| e.course_id == 7 && e.student.bytes == b"alice".to_vec())
        .count();
    assert_eq!(matching, 1);
}

#[test]
fn enroll_without_profile_creates_nothing() {
    let mut p = Platform::new();
    let ghostly = id(b"nobody");
    assert_eq!(p.enroll_in_course(&ghostly, 1), EnrollStatus::NoProfile);
    assert_eq!(p.enroll_in_course(&ghostly, u64::MAX), EnrollStatus::NoProfile);
    assert!(p.enrollments.is_empty());
}

#[test]
fn removed_student_cannot_enroll_but_keeps_old_records() {
    let mut p = Platform::new();
    let alice = id(b"alice");
    set_profile(&mut p, &alice, "Alice", "1", "a@example");
    assert_eq!(p.enroll_in_course(&alice, 1), EnrollStatus::Enrolled);
    p.remove_student(&alice);
    assert_eq!(p.enroll_in_course(&alice, 2), EnrollStatus::Removed);
    assert_eq!(p.enrollments.len(), 1);
    assert_eq!(p.enrollments[0].course_id, 1);
}

#[test]
fn enrolling_in_an_uncataloged_course_succeeds() {
    let mut p = Platform::new();
    let alice = id(b"alice");
    set_profile(&mut p, &alice, "Alice", "1", "a@example");
    assert!(p.courses.is_empty());
    assert_eq!(p.enroll_in_course(&alice, 999), EnrollStatus::Enrolled);
    assert_eq!(p.enrollments.len(), 1);
}

#[test]
fn drop_out_then_enroll_recreates_one_unset_record() {
    let mut p = Platform::new();
    let alice = id(b"alice");
    set_profile(&mut p, &alice, "Alice", "1", "a@example");
    assert_eq!(p.enroll_in_course(&alice, 5), EnrollStatus::Enrolled);
    assert_eq!(p.mark_pass(5, &alice), MarkStatus::Marked);
    assert_eq!(p.drop_out_of_course(&alice, 5), DropStatus::Dropped);
    assert!(p.enrollments.is_empty());
    assert_eq!(p.enroll_in_course(&alice, 5), EnrollStatus::Enrolled);
    assert_eq!(p.enrollments.len(), 1);
    assert_eq!(p.enrollments[0].passed, None);
}

#[test]
fn drop_out_twice_reports_not_enrolled() {
    let mut p = Platform::new();
    let alice = id(b"alice");
    set_profile(&mut p, &alice, "Alice", "1", "a@example");
    assert_eq!(p.enroll_in_course(&alice, 5), EnrollStatus::Enrolled);
    assert_eq!(p.drop_out_of_course(&alice, 5), DropStatus::Dropped);
    assert_eq!(p.drop_out_of_course(&alice, 5), DropStatus::NotEnrolled);
    assert_eq!(p.drop_out_of_course(&alice, 6), DropStatus::NotEnrolled);
}

#[test]
fn approve_request_moves_it_into_the_catalog() {
    let mut p = Platform::new();
    let teacher = id(b"teacher");
    let req = p.request_new_course(
        &teacher,
        42,
        "Logic".to_string(),
        "Intro to logic".to_string(),
        "Prof. T".to_string(),
    );
    assert_eq!(req.id, 42);
    assert_eq!(req.title, "Logic");
    assert_eq!(p.pending_requests.len(), 1);
    assert_eq!(p.approve_course_request(42), ApproveStatus::Approved);
    assert!(p.pending_requests.is_empty());
    assert_eq!(p.courses.len(), 1);
    assert_eq!(p.courses[0].id, 42);
    assert_eq!(p.courses[0].title, "Logic");
    assert_eq!(p.courses[0].description, "Intro to logic");
    assert_eq!(p.courses[0].instructor.bytes, b"teacher".to_vec());
}

#[test]
fn approve_unknown_request_changes_nothing() {
    let mut p = Platform::new();
    let teacher = id(b"teacher");
    p.request_new_course(
        &teacher,
        42,
        "Logic".to_string(),
        "Intro".to_string(),
        "Prof. T".to_string(),
    );
    assert_eq!(p.approve_course_request(7), ApproveStatus::NotFound);
    assert_eq!(p.pending_requests.len(), 1);
    assert!(p.courses.is_empty());
}

#[test]
fn mark_pass_then_fail_leaves_one_failed_record() {
    let mut p = Platform::new();
    let alice = id(b"alice");
    set_profile(&mut p, &alice, "Alice", "1", "a@example");
    assert_eq!(p.enroll_in_course(&alice, 3), EnrollStatus::Enrolled);
    assert_eq!(p.mark_pass(3, &alice), MarkStatus::Marked);
    assert_eq!(p.enrollments[0].passed, Some(true));
    assert_eq!(p.mark_fail(3, &alice), MarkStatus::Marked);
    assert_eq!(p.enrollments.len(), 1);
    assert_eq!(p.enrollments[0].passed, Some(false));
}

#[test]
fn marking_an_absent_enrollment_reports_not_found() {
    let mut p = Platform::new();
    let alice = id(b"alice");
    assert_eq!(p.mark_pass(3, &alice), MarkStatus::NotFound);
    assert_eq!(p.mark_fail(3, &alice), MarkStatus::NotFound);
}

#[test]
fn stats_count_profiles_courses_and_passes() {
    let mut p = Platform::new();
    let alice = id(b"alice");
    let bob = id(b"bob");
    let teacher = id(b"teacher");
    set_profile(&mut p, &alice, "Alice", "1", "a@example");
    set_profile(&mut p, &bob, "Bob", "2", "b@example");
    p.request_new_course(
        &teacher,
        1,
        "Logic".to_string(),
        "Intro".to_string(),
        "Prof. T".to_string(),
    );
    assert_eq!(p.approve_course_request(1), ApproveStatus::Approved);
    assert_eq!(p.enroll_in_course(&alice, 1), EnrollStatus::Enrolled);
    assert_eq!(p.enroll_in_course(&bob, 1), EnrollStatus::Enrolled);
    assert_eq!(p.mark_pass(1, &alice), MarkStatus::Marked);
    assert_eq!(p.mark_pass(1, &bob), MarkStatus::Marked);
    assert_eq!(p.mark_fail(1, &bob), MarkStatus::Marked);
    let stats = p.get_platform_stats();
    assert_eq!(stats.total_students, 2);
    assert_eq!(stats.total_courses, 1);
    assert_eq!(stats.certificates_issued, 1);
    assert_eq!(p.mark_pass(1, &bob), MarkStatus::Marked);
    assert_eq!(p.get_platform_stats().certificates_issued, 2);
}

#[test]
fn vote_on_out_of_range_index_changes_nothing() {
    let mut p = Platform::new();
    p.add_dao_proposal("More courses".to_string());
    assert_eq!(p.vote_on_proposal(5, true), VoteStatus::NotFound);
    assert_eq!(p.vote_on_proposal(u64::MAX, false), VoteStatus::NotFound);
    assert_eq!(p.dao_proposals[0].yes_votes, 0);
    assert_eq!(p.dao_proposals[0].no_votes, 0);
}

#[test]
fn governance_scenario_votes_add_up() {
    let mut p = Platform::new();
    p.add_dao_proposal("Build library".to_string());
    assert_eq!(p.dao_proposals.len(), 1);
    assert_eq!(p.dao_proposals[0].text, "Build library");
    assert_eq!(p.dao_proposals[0].yes_votes, 0);
    assert_eq!(p.dao_proposals[0].no_votes, 0);
    assert_eq!(p.vote_on_proposal(0, true), VoteStatus::Voted);
    assert_eq!(p.vote_on_proposal(0, true), VoteStatus::Voted);
    assert_eq!(p.dao_proposals[0].yes_votes, 2);
    assert_eq!(p.dao_proposals[0].no_votes, 0);
    assert_eq!(p.vote_on_proposal(1, true), VoteStatus::NotFound);
    assert_eq!(p.dao_proposals[0].yes_votes, 2);
    assert_eq!(p.dao_proposals[0].no_votes, 0);
    assert_eq!(p.vote_on_proposal(0, false), VoteStatus::Voted);
    assert_eq!(p.dao_proposals[0].yes_votes, 2);
    assert_eq!(p.dao_proposals[0].no_votes, 1);
}

#[test]
fn token_config_defaults_and_overwrites() {
    let mut p = Platform::new();
    assert_eq!(p.config.reward_per_course, 10);
    assert_eq!(p.config.cost_to_enroll, 5);
    p.set_token_reward(25);
    p.set_cost_to_enroll(0);
    assert_eq!(p.config.reward_per_course, 25);
    assert_eq!(p.config.cost_to_enroll, 0);
}

#[test]
fn moderation_lists_append_without_deduplication() {
    let mut p = Platform::new();
    let teacher = id(b"teacher");
    p.ban_instructor(&teacher);
    p.ban_instructor(&teacher);
    assert_eq!(p.banned_instructors.len(), 2);
    let alice = id(b"alice");
    p.remove_student(&alice);
    p.remove_student(&alice);
    assert_eq!(p.removed_students.len(), 2);
}

#[test]
fn browse_and_list_my_courses_filter_by_instructor() {
    let mut p = Platform::new();
    let t1 = id(b"teacher-1");
    let t2 = id(b"teacher-2");
    p.request_new_course(&t1, 1, "A".to_string(), "a".to_string(), "T1".to_string());
    p.request_new_course(&t2, 2, "B".to_string(), "b".to_string(), "T2".to_string());
    p.request_new_course(&t1, 3, "C".to_string(), "c".to_string(), "T1".to_string());
    assert_eq!(p.approve_course_request(1), ApproveStatus::Approved);
    assert_eq!(p.approve_course_request(2), ApproveStatus::Approved);
    assert_eq!(p.approve_course_request(3), ApproveStatus::Approved);
    let all = p.browse_courses();
    assert_eq!(all.len(), 3);
    let mine = p.list_my_courses(&t1);
    assert_eq!(mine.len(), 2);
    assert_eq!(mine[0].id, 1);
    assert_eq!(mine[1].id, 3);
    assert!(p.list_my_courses(&id(b"someone-else")).is_empty());
}

#[test]
fn list_enrolled_students_returns_the_course_roster() {
    let mut p = Platform::new();
    let alice = id(b"alice");
    let bob = id(b"bob");
    set_profile(&mut p, &alice, "Alice", "1", "a@example");
    set_profile(&mut p, &bob, "Bob", "2", "b@example");
    assert_eq!(p.enroll_in_course(&alice, 9), EnrollStatus::Enrolled);
    assert_eq!(p.enroll_in_course(&bob, 9), EnrollStatus::Enrolled);
    assert_eq!(p.enroll_in_course(&bob, 10), EnrollStatus::Enrolled);
    let roster = p.list_enrolled_students(9);
    assert_eq!(roster.len(), 2);
    assert_eq!(roster[0].student_name, "Alice");
    assert_eq!(roster[0].roll_no, "1");
    assert_eq!(roster[1].student_name, "Bob");
    assert!(p.list_enrolled_students(11).is_empty());
}

#[test]
fn list_pending_requests_keeps_insertion_order() {
    let mut p = Platform::new();
    let teacher = id(b"teacher");
    p.request_new_course(&teacher, 5, "A".to_string(), "a".to_string(), "T".to_string());
    p.request_new_course(&teacher, 6, "B".to_string(), "b".to_string(), "T".to_string());
    let pending = p.list_pending_requests();
    assert_eq!(pending.len(), 2);
    assert_eq!(pending[0].id, 5);
    assert_eq!(pending[1].id, 6);
    assert_eq!(pending[1].instructor_name, "T");
}

#[test]
fn view_dao_proposals_snapshots_in_order() {
    let mut p = Platform::new();
    p.add_dao_proposal("first".to_string());
    p.add_dao_proposal("second".to_string());
    assert_eq!(p.vote_on_proposal(1, false), VoteStatus::Voted);
    let proposals = p.view_dao_proposals();
    assert_eq!(proposals.len(), 2);
    assert_eq!(proposals[0].text, "first");
    assert_eq!(proposals[1].text, "second");
    assert_eq!(proposals[1].no_votes, 1);
}

#[test]
fn approving_a_request_with_a_taken_id_overwrites_the_course() {
    let mut p = Platform::new();
    let t1 = id(b"teacher-1");
    let t2 = id(b"teacher-2");
    p.request_new_course(&t1, 8, "Old".to_string(), "o".to_string(), "T1".to_string());
    p.request_new_course(&t2, 8, "New".to_string(), "n".to_string(), "T2".to_string());
    assert_eq!(p.approve_course_request(8), ApproveStatus::Approved);
    assert_eq!(p.approve_course_request(8), ApproveStatus::Approved);
    assert_eq!(p.courses.len(), 1);
    assert_eq!(p.courses[0].title, "New");
    assert!(p.pending_requests.is_empty());
}

#[test]
fn identity_comparison_is_by_bytes() {
    let a1 = id(b"alice");
    let a2 = id(b"alice");
    let b = id(b"alicf");
    assert!(a1.same_as(&a2));
    assert!(!a1.same_as(&b));
    assert!(!a1.same_as(&id(b"alic")));
    let c = a1.clone();
    assert!(c.same_as(&a1));
}
