use forseti::diff::{attempt_auto_merge, compare_versions, diff_text};
use forseti::history::get_file_versions;
use forseti::lock::{decimal_string, FileLockRegistry, GuardDecision, GuardedRequest};
use forseti::markers::{create_marked_merge, extract_resolved_content};
use forseti::model::{
    MergeBranchRequest, ResolveConflictRequest, SaveStatus, SaveVersionedFileRequest, ServiceError,
};
use forseti::paths::{get_username_from_email, get_version_metadata_path, get_version_path};
use forseti::pipeline::{
    complete_merge, plan_merge, plan_save, resolve_conflicts, save_clean, save_first_version,
    save_stale, MergeOutcome, SaveStep,
};
use forseti::store::{
    create_branch, has_other_active_editors, initialize_file_versioning, register_active_editor,
    unregister_active_editor, update_branch_head, FileVersion, VersionedFileMetadata,
};
use forseti::text::{joined, lines_of};

const HELLO_SHA256: &str = "5891b5b522d5df086d0ff0b110fbd9d21bb4fc7163af34d08286a2e846f6be03";
const EMPTY_SHA256: &str = "e3b0c44298fc1c149afbf4c8996fb92427ae41e4649b934ca495991b7852b855";

fn request(content: &str, base: &str) -> SaveVersionedFileRequest {
    SaveVersionedFileRequest {
        content: content.to_string(),
        base_version: base.to_string(),
        message: None,
        branch: None,
    }
}

fn bootstrap(content: &str) -> VersionedFileMetadata {
    initialize_file_versioning("f", "f.md", content, "owner", None, "V0".to_string(), 1_000)
}

fn version_ids(page: &[FileVersion]) -> Vec<String> {
    page.iter().map(|v| v.version_id.clone()).collect()
}

#[test]
fn first_save_bootstraps() {
    let meta = VersionedFileMetadata::empty("f1", 0);
    assert_eq!(plan_save(&meta, "initial", "alice", &None), SaveStep::Initialize);
    let (meta, response) = save_first_version(
        "f1",
        "f1.md",
        &request("hello\n", "initial"),
        "alice",
        None,
        "V0".to_string(),
        5,
    );
    assert_eq!(response.status, SaveStatus::Saved);
    assert_eq!(response.new_version.as_deref(), Some("V0"));
    assert_eq!(meta.current_version, "V0");
    assert_eq!(meta.versions.len(), 1);
    assert_eq!(meta.versions[0].content_hash, HELLO_SHA256);
    let (page, total, current) = get_file_versions(&meta, None, None, None).unwrap();
    assert_eq!(total, 1);
    assert_eq!(current, "V0");
    assert_eq!(version_ids(&page), vec!["V0".to_string()]);
}

#[test]
fn auto_merge_on_disjoint_lines() {
    let mut meta = bootstrap("L1\nL2\nL3\n");
    assert_eq!(plan_save(&meta, "V0", "a", &None), SaveStep::Commit);
    let saved = save_clean(&mut meta, &request("L1a\nL2\nL3\n", "V0"), "a", "V1".to_string(), 2_000);
    assert_eq!(saved.status, SaveStatus::Saved);
    assert_eq!(saved.new_version.as_deref(), Some("V1"));
    assert_eq!(plan_save(&meta, "V0", "b", &None), SaveStep::Merge);
    let (response, merged) = save_stale(
        &mut meta,
        &request("L1\nL2b\nL3\n", "V0"),
        "b",
        "L1\nL2\nL3\n",
        "L1a\nL2\nL3\n",
        "V2".to_string(),
        3_000,
    );
    assert_eq!(response.status, SaveStatus::AutoMerged);
    assert_eq!(response.new_version.as_deref(), Some("V2"));
    assert_eq!(merged.as_deref(), Some("L1a\nL2b\nL3\n"));
    assert_eq!(meta.current_version, "V2");
    assert_eq!(meta.versions[2].message.as_deref(), Some("Auto-merged changes"));
}

#[test]
fn hard_conflict_on_same_line() {
    let mut meta = bootstrap("L1\nL2\nL3\n");
    save_clean(&mut meta, &request("A1\nL2\nL3\n", "V0"), "a", "V1".to_string(), 2_000);
    let (response, merged) = save_stale(
        &mut meta,
        &request("B1\nL2\nL3\n", "V0"),
        "b",
        "L1\nL2\nL3\n",
        "A1\nL2\nL3\n",
        "V2".to_string(),
        3_000,
    );
    assert_eq!(response.status, SaveStatus::Conflict);
    assert_eq!(response.new_version.as_deref(), Some("V1"));
    assert!(merged.is_none());
    assert_eq!(meta.versions.len(), 2);
    let conflicts = response.conflicts.unwrap();
    assert_eq!(conflicts.len(), 1);
    assert_eq!(conflicts[0].base_content, "L1");
    assert_eq!(conflicts[0].your_content, "B1");
    assert_eq!(conflicts[0].current_content, "A1");
    let resolve = ResolveConflictRequest {
        content: "MERGED\nL2\nL3\n".to_string(),
        base_version: "V0".to_string(),
        current_version: "V1".to_string(),
        message: "resolved".to_string(),
    };
    let (response, resolved) = resolve_conflicts(&mut meta, &resolve, "b", "V2".to_string(), 4_000);
    assert_eq!(response.status, SaveStatus::Saved);
    assert_eq!(response.new_version.as_deref(), Some("V2"));
    assert_eq!(resolved, "MERGED\nL2\nL3\n");
    assert_eq!(meta.current_version, "V2");
}

#[test]
fn lock_contention() {
    let mut locks = FileLockRegistry::new();
    let meta = bootstrap("x\n");
    assert!(locks.try_acquire_lock("f", "alice", 300, 10_000));
    let holder = locks.is_file_locked("f", 10_001);
    assert_eq!(holder.as_deref(), Some("alice"));
    assert_eq!(plan_save(&meta, "V0", "bob", &holder), SaveStep::Locked);
    assert_eq!(plan_save(&meta, "V0", "alice", &holder), SaveStep::Commit);
    assert!(!locks.can_user_edit("f", "bob", 10_001));
    let later = locks.is_file_locked("f", 310_000);
    assert_eq!(later, None);
    assert_eq!(plan_save(&meta, "V0", "bob", &later), SaveStep::Commit);
    assert!(locks.can_user_edit("f", "bob", 310_000));
}

#[test]
fn branch_create_and_merge_clean() {
    let mut meta = bootstrap("L1\nL2\nL3\n");
    let branch = create_branch(
        &mut meta,
        "feat",
        "V0",
        "a",
        Some("L1\nL2\nL3x\n"),
        "Bf".to_string(),
        "V1".to_string(),
        2_000,
    )
    .unwrap();
    assert_eq!(branch.head_version, "V1");
    assert_eq!(branch.base_version, "V0");
    assert_eq!(meta.current_version, "V0");
    assert_eq!(meta.versions[1].message.as_deref(), Some("Created branch: feat"));
    save_clean(&mut meta, &request("L1\nL2y\nL3\n", "V0"), "b", "V2".to_string(), 3_000);
    let merge = MergeBranchRequest {
        source_branch: "Bf".to_string(),
        target_branch: "main".to_string(),
        message: None,
    };
    let plan = plan_merge(&meta, &merge).unwrap();
    assert_eq!(plan.source_head, "V1");
    assert_eq!(plan.base_version, "V0");
    assert_eq!(plan.target_version, "V2");
    let outcome = complete_merge(
        &mut meta,
        &merge,
        "a",
        "L1\nL2\nL3\n",
        "L1\nL2\nL3x\n",
        "L1\nL2y\nL3\n",
        "V3".to_string(),
        4_000,
    )
    .unwrap();
    match outcome {
        MergeOutcome::Merged { new_version, content } => {
            assert_eq!(new_version, "V3");
            assert_eq!(content, "L1\nL2y\nL3x\n");
        }
        MergeOutcome::Conflict { .. } => panic!("expected a clean merge"),
    }
    assert_eq!(meta.current_version, "V3");
    assert_eq!(meta.versions[3].message.as_deref(), Some("Merged branch Bf into main"));
}

#[test]
fn merge_into_branch_moves_its_head() {
    let mut meta = bootstrap("a\nb\n");
    create_branch(&mut meta, "one", "V0", "u", Some("a1\nb\n"), "B1".to_string(), "V1".to_string(), 1)
        .unwrap();
    create_branch(&mut meta, "two", "V0", "u", Some("a\nb2\n"), "B2".to_string(), "V2".to_string(), 2)
        .unwrap();
    let merge = MergeBranchRequest {
        source_branch: "B1".to_string(),
        target_branch: "B2".to_string(),
        message: Some("combine".to_string()),
    };
    let outcome =
        complete_merge(&mut meta, &merge, "u", "a\nb\n", "a1\nb\n", "a\nb2\n", "V3".to_string(), 3)
            .unwrap();
    assert!(matches!(outcome, MergeOutcome::Merged { .. }));
    assert_eq!(meta.current_version, "V0");
    assert_eq!(meta.branches[1].head_version, "V3");
    assert_eq!(meta.versions[3].message.as_deref(), Some("combine"));
}

#[test]
fn merge_conflict_renders_markers() {
    let mut meta = bootstrap("L1\n");
    let merge = MergeBranchRequest {
        source_branch: "S".to_string(),
        target_branch: "main".to_string(),
        message: None,
    };
    create_branch(&mut meta, "s", "V0", "u", Some("S1\n"), "S".to_string(), "V1".to_string(), 1)
        .unwrap();
    let outcome =
        complete_merge(&mut meta, &merge, "u", "L1\n", "S1\n", "T1\n", "V2".to_string(), 2).unwrap();
    match outcome {
        MergeOutcome::Conflict { conflicts, marked_content } => {
            assert_eq!(conflicts.len(), 1);
            assert_eq!(
                marked_content,
                "<<<<<<< CURRENT CHANGES\nT1\n=======\nS1\n>>>>>>> YOUR CHANGES\n"
            );
        }
        MergeOutcome::Merged { .. } => panic!("expected a conflict"),
    }
    assert_eq!(meta.versions.len(), 2);
    assert_eq!(meta.current_version, "V0");
}

#[test]
fn merge_refuses_unknown_branches() {
    let mut meta = bootstrap("a\n");
    let missing_source = MergeBranchRequest {
        source_branch: "nope".to_string(),
        target_branch: "main".to_string(),
        message: None,
    };
    assert!(matches!(plan_merge(&meta, &missing_source), Err(ServiceError::BadRequest(_))));
    create_branch(&mut meta, "s", "V0", "u", None, "S".to_string(), "V9".to_string(), 1).unwrap();
    let missing_target = MergeBranchRequest {
        source_branch: "S".to_string(),
        target_branch: "elsewhere".to_string(),
        message: None,
    };
    assert!(matches!(plan_merge(&meta, &missing_target), Err(ServiceError::BadRequest(_))));
    let outcome =
        complete_merge(&mut meta, &missing_target, "u", "a\n", "a\n", "a\n", "V1".to_string(), 2);
    assert!(matches!(outcome, Err(ServiceError::BadRequest(_))));
    assert_eq!(meta.versions.len(), 1);
}

#[test]
fn history_ordering_and_pagination() {
    let mut meta = bootstrap("v0");
    save_clean(&mut meta, &request("v1", "V0"), "u", "V1".to_string(), 2_000);
    save_clean(&mut meta, &request("v2", "V1"), "u", "V2".to_string(), 3_000);
    save_clean(&mut meta, &request("v3", "V2"), "u", "V3".to_string(), 4_000);
    let (page, total, current) = get_file_versions(&meta, None, Some(2), Some(1)).unwrap();
    assert_eq!(version_ids(&page), vec!["V2".to_string(), "V1".to_string()]);
    assert_eq!(total, 4);
    assert_eq!(current, "V3");
    let (all, _, _) = get_file_versions(&meta, None, None, None).unwrap();
    assert_eq!(version_ids(&all), vec!["V3", "V2", "V1", "V0"]);
    let (past_end, _, _) = get_file_versions(&meta, None, Some(3), Some(9)).unwrap();
    assert!(past_end.is_empty());
}

#[test]
fn history_breaks_timestamp_ties_by_id() {
    let mut meta = initialize_file_versioning("f", "f.md", "x", "o", None, "b".to_string(), 7);
    save_clean(&mut meta, &request("y", "b"), "u", "c".to_string(), 7);
    save_clean(&mut meta, &request("z", "c"), "u", "a".to_string(), 7);
    let (all, _, _) = get_file_versions(&meta, None, None, None).unwrap();
    assert_eq!(version_ids(&all), vec!["a", "b", "c"]);
}

#[test]
fn history_of_a_branch_is_its_head() {
    let mut meta = bootstrap("x\n");
    create_branch(&mut meta, "b", "V0", "u", Some("y\n"), "B".to_string(), "V1".to_string(), 5)
        .unwrap();
    let (page, total, current) = get_file_versions(&meta, Some("B"), None, None).unwrap();
    assert_eq!(version_ids(&page), vec!["V1"]);
    assert_eq!(total, 1);
    assert_eq!(current, "V0");
    assert!(matches!(
        get_file_versions(&meta, Some("missing"), None, None),
        Err(ServiceError::BadRequest(_))
    ));
}

#[test]
fn lock_renew_keeps_acquisition_time() {
    let mut locks = FileLockRegistry::new();
    assert!(locks.try_acquire_lock("f", "u", 300, 1_000));
    assert!(locks.try_acquire_lock("f", "u", 60, 200_000));
    let info = locks.get_all_locks(200_000);
    assert_eq!(info.len(), 1);
    assert_eq!(info[0].acquired_at, "199 seconds ago");
    assert_eq!(info[0].expires_in, "60 seconds");
    assert!(!info[0].is_expired);
    assert_eq!(locks.is_file_locked("f", 259_999).as_deref(), Some("u"));
    assert_eq!(locks.is_file_locked("f", 260_000), None);
}

#[test]
fn lock_held_until_expiry() {
    let mut locks = FileLockRegistry::new();
    assert!(locks.try_acquire_lock("f", "a", 300, 0));
    for t in [0u64, 1, 150_000, 299_999] {
        assert_eq!(locks.is_file_locked("f", t).as_deref(), Some("a"));
        assert!(!locks.try_acquire_lock("f", "b", 300, t));
    }
    assert_eq!(locks.cleanup_expired_locks(299_999), 0);
    assert_eq!(locks.is_file_locked("f", 300_000), None);
    assert!(locks.try_acquire_lock("f", "b", 300, 300_000));
    assert_eq!(locks.is_file_locked("f", 300_001).as_deref(), Some("b"));
}

#[test]
fn lock_release_and_cleanup() {
    let mut locks = FileLockRegistry::new();
    assert!(locks.try_acquire_lock("f", "a", 10, 0));
    assert!(locks.try_acquire_lock("g", "a", 100, 0));
    assert!(!locks.release_lock("f", "b"));
    assert!(!locks.release_lock("h", "a"));
    assert!(locks.release_lock("f", "a"));
    assert_eq!(locks.is_file_locked("f", 1), None);
    assert!(locks.try_acquire_lock("f", "b", 10, 1));
    assert_eq!(locks.cleanup_expired_locks(50_000), 1);
    assert_eq!(locks.get_all_locks(50_000).len(), 1);
    assert_eq!(locks.is_file_locked("g", 50_000).as_deref(), Some("a"));
    assert_eq!(locks.cleanup_expired_locks(100_000), 1);
    assert!(locks.get_all_locks(100_000).is_empty());
}

#[test]
fn lock_expiry_saturates() {
    let mut locks = FileLockRegistry::new();
    assert!(locks.try_acquire_lock("f", "a", u64::MAX, 5));
    let info = locks.get_all_locks(5);
    assert_eq!(info[0].expires_in, format!("{} seconds", decimal_string((u64::MAX - 5) / 1000)));
}

#[test]
fn marker_strip_keeps_your_side() {
    let marked = create_marked_merge("L1\nL2\n", "Y1\nL2\n", "T1\nL2\n");
    assert_eq!(marked, "<<<<<<< CURRENT CHANGES\nT1\n=======\nY1\n>>>>>>> YOUR CHANGES\nL2\n");
    let resolved = extract_resolved_content(&marked);
    assert_eq!(resolved, "Y1\nL2\n");
    assert!(resolved.contains("Y1"));
}

#[test]
fn marker_strip_without_markers_is_identity() {
    for text in ["", "a", "a\nb\n", "=======\n>>>>>>> x\n", "<<<<<<<x\n", "tail <<<<<<< open"] {
        assert_eq!(extract_resolved_content(text), text);
    }
}

#[test]
fn marker_strip_drops_current_side() {
    let text = "top\n<<<<<<< CURRENT CHANGES\nmine\n=======\ntheirs\n>>>>>>> YOUR CHANGES\nend";
    assert_eq!(extract_resolved_content(text), "top\ntheirs\nend");
}

#[test]
fn marked_merge_without_conflict_is_the_merge() {
    assert_eq!(create_marked_merge("a\nb\n", "a1\nb\n", "a\nb1\n"), "a1\nb1\n");
}

#[test]
fn two_saves_on_the_same_base() {
    let mut meta = bootstrap("L1\nL2\n");
    assert_eq!(plan_save(&meta, "V0", "a", &None), SaveStep::Commit);
    let first = save_clean(&mut meta, &request("A\nL2\n", "V0"), "a", "V1".to_string(), 1);
    assert_eq!(first.status, SaveStatus::Saved);
    assert_eq!(plan_save(&meta, "V0", "b", &None), SaveStep::Merge);
    let (second, _) = save_stale(
        &mut meta,
        &request("B\nL2\n", "V0"),
        "b",
        "L1\nL2\n",
        "A\nL2\n",
        "V2".to_string(),
        2,
    );
    assert_eq!(second.status, SaveStatus::Conflict);
    assert_eq!(meta.current_version, "V1");
}

#[test]
fn register_editor_twice() {
    let mut meta = bootstrap("x");
    register_active_editor(&mut meta, "u", None, 1);
    register_active_editor(&mut meta, "v", None, 2);
    register_active_editor(&mut meta, "u", Some("feat".to_string()), 3);
    assert_eq!(meta.active_editors.len(), 2);
    assert_eq!(meta.active_editors.iter().filter(|e| e.user_id == "u").count(), 1);
    assert_eq!(meta.active_editors[1].user_id, "u");
    assert_eq!(meta.active_editors[1].editing_since, 3);
    assert_eq!(meta.active_editors[1].branch.as_deref(), Some("feat"));
    assert!(has_other_active_editors(&meta, "u"));
    unregister_active_editor(&mut meta, "v");
    assert!(!has_other_active_editors(&meta, "u"));
    unregister_active_editor(&mut meta, "u");
    assert!(meta.active_editors.is_empty());
}

#[test]
fn empty_content_is_a_valid_version() {
    let mut meta = bootstrap("");
    assert_eq!(meta.versions[0].content_hash, EMPTY_SHA256);
    let response = save_clean(&mut meta, &request("", "V0"), "u", "V1".to_string(), 2);
    assert_eq!(response.status, SaveStatus::Saved);
    assert_eq!(meta.versions[1].content_hash, EMPTY_SHA256);
    assert_eq!(attempt_auto_merge("", "", "").as_deref(), Some(""));
}

#[test]
fn initial_base_on_existing_file_commits() {
    let mut meta = bootstrap("a");
    assert_eq!(plan_save(&meta, "initial", "u", &None), SaveStep::Commit);
    let response = save_clean(&mut meta, &request("b", "initial"), "u", "V1".to_string(), 2);
    assert_eq!(response.status, SaveStatus::Saved);
    assert_eq!(meta.current_version, "V1");
}

#[test]
fn identical_texts_have_no_changes() {
    for text in ["", "a", "L1\nL2\nL3\n", "x\n\ny"] {
        let diff = compare_versions(text, text, text);
        assert!(diff.changes.is_empty());
        assert!(diff.conflicts.is_empty());
        assert!(diff.can_auto_merge);
    }
}

#[test]
fn diff_text_reports_line_edits() {
    let changes = diff_text("a\nb\nc\n", "a\nB\nc\nd\n");
    let edits: Vec<(usize, usize, &str)> =
        changes.iter().map(|c| (c.start_line, c.end_line, c.content.as_str())).collect();
    assert_eq!(edits, vec![(1, 2, "b\n"), (2, 2, "B\n"), (3, 3, "d\n")]);
}

#[test]
fn compare_versions_concatenates_both_sides() {
    let diff = compare_versions("a\nb\n", "a\nx\n", "y\nb\n");
    assert_eq!(diff.changes.len(), 4);
    assert_eq!(diff.changes[0].content, "b\n");
    assert_eq!(diff.changes[2].content, "a\n");
    assert!(diff.conflicts.is_empty());
    assert!(diff.can_auto_merge);
    assert_eq!(diff.base_version, "base");
    assert_eq!(diff.compare_version, "compare");
}

#[test]
fn auto_merge_takes_the_longer_side_and_refuses_overlaps() {
    assert_eq!(attempt_auto_merge("a\nb", "a\nc", "a\nc"), None);
    assert_eq!(attempt_auto_merge("a", "a\nx", "a").as_deref(), Some("a\nx"));
    assert_eq!(attempt_auto_merge("a\nb", "x\nb", "y\nb"), None);
}

#[test]
fn content_hash_of_saved_version() {
    let mut meta = bootstrap("seed");
    save_clean(&mut meta, &request("hello\n", "V0"), "u", "V1".to_string(), 2);
    assert_eq!(meta.versions[1].content_hash, HELLO_SHA256);
    assert_ne!(meta.versions[0].content_hash, HELLO_SHA256);
}

#[test]
fn fresh_version_ids() {
    let meta = bootstrap("x");
    let a = meta.new_version_id();
    assert_ne!(a, "V0");
    assert_eq!(a.len(), 36);
    assert!(!meta.has_version(&a));
    let b = meta.new_branch_id();
    assert_eq!(b.len(), 36);
}

#[test]
fn branch_from_unknown_base_is_refused() {
    let mut meta = bootstrap("x");
    let r = create_branch(&mut meta, "b", "V7", "u", None, "B".to_string(), "V1".to_string(), 1);
    assert!(matches!(r, Err(ServiceError::BadRequest(_))));
    assert!(meta.branches.is_empty());
    let ok = create_branch(&mut meta, "b", "initial", "u", None, "B".to_string(), "V1".to_string(), 1)
        .unwrap();
    assert_eq!(ok.head_version, "initial");
    assert_eq!(meta.versions.len(), 1);
}

#[test]
fn update_branch_head_checks_branch_and_version() {
    let mut meta = bootstrap("x");
    create_branch(&mut meta, "b", "V0", "u", None, "B".to_string(), "V1".to_string(), 1).unwrap();
    assert!(matches!(update_branch_head(&mut meta, "nope", "V0"), Err(ServiceError::BadRequest(_))));
    assert!(matches!(update_branch_head(&mut meta, "B", "V5"), Err(ServiceError::BadRequest(_))));
    save_clean(&mut meta, &request("y", "V0"), "u", "V1".to_string(), 2);
    assert!(update_branch_head(&mut meta, "B", "V1").is_ok());
    assert_eq!(meta.branches[0].head_version, "V1");
}

#[test]
fn error_status_codes() {
    assert_eq!(ServiceError::InternalServerError.status_code(), 500);
    assert_eq!(ServiceError::BadRequest("x".to_string()).status_code(), 400);
    assert_eq!(ServiceError::Unauthorized.status_code(), 401);
    assert_eq!(ServiceError::NotFound.status_code(), 404);
    assert_eq!(ServiceError::Forbidden.status_code(), 403);
    assert_eq!(ServiceError::Conflict("x".to_string()).status_code(), 409);
}

#[test]
fn storage_paths() {
    assert_eq!(get_version_path("f", "v"), "./storage/versions/f/v.content");
    assert_eq!(get_version_metadata_path("f"), "./storage/versions/f/metadata.json");
}

#[test]
fn usernames_from_emails() {
    assert_eq!(get_username_from_email("ada@example.com"), "ada");
    assert_eq!(get_username_from_email("plain"), "plain");
    assert_eq!(get_username_from_email("@x"), "");
}

#[test]
fn decimal_numerals() {
    assert_eq!(decimal_string(0), "0");
    assert_eq!(decimal_string(1234), "1234");
    assert_eq!(decimal_string(u64::MAX), u64::MAX.to_string());
}

#[test]
fn lines_round_trip() {
    for text in ["", "a", "a\n", "\n\n", "a\r\nb"] {
        assert_eq!(joined(&lines_of(text)), text);
    }
    assert_eq!(lines_of("a\nb\n"), vec!["a".to_string(), "b".to_string(), String::new()]);
}

#[test]
fn lock_guard_for_edit_save_and_release() {
    let mut locks = FileLockRegistry::new();
    assert!(matches!(locks.apply_lock_guard(GuardedRequest::Edit, "f", "a", 0), GuardDecision::Proceed));
    assert_eq!(locks.is_file_locked("f", 1).as_deref(), Some("a"));
    match locks.apply_lock_guard(GuardedRequest::Save, "f", "b", 1_000) {
        GuardDecision::Refuse { holder } => assert_eq!(holder, "a"),
        GuardDecision::Proceed => panic!("expected a refusal"),
    }
    assert!(matches!(locks.apply_lock_guard(GuardedRequest::Edit, "f", "b", 1_000), GuardDecision::Refuse { .. }));
    assert!(matches!(locks.apply_lock_guard(GuardedRequest::Save, "f", "a", 1_000), GuardDecision::Proceed));
    assert!(matches!(locks.apply_lock_guard(GuardedRequest::Release, "f", "b", 1_000), GuardDecision::Proceed));
    assert_eq!(locks.is_file_locked("f", 1_000).as_deref(), Some("a"));
    assert!(matches!(locks.apply_lock_guard(GuardedRequest::Release, "f", "a", 1_000), GuardDecision::Proceed));
    assert_eq!(locks.is_file_locked("f", 1_000), None);
    assert!(matches!(locks.apply_lock_guard(GuardedRequest::Edit, "f", "b", 2_000), GuardDecision::Proceed));
    assert!(matches!(locks.apply_lock_guard(GuardedRequest::Save, "f", "a", 302_000), GuardDecision::Proceed));
    assert!(locks.get_all_locks(302_000).is_empty());
}

#[test]
fn history_of_a_branch_without_versions_is_an_internal_failure() {
    let mut meta = VersionedFileMetadata::empty("f", 0);
    create_branch(&mut meta, "b", "initial", "u", None, "B".to_string(), "V1".to_string(), 1)
        .unwrap();
    assert!(matches!(
        get_file_versions(&meta, Some("B"), None, None),
        Err(ServiceError::InternalServerError)
    ));
    assert!(meta.is_well_formed());
}

#[test]
fn malformed_metadata_is_detected() {
    let mut meta = bootstrap("x");
    assert!(meta.is_well_formed());
    meta.current_version = "missing".to_string();
    assert!(!meta.is_well_formed());
    let mut dup = bootstrap("x");
    save_clean(&mut dup, &request("y", "V0"), "u", "V1".to_string(), 2);
    dup.versions[1].version_id = "V0".to_string();
    assert!(!dup.is_well_formed());
}
