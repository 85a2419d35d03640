use forseti::history::get_file_versions;
use forseti::model::{ResolveConflictRequest, SaveStatus, SaveVersionedFileRequest};
use forseti::pipeline::{plan_save, resolve_conflicts, save_clean, save_first_version, save_stale, SaveStep};
use forseti::store::{create_branch, register_active_editor, unregister_active_editor, VersionedFileMetadata};

fn save_request(content: &str, base: &str, message: &str) -> SaveVersionedFileRequest {
    SaveVersionedFileRequest {
        content: content.to_string(),
        base_version: base.to_string(),
        message: Some(message.to_string()),
        branch: None,
    }
}

fn create_test_file(content: &str) -> VersionedFileMetadata {
    let meta = VersionedFileMetadata::empty("test-file", 0);
    let request = save_request(content, "initial", "Initial version");
    assert_eq!(plan_save(&meta, "initial", "user", &None), SaveStep::Initialize);
    let id = meta.new_version_id();
    let (meta, response) = save_first_version("test-file", "test.md", &request, "user", None, id, 1);
    assert_eq!(response.status, SaveStatus::Saved);
    meta
}

#[test]
fn test_file_versioning() {
    let initial_content = "# Test File\n\nThis is version 1.";
    let second_content = "# Test File\n\nThis is version 2.";
    let mut meta = create_test_file(initial_content);

    register_active_editor(&mut meta, "user", None, 2);
    assert_eq!(meta.active_editors.len(), 1, "Should return active editors");

    let (versions, _, initial_version) = get_file_versions(&meta, None, None, None).unwrap();
    assert_eq!(versions.len(), 1, "Should have initial version");

    assert_eq!(plan_save(&meta, &initial_version, "user", &None), SaveStep::Commit);
    let id = meta.new_version_id();
    let request = save_request(second_content, &initial_version, "Updated content");
    let response = save_clean(&mut meta, &request, "user", id, 3);
    assert_eq!(response.status, SaveStatus::Saved, "Should save successfully");

    let (updated_versions, _, _) = get_file_versions(&meta, None, None, None).unwrap();
    assert_eq!(updated_versions.len(), 2, "Should have two versions now");
    assert!(meta.has_version(&initial_version));

    unregister_active_editor(&mut meta, "user");
    assert!(meta.active_editors.is_empty());
}

#[test]
fn test_conflict_detection() {
    let initial_content = "# Test File\n\nLine 1\nLine 2\nLine 3";
    let user1_content = "# Test File\n\nLine 1 modified by user 1\nLine 2\nLine 3";
    let user2_content = "# Test File\n\nLine 1\nLine 2 modified by user 2\nLine 3";
    let mut meta = create_test_file(initial_content);
    let initial_version = meta.current_version.clone();

    let id1 = meta.new_version_id();
    let save1 = save_request(user1_content, &initial_version, "User 1 changes");
    let response1 = save_clean(&mut meta, &save1, "user1", id1, 2);
    assert_eq!(response1.status, SaveStatus::Saved, "First save should succeed");

    assert_eq!(plan_save(&meta, &initial_version, "user2", &None), SaveStep::Merge);
    let id2 = meta.new_version_id();
    let save2 = save_request(user2_content, &initial_version, "User 2 changes");
    let (response2, merged) =
        save_stale(&mut meta, &save2, "user2", initial_content, user1_content, id2, 3);
    assert_eq!(response2.status, SaveStatus::AutoMerged, "Should auto-merge non-conflicting changes");
    assert_eq!(
        merged.as_deref(),
        Some("# Test File\n\nLine 1 modified by user 1\nLine 2 modified by user 2\nLine 3")
    );
}

#[test]
fn test_manual_conflict_resolution() {
    let initial_content = "# Test File\n\nLine 1\nLine 2\nLine 3";
    let user1_content = "# Test File\n\nLine 1 modified by user 1\nLine 2\nLine 3";
    let user2_content = "# Test File\n\nLine 1 modified by user 2\nLine 2\nLine 3";
    let mut meta = create_test_file(initial_content);
    let initial_version = meta.current_version.clone();

    let id1 = meta.new_version_id();
    let save1 = save_request(user1_content, &initial_version, "User 1 changes");
    let response1 = save_clean(&mut meta, &save1, "user1", id1, 2);
    let user1_version = response1.new_version.unwrap();

    let id2 = meta.new_version_id();
    let save2 = save_request(user2_content, &initial_version, "User 2 changes");
    let (response2, _) =
        save_stale(&mut meta, &save2, "user2", initial_content, user1_content, id2, 3);
    assert_eq!(response2.status, SaveStatus::Conflict, "Should detect conflict on same line");

    let merged_content = "# Test File\n\nLine 1 merged\nLine 2\nLine 3";
    let resolve = ResolveConflictRequest {
        content: merged_content.to_string(),
        base_version: initial_version,
        current_version: user1_version,
        message: "Manually resolved conflict".to_string(),
    };
    let id3 = meta.new_version_id();
    let (response3, resolved) = resolve_conflicts(&mut meta, &resolve, "user2", id3, 4);
    assert_eq!(response3.status, SaveStatus::Saved, "Should save resolved content");
    assert_eq!(resolved, merged_content);
}

#[test]
fn test_branch_creation() {
    let initial_content = "# Test File\n\nThis is the main branch.";
    let branch_content = "# Test File\n\nThis is a feature branch.";
    let mut meta = create_test_file(initial_content);
    let initial_version = meta.current_version.clone();

    let branch_id = meta.new_branch_id();
    let version_id = meta.new_version_id();
    let branch = create_branch(
        &mut meta,
        "feature-branch",
        &initial_version,
        "user",
        Some(branch_content),
        branch_id,
        version_id,
        2,
    )
    .unwrap();
    assert!(!branch.branch_id.is_empty(), "Should return branch ID");

    let (versions, _, _) = get_file_versions(&meta, Some(&branch.branch_id), None, None).unwrap();
    assert!(!versions.is_empty(), "Should have branch versions");
}
