//! The save pipeline: the lock guard, the first save, the clean save, the
//! save against a stale base (merge or conflict), conflict resolution and
//! branch merges. Each step takes what the caller read from storage and the
//! lock registry, and says what to store.
use vstd::prelude::*;

use crate::diff::{attempt_auto_merge, auto_merge, compare_versions, three_way_conflicts};
use crate::markers::{create_marked_merge, extract_resolved_content, marked_merge, resolved_content};
use crate::model::{
    conflict_views, Conflict, MergeBranchRequest, ResolveConflictRequest,
    SaveStatus, SaveVersionedFileRequest, SaveVersionedFileResponse, ServiceError,
};
use crate::store::{
    has_branch, has_version, initial_name, initialize_file_versioning, opt_view, recorded_version,
    update_branch_head, version_views, with_head, branch_views, VersionedFileMetadata,
};

verus! {

/// What a save has to do next.
#[derive(PartialEq, Eq, Structural, Clone, Copy, Debug)]
pub enum SaveStep {
    /// Another user holds the edit lock: the save is refused.
    Locked,
    /// The file has no version yet: the content becomes its first.
    Initialize,
    /// The save is against the current version (or `initial`): the content
    /// becomes the new current version.
    Commit,
    /// The save is against an older version: it is merged with the current one.
    Merge,
}

/// The step of a save by `user` against `base`, on a file whose current
/// version is `current`, while `holder` holds the edit lock (if anyone).
pub open spec fn save_step(
    virgin: bool,
    current: Seq<char>,
    base: Seq<char>,
    user: Seq<char>,
    holder: Option<Seq<char>>,
) -> SaveStep {
    if holder matches Some(h) && h != user {
        SaveStep::Locked
    } else if virgin {
        SaveStep::Initialize
    } else if base == current || base == initial_name() {
        SaveStep::Commit
    } else {
        SaveStep::Merge
    }
}

/// Decides the step of a save (see `save_step`).
pub fn plan_save(
    meta: &VersionedFileMetadata,
    base_version: &str,
    user_id: &str,
    lock_holder: &Option<String>,
) -> (r: SaveStep)
    ensures
        r == save_step(
            meta.is_virgin(),
            meta.current_version@,
            base_version@,
            user_id@,
            opt_view(*lock_holder),
        ),
{
    let user = String::from_str(user_id);
    if let Some(h) = lock_holder {
        if !(*h == user) {
            return SaveStep::Locked;
        }
    }
    if meta.versions.len() == 0 {
        return SaveStep::Initialize;
    }
    let base = String::from_str(base_version);
    let initial = String::from_str("initial");
    proof {
        reveal_strlit("initial");
    }
    assert(initial@ =~= initial_name());
    if base == meta.current_version || base == initial {
        SaveStep::Commit
    } else {
        SaveStep::Merge
    }
}

/// A save against `initial` on a file that has versions commits a new
/// head, unless another user holds the lock.
pub proof fn lemma_initial_base_commits(
    current: Seq<char>,
    user: Seq<char>,
    holder: Option<Seq<char>>,
)
    requires
        !(holder matches Some(h) && h != user),
    ensures
        save_step(false, current, initial_name(), user, holder) == SaveStep::Commit,
{
}

/// Two saves against the same current version: the first (where the lock
/// lets it through) commits; the second, which then stands against an older
/// version, can only merge or be refused, never overwrite. Here `new_id` is
/// the id the first save recorded, fresh in the file.
pub proof fn lemma_same_base_saves_never_both_commit(
    meta: VersionedFileMetadata,
    base: Seq<char>,
    new_id: Seq<char>,
    first_user: Seq<char>,
    second_user: Seq<char>,
    first_holder: Option<Seq<char>>,
    second_holder: Option<Seq<char>>,
)
    requires
        meta.wf(),
        !meta.is_virgin(),
        base == meta.current_version@,
        base != initial_name(),
        !has_version(meta.versions@, new_id),
    ensures
        save_step(false, meta.current_version@, base, first_user, first_holder) == SaveStep::Commit
            || save_step(false, meta.current_version@, base, first_user, first_holder)
            == SaveStep::Locked,
        save_step(false, new_id, base, second_user, second_holder) == SaveStep::Merge || save_step(
            false,
            new_id,
            base,
            second_user,
            second_holder,
        ) == SaveStep::Locked,
{
    assert(has_version(meta.versions@, meta.current_version@));
}

/// The first save of a file: its content becomes the initial version
/// `version_id`, attributed to `user_id`.
pub fn save_first_version(
    file_id: &str,
    file_name: &str,
    request: &SaveVersionedFileRequest,
    user_id: &str,
    team_id: Option<String>,
    version_id: String,
    now: i64,
) -> (r: (VersionedFileMetadata, SaveVersionedFileResponse))
    ensures
        r.0.wf(),
        version_views(r.0.versions@) == seq![
            recorded_version(
                version_id@,
                now as int,
                user_id@,
                Some("Initial version"@),
                request.content@,
            ),
        ],
        r.0.current_version@ == version_id@,
        r.0.file_id@ == file_id@,
        r.1.status == SaveStatus::Saved,
        opt_view(r.1.new_version) == Some(version_id@),
        r.1.conflicts is None,
{
    let meta = initialize_file_versioning(
        file_id,
        file_name,
        request.content.as_str(),
        user_id,
        team_id,
        version_id,
        now,
    );
    let response = SaveVersionedFileResponse {
        status: SaveStatus::Saved,
        new_version: Some(meta.current_version.clone()),
        conflicts: None,
        message: String::from_str("File saved with version control enabled"),
    };
    (meta, response)
}

/// A save against the current version: the content becomes the new current
/// version `version_id`, with the request's message.
pub fn save_clean(
    meta: &mut VersionedFileMetadata,
    request: &SaveVersionedFileRequest,
    user_id: &str,
    version_id: String,
    now: i64,
) -> (r: SaveVersionedFileResponse)
    requires
        old(meta).wf(),
        !has_version(old(meta).versions@, version_id@),
    ensures
        final(meta).wf(),
        version_views(final(meta).versions@) == version_views(old(meta).versions@).push(
            recorded_version(
                version_id@,
                now as int,
                user_id@,
                opt_view(request.message),
                request.content@,
            ),
        ),
        final(meta).current_version@ == version_id@,
        has_version(final(meta).versions@, version_id@),
        r.status == SaveStatus::Saved,
        opt_view(r.new_version) == Some(version_id@),
        r.conflicts is None,
{
    let message = match &request.message {
        Some(m) => Some(m.clone()),
        None => None,
    };
    let id = version_id.clone();
    meta.commit_version(version_id, user_id, message, request.content.as_str(), now);
    SaveVersionedFileResponse {
        status: SaveStatus::Saved,
        new_version: Some(id),
        conflicts: None,
        message: String::from_str("File saved successfully"),
    }
}

/// A save against an older version: `base_content` is that version's
/// content and `current_content` the current version's. Where the three
/// merge, the merged text becomes the new current version `version_id` and
/// is handed back for storing; otherwise nothing changes and the answer
/// carries the conflicts and the current version.
pub fn save_stale(
    meta: &mut VersionedFileMetadata,
    request: &SaveVersionedFileRequest,
    user_id: &str,
    base_content: &str,
    current_content: &str,
    version_id: String,
    now: i64,
) -> (r: (SaveVersionedFileResponse, Option<String>))
    requires
        old(meta).wf(),
        !has_version(old(meta).versions@, version_id@),
    ensures
        final(meta).wf(),
        match auto_merge(base_content@, request.content@, current_content@) {
            Some(merged) => {
                &&& r.0.status == SaveStatus::AutoMerged
                &&& opt_view(r.0.new_version) == Some(version_id@)
                &&& r.0.conflicts is None
                &&& opt_view(r.1) == Some(merged)
                &&& version_views(final(meta).versions@) == version_views(
                    old(meta).versions@,
                ).push(
                    recorded_version(
                        version_id@,
                        now as int,
                        user_id@,
                        Some("Auto-merged changes"@),
                        merged,
                    ),
                )
                &&& final(meta).current_version@ == version_id@
                &&& has_version(final(meta).versions@, version_id@)
            },
            None => {
                &&& r.0.status == SaveStatus::Conflict
                &&& opt_view(r.0.new_version) == Some(old(meta).current_version@)
                &&& r.0.conflicts matches Some(cs) && conflict_views(cs@) == three_way_conflicts(
                    base_content@,
                    request.content@,
                    current_content@,
                )
                &&& r.1 is None
                &&& *final(meta) == *old(meta)
            },
        },
{
    match attempt_auto_merge(base_content, request.content.as_str(), current_content) {
        Some(merged) => {
            let id = version_id.clone();
            meta.commit_version(
                version_id,
                user_id,
                Some(String::from_str("Auto-merged changes")),
                merged.as_str(),
                now,
            );
            let response = SaveVersionedFileResponse {
                status: SaveStatus::AutoMerged,
                new_version: Some(id),
                conflicts: None,
                message: String::from_str("Changes were automatically merged"),
            };
            (response, Some(merged))
        },
        None => {
            let diff = compare_versions(base_content, request.content.as_str(), current_content);
            let response = SaveVersionedFileResponse {
                status: SaveStatus::Conflict,
                new_version: Some(meta.current_version.clone()),
                conflicts: Some(diff.conflicts),
                message: String::from_str("Conflict detected. Please resolve manually."),
            };
            (response, None)
        },
    }
}

/// Records a resolution: the request's content with its conflict markers
/// taken out becomes the new current version `version_id`, with the
/// request's message. The resolved text is handed back for storing.
pub fn resolve_conflicts(
    meta: &mut VersionedFileMetadata,
    request: &ResolveConflictRequest,
    user_id: &str,
    version_id: String,
    now: i64,
) -> (r: (SaveVersionedFileResponse, String))
    requires
        old(meta).wf(),
        !has_version(old(meta).versions@, version_id@),
    ensures
        final(meta).wf(),
        r.1@ == resolved_content(request.content@),
        version_views(final(meta).versions@) == version_views(old(meta).versions@).push(
            recorded_version(
                version_id@,
                now as int,
                user_id@,
                Some(request.message@),
                resolved_content(request.content@),
            ),
        ),
        final(meta).current_version@ == version_id@,
        has_version(final(meta).versions@, version_id@),
        r.0.status == SaveStatus::Saved,
        opt_view(r.0.new_version) == Some(version_id@),
        r.0.conflicts is None,
{
    let resolved = extract_resolved_content(request.content.as_str());
    let id = version_id.clone();
    meta.commit_version(
        version_id,
        user_id,
        Some(request.message.clone()),
        resolved.as_str(),
        now,
    );
    let response = SaveVersionedFileResponse {
        status: SaveStatus::Saved,
        new_version: Some(id),
        conflicts: None,
        message: String::from_str("Conflicts resolved successfully"),
    };
    (response, resolved)
}

/// Whether `name` stands for the main line: `main` or `master`.
pub open spec fn is_main_alias(name: Seq<char>) -> bool {
    name == "main"@ || name == "master"@
}

fn is_main_alias_exec(name: &String) -> (r: bool)
    ensures
        r == is_main_alias(name@),
{
    *name == String::from_str("main") || *name == String::from_str("master")
}

/// The versions a merge reads: the source branch's head and base, and the
/// target's head (the current version where the target is the main line).
#[derive(Clone, Debug)]
pub struct MergePlan {
    pub source_head: String,
    pub base_version: String,
    pub target_version: String,
}

/// Looks up what a merge reads. An unknown source branch, or an unknown
/// target branch other than the main line, is refused.
pub fn plan_merge(meta: &VersionedFileMetadata, request: &MergeBranchRequest) -> (r: Result<
    MergePlan,
    ServiceError,
>)
    requires
        meta.wf(),
    ensures
        r is Ok <==> has_branch(meta.branches@, request.source_branch@) && (is_main_alias(
            request.target_branch@,
        ) || has_branch(meta.branches@, request.target_branch@)),
        r matches Err(e) ==> e is BadRequest,
        r matches Ok(p) ==> exists|i: int|
            0 <= i < meta.branches@.len() && #[trigger] meta.branches@[i].branch_id@
                == request.source_branch@ && p.source_head@ == meta.branches@[i].head_version@
                && p.base_version@ == meta.branches@[i].base_version@,
        r matches Ok(p) ==> (is_main_alias(request.target_branch@) ==> p.target_version@
            == meta.current_version@),
        r matches Ok(p) ==> (!is_main_alias(request.target_branch@) ==> exists|j: int|
            0 <= j < meta.branches@.len() && #[trigger] meta.branches@[j].branch_id@
                == request.target_branch@ && p.target_version@ == meta.branches@[j].head_version@),
{
    let s = match meta.branch_position(request.source_branch.as_str()) {
        Some(i) => i,
        None => {
            let msg = String::from_str("Source branch ").concat(request.source_branch.as_str()).concat(
                " not found",
            );
            return Err(ServiceError::BadRequest(msg));
        },
    };
    let target_version = if is_main_alias_exec(&request.target_branch) {
        meta.current_version.clone()
    } else {
        match meta.branch_position(request.target_branch.as_str()) {
            Some(j) => meta.branches[j].head_version.clone(),
            None => {
                let msg = String::from_str("Target branch ").concat(
                    request.target_branch.as_str(),
                ).concat(" not found");
                return Err(ServiceError::BadRequest(msg));
            },
        }
    };
    Ok(
        MergePlan {
            source_head: meta.branches[s].head_version.clone(),
            base_version: meta.branches[s].base_version.clone(),
            target_version,
        },
    )
}

/// How a merge ended.
#[derive(Clone, Debug)]
pub enum MergeOutcome {
    /// The branches merged into the new version `new_version`, whose content
    /// is `content`.
    Merged { new_version: String, content: String },
    /// They conflict: nothing changed.
    Conflict { conflicts: Vec<Conflict>, marked_content: String },
}

/// The message of a merge: the request's, or one that names both branches.
pub open spec fn merge_message(request: MergeBranchRequest) -> Seq<char> {
    match request.message {
        Some(m) => m@,
        None => "Merged branch "@ + request.source_branch@ + " into "@ + request.target_branch@,
    }
}

/// Merges the source branch's content into the target's over the source's
/// base. Where the texts merge, the merged text is recorded as `version_id`
/// by `user_id` and heads the target (the current version for the main
/// line); otherwise nothing changes and the conflicts come back with the
/// target's text rendered with conflict markers. A target branch that does
/// not exist is refused.
pub fn complete_merge(
    meta: &mut VersionedFileMetadata,
    request: &MergeBranchRequest,
    user_id: &str,
    base_content: &str,
    source_content: &str,
    target_content: &str,
    version_id: String,
    now: i64,
) -> (r: Result<MergeOutcome, ServiceError>)
    requires
        old(meta).wf(),
        !has_version(old(meta).versions@, version_id@),
    ensures
        final(meta).wf(),
        r matches Err(e) ==> e is BadRequest && !is_main_alias(request.target_branch@) && !has_branch(
            old(meta).branches@,
            request.target_branch@,
        ),
        r matches Ok(MergeOutcome::Conflict { conflicts, marked_content }) ==> {
            &&& auto_merge(base_content@, source_content@, target_content@) is None
            &&& conflict_views(conflicts@) == three_way_conflicts(
                base_content@,
                source_content@,
                target_content@,
            )
            &&& marked_content@ == marked_merge(base_content@, source_content@, target_content@)
            &&& *final(meta) == *old(meta)
        },
        r matches Ok(MergeOutcome::Merged { new_version, content }) ==> {
            &&& auto_merge(base_content@, source_content@, target_content@) == Some(content@)
            &&& new_version@ == version_id@
            &&& version_views(final(meta).versions@) == version_views(old(meta).versions@).push(
                recorded_version(
                    version_id@,
                    now as int,
                    user_id@,
                    Some(merge_message(*request)),
                    content@,
                ),
            )
            &&& is_main_alias(request.target_branch@) ==> final(meta).current_version@
                == version_id@
            &&& !is_main_alias(request.target_branch@) ==> final(meta).current_version@ == old(
                meta,
            ).current_version@ && exists|j: int|
                0 <= j < old(meta).branches@.len() && #[trigger] old(meta).branches@[j].branch_id@
                    == request.target_branch@ && branch_views(final(meta).branches@)
                    == branch_views(old(meta).branches@).update(
                    j,
                    with_head(old(meta).branches@[j]@, version_id@),
                )
        },
        r is Ok && auto_merge(base_content@, source_content@, target_content@) is Some ==> r matches Ok(
            MergeOutcome::Merged { .. },
        ),
        auto_merge(base_content@, source_content@, target_content@) is None ==> r matches Ok(
            MergeOutcome::Conflict { .. },
        ),
{
    match attempt_auto_merge(base_content, source_content, target_content) {
        Some(merged) => {
            let to_main = is_main_alias_exec(&request.target_branch);
            if !to_main {
                if meta.branch_position(request.target_branch.as_str()).is_none() {
                    let msg = String::from_str("Target branch ").concat(
                        request.target_branch.as_str(),
                    ).concat(" not found");
                    return Err(ServiceError::BadRequest(msg));
                }
            }
            let message = match &request.message {
                Some(m) => m.clone(),
                None => String::from_str("Merged branch ").concat(
                    request.source_branch.as_str(),
                ).concat(" into ").concat(request.target_branch.as_str()),
            };
            let id = version_id.clone();
            if to_main {
                meta.commit_version(version_id, user_id, Some(message), merged.as_str(), now);
            } else {
                meta.add_version(version_id, user_id, Some(message), merged.as_str(), now);
                meta.last_modified = now;
                let moved = update_branch_head(meta, request.target_branch.as_str(), id.as_str());
                assert(moved is Ok);
            }
            Ok(MergeOutcome::Merged { new_version: id, content: merged })
        },
        None => {
            let diff = compare_versions(base_content, source_content, target_content);
            let marked_content = create_marked_merge(base_content, source_content, target_content);
            Ok(MergeOutcome::Conflict { conflicts: diff.conflicts, marked_content })
        },
    }
}

} // verus!
