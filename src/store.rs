//! The version store's metadata: the versions of a file, its branches and
//! its active editors, and the operations that record new versions. Content
//! blobs live outside; each operation says which content goes with which id.
use vstd::prelude::*;

use crate::model::ServiceError;
use crate::wrappers::push_char;

use sha2::{Digest, Sha256};
use uuid::Uuid;

verus! {

/// One immutable version of a file. Times are milliseconds since the Unix
/// epoch, UTC.
#[derive(Clone, Debug)]
pub struct FileVersion {
    pub version_id: String,
    pub timestamp: i64,
    pub user_id: String,
    pub username: Option<String>,
    pub message: Option<String>,
    pub content_hash: String,
}

/// A named line of versions forked from `base_version`.
#[derive(Clone, Debug)]
pub struct FileBranch {
    pub branch_id: String,
    pub name: String,
    pub created_by: String,
    pub created_at: i64,
    pub base_version: String,
    pub head_version: String,
}

/// A user who has announced that they edit a file.
#[derive(Clone, Debug)]
pub struct ActiveEditor {
    pub user_id: String,
    pub username: Option<String>,
    pub editing_since: i64,
    pub branch: Option<String>,
}

/// Everything the store keeps of one file.
#[derive(Clone, Debug)]
pub struct VersionedFileMetadata {
    pub file_id: String,
    pub file_name: String,
    pub current_version: String,
    pub versions: Vec<FileVersion>,
    pub branches: Vec<FileBranch>,
    pub active_editors: Vec<ActiveEditor>,
    pub last_modified: i64,
    pub team_id: Option<String>,
    pub owner_id: String,
}

/// The view of an optional string.
pub open spec fn opt_view(o: Option<String>) -> Option<Seq<char>> {
    match o {
        Some(s) => Some(s@),
        None => None,
    }
}

/// What a `FileVersion` says, as mathematical values.
pub struct VersionView {
    pub version_id: Seq<char>,
    pub timestamp: int,
    pub user_id: Seq<char>,
    pub username: Option<Seq<char>>,
    pub message: Option<Seq<char>>,
    pub content_hash: Seq<char>,
}

impl View for FileVersion {
    type V = VersionView;

    open spec fn view(&self) -> VersionView {
        VersionView {
            version_id: self.version_id@,
            timestamp: self.timestamp as int,
            user_id: self.user_id@,
            username: opt_view(self.username),
            message: opt_view(self.message),
            content_hash: self.content_hash@,
        }
    }
}

/// The views of a sequence of versions.
pub open spec fn version_views(s: Seq<FileVersion>) -> Seq<VersionView> {
    s.map_values(|v: FileVersion| v@)
}

/// The name of the version a file has before its first save.
pub open spec fn initial_name() -> Seq<char> {
    seq!['i', 'n', 'i', 't', 'i', 'a', 'l']
}

/// The SHA-256 digest of the UTF-8 bytes of `content`, in lowercase hex.
pub uninterp spec fn sha256_hex(content: Seq<char>) -> Seq<char>;

/// Relies on `sha2::Sha256::digest` and its `LowerHex` rendering: the digest
/// of the UTF-8 bytes of `content`, which depends on the content alone.
#[verifier::external_body]
fn content_hash(content: &str) -> (r: String)
    ensures
        r@ == sha256_hex(content@),
{
    format!("{:x}", Sha256::digest(content.as_bytes()))
}

/// Relies on `uuid::Uuid::new_v4`: a random identifier in its hyphenated
/// text form. Nothing is promised of its value.
#[verifier::external_body]
fn random_id() -> (r: String) {
    Uuid::new_v4().to_string()
}

/// Whether `id` names one of `versions`.
pub open spec fn has_version(versions: Seq<FileVersion>, id: Seq<char>) -> bool {
    exists|i: int| 0 <= i < versions.len() && #[trigger] versions[i].version_id@ == id
}

/// Whether `id` names one of `branches`.
pub open spec fn has_branch(branches: Seq<FileBranch>, id: Seq<char>) -> bool {
    exists|i: int| 0 <= i < branches.len() && #[trigger] branches[i].branch_id@ == id
}

/// Whether `id` may stand as a branch's base or head: a version of the file,
/// or the name of the version before the first save.
pub open spec fn version_ref_ok(versions: Seq<FileVersion>, id: Seq<char>) -> bool {
    has_version(versions, id) || id == initial_name()
}

impl VersionedFileMetadata {
    /// The store's invariant: version ids, branch ids and editors' users are
    /// unique; the current version and every branch's base and head are
    /// versions of the file, or the name of the version before the first save.
    pub open spec fn wf(&self) -> bool {
        &&& forall|i: int, j: int|
            0 <= i < j < self.versions@.len() ==> #[trigger] self.versions@[i].version_id@
                != #[trigger] self.versions@[j].version_id@
        &&& version_ref_ok(self.versions@, self.current_version@)
        &&& forall|i: int, j: int|
            0 <= i < j < self.branches@.len() ==> #[trigger] self.branches@[i].branch_id@
                != #[trigger] self.branches@[j].branch_id@
        &&& forall|i: int|
            0 <= i < self.branches@.len() ==> version_ref_ok(
                self.versions@,
                #[trigger] self.branches@[i].base_version@,
            ) && version_ref_ok(self.versions@, self.branches@[i].head_version@)
        &&& forall|i: int, j: int|
            0 <= i < j < self.active_editors@.len() ==> #[trigger] self.active_editors@[i].user_id@
                != #[trigger] self.active_editors@[j].user_id@
    }

    /// Whether the file has no version yet.
    pub open spec fn is_virgin(&self) -> bool {
        self.versions@.len() == 0
    }

    /// Whether `version_id` names a version of this file.
    pub fn has_version(&self, version_id: &str) -> (r: bool)
        ensures
            r == has_version(self.versions@, version_id@),
    {
        let id = String::from_str(version_id);
        let mut i: usize = 0;
        while i < self.versions.len()
            invariant
                i <= self.versions@.len(),
                id@ == version_id@,
                forall|k: int| 0 <= k < i ==> #[trigger] self.versions@[k].version_id@ != id@,
            decreases self.versions.len() - i,
        {
            if self.versions[i].version_id == id {
                return true;
            }
            i = i + 1;
        }
        false
    }
}

/// The version that recording `content` as `id` by `user` at `now` adds.
pub open spec fn recorded_version(
    id: Seq<char>,
    now: int,
    user: Seq<char>,
    message: Option<Seq<char>>,
    content: Seq<char>,
) -> VersionView {
    VersionView {
        version_id: id,
        timestamp: now,
        user_id: user,
        username: None,
        message,
        content_hash: sha256_hex(content),
    }
}

proof fn lemma_has_version_push(vs: Seq<FileVersion>, v: FileVersion, id: Seq<char>)
    requires
        has_version(vs, id),
    ensures
        has_version(vs.push(v), id),
{
    let j = choose|j: int| 0 <= j < vs.len() && #[trigger] vs[j].version_id@ == id;
    assert(vs.push(v)[j].version_id@ == id);
}

impl VersionedFileMetadata {
    /// The metadata of a file that has never been saved with versions: no
    /// versions, branches or editors, and `initial` as its current version.
    pub fn empty(file_id: &str, now: i64) -> (r: Self)
        ensures
            r.wf(),
            r.is_virgin(),
            r.file_id@ == file_id@,
            r.current_version@ == initial_name(),
            r.branches@.len() == 0,
            r.active_editors@.len() == 0,
            r.last_modified == now,
            r.team_id is None,
    {
        let current_version = String::from_str("initial");
        proof {
            reveal_strlit("initial");
        }
        assert(current_version@ =~= initial_name());
        VersionedFileMetadata {
            file_id: String::from_str(file_id),
            file_name: String::from_str("unknown.md"),
            current_version,
            versions: Vec::new(),
            branches: Vec::new(),
            active_editors: Vec::new(),
            last_modified: now,
            team_id: None,
            owner_id: String::from_str("unknown"),
        }
    }

    /// The ids of the file's versions.
    pub fn version_ids(&self) -> (r: Vec<String>)
        ensures
            r@.len() == self.versions@.len(),
            forall|i: int| 0 <= i < r@.len() ==> #[trigger] r@[i]@ == self.versions@[i].version_id@,
    {
        let mut r: Vec<String> = Vec::new();
        let mut i: usize = 0;
        while i < self.versions.len()
            invariant
                i <= self.versions@.len(),
                r@.len() == i,
                forall|k: int| 0 <= k < i ==> #[trigger] r@[k]@ == self.versions@[k].version_id@,
            decreases self.versions.len() - i,
        {
            r.push(self.versions[i].version_id.clone());
            i = i + 1;
        }
        r
    }

    /// A version id that this file does not use yet.
    pub fn new_version_id(&self) -> (r: String)
        ensures
            !has_version(self.versions@, r@),
    {
        let ids = self.version_ids();
        let r = fresh_id(&ids);
        assert forall|i: int| 0 <= i < self.versions@.len() implies #[trigger] self.versions@[i].version_id@ != r@ by {
            assert(ids@[i]@ != r@);
        }
        r
    }

    /// Records `content` as the new version `version_id` by `user_id` at
    /// `now`, without moving the current version. The caller stores the
    /// content under that id before it stores this metadata.
    pub fn add_version(
        &mut self,
        version_id: String,
        user_id: &str,
        message: Option<String>,
        content: &str,
        now: i64,
    )
        requires
            old(self).wf(),
            !has_version(old(self).versions@, version_id@),
        ensures
            final(self).wf(),
            version_views(final(self).versions@) == version_views(old(self).versions@).push(
                recorded_version(version_id@, now as int, user_id@, opt_view(message), content@),
            ),
            has_version(final(self).versions@, version_id@),
            final(self).current_version@ == old(self).current_version@,
            final(self).last_modified == old(self).last_modified,
            final(self).branches@ == old(self).branches@,
            final(self).active_editors@ == old(self).active_editors@,
            final(self).file_id@ == old(self).file_id@,
            final(self).file_name@ == old(self).file_name@,
            final(self).owner_id@ == old(self).owner_id@,
            opt_view(final(self).team_id) == opt_view(old(self).team_id),
            forall|id: Seq<char>| #[trigger] has_version(old(self).versions@, id) ==> has_version(final(self).versions@, id),
    {
        let version = FileVersion {
            version_id: version_id.clone(),
            timestamp: now,
            user_id: String::from_str(user_id),
            username: None,
            message,
            content_hash: content_hash(content),
        };
        let ghost before = self.versions@;
        let ghost v = version;
        self.versions.push(version);
        assert(version_views(self.versions@) =~= version_views(before).push(v@));
        assert(self.versions@[before.len() as int].version_id@ == version_id@);
        assert forall|id: Seq<char>| #[trigger] has_version(before, id) implies has_version(self.versions@, id) by {
            lemma_has_version_push(before, v, id);
        }
        assert forall|i: int, j: int|
            0 <= i < j < self.versions@.len() implies #[trigger] self.versions@[i].version_id@
            != #[trigger] self.versions@[j].version_id@ by {
            if j == before.len() {
                assert(before[i].version_id@ != version_id@);
            }
        }
    }

    /// Records `content` as the new version `version_id` by `user_id` at
    /// `now`, and makes it the current version. The caller stores the content
    /// under that id before it stores this metadata.
    pub fn commit_version(
        &mut self,
        version_id: String,
        user_id: &str,
        message: Option<String>,
        content: &str,
        now: i64,
    )
        requires
            old(self).wf(),
            !has_version(old(self).versions@, version_id@),
        ensures
            final(self).wf(),
            version_views(final(self).versions@) == version_views(old(self).versions@).push(
                recorded_version(version_id@, now as int, user_id@, opt_view(message), content@),
            ),
            final(self).current_version@ == version_id@,
            has_version(final(self).versions@, version_id@),
            final(self).last_modified == now,
            final(self).branches@ == old(self).branches@,
            final(self).active_editors@ == old(self).active_editors@,
            final(self).file_id@ == old(self).file_id@,
            final(self).file_name@ == old(self).file_name@,
            final(self).owner_id@ == old(self).owner_id@,
            opt_view(final(self).team_id) == opt_view(old(self).team_id),
            forall|id: Seq<char>| #[trigger] has_version(old(self).versions@, id) ==> has_version(final(self).versions@, id),
    {
        self.add_version(version_id.clone(), user_id, message, content, now);
        self.current_version = version_id;
        self.last_modified = now;
    }
}

/// What a `FileBranch` says, as mathematical values.
pub struct BranchView {
    pub branch_id: Seq<char>,
    pub name: Seq<char>,
    pub created_by: Seq<char>,
    pub created_at: int,
    pub base_version: Seq<char>,
    pub head_version: Seq<char>,
}

impl View for FileBranch {
    type V = BranchView;

    open spec fn view(&self) -> BranchView {
        BranchView {
            branch_id: self.branch_id@,
            name: self.name@,
            created_by: self.created_by@,
            created_at: self.created_at as int,
            base_version: self.base_version@,
            head_version: self.head_version@,
        }
    }
}

/// The views of a sequence of branches.
pub open spec fn branch_views(s: Seq<FileBranch>) -> Seq<BranchView> {
    s.map_values(|b: FileBranch| b@)
}

/// The message of the version that a branch is created with.
pub open spec fn branch_message(name: Seq<char>) -> Seq<char> {
    "Created branch: "@ + name
}

/// `b` with its head moved to `head`.
pub open spec fn with_head(b: BranchView, head: Seq<char>) -> BranchView {
    BranchView { head_version: head, ..b }
}

fn copy_branch(b: &FileBranch) -> (r: FileBranch)
    ensures
        r@ == b@,
{
    FileBranch {
        branch_id: b.branch_id.clone(),
        name: b.name.clone(),
        created_by: b.created_by.clone(),
        created_at: b.created_at,
        base_version: b.base_version.clone(),
        head_version: b.head_version.clone(),
    }
}

impl VersionedFileMetadata {
    /// The ids of the file's branches.
    pub fn branch_ids(&self) -> (r: Vec<String>)
        ensures
            r@.len() == self.branches@.len(),
            forall|i: int| 0 <= i < r@.len() ==> #[trigger] r@[i]@ == self.branches@[i].branch_id@,
    {
        let mut r: Vec<String> = Vec::new();
        let mut i: usize = 0;
        while i < self.branches.len()
            invariant
                i <= self.branches@.len(),
                r@.len() == i,
                forall|k: int| 0 <= k < i ==> #[trigger] r@[k]@ == self.branches@[k].branch_id@,
            decreases self.branches.len() - i,
        {
            r.push(self.branches[i].branch_id.clone());
            i = i + 1;
        }
        r
    }

    /// A branch id that this file does not use yet.
    pub fn new_branch_id(&self) -> (r: String)
        ensures
            !has_branch(self.branches@, r@),
    {
        let ids = self.branch_ids();
        let r = fresh_id(&ids);
        assert forall|i: int| 0 <= i < self.branches@.len() implies #[trigger] self.branches@[i].branch_id@ != r@ by {
            assert(ids@[i]@ != r@);
        }
        r
    }

    /// The position of the branch `branch_id`, if the file has it.
    pub fn branch_position(&self, branch_id: &str) -> (r: Option<usize>)
        requires
            self.wf(),
        ensures
            match r {
                Some(i) => i < self.branches@.len() && self.branches@[i as int].branch_id@ == branch_id@,
                None => !has_branch(self.branches@, branch_id@),
            },
    {
        let id = String::from_str(branch_id);
        let mut i: usize = 0;
        while i < self.branches.len()
            invariant
                i <= self.branches@.len(),
                id@ == branch_id@,
                forall|k: int| 0 <= k < i ==> #[trigger] self.branches@[k].branch_id@ != id@,
            decreases self.branches.len() - i,
        {
            if self.branches[i].branch_id == id {
                return Some(i);
            }
            i = i + 1;
        }
        None
    }
}

/// Creates the branch `branch_id` named `branch_name`, forked from
/// `base_version` by `user_id` at `now`. With `initial_content`, that content
/// is recorded as the version `version_id` and heads the branch; otherwise
/// the branch starts at its base. A base that is neither a version of the
/// file nor `initial` is refused.
pub fn create_branch(
    meta: &mut VersionedFileMetadata,
    branch_name: &str,
    base_version: &str,
    user_id: &str,
    initial_content: Option<&str>,
    branch_id: String,
    version_id: String,
    now: i64,
) -> (r: Result<FileBranch, ServiceError>)
    requires
        old(meta).wf(),
        !has_branch(old(meta).branches@, branch_id@),
        !has_version(old(meta).versions@, version_id@),
    ensures
        final(meta).wf(),
        r is Ok <==> version_ref_ok(old(meta).versions@, base_version@),
        r matches Err(e) ==> e is BadRequest && version_views(final(meta).versions@) == version_views(
            old(meta).versions@,
        ) && branch_views(final(meta).branches@) == branch_views(old(meta).branches@),
        r matches Ok(b) ==> {
            &&& b@ == BranchView {
                branch_id: branch_id@,
                name: branch_name@,
                created_by: user_id@,
                created_at: now as int,
                base_version: base_version@,
                head_version: match initial_content {
                    Some(_) => version_id@,
                    None => base_version@,
                },
            }
            &&& branch_views(final(meta).branches@) == branch_views(old(meta).branches@).push(b@)
            &&& version_views(final(meta).versions@) == match initial_content {
                Some(c) => version_views(old(meta).versions@).push(
                    recorded_version(
                        version_id@,
                        now as int,
                        user_id@,
                        Some(branch_message(branch_name@)),
                        c@,
                    ),
                ),
                None => version_views(old(meta).versions@),
            }
        },
        final(meta).current_version@ == old(meta).current_version@,
        final(meta).active_editors@ == old(meta).active_editors@,
{
    let is_initial = {
        let a = String::from_str(base_version);
        let b = String::from_str("initial");
        proof {
            reveal_strlit("initial");
        }
        assert(b@ =~= initial_name());
        a == b
    };
    if !meta.has_version(base_version) && !is_initial {
        let mut msg = String::from_str("Base version ");
        msg.append(base_version);
        msg.append(" not found");
        return Err(ServiceError::BadRequest(msg));
    }
    let ghost before = meta.versions@;
    let head_version = match initial_content {
        Some(content) => {
            let message = String::from_str("Created branch: ").concat(branch_name);
            meta.add_version(version_id.clone(), user_id, Some(message), content, now);
            version_id
        },
        None => String::from_str(base_version),
    };
    let branch = FileBranch {
        branch_id,
        name: String::from_str(branch_name),
        created_by: String::from_str(user_id),
        created_at: now,
        base_version: String::from_str(base_version),
        head_version,
    };
    let result = copy_branch(&branch);
    let ghost bs = meta.branches@;
    let ghost bv = branch;
    meta.branches.push(branch);
    assert(branch_views(meta.branches@) =~= branch_views(bs).push(bv@));
    assert forall|i: int|
        0 <= i < meta.branches@.len() implies version_ref_ok(
        meta.versions@,
        #[trigger] meta.branches@[i].base_version@,
    ) && version_ref_ok(meta.versions@, meta.branches@[i].head_version@) by {
        if i < bs.len() {
            assert(meta.branches@[i] == bs[i]);
            if has_version(before, bs[i].base_version@) {
                assert(has_version(meta.versions@, bs[i].base_version@));
            }
            if has_version(before, bs[i].head_version@) {
                assert(has_version(meta.versions@, bs[i].head_version@));
            }
        } else {
            if has_version(before, base_version@) {
                assert(has_version(meta.versions@, base_version@));
            }
        }
    }
    assert forall|i: int, j: int|
        0 <= i < j < meta.branches@.len() implies #[trigger] meta.branches@[i].branch_id@
        != #[trigger] meta.branches@[j].branch_id@ by {
        if j == bs.len() {
            assert(bs[i].branch_id@ != bv.branch_id@);
        }
    }
    proof {
        if has_version(before, meta.current_version@) {
            assert(has_version(meta.versions@, meta.current_version@));
        }
    }
    Ok(result)
}

/// Moves the head of the branch `branch_id` to `new_head_version`. An
/// unknown branch, or a head that is not a version of the file, is refused.
pub fn update_branch_head(
    meta: &mut VersionedFileMetadata,
    branch_id: &str,
    new_head_version: &str,
) -> (r: Result<(), ServiceError>)
    requires
        old(meta).wf(),
    ensures
        final(meta).wf(),
        r is Ok <==> has_branch(old(meta).branches@, branch_id@) && has_version(
            old(meta).versions@,
            new_head_version@,
        ),
        r matches Err(e) ==> e is BadRequest && final(meta).branches@ == old(meta).branches@,
        r is Ok ==> exists|i: int|
            0 <= i < old(meta).branches@.len() && #[trigger] old(meta).branches@[i].branch_id@
                == branch_id@ && branch_views(final(meta).branches@) == branch_views(
                old(meta).branches@,
            ).update(i, with_head(old(meta).branches@[i]@, new_head_version@)),
        final(meta).versions@ == old(meta).versions@,
        final(meta).current_version@ == old(meta).current_version@,
        final(meta).active_editors@ == old(meta).active_editors@,
{
    match meta.branch_position(branch_id) {
        None => {
            let mut msg = String::from_str("Branch ");
            msg.append(branch_id);
            msg.append(" not found");
            Err(ServiceError::BadRequest(msg))
        },
        Some(i) => {
            if !meta.has_version(new_head_version) {
                let mut msg = String::from_str("Version ");
                msg.append(new_head_version);
                msg.append(" not found");
                return Err(ServiceError::BadRequest(msg));
            }
            let ghost bs = meta.branches@;
            let mut b = copy_branch(&meta.branches[i]);
            b.head_version = String::from_str(new_head_version);
            let ghost bv = b;
            meta.branches.set(i, b);
            assert(branch_views(meta.branches@) =~= branch_views(bs).update(i as int, bv@));
            assert(bv@ == with_head(bs[i as int]@, new_head_version@));
            assert(bs[i as int].branch_id@ == branch_id@);
            assert forall|a: int, c: int|
                0 <= a < c < meta.branches@.len() implies #[trigger] meta.branches@[a].branch_id@
                != #[trigger] meta.branches@[c].branch_id@ by {
                assert(bs[a].branch_id@ != bs[c].branch_id@);
            }
            Ok(())
        },
    }
}

/// Creates the metadata of a file's first version: `content` saved by
/// `owner_id` at `now` as `version_id`, which becomes the current version.
/// The caller stores the content under that id before the metadata.
pub fn initialize_file_versioning(
    file_id: &str,
    file_name: &str,
    content: &str,
    owner_id: &str,
    team_id: Option<String>,
    version_id: String,
    now: i64,
) -> (r: VersionedFileMetadata)
    ensures
        r.wf(),
        version_views(r.versions@) == seq![
            recorded_version(
                version_id@,
                now as int,
                owner_id@,
                Some("Initial version"@),
                content@,
            ),
        ],
        r.current_version@ == version_id@,
        r.branches@.len() == 0,
        r.active_editors@.len() == 0,
        r.file_id@ == file_id@,
        r.file_name@ == file_name@,
        r.owner_id@ == owner_id@,
        opt_view(r.team_id) == opt_view(team_id),
        r.last_modified == now,
{
    let mut meta = VersionedFileMetadata::empty(file_id, now);
    meta.file_name = String::from_str(file_name);
    meta.owner_id = String::from_str(owner_id);
    meta.team_id = team_id;
    meta.commit_version(
        version_id,
        owner_id,
        Some(String::from_str("Initial version")),
        content,
        now,
    );
    assert(version_views(meta.versions@) =~= seq![
        recorded_version(version_id@, now as int, owner_id@, Some("Initial version"@), content@),
    ]);
    meta
}

/// What an `ActiveEditor` says, as mathematical values.
pub struct EditorView {
    pub user_id: Seq<char>,
    pub username: Option<Seq<char>>,
    pub editing_since: int,
    pub branch: Option<Seq<char>>,
}

impl View for ActiveEditor {
    type V = EditorView;

    open spec fn view(&self) -> EditorView {
        EditorView {
            user_id: self.user_id@,
            username: opt_view(self.username),
            editing_since: self.editing_since as int,
            branch: opt_view(self.branch),
        }
    }
}

/// The views of a sequence of editors.
pub open spec fn editor_views(s: Seq<ActiveEditor>) -> Seq<EditorView> {
    s.map_values(|e: ActiveEditor| e@)
}

/// `eds` without the entries of `user`, in order.
pub open spec fn without_user(eds: Seq<EditorView>, user: Seq<char>) -> Seq<EditorView>
    decreases eds.len(),
{
    if eds.len() == 0 {
        Seq::empty()
    } else if eds.last().user_id == user {
        without_user(eds.drop_last(), user)
    } else {
        without_user(eds.drop_last(), user).push(eds.last())
    }
}

/// How many entries of `eds` belong to `user`.
pub open spec fn entries_of(eds: Seq<EditorView>, user: Seq<char>) -> nat
    decreases eds.len(),
{
    if eds.len() == 0 {
        0
    } else if eds.last().user_id == user {
        entries_of(eds.drop_last(), user) + 1
    } else {
        entries_of(eds.drop_last(), user)
    }
}

/// Taking a user's entries out leaves none of theirs and every other user's.
pub proof fn lemma_without_user_entries(eds: Seq<EditorView>, user: Seq<char>, other: Seq<char>)
    ensures
        entries_of(without_user(eds, user), user) == 0,
        other != user ==> entries_of(without_user(eds, user), other) == entries_of(eds, other),
    decreases eds.len(),
{
    if eds.len() > 0 {
        let p = eds.drop_last();
        lemma_without_user_entries(p, user, other);
        let w = without_user(p, user);
        if eds.last().user_id != user {
            assert(w.push(eds.last()).drop_last() == w);
        }
    }
}

/// Registering the same user twice leaves exactly one entry for them.
pub proof fn lemma_register_twice(
    eds: Seq<EditorView>,
    user: Seq<char>,
    first: EditorView,
    second: EditorView,
)
    requires
        first.user_id == user,
        second.user_id == user,
    ensures
        entries_of(without_user(without_user(eds, user).push(first), user).push(second), user)
            == 1,
{
    let once = without_user(eds, user).push(first);
    lemma_without_user_entries(once, user, user);
    let twice = without_user(once, user).push(second);
    assert(twice.drop_last() == without_user(once, user));
}

/// Once a file's current version is not `initial`, it is one of the file's
/// versions.
pub proof fn lemma_current_version_exists(meta: VersionedFileMetadata)
    requires
        meta.wf(),
        meta.current_version@ != initial_name(),
    ensures
        has_version(meta.versions@, meta.current_version@),
{
}

proof fn lemma_entries_unique(eds: Seq<EditorView>)
    requires
        forall|u: Seq<char>| entries_of(eds, u) <= 1,
    ensures
        forall|i: int, j: int|
            0 <= i < j < eds.len() ==> #[trigger] eds[i].user_id != #[trigger] eds[j].user_id,
    decreases eds.len(),
{
    if eds.len() > 0 {
        let p = eds.drop_last();
        assert forall|u: Seq<char>| entries_of(p, u) <= 1 by {
            assert(entries_of(eds, u) <= 1);
        }
        lemma_entries_unique(p);
        assert forall|i: int, j: int|
            0 <= i < j < eds.len() implies #[trigger] eds[i].user_id != #[trigger] eds[j].user_id by {
            if j == eds.len() - 1 {
                let u = eds.last().user_id;
                if eds[i].user_id == u {
                    lemma_entry_counted(p, i);
                    assert(entries_of(eds, u) == entries_of(p, u) + 1);
                }
            } else {
                assert(eds[i] == p[i] && eds[j] == p[j]);
            }
        }
    }
}

proof fn lemma_entry_counted(eds: Seq<EditorView>, i: int)
    requires
        0 <= i < eds.len(),
    ensures
        entries_of(eds, eds[i].user_id) >= 1,
    decreases eds.len(),
{
    if i < eds.len() - 1 {
        lemma_entry_counted(eds.drop_last(), i);
        assert(eds.drop_last()[i] == eds[i]);
    }
}

proof fn lemma_entries_at_most_one(eds: Seq<EditorView>, u: Seq<char>)
    requires
        forall|i: int, j: int|
            0 <= i < j < eds.len() ==> #[trigger] eds[i].user_id != #[trigger] eds[j].user_id,
    ensures
        entries_of(eds, u) <= 1,
    decreases eds.len(),
{
    if eds.len() > 0 {
        let p = eds.drop_last();
        lemma_entries_at_most_one(p, u);
        if eds.last().user_id == u {
            assert(p =~= eds.subrange(0, eds.len() - 1));
            lemma_entries_zero(eds, u, eds.len() - 1, eds.len() - 1);
        }
    }
}

proof fn lemma_entries_zero(eds: Seq<EditorView>, u: Seq<char>, n: int, last: int)
    requires
        0 <= n <= last < eds.len(),
        eds[last].user_id == u,
        forall|i: int, j: int|
            0 <= i < j < eds.len() ==> #[trigger] eds[i].user_id != #[trigger] eds[j].user_id,
    ensures
        entries_of(eds.subrange(0, n), u) == 0,
    decreases n,
{
    if n > 0 {
        let p = eds.subrange(0, n);
        assert(p.last() == eds[n - 1]);
        assert(p.drop_last() =~= eds.subrange(0, n - 1));
        lemma_entries_zero(eds, u, n - 1, last);
    }
}

fn copy_editor(e: &ActiveEditor) -> (r: ActiveEditor)
    ensures
        r@ == e@,
{
    ActiveEditor {
        user_id: e.user_id.clone(),
        username: copy_opt(&e.username),
        editing_since: e.editing_since,
        branch: copy_opt(&e.branch),
    }
}

fn editors_without(eds: &Vec<ActiveEditor>, user: &String) -> (r: Vec<ActiveEditor>)
    ensures
        editor_views(r@) == without_user(editor_views(eds@), user@),
{
    let ghost v = editor_views(eds@);
    let mut out: Vec<ActiveEditor> = Vec::new();
    let mut i: usize = 0;
    while i < eds.len()
        invariant
            i <= eds@.len(),
            v == editor_views(eds@),
            editor_views(out@) == without_user(v.subrange(0, i as int), user@),
        decreases eds.len() - i,
    {
        assert(v.subrange(0, i + 1).drop_last() =~= v.subrange(0, i as int));
        if !(eds[i].user_id == *user) {
            let e = copy_editor(&eds[i]);
            let ghost before = out@;
            out.push(e);
            assert(editor_views(out@) =~= editor_views(before).push(v[i as int]));
        }
        i = i + 1;
    }
    assert(v.subrange(0, eds@.len() as int) =~= v);
    out
}

/// Registers `user_id` as an editor of the file since `now`, replacing any
/// entry the user had.
pub fn register_active_editor(
    meta: &mut VersionedFileMetadata,
    user_id: &str,
    branch: Option<String>,
    now: i64,
)
    requires
        old(meta).wf(),
    ensures
        final(meta).wf(),
        editor_views(final(meta).active_editors@) == without_user(
            editor_views(old(meta).active_editors@),
            user_id@,
        ).push(
            EditorView {
                user_id: user_id@,
                username: None,
                editing_since: now as int,
                branch: opt_view(branch),
            },
        ),
        entries_of(editor_views(final(meta).active_editors@), user_id@) == 1,
        final(meta).versions@ == old(meta).versions@,
        final(meta).branches@ == old(meta).branches@,
        final(meta).current_version@ == old(meta).current_version@,
{
    let user = String::from_str(user_id);
    let ghost old_eds = editor_views(meta.active_editors@);
    let mut eds = editors_without(&meta.active_editors, &user);
    let ghost kept = editor_views(eds@);
    let editor = ActiveEditor { user_id: user, username: None, editing_since: now, branch };
    let ghost ev = editor@;
    eds.push(editor);
    assert(editor_views(eds@) =~= kept.push(ev));
    meta.active_editors = eds;
    proof {
        let all = kept.push(ev);
        assert(all.drop_last() == kept);
        assert forall|i: int, j: int|
            0 <= i < j < old_eds.len() implies #[trigger] old_eds[i].user_id
            != #[trigger] old_eds[j].user_id by {
            assert(old(meta).active_editors@[i].user_id@ != old(meta).active_editors@[j].user_id@);
        }
        assert forall|u: Seq<char>| entries_of(old_eds, u) <= 1 by {
            lemma_entries_at_most_one(old_eds, u);
        }
        assert forall|u: Seq<char>| entries_of(all, u) <= 1 by {
            lemma_without_user_entries(old_eds, user_id@, u);
        }
        lemma_without_user_entries(old_eds, user_id@, user_id@);
        lemma_entries_unique(all);
        assert forall|i: int, j: int|
            0 <= i < j < meta.active_editors@.len() implies #[trigger] meta.active_editors@[i].user_id@
            != #[trigger] meta.active_editors@[j].user_id@ by {
            assert(editor_views(meta.active_editors@)[i].user_id != editor_views(
                meta.active_editors@,
            )[j].user_id);
        }
    }
}

/// Removes `user_id` from the file's editors.
pub fn unregister_active_editor(meta: &mut VersionedFileMetadata, user_id: &str)
    requires
        old(meta).wf(),
    ensures
        final(meta).wf(),
        editor_views(final(meta).active_editors@) == without_user(
            editor_views(old(meta).active_editors@),
            user_id@,
        ),
        final(meta).versions@ == old(meta).versions@,
        final(meta).branches@ == old(meta).branches@,
        final(meta).current_version@ == old(meta).current_version@,
{
    let user = String::from_str(user_id);
    let ghost old_eds = editor_views(meta.active_editors@);
    let eds = editors_without(&meta.active_editors, &user);
    meta.active_editors = eds;
    proof {
        let w = without_user(old_eds, user_id@);
        assert forall|i: int, j: int|
            0 <= i < j < old_eds.len() implies #[trigger] old_eds[i].user_id
            != #[trigger] old_eds[j].user_id by {
            assert(old(meta).active_editors@[i].user_id@ != old(meta).active_editors@[j].user_id@);
        }
        assert forall|u: Seq<char>| entries_of(old_eds, u) <= 1 by {
            lemma_entries_at_most_one(old_eds, u);
        }
        assert forall|u: Seq<char>| entries_of(w, u) <= 1 by {
            lemma_without_user_entries(old_eds, user_id@, u);
        }
        lemma_entries_unique(w);
        assert forall|i: int, j: int|
            0 <= i < j < meta.active_editors@.len() implies #[trigger] meta.active_editors@[i].user_id@
            != #[trigger] meta.active_editors@[j].user_id@ by {
            assert(editor_views(meta.active_editors@)[i].user_id != editor_views(
                meta.active_editors@,
            )[j].user_id);
        }
    }
}

/// Whether any editor of the file is a user other than `current_user_id`.
pub fn has_other_active_editors(meta: &VersionedFileMetadata, current_user_id: &str) -> (r: bool)
    ensures
        r == exists|i: int|
            0 <= i < meta.active_editors@.len() && #[trigger] meta.active_editors@[i].user_id@
                != current_user_id@,
{
    let user = String::from_str(current_user_id);
    let mut i: usize = 0;
    while i < meta.active_editors.len()
        invariant
            i <= meta.active_editors@.len(),
            user@ == current_user_id@,
            forall|k: int| 0 <= k < i ==> #[trigger] meta.active_editors@[k].user_id@ == user@,
        decreases meta.active_editors.len() - i,
    {
        if !(meta.active_editors[i].user_id == user) {
            return true;
        }
        i = i + 1;
    }
    false
}

fn version_ids_distinct(vs: &Vec<FileVersion>) -> (r: bool)
    ensures
        r == forall|i: int, j: int|
            0 <= i < j < vs@.len() ==> #[trigger] vs@[i].version_id@ != #[trigger] vs@[j].version_id@,
{
    let mut j: usize = 0;
    while j < vs.len()
        invariant
            j <= vs@.len(),
            forall|a: int, b: int|
                0 <= a < b < j ==> #[trigger] vs@[a].version_id@ != #[trigger] vs@[b].version_id@,
        decreases vs.len() - j,
    {
        let mut i: usize = 0;
        while i < j
            invariant
                i <= j < vs@.len(),
                forall|a: int, b: int|
                    0 <= a < b < j ==> #[trigger] vs@[a].version_id@ != #[trigger] vs@[b].version_id@,
                forall|a: int| 0 <= a < i ==> #[trigger] vs@[a].version_id@ != vs@[j as int].version_id@,
            decreases j - i,
        {
            if vs[i].version_id == vs[j].version_id {
                return false;
            }
            i = i + 1;
        }
        j = j + 1;
    }
    true
}

fn branch_ids_distinct(bs: &Vec<FileBranch>) -> (r: bool)
    ensures
        r == forall|i: int, j: int|
            0 <= i < j < bs@.len() ==> #[trigger] bs@[i].branch_id@ != #[trigger] bs@[j].branch_id@,
{
    let mut j: usize = 0;
    while j < bs.len()
        invariant
            j <= bs@.len(),
            forall|a: int, b: int|
                0 <= a < b < j ==> #[trigger] bs@[a].branch_id@ != #[trigger] bs@[b].branch_id@,
        decreases bs.len() - j,
    {
        let mut i: usize = 0;
        while i < j
            invariant
                i <= j < bs@.len(),
                forall|a: int, b: int|
                    0 <= a < b < j ==> #[trigger] bs@[a].branch_id@ != #[trigger] bs@[b].branch_id@,
                forall|a: int| 0 <= a < i ==> #[trigger] bs@[a].branch_id@ != bs@[j as int].branch_id@,
            decreases j - i,
        {
            if bs[i].branch_id == bs[j].branch_id {
                return false;
            }
            i = i + 1;
        }
        j = j + 1;
    }
    true
}

fn editor_users_distinct(es: &Vec<ActiveEditor>) -> (r: bool)
    ensures
        r == forall|i: int, j: int|
            0 <= i < j < es@.len() ==> #[trigger] es@[i].user_id@ != #[trigger] es@[j].user_id@,
{
    let mut j: usize = 0;
    while j < es.len()
        invariant
            j <= es@.len(),
            forall|a: int, b: int|
                0 <= a < b < j ==> #[trigger] es@[a].user_id@ != #[trigger] es@[b].user_id@,
        decreases es.len() - j,
    {
        let mut i: usize = 0;
        while i < j
            invariant
                i <= j < es@.len(),
                forall|a: int, b: int|
                    0 <= a < b < j ==> #[trigger] es@[a].user_id@ != #[trigger] es@[b].user_id@,
                forall|a: int| 0 <= a < i ==> #[trigger] es@[a].user_id@ != es@[j as int].user_id@,
            decreases j - i,
        {
            if es[i].user_id == es[j].user_id {
                return false;
            }
            i = i + 1;
        }
        j = j + 1;
    }
    true
}

impl VersionedFileMetadata {
    fn refers_to_version(&self, id: &String) -> (r: bool)
        ensures
            r == version_ref_ok(self.versions@, id@),
    {
        let initial = String::from_str("initial");
        proof {
            reveal_strlit("initial");
        }
        assert(initial@ =~= initial_name());
        *id == initial || self.has_version(id.as_str())
    }

    /// Whether the metadata keeps the store's invariant (see `wf`); metadata
    /// read back from storage is checked with this before it is used.
    pub fn is_well_formed(&self) -> (r: bool)
        ensures
            r == self.wf(),
    {
        if !version_ids_distinct(&self.versions) || !branch_ids_distinct(&self.branches)
            || !editor_users_distinct(&self.active_editors) {
            return false;
        }
        if !self.refers_to_version(&self.current_version) {
            return false;
        }
        let mut i: usize = 0;
        while i < self.branches.len()
            invariant
                i <= self.branches@.len(),
                forall|k: int|
                    0 <= k < i ==> version_ref_ok(
                        self.versions@,
                        #[trigger] self.branches@[k].base_version@,
                    ) && version_ref_ok(self.versions@, self.branches@[k].head_version@),
            decreases self.branches.len() - i,
        {
            if !self.refers_to_version(&self.branches[i].base_version)
                || !self.refers_to_version(&self.branches[i].head_version) {
                return false;
            }
            assert forall|k: int|
                0 <= k < i + 1 implies version_ref_ok(
                self.versions@,
                #[trigger] self.branches@[k].base_version@,
            ) && version_ref_ok(self.versions@, self.branches@[k].head_version@) by {
                if k == i {
                    assert(version_ref_ok(self.versions@, self.branches@[i as int].base_version@));
                    assert(version_ref_ok(self.versions@, self.branches@[i as int].head_version@));
                }
            }
            i = i + 1;
        }
        true
    }
}

fn copy_opt(o: &Option<String>) -> (r: Option<String>)
    ensures
        opt_view(r) == opt_view(*o),
{
    match o {
        Some(s) => Some(s.clone()),
        None => None,
    }
}

pub(crate) fn copy_version(v: &FileVersion) -> (r: FileVersion)
    ensures
        r@ == v@,
{
    FileVersion {
        version_id: v.version_id.clone(),
        timestamp: v.timestamp,
        user_id: v.user_id.clone(),
        username: copy_opt(&v.username),
        message: copy_opt(&v.message),
        content_hash: v.content_hash.clone(),
    }
}

/// An identifier that is none of `taken`: a random one, lengthened where it
/// collides.
pub fn fresh_id(taken: &Vec<String>) -> (r: String)
    ensures
        forall|i: int| 0 <= i < taken@.len() ==> #[trigger] taken@[i]@ != r@,
{
    let mut id = random_id();
    let mut clash = false;
    let mut longest: usize = 0;
    let mut i: usize = 0;
    while i < taken.len()
        invariant
            i <= taken@.len(),
            !clash ==> forall|k: int| 0 <= k < i ==> #[trigger] taken@[k]@ != id@,
            forall|k: int| 0 <= k < i ==> #[trigger] taken@[k]@.len() <= longest,
        decreases taken.len() - i,
    {
        if taken[i] == id {
            clash = true;
        }
        let n = taken[i].as_str().unicode_len();
        if n > longest {
            longest = n;
        }
        i = i + 1;
    }
    if clash {
        let mut n: u128 = id.as_str().unicode_len() as u128;
        while n <= longest as u128
            invariant
                n == id@.len(),
                n <= usize::MAX as u128 + 1,
            decreases longest + 1 - n,
        {
            push_char(&mut id, '-');
            n = n + 1;
        }
        assert forall|k: int| 0 <= k < taken@.len() implies #[trigger] taken@[k]@ != id@ by {
            assert(taken@[k]@.len() < id@.len());
        }
    }
    id
}

} // verus!
