//! Where the version store keeps a file's metadata and content blobs.
use vstd::prelude::*;

verus! {

/// The directory that holds every versioned file.
pub open spec fn storage_root() -> Seq<char> {
    "./storage/versions"@
}

/// The blob of version `version_id` of file `file_id`.
pub open spec fn version_path(file_id: Seq<char>, version_id: Seq<char>) -> Seq<char> {
    storage_root() + "/"@ + file_id + "/"@ + version_id + ".content"@
}

/// The metadata document of file `file_id`.
pub open spec fn metadata_path(file_id: Seq<char>) -> Seq<char> {
    storage_root() + "/"@ + file_id + "/"@ + "metadata.json"@
}

/// The path of the blob of one version of a file.
pub fn get_version_path(file_id: &str, version_id: &str) -> (r: String)
    ensures
        r@ == version_path(file_id@, version_id@),
{
    let mut p = String::from_str("./storage/versions");
    p.append("/");
    p.append(file_id);
    p.append("/");
    p.append(version_id);
    p.append(".content");
    p
}

/// The path of a file's metadata document.
pub fn get_version_metadata_path(file_id: &str) -> (r: String)
    ensures
        r@ == metadata_path(file_id@),
{
    let mut p = String::from_str("./storage/versions");
    p.append("/");
    p.append(file_id);
    p.append("/");
    p.append("metadata.json");
    p
}

/// The part of `email` before its first `@` (all of it where there is none).
pub open spec fn name_part(email: Seq<char>) -> Seq<char>
    decreases email.len(),
{
    if email.len() == 0 {
        email
    } else if email[0] == '@' {
        Seq::empty()
    } else {
        seq![email[0]] + name_part(email.drop_first())
    }
}

/// The display name of a user: the part of their email before the `@`.
pub fn get_username_from_email(email: &str) -> (r: String)
    ensures
        r@ == name_part(email@),
{
    let n = email.unicode_len();
    let mut k: usize = 0;
    while k < n && email.get_char(k) != '@'
        invariant
            n == email@.len(),
            k <= n,
            forall|m: int| 0 <= m < k ==> email@[m] != '@',
        decreases n - k,
    {
        k = k + 1;
    }
    proof {
        lemma_name_part(email@, k as int);
    }
    String::from_str(email.substring_char(0, k))
}

proof fn lemma_name_part(s: Seq<char>, k: int)
    requires
        0 <= k <= s.len(),
        forall|m: int| 0 <= m < k ==> s[m] != '@',
        k < s.len() ==> s[k] == '@',
    ensures
        name_part(s) == s.subrange(0, k),
    decreases k,
{
    if k == 0 {
        if s.len() > 0 {
            assert(s[0] == '@');
        }
        assert(s.subrange(0, 0) =~= Seq::<char>::empty());
    } else {
        lemma_name_part(s.drop_first(), k - 1);
        assert(s.subrange(0, k) =~= seq![s[0]] + s.drop_first().subrange(0, k - 1));
    }
}

} // verus!
