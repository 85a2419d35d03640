//! A file's history: its versions newest first, a page at a time.
use vstd::prelude::*;

use crate::model::ServiceError;
use crate::store::{copy_version, has_branch, version_views, FileVersion, VersionView, VersionedFileMetadata};
use crate::text::chars_of;

verus! {

broadcast use vstd::seq_lib::to_multiset_build, vstd::seq_lib::to_multiset_insert;

/// Whether `a` comes before `b` in lexicographic order of characters.
pub open spec fn lex_less(a: Seq<char>, b: Seq<char>) -> bool
    decreases a.len(),
{
    if b.len() == 0 {
        false
    } else if a.len() == 0 {
        true
    } else if a[0] != b[0] {
        (a[0] as u32) < (b[0] as u32)
    } else {
        lex_less(a.drop_first(), b.drop_first())
    }
}

proof fn lemma_lex_less_asymmetric(a: Seq<char>, b: Seq<char>)
    requires
        lex_less(a, b),
    ensures
        !lex_less(b, a),
    decreases a.len(),
{
    if a.len() > 0 && b.len() > 0 && a[0] == b[0] {
        lemma_lex_less_asymmetric(a.drop_first(), b.drop_first());
    }
}

/// Whether `a` is listed before `b`: it is newer, or as new with the
/// lexicographically smaller id.
pub open spec fn listed_before(a: VersionView, b: VersionView) -> bool {
    a.timestamp > b.timestamp || (a.timestamp == b.timestamp && lex_less(a.version_id, b.version_id))
}

/// Whether no version of `s` should be listed before the one ahead of it.
pub open spec fn newest_first(s: Seq<VersionView>) -> bool {
    forall|i: int| 0 < i < s.len() ==> !listed_before(#[trigger] s[i], s[i - 1])
}

fn lex_less_exec(a: &String, b: &String) -> (r: bool)
    ensures
        r == lex_less(a@, b@),
{
    let ac = chars_of(a.as_str());
    let bc = chars_of(b.as_str());
    let mut k: usize = 0;
    assert(a@.subrange(0, a@.len() as int) =~= a@);
    assert(b@.subrange(0, b@.len() as int) =~= b@);
    loop
        invariant
            ac@ == a@,
            bc@ == b@,
            k <= ac@.len(),
            k <= bc@.len(),
            lex_less(a@, b@) == lex_less(
                a@.subrange(k as int, a@.len() as int),
                b@.subrange(k as int, b@.len() as int),
            ),
        decreases ac.len() - k,
    {
        let ghost sa = a@.subrange(k as int, a@.len() as int);
        let ghost sb = b@.subrange(k as int, b@.len() as int);
        if k == bc.len() {
            return false;
        }
        if k == ac.len() {
            return true;
        }
        if ac[k] != bc[k] {
            assert(sa[0] == ac[k as int] && sb[0] == bc[k as int]);
            return (ac[k] as u32) < (bc[k] as u32);
        }
        assert(sa.drop_first() =~= a@.subrange(k + 1, a@.len() as int));
        assert(sb.drop_first() =~= b@.subrange(k + 1, b@.len() as int));
        k = k + 1;
    }
}

fn listed_before_exec(a: &FileVersion, b: &FileVersion) -> (r: bool)
    ensures
        r == listed_before(a@, b@),
{
    a.timestamp > b.timestamp || (a.timestamp == b.timestamp && lex_less_exec(
        &a.version_id,
        &b.version_id,
    ))
}

/// The versions `v`, reordered newest first (ties by id).
pub fn sort_newest_first(v: &Vec<FileVersion>) -> (r: Vec<FileVersion>)
    ensures
        version_views(r@).to_multiset() == version_views(v@).to_multiset(),
        newest_first(version_views(r@)),
{
    let mut out: Vec<FileVersion> = Vec::new();
    let mut i: usize = 0;
    assert(version_views(out@) =~= Seq::<VersionView>::empty());
    assert(version_views(v@).subrange(0, 0) =~= Seq::<VersionView>::empty());
    while i < v.len()
        invariant
            i <= v@.len(),
            version_views(out@).to_multiset() == version_views(v@).subrange(0, i as int).to_multiset(),
            newest_first(version_views(out@)),
        decreases v.len() - i,
    {
        let x = copy_version(&v[i]);
        let mut p: usize = 0;
        while p < out.len() && !listed_before_exec(&x, &out[p])
            invariant
                p <= out@.len(),
                forall|q: int| 0 <= q < p ==> !listed_before(x@, #[trigger] out@[q]@),
            decreases out.len() - p,
        {
            p = p + 1;
        }
        let ghost before = version_views(out@);
        let ghost xv = x@;
        proof {
            if p < out@.len() {
                if listed_before(out@[p as int]@, xv) {
                    if xv.timestamp == out@[p as int]@.timestamp {
                        lemma_lex_less_asymmetric(out@[p as int]@.version_id, xv.version_id);
                    }
                }
            }
        }
        out.insert(p, x);
        assert(version_views(out@) =~= before.insert(p as int, xv));
        assert(version_views(v@).subrange(0, i + 1) =~= version_views(v@).subrange(0, i as int).push(
            version_views(v@)[i as int],
        ));
        assert forall|q: int| 0 < q < version_views(out@).len() implies !listed_before(
            #[trigger] version_views(out@)[q],
            version_views(out@)[q - 1],
        ) by {
            if q < p {
                assert(version_views(out@)[q] == before[q]);
                assert(version_views(out@)[q - 1] == before[q - 1]);
            } else if q == p {
                assert(!listed_before(xv, before[q - 1]));
            } else if q == p + 1 {
                assert(version_views(out@)[q] == before[p as int]);
            } else {
                assert(version_views(out@)[q] == before[q - 1]);
                assert(version_views(out@)[q - 1] == before[q - 2]);
            }
        }
        i = i + 1;
    }
    assert(version_views(v@).subrange(0, v@.len() as int) =~= version_views(v@));
    out
}

/// Where a page starts in a list of `len` entries: after `skip` of them.
pub open spec fn page_start(len: nat, skip: Option<usize>) -> int {
    match skip {
        Some(k) => if k <= len {
            k as int
        } else {
            len as int
        },
        None => 0,
    }
}

/// Where a page ends: `limit` entries after its start, within the list.
pub open spec fn page_end(len: nat, skip: Option<usize>, limit: Option<usize>) -> int {
    let s = page_start(len, skip);
    match limit {
        Some(l) => if s + l <= len {
            s + l
        } else {
            len as int
        },
        None => len as int,
    }
}

fn paginate(list: &Vec<FileVersion>, limit: Option<usize>, skip: Option<usize>) -> (r: Vec<
    FileVersion,
>)
    ensures
        version_views(r@) == version_views(list@).subrange(
            page_start(list@.len(), skip),
            page_end(list@.len(), skip, limit),
        ),
{
    let n = list.len();
    let s = match skip {
        Some(k) => if k <= n {
            k
        } else {
            n
        },
        None => 0,
    };
    let e = match limit {
        Some(l) => if l <= n - s {
            s + l
        } else {
            n
        },
        None => n,
    };
    let mut out: Vec<FileVersion> = Vec::new();
    let mut k: usize = s;
    while k < e
        invariant
            s <= k <= e <= n == list@.len(),
            version_views(out@) == version_views(list@).subrange(s as int, k as int),
        decreases e - k,
    {
        let x = copy_version(&list[k]);
        let ghost before = out@;
        out.push(x);
        assert(version_views(out@) =~= version_views(list@).subrange(s as int, k + 1)) by {
            assert(out@ == before.push(x));
            assert(version_views(before).len() == k - s);
            assert(x@ == version_views(list@)[k as int]);
            assert forall|m: int| 0 <= m < before.len() implies version_views(out@)[m]
                == version_views(before)[m] by {
                assert(out@[m] == before[m]);
            }
        }
        k = k + 1;
    }
    out
}

/// A page of the file's history and the number of entries it is taken from,
/// with the file's current version. Without a branch the history is every
/// version, newest first; with one it is the branch's head alone. An unknown
/// branch is refused; a head that is no version of the file is an internal
/// failure.
pub fn get_file_versions(
    meta: &VersionedFileMetadata,
    branch: Option<&str>,
    limit: Option<usize>,
    skip: Option<usize>,
) -> (r: Result<(Vec<FileVersion>, usize, String), ServiceError>)
    requires
        meta.wf(),
    ensures
        match branch {
            None => match r {
                Ok((page, total, current)) => total == meta.versions@.len() && current@
                    == meta.current_version@ && exists|s: Seq<VersionView>|
                    s.to_multiset() == version_views(meta.versions@).to_multiset() && newest_first(s)
                        && version_views(page@) == #[trigger] s.subrange(
                        page_start(s.len(), skip),
                        page_end(s.len(), skip, limit),
                    ),
                Err(_) => false,
            },
            Some(b) => if !has_branch(meta.branches@, b@) {
                match r {
                    Ok(_) => false,
                    Err(e) => e is BadRequest,
                }
            } else {
                match r {
                    Ok((page, total, current)) => total == 1 && current@ == meta.current_version@
                        && exists|i: int, j: int|
                        0 <= i < meta.branches@.len() && 0 <= j < meta.versions@.len()
                            && meta.branches@[i].branch_id@ == b@
                            && #[trigger] meta.versions@[j].version_id@
                            == #[trigger] meta.branches@[i].head_version@ && version_views(page@)
                            == seq![meta.versions@[j]@].subrange(
                            page_start(1, skip),
                            page_end(1, skip, limit),
                        ),
                    Err(e) => e is InternalServerError,
                }
            },
        },
{
    match branch {
        None => {
            let sorted = sort_newest_first(&meta.versions);
            let total = sorted.len();
            let page = paginate(&sorted, limit, skip);
            proof {
                vstd::seq_lib::to_multiset_len(version_views(sorted@));
                vstd::seq_lib::to_multiset_len(version_views(meta.versions@));
            }
            let ghost s = version_views(sorted@);
            assert(version_views(page@) == s.subrange(page_start(s.len(), skip), page_end(s.len(), skip, limit)));
            Ok((page, total, meta.current_version.clone()))
        },
        Some(branch_id) => {
            match meta.branch_position(branch_id) {
                None => {
                    let mut msg = String::from_str("Branch ");
                    msg.append(branch_id);
                    msg.append(" not found");
                    Err(ServiceError::BadRequest(msg))
                },
                Some(i) => {
                    let head = &meta.branches[i].head_version;
                    let mut j: usize = 0;
                    while j < meta.versions.len()
                        invariant
                            j <= meta.versions@.len(),
                            i < meta.branches@.len(),
                            head@ == meta.branches@[i as int].head_version@,
                            meta.branches@[i as int].branch_id@ == branch_id@,
                            branch == Some(branch_id),
                            forall|k: int| 0 <= k < j ==> #[trigger] meta.versions@[k].version_id@ != head@,
                        decreases meta.versions.len() - j,
                    {
                        if meta.versions[j].version_id == *head {
                            let mut list: Vec<FileVersion> = Vec::new();
                            list.push(copy_version(&meta.versions[j]));
                            assert(version_views(list@) =~= seq![meta.versions@[j as int]@]);
                            let page = paginate(&list, limit, skip);
                            proof {
                                if has_branch(meta.branches@, branch_id@) {
                                    assert(meta.versions@[j as int].version_id@ == meta.branches@[i as int].head_version@);
                                }
                            }
                            return Ok((page, 1, meta.current_version.clone()));
                        }
                        j = j + 1;
                    }
                    Err(ServiceError::InternalServerError)
                },
            }
        },
    }
}

} // verus!
