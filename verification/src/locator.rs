use vstd::prelude::*;

use crate::jsonio;
use crate::strutil;
use crate::AnalyseError;

verus! {

/// The `/`-separated segments of a repository reference.
pub open spec fn ref_segments(s: Seq<char>) -> Seq<Seq<char>> {
    strutil::split_on(s, '/')
}

/// A reference is valid when its last two `/`-separated segments — name
/// and owner — are present and non-empty.
pub open spec fn valid_reference(s: Seq<char>) -> bool {
    let segs = ref_segments(s);
    segs.len() >= 2 && segs[segs.len() - 1].len() > 0 && segs[segs.len() - 2].len() > 0
}

/// The owner named by a valid reference: its second-to-last segment.
pub open spec fn owner_of(s: Seq<char>) -> Seq<char> {
    let segs = ref_segments(s);
    segs[segs.len() - 2]
}

/// The repository name in a valid reference: its last segment.
pub open spec fn name_of(s: Seq<char>) -> Seq<char> {
    let segs = ref_segments(s);
    segs[segs.len() - 1]
}

/// Whether the reference names the first supported hosting provider.
pub open spec fn is_github(s: Seq<char>) -> bool {
    strutil::contains_seq(s, "github.com"@)
}

/// Whether the reference names the second supported hosting provider.
pub open spec fn is_gitlab(s: Seq<char>) -> bool {
    strutil::contains_seq(s, "gitlab.com"@)
}

/// Splits a repository reference into owner, name and the segment before
/// them (usually the host), going by the last `/`-separated segments.
pub fn parse_repo_url(repo_url: &str) -> (r: Result<
    (String, String, Option<String>),
    AnalyseError,
>)
    ensures
        (r is Ok) == valid_reference(repo_url@),
        r matches Ok(t) ==> t.0@ == owner_of(repo_url@),
        r matches Ok(t) ==> t.1@ == name_of(repo_url@),
        r matches Ok(t) ==> t.2.deep_view() == (if ref_segments(repo_url@).len() >= 3 {
            Some(ref_segments(repo_url@)[ref_segments(repo_url@).len() - 3])
        } else {
            None
        }),
        r matches Err(e) ==> e is InvalidReference,
{
    let segs = strutil::split_str(repo_url, '/');
    let n = segs.len();
    proof {
        strutil::lemma_split_on_len(repo_url@, '/');
        assert(segs@.len() == segs.deep_view().len());
    }
    if n < 2 {
        return Err(AnalyseError::InvalidReference);
    }
    let name = &segs[n - 1];
    let owner = &segs[n - 2];
    proof {
        assert(name@ == segs.deep_view()[n - 1]);
        assert(owner@ == segs.deep_view()[n - 2]);
    }
    if name.as_str().is_empty() || owner.as_str().is_empty() {
        return Err(AnalyseError::InvalidReference);
    }
    let branch: Option<String> = if n >= 3 {
        proof {
            assert(segs@[n - 3]@ == segs.deep_view()[n - 3]);
        }
        Some(segs[n - 3].clone())
    } else {
        None
    };
    Ok((owner.clone(), name.clone(), branch))
}

/// The provider's metadata endpoint for a repository.
pub open spec fn metadata_url_of(owner: Seq<char>, name: Seq<char>) -> Seq<char> {
    "https://api.github.com/repos/"@ + owner + "/"@ + name
}

/// The first provider's archive-download convention.
pub open spec fn gh_archive_url(owner: Seq<char>, name: Seq<char>, branch: Seq<char>) -> Seq<
    char,
> {
    "https://github.com/"@ + owner + "/"@ + name + "/archive/"@ + branch + ".zip"@
}

/// The second provider's archive-download convention, which repeats name
/// and branch in the archive's filename.
pub open spec fn gl_archive_url(owner: Seq<char>, name: Seq<char>, branch: Seq<char>) -> Seq<
    char,
> {
    "https://gitlab.com/"@ + owner + "/"@ + name + "/-/archive/"@ + branch + "/"@ + name + "-"@
        + branch + ".zip"@
}

/// A reference with its branch settled: everything retrieval needs.
pub struct ResolvedTarget {
    pub reference: String,
    pub owner: String,
    pub name: String,
    pub branch: String,
}

/// A parsed reference still waiting for the provider's default branch;
/// `metadata_url` is the query to issue.
pub struct PendingResolve {
    pub reference: String,
    pub owner: String,
    pub name: String,
    pub metadata_url: String,
}

/// What resolving a reference needs next: nothing, or one metadata query.
pub enum ResolveStep {
    Resolved(ResolvedTarget),
    NeedMetadata(PendingResolve),
}

/// Whether an HTTP status reports success.
pub open spec fn spec_status_success(status: u16) -> bool {
    200 <= status < 300
}

/// Whether an HTTP status reports success.
pub fn status_success(status: u16) -> (r: bool)
    ensures
        r == spec_status_success(status),
{
    200 <= status && status < 300
}

/// Starts resolving a reference: parses owner and name, takes an explicit
/// branch verbatim, and otherwise asks for one metadata query to the
/// first provider (the only one whose metadata service is supported).
pub fn begin_resolve(reference: &str, explicit_branch: Option<String>) -> (r: Result<
    ResolveStep,
    AnalyseError,
>)
    ensures
        (r matches Err(e) && e is InvalidReference) == !valid_reference(reference@),
        explicit_branch matches Some(b) ==> (valid_reference(reference@) ==> (r matches Ok(
            ResolveStep::Resolved(t),
        ) && t.reference@ == reference@ && t.owner@ == owner_of(reference@) && t.name@ == name_of(
            reference@,
        ) && t.branch@ == b@)),
        valid_reference(reference@) && explicit_branch is None && is_github(reference@) ==> (
        r matches Ok(ResolveStep::NeedMetadata(p)) && p.reference@ == reference@
            && p.owner@ == owner_of(reference@) && p.name@ == name_of(reference@)
            && p.metadata_url@ == metadata_url_of(owner_of(reference@), name_of(reference@))),
        valid_reference(reference@) && explicit_branch is None && !is_github(reference@) ==> (
        r matches Err(e) && e is UnsupportedProvider),
{
    let parsed = match parse_repo_url(reference) {
        Ok(t) => t,
        Err(_) => {
            return Err(AnalyseError::InvalidReference);
        },
    };
    let (owner, name, _host) = parsed;
    match explicit_branch {
        Some(b) => Ok(
            ResolveStep::Resolved(
                ResolvedTarget {
                    reference: reference.to_owned(),
                    owner,
                    name,
                    branch: b,
                },
            ),
        ),
        None => {
            if strutil::contains_str(reference, "github.com") {
                let mut url = "https://api.github.com/repos/".to_owned();
                url.append(owner.as_str());
                url.append("/");
                url.append(name.as_str());
                proof {
                    assert(url@ =~= metadata_url_of(owner@, name@));
                }
                Ok(
                    ResolveStep::NeedMetadata(
                        PendingResolve {
                            reference: reference.to_owned(),
                            owner,
                            name,
                            metadata_url: url,
                        },
                    ),
                )
            } else {
                Err(AnalyseError::UnsupportedProvider)
            }
        },
    }
}

/// Finishes resolution from the metadata response: a non-success status
/// or an unreadable body fails with that status and body; otherwise the
/// `default_branch` field decides the branch, with `main` as the
/// fallback when the field is absent.
pub fn finish_resolve(pending: PendingResolve, status: u16, body: &str) -> (r: Result<
    ResolvedTarget,
    AnalyseError,
>)
    ensures
        (r is Ok) == (spec_status_success(status) && jsonio::json_string_field(
            body@,
            "default_branch"@,
        ).0),
        r matches Ok(t) ==> t.reference@ == pending.reference@ && t.owner@ == pending.owner@
            && t.name@ == pending.name@,
        r matches Ok(t) ==> t.branch@ == (match jsonio::json_string_field(
            body@,
            "default_branch"@,
        ).1 {
            Some(b) => b,
            None => "main"@,
        }),
        r matches Err(e) ==> e matches AnalyseError::MetadataFetchFailed { status: st, body: b }
            && st == status && b@ == body@,
{
    if !status_success(status) {
        return Err(AnalyseError::MetadataFetchFailed { status, body: body.to_owned() });
    }
    match jsonio::read_string_field(body, "default_branch") {
        Err(_) => Err(AnalyseError::MetadataFetchFailed { status, body: body.to_owned() }),
        Ok(field) => {
            let branch = match field {
                Some(b) => b,
                None => "main".to_owned(),
            };
            Ok(
                ResolvedTarget {
                    reference: pending.reference,
                    owner: pending.owner,
                    name: pending.name,
                    branch,
                },
            )
        },
    }
}

/// Admits a downloaded archive: a non-success status fails the run with
/// that status, and a success hands the bytes through unchanged.
pub fn accept_download(status: u16, bytes: Vec<u8>) -> (r: Result<Vec<u8>, AnalyseError>)
    ensures
        spec_status_success(status) ==> (r matches Ok(b) && b@ == bytes@),
        !spec_status_success(status) ==> (r matches Err(e) && e
            matches AnalyseError::DownloadFailed { status: st } && st == status),
{
    if status_success(status) {
        Ok(bytes)
    } else {
        Err(AnalyseError::DownloadFailed { status })
    }
}

/// Builds the archive-download URL for the target's provider, going by
/// which hosting domain the target's reference names; a reference that
/// names neither is unsupported.
pub fn archive_url(target: &ResolvedTarget) -> (r: Result<String, AnalyseError>)
    ensures
        is_github(target.reference@) ==> (r matches Ok(u) && u@ == gh_archive_url(
            target.owner@,
            target.name@,
            target.branch@,
        )),
        !is_github(target.reference@) && is_gitlab(target.reference@) ==> (r matches Ok(u) && u@
            == gl_archive_url(target.owner@, target.name@, target.branch@)),
        (r matches Err(e) && e is UnsupportedProvider) == (!is_github(target.reference@)
            && !is_gitlab(target.reference@)),
{
    if strutil::contains_str(target.reference.as_str(), "github.com") {
        let mut url = "https://github.com/".to_owned();
        url.append(target.owner.as_str());
        url.append("/");
        url.append(target.name.as_str());
        url.append("/archive/");
        url.append(target.branch.as_str());
        url.append(".zip");
        proof {
            assert(url@ =~= gh_archive_url(target.owner@, target.name@, target.branch@));
        }
        Ok(url)
    } else if strutil::contains_str(target.reference.as_str(), "gitlab.com") {
        let mut url = "https://gitlab.com/".to_owned();
        url.append(target.owner.as_str());
        url.append("/");
        url.append(target.name.as_str());
        url.append("/-/archive/");
        url.append(target.branch.as_str());
        url.append("/");
        url.append(target.name.as_str());
        url.append("-");
        url.append(target.branch.as_str());
        url.append(".zip");
        proof {
            assert(url@ =~= gl_archive_url(target.owner@, target.name@, target.branch@));
        }
        Ok(url)
    } else {
        Err(AnalyseError::UnsupportedProvider)
    }
}

} // verus!
