//! Repository coordinates and the remote listing data model.
//!
//! A GitHub URL is reduced to `RepositoryInfo` coordinates: owner, repository
//! name, optional git reference and the subdirectory to clone. The URL itself
//! is decomposed by the `url` crate behind a trusted wrapper; everything done
//! with the decomposition is verified here.

use vstd::prelude::*;

verus! {

/// The coordinates of one subdirectory of one repository.
#[derive(Debug, Clone)]
pub struct RepositoryInfo {
    pub user: String,
    pub repository: String,
    pub git_reference: Option<String>,
    pub directory: String,
}

/// Why a URL yields no repository coordinates.
#[derive(Debug)]
pub enum RepoInfoError {
    InvalidUrl(String),
    NotARepository(String),
}

impl RepoInfoError {
    /// The human-readable message for this error.
    pub fn message(&self) -> (m: String)
        ensures
            self matches RepoInfoError::InvalidUrl(d) ==> m@ == "Invalid GitHub URL: "@ + d@,
            self matches RepoInfoError::NotARepository(d) ==> m@ == "URL does not point to a repository: "@
                + d@,
    {
        match self {
            RepoInfoError::InvalidUrl(d) => {
                let mut m = String::from_str("Invalid GitHub URL: ");
                m.append(d.as_str());
                m
            },
            RepoInfoError::NotARepository(d) => {
                let mut m = String::from_str("URL does not point to a repository: ");
                m.append(d.as_str());
                m
            },
        }
    }
}

/// One child returned by the remote listing API: a file or a directory.
#[derive(Debug, Clone)]
pub struct GitHubFile {
    pub path: String,
    pub name: String,
    pub file_type: String,
    pub download_url: Option<String>,
    pub sha: String,
    pub size: u64,
}

/// What `url::Url::parse` extracts from a URL string: `None` when the string
/// is not a valid URL, otherwise the host (if any) and the path segments
/// (absent for URLs that cannot be a base).
pub uninterp spec fn parsed_url(s: Seq<char>) -> Option<(Option<Seq<char>>, Option<Seq<Seq<char>>>)>;

/// The views of a sequence of strings.
pub open spec fn segs_view(v: Seq<String>) -> Seq<Seq<char>> {
    v.map_values(|x: String| x@)
}

/// The view of the plain host/segments pair a URL decomposes into.
pub open spec fn parts_view(p: (Option<String>, Option<Vec<String>>)) -> (
    Option<Seq<char>>,
    Option<Seq<Seq<char>>>,
) {
    (
        match p.0 {
            Some(h) => Some(h@),
            None => None,
        },
        match p.1 {
            Some(v) => Some(segs_view(v@)),
            None => None,
        },
    )
}

/// Relies on `url::Url::parse`: a syntactically valid URL decomposes into a
/// host and path segments, read back through `Url::host_str` and
/// `Url::path_segments`; an invalid one yields the parse error's message.
#[verifier::external_body]
fn parse_url(s: &str) -> (r: Result<(Option<String>, Option<Vec<String>>), String>)
    ensures
        r is Ok <==> parsed_url(s@) is Some,
        r matches Ok(p) ==> parsed_url(s@) == Some(parts_view(p)),
{
    match url::Url::parse(s) {
        Ok(u) => {
            let host = u.host_str().map(|h| h.to_string());
            let segments = u.path_segments().map(|it| it.map(|x| x.to_string()).collect());
            Ok((host, segments))
        },
        Err(e) => Err(e.to_string()),
    }
}

/// The path segments joined with `/` between them.
pub open spec fn join_slash(s: Seq<Seq<char>>) -> Seq<char>
    decreases s.len(),
{
    if s.len() == 0 {
        Seq::<char>::empty()
    } else if s.len() == 1 {
        s[0]
    } else {
        join_slash(s.drop_last()) + seq!['/'] + s.last()
    }
}

/// Joins `segs[from..]` with `/` between consecutive segments.
pub fn join_path_segments(segs: &Vec<String>, from: usize) -> (s: String)
    requires
        from <= segs@.len(),
    ensures
        s@ == join_slash(segs_view(segs@).skip(from as int)),
{
    let ghost whole = segs_view(segs@);
    let mut s = String::new();
    let mut i: usize = from;
    while i < segs.len()
        invariant
            from <= i <= segs@.len(),
            whole == segs_view(segs@),
            whole.len() == segs@.len(),
            s@ == join_slash(whole.subrange(from as int, i as int)),
        decreases segs@.len() - i,
    {
        proof {
            assert(whole[i as int] == segs@[i as int]@);
        }
        if i > from {
            s.append("/");
            proof {
                reveal_strlit("/");
                assert("/"@ =~= seq!['/']);
            }
        }
        s.append(segs[i].as_str());
        proof {
            let prev = whole.subrange(from as int, i as int);
            let cur = whole.subrange(from as int, i + 1 as int);
            assert(cur.drop_last() =~= prev);
            assert(cur.last() == whole[i as int]);
            if i == from {
                assert(cur.len() == 1);
                assert(s@ =~= cur[0]);
            } else {
                assert(s@ =~= join_slash(prev) + seq!['/'] + whole[i as int]);
            }
        }
        i = i + 1;
    }
    proof {
        assert(whole.subrange(from as int, segs@.len() as int) =~= whole.skip(from as int));
    }
    s
}

/// What coordinates a decomposed URL yields: the relation `get_repository_info`
/// and `coordinates_from_parts` promise between the decomposition and their
/// result.
pub open spec fn coords_ok(
    parts: (Option<Seq<char>>, Option<Seq<Seq<char>>>),
    r: Result<RepositoryInfo, RepoInfoError>,
) -> bool {
    let host = parts.0;
    let segs = parts.1;
    if host != Some("github.com"@) {
        &&& r matches Err(RepoInfoError::InvalidUrl(m)) && m@ == "Not a GitHub URL"@
    } else if segs is None {
        &&& r matches Err(RepoInfoError::NotARepository(m)) && m@ == "URL path is empty"@
    } else if segs->Some_0.len() < 2 {
        &&& r matches Err(RepoInfoError::NotARepository(m)) && m@
            == "URL path does not contain user and repository"@
    } else {
        let ss = segs->Some_0;
        &&& r matches Ok(info)
        &&& info.user@ == ss[0]
        &&& info.repository@ == ss[1]
        &&& if ss.len() > 3 && ss[2] == "tree"@ {
            &&& info.git_reference matches Some(g) && g@ == ss[3]
            &&& info.directory@ == join_slash(ss.skip(4))
        } else {
            &&& info.git_reference is None
            &&& info.directory@ == join_slash(ss.skip(2))
        }
    }
}

/// Turns the host and path segments of a URL into repository coordinates:
/// the host must be `github.com`, the first two segments name the owner and
/// the repository, and a `tree/<ref>` pair singles out a git reference before
/// the subdirectory.
pub fn coordinates_from_parts(host: Option<String>, segments: Option<Vec<String>>) -> (r: Result<
    RepositoryInfo,
    RepoInfoError,
>)
    ensures
        coords_ok(parts_view((host, segments)), r),
{
    let github_host = String::from_str("github.com");
    proof {
        reveal_strlit("github.com");
    }
    let host_ok = match &host {
        Some(h) => *h == github_host,
        None => false,
    };
    if !host_ok {
        return Err(RepoInfoError::InvalidUrl(String::from_str("Not a GitHub URL")));
    }
    let segs = match segments {
        Some(v) => v,
        None => {
            return Err(RepoInfoError::NotARepository(String::from_str("URL path is empty")));
        },
    };
    if segs.len() < 2 {
        return Err(
            RepoInfoError::NotARepository(
                String::from_str("URL path does not contain user and repository"),
            ),
        );
    }
    let user = segs[0].clone();
    let repository = segs[1].clone();
    let tree_marker = String::from_str("tree");
    proof {
        reveal_strlit("tree");
    }
    let (git_reference, directory) = if segs.len() > 3 && segs[2] == tree_marker {
        (Some(segs[3].clone()), join_path_segments(&segs, 4))
    } else {
        (None, join_path_segments(&segs, 2))
    };
    proof {
        assert(segs_view(segs@)[0] == segs@[0]@);
        assert(segs_view(segs@)[1] == segs@[1]@);
        if segs@.len() > 3 {
            assert(segs_view(segs@)[2] == segs@[2]@);
            assert(segs_view(segs@)[3] == segs@[3]@);
        }
    }
    Ok(RepositoryInfo { user, repository, git_reference, directory })
}

/// Reduces a GitHub URL to repository coordinates. Fails with `InvalidUrl`
/// when the string does not parse as a URL or its host is not `github.com`,
/// and with `NotARepository` when the path holds fewer than two segments.
pub fn get_repository_info(url: &str) -> (r: Result<RepositoryInfo, RepoInfoError>)
    ensures
        parsed_url(url@) is None ==> r matches Err(RepoInfoError::InvalidUrl(_)),
        parsed_url(url@) matches Some(parts) ==> coords_ok(parts, r),
{
    match parse_url(url) {
        Err(msg) => Err(RepoInfoError::InvalidUrl(msg)),
        Ok((host, segments)) => coordinates_from_parts(host, segments),
    }
}

} // verus!

