//! Recursive expansion of a directory subtree into a flat file manifest.
//!
//! `TreeResolver` is the state machine of the resolution phase: a frontier of
//! directories still to list, the file entries found so far and their total
//! size, and the first listing error, if any. The surrounding binary performs
//! the remote listing calls — possibly several at a time — and feeds each
//! result back through `apply_listing` or `apply_error`. Resolution is
//! fail-fast: once any listing has failed, `finish` returns that error and
//! no manifest.

use vstd::prelude::*;

use crate::github::GitHubFile;

verus! {

/// Why a resolution failed, per the remote listing API's status taxonomy.
#[derive(Debug)]
pub enum TreeError {
    RemoteNotFound,
    RemoteAuthRequired,
    RemoteOther { status: u16, body: String },
    TransientNetwork { detail: String },
}

/// Whether a listing child is a directory (anything else counts as a file).
pub open spec fn entry_is_dir(f: GitHubFile) -> bool {
    f.file_type@ == "dir"@
}

/// The non-directory children of a listing, in listing order.
pub open spec fn file_entries(s: Seq<GitHubFile>) -> Seq<GitHubFile>
    decreases s.len(),
{
    if s.len() == 0 {
        Seq::<GitHubFile>::empty()
    } else if entry_is_dir(s.last()) {
        file_entries(s.drop_last())
    } else {
        file_entries(s.drop_last()).push(s.last())
    }
}

/// The paths of the directory children of a listing, in listing order.
pub open spec fn dir_paths(s: Seq<GitHubFile>) -> Seq<String>
    decreases s.len(),
{
    if s.len() == 0 {
        Seq::<String>::empty()
    } else if entry_is_dir(s.last()) {
        dir_paths(s.drop_last()).push(s.last().path)
    } else {
        dir_paths(s.drop_last())
    }
}

/// The sizes of the non-directory entries of a listing, summed.
pub open spec fn size_sum(s: Seq<GitHubFile>) -> nat
    decreases s.len(),
{
    if s.len() == 0 {
        0
    } else if entry_is_dir(s.last()) {
        size_sum(s.drop_last())
    } else {
        (size_sum(s.drop_last()) + s.last().size) as nat
    }
}

pub proof fn lemma_size_sum_prefix(s: Seq<GitHubFile>, i: int)
    requires
        0 <= i <= s.len(),
    ensures
        size_sum(s) >= size_sum(s.subrange(0, i)),
    decreases s.len() - i,
{
    if i == s.len() {
        assert(s.subrange(0, i) =~= s);
    } else {
        let t = s.subrange(0, i + 1);
        assert(t.drop_last() =~= s.subrange(0, i));
        lemma_size_sum_prefix(s, i + 1);
    }
}

pub proof fn lemma_size_sum_concat(a: Seq<GitHubFile>, b: Seq<GitHubFile>)
    ensures
        size_sum(a + b) == size_sum(a) + size_sum(b),
    decreases b.len(),
{
    if b.len() == 0 {
        assert(a + b =~= a);
    } else {
        assert((a + b).drop_last() =~= a + b.drop_last());
        assert((a + b).last() == b.last());
        lemma_size_sum_concat(a, b.drop_last());
    }
}

pub proof fn lemma_file_entries_files_only(s: Seq<GitHubFile>)
    ensures
        forall|i: int| 0 <= i < file_entries(s).len() ==> !entry_is_dir(#[trigger] file_entries(s)[i]),
    decreases s.len(),
{
    if s.len() > 0 {
        lemma_file_entries_files_only(s.drop_last());
        let pre = file_entries(s.drop_last());
        assert forall|i: int| 0 <= i < file_entries(s).len() implies !entry_is_dir(
            #[trigger] file_entries(s)[i],
        ) by {
            if i < pre.len() {
                assert(file_entries(s)[i] == pre[i]);
            }
        }
    }
}

pub proof fn lemma_file_entries_size(s: Seq<GitHubFile>)
    ensures
        size_sum(file_entries(s)) == size_sum(s),
    decreases s.len(),
{
    if s.len() > 0 {
        lemma_file_entries_size(s.drop_last());
        if !entry_is_dir(s.last()) {
            assert(file_entries(s).drop_last() =~= file_entries(s.drop_last()));
        }
    }
}

/// No two entries share a path: the path is the sole identity key.
pub open spec fn paths_distinct(s: Seq<GitHubFile>) -> bool {
    forall|i: int, j: int| 0 <= i < j < s.len() ==> s[i].path@ != s[j].path@
}

/// The file children of one listing are new: no two of them share a path,
/// and none repeats the path of a file already accumulated.
pub open spec fn listing_paths_fresh(files: Seq<GitHubFile>, children: Seq<GitHubFile>) -> bool {
    &&& forall|i: int, j: int|
        0 <= i < j < children.len() && !entry_is_dir(children[i]) && !entry_is_dir(children[j])
            ==> children[i].path@ != children[j].path@
    &&& forall|i: int, j: int|
        0 <= i < files.len() && 0 <= j < children.len() && !entry_is_dir(children[j])
            ==> files[i].path@ != children[j].path@
}

pub proof fn lemma_file_entries_membership(s: Seq<GitHubFile>)
    ensures
        forall|k: int| 0 <= k < file_entries(s).len() ==> s.contains(#[trigger] file_entries(s)[k]),
    decreases s.len(),
{
    if s.len() > 0 {
        lemma_file_entries_membership(s.drop_last());
        let pre = file_entries(s.drop_last());
        assert forall|k: int| 0 <= k < file_entries(s).len() implies s.contains(
            #[trigger] file_entries(s)[k],
        ) by {
            if k < pre.len() {
                assert(file_entries(s)[k] == pre[k]);
                let i = choose|i: int| 0 <= i < s.drop_last().len() && s.drop_last()[i] == pre[k];
                assert(s[i] == pre[k]);
            } else {
                assert(file_entries(s)[k] == s[s.len() - 1]);
            }
        }
    }
}

pub proof fn lemma_file_entries_distinct(files: Seq<GitHubFile>, children: Seq<GitHubFile>)
    requires
        paths_distinct(files),
        listing_paths_fresh(files, children),
    ensures
        paths_distinct(files + file_entries(children)),
    decreases children.len(),
{
    if children.len() == 0 {
        assert(files + file_entries(children) =~= files);
    } else {
        let dl = children.drop_last();
        assert(listing_paths_fresh(files, dl)) by {
            assert(forall|i: int| 0 <= i < dl.len() ==> dl[i] == children[i]);
        }
        lemma_file_entries_distinct(files, dl);
        let last = children.last();
        if entry_is_dir(last) {
            assert(files + file_entries(children) =~= files + file_entries(dl));
        } else {
            let prev = files + file_entries(dl);
            let whole = files + file_entries(children);
            assert(whole =~= prev.push(last));
            lemma_file_entries_membership(dl);
            lemma_file_entries_files_only(dl);
            assert forall|i: int, j: int| 0 <= i < j < whole.len() implies whole[i].path@
                != whole[j].path@ by {
                if j < prev.len() {
                    assert(whole[i] == prev[i] && whole[j] == prev[j]);
                } else {
                    assert(whole[j] == last);
                    if i < files.len() {
                        assert(whole[i] == files[i]);
                        assert(files[i].path@ != children[children.len() - 1].path@);
                    } else {
                        let k = i - files.len();
                        assert(whole[i] == file_entries(dl)[k]);
                        let m = choose|m: int|
                            0 <= m < dl.len() && dl[m] == file_entries(dl)[k];
                        assert(children[m] == dl[m]);
                        assert(!entry_is_dir(children[m]));
                        assert(children[m].path@ != children[children.len() - 1].path@);
                    }
                }
            }
        }
    }
}

/// The flat, file-only result of recursively expanding a directory subtree.
#[derive(Debug)]
pub struct Manifest {
    pub entries: Vec<GitHubFile>,
    pub total_size_bytes: u64,
}

/// A manifest holds file entries only, each under a path of its own, and its
/// total is their summed size.
pub open spec fn manifest_wf(m: Manifest) -> bool {
    &&& m.total_size_bytes == size_sum(m.entries@)
    &&& forall|i: int| 0 <= i < m.entries@.len() ==> !entry_is_dir(#[trigger] m.entries@[i])
    &&& paths_distinct(m.entries@)
}

/// Whether a listing child is a directory.
pub fn is_dir_entry(f: &GitHubFile) -> (r: bool)
    ensures
        r == entry_is_dir(*f),
{
    let dir_marker = String::from_str("dir");
    proof {
        reveal_strlit("dir");
    }
    f.file_type == dir_marker
}

impl GitHubFile {
    /// A field-for-field copy with the same value in every contract.
    pub fn duplicate(&self) -> (r: GitHubFile)
        ensures
            r == *self,
    {
        GitHubFile {
            path: self.path.clone(),
            name: self.name.clone(),
            file_type: self.file_type.clone(),
            download_url: match &self.download_url {
                Some(u) => Some(u.clone()),
                None => None,
            },
            sha: self.sha.clone(),
            size: self.size,
        }
    }
}

/// The state of one subtree resolution.
pub struct TreeResolver {
    frontier: Vec<String>,
    files: Vec<GitHubFile>,
    total_size: u64,
    outstanding: usize,
    failed: Option<TreeError>,
}

impl TreeResolver {
    /// The directories not yet listed.
    pub closed spec fn spec_frontier(self) -> Seq<String> {
        self.frontier@
    }

    /// The file entries accumulated so far, in discovery order.
    pub closed spec fn spec_files(self) -> Seq<GitHubFile> {
        self.files@
    }

    /// The summed size of the accumulated file entries.
    pub closed spec fn spec_total(self) -> nat {
        self.total_size as nat
    }

    /// How many listing calls have been handed out and not yet answered.
    pub closed spec fn spec_outstanding(self) -> nat {
        self.outstanding as nat
    }

    /// The first listing error, if any listing has failed.
    pub closed spec fn spec_failed(self) -> Option<TreeError> {
        self.failed
    }

    /// The accumulated entries are files only, no two share a path, and
    /// their sizes sum to the total.
    pub open spec fn wf(self) -> bool {
        &&& self.spec_total() == size_sum(self.spec_files())
        &&& forall|i: int|
            0 <= i < self.spec_files().len() ==> !entry_is_dir(#[trigger] self.spec_files()[i])
        &&& paths_distinct(self.spec_files())
    }

    /// A fresh resolution rooted at `root`: one frontier entry, nothing found.
    pub fn new(root: String) -> (r: TreeResolver)
        ensures
            r.wf(),
            r.spec_frontier() == seq![root],
            r.spec_files() == Seq::<GitHubFile>::empty(),
            r.spec_total() == 0,
            r.spec_outstanding() == 0,
            r.spec_failed() is None,
    {
        let mut frontier: Vec<String> = Vec::new();
        frontier.push(root);
        proof {
            assert(frontier@ =~= seq![root]);
        }
        TreeResolver { frontier, files: Vec::new(), total_size: 0, outstanding: 0, failed: None }
    }

    /// Whether some listing has failed already.
    pub fn has_failed(&self) -> (b: bool)
        ensures
            b == (self.spec_failed() is Some),
    {
        self.failed.is_some()
    }

    /// How many listing calls are outstanding.
    pub fn outstanding(&self) -> (n: usize)
        ensures
            n == self.spec_outstanding(),
    {
        self.outstanding
    }

    /// Whether every discovered directory has been listed and answered.
    pub fn is_done(&self) -> (b: bool)
        ensures
            b == (self.spec_frontier().len() == 0 && self.spec_outstanding() == 0),
    {
        self.frontier.len() == 0 && self.outstanding == 0
    }

    /// Hands out the next directory to list and counts it outstanding.
    /// After a failure, or with an empty frontier, there is nothing to do.
    pub fn next_dir(&mut self) -> (d: Option<String>)
        requires
            old(self).spec_outstanding() < usize::MAX,
        ensures
            final(self).spec_files() == old(self).spec_files(),
            final(self).spec_total() == old(self).spec_total(),
            final(self).spec_failed() == old(self).spec_failed(),
            old(self).spec_failed() is Some || old(self).spec_frontier().len() == 0 ==> {
                &&& d is None
                &&& final(self).spec_frontier() == old(self).spec_frontier()
                &&& final(self).spec_outstanding() == old(self).spec_outstanding()
            },
            old(self).spec_failed() is None && old(self).spec_frontier().len() > 0 ==> {
                &&& d == Some(old(self).spec_frontier().last())
                &&& final(self).spec_frontier() == old(self).spec_frontier().drop_last()
                &&& final(self).spec_outstanding() == old(self).spec_outstanding() + 1
            },
    {
        if self.failed.is_some() {
            return None;
        }
        match self.frontier.pop() {
            Some(dir) => {
                self.outstanding = self.outstanding + 1;
                Some(dir)
            },
            None => None,
        }
    }

    /// Merges one successful listing: non-directory children join the
    /// manifest and their sizes the total, directory children join the
    /// frontier. A path identifies at most one manifest entry, so the file
    /// children must be fresh. Returns `false` — leaving the state
    /// untouched — only when the total would no longer fit in 64 bits.
    pub fn apply_listing(&mut self, children: Vec<GitHubFile>) -> (ok: bool)
        requires
            old(self).spec_outstanding() > 0,
            old(self).spec_failed() is None,
            listing_paths_fresh(old(self).spec_files(), children@),
        ensures
            final(self).spec_failed() is None,
            ok ==> {
                &&& final(self).spec_files() == old(self).spec_files() + file_entries(children@)
                &&& final(self).spec_frontier() == old(self).spec_frontier() + dir_paths(children@)
                &&& final(self).spec_total() == old(self).spec_total() + size_sum(children@)
                &&& final(self).spec_outstanding() == old(self).spec_outstanding() - 1
            },
            !ok ==> {
                &&& final(self).spec_files() == old(self).spec_files()
                &&& final(self).spec_frontier() == old(self).spec_frontier()
                &&& final(self).spec_total() == old(self).spec_total()
                &&& final(self).spec_outstanding() == old(self).spec_outstanding()
                &&& old(self).spec_total() + size_sum(children@) > u64::MAX
            },
            old(self).wf() ==> final(self).wf(),
    {
        // First pass: the new total must fit before anything is merged.
        let mut probe: u64 = self.total_size;
        let mut i: usize = 0;
        while i < children.len()
            invariant
                0 <= i <= children@.len(),
                *self == *old(self),
                self.spec_failed() is None,
                probe == self.total_size + size_sum(children@.subrange(0, i as int)),
            decreases children@.len() - i,
        {
            proof {
                assert(children@.subrange(0, i + 1 as int).drop_last() =~= children@.subrange(
                    0,
                    i as int,
                ));
                assert(children@.subrange(0, i + 1 as int).last() == children@[i as int]);
            }
            if !is_dir_entry(&children[i]) {
                match probe.checked_add(children[i].size) {
                    Some(t) => {
                        probe = t;
                    },
                    None => {
                        proof {
                            lemma_size_sum_prefix(children@, i + 1 as int);
                        }
                        return false;
                    },
                }
            }
            i = i + 1;
        }
        proof {
            assert(children@.subrange(0, children@.len() as int) =~= children@);
        }
        // Second pass: merge.
        let ghost old_files = self.files@;
        let ghost old_frontier = self.frontier@;
        let ghost old_total = self.total_size;
        let mut j: usize = 0;
        while j < children.len()
            invariant
                0 <= j <= children@.len(),
                old_total + size_sum(children@) <= u64::MAX,
                self.files@ == old_files + file_entries(children@.subrange(0, j as int)),
                self.frontier@ == old_frontier + dir_paths(children@.subrange(0, j as int)),
                self.total_size == old_total + size_sum(children@.subrange(0, j as int)),
                self.outstanding == old(self).outstanding,
                self.failed == old(self).failed,
            decreases children@.len() - j,
        {
            proof {
                assert(children@.subrange(0, j + 1 as int).drop_last() =~= children@.subrange(
                    0,
                    j as int,
                ));
                assert(children@.subrange(0, j + 1 as int).last() == children@[j as int]);
                lemma_size_sum_prefix(children@, j + 1 as int);
            }
            let child = &children[j];
            if is_dir_entry(child) {
                self.frontier.push(child.path.clone());
            } else {
                self.total_size = self.total_size + child.size;
                self.files.push(child.duplicate());
            }
            j = j + 1;
        }
        proof {
            assert(children@.subrange(0, children@.len() as int) =~= children@);
        }
        self.outstanding = self.outstanding - 1;
        proof {
            if old(self).wf() {
                lemma_size_sum_concat(old_files, file_entries(children@));
                lemma_file_entries_size(children@);
                lemma_file_entries_files_only(children@);
                lemma_file_entries_distinct(old_files, children@);
                assert forall|k: int| 0 <= k < self.spec_files().len() implies !entry_is_dir(
                    #[trigger] self.spec_files()[k],
                ) by {
                    if k < old_files.len() {
                        assert(self.spec_files()[k] == old_files[k]);
                    } else {
                        assert(self.spec_files()[k] == file_entries(children@)[k - old_files.len()]);
                    }
                }
            }
        }
        true
    }

    /// Records one failed listing. The first error is kept; later ones are
    /// dropped, as the whole resolution is already doomed.
    pub fn apply_error(&mut self, e: TreeError)
        requires
            old(self).spec_outstanding() > 0,
        ensures
            final(self).spec_files() == old(self).spec_files(),
            final(self).spec_frontier() == old(self).spec_frontier(),
            final(self).spec_total() == old(self).spec_total(),
            final(self).spec_outstanding() == old(self).spec_outstanding() - 1,
            old(self).spec_failed() is Some ==> final(self).spec_failed() == old(self).spec_failed(),
            old(self).spec_failed() is None ==> final(self).spec_failed() == Some(e),
            old(self).wf() ==> final(self).wf(),
    {
        self.outstanding = self.outstanding - 1;
        if self.failed.is_none() {
            self.failed = Some(e);
        }
    }

    /// Closes the resolution. Any recorded listing error aborts it with that
    /// error and no manifest — there is no partial manifest. Otherwise the
    /// manifest holds exactly the accumulated file entries and their summed
    /// size.
    pub fn finish(self) -> (r: Result<Manifest, TreeError>)
        requires
            self.wf(),
            self.spec_failed() is Some || (self.spec_frontier().len() == 0
                && self.spec_outstanding() == 0),
        ensures
            self.spec_failed() matches Some(e) ==> r == Result::<Manifest, TreeError>::Err(e),
            self.spec_failed() is None ==> {
                &&& r matches Ok(m)
                &&& m.entries@ == self.spec_files()
                &&& m.total_size_bytes == self.spec_total()
                &&& manifest_wf(m)
            },
    {
        match self.failed {
            Some(e) => Err(e),
            None => Ok(Manifest { entries: self.files, total_size_bytes: self.total_size }),
        }
    }
}

/// The file entries of a run of listings, concatenated in order.
pub open spec fn flatten_files(listings: Seq<Seq<GitHubFile>>) -> Seq<GitHubFile>
    decreases listings.len(),
{
    if listings.len() == 0 {
        Seq::<GitHubFile>::empty()
    } else {
        flatten_files(listings.drop_last()) + file_entries(listings.last())
    }
}

/// The summed file sizes of a run of listings.
pub open spec fn flatten_size(listings: Seq<Seq<GitHubFile>>) -> nat
    decreases listings.len(),
{
    if listings.len() == 0 {
        0
    } else {
        flatten_size(listings.drop_last()) + size_sum(listings.last())
    }
}

/// Law: whatever listings a resolution merges, in whatever order they come
/// back, the accumulated entries are exactly their file children — zero
/// directory entries — and the accumulated total is exactly the sum of those
/// files' sizes.
pub proof fn lemma_resolution_exact(listings: Seq<Seq<GitHubFile>>)
    ensures
        forall|i: int|
            0 <= i < flatten_files(listings).len() ==> !entry_is_dir(
                #[trigger] flatten_files(listings)[i],
            ),
        size_sum(flatten_files(listings)) == flatten_size(listings),
    decreases listings.len(),
{
    if listings.len() > 0 {
        lemma_resolution_exact(listings.drop_last());
        lemma_file_entries_files_only(listings.last());
        lemma_file_entries_size(listings.last());
        lemma_size_sum_concat(flatten_files(listings.drop_last()), file_entries(listings.last()));
        assert forall|i: int| 0 <= i < flatten_files(listings).len() implies !entry_is_dir(
            #[trigger] flatten_files(listings)[i],
        ) by {
            let pre = flatten_files(listings.drop_last());
            if i < pre.len() {
                assert(flatten_files(listings)[i] == pre[i]);
            } else {
                assert(flatten_files(listings)[i] == file_entries(listings.last())[i - pre.len()]);
            }
        }
    }
}

/// The listing API URL for one directory of one repository.
pub fn api_url_for(user: &str, repository: &str, path: &str) -> (s: String)
    ensures
        s@ == "https://api.github.com/repos/"@ + user@ + seq!['/'] + repository@ + "/contents/"@
            + path@,
{
    let mut s = String::from_str("https://api.github.com/repos/");
    s.append(user);
    s.append("/");
    s.append(repository);
    s.append("/contents/");
    s.append(path);
    proof {
        reveal_strlit("/");
        assert("/"@ =~= seq!['/']);
        assert(s@ =~= "https://api.github.com/repos/"@ + user@ + seq!['/'] + repository@
            + "/contents/"@ + path@);
    }
    s
}

/// Sorts one listing response status into the error taxonomy: 2xx is
/// success, 404 means the resource is missing, 401 and 403 demand a
/// credential, and every other status surfaces verbatim with its body.
pub fn classify_listing_status(status: u16, body: String) -> (r: Result<(), TreeError>)
    ensures
        200 <= status < 300 ==> r is Ok,
        status == 404 ==> r matches Err(TreeError::RemoteNotFound),
        status == 401 || status == 403 ==> r matches Err(TreeError::RemoteAuthRequired),
        !(200 <= status < 300) && status != 404 && status != 401 && status != 403 ==> {
            &&& r matches Err(TreeError::RemoteOther { status: s, body: b })
            &&& s == status
            &&& b == body
        },
{
    if 200 <= status && status < 300 {
        Ok(())
    } else if status == 404 {
        Err(TreeError::RemoteNotFound)
    } else if status == 401 || status == 403 {
        Err(TreeError::RemoteAuthRequired)
    } else {
        Err(TreeError::RemoteOther { status, body })
    }
}

} // verus!
