//! Resolving a URL path against the document root.
//!
//! A request's path maps to the filesystem as `<document-root><url-path>`,
//! with two rewrites: a path ending in `/` gets `index.html` appended
//! outright, and a candidate that turns out to name a directory gets
//! `/index.html` appended.  Resolution succeeds only when the final
//! candidate names a regular file.
//!
//! The filesystem itself is outside the crate; callers probe the two
//! candidate paths and feed the answers in as [`MetaKind`] values.  The
//! contracts state the result as a pure function of the URL and those
//! answers, and [`lemma_resolution_deterministic`] pins the resulting law:
//! against one filesystem snapshot, resolving the same URL twice yields the
//! same target.
//!
//! Whether a resolved file is executable is read off its permission mode:
//! any of the owner, group or other execute bits marks it CGI-eligible.

use vstd::prelude::*;
use crate::bytes::append_bytes;

verus! {

/// What a probe of one candidate path found.
#[derive(Clone, Copy, PartialEq, Eq, Structural, Debug)]
pub enum MetaKind {
    /// The path names a directory.
    Directory,
    /// The path names a regular file with this permission mode.
    RegularFile { mode: u32 },
    /// The path names nothing, or something that is neither a regular file
    /// nor a directory.
    Absent,
}

/// A successfully resolved request target: the filesystem path to serve or
/// execute, and whether its permission bits make it executable.
pub struct ResolvedTarget {
    pub path: Vec<u8>,
    pub is_executable: bool,
}

/// The name appended to a path that ends in a slash.
pub open spec fn index_file() -> Seq<u8> {
    seq![105u8, 110u8, 100u8, 101u8, 120u8, 46u8, 104u8, 116u8, 109u8, 108u8]
}

/// The suffix appended to a candidate that names a directory.
pub open spec fn slash_index_file() -> Seq<u8> {
    seq![47u8] + index_file()
}

/// The first candidate path: the document root followed by the URL path,
/// with `index.html` appended when that ends in a slash.
pub open spec fn first_candidate_spec(root: Seq<u8>, url: Seq<u8>) -> Seq<u8> {
    let c = root + url;
    if c.len() > 0 && c.last() == 47 {
        c + index_file()
    } else {
        c
    }
}

/// The second candidate path, tried when the first names a directory.
pub open spec fn index_candidate_spec(candidate: Seq<u8>) -> Seq<u8> {
    candidate + slash_index_file()
}

/// Is a file with this permission mode executable?  Any of the owner,
/// group or other execute bits suffices.
pub open spec fn executable_spec(mode: u32) -> bool {
    (mode & 0o100) != 0 || (mode & 0o010) != 0 || (mode & 0o001) != 0
}

/// What resolution yields, as a function of the URL and the two probe
/// answers: the first candidate itself when it is a regular file; the
/// second candidate when the first is a directory and the second a regular
/// file; nothing otherwise.  The executable flag comes from the mode of
/// whichever candidate won.
pub open spec fn resolve_from(
    root: Seq<u8>,
    url: Seq<u8>,
    first_meta: MetaKind,
    index_meta: MetaKind,
) -> Option<(Seq<u8>, bool)> {
    let c1 = first_candidate_spec(root, url);
    match first_meta {
        MetaKind::RegularFile { mode } => Some((c1, executable_spec(mode))),
        MetaKind::Directory => match index_meta {
            MetaKind::RegularFile { mode } => Some(
                (index_candidate_spec(c1), executable_spec(mode)),
            ),
            _ => None,
        },
        MetaKind::Absent => None,
    }
}

/// What a filesystem snapshot answers for a path: its entry, or
/// [`MetaKind::Absent`] when it has none.
pub open spec fn meta_at(fs: Map<Seq<u8>, MetaKind>, path: Seq<u8>) -> MetaKind {
    if fs.dom().contains(path) {
        fs[path]
    } else {
        MetaKind::Absent
    }
}

/// Resolution against a whole filesystem snapshot: [`resolve_from`] with
/// both probe answers drawn from the snapshot.
pub open spec fn resolve_spec(
    root: Seq<u8>,
    url: Seq<u8>,
    fs: Map<Seq<u8>, MetaKind>,
) -> Option<(Seq<u8>, bool)> {
    let c1 = first_candidate_spec(root, url);
    resolve_from(root, url, meta_at(fs, c1), meta_at(fs, index_candidate_spec(c1)))
}

/// Law: resolution is a function of the URL and the filesystem snapshot
/// alone.  Two resolutions of the same URL whose probe answers come from
/// the same snapshot yield the same target — resolving twice with no
/// filesystem change cannot disagree.
pub proof fn lemma_resolution_deterministic(
    root: Seq<u8>,
    url: Seq<u8>,
    fs: Map<Seq<u8>, MetaKind>,
    m1a: MetaKind,
    m2a: MetaKind,
    m1b: MetaKind,
    m2b: MetaKind,
)
    requires
        m1a == meta_at(fs, first_candidate_spec(root, url)),
        m1b == meta_at(fs, first_candidate_spec(root, url)),
        m2a == meta_at(fs, index_candidate_spec(first_candidate_spec(root, url))),
        m2b == meta_at(fs, index_candidate_spec(first_candidate_spec(root, url))),
    ensures
        resolve_from(root, url, m1a, m2a) == resolve_from(root, url, m1b, m2b),
        resolve_from(root, url, m1a, m2a) == resolve_spec(root, url, fs),
{
}

/// The view of a resolution result: the path bytes and the executable flag.
pub open spec fn target_view(r: Option<ResolvedTarget>) -> Option<(Seq<u8>, bool)> {
    match r {
        Option::Some(t) => Some((t.path@, t.is_executable)),
        Option::None => None,
    }
}

/// Build the first candidate path for a URL, per [`first_candidate_spec`].
pub fn first_candidate(root: &[u8], url: &[u8]) -> (r: Vec<u8>)
    ensures
        r@ == first_candidate_spec(root@, url@),
{
    let mut v: Vec<u8> = Vec::new();
    append_bytes(&mut v, root);
    append_bytes(&mut v, url);
    let needs_index = v.len() > 0 && v[v.len() - 1] == 47u8;
    if needs_index {
        push_index_file(&mut v);
    }
    proof {
        assert(v@ =~= first_candidate_spec(root@, url@));
    }
    v
}

/// Build the second candidate path, per [`index_candidate_spec`].
pub fn index_candidate(candidate: &[u8]) -> (r: Vec<u8>)
    ensures
        r@ == index_candidate_spec(candidate@),
{
    let mut v: Vec<u8> = Vec::new();
    append_bytes(&mut v, candidate);
    v.push(47u8);
    push_index_file(&mut v);
    proof {
        assert(v@ =~= index_candidate_spec(candidate@));
    }
    v
}

/// Append the index file name.
fn push_index_file(v: &mut Vec<u8>)
    ensures
        final(v)@ == old(v)@ + index_file(),
{
    v.push(105u8);
    v.push(110u8);
    v.push(100u8);
    v.push(101u8);
    v.push(120u8);
    v.push(46u8);
    v.push(104u8);
    v.push(116u8);
    v.push(109u8);
    v.push(108u8);
    proof {
        assert(v@ =~= old(v)@ + index_file());
    }
}

/// Decide [`executable_spec`] for a permission mode.
pub fn mode_is_executable(mode: u32) -> (b: bool)
    ensures
        b == executable_spec(mode),
{
    (mode & 0o100) != 0 || (mode & 0o010) != 0 || (mode & 0o001) != 0
}

/// Resolve a URL from the two probe answers, per [`resolve_from`].  Callers
/// probe [`first_candidate`] and then [`index_candidate`] of it, and hand
/// both answers in; the result is the target to serve or execute, or
/// nothing when the URL resolves to no regular file.
pub fn resolve(root: &[u8], url: &[u8], first_meta: MetaKind, index_meta: MetaKind) -> (r:
    Option<ResolvedTarget>)
    ensures
        target_view(r) == resolve_from(root@, url@, first_meta, index_meta),
{
    let c1 = first_candidate(root, url);
    match first_meta {
        MetaKind::RegularFile { mode } => Some(
            ResolvedTarget { path: c1, is_executable: mode_is_executable(mode) },
        ),
        MetaKind::Directory => match index_meta {
            MetaKind::RegularFile { mode } => {
                let c2 = index_candidate(c1.as_slice());
                Some(ResolvedTarget { path: c2, is_executable: mode_is_executable(mode) })
            },
            _ => None,
        },
        MetaKind::Absent => None,
    }
}

} // verus!
