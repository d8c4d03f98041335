use vstd::prelude::*;
use vstd::string::StringExecFns;
use crate::order::{insert_sorted, strictly_sorted, views};

verus! {

/// What the file system showed for one input path.
#[derive(Debug, Clone)]
pub enum Probe {
    /// Nothing exists at the path.
    Missing,
    /// A regular file.
    File,
    /// A directory; it holds the paths of its direct children that are regular files.
    Dir(Vec<String>),
    /// Something else, such as a broken link.
    Other,
}

/// Why a list of paths could not be resolved.
#[derive(Debug, Clone)]
pub enum FindError {
    /// An input path that does not exist.
    PathNotFound(String),
    /// A directory could not be listed; the system's message.
    Io(String),
}

impl FindError {
    /// A message that names the offending path.
    pub fn message(&self) -> (r: String)
        ensures
            self matches FindError::PathNotFound(p) ==> r@ == p@ + " does not exist"@,
            self matches FindError::Io(m) ==> r@ == m@,
    {
        match self {
            FindError::PathNotFound(p) => p.clone().concat(" does not exist"),
            FindError::Io(m) => m.clone(),
        }
    }
}

/// The files that one input path contributes.
pub open spec fn contributed(path: Seq<char>, p: Probe) -> Set<Seq<char>> {
    match p {
        Probe::File => set![path],
        Probe::Dir(children) => views(children@).to_set(),
        _ => Set::empty(),
    }
}

/// The files that the first `probes.len()` input paths contribute together.
pub open spec fn gathered(paths: Seq<Seq<char>>, probes: Seq<Probe>) -> Set<Seq<char>>
    decreases probes.len(),
{
    if probes.len() == 0 {
        Set::empty()
    } else {
        gathered(paths, probes.drop_last()).union(
            contributed(paths[probes.len() - 1], probes.last()),
        )
    }
}

/// The input path at `i` is the first that does not exist.
pub open spec fn first_missing(probes: Seq<Probe>, i: int) -> bool {
    &&& 0 <= i < probes.len()
    &&& probes[i] is Missing
    &&& forall|k: int| 0 <= k < i ==> !(#[trigger] probes[k] is Missing)
}

pub open spec fn any_missing(probes: Seq<Probe>) -> bool {
    exists|i: int| 0 <= i < probes.len() && (#[trigger] probes[i]) is Missing
}

/// Turns what was seen of each input path into the sorted list of files, without repeats.
///
/// Fails with the first input path that does not exist, wherever it stands.
/// Directories are expanded one level only: `Probe::Dir` lists the children that
/// are files.
pub fn resolve(paths: &[String], probes: &Vec<Probe>) -> (r: Result<Vec<String>, FindError>)
    requires
        probes.len() == paths@.len(),
    ensures
        r is Err <==> any_missing(probes@),
        r is Err ==> exists|i: int|
            first_missing(probes@, i) && (r->Err_0 matches FindError::PathNotFound(p) && p@
                == paths@[i]@),
        r is Ok ==> strictly_sorted(views(r->Ok_0@)),
        r is Ok ==> views(r->Ok_0@).to_set() == gathered(views(paths@), probes@),
{
    let mut i: usize = 0;
    while i < probes.len()
        invariant
            i <= probes.len() == paths@.len(),
            forall|k: int| 0 <= k < i ==> !(#[trigger] probes@[k] is Missing),
        decreases probes.len() - i,
    {
        if let Probe::Missing = probes[i] {
            assert(first_missing(probes@, i as int));
            return Err(FindError::PathNotFound(paths[i].clone()));
        }
        i = i + 1;
    }
    let ghost ps = views(paths@);
    let mut r: Vec<String> = Vec::new();
    let mut i: usize = 0;
    assert(views(r@).to_set() =~= Set::empty());
    while i < probes.len()
        invariant
            i <= probes.len() == paths@.len(),
            ps == views(paths@),
            strictly_sorted(views(r@)),
            views(r@).to_set() == gathered(ps, probes@.take(i as int)),
        decreases probes.len() - i,
    {
        let ghost base = gathered(ps, probes@.take(i as int));
        assert(probes@.take(i + 1).drop_last() =~= probes@.take(i as int));
        match &probes[i] {
            Probe::File => {
                insert_sorted(&mut r, paths[i].clone());
                assert(base.insert(ps[i as int]) =~= base.union(set![ps[i as int]]));
            },
            Probe::Dir(children) => {
                let mut k: usize = 0;
                assert(views(children@.take(0)).to_set() =~= Set::empty());
                while k < children.len()
                    invariant
                        k <= children.len(),
                        strictly_sorted(views(r@)),
                        views(r@).to_set() == base.union(views(children@.take(k as int)).to_set()),
                    decreases children.len() - k,
                {
                    let ghost part = views(children@.take(k as int));
                    assert(views(children@.take(k + 1)) =~= part.push(children@[k as int]@));
                    proof {
                        part.lemma_push_to_set_commute(children@[k as int]@);
                    }
                    insert_sorted(&mut r, children[k].clone());
                    assert(base.union(part.to_set()).insert(children@[k as int]@) =~= base.union(
                        part.push(children@[k as int]@).to_set(),
                    ));
                    k = k + 1;
                }
                assert(children@.take(children@.len() as int) =~= children@);
            },
            _ => {
                assert(base =~= base.union(Set::empty()));
            },
        }
        i = i + 1;
    }
    assert(probes@.take(probes@.len() as int) =~= probes@);
    Ok(r)
}

/// Relies on std::path::Path::symlink_metadata: whether anything is at the path, a
/// link included, whether or not it leads anywhere.
#[verifier::external_body]
fn path_exists(p: &str) -> bool {
    std::path::Path::new(p).symlink_metadata().is_ok()
}

/// Relies on std::path::Path::is_dir: whether the path names a directory.
#[verifier::external_body]
fn path_is_dir(p: &str) -> bool {
    std::path::Path::new(p).is_dir()
}

/// Relies on std::path::Path::is_file: whether the path names a regular file.
#[verifier::external_body]
fn path_is_file(p: &str) -> bool {
    std::path::Path::new(p).is_file()
}

/// Relies on std::path::Path::read_dir: the paths of the entries of a directory,
/// each the directory joined with the entry's name, or the system's message.
#[verifier::external_body]
fn dir_entries(p: &str) -> Result<Vec<String>, String> {
    match std::path::Path::new(p).read_dir() {
        Ok(entries) => entries
            .map(|e| e.map(|e| e.path().to_string_lossy().into_owned()))
            .collect::<Result<Vec<String>, _>>()
            .map_err(|e| e.to_string()),
        Err(e) => Err(e.to_string()),
    }
}

/// The entries whose answer is `true`, in order.
pub open spec fn flagged(entries: Seq<Seq<char>>, keep: Seq<bool>) -> Seq<Seq<char>>
    decreases entries.len(),
{
    if entries.len() == 0 || keep.len() != entries.len() {
        seq![]
    } else {
        let r = flagged(entries.drop_last(), keep.drop_last());
        if keep.last() {
            r.push(entries.last())
        } else {
            r
        }
    }
}

/// Keeps the entries whose answer in `keep` is `true`, in the order they come.
pub fn keep_flagged(entries: &Vec<String>, keep: &Vec<bool>) -> (r: Vec<String>)
    requires
        entries.len() == keep.len(),
    ensures
        views(r@) == flagged(views(entries@), keep@),
{
    let ghost es = views(entries@);
    let mut r: Vec<String> = Vec::new();
    let mut k: usize = 0;
    assert(views(r@) =~= seq![]);
    while k < entries.len()
        invariant
            k <= entries.len() == keep.len(),
            es == views(entries@),
            views(r@) == flagged(es.take(k as int), keep@.take(k as int)),
        decreases entries.len() - k,
    {
        assert(es.take(k + 1).drop_last() =~= es.take(k as int));
        assert(keep@.take(k + 1).drop_last() =~= keep@.take(k as int));
        let ghost before = views(r@);
        if keep[k] {
            r.push(entries[k].clone());
            assert(views(r@) =~= before.push(es[k as int]));
        }
        k = k + 1;
    }
    assert(es.take(entries.len() as int) =~= es);
    assert(keep@.take(keep.len() as int) =~= keep@);
    r
}

/// Looks at one existing path: a file, a directory with the files right in it, or
/// neither (a link that leads nowhere, for one).
fn probe(p: &str) -> (r: Result<Probe, FindError>)
    ensures
        r is Ok ==> !(r->Ok_0 is Missing),
        r is Err ==> r->Err_0 is Io,
{
    if path_is_dir(p) {
        let entries = match dir_entries(p) {
            Ok(v) => v,
            Err(m) => {
                return Err(FindError::Io(m));
            },
        };
        let mut answers: Vec<bool> = Vec::new();
        let mut k: usize = 0;
        while k < entries.len()
            invariant
                k <= entries.len(),
                answers.len() == k,
            decreases entries.len() - k,
        {
            answers.push(path_is_file(entries[k].as_str()));
            k = k + 1;
        }
        Ok(Probe::Dir(keep_flagged(&entries, &answers)))
    } else if path_is_file(p) {
        Ok(Probe::File)
    } else {
        Ok(Probe::Other)
    }
}

/// Resolves the input paths on the file system into a sorted list of files without
/// repeats: a file stands for itself, a directory for the regular files right in it.
///
/// Stops at the first path that does not exist and names it.
pub fn find_files(paths: &[String]) -> (r: Result<Vec<String>, FindError>)
    ensures
        r matches Err(FindError::PathNotFound(p)) ==> exists|i: int|
            0 <= i < paths@.len() && p@ == (#[trigger] paths@[i])@,
        r is Ok ==> strictly_sorted(views(r->Ok_0@)),
        r is Ok ==> exists|ps: Seq<Probe>|
            ps.len() == paths@.len() && !any_missing(ps) && views(r->Ok_0@).to_set()
                == #[trigger] gathered(views(paths@), ps),
        paths@.len() == 0 ==> r is Ok && r->Ok_0@.len() == 0,
{
    let mut probes: Vec<Probe> = Vec::new();
    let mut i: usize = 0;
    while i < paths.len()
        invariant
            i <= paths@.len(),
            probes.len() == i,
            forall|k: int| 0 <= k < i ==> !(#[trigger] probes@[k] is Missing),
        decreases paths.len() - i,
    {
        let p = paths[i].as_str();
        if !path_exists(p) {
            return Err(FindError::PathNotFound(paths[i].clone()));
        }
        let found = match probe(p) {
            Ok(found) => found,
            Err(e) => {
                return Err(e);
            },
        };
        probes.push(found);
        i = i + 1;
    }
    let r = resolve(paths, &probes);
    if let Err(FindError::PathNotFound(_)) = &r {
        assert(any_missing(probes@));
    }
    proof {
        if r is Ok {
            let v = views(r->Ok_0@);
            assert(gathered(views(paths@), probes@) == views(r->Ok_0@).to_set());
            if paths@.len() == 0 && v.len() > 0 {
                assert(v.to_set().contains(v[0]));
                assert(gathered(views(paths@), probes@) =~= Set::empty());
            }
        }
    }
    r
}

} // verus!
