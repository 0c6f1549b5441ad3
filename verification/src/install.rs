//! The archive installer's effect on a directory, modelled exactly: a
//! directory is a finite map from relative paths to file contents, and
//! installing a list of archive entries writes each entry in order, creating
//! or overwriting files ("last write wins") and leaving every other file
//! untouched. Writing the resulting files to disk is the caller's I/O.

use vstd::prelude::*;

use crate::util::str_eq;

verus! {

/// Why an archive could not be installed.
#[derive(Clone, Copy, Debug, PartialEq, Eq, Structural)]
pub enum InstallError {
    /// The archive cannot be opened or one of its entries cannot be read.
    ArchiveCorrupt,
    /// A filesystem write failed (reported by callers that perform the writes).
    WriteFailed,
}

/// One file record of an archive: a relative path and the file's bytes.
pub struct ArchiveEntry {
    pub path: String,
    pub data: Vec<u8>,
}

/// The mathematical content of a sequence of entries.
pub open spec fn entries_view(es: Seq<ArchiveEntry>) -> Seq<(Seq<char>, Seq<u8>)> {
    es.map(|i: int, e: ArchiveEntry| (e.path@, e.data@))
}

/// A directory tree, as the map from relative file paths to contents.
pub struct Directory {
    files: Vec<(String, Vec<u8>)>,
}

/// The map described by an association list; later records shadow earlier
/// ones.
pub open spec fn spec_dir_map(files: Seq<(String, Vec<u8>)>) -> Map<Seq<char>, Seq<u8>>
    decreases files.len(),
{
    if files.len() == 0 {
        Map::empty()
    } else {
        spec_dir_map(files.drop_last()).insert(files.last().0@, files.last().1@)
    }
}

impl View for Directory {
    type V = Map<Seq<char>, Seq<u8>>;

    closed spec fn view(&self) -> Map<Seq<char>, Seq<u8>> {
        spec_dir_map(self.files@)
    }
}

impl Directory {
    /// An empty directory.
    pub fn new() -> (d: Directory)
        ensures
            d@ == Map::<Seq<char>, Seq<u8>>::empty(),
    {
        Directory { files: Vec::new() }
    }

    /// Writes one file, creating it or overwriting an existing file at the
    /// same path.
    pub fn write(&mut self, path: String, data: Vec<u8>)
        ensures
            final(self)@ == old(self)@.insert(path@, data@),
    {
        let ghost before = self.files@;
        let ghost p = path@;
        let ghost d = data@;
        self.files.push((path, data));
        proof {
            assert(self.files@.drop_last() =~= before);
        }
    }

    /// The contents of the file at `path`, if present.
    pub fn get(&self, path: &str) -> (r: Option<&Vec<u8>>)
        ensures
            match r {
                Some(data) => self@.contains_key(path@) && self@[path@] == data@,
                None => !self@.contains_key(path@),
            },
    {
        let mut j: usize = self.files.len();
        proof {
            assert(self.files@.take(j as int) =~= self.files@);
        }
        while j > 0
            invariant
                j <= self.files@.len(),
                self@.contains_key(path@) == spec_dir_map(self.files@.take(j as int)).contains_key(
                    path@,
                ),
                spec_dir_map(self.files@.take(j as int)).contains_key(path@) ==> self@[path@]
                    == spec_dir_map(self.files@.take(j as int))[path@],
            decreases j,
        {
            j -= 1;
            proof {
                assert(self.files@.take(j + 1 as int).drop_last() =~= self.files@.take(j as int));
                assert(self.files@.take(j + 1 as int).last() == self.files@[j as int]);
            }
            if str_eq(self.files[j].0.as_str(), path) {
                return Some(&self.files[j].1);
            }
        }
        proof {
            assert(self.files@.take(0) =~= Seq::<(String, Vec<u8>)>::empty());
        }
        None
    }

    /// Whether a file exists at `path`.
    pub fn contains(&self, path: &str) -> (r: bool)
        ensures
            r == self@.contains_key(path@),
    {
        match self.get(path) {
            Some(_) => true,
            None => false,
        }
    }
}

/// The effect of installing the entries in order into `d`: each entry's file
/// is written at its path, later entries overwriting earlier ones.
pub open spec fn spec_install(
    d: Map<Seq<char>, Seq<u8>>,
    es: Seq<(Seq<char>, Seq<u8>)>,
) -> Map<Seq<char>, Seq<u8>>
    decreases es.len(),
{
    if es.len() == 0 {
        d
    } else {
        spec_install(d.insert(es[0].0, es[0].1), es.drop_first())
    }
}

/// Extracts every entry into the destination in archive order, creating or
/// overwriting files; pre-existing unrelated files are untouched.
pub fn install(dest: &mut Directory, entries: &Vec<ArchiveEntry>)
    ensures
        final(dest)@ == spec_install(old(dest)@, entries_view(entries@)),
{
    let ghost all = entries_view(entries@);
    let ghost d0 = old(dest)@;
    let mut i: usize = 0;
    proof {
        assert(all.skip(0) =~= all);
    }
    while i < entries.len()
        invariant
            i <= entries@.len(),
            all == entries_view(entries@),
            spec_install(d0, all) == spec_install(dest@, all.skip(i as int)),
        decreases entries@.len() - i,
    {
        let ghost before = dest@;
        let path = String::from_str(entries[i].path.as_str());
        let data = crate::util::clone_bytes(&entries[i].data);
        dest.write(path, data);
        proof {
            assert(all.skip(i as int)[0] == all[i as int]);
            assert(all.skip(i as int).drop_first() =~= all.skip(i + 1 as int));
            assert(spec_install(before, all.skip(i as int)) == spec_install(
                dest@,
                all.skip(i + 1 as int),
            ));
        }
        i += 1;
    }
    proof {
        assert(all.skip(all.len() as int) =~= Seq::<(Seq<char>, Seq<u8>)>::empty());
    }
}

/// Installing never disturbs a file whose path no entry carries: such a file
/// is present afterwards exactly when it was present before, with the same
/// contents.
pub proof fn lemma_install_preserves_unrelated(
    d: Map<Seq<char>, Seq<u8>>,
    es: Seq<(Seq<char>, Seq<u8>)>,
    p: Seq<char>,
)
    requires
        forall|i: int| 0 <= i < es.len() ==> es[i].0 != p,
    ensures
        spec_install(d, es).contains_key(p) == d.contains_key(p),
        d.contains_key(p) ==> spec_install(d, es)[p] == d[p],
    decreases es.len(),
{
    if es.len() > 0 {
        assert(es[0].0 != p);
        assert(forall|i: int| 0 <= i < es.drop_first().len() ==> es.drop_first()[i] == es[i + 1]);
        lemma_install_preserves_unrelated(d.insert(es[0].0, es[0].1), es.drop_first(), p);
    }
}

/// Installing writes every entry: a file appears at each entry's path, and an
/// entry whose path no later entry repeats determines that file's contents
/// ("last write wins").
pub proof fn lemma_install_writes_entries(
    d: Map<Seq<char>, Seq<u8>>,
    es: Seq<(Seq<char>, Seq<u8>)>,
    i: int,
)
    requires
        0 <= i < es.len(),
    ensures
        spec_install(d, es).contains_key(es[i].0),
        (forall|j: int| i < j < es.len() ==> es[j].0 != es[i].0) ==> spec_install(d, es)[es[i].0]
            == es[i].1,
    decreases es.len(),
{
    assert(forall|k: int| 0 <= k < es.drop_first().len() ==> es.drop_first()[k] == es[k + 1]);
    if i == 0 {
        if forall|j: int| 0 < j < es.len() ==> (#[trigger] es[j]).0 != es[0].0 {
            lemma_install_preserves_unrelated(
                d.insert(es[0].0, es[0].1),
                es.drop_first(),
                es[0].0,
            );
        } else {
            let d1 = d.insert(es[0].0, es[0].1);
            lemma_install_contains_base(d1, es.drop_first(), es[0].0);
        }
    } else {
        lemma_install_writes_entries(d.insert(es[0].0, es[0].1), es.drop_first(), i - 1);
    }
}

/// A file present before an install is still present afterwards (possibly
/// overwritten).
pub proof fn lemma_install_contains_base(
    d: Map<Seq<char>, Seq<u8>>,
    es: Seq<(Seq<char>, Seq<u8>)>,
    p: Seq<char>,
)
    requires
        d.contains_key(p),
    ensures
        spec_install(d, es).contains_key(p),
    decreases es.len(),
{
    if es.len() > 0 {
        lemma_install_contains_base(d.insert(es[0].0, es[0].1), es.drop_first(), p);
    }
}

/// Installing creates no file beyond the base directory's files and the
/// entries' paths.
pub proof fn lemma_install_no_stray_files(
    d: Map<Seq<char>, Seq<u8>>,
    es: Seq<(Seq<char>, Seq<u8>)>,
    p: Seq<char>,
)
    requires
        !d.contains_key(p),
        forall|i: int| 0 <= i < es.len() ==> es[i].0 != p,
    ensures
        !spec_install(d, es).contains_key(p),
    decreases es.len(),
{
    lemma_install_preserves_unrelated(d, es, p);
}

} // verus!
