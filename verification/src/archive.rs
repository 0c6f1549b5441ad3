//! Reading a compressed archive held in memory. The decompression itself is
//! the zip crate's work and stands behind trusted declarations; everything
//! around it — walking the entries, collecting them, installing them into a
//! directory — is verified against two names for what the zip crate
//! computes. `zip_parse` names the full decode of the bytes: the entry
//! records when the bytes open as an archive and every entry can be read,
//! nothing otherwise; it is a function of the bytes alone. On an opened
//! archive, `archive_contents` names its records and `entry_readable` names
//! which of them can be read — opening can succeed while a later entry read
//! fails, so the two levels are tied together only where every entry is
//! readable, which is exactly when `zip_parse` succeeds.

use vstd::prelude::*;

use crate::install::{entries_view, spec_install, ArchiveEntry, Directory, InstallError};

verus! {

#[verifier::external_type_specification]
#[verifier::external_body]
#[verifier::reject_recursive_types(T)]
pub struct ExCursor<T>(std::io::Cursor<T>);

#[verifier::external_type_specification]
#[verifier::external_body]
#[verifier::reject_recursive_types(R)]
pub struct ExZipArchive<R>(zip::ZipArchive<R>);

/// The full decode of a zip archive from bytes: `Some` exactly when the
/// bytes open as an archive and every entry of it can be read, carrying each
/// entry's stored relative path and decompressed bytes in archive order;
/// `None` otherwise. A function of the bytes alone.
pub uninterp spec fn zip_parse(bytes: Seq<u8>) -> Option<Seq<(Seq<char>, Seq<u8>)>>;

/// The file records that an opened archive holds, in archive order: each
/// entry's stored relative path and its decompressed bytes (where an entry
/// cannot be read, its bytes component is unconstrained, and no contract
/// speaks of it).
pub uninterp spec fn archive_contents(
    a: zip::ZipArchive<std::io::Cursor<Vec<u8>>>,
) -> Seq<(Seq<char>, Seq<u8>)>;

/// Whether entry `i` of an opened archive can be read: its record located
/// and its data decompressed. A property of the archive value alone.
pub uninterp spec fn entry_readable(
    a: zip::ZipArchive<std::io::Cursor<Vec<u8>>>,
    i: int,
) -> bool;

/// Whether every entry of an opened archive can be read. This is exactly the
/// condition under which the archive's records are the full decode of the
/// bytes it was opened from.
pub open spec fn archive_readable(a: zip::ZipArchive<std::io::Cursor<Vec<u8>>>) -> bool {
    forall|i: int| 0 <= i < archive_contents(a).len() ==> entry_readable(a, i)
}

/// Relies on `zip::ZipArchive::new`: parses the central directory of a zip
/// archive read from the given bytes, deterministically. `Ok` exactly when
/// the bytes open as an archive — so whenever the full decode succeeds — and
/// the opened archive's records are that decode precisely when its every
/// entry is readable; an archive that opens but holds an unreadable entry is
/// one whose full decode fails.
#[verifier::external_body]
fn zip_open(bytes: &Vec<u8>) -> (r: Result<zip::ZipArchive<std::io::Cursor<Vec<u8>>>, InstallError>)
    ensures
        zip_parse(bytes@) is Some ==> r is Ok,
        match r {
            Ok(a) => zip_parse(bytes@) == (if archive_readable(a) {
                Some(archive_contents(a))
            } else {
                None
            }),
            Err(err) => err == InstallError::ArchiveCorrupt && zip_parse(bytes@) is None,
        },
{
    match zip::ZipArchive::new(std::io::Cursor::new(bytes.clone())) {
        Ok(a) => Ok(a),
        Err(_) => Err(InstallError::ArchiveCorrupt),
    }
}

/// Relies on `zip::ZipArchive::len`: the number of files in the archive.
#[verifier::external_body]
fn zip_len(a: &zip::ZipArchive<std::io::Cursor<Vec<u8>>>) -> (n: usize)
    ensures
        n == archive_contents(*a).len(),
{
    a.len()
}

/// Relies on `zip::ZipArchive::by_index`: yields the entry's stored name
/// and, through the entry's `std::io::Read` impl, its decompressed bytes.
/// Reading succeeds exactly when the entry is readable — the outcome is
/// determined by the archive value — and it leaves the archive's records and
/// every entry's readability as they were (only the reader's position
/// moves). `Err` when the entry cannot be read.
#[verifier::external_body]
fn zip_entry(
    a: &mut zip::ZipArchive<std::io::Cursor<Vec<u8>>>,
    i: usize,
) -> (r: Result<ArchiveEntry, InstallError>)
    requires
        i < archive_contents(*old(a)).len(),
    ensures
        archive_contents(*final(a)) == archive_contents(*old(a)),
        forall|k: int| entry_readable(*final(a), k) == entry_readable(*old(a), k),
        r is Ok <==> entry_readable(*old(a), i as int),
        match r {
            Ok(e) => (e.path@, e.data@) == archive_contents(*old(a))[i as int],
            Err(err) => err == InstallError::ArchiveCorrupt,
        },
{
    let mut file = match a.by_index(i) {
        Ok(f) => f,
        Err(_) => {
            return Err(InstallError::ArchiveCorrupt);
        },
    };
    let path = file.name().to_string();
    let mut data: Vec<u8> = Vec::new();
    match std::io::Read::read_to_end(&mut file, &mut data) {
        Ok(_) => Ok(ArchiveEntry { path, data }),
        Err(_) => Err(InstallError::ArchiveCorrupt),
    }
}

/// An archive opened from bytes held in memory.
pub struct LoadedArchive {
    inner: zip::ZipArchive<std::io::Cursor<Vec<u8>>>,
}

impl LoadedArchive {
    /// The archive's file records, in archive order.
    pub closed spec fn contents(&self) -> Seq<(Seq<char>, Seq<u8>)> {
        archive_contents(self.inner)
    }

    /// Whether every entry of the archive can be read.
    pub closed spec fn readable(&self) -> bool {
        archive_readable(self.inner)
    }

    /// Opens the bytes as a compressed archive. Succeeds whenever the bytes
    /// fully decode — the opened archive then holds exactly that decode's
    /// records, all readable — and fails with `ArchiveCorrupt` only on bytes
    /// whose full decode fails.
    pub fn open(bytes: &Vec<u8>) -> (r: Result<LoadedArchive, InstallError>)
        ensures
            zip_parse(bytes@) is Some ==> r is Ok,
            match r {
                Ok(a) => zip_parse(bytes@) == (if a.readable() {
                    Some(a.contents())
                } else {
                    None
                }),
                Err(err) => err == InstallError::ArchiveCorrupt && zip_parse(bytes@) is None,
            },
    {
        match zip_open(bytes) {
            Ok(a) => Ok(LoadedArchive { inner: a }),
            Err(e) => Err(e),
        }
    }

    /// The number of file records.
    pub fn len(&self) -> (n: usize)
        ensures
            n == self.contents().len(),
    {
        zip_len(&self.inner)
    }

    /// Reads one entry. Success is owed on a fully readable archive;
    /// `ArchiveCorrupt` comes only when the entry cannot be read, which
    /// shows the archive is not fully readable. Reading changes neither the
    /// records nor their readability.
    pub fn entry(&mut self, i: usize) -> (r: Result<ArchiveEntry, InstallError>)
        requires
            i < old(self).contents().len(),
        ensures
            final(self).contents() == old(self).contents(),
            final(self).readable() == old(self).readable(),
            old(self).readable() ==> r is Ok,
            match r {
                Ok(e) => (e.path@, e.data@) == old(self).contents()[i as int],
                Err(err) => err == InstallError::ArchiveCorrupt && !old(self).readable(),
            },
    {
        let ghost before = self.inner;
        let r = zip_entry(&mut self.inner, i);
        proof {
            assert(archive_readable(self.inner) == archive_readable(before));
            if r is Err {
                assert(!entry_readable(before, i as int));
                assert(!archive_readable(before));
            }
        }
        r
    }

    /// Reads every entry in archive order. Success is owed on a fully
    /// readable archive, and success shows the archive is one: the result is
    /// then exactly the archive's contents. `ArchiveCorrupt` comes only when
    /// some entry cannot be read.
    pub fn extract_entries(&mut self) -> (r: Result<Vec<ArchiveEntry>, InstallError>)
        ensures
            final(self).contents() == old(self).contents(),
            final(self).readable() == old(self).readable(),
            old(self).readable() ==> r is Ok,
            match r {
                Ok(es) => entries_view(es@) == old(self).contents() && old(self).readable(),
                Err(err) => err == InstallError::ArchiveCorrupt && !old(self).readable(),
            },
    {
        let n = self.len();
        let mut out: Vec<ArchiveEntry> = Vec::new();
        let mut i: usize = 0;
        while i < n
            invariant
                i <= n,
                n == self.contents().len(),
                self.contents() == old(self).contents(),
                forall|k: int| entry_readable(self.inner, k) == entry_readable(
                    old(self).inner,
                    k,
                ),
                out@.len() == i,
                forall|j: int| 0 <= j < i ==> ((#[trigger] out@[j]).path@, out@[j].data@)
                    == self.contents()[j],
                forall|j: int| 0 <= j < i ==> entry_readable(self.inner, j),
            decreases n - i,
        {
            let ghost before = self.inner;
            match zip_entry(&mut self.inner, i) {
                Ok(e) => {
                    out.push(e);
                },
                Err(err) => {
                    proof {
                        assert(!entry_readable(before, i as int));
                        assert(!archive_readable(old(self).inner));
                    }
                    return Err(err);
                },
            }
            i += 1;
        }
        proof {
            assert(entries_view(out@) =~= old(self).contents());
            assert(archive_readable(old(self).inner));
        }
        Ok(out)
    }

    /// Extracts every entry of the archive into the destination directory,
    /// in archive order. Success is owed on a fully readable archive and
    /// shows the archive is one; the destination then holds exactly the old
    /// files overlaid with the archive's entries. When an entry cannot be
    /// read, nothing is written to the model directory and the error is
    /// `ArchiveCorrupt`.
    pub fn install_into(&mut self, dest: &mut Directory) -> (r: Result<(), InstallError>)
        ensures
            final(self).contents() == old(self).contents(),
            final(self).readable() == old(self).readable(),
            old(self).readable() ==> r is Ok,
            match r {
                Ok(()) => old(self).readable() && final(dest)@ == spec_install(
                    old(dest)@,
                    old(self).contents(),
                ),
                Err(err) => err == InstallError::ArchiveCorrupt && final(dest)@ == old(dest)@
                    && !old(self).readable(),
            },
    {
        match self.extract_entries() {
            Ok(es) => {
                crate::install::install(dest, &es);
                Ok(())
            },
            Err(err) => Err(err),
        }
    }
}

/// Opens `archive_bytes` as a compressed archive and extracts every entry
/// into the destination directory. Succeeds exactly when the bytes fully
/// decode; the destination then holds its old files overlaid, in archive
/// order, with the decode's entries. On bytes that do not fully decode —
/// among them any that cannot be opened as a zip archive — the result is
/// `ArchiveCorrupt` and the destination is untouched.
pub fn install_archive(dest: &mut Directory, archive_bytes: &Vec<u8>) -> (r: Result<
    (),
    InstallError,
>)
    ensures
        r is Ok <==> zip_parse(archive_bytes@) is Some,
        match r {
            Ok(()) => zip_parse(archive_bytes@) matches Some(es) && final(dest)@ == spec_install(
                old(dest)@,
                es,
            ),
            Err(err) => err == InstallError::ArchiveCorrupt && final(dest)@ == old(dest)@
                && zip_parse(archive_bytes@) is None,
        },
{
    let mut archive = match LoadedArchive::open(archive_bytes) {
        Ok(a) => a,
        Err(err) => {
            return Err(err);
        },
    };
    match archive.install_into(dest) {
        Ok(()) => Ok(()),
        Err(err) => Err(err),
    }
}

} // verus!
