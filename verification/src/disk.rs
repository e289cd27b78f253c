//! What a backend takes up on disk.

use vstd::prelude::*;
use vstd::string::*;
use crate::backend::{backend_display_name, display_name, ContainmentBackend};
use crate::memory::file_actual_size_mb;
use crate::units::{Megabytes, Ratio, BYTES_PER_MB};

verus! {

/// Where WSL is installed.
pub const WSL_DIR: &'static str = r"C:\Program Files\WSL";

/// A file with its length and what it takes up on disk.
#[derive(Debug)]
pub struct DiskFile {
    pub name: String,
    pub logical_mb: Megabytes,
    pub actual_mb: Megabytes,
}

/// The result of measuring a backend's files.
#[derive(Debug)]
pub struct DiskResult {
    pub backend: String,
    /// What the files take up together, in megabytes.
    pub total_mb: Ratio,
    pub files: Vec<DiskFile>,
    pub note: Option<String>,
}

/// What Windows says of the compressed size of a file: its two halves and the last error.
#[derive(Clone, Copy, Debug)]
pub struct CompressedSize {
    pub low: u32,
    pub high: u32,
    pub last_error: Option<i32>,
}

/// What was found at a path.
#[derive(Debug)]
pub struct FileReading {
    pub exists: bool,
    /// The last component of the path.
    pub name: String,
    /// The length of the file in bytes, if it could be had.
    pub length: Option<u64>,
    /// The compressed size, where the system has such a thing.
    pub compressed: Option<CompressedSize>,
}

/// What was found in a directory.
#[derive(Debug)]
pub enum DirItem {
    Directory(Vec<DirItem>),
    File(FileReading),
}

/// A name with the length of the file and what it takes up, in bytes.
pub struct FileFacts {
    pub name: Seq<char>,
    pub logical: int,
    pub actual: int,
}

/// What a list of files says.
pub open spec fn facts(files: Seq<DiskFile>) -> Seq<FileFacts> {
    files.map_values(|f: DiskFile| facts_of(f))
}

/// What an entry in a list of files says.
pub open spec fn facts_of(f: DiskFile) -> FileFacts {
    FileFacts { name: f.name@, logical: f.logical_mb.bytes as int, actual: f.actual_mb.bytes as int }
}

/// The length of a file in bytes, or nothing if it could not be had.
pub open spec fn length_of(length: Option<u64>) -> int {
    match length {
        Some(n) => n as int,
        None => 0,
    }
}

/// What a file comes to. It takes up its compressed size where there is such a thing, unless that
/// failed, and else its length.
pub open spec fn file_facts(f: FileReading) -> FileFacts {
    FileFacts {
        name: f.name@,
        logical: length_of(f.length),
        actual: match f.compressed {
            Some(c) => if c.low == 0xffff_ffff && c.last_error != Some(0i32) {
                length_of(f.length)
            } else {
                c.high * 0x1_0000_0000 + c.low
            },
            None => length_of(f.length),
        },
    }
}

/// The one file, if it exists.
pub open spec fn if_exists(f: FileReading) -> Seq<FileFacts> {
    if f.exists {
        seq![file_facts(f)]
    } else {
        Seq::empty()
    }
}

/// Measures a file, if it exists.
pub fn measure_file(f: &FileReading) -> (r: Option<DiskFile>)
    ensures
        r is Some <==> f.exists,
        r matches Some(d) ==> facts_of(d) == file_facts(*f),
{
    if !f.exists {
        return None;
    }
    let logical = match f.length {
        Some(n) => Megabytes { bytes: n },
        None => Megabytes { bytes: 0 },
    };
    let actual = match f.compressed {
        Some(c) => file_actual_size_mb(c.low, c.high, c.last_error, f.length),
        None => logical,
    };
    Some(DiskFile { name: String::from_str(f.name.as_str()), logical_mb: logical, actual_mb: actual })
}

/// The files below a directory, in the order in which they were found.
pub open spec fn files_below(items: Seq<DirItem>) -> Seq<FileFacts>
    decreases items,
{
    if items.len() == 0 {
        Seq::empty()
    } else {
        files_below(items.drop_last()) + files_at(items.last())
    }
}

/// The files at or below what was found.
pub open spec fn files_at(item: DirItem) -> Seq<FileFacts>
    decreases item,
{
    match item {
        DirItem::Directory(items) => files_below(items@),
        DirItem::File(f) => if_exists(f),
    }
}

/// Measures all files below a directory.
pub fn measure_dir_recursive(items: &Vec<DirItem>) -> (r: Vec<DiskFile>)
    ensures
        facts(r@) == files_below(items@),
    decreases items,
{
    let mut out: Vec<DiskFile> = Vec::new();
    let mut i: usize = 0;
    assert(facts(out@) =~= files_below(items@.take(0)));
    while i < items.len()
        invariant
            i <= items@.len(),
            facts(out@) == files_below(items@.take(i as int)),
        decreases items@.len() - i,
    {
        let ghost before = out@;
        proof {
            assert(items@.take(i + 1).drop_last() =~= items@.take(i as int));
            assert(items@.take(i + 1).last() == items@[i as int]);
            assert(files_below(items@.take(i + 1)) == files_below(items@.take(i as int)) + files_at(
                items@[i as int],
            ));
        }
        match &items[i] {
            DirItem::Directory(inner) => {
                let mut found = measure_dir_recursive(inner);
                let ghost more = found@;
                out.append(&mut found);
                assert(files_at(items@[i as int]) == files_below(inner@));
                assert(facts(out@) =~= facts(before) + facts(more));
            },
            DirItem::File(f) => {
                assert(files_at(items@[i as int]) == if_exists(*f));
                match measure_file(f) {
                    Some(d) => {
                        out.push(d);
                        assert(facts(out@) =~= facts(before) + seq![facts_of(d)]);
                    },
                    None => {
                        assert(facts(before) =~= facts(before) + Seq::<FileFacts>::empty());
                    },
                }
            },
        }
        i += 1;
    }
    assert(items@.take(i as int) =~= items@);
    out
}

/// Measures the files of a list that exist.
fn measure_files(list: &Vec<FileReading>) -> (r: Vec<DiskFile>)
    ensures
        facts(r@) == existing(list@),
{
    let mut out: Vec<DiskFile> = Vec::new();
    let mut i: usize = 0;
    assert(facts(out@) =~= existing(list@.take(0)));
    while i < list.len()
        invariant
            i <= list@.len(),
            facts(out@) == existing(list@.take(i as int)),
        decreases list@.len() - i,
    {
        let ghost before = out@;
        assert(list@.take(i + 1).drop_last() =~= list@.take(i as int));
        match measure_file(&list[i]) {
            Some(d) => {
                out.push(d);
                assert(facts(out@) =~= facts(before) + seq![facts_of(d)]);
            },
            None => {
                assert(facts(before) =~= facts(before) + Seq::<FileFacts>::empty());
            },
        }
        i += 1;
    }
    assert(list@.take(i as int) =~= list@);
    out
}

/// The files of a list that exist.
pub open spec fn existing(list: Seq<FileReading>) -> Seq<FileFacts>
    decreases list.len(),
{
    if list.len() == 0 {
        Seq::empty()
    } else {
        existing(list.drop_last()) + if_exists(list.last())
    }
}

/// The names of a backend's files: of NanVix next to the executable, of WSLc where WSL is installed.
/// Parts of WSL that containers do not need are not among them.
pub open spec fn file_names(backend: ContainmentBackend) -> Seq<&'static str> {
    match backend {
        ContainmentBackend::MicroVm => seq![
            "nanvixd.exe",
            "nanvix_rootfs.img",
            "python3.initrd",
            "kernel.elf",
        ],
        ContainmentBackend::Wslc => seq![
            "system.vhd",
            "wslservice.exe",
            "container.exe",
            "wslc.exe",
            "wslcsession.exe",
            "wsl.exe",
            "wslhost.exe",
            "libwsl.dll",
            "wslrelay.exe",
            "wsldeps.dll",
            "wsldevicehost.dll",
        ],
        _ => seq![],
    }
}

/// The names of a backend's files.
pub fn disk_files(backend: &ContainmentBackend) -> (r: Vec<&'static str>)
    ensures
        r@ == file_names(*backend),
{
    match backend {
        ContainmentBackend::MicroVm => vec![
            "nanvixd.exe",
            "nanvix_rootfs.img",
            "python3.initrd",
            "kernel.elf",
        ],
        ContainmentBackend::Wslc => vec![
            "system.vhd",
            "wslservice.exe",
            "container.exe",
            "wslc.exe",
            "wslcsession.exe",
            "wsl.exe",
            "wslhost.exe",
            "libwsl.dll",
            "wslrelay.exe",
            "wsldeps.dll",
            "wsldevicehost.dll",
        ],
        _ => vec![],
    }
}

/// What was found of a backend's files.
#[derive(Debug)]
pub struct DiskReading {
    /// Where the Hyperlight snapshot is looked for.
    pub snapshot_dir: String,
    /// What is in that directory, if it is one.
    pub snapshot: Option<Vec<DirItem>>,
    /// What was found of the files by name.
    pub files: Vec<FileReading>,
    /// How large the root file system of the WSLc image is, if that could be measured.
    pub image: Option<Megabytes>,
}

/// The files that count for a backend.
pub open spec fn counted_files(
    backend: ContainmentBackend,
    image: Seq<char>,
    found: DiskReading,
) -> Seq<FileFacts> {
    match backend {
        ContainmentBackend::Hyperlight => match found.snapshot {
            Some(items) => files_below(items@),
            None => Seq::empty(),
        },
        ContainmentBackend::MicroVm => existing(found.files@),
        ContainmentBackend::Wslc => match found.image {
            Some(size) => existing(found.files@).push(
                FileFacts {
                    name: image + " (rootfs)"@,
                    logical: size.bytes as int,
                    actual: size.bytes as int,
                },
            ),
            None => existing(found.files@),
        },
        ContainmentBackend::Other => Seq::empty(),
    }
}

/// What the files take up together, in bytes.
pub open spec fn total_bytes(files: Seq<FileFacts>) -> int
    decreases files.len(),
{
    if files.len() == 0 {
        0
    } else {
        total_bytes(files.drop_last()) + files.last().actual
    }
}

fn total_actual(files: &Vec<DiskFile>) -> (r: u128)
    ensures
        r == total_bytes(facts(files@)),
{
    let mut bytes: u128 = 0;
    let mut i: usize = 0;
    while i < files.len()
        invariant
            i <= files@.len(),
            bytes == total_bytes(facts(files@).take(i as int)),
            bytes <= i * u64::MAX,
        decreases files@.len() - i,
    {
        assert(facts(files@).take(i + 1).drop_last() =~= facts(files@).take(i as int));
        assert(i * u64::MAX <= usize::MAX * u64::MAX) by (nonlinear_arith)
            requires
                i <= usize::MAX,
        ;
        assert((i + 1) * u64::MAX == i * u64::MAX + u64::MAX) by (nonlinear_arith);
        bytes += files[i].actual_mb.bytes as u128;
        i += 1;
    }
    assert(facts(files@).take(i as int) =~= facts(files@));
    bytes
}

/// What a backend takes up on disk, from what was found of its files.
pub fn measure_disk(backend: &ContainmentBackend, wslc_image: &str, found: &DiskReading) -> (r:
    DiskResult)
    ensures
        r.backend@ == display_name(*backend)@,
        facts(r.files@) == counted_files(*backend, wslc_image@, *found),
        r.total_mb.is(
            total_bytes(counted_files(*backend, wslc_image@, *found)),
            BYTES_PER_MB as int,
        ),
        if *backend is Hyperlight && found.snapshot is None {
            r.note is Some && r.note->0@ == "snapshot not found at "@ + found.snapshot_dir@
        } else {
            r.note is None
        },
{
    let mut note: Option<String> = None;
    let mut files: Vec<DiskFile> = Vec::new();
    assert(facts(files@) =~= Seq::<FileFacts>::empty());
    match backend {
        ContainmentBackend::Hyperlight => {
            match &found.snapshot {
                Some(items) => {
                    files = measure_dir_recursive(items);
                },
                None => {
                    let mut text = String::from_str("snapshot not found at ");
                    text.append(found.snapshot_dir.as_str());
                    note = Some(text);
                },
            }
        },
        ContainmentBackend::MicroVm => {
            files = measure_files(&found.files);
        },
        ContainmentBackend::Wslc => {
            files = measure_files(&found.files);
            match found.image {
                Some(size) => {
                    let ghost before = facts(files@);
                    let mut name = String::from_str(wslc_image);
                    name.append(" (rootfs)");
                    let entry = DiskFile { name, logical_mb: size, actual_mb: size };
                    files.push(entry);
                    assert(facts(files@) =~= before.push(facts_of(entry)));
                },
                None => {},
            }
        },
        ContainmentBackend::Other => {},
    }
    let total = total_actual(&files);
    DiskResult {
        backend: String::from_str(backend_display_name(backend)),
        total_mb: Ratio::of(total, 0, BYTES_PER_MB),
        files,
        note,
    }
}

/// Where an application keeps its local data.
#[derive(Debug)]
pub enum LocalAppData<P> {
    /// In a directory that the environment names.
    Given(P),
    /// In `AppData`, `Local` below the home directory.
    BelowHome(P),
    /// In the current directory, for want of any other.
    Current,
}

/// Where an application keeps its local data, from what the environment says: on Windows where it
/// says so, else below the user's profile, else below the home directory.
pub fn resolve_localappdata<P>(
    windows: bool,
    local_app_data: Option<P>,
    user_profile: Option<P>,
    home: Option<P>,
) -> (r: LocalAppData<P>)
    ensures
        r == (match (local_app_data, user_profile, home) {
            (Some(p), _, _) if windows => LocalAppData::Given(p),
            (_, Some(p), _) => LocalAppData::BelowHome(p),
            (_, None, Some(p)) => LocalAppData::BelowHome(p),
            _ => LocalAppData::Current,
        }),
{
    if windows {
        match local_app_data {
            Some(p) => {
                return LocalAppData::Given(p);
            },
            None => {},
        }
    }
    match user_profile {
        Some(p) => LocalAppData::BelowHome(p),
        None => match home {
            Some(p) => LocalAppData::BelowHome(p),
            None => LocalAppData::Current,
        },
    }
}

/// A file takes up what it takes up on disk, not what its length says: the compressed size where the
/// system gives one, and the length only where it does not or failed to.
pub proof fn sparse_files_take_up_their_compressed_size(f: FileReading)
    ensures
        file_facts(f).name == f.name@,
        file_facts(f).logical == (match f.length {
            Some(n) => n as int,
            None => 0,
        }),
        f.compressed is None ==> file_facts(f).actual == file_facts(f).logical,
        f.compressed matches Some(c) ==> {
            if c.low == 0xffff_ffff && c.last_error != Some(0i32) {
                file_facts(f).actual == file_facts(f).logical
            } else {
                file_facts(f).actual == c.high * 0x1_0000_0000 + c.low
            }
        },
{
}

/// An entry in a list of files says its name, its length and what it takes up.
pub proof fn entries_say_what_they_hold(files: Seq<DiskFile>)
    ensures
        facts(files).len() == files.len(),
        forall|i: int|
            0 <= i < files.len() ==> {
                &&& (#[trigger] facts(files)[i]).name == files[i].name@
                &&& facts(files)[i].logical == files[i].logical_mb.bytes
                &&& facts(files)[i].actual == files[i].actual_mb.bytes
            },
{
}

/// The total is what the listed files take up on disk, added up. Their lengths do not enter into it.
pub proof fn total_is_what_the_files_take_up(files: Seq<DiskFile>)
    ensures
        total_bytes(facts(files)) == files.fold_left(
            0int,
            |sum: int, f: DiskFile| sum + f.actual_mb.bytes,
        ),
    decreases files.len(),
{
    if files.len() > 0 {
        total_is_what_the_files_take_up(files.drop_last());
        assert(facts(files).drop_last() =~= facts(files.drop_last()));
    }
}

/// Files that take up the same add up to the same total, whatever their names and lengths.
pub proof fn total_ignores_names_and_lengths(a: Seq<FileFacts>, b: Seq<FileFacts>)
    requires
        a.len() == b.len(),
        forall|i: int| 0 <= i < a.len() ==> (#[trigger] a[i]).actual == b[i].actual,
    ensures
        total_bytes(a) == total_bytes(b),
        a.len() == 1 ==> total_bytes(a) == a[0].actual,
    decreases a.len(),
{
    if a.len() > 0 {
        let x = a.drop_last();
        let y = b.drop_last();
        assert forall|i: int| 0 <= i < x.len() implies (#[trigger] x[i]).actual == y[i].actual by {
            assert(x[i] == a[i]);
        }
        total_ignores_names_and_lengths(x, y);
        assert(a[a.len() - 1].actual == b[b.len() - 1].actual);
    }
}

/// Of a list the files that exist count, all of them and in their order, and no others.
pub proof fn just_the_files_that_exist_count(list: Seq<FileReading>)
    ensures
        existing(list) == list.filter(|f: FileReading| f.exists).map_values(
            |f: FileReading| file_facts(f),
        ),
    decreases list.len(),
{
    let there = |f: FileReading| f.exists;
    let said = |f: FileReading| file_facts(f);
    reveal(Seq::filter);
    if list.len() > 0 {
        let rest = list.drop_last();
        just_the_files_that_exist_count(rest);
        if there(list.last()) {
            assert(list.filter(there) == rest.filter(there).push(list.last()));
        }
    }
    assert(existing(list) =~= list.filter(there).map_values(said));
}

/// The files below a directory are those of its items, one after the other. A directory among them
/// gives the files below it, and a file itself, if it exists.
pub proof fn files_below_a_directory(a: Seq<DirItem>, b: Seq<DirItem>, inner: Vec<DirItem>, f: FileReading)
    ensures
        files_below(Seq::empty()) == Seq::<FileFacts>::empty(),
        files_below(a + b) == files_below(a) + files_below(b),
        files_below(seq![DirItem::Directory(inner)]) == files_below(inner@),
        files_below(seq![DirItem::File(f)]) == (if f.exists {
            seq![file_facts(f)]
        } else {
            Seq::empty()
        }),
    decreases b.len(),
{
    lemma_one_item(DirItem::Directory(inner));
    lemma_one_item(DirItem::File(f));
    if b.len() == 0 {
        assert(a + b =~= a);
        assert(files_below(a) + files_below(b) =~= files_below(a));
    } else {
        files_below_a_directory(a, b.drop_last(), inner, f);
        assert((a + b).drop_last() =~= a + b.drop_last());
        assert((a + b).last() == b.last());
        assert(files_below(a + b) == files_below(a + b.drop_last()) + files_at(b.last()));
        assert(files_below(b) == files_below(b.drop_last()) + files_at(b.last()));
        assert(files_below(a + b) =~= files_below(a) + files_below(b));
    }
}

proof fn lemma_one_item(item: DirItem)
    ensures
        files_below(seq![item]) == files_at(item),
{
    let one = seq![item];
    assert(one.drop_last() =~= Seq::<DirItem>::empty());
    assert(files_below(one) == files_below(one.drop_last()) + files_at(one.last()));
    assert(files_below(one.drop_last()) =~= Seq::<FileFacts>::empty());
    assert(files_below(one) =~= files_at(item));
}

/// What counts for a backend: all of the snapshot for Hyperlight, the named files that exist for
/// NanVix, those and the image for WSLc, and nothing for any other.
pub proof fn files_that_count(image: Seq<char>, found: DiskReading)
    ensures
        ({
            let named = found.files@.filter(|f: FileReading| f.exists).map_values(
                |f: FileReading| file_facts(f),
            );
            let wslc = counted_files(ContainmentBackend::Wslc, image, found);
            &&& found.snapshot matches Some(items) ==> counted_files(
                ContainmentBackend::Hyperlight,
                image,
                found,
            ) == files_below(items@)
            &&& found.snapshot is None ==> counted_files(
                ContainmentBackend::Hyperlight,
                image,
                found,
            ).len() == 0
            &&& counted_files(ContainmentBackend::MicroVm, image, found) == named
            &&& found.image is None ==> wslc == named
            &&& found.image matches Some(size) ==> {
                &&& wslc.len() == named.len() + 1
                &&& wslc.drop_last() == named
                &&& wslc.last().name == image + " (rootfs)"@
                &&& wslc.last().logical == size.bytes
                &&& wslc.last().actual == size.bytes
            }
            &&& counted_files(ContainmentBackend::Other, image, found).len() == 0
        }),
{
    just_the_files_that_exist_count(found.files@);
    if found.image is Some {
        let wslc = counted_files(ContainmentBackend::Wslc, image, found);
        assert(wslc.drop_last() =~= existing(found.files@));
    }
}

/// The files that are looked for: four of NanVix and eleven of WSL.
pub proof fn files_that_are_looked_for()
    ensures
        file_names(ContainmentBackend::MicroVm) == seq![
            "nanvixd.exe",
            "nanvix_rootfs.img",
            "python3.initrd",
            "kernel.elf",
        ],
        file_names(ContainmentBackend::Wslc) == seq![
            "system.vhd",
            "wslservice.exe",
            "container.exe",
            "wslc.exe",
            "wslcsession.exe",
            "wsl.exe",
            "wslhost.exe",
            "libwsl.dll",
            "wslrelay.exe",
            "wsldeps.dll",
            "wsldevicehost.dll",
        ],
        file_names(ContainmentBackend::Hyperlight).len() == 0,
        file_names(ContainmentBackend::Other).len() == 0,
{
}

} // verus!
