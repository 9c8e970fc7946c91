//! Listings of what is in a workspace.
use std::time::SystemTime;

use vstd::multiset::Multiset;
use vstd::prelude::*;

use crate::clock::{nanos_since_epoch, time_since_epoch, unix_nanos, NANOS_PER_SECOND};
use crate::messages::FileInfo;
use crate::paths::{relative_to, seen_from};

verus! {

/// The permission bits of a file mode.
pub const PERMISSION_BITS: u32 = 0o7777;

/// Something found in a directory.
#[derive(Debug)]
pub struct DirEntry {
    /// The whole path, as text.
    pub path: String,
    /// What it is known by to whoever opens directories. The text will not do
    /// for that: not every file name is text.
    pub handle: usize,
    pub is_dir: bool,
    pub size_bytes: u64,
    pub mode: u32,
    /// When it was changed last, where that is known.
    pub modified: Option<SystemTime>,
}

/// A `FileInfo`, over mathematical text.
pub struct FileInfoView {
    pub path: Seq<char>,
    pub size_bytes: u64,
    pub mode: u32,
    pub is_dir: bool,
    pub modified_unix: i64,
}

impl View for FileInfo {
    type V = FileInfoView;

    open spec fn view(&self) -> FileInfoView {
        FileInfoView {
            path: self.path@,
            size_bytes: self.size_bytes,
            mode: self.mode,
            is_dir: self.is_dir,
            modified_unix: self.modified_unix,
        }
    }
}

/// A moment in whole seconds since the Unix epoch, 0 where it is not known or
/// before that.
pub open spec fn unix_seconds(t: Option<SystemTime>) -> i64 {
    match t {
        Some(t) => ((nanos_since_epoch(t) / (NANOS_PER_SECOND as nat)) as u64) as i64,
        None => 0,
    }
}

/// How an entry is listed in a workspace with the given home directory.
pub open spec fn listed(root: Seq<char>, entry: DirEntry) -> FileInfoView {
    FileInfoView {
        path: seen_from(root, entry.path@),
        size_bytes: entry.size_bytes,
        mode: entry.mode & PERMISSION_BITS,
        is_dir: entry.is_dir,
        modified_unix: unix_seconds(entry.modified),
    }
}

/// Walks through a workspace, directory by directory.
#[derive(Debug, Clone, PartialEq, Eq)]
pub struct Walk {
    /// The home directory of the workspace.
    pub root: String,
    /// Whether directories are gone into.
    pub recursive: bool,
    /// Directories that are still to be opened.
    pub stack: Vec<usize>,
    /// What was found so far.
    pub files: Vec<FileInfo>,
}

/// A `Walk`, over mathematical text.
#[verifier::ext_equal]
pub struct WalkView {
    pub root: Seq<char>,
    pub recursive: bool,
    pub stack: Seq<usize>,
    pub files: Seq<FileInfoView>,
}

/// A list of files, over mathematical text.
pub open spec fn infos(files: Seq<FileInfo>) -> Seq<FileInfoView> {
    files.map_values(|f: FileInfo| f@)
}

impl View for Walk {
    type V = WalkView;

    open spec fn view(&self) -> WalkView {
        WalkView {
            root: self.root@,
            recursive: self.recursive,
            stack: self.stack@,
            files: infos(self.files@),
        }
    }
}

/// A walk that is about to open its first directory.
pub open spec fn fresh_walk(root: Seq<char>, base: usize, recursive: bool) -> WalkView {
    WalkView { root, recursive, stack: seq![base], files: Seq::empty() }
}

/// A walk after it has found one more entry in the open directory.
pub open spec fn walk_found(walk: WalkView, entry: DirEntry) -> WalkView {
    WalkView {
        stack: if entry.is_dir && walk.recursive {
            walk.stack.push(entry.handle)
        } else {
            walk.stack
        },
        files: walk.files.push(listed(walk.root, entry)),
        ..walk
    }
}

/// A moment in whole seconds since the Unix epoch.
fn modified_unix(t: &Option<SystemTime>) -> (secs: i64)
    ensures
        secs == unix_seconds(*t),
{
    match t {
        Some(t) => {
            let secs: u64 = time_since_epoch(t).as_secs();
            secs as i64
        },
        None => 0,
    }
}

impl Walk {
    /// Starts at a directory of a workspace.
    pub fn new(root: &str, base: usize, recursive: bool) -> (walk: Self)
        ensures
            walk@ == fresh_walk(root@, base, recursive),
    {
        let mut stack: Vec<usize> = Vec::new();
        stack.push(base);
        let walk = Walk {
            root: root.to_string(),
            recursive: recursive,
            stack: stack,
            files: Vec::new(),
        };
        assert(walk@ =~= fresh_walk(root@, base, recursive));
        walk
    }

    /// The next directory to open, where there is one.
    pub fn next_dir(&mut self) -> (dir: Option<usize>)
        ensures
            match dir {
                Some(dir) => {
                    &&& old(self)@.stack.len() > 0
                    &&& dir == old(self)@.stack.last()
                    &&& final(self)@ == (WalkView {
                        stack: old(self)@.stack.drop_last(),
                        ..old(self)@
                    })
                },
                None => old(self)@.stack.len() == 0 && final(self)@ == old(self)@,
            },
    {
        let dir = self.stack.pop();
        proof {
            if dir is Some {
                assert(self@ =~= (WalkView { stack: old(self)@.stack.drop_last(), ..old(self)@ }));
            } else {
                assert(self@ =~= old(self)@);
            }
        }
        dir
    }

    /// Takes note of an entry of the open directory.
    pub fn found(&mut self, entry: DirEntry)
        ensures
            final(self)@ == walk_found(old(self)@, entry),
    {
        let info = FileInfo {
            path: relative_to(self.root.as_str(), entry.path.as_str()),
            size_bytes: entry.size_bytes,
            mode: entry.mode & PERMISSION_BITS,
            is_dir: entry.is_dir,
            modified_unix: modified_unix(&entry.modified),
        };
        self.files.push(info);
        if entry.is_dir && self.recursive {
            self.stack.push(entry.handle);
        }
        assert(self@ =~= walk_found(old(self)@, entry));
    }

    /// All that was found.
    pub fn finish(self) -> (files: Vec<FileInfo>)
        ensures
            infos(files@) == self@.files,
    {
        self.files
    }
}

/// A walk after it has found some entries in the open directory.
pub open spec fn walk_found_all(walk: WalkView, entries: Seq<DirEntry>) -> WalkView
    decreases entries.len(),
{
    if entries.len() == 0 {
        walk
    } else {
        walk_found(walk_found_all(walk, entries.drop_last()), entries.last())
    }
}

/// A walk after it has opened some directories, one behind the other, and found
/// these entries in each.
pub open spec fn walk_through(walk: WalkView, visits: Seq<Seq<DirEntry>>) -> WalkView
    decreases visits.len(),
{
    if visits.len() == 0 {
        walk
    } else {
        let before = walk_through(walk, visits.drop_last());
        walk_found_all(WalkView { stack: before.stack.drop_last(), ..before }, visits.last())
    }
}

/// Whether a walk has a directory to open each time.
pub open spec fn walk_possible(walk: WalkView, visits: Seq<Seq<DirEntry>>) -> bool
    decreases visits.len(),
{
    visits.len() == 0 || (walk_possible(walk, visits.drop_last()) && walk_through(
        walk,
        visits.drop_last(),
    ).stack.len() > 0)
}

/// The directories that a walk has opened.
pub open spec fn opened(walk: WalkView, visits: Seq<Seq<DirEntry>>) -> Seq<usize>
    decreases visits.len(),
{
    if visits.len() == 0 {
        Seq::empty()
    } else {
        opened(walk, visits.drop_last()).push(walk_through(walk, visits.drop_last()).stack.last())
    }
}

/// All entries of some visits, in order.
pub open spec fn all_entries(visits: Seq<Seq<DirEntry>>) -> Seq<DirEntry>
    decreases visits.len(),
{
    if visits.len() == 0 {
        Seq::empty()
    } else {
        all_entries(visits.drop_last()) + visits.last()
    }
}

/// The directories among some entries.
pub open spec fn dir_handles(entries: Seq<DirEntry>) -> Seq<usize>
    decreases entries.len(),
{
    if entries.len() == 0 {
        Seq::empty()
    } else if entries.last().is_dir {
        dir_handles(entries.drop_last()).push(entries.last().handle)
    } else {
        dir_handles(entries.drop_last())
    }
}

/// How some entries are listed.
pub open spec fn all_listed(root: Seq<char>, entries: Seq<DirEntry>) -> Seq<FileInfoView> {
    entries.map_values(|e: DirEntry| listed(root, e))
}

/// What entries of one directory do to a walk.
proof fn lemma_found_all(walk: WalkView, entries: Seq<DirEntry>)
    ensures
        ({
            let after = walk_found_all(walk, entries);
            &&& after.root == walk.root
            &&& after.recursive == walk.recursive
            &&& after.files == walk.files + all_listed(walk.root, entries)
            &&& after.stack == (if walk.recursive {
                walk.stack + dir_handles(entries)
            } else {
                walk.stack
            })
        }),
    decreases entries.len(),
{
    let after = walk_found_all(walk, entries);
    if entries.len() == 0 {
        assert(after.files =~= walk.files + all_listed(walk.root, entries));
        assert(walk.stack + dir_handles(entries) =~= walk.stack);
    } else {
        lemma_found_all(walk, entries.drop_last());
        assert(after.files =~= walk.files + all_listed(walk.root, entries));
        if walk.recursive {
            assert(after.stack =~= walk.stack + dir_handles(entries));
        }
    }
}

/// The directories among some entries and some more.
proof fn lemma_dir_handles_concat(a: Seq<DirEntry>, b: Seq<DirEntry>)
    ensures
        dir_handles(a + b) == dir_handles(a) + dir_handles(b),
    decreases b.len(),
{
    if b.len() == 0 {
        assert(a + b =~= a);
        assert(dir_handles(a) + dir_handles(b) =~= dir_handles(a));
    } else {
        lemma_dir_handles_concat(a, b.drop_last());
        assert((a + b).drop_last() =~= a + b.drop_last());
        assert(dir_handles(a + b) =~= dir_handles(a) + dir_handles(b));
    }
}

/// A listing holds all that was found, once each and in the order in which it
/// was found, seen from the home directory.
pub proof fn law_listing_holds_all_that_was_found(
    root: Seq<char>,
    base: usize,
    recursive: bool,
    visits: Seq<Seq<DirEntry>>,
)
    ensures
        walk_through(fresh_walk(root, base, recursive), visits).files == all_listed(
            root,
            all_entries(visits),
        ),
        walk_through(fresh_walk(root, base, recursive), visits).root == root,
        walk_through(fresh_walk(root, base, recursive), visits).recursive == recursive,
    decreases visits.len(),
{
    let start = fresh_walk(root, base, recursive);
    if visits.len() == 0 {
        assert(start.files =~= all_listed(root, all_entries(visits)));
    } else {
        law_listing_holds_all_that_was_found(root, base, recursive, visits.drop_last());
        let before = walk_through(start, visits.drop_last());
        lemma_found_all(WalkView { stack: before.stack.drop_last(), ..before }, visits.last());
        assert(walk_through(start, visits).files =~= all_listed(root, all_entries(visits)));
    }
}

/// A walk opens its first directory and, where it is recursive, each directory
/// that it finds, as often as it finds it and no other: what it has opened and
/// what it is still to open make up just that.
pub proof fn law_walk_opens_each_directory_once(
    root: Seq<char>,
    base: usize,
    recursive: bool,
    visits: Seq<Seq<DirEntry>>,
)
    requires
        walk_possible(fresh_walk(root, base, recursive), visits),
    ensures
        ({
            let start = fresh_walk(root, base, recursive);
            let found = if recursive {
                dir_handles(all_entries(visits))
            } else {
                Seq::empty()
            };
            opened(start, visits).to_multiset().add(
                walk_through(start, visits).stack.to_multiset(),
            ) == Multiset::singleton(base).add(found.to_multiset())
        }),
    decreases visits.len(),
{
    broadcast use vstd::seq_lib::group_to_multiset_ensures;
    broadcast use vstd::multiset::group_multiset_properties;

    let start = fresh_walk(root, base, recursive);
    let none = Seq::<usize>::empty();
    if visits.len() == 0 {
        assert(seq![base] =~= none.push(base));
        vstd::seq_lib::to_multiset_build(none, base);
        assert(none.to_multiset() =~= Multiset::empty());
        assert(opened(start, visits).to_multiset().add(start.stack.to_multiset())
            =~= Multiset::singleton(base).add(none.to_multiset()));
        assert(dir_handles(all_entries(visits)) =~= none);
    } else {
        let front = visits.drop_last();
        law_walk_opens_each_directory_once(root, base, recursive, front);
        law_listing_holds_all_that_was_found(root, base, recursive, front);
        let before = walk_through(start, front);
        let popped = WalkView { stack: before.stack.drop_last(), ..before };
        let last = visits.last();
        lemma_found_all(popped, last);
        let now = walk_through(start, visits);
        assert(now.stack == (if recursive {
            popped.stack + dir_handles(last)
        } else {
            popped.stack
        }));
        assert(before.stack =~= popped.stack.push(before.stack.last()));
        vstd::seq_lib::to_multiset_build(popped.stack, before.stack.last());
        vstd::seq_lib::to_multiset_build(opened(start, front), before.stack.last());
        if recursive {
            lemma_dir_handles_concat(all_entries(front), last);
            vstd::seq_lib::lemma_multiset_commutative(popped.stack, dir_handles(last));
            vstd::seq_lib::lemma_multiset_commutative(
                dir_handles(all_entries(front)),
                dir_handles(last),
            );
            let x = before.stack.last();
            let dirs = dir_handles(last).to_multiset();
            assert(all_entries(visits) == all_entries(front) + last);
            assert(opened(start, visits).to_multiset() =~= opened(
                start,
                front,
            ).to_multiset().insert(x));
            assert(before.stack.to_multiset() =~= popped.stack.to_multiset().insert(x));
            assert(now.stack.to_multiset() =~= popped.stack.to_multiset().add(dirs));
            assert(dir_handles(all_entries(visits)).to_multiset() =~= dir_handles(
                all_entries(front),
            ).to_multiset().add(dirs));
            assert(opened(start, visits).to_multiset().add(now.stack.to_multiset()) =~= opened(
                start,
                front,
            ).to_multiset().add(before.stack.to_multiset()).add(dirs));
            assert(opened(start, visits).to_multiset().add(now.stack.to_multiset())
                =~= Multiset::singleton(base).add(
                dir_handles(all_entries(visits)).to_multiset(),
            ));
        } else {
            assert(opened(start, visits).to_multiset().add(now.stack.to_multiset())
                =~= Multiset::singleton(base).add(none.to_multiset()));
        }
    }
}

/// An entry is listed with its own size and kind, with the low twelve bits of its
/// mode, which are its permissions, and with the moment of its last change in
/// whole seconds, 0 where that is not known or lies before the Unix epoch.
pub proof fn law_entries_are_listed_as_they_are(entry: DirEntry)
    ensures
        forall|walk: &mut Walk| #[trigger]
            call_ensures(Walk::found, (walk, entry), ()) ==> {
                let files = final(walk).files@;
                &&& files.len() == walk.files@.len() + 1
                &&& infos(files).drop_last() == infos(walk.files@)
                &&& files.last().size_bytes == entry.size_bytes
                &&& files.last().is_dir == entry.is_dir
                &&& files.last().mode == entry.mode % 0x1000
                &&& files.last().path@ == seen_from(walk.root@, entry.path@)
                &&& entry.modified is None ==> files.last().modified_unix == 0
                &&& entry.modified matches Some(t) ==> {
                    &&& unix_nanos(t) < 0 ==> files.last().modified_unix == 0
                    &&& 0 <= unix_nanos(t) < 0x8000_0000_0000_0000 * 1_000_000_000
                        ==> files.last().modified_unix as int == unix_nanos(t) / 1_000_000_000
                }
                &&& final(walk).root@ == walk.root@
                &&& final(walk).recursive == walk.recursive
            },
{
    let mode = entry.mode;
    assert(mode & 0o7777u32 == mode % 0x1000) by (bit_vector);
    assert forall|walk: &mut Walk| #[trigger]
        call_ensures(Walk::found, (walk, entry), ()) implies {
        let files = final(walk).files@;
        &&& files.len() == walk.files@.len() + 1
        &&& infos(files).drop_last() == infos(walk.files@)
        &&& files.last().size_bytes == entry.size_bytes
        &&& files.last().is_dir == entry.is_dir
        &&& files.last().mode == entry.mode % 0x1000
        &&& files.last().path@ == seen_from(walk.root@, entry.path@)
        &&& entry.modified is None ==> files.last().modified_unix == 0
        &&& entry.modified matches Some(t) ==> {
            &&& unix_nanos(t) < 0 ==> files.last().modified_unix == 0
            &&& 0 <= unix_nanos(t) < 0x8000_0000_0000_0000 * 1_000_000_000
                ==> files.last().modified_unix as int == unix_nanos(t) / 1_000_000_000
        }
        &&& final(walk).root@ == walk.root@
        &&& final(walk).recursive == walk.recursive
    } by {
        let files = final(walk).files@;
        let before = infos(walk.files@);
        assert(final(walk)@.files == infos(files));
        assert(infos(files) == before.push(listed(walk.root@, entry)));
        assert(infos(files).len() == files.len());
        assert(infos(files).last() == files.last()@);
        assert(infos(files).drop_last() =~= before);
        match entry.modified {
            Some(t) => {
                if 0 <= unix_nanos(t) && unix_nanos(t) < 0x8000_0000_0000_0000 * 1_000_000_000 {
                    let secs = unix_nanos(t) / 1_000_000_000;
                    assert(0 <= secs < 0x8000_0000_0000_0000);
                    assert(((secs as u64) as i64) as int == secs);
                }
            },
            None => {},
        }
    }
}

/// A directory that was found is to be opened, next of all, where the walk goes
/// into directories; nothing else ever is.
pub proof fn law_found_directories_are_opened(entry: DirEntry)
    ensures
        forall|walk: &mut Walk| #[trigger]
            call_ensures(Walk::found, (walk, entry), ()) ==> {
                &&& entry.is_dir && walk.recursive ==> final(walk).stack@ == walk.stack@.push(
                    entry.handle,
                )
                &&& !(entry.is_dir && walk.recursive) ==> final(walk).stack@ == walk.stack@
            },
        forall|walk: &mut Walk, dir: Option<usize>| #[trigger]
            call_ensures(Walk::next_dir, (walk,), dir) ==> {
                &&& dir is None <==> walk.stack@.len() == 0
                &&& dir matches Some(handle) ==> walk.stack@ == final(walk).stack@.push(handle)
                &&& infos(final(walk).files@) == infos(walk.files@)
                &&& final(walk).root@ == walk.root@
                &&& final(walk).recursive == walk.recursive
            },
{
    assert forall|walk: &mut Walk| #[trigger]
        call_ensures(Walk::found, (walk, entry), ()) implies {
        &&& entry.is_dir && walk.recursive ==> final(walk).stack@ == walk.stack@.push(entry.handle)
        &&& !(entry.is_dir && walk.recursive) ==> final(walk).stack@ == walk.stack@
    } by {
        assert(final(walk)@.stack == final(walk).stack@);
        assert(walk@.stack == walk.stack@);
    }
    assert forall|walk: &mut Walk, dir: Option<usize>| #[trigger]
        call_ensures(Walk::next_dir, (walk,), dir) implies {
        &&& dir is None <==> walk.stack@.len() == 0
        &&& dir matches Some(handle) ==> walk.stack@ == final(walk).stack@.push(handle)
        &&& infos(final(walk).files@) == infos(walk.files@)
        &&& final(walk).root@ == walk.root@
        &&& final(walk).recursive == walk.recursive
    } by {
        assert(final(walk)@.stack == final(walk).stack@);
        assert(walk@.stack == walk.stack@);
        assert(final(walk)@.files == infos(final(walk).files@));
        if dir is Some {
            assert(walk.stack@ =~= final(walk).stack@.push(walk.stack@.last()));
        }
    }
}

/// What a listing says of its entries, taken from what was found: the `i`th
/// entry that was found is the `i`th that is listed.
pub proof fn law_listing_goes_by_what_was_found(
    root: Seq<char>,
    base: usize,
    recursive: bool,
    visits: Seq<Seq<DirEntry>>,
)
    ensures
        ({
            let files = walk_through(fresh_walk(root, base, recursive), visits).files;
            let found = visits.flatten();
            &&& files.len() == found.len()
            &&& forall|i: int|
                0 <= i < files.len() ==> {
                    &&& (#[trigger] files[i]).size_bytes == found[i].size_bytes
                    &&& files[i].is_dir == found[i].is_dir
                    &&& files[i].mode == found[i].mode % 0x1000
                    &&& files[i].path == seen_from(root, found[i].path@)
                }
        }),
{
    law_listing_holds_all_that_was_found(root, base, recursive, visits);
    law_all_entries_are_one_behind_the_other(visits);
    let files = walk_through(fresh_walk(root, base, recursive), visits).files;
    let found = visits.flatten();
    assert forall|i: int| 0 <= i < files.len() implies {
        &&& (#[trigger] files[i]).size_bytes == found[i].size_bytes
        &&& files[i].is_dir == found[i].is_dir
        &&& files[i].mode == found[i].mode % 0x1000
        &&& files[i].path == seen_from(root, found[i].path@)
    } by {
        let mode = found[i].mode;
        assert(mode & 0o7777u32 == mode % 0x1000) by (bit_vector);
        assert(files[i] == listed(root, found[i]));
    }
}

/// All that was found is what was found in each directory, one behind the other,
/// and the directories among it are those entries that are directories.
pub proof fn law_all_entries_are_one_behind_the_other(visits: Seq<Seq<DirEntry>>)
    ensures
        all_entries(visits) == visits.flatten(),
        dir_handles(all_entries(visits)) == visits.flatten().filter(
            |e: DirEntry| e.is_dir,
        ).map_values(|e: DirEntry| e.handle),
    decreases visits.len(),
{
    lemma_dir_handles(all_entries(visits));
    if visits.len() > 0 {
        law_all_entries_are_one_behind_the_other(visits.drop_last());
        assert(visits =~= visits.drop_last().push(visits.last()));
        visits.drop_last().lemma_flatten_push(visits.last());
    }
}

/// The directories among some entries are those that are directories.
proof fn lemma_dir_handles(entries: Seq<DirEntry>)
    ensures
        dir_handles(entries) == entries.filter(|e: DirEntry| e.is_dir).map_values(
            |e: DirEntry| e.handle,
        ),
    decreases entries.len(),
{
    reveal(Seq::filter);
    let test = |e: DirEntry| e.is_dir;
    if entries.len() > 0 {
        let front = entries.drop_last();
        lemma_dir_handles(front);
        let dirs = front.filter(|e: DirEntry| e.is_dir);
        assert(entries.filter(|e: DirEntry| e.is_dir) == (if entries.last().is_dir {
            dirs.push(entries.last())
        } else {
            dirs
        }));
        if entries.last().is_dir {
            assert(dirs.push(entries.last()).map_values(|e: DirEntry| e.handle)
                =~= dirs.map_values(|e: DirEntry| e.handle).push(entries.last().handle));
        }
    } else {
        assert(entries.filter(|e: DirEntry| e.is_dir).map_values(|e: DirEntry| e.handle)
            =~= Seq::empty());
    }
}

/// A walk starts at its base with nothing found, and hands out what it found as
/// it is.
pub proof fn law_walk_hands_out_what_it_found(
    root: &str,
    base: usize,
    recursive: bool,
    fresh: Walk,
    walk: Walk,
    files: Vec<FileInfo>,
)
    requires
        call_ensures(Walk::new, (root, base, recursive), fresh),
        call_ensures(Walk::finish, (walk,), files),
    ensures
        fresh.root@ == root@,
        fresh.recursive == recursive,
        fresh.stack@ == seq![base],
        fresh.files@.len() == 0,
        files@.len() == walk.files@.len(),
        forall|i: int|
            0 <= i < files@.len() ==> {
                let file = #[trigger] files@[i];
                &&& file.path@ == walk.files@[i].path@
                &&& file.size_bytes == walk.files@[i].size_bytes
                &&& file.mode == walk.files@[i].mode
                &&& file.is_dir == walk.files@[i].is_dir
                &&& file.modified_unix == walk.files@[i].modified_unix
            },
{
    assert(fresh@.files.len() == fresh.files@.len());
    assert(infos(files@).len() == files@.len());
    assert(infos(walk.files@).len() == walk.files@.len());
    assert forall|i: int| 0 <= i < files@.len() implies {
        let file = #[trigger] files@[i];
        &&& file.path@ == walk.files@[i].path@
        &&& file.size_bytes == walk.files@[i].size_bytes
        &&& file.mode == walk.files@[i].mode
        &&& file.is_dir == walk.files@[i].is_dir
        &&& file.modified_unix == walk.files@[i].modified_unix
    } by {
        assert(infos(files@)[i] == files@[i]@);
        assert(infos(walk.files@)[i] == walk.files@[i]@);
    }
}

} // verus!
