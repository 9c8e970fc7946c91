//! Archives and the replacing of what is in a workspace by what was sent.
use std::time::SystemTime;

use vstd::prelude::*;

use crate::clock::{nanos_since_epoch, nonce, nonce_of, unix_now};
use crate::error::{other, outcome, Error, ErrorView, Result};
use crate::paths::{
    anchor, components, elements, elements_of, file_name, file_name_of, is_absolute, is_element,
    is_under,
    join_path, joined, law_parent_has_all_but_the_last_component, lemma_components_joined_name,
    lemma_components_of_name, lemma_elements_joined, lemma_elements_shape, parent,
    parent_element, parent_of, starts_at_root,
};
use crate::text::{hex_text, hexadecimal, join2, join3, lemma_numeral_chars, same_text, texts};

verus! {

/// How much is read of a file at a time.
pub const WORKSPACE_TRANSFER_CHUNK_SIZE: usize = 65_536;

/// What kind of entry an archive holds.
#[derive(Debug, Clone, Copy, PartialEq, Eq, Structural)]
pub enum EntryKind {
    Regular,
    Directory,
    /// A link, a device, or anything else.
    Other,
}

/// Whether the path of an archive entry could lead out of the directory that
/// the archive is unpacked in.
pub open spec fn entry_escapes(path: Seq<char>) -> bool {
    is_absolute(path) || elements(path).contains(parent_element())
}

/// What is said of an archive entry before it is unpacked.
pub open spec fn entry_verdict(path: Seq<char>, kind: EntryKind) -> std::result::Result<
    (),
    ErrorView,
> {
    if entry_escapes(path) {
        Err(ErrorView::Other("archive entry escapes target directory: "@ + path))
    } else if kind == EntryKind::Other {
        Err(ErrorView::Other("unsupported archive entry type: "@ + path))
    } else {
        Ok(())
    }
}

/// Whether a path holds a parent element.
fn climbs(path: &str) -> (found: bool)
    ensures
        found == elements(path@).contains(parent_element()),
{
    let es: Vec<String> = elements_of(path);
    let mut i: usize = 0;
    proof {
        reveal_strlit("..");
        assert(".."@ =~= parent_element());
    }
    while i < es.len()
        invariant
            i <= es@.len(),
            texts(es@) == elements(path@),
            ".."@ == parent_element(),
            forall|k: int| 0 <= k < i ==> #[trigger] texts(es@)[k] != parent_element(),
        decreases es@.len() - i,
    {
        assert(texts(es@)[i as int] == es@[i as int]@);
        if same_text(es[i].as_str(), "..") {
            assert(elements(path@)[i as int] == parent_element());
            return true;
        }
        i = i + 1;
    }
    false
}

/// Accepts an archive entry, by its path as text, or says why it is not
/// unpacked: it has to stay in its directory, and be a file or a directory.
pub fn check_entry(path: &str, kind: EntryKind) -> (r: Result<()>)
    ensures
        outcome(r) == entry_verdict(path@, kind),
{
    if starts_at_root(path) || climbs(path) {
        return Err(other(join2("archive entry escapes target directory: ", path).as_str()));
    }
    match kind {
        EntryKind::Other => Err(other(join2("unsupported archive entry type: ", path).as_str())),
        _ => Ok(()),
    }
}

/// What an archive entry that was accepted is unpacked to lies below the
/// directory that the archive is unpacked in, and no parent element leads out
/// of it again.
pub proof fn law_accepted_entry_stays_inside(root: Seq<char>, path: Seq<char>, kind: EntryKind)
    requires
        root.len() > 0,
        entry_verdict(path, kind) is Ok,
    ensures
        is_under(joined(root, path), root),
        kind != EntryKind::Other,
        elements(joined(root, path)) == elements(root) + elements(path),
        forall|i: int|
            elements(root).len() <= i < elements(joined(root, path)).len() ==> #[trigger] elements(
                joined(root, path),
            )[i] != parent_element(),
{
    lemma_elements_joined(root, path);
    let base = components(root);
    let all = components(joined(root, path));
    assert(base =~= all.subrange(0, base.len() as int));
    assert forall|i: int|
        elements(root).len() <= i < elements(joined(root, path)).len() implies #[trigger] elements(
        joined(root, path),
    )[i] != parent_element() by {
        assert(elements(path)[i - elements(root).len()] == elements(joined(root, path))[i]);
    }
}

/// What was found at a path.
#[derive(Debug, Clone, PartialEq, Eq)]
pub enum PathFound {
    Directory,
    /// A file, or anything else that is not a directory.
    File,
    /// Nothing.
    Missing,
    /// It could not be told; holds the system's words.
    Failed(String),
}

/// How to make way at a path.
#[derive(Debug, Clone, Copy, PartialEq, Eq, Structural)]
pub enum Removal {
    /// There is nothing to remove.
    Nothing,
    /// Remove a file.
    File,
    /// Remove a directory with all that is in it.
    Tree,
}

/// How to make way at a path where this was found.
pub fn removal_of(found: PathFound) -> (r: Result<Removal>)
    ensures
        outcome(r) == (match found {
            PathFound::Directory => Ok::<Removal, ErrorView>(Removal::Tree),
            PathFound::File => Ok(Removal::File),
            PathFound::Missing => Ok(Removal::Nothing),
            PathFound::Failed(e) => Err(ErrorView::Io(e@)),
        }),
{
    match found {
        PathFound::Directory => Ok(Removal::Tree),
        PathFound::File => Ok(Removal::File),
        PathFound::Missing => Ok(Removal::Nothing),
        PathFound::Failed(e) => Err(Error::Io(e)),
    }
}

/// Something at the top of the directory that an archive was unpacked in.
#[derive(Debug, Clone, Copy, PartialEq, Eq, Structural)]
pub struct TopEntry {
    /// What it is known by to whoever moves it: not every file name is text.
    pub handle: usize,
    pub is_dir: bool,
}

/// How what was unpacked gets to where it belongs.
#[derive(Debug, Clone, PartialEq, Eq)]
pub enum Install {
    /// This one directory, which is all that was unpacked, becomes the target.
    Rename(usize),
    /// The target is made, and each of these is moved into it under its name.
    MoveInto(Vec<usize>),
}

/// Whether `plan` is how what was unpacked gets to the target. An archive of
/// one directory is that directory; of anything else the target becomes the
/// directory.
pub open spec fn is_install_plan(plan: Install, entries: Seq<TopEntry>) -> bool {
    match plan {
        Install::Rename(handle) => {
            &&& entries.len() == 1
            &&& entries[0].is_dir
            &&& handle == entries[0].handle
        },
        Install::MoveInto(handles) => {
            &&& !(entries.len() == 1 && entries[0].is_dir)
            &&& handles@ == entries.map_values(|e: TopEntry| e.handle)
        },
    }
}

/// How what was unpacked gets to the target.
pub fn install_plan(entries: &Vec<TopEntry>) -> (plan: Install)
    ensures
        is_install_plan(plan, entries@),
{
    if entries.len() == 1 && entries[0].is_dir {
        return Install::Rename(entries[0].handle);
    }
    let mut handles: Vec<usize> = Vec::new();
    let ghost all = entries@.map_values(|e: TopEntry| e.handle);
    for i in 0..entries.len()
        invariant
            all == entries@.map_values(|e: TopEntry| e.handle),
            handles@ == all.take(i as int),
    {
        handles.push(entries[i].handle);
        assert(all.take(i + 1) =~= all.take(i as int).push(all[i as int]));
    }
    assert(all.take(all.len() as int) =~= all);
    Install::MoveInto(handles)
}

/// The directory that a path lies in, the current one where it says none.
pub open spec fn parent_or_here(path: Seq<char>) -> Seq<char> {
    match parent(path) {
        Some(dir) => dir,
        None => "."@,
    }
}

/// The directory that a path lies in, the current one where it says none.
pub fn parent_dir(path: &str) -> (dir: String)
    ensures
        dir@ == parent_or_here(path@),
{
    match parent_of(path) {
        Some(dir) => dir,
        None => ".".to_string(),
    }
}

/// The name of what a transfer is kept in until it is complete.
pub open spec fn staging_name(suffix: Seq<char>, nonce: nat) -> Seq<char> {
    ".scriptorium-"@ + suffix + "-"@ + hexadecimal(nonce) + ".tmp"@
}

/// Where a transfer to `target` is kept until it is complete: beside it, so
/// that it can be renamed into place.
pub open spec fn staging_path(target: Seq<char>, suffix: Seq<char>, nonce: nat) -> Seq<char> {
    joined(parent_or_here(target), staging_name(suffix, nonce))
}

/// Where a transfer to `target` is kept until it is complete, with a given
/// nonce.
pub fn staging_path_at(target: &str, suffix: &str, nonce: u64) -> (path: String)
    ensures
        path@ == staging_path(target@, suffix@, nonce as nat),
{
    let front = join3(".scriptorium-", suffix, "-");
    let name = join3(front.as_str(), hex_text(nonce).as_str(), ".tmp");
    join_path(parent_dir(target).as_str(), name.as_str())
}

/// A place to keep a transfer to `target` until it is complete. The time makes
/// it a new one.
pub fn build_workspace_transfer_temp_path(target: &str, suffix: &str) -> (path: String)
    ensures
        exists|t: SystemTime|
            path@ == staging_path(
                target@,
                suffix@,
                nonce_of(#[trigger] nanos_since_epoch(t)),
            ),
{
    staging_path_at(target, suffix, nonce(&unix_now()))
}

/// A transfer is kept directly in the directory of its target: where the target
/// has a parent, the two differ in nothing but the last component.
pub proof fn law_staging_is_beside_the_target(target: Seq<char>, suffix: Seq<char>, nonce: nat)
    requires
        !suffix.contains('/'),
    ensures
        components(staging_path(target, suffix, nonce)) == components(parent_or_here(target)).push(
            staging_name(suffix, nonce),
        ),
        parent(target) is Some ==> components(staging_path(target, suffix, nonce)) == components(
            target,
        ).drop_last().push(staging_name(suffix, nonce)),
{
    law_parent_has_all_but_the_last_component(target);
    let name = staging_name(suffix, nonce);
    reveal_strlit(".scriptorium-");
    reveal_strlit("-");
    reveal_strlit(".tmp");
    lemma_numeral_chars(nonce, 16);
    assert(name[1] == 's');
    if name.contains('/') {
        let k = choose|k: int| 0 <= k < name.len() && name[k] == '/';
        let a = ".scriptorium-"@;
        let h = hexadecimal(nonce);
        if k < a.len() {
            assert(name[k] == a[k]);
        } else if k < a.len() + suffix.len() {
            assert(name[k] == suffix[k - a.len()]);
            assert(suffix.contains('/'));
        } else if k == a.len() + suffix.len() {
        } else if k < a.len() + suffix.len() + 1 + h.len() {
            assert(name[k] == h[k - a.len() - suffix.len() - 1]);
        } else {
            assert(name[k] == ".tmp"@[k - a.len() - suffix.len() - 1 - h.len()]);
        }
    }
    lemma_components_joined_name(parent_or_here(target), name);
}

/// The name of the temporary file that a directory or file is packed in.
pub open spec fn archive_file_name(desired_name: Seq<char>, nonce: nat) -> Seq<char> {
    "scriptorium-"@ + hexadecimal(nonce) + "-"@ + desired_name
}

/// The name of the temporary file that something is packed in, with a given nonce.
pub fn archive_file_name_at(desired_name: &str, nonce: u64) -> (name: String)
    ensures
        name@ == archive_file_name(desired_name@, nonce as nat),
{
    let front = join3("scriptorium-", hex_text(nonce).as_str(), "-");
    join2(front.as_str(), desired_name)
}

/// A name for a temporary file to pack something in. The time makes it a new one.
pub fn temp_archive_name(desired_name: &str) -> (name: String)
    ensures
        exists|t: SystemTime|
            name@ == archive_file_name(desired_name@, nonce_of(#[trigger] nanos_since_epoch(t))),
{
    archive_file_name_at(desired_name, nonce(&unix_now()))
}

/// The last element of a path, or else a given name.
pub open spec fn name_or(path: Seq<char>, fallback: Seq<char>) -> Seq<char> {
    match file_name(path) {
        Some(name) => name,
        None => fallback,
    }
}

/// The last element of a path, or else a given name.
pub fn base_name_or(path: &str, fallback: &str) -> (name: String)
    ensures
        name@ == name_or(path@, fallback@),
{
    match file_name_of(path) {
        Some(name) => name,
        None => fallback.to_string(),
    }
}

/// What something is called inside the archive that it is packed in.
pub fn name_in_archive(source: &str, is_dir: bool) -> (name: String)
    ensures
        name@ == name_or(
            source@,
            if is_dir {
                "workspace"@
            } else {
                "file"@
            },
        ),
{
    if is_dir {
        base_name_or(source, "workspace")
    } else {
        base_name_or(source, "file")
    }
}

/// How far the replacing of a directory by the contents of an archive has come.
#[derive(Debug, Clone, Copy, PartialEq, Eq, Structural)]
pub enum ExtractPhase {
    /// Entries are being unpacked beside the target.
    Unpacking,
    /// All is unpacked, and way is made at the target.
    Clearing,
    /// What was unpacked is put into place.
    Placing,
    /// It is over.
    Over,
}

/// What happens in the replacing of a directory.
#[derive(Debug, Clone, PartialEq, Eq)]
pub enum ExtractEvent {
    /// The archive has one more entry.
    Entry { path: String, kind: EntryKind },
    /// The archive has no more entries.
    Ended,
    /// This was found at the target.
    Found(PathFound),
    /// Way was made, and these are at the top of what was unpacked.
    Cleared(Vec<TopEntry>),
}

/// What is to be done next in the replacing of a directory.
#[derive(Debug, Clone, PartialEq, Eq)]
pub enum ExtractAction {
    /// Unpack the entry.
    Unpack,
    /// Look what is at the target.
    LookAtTarget,
    /// Make way at the target.
    ClearTarget(Removal),
    /// Put what was unpacked into place, and remove what is left of it.
    Place(Install),
    /// Leave it at that.
    Fail(Error),
}

/// Whether an event can come in a phase.
pub open spec fn extract_fits(phase: ExtractPhase, event: ExtractEvent) -> bool {
    match event {
        ExtractEvent::Entry { .. } => phase == ExtractPhase::Unpacking,
        ExtractEvent::Ended => phase == ExtractPhase::Unpacking,
        ExtractEvent::Found(_) => phase == ExtractPhase::Clearing,
        ExtractEvent::Cleared(_) => phase == ExtractPhase::Placing,
    }
}

/// The phase behind an event.
pub open spec fn extract_next(phase: ExtractPhase, event: ExtractEvent) -> ExtractPhase {
    match event {
        ExtractEvent::Entry { path, kind } => if entry_verdict(path@, kind) is Ok {
            ExtractPhase::Unpacking
        } else {
            ExtractPhase::Over
        },
        ExtractEvent::Ended => ExtractPhase::Clearing,
        ExtractEvent::Found(found) => if found is Failed {
            ExtractPhase::Over
        } else {
            ExtractPhase::Placing
        },
        ExtractEvent::Cleared(_) => ExtractPhase::Over,
    }
}

/// Whether `action` is what is to be done about an event.
pub open spec fn is_extract_action(action: ExtractAction, event: ExtractEvent) -> bool {
    match event {
        ExtractEvent::Entry { path, kind } => match entry_verdict(path@, kind) {
            Ok(_) => action is Unpack,
            Err(e) => action is Fail && action->Fail_0@ == e,
        },
        ExtractEvent::Ended => action is LookAtTarget,
        ExtractEvent::Found(PathFound::Directory) => action == ExtractAction::ClearTarget(
            Removal::Tree,
        ),
        ExtractEvent::Found(PathFound::File) => action == ExtractAction::ClearTarget(
            Removal::File,
        ),
        ExtractEvent::Found(PathFound::Missing) => action == ExtractAction::ClearTarget(
            Removal::Nothing,
        ),
        ExtractEvent::Found(PathFound::Failed(e)) => action is Fail && action->Fail_0@
            == ErrorView::Io(e@),
        ExtractEvent::Cleared(entries) => action is Place && is_install_plan(
            action->Place_0,
            entries@,
        ),
    }
}

impl ExtractPhase {
    /// Starts to unpack an archive.
    pub fn start() -> (phase: Self)
        ensures
            phase == ExtractPhase::Unpacking,
    {
        ExtractPhase::Unpacking
    }

    /// Takes note of an event and says what is to be done.
    pub fn step(&mut self, event: ExtractEvent) -> (action: ExtractAction)
        requires
            extract_fits(*old(self), event),
        ensures
            *final(self) == extract_next(*old(self), event),
            is_extract_action(action, event),
    {
        match event {
            ExtractEvent::Entry { path, kind } => match check_entry(path.as_str(), kind) {
                Ok(()) => ExtractAction::Unpack,
                Err(e) => {
                    *self = ExtractPhase::Over;
                    ExtractAction::Fail(e)
                },
            },
            ExtractEvent::Ended => {
                *self = ExtractPhase::Clearing;
                ExtractAction::LookAtTarget
            },
            ExtractEvent::Found(found) => match removal_of(found) {
                Ok(removal) => {
                    *self = ExtractPhase::Placing;
                    ExtractAction::ClearTarget(removal)
                },
                Err(e) => {
                    *self = ExtractPhase::Over;
                    ExtractAction::Fail(e)
                },
            },
            ExtractEvent::Cleared(entries) => {
                *self = ExtractPhase::Over;
                ExtractAction::Place(install_plan(&entries))
            },
        }
    }
}

/// The phase behind a series of events.
pub open spec fn extract_phase(events: Seq<ExtractEvent>) -> ExtractPhase
    decreases events.len(),
{
    if events.len() == 0 {
        ExtractPhase::Unpacking
    } else {
        extract_next(extract_phase(events.drop_last()), events.last())
    }
}

/// Whether a series of events can come, one behind the other.
pub open spec fn extract_possible(events: Seq<ExtractEvent>) -> bool
    decreases events.len(),
{
    events.len() == 0 || (extract_possible(events.drop_last()) && extract_fits(
        extract_phase(events.drop_last()),
        events.last(),
    ))
}

/// Whether an event is an entry that is not accepted.
pub open spec fn is_bad_entry(event: ExtractEvent) -> bool {
    match event {
        ExtractEvent::Entry { path, kind } => entry_verdict(path@, kind) is Err,
        _ => false,
    }
}

/// As long as the replacing goes on, no entry was refused.
proof fn lemma_going_on_means_accepted(events: Seq<ExtractEvent>)
    requires
        extract_possible(events),
        extract_phase(events) != ExtractPhase::Over,
    ensures
        forall|i: int| 0 <= i < events.len() ==> !is_bad_entry(#[trigger] events[i]),
    decreases events.len(),
{
    if events.len() > 0 {
        let front = events.drop_last();
        lemma_going_on_means_accepted(front);
        assert forall|i: int| 0 <= i < events.len() implies !is_bad_entry(
            #[trigger] events[i],
        ) by {
            if i < front.len() {
                assert(front[i] == events[i]);
            }
        }
    }
}

/// A target is not touched before all entries of the archive were accepted: an
/// archive with an entry that is refused leaves it as it was.
pub proof fn law_refused_archive_leaves_the_target(
    events: Seq<ExtractEvent>,
    action: ExtractAction,
)
    requires
        extract_possible(events),
        events.len() > 0,
        is_extract_action(action, events.last()),
        action is ClearTarget || action is Place,
    ensures
        forall|i: int| 0 <= i < events.len() ==> !is_bad_entry(#[trigger] events[i]),
{
    let front = events.drop_last();
    lemma_going_on_means_accepted(front);
    assert forall|i: int| 0 <= i < events.len() implies !is_bad_entry(#[trigger] events[i]) by {
        if i < front.len() {
            assert(front[i] == events[i]);
        }
    }
}

/// What stands in an archive that a directory was packed in: files and
/// directories, each by its path below the name that the directory has there.
pub open spec fn is_packed_entry(source: Seq<char>, event: ExtractEvent) -> bool {
    match event {
        ExtractEvent::Entry { path, kind } => kind != EntryKind::Other && exists|rel: Seq<char>|
            !entry_escapes(rel) && path@ == #[trigger] joined(name_or(source, "workspace"@), rel),
        _ => false,
    }
}

/// An entry of a directory that was packed is accepted where the archive is
/// unpacked, whatever the directory is called and whatever lies in it, and lies
/// in the one directory at the top, where it lay in the directory.
pub proof fn law_packed_entries_are_accepted(source: Seq<char>, rel: Seq<char>, kind: EntryKind)
    requires
        !is_absolute(rel),
        !elements(rel).contains(parent_element()),
        kind != EntryKind::Other,
    ensures
        entry_verdict(joined(name_or(source, "workspace"@), rel), kind) == Ok::<(), ErrorView>(()),
        components(joined(name_or(source, "workspace"@), rel)) == seq![
            name_or(source, "workspace"@),
        ] + elements(rel),
{
    reveal_strlit("workspace");
    let name = name_or(source, "workspace"@);
    let none = Seq::<char>::empty();
    lemma_elements_shape(source);
    if file_name(source) is Some {
        let last = elements(source).len() - 1;
        assert(is_element(elements(source)[last]) && !elements(source)[last].contains('/'));
    } else {
        assert(name[0] == 'w');
        assert(!name.contains('/'));
        assert(name.len() == 9);
    }
    assert(name != parent_element()) by {
        if name == parent_element() {
            assert(name.len() == 2);
        }
    }
    lemma_components_joined_name(none, name);
    assert(joined(none, name) =~= name);
    assert(components(none).len() == 0) by {
        assert(!none.contains('/'));
        lemma_components_of_name(none);
    }
    assert(components(name) =~= seq![name]);
    lemma_elements_joined(name, rel);
    let path = joined(name, rel);
    assert(path[0] == name[0]);
    assert(name.contains(name[0]));
    assert(anchor(name).len() == 0);
    if elements(path).contains(parent_element()) {
        let i = choose|i: int| 0 <= i < elements(path).len() && elements(path)[i]
            == parent_element();
        if i > 0 {
            assert(elements(rel)[i - 1] == parent_element());
        }
    }
    assert(components(path) =~= seq![name] + elements(rel));
}

/// As long as the entries of a packed directory come, they are unpacked.
proof fn lemma_packed_entries_go_on(source: Seq<char>, entries: Seq<ExtractEvent>)
    requires
        forall|i: int| 0 <= i < entries.len() ==> is_packed_entry(source, #[trigger] entries[i]),
    ensures
        extract_possible(entries),
        extract_phase(entries) == ExtractPhase::Unpacking,
        forall|i: int| 0 <= i < entries.len() ==> !is_bad_entry(#[trigger] entries[i]),
    decreases entries.len(),
{
    if entries.len() > 0 {
        let front = entries.drop_last();
        assert forall|i: int| 0 <= i < front.len() implies is_packed_entry(
            source,
            #[trigger] front[i],
        ) by {
            assert(front[i] == entries[i]);
        }
        lemma_packed_entries_go_on(source, front);
        assert(is_packed_entry(source, entries[entries.len() - 1]));
        match entries.last() {
            ExtractEvent::Entry { path, kind } => {
                let rel = choose|rel: Seq<char>|
                    !entry_escapes(rel) && path@ == #[trigger] joined(
                        name_or(source, "workspace"@),
                        rel,
                    );
                law_packed_entries_are_accepted(source, rel, kind);
            },
            _ => {},
        }
        assert forall|i: int| 0 <= i < entries.len() implies !is_bad_entry(
            #[trigger] entries[i],
        ) by {
            if i < front.len() {
                assert(front[i] == entries[i]);
            }
        }
    }
}

/// A directory that was packed becomes the target when it is unpacked: every one
/// of its entries is, way is made at the target where that can be told, and the
/// one directory at the top of what was unpacked becomes the target as a whole.
pub proof fn law_packed_directory_becomes_the_target(
    source: Seq<char>,
    entries: Seq<ExtractEvent>,
    found: PathFound,
    top: Vec<TopEntry>,
)
    requires
        forall|i: int| 0 <= i < entries.len() ==> is_packed_entry(source, #[trigger] entries[i]),
        !(found is Failed),
        top@.len() == 1,
        top@[0].is_dir,
    ensures
        extract_possible(
            entries.push(ExtractEvent::Ended).push(ExtractEvent::Found(found)).push(
                ExtractEvent::Cleared(top),
            ),
        ),
        forall|i: int, action: ExtractAction|
            0 <= i < entries.len() && #[trigger] is_extract_action(action, entries[i])
                ==> action is Unpack,
        forall|action: ExtractAction| #[trigger]
            is_extract_action(action, ExtractEvent::Found(found)) ==> action is ClearTarget,
        forall|action: ExtractAction| #[trigger]
            is_extract_action(action, ExtractEvent::Cleared(top)) ==> action
                == ExtractAction::Place(Install::Rename(top@[0].handle)),
{
    lemma_packed_entries_go_on(source, entries);
    let ended = entries.push(ExtractEvent::Ended);
    let cleared = ended.push(ExtractEvent::Found(found));
    let placed = cleared.push(ExtractEvent::Cleared(top));
    assert(ended.drop_last() =~= entries);
    assert(cleared.drop_last() =~= ended);
    assert(placed.drop_last() =~= cleared);
    assert(extract_phase(ended) == ExtractPhase::Clearing);
    assert(extract_phase(cleared) == ExtractPhase::Placing);
    assert(extract_possible(ended));
    assert(extract_possible(cleared));
    assert forall|i: int, action: ExtractAction|
        0 <= i < entries.len() && #[trigger] is_extract_action(
            action,
            entries[i],
        ) implies action is Unpack by {
        assert(is_packed_entry(source, entries[i]));
        assert(!is_bad_entry(entries[i]));
    }
}

/// An entry of an archive is refused where its path starts at the root or holds
/// a parent element, and where it is neither a file nor a directory; any other
/// is accepted. The refusal names the path.
pub proof fn law_entries_are_accepted_or_refused(path: &str, kind: EntryKind, r: Result<()>)
    requires
        call_ensures(check_entry, (path, kind), r),
    ensures
        r is Ok <==> !(path@.len() > 0 && path@[0] == '/') && !elements(path@).contains(
            seq!['.', '.'],
        ) && (kind == EntryKind::Regular || kind == EntryKind::Directory),
        r matches Err(e) ==> (e matches Error::Other(m) && m@ == (if (path@.len() > 0 && path@[0]
            == '/') || elements(path@).contains(seq!['.', '.']) {
            "archive entry escapes target directory: "@ + path@
        } else {
            "unsupported archive entry type: "@ + path@
        })),
        entry_verdict(path@, kind) is Ok <==> r is Ok,
{
}

/// Way is made by removing what was found: a file as a file, a directory with
/// all that is in it, and nothing where there is nothing.
pub proof fn law_way_is_made_as_found(found: PathFound, r: Result<Removal>)
    requires
        call_ensures(removal_of, (found,), r),
    ensures
        r == Ok::<Removal, Error>(Removal::Tree) <==> found is Directory,
        r == Ok::<Removal, Error>(Removal::File) <==> found is File,
        r == Ok::<Removal, Error>(Removal::Nothing) <==> found is Missing,
        r is Err <==> found is Failed,
        found matches PathFound::Failed(e) ==> (r->Err_0 matches Error::Io(m) && m@ == e@),
{
}

/// Nothing that was unpacked is left behind: either the one directory that there
/// is becomes the target, or everything is moved into it, in order and once
/// each.
pub proof fn law_everything_unpacked_is_installed(entries: &Vec<TopEntry>, plan: Install)
    requires
        call_ensures(install_plan, (entries,), plan),
    ensures
        plan is Rename <==> entries@.len() == 1 && entries@[0].is_dir,
        plan matches Install::Rename(handle) ==> handle == entries@[0].handle,
        plan matches Install::MoveInto(handles) ==> {
            &&& handles@.len() == entries@.len()
            &&& forall|i: int|
                0 <= i < entries@.len() ==> #[trigger] handles@[i] == entries@[i].handle
        },
{
}

/// A step unpacks what is accepted and fails on what is not, looks at the target
/// once all is unpacked, makes way as found, and installs what was unpacked.
pub proof fn law_extraction_goes_step_by_step(event: ExtractEvent, action: ExtractAction)
    ensures
        forall|phase: &mut ExtractPhase| #[trigger]
            call_ensures(ExtractPhase::step, (phase, event), action) ==> match event {
                ExtractEvent::Entry { path, kind } => {
                    &&& action is Unpack <==> entry_verdict(path@, kind) is Ok
                    &&& action is Unpack <==> *final(phase) == ExtractPhase::Unpacking
                    &&& !(action is Unpack) ==> action is Fail && *final(phase)
                        == ExtractPhase::Over
                },
                ExtractEvent::Ended => action is LookAtTarget && *final(phase)
                    == ExtractPhase::Clearing,
                ExtractEvent::Found(found) => {
                    &&& action == ExtractAction::ClearTarget(Removal::Tree) <==> found is Directory
                    &&& action == ExtractAction::ClearTarget(Removal::File) <==> found is File
                    &&& action == ExtractAction::ClearTarget(Removal::Nothing)
                        <==> found is Missing
                    &&& action is Fail <==> found is Failed
                    &&& !(found is Failed) ==> *final(phase) == ExtractPhase::Placing
                    &&& found is Failed ==> *final(phase) == ExtractPhase::Over
                },
                ExtractEvent::Cleared(entries) => {
                    &&& action is Place
                    &&& action->Place_0 is Rename <==> entries@.len() == 1 && entries@[0].is_dir
                    &&& action->Place_0 matches Install::Rename(handle) ==> handle
                        == entries@[0].handle
                    &&& action->Place_0 matches Install::MoveInto(handles) ==> {
                        &&& handles@.len() == entries@.len()
                        &&& forall|i: int|
                            0 <= i < entries@.len() ==> #[trigger] handles@[i]
                                == entries@[i].handle
                    }
                    &&& *final(phase) == ExtractPhase::Over
                },
            },
{
}

/// Entries and their end can come while an archive is being unpacked; what is at
/// the target is asked next, and what was unpacked last.
pub proof fn law_when_extraction_events_come(phase: ExtractPhase, event: ExtractEvent)
    ensures
        event is Entry || event is Ended ==> (extract_fits(phase, event) <==> phase
            == ExtractPhase::Unpacking),
        event is Found ==> (extract_fits(phase, event) <==> phase == ExtractPhase::Clearing),
        event is Cleared ==> (extract_fits(phase, event) <==> phase == ExtractPhase::Placing),
{
}

/// The name that something has is the last name of its path; what has none, such
/// as the root, goes by the name that is given for it.
pub proof fn law_things_go_by_their_last_name(path: &str, fallback: &str, name: String)
    requires
        call_ensures(base_name_or, (path, fallback), name),
    ensures
        elements(path@).len() > 0 && elements(path@).last() != seq!['.', '.'] ==> name@ == elements(
            path@,
        ).last(),
        elements(path@).len() == 0 || elements(path@).last() == seq!['.', '.'] ==> name@
            == fallback@,
        name@ == name_or(path@, fallback@),
{
}

/// Temporary files are named after the moment and what is packed in them, and
/// are kept beside what they are to replace, under a name that tells what for.
pub proof fn law_temporary_names_tell_what_for(
    target: &str,
    suffix: &str,
    desired: &str,
    nonce: u64,
    staging: String,
    packed: String,
)
    requires
        call_ensures(staging_path_at, (target, suffix, nonce), staging),
        call_ensures(archive_file_name_at, (desired, nonce), packed),
    ensures
        packed@ == "scriptorium-"@ + hexadecimal(nonce as nat) + "-"@ + desired@,
        staging@ == joined(
            parent_or_here(target@),
            ".scriptorium-"@ + suffix@ + "-"@ + hexadecimal(nonce as nat) + ".tmp"@,
        ),
{
}

/// The directory of a target is its parent, and the current directory where it
/// has none.
pub proof fn law_directory_of_a_target(path: &str, dir: String)
    requires
        call_ensures(parent_dir, (path,), dir),
    ensures
        parent(path@) is Some ==> dir@ == parent(path@)->0,
        parent(path@) is None ==> dir@ == "."@,
        dir@ == parent_or_here(path@),
{
}

/// Inside an archive a directory or a file has its own name.
pub proof fn law_name_in_an_archive(source: &str, is_dir: bool, name: String)
    requires
        call_ensures(name_in_archive, (source, is_dir), name),
    ensures
        elements(source@).len() > 0 && elements(source@).last() != seq!['.', '.'] ==> name@
            == elements(source@).last(),
        elements(source@).len() == 0 && is_dir ==> name@ == "workspace"@,
        elements(source@).len() == 0 && !is_dir ==> name@ == "file"@,
{
}

/// Unpacking comes first, and the names of temporary things tell what they are
/// for.
pub proof fn law_extraction_starts_with_unpacking(
    phase: ExtractPhase,
    desired: &str,
    packed: String,
    target: &str,
    suffix: &str,
    staging: String,
)
    requires
        call_ensures(ExtractPhase::start, (), phase),
        call_ensures(temp_archive_name, (desired,), packed),
        call_ensures(build_workspace_transfer_temp_path, (target, suffix), staging),
    ensures
        phase is Unpacking,
        "scriptorium-"@.is_prefix_of(packed@),
        ("-"@ + desired@).is_suffix_of(packed@),
        exists|name: Seq<char>|
            {
                &&& staging@ == #[trigger] joined(parent_or_here(target@), name)
                &&& (".scriptorium-"@ + suffix@ + "-"@).is_prefix_of(name)
                &&& ".tmp"@.is_suffix_of(name)
            },
{
    let t = choose|t: SystemTime|
        packed@ == archive_file_name(desired@, nonce_of(#[trigger] nanos_since_epoch(t)));
    let end = "-"@ + desired@;
    assert("scriptorium-"@ =~= packed@.subrange(0, "scriptorium-"@.len() as int));
    assert(end =~= packed@.subrange(packed@.len() - end.len(), packed@.len() as int));
    let u = choose|u: SystemTime|
        staging@ == staging_path(target@, suffix@, nonce_of(#[trigger] nanos_since_epoch(u)));
    let name = staging_name(suffix@, nonce_of(nanos_since_epoch(u)));
    let front = ".scriptorium-"@ + suffix@ + "-"@;
    assert(front =~= name.subrange(0, front.len() as int));
    assert(".tmp"@ =~= name.subrange(name.len() - ".tmp"@.len(), name.len() as int));
    assert(staging@ == joined(parent_or_here(target@), name));
}

} // verus!
