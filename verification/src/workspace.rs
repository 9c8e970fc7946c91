//! Workspaces: which ids they have, where their files lie on the host, and
//! which paths stay inside them.
//!
//! Layout: `{root}/{workspace_id}/home/`, mounted as the home directory inside
//! the container.
use vstd::prelude::*;

use crate::config::WorkspaceConfig;
use crate::error::{outcome, text_outcome, Error, ErrorView, Result};
use crate::paths::{
    clean, clean_path, climb, components, elements, is_absolute, is_below, is_element, is_under,
    join_path, joined, lemma_components_joined_name, lemma_elements_joined,
    lemma_elements_of_path_text, lemma_elements_shape, lemma_settled_climbing, lemma_settled_plain,
    lemma_settled_shape, parent_element, path_text, proper, settled,
};

verus! {

/// The longest workspace id.
pub const MAX_ID_LEN: usize = 128;

/// Whether `c` may stand in a workspace id: `[A-Za-z0-9_-]`.
pub open spec fn is_id_char(c: char) -> bool {
    ||| 'A' <= c <= 'Z'
    ||| 'a' <= c <= 'z'
    ||| '0' <= c <= '9'
    ||| c == '_'
    ||| c == '-'
}

/// Whether `id` is a workspace id: `[A-Za-z0-9_-]{1,128}`.
pub open spec fn valid_id(id: Seq<char>) -> bool {
    &&& 1 <= id.len() <= MAX_ID_LEN
    &&& forall|i: int| 0 <= i < id.len() ==> is_id_char(#[trigger] id[i])
}

/// Where a workspace lies under `root`.
pub open spec fn dir_of(root: Seq<char>, id: Seq<char>) -> Seq<char> {
    joined(root, id)
}

/// Where the home directory of a workspace lies under `root`.
pub open spec fn home_of(root: Seq<char>, id: Seq<char>) -> Seq<char> {
    joined(dir_of(root, id), "home"@)
}

/// The host path that `relative` stands for in a workspace, or why there is
/// none.
pub open spec fn resolved(root: Seq<char>, id: Seq<char>, relative: Seq<char>) -> std::result::Result<
    Seq<char>,
    ErrorView,
> {
    if !valid_id(id) {
        Err(ErrorView::InvalidWorkspaceId)
    } else {
        let path = clean(joined(home_of(root, id), relative));
        if is_under(path, home_of(root, id)) {
            Ok(path)
        } else {
            Err(ErrorView::PathEscape(relative))
        }
    }
}

/// Accepts `[A-Za-z0-9_-]`, 1 to 128 characters, and nothing else.
///
/// A list of what is allowed, on purpose: lists of what is not have a way of
/// missing something (NUL bytes, look-alikes, rare separators).
pub fn validate_workspace_id(id: &str) -> (r: Result<()>)
    ensures
        outcome(r) == (if valid_id(id@) {
            Ok::<(), ErrorView>(())
        } else {
            Err(ErrorView::InvalidWorkspaceId)
        }),
{
    let len: usize = id.unicode_len();
    if len == 0 || len > MAX_ID_LEN {
        return Err(Error::InvalidWorkspaceId);
    }
    for c in it: id.chars()
        invariant
            it.seq() == id@,
            forall|i: int| 0 <= i < it.index() ==> is_id_char(#[trigger] id@[i]),
    {
        let ok: bool = ('A' <= c && c <= 'Z') || ('a' <= c && c <= 'z') || ('0' <= c && c <= '9')
            || c == '_' || c == '-';
        if !ok {
            assert(!is_id_char(id@[it.index() as int]));
            return Err(Error::InvalidWorkspaceId);
        }
    }
    Ok(())
}

/// Knows where the files of each workspace lie on the host.
///
/// The id of a workspace is opaque: callers pick whatever fits them. It is one
/// path element, so that a workspace is a direct child of the root.
#[derive(Clone, Debug)]
pub struct WorkspaceManager {
    pub cfg: WorkspaceConfig,
}

/// What came of giving a directory to the user inside the container.
#[derive(Debug, Clone, PartialEq, Eq)]
pub enum ChownOutcome {
    /// The directory belongs to that user now.
    Done,
    /// The service may not give directories away.
    Denied,
    /// Something else went wrong; holds the system's words.
    Failed(String),
}

/// What is left to do for the user inside the container to write to a
/// directory.
#[derive(Debug, Clone, Copy, PartialEq, Eq, Structural)]
pub enum HomeAccess {
    /// Nothing.
    Owned,
    /// Open the directory to everyone, by mode 0777.
    OpenToAll,
}

/// A home directory that was made.
#[derive(Debug, Clone, PartialEq, Eq)]
pub struct EnsuredHome {
    pub path: String,
    pub access: HomeAccess,
}

/// What came of removing a directory.
#[derive(Debug, Clone, PartialEq, Eq)]
pub enum RemoveOutcome {
    /// It is gone.
    Removed,
    /// There was none.
    NotFound,
    /// Something went wrong; holds the system's words.
    Failed(String),
}

impl WorkspaceManager {
    /// A manager of the workspaces under the configured root.
    #[must_use]
    pub fn new(cfg: WorkspaceConfig) -> (manager: Self)
        ensures
            manager.cfg == cfg,
    {
        WorkspaceManager { cfg: cfg }
    }

    /// The directory of a workspace.
    pub fn workspace_dir(&self, workspace_id: &str) -> (r: Result<String>)
        ensures
            text_outcome(r) == (if valid_id(workspace_id@) {
                Ok::<Seq<char>, ErrorView>(dir_of(self.cfg.root@, workspace_id@))
            } else {
                Err(ErrorView::InvalidWorkspaceId)
            }),
    {
        match validate_workspace_id(workspace_id) {
            Err(e) => Err(e),
            Ok(()) => Ok(join_path(self.cfg.root.as_str(), workspace_id)),
        }
    }

    /// The home directory of a workspace, to be made on first use.
    pub fn home_dir(&self, workspace_id: &str) -> (r: Result<String>)
        ensures
            text_outcome(r) == (if valid_id(workspace_id@) {
                Ok::<Seq<char>, ErrorView>(home_of(self.cfg.root@, workspace_id@))
            } else {
                Err(ErrorView::InvalidWorkspaceId)
            }),
    {
        match self.workspace_dir(workspace_id) {
            Err(e) => Err(e),
            Ok(dir) => Ok(join_path(dir.as_str(), "home")),
        }
    }

    /// What came of seeing to the home directory of a workspace: it was made and
    /// given to the user inside the container. Where the service may not give
    /// it away, it is opened to everyone: it is a leaf of one workspace inside a
    /// root that the service owns.
    pub fn ensure_home(&self, workspace_id: &str, chown: ChownOutcome) -> (r: Result<EnsuredHome>)
        ensures
            match r {
                Ok(home) => {
                    &&& valid_id(workspace_id@)
                    &&& home.path@ == home_of(self.cfg.root@, workspace_id@)
                    &&& match home.access {
                        HomeAccess::Owned => chown is Done,
                        HomeAccess::OpenToAll => chown is Denied,
                    }
                },
                Err(e) => if valid_id(workspace_id@) {
                    chown is Failed && e@ == ErrorView::Io(chown->Failed_0@)
                } else {
                    e@ == ErrorView::InvalidWorkspaceId
                },
            },
    {
        let path = match self.home_dir(workspace_id) {
            Ok(path) => path,
            Err(e) => {
                return Err(e);
            },
        };
        match chown {
            ChownOutcome::Done => Ok(EnsuredHome { path: path, access: HomeAccess::Owned }),
            ChownOutcome::Denied => Ok(EnsuredHome { path: path, access: HomeAccess::OpenToAll }),
            ChownOutcome::Failed(e) => Err(Error::Io(e)),
        }
    }

    /// What came of deleting a workspace, by what came of removing its
    /// directory: whether there was one.
    pub fn delete(&self, workspace_id: &str, removed: RemoveOutcome) -> (r: Result<bool>)
        ensures
            outcome(r) == (if !valid_id(workspace_id@) {
                Err::<bool, ErrorView>(ErrorView::InvalidWorkspaceId)
            } else {
                match removed {
                    RemoveOutcome::Removed => Ok(true),
                    RemoveOutcome::NotFound => Ok(false),
                    RemoveOutcome::Failed(e) => Err(ErrorView::Io(e@)),
                }
            }),
    {
        match validate_workspace_id(workspace_id) {
            Ok(()) => {},
            Err(e) => {
                return Err(e);
            },
        }
        match removed {
            RemoveOutcome::Removed => Ok(true),
            RemoveOutcome::NotFound => Ok(false),
            RemoveOutcome::Failed(e) => Err(Error::Io(e)),
        }
    }

    /// Resolves a path that a caller named inside the home directory of a
    /// workspace, and refuses what would lead out of it.
    pub fn resolve_path(&self, workspace_id: &str, relative: &str) -> (r: Result<String>)
        ensures
            text_outcome(r) == resolved(self.cfg.root@, workspace_id@, relative@),
    {
        let home = match self.home_dir(workspace_id) {
            Err(e) => {
                return Err(e);
            },
            Ok(home) => home,
        };
        let path = clean_path(join_path(home.as_str(), relative).as_str());
        if !is_below(path.as_str(), home.as_str()) {
            return Err(Error::PathEscape(relative.to_string()));
        }
        Ok(path)
    }
}

/// A workspace id is one proper path element, and not the parent element.
proof fn lemma_id_is_element(id: Seq<char>)
    requires
        valid_id(id),
    ensures
        is_element(id),
        !id.contains('/'),
        id != parent_element(),
{
    assert(is_id_char(id[0]));
    if id == seq!['.'] || id == parent_element() {
        assert(id[0] == '.');
    }
    if id.contains('/') {
        let k = choose|k: int| 0 <= k < id.len() && id[k] == '/';
        assert(is_id_char(id[k]));
    }
}

/// The components of a home directory: those of the root, the id, and `home`.
pub proof fn lemma_home_components(root: Seq<char>, id: Seq<char>)
    requires
        valid_id(id),
    ensures
        components(dir_of(root, id)) == components(root).push(id),
        components(home_of(root, id)) == components(root).push(id).push("home"@),
        home_of(root, id).len() > 0,
        home_of(root, id).last() != '/',
        is_absolute(root) ==> is_absolute(home_of(root, id)),
        elements(home_of(root, id)).len() > 0,
        elements(home_of(root, id)).last() == "home"@,
        "home"@ != parent_element(),
{
    lemma_id_is_element(id);
    reveal_strlit("home");
    assert("home"@ =~= seq!['h', 'o', 'm', 'e']);
    assert(is_element("home"@));
    assert(!"home"@.contains('/'));
    lemma_components_joined_name(root, id);
    lemma_components_joined_name(dir_of(root, id), "home"@);
    lemma_elements_joined(dir_of(root, id), "home"@);
    assert("home"@[0] == 'h');
}

/// What is resolved lies inside the home directory: behind the components of
/// the home directory come names only, never a parent element that would lead
/// out again.
pub proof fn law_resolved_stays_inside(root: Seq<char>, id: Seq<char>, relative: Seq<char>)
    requires
        resolved(root, id, relative) is Ok,
    ensures
        ({
            let home = home_of(root, id);
            let cs = components(resolved(root, id, relative)->Ok_0);
            &&& components(home).is_prefix_of(cs)
            &&& forall|i: int|
                components(home).len() <= i < cs.len() ==> #[trigger] cs[i] != parent_element()
        }),
{
    let home = home_of(root, id);
    let full = joined(home, relative);
    let path = clean(full);
    let es = settled(is_absolute(full), elements(full));
    lemma_home_components(root, id);
    lemma_elements_shape(full);
    lemma_settled_shape(is_absolute(full), elements(full));
    let base = components(home);
    let cs = components(path);
    assert(base.last() == "home"@);
    if !is_absolute(full) && es.len() == 0 {
        assert(path =~= seq!['.']);
        crate::paths::lemma_pieces_of_name(seq!['.']);
        assert(seq![seq!['.']].filter(crate::paths::element_test()) =~= Seq::empty()) by {
            reveal_with_fuel(Seq::filter, 2);
            assert(seq![seq!['.']].drop_last() =~= Seq::empty());
        }
        assert(components(path) =~= seq![seq!['.']]);
    } else {
        lemma_elements_of_path_text(is_absolute(full), es);
        assert forall|i: int| base.len() <= i < cs.len() implies #[trigger] cs[i]
            != parent_element() by {
            if cs[i] == parent_element() {
                let off: int = if is_absolute(full) {
                    1
                } else {
                    0
                };
                let last = base.len() - 1;
                assert(base[last] == cs[last]) by {
                    assert(base == cs.subrange(0, base.len() as int));
                }
                assert(es[i - off] == cs[i]);
                assert(last >= 1);
                assert(es[last - off] == cs[last]);
                assert(es[last - off] == parent_element());
            }
        }
    }
}

/// Whether a root is absolute and free of parent elements, as configured
/// roots are meant to be.
pub open spec fn plain_root(root: Seq<char>) -> bool {
    &&& is_absolute(root)
    &&& forall|i: int|
        0 <= i < elements(root).len() ==> #[trigger] elements(root)[i] != parent_element()
}

/// The elements of a home directory under a plain root: those of the root, the
/// id, and `home`, no parent element among them.
proof fn lemma_home_elements(root: Seq<char>, id: Seq<char>)
    requires
        plain_root(root),
        valid_id(id),
    ensures
        elements(home_of(root, id)) == elements(root).push(id).push("home"@),
        plain_root(home_of(root, id)),
        components(home_of(root, id)) == seq![seq!['/']] + elements(home_of(root, id)),
{
    lemma_home_components(root, id);
    lemma_id_is_element(id);
    let home = home_of(root, id);
    let hs = elements(home);
    let es = elements(root);
    assert(components(home) =~= seq![seq!['/']] + hs);
    assert(components(root) =~= seq![seq!['/']] + es);
    assert(hs =~= components(home).skip(1));
    assert(components(root).push(id).push("home"@).skip(1) =~= es.push(id).push("home"@));
    assert forall|i: int| 0 <= i < hs.len() implies #[trigger] hs[i] != parent_element() by {
        if i < es.len() {
            assert(hs[i] == es[i]);
        }
    }
}

/// Under a plain root, a relative path leads where its own normal form says:
/// as far up from the home directory as it climbs, and from there down its
/// names. It is accepted where that is inside the home directory, and refused
/// everywhere else.
pub proof fn law_relative_path_resolves(root: Seq<char>, id: Seq<char>, relative: Seq<char>)
    requires
        plain_root(root),
        valid_id(id),
        !is_absolute(relative),
    ensures
        ({
            let hs = elements(home_of(root, id));
            let own = settled(false, elements(relative));
            let k = climb(own);
            let left = if k > hs.len() {
                0
            } else {
                hs.len() - k
            };
            let there = hs.take(left) + own.skip(k as int);
            resolved(root, id, relative) == (if hs.is_prefix_of(there) {
                Ok::<Seq<char>, ErrorView>(path_text(true, there))
            } else {
                Err(ErrorView::PathEscape(relative))
            })
        }),
{
    let home = home_of(root, id);
    let hs = elements(home);
    let full = joined(home, relative);
    lemma_home_components(root, id);
    lemma_home_elements(root, id);
    lemma_elements_joined(home, relative);
    assert(full[0] == home[0]);
    lemma_settled_climbing(hs, elements(relative));
    lemma_elements_shape(full);
    lemma_settled_shape(true, elements(full));
    let there = settled(true, elements(full));
    lemma_elements_of_path_text(true, there);
    let root_part = seq![seq!['/']];
    let base = root_part + hs;
    let cs = root_part + there;
    assert(hs.is_prefix_of(there) == base.is_prefix_of(cs)) by {
        if hs.is_prefix_of(there) {
            assert(base =~= cs.subrange(0, base.len() as int));
        }
        if base.is_prefix_of(cs) {
            assert(hs =~= there.subrange(0, hs.len() as int)) by {
                assert forall|i: int| 0 <= i < hs.len() implies hs[i] == there[i] by {
                    assert(base[i + 1] == cs.subrange(0, base.len() as int)[i + 1]);
                }
            }
        }
    }
}

/// Under a plain root, a relative path that does not climb is always accepted,
/// and leads to the home directory followed by its own normal form.
pub proof fn law_descending_path_is_accepted(root: Seq<char>, id: Seq<char>, relative: Seq<char>)
    requires
        plain_root(root),
        valid_id(id),
        !is_absolute(relative),
        climb(settled(false, elements(relative))) == 0,
    ensures
        resolved(root, id, relative) == Ok::<Seq<char>, ErrorView>(
            path_text(
                true,
                elements(home_of(root, id)) + settled(false, elements(relative)),
            ),
        ),
{
    let hs = elements(home_of(root, id));
    let own = settled(false, elements(relative));
    law_relative_path_resolves(root, id, relative);
    assert(hs.take(hs.len() as int) =~= hs);
    assert(own.skip(0) =~= own);
    assert(hs =~= (hs + own).subrange(0, hs.len() as int));
}

/// Under an absolute root, resolving what was resolved changes nothing.
pub proof fn law_resolved_is_stable(root: Seq<char>, id: Seq<char>, relative: Seq<char>)
    requires
        is_absolute(root),
        resolved(root, id, relative) is Ok,
    ensures
        resolved(root, id, resolved(root, id, relative)->Ok_0) == resolved(root, id, relative),
{
    let home = home_of(root, id);
    let full = joined(home, relative);
    let path = clean(full);
    lemma_home_components(root, id);
    assert(is_absolute(full)) by {
        if !is_absolute(relative) {
            assert(full[0] == home[0]);
        }
    }
    let es = settled(true, elements(full));
    lemma_elements_shape(full);
    lemma_settled_shape(true, elements(full));
    lemma_elements_of_path_text(true, es);
    assert(is_absolute(path));
    lemma_settled_plain(true, es);
}

/// Workspaces are apart: what is resolved in one is never what is resolved in
/// another, and does not lie anywhere in the directory of another.
pub proof fn law_workspaces_are_disjoint(
    root: Seq<char>,
    a: Seq<char>,
    b: Seq<char>,
    x: Seq<char>,
    y: Seq<char>,
)
    requires
        a != b,
        resolved(root, a, x) is Ok,
        resolved(root, b, y) is Ok,
    ensures
        resolved(root, a, x)->Ok_0 != resolved(root, b, y)->Ok_0,
        !is_under(resolved(root, a, x)->Ok_0, dir_of(root, b)),
        !is_under(resolved(root, b, y)->Ok_0, dir_of(root, a)),
{
    lemma_home_components(root, a);
    lemma_home_components(root, b);
    let p = components(resolved(root, a, x)->Ok_0);
    let q = components(resolved(root, b, y)->Ok_0);
    let ha = components(home_of(root, a));
    let hb = components(home_of(root, b));
    let da = components(dir_of(root, a));
    let db = components(dir_of(root, b));
    let n = components(root).len() as int;
    assert(ha[n] == a && da[n] == a);
    assert(hb[n] == b && db[n] == b);
    assert(ha == p.subrange(0, ha.len() as int));
    assert(hb == q.subrange(0, hb.len() as int));
    assert(p[n] == a);
    assert(q[n] == b);
    assert(p.subrange(0, db.len() as int)[n] == a);
    assert(q.subrange(0, da.len() as int)[n] == b);
}

/// Workspaces have their own directories, and the home directory of each lies
/// in it.
pub proof fn law_directories_are_apart(root: Seq<char>, a: Seq<char>, b: Seq<char>)
    requires
        valid_id(a),
        valid_id(b),
        a != b,
    ensures
        dir_of(root, a) != dir_of(root, b),
        is_under(home_of(root, a), dir_of(root, a)),
        !is_under(home_of(root, a), dir_of(root, b)),
{
    lemma_home_components(root, a);
    lemma_home_components(root, b);
    let n = components(root).len() as int;
    let ha = components(home_of(root, a));
    let da = components(dir_of(root, a));
    let db = components(dir_of(root, b));
    assert(da =~= ha.subrange(0, da.len() as int));
    assert(da[n] == a);
    assert(db[n] == b);
    assert(ha.subrange(0, db.len() as int)[n] == a);
}

/// An id is accepted exactly where it has 1 to 128 characters and each of them is
/// an ASCII letter, a digit, an underscore or a dash.
pub proof fn law_ids_are_accepted_or_refused(id: &str, r: Result<()>)
    requires
        call_ensures(validate_workspace_id, (id,), r),
    ensures
        r is Ok <==> 1 <= id@.len() <= 128 && forall|i: int|
            0 <= i < id@.len() ==> {
                let n = #[trigger] id@[i] as int;
                ||| 48 <= n <= 57
                ||| 65 <= n <= 90
                ||| 97 <= n <= 122
                ||| n == 95
                ||| n == 45
            },
        r is Ok <==> valid_id(id@),
        r matches Err(e) ==> e is InvalidWorkspaceId,
{
    let plain = |c: char|
        {
            let n = c as int;
            ||| 48 <= n <= 57
            ||| 65 <= n <= 90
            ||| 97 <= n <= 122
            ||| n == 95
            ||| n == 45
        };
    assert forall|i: int| 0 <= i < id@.len() implies is_id_char(#[trigger] id@[i]) == plain(
        id@[i],
    ) by {}
    if forall|i: int| 0 <= i < id@.len() ==> plain(#[trigger] id@[i]) {
        assert forall|i: int| 0 <= i < id@.len() implies is_id_char(#[trigger] id@[i]) by {
            assert(plain(id@[i]));
        }
    }
}

/// A workspace lies under the root by its own id, and its home directory in it;
/// both are refused exactly where the id is.
pub proof fn law_workspaces_lie_under_the_root(
    manager: &WorkspaceManager,
    id: &str,
    dir: Result<String>,
    home: Result<String>,
)
    requires
        call_ensures(WorkspaceManager::workspace_dir, (manager, id), dir),
        call_ensures(WorkspaceManager::home_dir, (manager, id), home),
    ensures
        dir is Ok <==> valid_id(id@),
        home is Ok <==> valid_id(id@),
        dir matches Err(e) ==> e is InvalidWorkspaceId,
        home matches Err(e) ==> e is InvalidWorkspaceId,
        dir matches Ok(d) ==> d@ == dir_of(manager.cfg.root@, id@),
        home matches Ok(h) ==> h@ == home_of(manager.cfg.root@, id@),
        manager.cfg.root@.len() > 0 && manager.cfg.root@.last() != '/' ==> {
            &&& dir matches Ok(d) ==> d@ == manager.cfg.root@ + seq!['/'] + id@
            &&& home matches Ok(h) ==> h@ == manager.cfg.root@ + seq!['/'] + id@ + "/home"@
        },
{
    if valid_id(id@) {
        lemma_id_is_element(id@);
        assert(id@.contains(id@[0]));
        assert(id@.contains(id@[id@.len() - 1]));
        reveal_strlit("home");
        reveal_strlit("/home");
        let d = dir_of(manager.cfg.root@, id@);
        assert("/home"@ =~= seq!['/'] + "home"@);
        assert(d + ("/home"@) =~= d + seq!['/'] + "home"@);
        assert("home"@[0] == 'h');
    }
}

/// A path that a caller names is accepted exactly where its normal form, taken
/// from the home directory, has the components of the home directory in front,
/// and that is what it is resolved to.
pub proof fn law_paths_are_resolved_from_home(
    manager: &WorkspaceManager,
    id: &str,
    relative: &str,
    r: Result<String>,
)
    requires
        call_ensures(WorkspaceManager::resolve_path, (manager, id, relative), r),
    ensures
        ({
            let home = home_of(manager.cfg.root@, id@);
            let there = clean(joined(home, relative@));
            let inside = components(home).len() <= components(there).len() && forall|i: int|
                0 <= i < components(home).len() ==> components(home)[i] == #[trigger] components(
                    there,
                )[i];
            &&& r is Ok <==> valid_id(id@) && inside
            &&& r matches Ok(path) ==> path@ == there
            &&& !valid_id(id@) ==> r is Err && r->Err_0 is InvalidWorkspaceId
            &&& valid_id(id@) && !inside ==> r is Err && r->Err_0 is PathEscape
                && r->Err_0->PathEscape_0@ == relative@
            &&& text_outcome(r) == resolved(manager.cfg.root@, id@, relative@)
        }),
{
    let home = home_of(manager.cfg.root@, id@);
    let there = clean(joined(home, relative@));
    let part = components(home);
    let full = components(there);
    if is_under(there, home) {
        assert forall|i: int| 0 <= i < part.len() implies part[i] == #[trigger] full[i] by {
            assert(full.subrange(0, part.len() as int)[i] == full[i]);
        }
    }
    if part.len() <= full.len() && forall|i: int|
        0 <= i < part.len() ==> part[i] == #[trigger] full[i] {
        assert(part =~= full.subrange(0, part.len() as int));
    }
}

/// A home directory is opened to everyone exactly where it could not be given
/// away, and any other failure is reported.
pub proof fn law_home_is_given_away_or_opened(
    manager: &WorkspaceManager,
    id: &str,
    chown: ChownOutcome,
    r: Result<EnsuredHome>,
)
    requires
        call_ensures(WorkspaceManager::ensure_home, (manager, id, chown), r),
    ensures
        r is Ok <==> valid_id(id@) && !(chown is Failed),
        r matches Ok(home) ==> {
            &&& home.path@ == home_of(manager.cfg.root@, id@)
            &&& home.access == HomeAccess::OpenToAll <==> chown is Denied
            &&& home.access == HomeAccess::Owned <==> chown is Done
        },
        valid_id(id@) && chown is Failed ==> (r matches Err(e) && (e matches Error::Io(m) && m@
            == chown->Failed_0@)),
        !valid_id(id@) ==> r matches Err(Error::InvalidWorkspaceId),
{
}

/// Deleting a workspace says whether there was one, and a failure is reported.
pub proof fn law_deleting_says_whether_there_was_one(
    manager: &WorkspaceManager,
    id: &str,
    removed: RemoveOutcome,
    r: Result<bool>,
)
    requires
        call_ensures(WorkspaceManager::delete, (manager, id, removed), r),
    ensures
        r == Ok::<bool, Error>(true) <==> valid_id(id@) && removed is Removed,
        r == Ok::<bool, Error>(false) <==> valid_id(id@) && removed is NotFound,
        !valid_id(id@) ==> r matches Err(Error::InvalidWorkspaceId),
        valid_id(id@) && removed is Failed ==> (r matches Err(e) && (e matches Error::Io(m) && m@
            == removed->Failed_0@)),
{
}

/// A manager works with the settings it was given.
pub proof fn law_manager_is_as_configured(cfg: WorkspaceConfig, manager: WorkspaceManager)
    requires
        call_ensures(WorkspaceManager::new, (cfg,), manager),
    ensures
        manager.cfg == cfg,
{
}

} // verus!
