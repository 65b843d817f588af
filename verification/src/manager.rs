//! The file manager: where the session stands in the tree, what the
//! directory there holds, which item is selected, and which files the
//! session itself has created.

use crate::entity::{
    content_of, entities_view, entries_view, Action, DirEntry, DirEntryView, EntityView,
    ManagerEntity, Respond, RespondView,
};
use crate::error::{Error, ErrorView, Reason};
use crate::host::{
    answers, asked_view, mismatch_text, Progress, ProgressView, Reply, ReplyView, Request,
    RequestView,
};
use crate::listing::{
    all_listed_in, create_entities, lemma_listing_paths, lemma_listing_well_listed, listed_in,
    listing, well_listed,
};
use crate::path::{
    below, child_of, last_name, lemma_below, lemma_parent_of_child, parent_of, path_text, Path,
    PathView,
};
use crate::text::{string_from_utf8, text_of, text_view};
use vstd::prelude::*;
use vstd::slice::slice_to_vec;
use vstd::string::{StringExecFns, StringSliceAdditionalSpecFns};
use vstd::utf8::encode_utf8;

verus! {

/// The state of a file manager as plain values.
pub struct ManagerView {
    /// The directory that the session started in.
    pub root: PathView,
    /// The directory that the session stands in.
    pub current: PathView,
    /// What the host last found in the current directory.
    pub files: Seq<DirEntryView>,
    /// The listing shown.
    pub entities: Seq<EntityView>,
    /// The index of the selected item, if one is selected.
    pub selected: Option<int>,
    /// The files that the session has created and not deleted, each once,
    /// oldest first.
    pub created: Seq<EntityView>,
    /// The request that the manager has handed out and waits to be answered.
    pub asked: Option<RequestView>,
}

/// What holds of every file manager: it stands at its root or below, every
/// entry that the host last found lies directly in the directory where it
/// stands, it shows the listing of these entries, the selection points into
/// that listing, only files count as created and none counts twice, and a
/// directory that it has asked for lies at the root or below.
pub open spec fn valid(m: ManagerView) -> bool {
    &&& below(m.current, m.root)
    &&& listed_in(m.files, m.current)
    &&& m.entities == listing(m.files, m.current == m.root)
    &&& match m.selected {
        Some(i) => 0 <= i < m.entities.len(),
        None => true,
    }
    &&& forall|i: int| 0 <= i < m.created.len() ==> #[trigger] m.created[i] is TextFile
    &&& m.created.no_duplicates()
    &&& match m.asked {
        Some(RequestView::List(dir)) => below(dir, m.root),
        _ => true,
    }
}

/// The manager once it has handed out `request`.
pub open spec fn asking(m: ManagerView, request: RequestView) -> ManagerView {
    ManagerView { asked: Some(request), ..m }
}

/// The manager once it waits for nothing.
pub open spec fn idle(m: ManagerView) -> ManagerView {
    ManagerView { asked: None, ..m }
}

/// The manager after a decision that has come to `progress`: it remembers
/// the request where there is one, and has not changed where there is none.
pub open spec fn after_decision(m: ManagerView, progress: ProgressView) -> ManagerView {
    match progress {
        ProgressView::Pending(request) => asking(m, request),
        ProgressView::Finished(_) => m,
    }
}

/// The selection after a step down the listing: the first item from no
/// selection, the next item otherwise, the first again after the last.
pub open spec fn next_index(selected: Option<int>, len: int) -> Option<int> {
    if len == 0 {
        selected
    } else {
        match selected {
            Some(i) => Some((i + 1) % len),
            None => Some(0),
        }
    }
}

/// The selection after a step up the listing: the last item from no
/// selection, the one before otherwise, the last again before the first.
pub open spec fn previous_index(selected: Option<int>, len: int) -> Option<int> {
    if len == 0 {
        selected
    } else {
        match selected {
            Some(i) => if i == 0 {
                Some(len - 1)
            } else {
                Some(i - 1)
            },
            None => Some(len - 1),
        }
    }
}

/// The selection that survives a new listing: the same index where the
/// listing still has it.
pub open spec fn kept_index(selected: Option<int>, len: int) -> Option<int> {
    match selected {
        Some(i) => if i < len {
            Some(i)
        } else {
            None
        },
        None => None,
    }
}

/// An index as a mathematical integer.
pub open spec fn index_view(selected: Option<usize>) -> Option<int> {
    match selected {
        Some(i) => Some(i as int),
        None => None,
    }
}

/// The title above the listing: the current directory as text, or a
/// stand-in where its path is not text.
pub open spec fn title_of(m: ManagerView) -> Seq<char> {
    match path_text(m.current) {
        Some(text) => text,
        None => "Folder"@,
    }
}

/// The selected item.
pub open spec fn selected_entity(m: ManagerView) -> Option<EntityView> {
    match m.selected {
        Some(i) => Some(m.entities[i]),
        None => None,
    }
}

/// An optional listing item as plain values.
pub open spec fn entity_view(entity: Option<ManagerEntity>) -> Option<EntityView> {
    match entity {
        Some(e) => Some(e@),
        None => None,
    }
}

/// The name that an item is shown by: the last name of its path, where the
/// path has one and the name is text. A way out has none.
pub open spec fn entity_name(entity: EntityView) -> Option<Seq<char>> {
    match entity {
        EntityView::TextFile(path) | EntityView::Folder(path) => match last_name(path) {
            Some(name) => text_of(name),
            None => None,
        },
        EntityView::Action(_) => None,
    }
}

/// The name of the selected item.
pub open spec fn selected_name(m: ManagerView) -> Option<Seq<char>> {
    match selected_entity(m) {
        Some(entity) => entity_name(entity),
        None => None,
    }
}

/// The manager after a move to `dir`, where the host found `files`.
pub open spec fn moved(m: ManagerView, dir: PathView, files: Seq<DirEntryView>) -> ManagerView {
    ManagerView {
        current: dir,
        files,
        entities: listing(files, dir == m.root),
        selected: None,
        ..m
    }
}

/// The manager after a fresh look at its directory, where the host now
/// found `files`.
pub open spec fn refreshed(m: ManagerView, files: Seq<DirEntryView>) -> ManagerView {
    let entities = listing(files, m.current == m.root);
    ManagerView { files, entities, selected: kept_index(m.selected, entities.len() as int), ..m }
}

/// What acting on the selected item comes to. A file is to be read, a folder
/// to be entered; Back leads one level up where there is one, Root to the
/// root. Without a selection, or with Back where no level is left, nothing
/// is to be done.
pub open spec fn action_of(m: ManagerView) -> ProgressView {
    match selected_entity(m) {
        Some(EntityView::TextFile(path)) => ProgressView::Pending(RequestView::Read(path)),
        Some(EntityView::Folder(path)) => ProgressView::Pending(RequestView::List(path)),
        Some(EntityView::Action(Action::Back)) => match parent_of(m.current) {
            Some(parent) => ProgressView::Pending(RequestView::List(parent)),
            None => ProgressView::Finished(RespondView::Nothing),
        },
        Some(EntityView::Action(Action::Root)) => ProgressView::Pending(
            RequestView::List(m.root),
        ),
        None => ProgressView::Finished(RespondView::Nothing),
    }
}

/// What deleting the selected item comes to. Only a file that the session
/// created may go; a folder, a way out and any other file are refused.
/// Without a selection the manager only looks at its directory afresh.
pub open spec fn deletion_of(m: ManagerView) -> Result<RequestView, ErrorView> {
    match selected_entity(m) {
        Some(EntityView::TextFile(path)) => if m.created.contains(EntityView::TextFile(path)) {
            Ok(RequestView::Remove(path))
        } else {
            Err(ErrorView::NotDeletable(Reason::NotCreated))
        },
        Some(EntityView::Folder(_)) => Err(ErrorView::NotDeletable(Reason::Folder)),
        Some(EntityView::Action(_)) => Err(ErrorView::NotDeletable(Reason::Action)),
        None => Ok(RequestView::Refresh(m.current)),
    }
}

/// The manager after the host has written the file at `path`: the file
/// counts as created, once, however often it is written.
pub open spec fn written(m: ManagerView, path: PathView) -> ManagerView {
    if m.created.contains(EntityView::TextFile(path)) {
        m
    } else {
        ManagerView { created: m.created.push(EntityView::TextFile(path)), ..m }
    }
}

/// The manager without the first of its created files that equals `entity`.
pub open spec fn removed_entity(m: ManagerView, entity: EntityView) -> ManagerView {
    ManagerView { created: m.created.remove_value(entity), ..m }
}

/// The manager after the host has removed the file at `path`.
pub open spec fn removed(m: ManagerView, path: PathView) -> ManagerView {
    removed_entity(m, EntityView::TextFile(path))
}

/// The manager after a reply, and what the operation has come to.
///
/// The reply is taken as the answer to the request that the manager has
/// handed out last. A file read gives its content. A directory listed is
/// moved to, or shown afresh. A file written counts as created from now on,
/// a file removed no longer, and both go on to a fresh look at the
/// directory. A failure is handed on as an error. A reply that nothing was
/// asked for, one of the wrong kind, and a listing with an entry that does
/// not lie directly in the directory listed are met with an error. Every
/// error ends the operation and changes nothing else.
pub open spec fn resumed(m: ManagerView, reply: ReplyView) -> (
    ManagerView,
    Result<ProgressView, ErrorView>,
) {
    let refused = (idle(m), Err::<ProgressView, ErrorView>(ErrorView::Filesystem(mismatch_text())));
    let again = RequestView::Refresh(m.current);
    match (m.asked, reply) {
        (Some(_), ReplyView::Failed(text)) => (idle(m), Err(ErrorView::Filesystem(text))),
        (Some(RequestView::Read(_)), ReplyView::Content(data)) => (
            idle(m),
            Ok(ProgressView::Finished(content_of(data))),
        ),
        (Some(RequestView::List(dir)), ReplyView::Entries(files)) => if listed_in(files, dir) {
            (moved(idle(m), dir, files), Ok(ProgressView::Finished(RespondView::Nothing)))
        } else {
            refused
        },
        (Some(RequestView::Refresh(_)), ReplyView::Entries(files)) => if listed_in(
            files,
            m.current,
        ) {
            (refreshed(idle(m), files), Ok(ProgressView::Finished(RespondView::Nothing)))
        } else {
            refused
        },
        (Some(RequestView::Write(path, _)), ReplyView::Done) => (
            asking(written(m, path), again),
            Ok(ProgressView::Pending(again)),
        ),
        (Some(RequestView::Remove(path)), ReplyView::Done) => (
            asking(removed(m, path), again),
            Ok(ProgressView::Pending(again)),
        ),
        _ => refused,
    }
}

/// A request to write `data` to a file directly under `dir`.
pub open spec fn writes_into(request: RequestView, dir: PathView, data: Seq<u8>) -> bool {
    match request {
        RequestView::Write(path, content) => parent_of(path) == Some(dir) && content == data,
        _ => false,
    }
}

/// The result of an operation as plain values.
pub open spec fn outcome_view(outcome: Result<Progress, Error>) -> Result<
    ProgressView,
    ErrorView,
> {
    match outcome {
        Ok(progress) => Ok(progress@),
        Err(error) => Err(error@),
    }
}

/// The result of a decision as plain values.
pub open spec fn decision_view(decision: Result<Request, Error>) -> Result<
    RequestView,
    ErrorView,
> {
    match decision {
        Ok(request) => Ok(request@),
        Err(error) => Err(error@),
    }
}

/// The selection after `count` steps down a listing of `len` items.
pub open spec fn steps_down(selected: Option<int>, len: int, count: nat) -> Option<int>
    decreases count,
{
    if count == 0 {
        selected
    } else {
        next_index(steps_down(selected, len, (count - 1) as nat), len)
    }
}

/// From no selection, `count` steps down a listing lead to the item at
/// `count - 1`, counted round the listing.
pub proof fn lemma_steps_from_unset(len: int, count: nat)
    requires
        len >= 1,
        count >= 1,
    ensures
        steps_down(None, len, count) == Some((count - 1) % len),
    decreases count,
{
    if count > 1 {
        lemma_steps_from_unset(len, (count - 1) as nat);
        let before = (count - 2) % len;
        assert((before + 1) % len == (count - 1) % len) by (nonlinear_arith)
            requires
                len >= 1,
                count >= 2,
                before == (count - 2) % len,
        ;
    } else {
        assert(steps_down(None, len, 0) == None::<int>);
        assert(0int % len == 0) by (nonlinear_arith)
            requires
                len >= 1,
        ;
    }
}

/// As many steps down as the listing has items lead from any item back to it.
pub proof fn lemma_steps_cycle(at: int, len: int)
    requires
        0 <= at < len,
    ensures
        steps_down(Some(at), len, len as nat) == Some(at),
{
    lemma_steps_from(at, len, len as nat);
    assert((at + len) % len == at) by (nonlinear_arith)
        requires
            0 <= at < len,
    ;
}

/// From the item at `at`, `count` steps down a listing lead to the item at
/// `at + count`, counted round the listing.
pub proof fn lemma_steps_from(at: int, len: int, count: nat)
    requires
        0 <= at < len,
    ensures
        steps_down(Some(at), len, count) == Some((at + count) % len),
    decreases count,
{
    if count > 0 {
        lemma_steps_from(at, len, (count - 1) as nat);
        let before = (at + count - 1) % len;
        assert((before + 1) % len == (at + count) % len) by (nonlinear_arith)
            requires
                len >= 1,
                at >= 0,
                count >= 1,
                before == (at + count - 1) % len,
        ;
    } else {
        assert(at % len == at) by (nonlinear_arith)
            requires
                0 <= at < len,
        ;
    }
}

/// In a listing of one item, one step down from no selection leads to the
/// first item, and every further step leads there again.
pub proof fn lemma_single_item_steps(count: nat)
    requires
        count >= 1,
    ensures
        steps_down(None, 1, count) == Some(0int),
{
    lemma_steps_from_unset(1, count);
}

/// A step up from the first item leads to the last, and a step down from the
/// last leads to the first.
pub proof fn lemma_cursor_wraps(len: int)
    requires
        len >= 1,
    ensures
        previous_index(Some(0), len) == Some(len - 1),
        next_index(Some(len - 1), len) == Some(0int),
        previous_index(None, len) == Some(len - 1),
        next_index(None, len) == Some(0int),
{
    assert((len - 1 + 1) % len == 0) by (nonlinear_arith)
        requires
            len >= 1,
    ;
}

/// A valid manager shows a well-formed listing: at the root no way out, and
/// elsewhere Back and Root at the end and nowhere else.
pub proof fn lemma_valid_listing(m: ManagerView)
    requires
        valid(m),
    ensures
        well_listed(m.entities, m.current == m.root),
        m.current == m.root ==> forall|i: int|
            0 <= i < m.entities.len() ==> !(#[trigger] m.entities[i] is Action),
        m.current != m.root ==> m.entities.len() >= 2 && m.entities[m.entities.len() - 2]
            == EntityView::Action(Action::Back) && m.entities[m.entities.len() - 1]
            == EntityView::Action(Action::Root),
{
    lemma_listing_well_listed(m.files, m.current == m.root);
    if m.current != m.root {
        let n = m.entities.len() - 2;
        assert(m.entities.skip(n)[0] == m.entities[n]);
        assert(m.entities.skip(n)[1] == m.entities[n + 1]);
    }
}

/// Acting on the selected item keeps the manager valid: whatever directory
/// it asks for lies at the root or below.
pub proof fn lemma_action_keeps_valid(m: ManagerView)
    requires
        valid(m),
    ensures
        valid(after_decision(m, action_of(m))),
{
    lemma_listing_paths(m.files, m.current == m.root, m.current);
    lemma_below(m.current, m.root);
    lemma_valid_listing(m);
    match m.selected {
        Some(i) => {
            let picked = m.entities[i];
        },
        None => {},
    }
}

/// Moving to a directory at the root or below, of which every entry lies
/// directly in it, keeps the manager valid; so does a fresh look at the
/// directory where it stands.
pub proof fn lemma_moving_keeps_valid(m: ManagerView, dir: PathView, files: Seq<DirEntryView>)
    requires
        valid(m),
    ensures
        below(dir, m.root) && listed_in(files, dir) ==> valid(moved(m, dir, files)),
        listed_in(files, m.current) ==> valid(refreshed(m, files)),
        valid(idle(m)),
{
}

/// Back leads up by exactly one level. It is shown only away from the root,
/// where a level is left: the manager asks for the directory whose path is
/// the current one without its last name, which lies at the root or below,
/// and stands there once the host has listed it.
pub proof fn lemma_back_goes_up(m: ManagerView, files: Seq<DirEntryView>)
    requires
        valid(m),
        selected_entity(m) == Some(EntityView::Action(Action::Back)),
    ensures
        m.current != m.root,
        m.current.names.len() > 0,
        ({
            let parent = PathView {
                absolute: m.current.absolute,
                names: m.current.names.drop_last(),
            };
            let waiting = asking(m, RequestView::List(parent));
            &&& action_of(m) == ProgressView::Pending(RequestView::List(parent))
            &&& below(parent, m.root)
            &&& listed_in(files, parent) ==> resumed(waiting, ReplyView::Entries(files)).0.current
                == parent && valid(resumed(waiting, ReplyView::Entries(files)).0)
        }),
{
    lemma_valid_listing(m);
    lemma_below(m.current, m.root);
    lemma_action_keeps_valid(m);
}

/// Where the manager stands at the top, with no level left above, Back asks
/// for nothing.
pub proof fn lemma_back_at_the_top(m: ManagerView)
    requires
        selected_entity(m) == Some(EntityView::Action(Action::Back)),
        parent_of(m.current) is None,
    ensures
        action_of(m) == ProgressView::Finished(RespondView::Nothing),
        after_decision(m, action_of(m)) == m,
{
}

/// Root leads to the root from wherever the manager stands.
pub proof fn lemma_root_goes_home(m: ManagerView, files: Seq<DirEntryView>)
    requires
        valid(m),
        selected_entity(m) == Some(EntityView::Action(Action::Root)),
    ensures
        action_of(m) == ProgressView::Pending(RequestView::List(m.root)),
        ({
            let waiting = asking(m, RequestView::List(m.root));
            listed_in(files, m.root) ==> resumed(waiting, ReplyView::Entries(files)).0.current
                == m.root && resumed(waiting, ReplyView::Entries(files)).0.entities == listing(
                files,
                true,
            )
        }),
{
}

/// A reply that does not answer the request is refused, and so is a reply
/// that nothing was asked for.
pub proof fn lemma_wrong_reply_is_refused(m: ManagerView, reply: ReplyView)
    requires
        match m.asked {
            Some(request) => !answers(request, reply),
            None => true,
        },
    ensures
        resumed(m, reply) == (
            idle(m),
            Err::<ProgressView, ErrorView>(ErrorView::Filesystem(mismatch_text())),
        ),
{
}

/// Whether the session has created the file at `path` and not deleted it
/// since.
pub open spec fn deletable(m: ManagerView, path: PathView) -> bool {
    m.created.contains(EntityView::TextFile(path))
}

/// What may be deleted: of the selected item, a file goes exactly when the
/// session has created it and not deleted it since; a folder and a way out
/// never go.
pub proof fn lemma_deletion_gating(m: ManagerView)
    requires
        valid(m),
    ensures
        match selected_entity(m) {
            Some(EntityView::TextFile(path)) => if deletable(m, path) {
                deletion_of(m) == Ok::<RequestView, ErrorView>(RequestView::Remove(path))
            } else {
                deletion_of(m) == Err::<RequestView, ErrorView>(
                    ErrorView::NotDeletable(Reason::NotCreated),
                )
            },
            Some(EntityView::Folder(_)) => deletion_of(m) == Err::<RequestView, ErrorView>(
                ErrorView::NotDeletable(Reason::Folder),
            ),
            Some(EntityView::Action(_)) => deletion_of(m) == Err::<RequestView, ErrorView>(
                ErrorView::NotDeletable(Reason::Action),
            ),
            None => deletion_of(m) is Ok,
        },
{
}

/// A sequence without its first `e`: where nothing occurs twice, `e` is
/// gone, nothing occurs twice still, and all that is left was there before.
proof fn lemma_remove_value(s: Seq<EntityView>, e: EntityView)
    requires
        s.no_duplicates(),
    ensures
        !s.remove_value(e).contains(e),
        s.remove_value(e).no_duplicates(),
        forall|i: int|
            0 <= i < s.remove_value(e).len() ==> s.contains(#[trigger] s.remove_value(e)[i]),
        !s.contains(e) ==> s.remove_value(e) == s,
{
    s.index_of_first_ensures(e);
    match s.index_of_first(e) {
        Some(at) => {
            let rest = s.remove(at);
            assert forall|i: int| 0 <= i < rest.len() implies rest[i] != e && s.contains(
                #[trigger] rest[i],
            ) by {
                if i < at {
                    assert(rest[i] == s[i]);
                } else {
                    assert(rest[i] == s[i + 1]);
                }
            }
            assert forall|i: int, j: int|
                0 <= i < rest.len() && 0 <= j < rest.len() && i != j implies rest[i]
                != rest[j] by {
                let a = if i < at {
                    i
                } else {
                    i + 1
                };
                let b = if j < at {
                    j
                } else {
                    j + 1
                };
                assert(rest[i] == s[a] && rest[j] == s[b]);
            }
        },
        None => {},
    }
}

/// Writing and removing files keeps the manager valid. A file that the host
/// has written counts as created; a file that the host has removed does not.
pub proof fn lemma_record_keeps_valid(m: ManagerView, path: PathView)
    requires
        valid(m),
    ensures
        valid(written(m, path)),
        deletable(written(m, path), path),
        valid(removed(m, path)),
        !deletable(removed(m, path), path),
{
    let file = EntityView::TextFile(path);
    lemma_remove_value(m.created, file);
    let fewer = m.created.remove_value(file);
    assert forall|i: int| 0 <= i < fewer.len() implies #[trigger] fewer[i] is TextFile by {
        let x = fewer[i];
        assert(m.created.contains(x));
    }
    if !m.created.contains(file) {
        let more = m.created.push(file);
        assert(more[m.created.len() as int] == file);
        assert forall|i: int| 0 <= i < more.len() implies #[trigger] more[i] is TextFile by {
            if i < m.created.len() {
                assert(more[i] == m.created[i]);
            }
        }
        assert forall|i: int, j: int|
            0 <= i < more.len() && 0 <= j < more.len() && i != j implies more[i] != more[j] by {
            if i < m.created.len() {
                assert(more[i] == m.created[i]);
            }
            if j < m.created.len() {
                assert(more[j] == m.created[j]);
            }
        }
    }
}

/// A file that the session creates may be deleted once, however often the
/// session has written it: it is deletable when the host has written it,
/// and no longer when the host has removed it. Looking at the directory
/// afresh and moving about change nothing in that.
pub proof fn lemma_deletable_once(m: ManagerView, path: PathView, files: Seq<DirEntryView>)
    requires
        valid(m),
    ensures
        deletable(written(m, path), path),
        written(written(m, path), path) == written(m, path),
        !deletable(removed(written(m, path), path), path),
        !deletable(removed(written(written(m, path), path), path), path),
        deletable(refreshed(written(m, path), files), path),
        deletable(moved(written(m, path), m.current, files), path),
        !deletable(refreshed(removed(written(m, path), path), files), path),
{
    lemma_record_keeps_valid(m, path);
    lemma_record_keeps_valid(written(m, path), path);
}

/// Every reply leaves a valid manager valid.
pub proof fn lemma_resumed_keeps_valid(m: ManagerView, reply: ReplyView)
    requires
        valid(m),
    ensures
        valid(resumed(m, reply).0),
{
    match (m.asked, reply) {
        (Some(RequestView::Write(path, _)), ReplyView::Done) => {
            lemma_record_keeps_valid(m, path);
        },
        (Some(RequestView::Remove(path)), ReplyView::Done) => {
            lemma_record_keeps_valid(m, path);
        },
        _ => {},
    }
}

/// Calls `chrono::Utc::now` and formats the time with
/// `chrono::DateTime::to_rfc3339`. Trusted, and nothing is claimed of the
/// text: it depends on the clock.
#[verifier::external_body]
fn timestamp() -> String {
    chrono::Utc::now().to_rfc3339()
}

/// Where the manager stands and what it shows there. The four change
/// together whenever the manager moves.
struct Place {
    current: Path,
    files: Ghost<Seq<DirEntryView>>,
    entities: Vec<ManagerEntity>,
    selected: Option<usize>,
}

/// The file manager.
pub struct FileManager {
    root: Path,
    place: Place,
    created_entities: Vec<ManagerEntity>,
    asked: Option<Request>,
}

impl View for FileManager {
    type V = ManagerView;

    closed spec fn view(&self) -> ManagerView {
        ManagerView {
            root: self.root@,
            current: self.place.current@,
            files: self.place.files@,
            entities: entities_view(self.place.entities@),
            selected: index_view(self.place.selected),
            created: entities_view(self.created_entities@),
            asked: asked_view(self.asked),
        }
    }
}

impl FileManager {
    /// Whether the manager is valid. Every manager that this module hands
    /// out is, and stays so.
    pub open spec fn wf(&self) -> bool {
        valid(self@)
    }

    /// Builds the listing of a directory from the entries that the host found
    /// in it. `is_root` says whether the directory is the one that the session
    /// started in: everywhere else the listing ends with Back and Root.
    pub fn create_entities(files: Vec<DirEntry>, is_root: bool) -> (entities: Vec<ManagerEntity>)
        ensures
            entities_view(entities@) == listing(entries_view(files@), is_root),
    {
        create_entities(files, is_root)
    }

    /// A file manager that stands in `root`, where the host found `files`,
    /// each of them directly in `root`.
    pub fn new(root: Path, files: Vec<DirEntry>) -> (m: FileManager)
        requires
            listed_in(entries_view(files@), root@),
        ensures
            m@ == (ManagerView {
                root: root@,
                current: root@,
                files: entries_view(files@),
                entities: listing(entries_view(files@), true),
                selected: None,
                created: Seq::empty(),
                asked: None,
            }),
            m.wf(),
    {
        proof {
            lemma_below(root@, root@);
        }
        let ghost found = entries_view(files@);
        let current = root.clone();
        let created_entities: Vec<ManagerEntity> = Vec::new();
        assert(entities_view(created_entities@) =~= Seq::empty());
        let entities = create_entities(files, true);
        FileManager {
            root,
            place: Place { current, files: Ghost(found), entities, selected: None },
            created_entities,
            asked: None,
        }
    }

    /// The directory that the session started in.
    pub fn get_root(&self) -> (root: Path)
        ensures
            root@ == self@.root,
    {
        self.root.clone()
    }

    /// The directory that the session stands in.
    pub fn get_current(&self) -> (current: Path)
        ensures
            current@ == self@.current,
    {
        self.place.current.clone()
    }

    /// The listing shown.
    pub fn get_entities_ref(&self) -> (entities: &Vec<ManagerEntity>)
        ensures
            entities_view(entities@) == self@.entities,
    {
        &self.place.entities
    }

    /// The title above the listing: the current directory as text, or a
    /// stand-in where its path is not text.
    pub fn title(&self) -> (text: String)
        ensures
            text@ == title_of(self@),
    {
        match self.place.current.to_text() {
            Some(text) => text,
            None => String::from_str("Folder"),
        }
    }

    /// The index of the selected item.
    pub fn get_selected_id(&self) -> (id: Option<usize>)
        ensures
            index_view(id) == self@.selected,
    {
        self.place.selected
    }

    /// The selected item.
    pub fn get_selected_entity(&self) -> (entity: Option<ManagerEntity>)
        requires
            self.wf(),
        ensures
            entity_view(entity) == selected_entity(self@),
    {
        match self.place.selected {
            Some(id) => Some(self.place.entities[id].clone()),
            None => None,
        }
    }

    /// The name of the selected item: the last name of its path, if that is
    /// text. A way out has no name.
    pub fn get_selected_entity_name(&self) -> (name: Option<String>)
        requires
            self.wf(),
        ensures
            text_view(name) == selected_name(self@),
    {
        match self.place.selected {
            Some(id) => match &self.place.entities[id] {
                ManagerEntity::TextFile(path) | ManagerEntity::Folder(path) => {
                    match path.file_name() {
                        Some(name) => match string_from_utf8(slice_to_vec(name.as_slice())) {
                            Ok(text) => Some(text),
                            Err(_) => None,
                        },
                        None => None,
                    }
                },
                ManagerEntity::Action(_) => None,
            },
            None => None,
        }
    }

    /// Selects the next item, or the first after the last or from no
    /// selection. Does nothing on an empty listing.
    pub fn next(&mut self)
        requires
            old(self).wf(),
        ensures
            final(self)@ == (ManagerView {
                selected: next_index(old(self)@.selected, old(self)@.entities.len() as int),
                ..old(self)@
            }),
            final(self).wf(),
    {
        if self.place.entities.len() > 0 {
            self.place.selected = match self.place.selected {
                Some(value) => Some((value + 1) % self.place.entities.len()),
                None => Some(0),
            };
        }
    }

    /// Selects the item before, or the last before the first or from no
    /// selection. Does nothing on an empty listing.
    pub fn previous(&mut self)
        requires
            old(self).wf(),
        ensures
            final(self)@ == (ManagerView {
                selected: previous_index(old(self)@.selected, old(self)@.entities.len() as int),
                ..old(self)@
            }),
            final(self).wf(),
    {
        if self.place.entities.len() > 0 {
            self.place.selected = match self.place.selected {
                Some(0) => Some(self.place.entities.len() - 1),
                Some(value) => Some(value - 1),
                None => Some(self.place.entities.len() - 1),
            };
        }
    }

    /// Selects the item at `id` if the listing has one there, and says
    /// whether it has.
    pub fn select(&mut self, id: usize) -> (done: bool)
        requires
            old(self).wf(),
        ensures
            done == (id < old(self)@.entities.len()),
            done ==> final(self)@ == (ManagerView { selected: Some(id as int), ..old(self)@ }),
            !done ==> final(self)@ == old(self)@,
            final(self).wf(),
    {
        if id < self.place.entities.len() {
            self.place.selected = Some(id);
            true
        } else {
            false
        }
    }

    /// Moves to `dir`, a directory at the root or below, where the host found
    /// `files`, each of them directly in `dir`. Nothing is selected there.
    pub fn goto_dir(&mut self, dir: Path, files: Vec<DirEntry>)
        requires
            old(self).wf(),
            below(dir@, old(self)@.root),
            listed_in(entries_view(files@), dir@),
        ensures
            final(self)@ == moved(old(self)@, dir@, entries_view(files@)),
            final(self).wf(),
    {
        let is_root = dir == self.root;
        let ghost found = entries_view(files@);
        let entities = create_entities(files, is_root);
        self.place = Place { current: dir, files: Ghost(found), entities, selected: None };
    }

    /// Shows the current directory afresh, where the host now found `files`,
    /// each of them directly in it. The selection stays at its index where the new listing has that index,
    /// and is dropped otherwise.
    pub fn refresh(&mut self, files: Vec<DirEntry>)
        requires
            old(self).wf(),
            listed_in(entries_view(files@), old(self)@.current),
        ensures
            final(self)@ == refreshed(old(self)@, entries_view(files@)),
            final(self).wf(),
    {
        let selected = self.place.selected;
        let dir = self.place.current.clone();
        self.goto_dir(dir, files);
        match selected {
            Some(id) => {
                self.select(id);
            },
            None => {},
        }
    }

    /// Decides what acting on the selected item takes, and remembers the
    /// request that it hands out. All else stays as it is until the host has
    /// answered.
    pub fn action(&mut self) -> (progress: Progress)
        requires
            old(self).wf(),
        ensures
            progress@ == action_of(old(self)@),
            final(self)@ == after_decision(old(self)@, progress@),
            final(self).wf(),
    {
        proof {
            lemma_action_keeps_valid(self@);
        }
        let request = match self.place.selected {
            Some(id) => match &self.place.entities[id] {
                ManagerEntity::TextFile(path) => Some(Request::Read(path.clone())),
                ManagerEntity::Folder(path) => Some(Request::List(path.clone())),
                ManagerEntity::Action(Action::Back) => match self.place.current.parent() {
                    Some(parent) => Some(Request::List(parent)),
                    None => None,
                },
                ManagerEntity::Action(Action::Root) => Some(Request::List(self.root.clone())),
            },
            None => None,
        };
        match request {
            Some(request) => {
                self.asked = Some(request.clone());
                Progress::Pending(request)
            },
            None => Progress::Finished(Respond::Nothing),
        }
    }

    /// Where the item first stands among the files that the session has
    /// created and not deleted since.
    fn position(&self, entity: &ManagerEntity) -> (at: Option<usize>)
        ensures
            index_view(at) == self@.created.index_of_first(entity@),
    {
        proof {
            self@.created.index_of_first_ensures(entity@);
        }
        let mut i: usize = 0;
        while i < self.created_entities.len()
            invariant
                i <= self.created_entities@.len(),
                forall|j: int| 0 <= j < i ==> self@.created[j] != entity@,
            decreases self.created_entities@.len() - i,
        {
            if self.created_entities[i] == *entity {
                proof {
                    assert(self@.created[i as int] == entity@);
                    self@.created.index_of_first_ensures(entity@);
                    let first = self@.created.index_of_first(entity@)->0;
                    assert(self@.created[first] == entity@);
                }
                return Some(i);
            }
            i += 1;
        }
        proof {
            self@.created.index_of_first_ensures(entity@);
        }
        None
    }

    /// Whether the session has created the item and not deleted it since.
    pub fn is_created(&self, entity: &ManagerEntity) -> (r: bool)
        ensures
            r == self@.created.contains(entity@),
    {
        proof {
            self@.created.index_of_first_ensures(entity@);
        }
        self.position(entity).is_some()
    }

    /// Decides whether the selected item may be deleted, and what the
    /// deletion takes, and remembers the request that it hands out. A
    /// refusal changes nothing, and all else stays as it is until the host
    /// has answered.
    pub fn delete_selected(&mut self) -> (decision: Result<Request, Error>)
        requires
            old(self).wf(),
        ensures
            decision_view(decision) == deletion_of(old(self)@),
            final(self)@ == match deletion_of(old(self)@) {
                Ok(request) => asking(old(self)@, request),
                Err(_) => old(self)@,
            },
            final(self).wf(),
    {
        let decision = match self.place.selected {
            Some(id) => match &self.place.entities[id] {
                ManagerEntity::TextFile(path) => {
                    if self.is_created(&self.place.entities[id]) {
                        Ok(Request::Remove(path.clone()))
                    } else {
                        Err(Error::NotDeletable(Reason::NotCreated))
                    }
                },
                ManagerEntity::Folder(_) => Err(Error::NotDeletable(Reason::Folder)),
                ManagerEntity::Action(_) => Err(Error::NotDeletable(Reason::Action)),
            },
            None => Ok(Request::Refresh(self.place.current.clone())),
        };
        match decision {
            Ok(request) => {
                self.asked = Some(request.clone());
                Ok(request)
            },
            Err(error) => Err(error),
        }
    }

    /// The request to write `data` to the file by the name `name` in the
    /// current directory. The manager remembers it.
    pub fn create_file_named(&mut self, data: Vec<u8>, name: &str) -> (request: Request)
        requires
            old(self).wf(),
        ensures
            request@ == RequestView::Write(child_of(old(self)@.current, name.spec_bytes()), data@),
            final(self)@ == asking(old(self)@, request@),
            final(self).wf(),
    {
        let request = Request::Write(self.place.current.join(name.as_bytes()), data);
        self.asked = Some(request.clone());
        request
    }

    /// The request to write `data` to a new file in the current directory:
    /// by the given name, or by one made of the time of day. The manager
    /// remembers it.
    pub fn create_file(&mut self, data: Vec<u8>, file_name: Option<String>) -> (request: Request)
        requires
            old(self).wf(),
        ensures
            writes_into(request@, old(self)@.current, data@),
            file_name is Some ==> request@ == RequestView::Write(
                child_of(old(self)@.current, encode_utf8(file_name->0@)),
                data@,
            ),
            final(self)@ == asking(old(self)@, request@),
            final(self).wf(),
    {
        let name = match file_name {
            Some(name) => name,
            None => timestamp(),
        };
        proof {
            lemma_parent_of_child(self@.current, encode_utf8(name@));
        }
        self.create_file_named(data, name.as_str())
    }

    /// Takes the host's reply to the request that the manager has handed out
    /// last, and carries the operation on. A file read gives its content; a
    /// directory listed is moved to, or shown afresh; a file written counts
    /// as created from now on, a file removed no longer, and both ask for a
    /// fresh look at the directory. A failure is handed on as an error. A
    /// reply that nothing was asked for, a reply of the wrong kind and a
    /// listing with an entry from elsewhere are met with an error. An error
    /// ends the operation and changes nothing else.
    pub fn resume(&mut self, reply: Reply) -> (outcome: Result<Progress, Error>)
        requires
            old(self).wf(),
        ensures
            final(self)@ == resumed(old(self)@, reply@).0,
            outcome_view(outcome) == resumed(old(self)@, reply@).1,
            final(self).wf(),
    {
        proof {
            lemma_resumed_keeps_valid(self@, reply@);
        }
        let asked = self.asked.take();
        assert(self@ == idle(old(self)@));
        match (asked, reply) {
            (Some(_), Reply::Failed(text)) => Err(Error::Filesystem(text)),
            (Some(Request::Read(_)), Reply::Content(data)) => Ok(
                Progress::Finished(Respond::from_bytes(data)),
            ),
            (Some(Request::List(dir)), Reply::Entries(files)) => {
                if all_listed_in(&files, &dir) {
                    self.goto_dir(dir, files);
                    Ok(Progress::Finished(Respond::Nothing))
                } else {
                    Err(Self::mismatch())
                }
            },
            (Some(Request::Refresh(_)), Reply::Entries(files)) => {
                if all_listed_in(&files, &self.place.current) {
                    self.refresh(files);
                    Ok(Progress::Finished(Respond::Nothing))
                } else {
                    Err(Self::mismatch())
                }
            },
            (Some(Request::Write(path, _)), Reply::Done) => {
                let file = ManagerEntity::TextFile(path);
                if !self.is_created(&file) {
                    let ghost before = self@.created;
                    self.created_entities.push(file);
                    assert(self@.created =~= before.push(file@));
                }
                Ok(Progress::Pending(self.look_again()))
            },
            (Some(Request::Remove(path)), Reply::Done) => {
                self.forget(&ManagerEntity::TextFile(path));
                Ok(Progress::Pending(self.look_again()))
            },
            _ => Err(Self::mismatch()),
        }
    }

    /// The error that a reply is refused with.
    fn mismatch() -> (error: Error)
        ensures
            error@ == ErrorView::Filesystem(mismatch_text()),
    {
        Error::Filesystem(String::from_str("The reply does not answer the request"))
    }

    /// Hands out the request for a fresh look at the current directory, and
    /// remembers it.
    fn look_again(&mut self) -> (request: Request)
        ensures
            request@ == RequestView::Refresh(old(self)@.current),
            final(self)@ == asking(old(self)@, request@),
    {
        let request = Request::Refresh(self.place.current.clone());
        self.asked = Some(request.clone());
        request
    }

    /// Takes the first entry equal to `entity` off the record of created files.
    fn forget(&mut self, entity: &ManagerEntity)
        ensures
            final(self)@ == removed_entity(old(self)@, entity@),
    {
        proof {
            self@.created.index_of_first_ensures(entity@);
        }
        match self.position(entity) {
            Some(at) => {
                let ghost before = self@.created;
                self.created_entities.remove(at);
                assert(self@.created =~= before.remove(at as int));
            },
            None => {},
        }
    }
}

} // verus!
