//! The session: the manager, the viewer and the editor, the mode that says
//! which of them has the keyboard, and the error that the status line shows.
//!
//! A key either settles at once or leaves something for the host to do: a
//! request to the file system, which the host answers through `resume`. An
//! operation that fails leaves the mode as it was and shows its error until
//! the next operation succeeds.

use crate::cipher::valid_key;
use crate::editor::{finished_bytes, finished_text, Editor, EditorView};
use crate::entity::{DirEntry, DirEntryView, Respond, RespondView};
use crate::error::{Error, ErrorView};
use crate::host::{Progress, ProgressView, Reply, ReplyView, Request, RequestView};
use crate::editor::{buffer_typed, Buffer};
use crate::host::mismatch_text;
use crate::listing::{all_listed_in, listed_in};
use crate::manager::{
    action_of, asking, deletion_of, idle, lemma_action_keeps_valid, lemma_resumed_keeps_valid,
    next_index, previous_index, resumed, selected_name, writes_into, FileManager, ManagerView,
};
use crate::path::{Path, PathView};
use crate::text::text_of;
use crate::viewer::{
    blank, classified, scrolled_down, scrolled_up, ContentView, Viewer, ViewerEntity, ViewerView,
};
use crossterm::event::{KeyCode as TermCode, KeyEvent, KeyModifiers as Held};
use vstd::prelude::*;
use vstd::string::{StringExecFns, StringSliceAdditionalSpecFns};
use vstd::utf8::encode_utf8;

verus! {

/// Which part of the session has the keyboard.
#[derive(Clone, Copy, Debug, PartialEq, Eq, Structural)]
pub enum Mode {
    Manager,
    Viewer,
    Editor,
    /// The session is over.
    Exit,
}

/// The keys that the session tells apart.
#[derive(Clone, Copy, Debug, PartialEq, Eq, Structural)]
pub enum KeyCode {
    Esc,
    Up,
    Down,
    Enter,
    Char(char),
    /// Any other key.
    Other,
}

/// The modifier keys held down with a key.
#[derive(Clone, Copy, Debug, PartialEq, Eq, Structural)]
pub struct Modifiers {
    pub shift: bool,
    pub control: bool,
    pub alt: bool,
    /// The Super key.
    pub logo: bool,
    pub hyper: bool,
    pub meta: bool,
}

/// A key as the user pressed it.
#[derive(Clone, Copy, Debug, PartialEq, Eq, Structural)]
pub struct Key {
    pub code: KeyCode,
    pub modifiers: Modifiers,
}

/// What a key asks for.
#[derive(Clone, Copy, Debug, PartialEq, Eq, Structural)]
pub enum Command {
    /// Leave: the session from the manager, the editor for the manager.
    Quit,
    Up,
    Down,
    /// Act on the selected item.
    Confirm,
    /// Go to the editor as it is.
    OpenEditor,
    /// Go to the editor with a new, empty text.
    NewEditor,
    /// Delete the selected item.
    Delete,
    /// Save the text as it is.
    Save,
    /// Save the text encoded.
    SaveEncrypted,
    /// Nothing of the above.
    Other,
}

/// Whether a key is the given letter, small or capital.
pub open spec fn is_letter(code: KeyCode, small: char, capital: char) -> bool {
    code == KeyCode::Char(small) || code == KeyCode::Char(capital)
}

/// Whether Control is held down, and nothing else.
pub open spec fn control_alone(modifiers: Modifiers) -> bool {
    &&& modifiers.control
    &&& !modifiers.shift
    &&& !modifiers.alt
    &&& !modifiers.logo
    &&& !modifiers.hyper
    &&& !modifiers.meta
}

/// What a key asks for in a mode.
///
/// In the manager, whatever the modifiers: Esc quits, Up and Down move the
/// selection, Enter confirms, E opens the editor, N opens it with a new
/// text, D deletes. In the viewer Up and Down scroll. In the editor Esc
/// quits, whatever the modifiers, and S and E save, plain and encoded, when
/// Control is held alone.
pub open spec fn command_of(mode: Mode, key: Key) -> Command {
    match mode {
        Mode::Manager => if key.code == KeyCode::Esc {
            Command::Quit
        } else if key.code == KeyCode::Up {
            Command::Up
        } else if key.code == KeyCode::Down {
            Command::Down
        } else if key.code == KeyCode::Enter {
            Command::Confirm
        } else if is_letter(key.code, 'e', 'E') {
            Command::OpenEditor
        } else if is_letter(key.code, 'n', 'N') {
            Command::NewEditor
        } else if is_letter(key.code, 'd', 'D') {
            Command::Delete
        } else {
            Command::Other
        },
        Mode::Viewer => if key.code == KeyCode::Up {
            Command::Up
        } else if key.code == KeyCode::Down {
            Command::Down
        } else {
            Command::Other
        },
        Mode::Editor => if key.code == KeyCode::Esc {
            Command::Quit
        } else if is_letter(key.code, 's', 'S') && control_alone(key.modifiers) {
            Command::Save
        } else if is_letter(key.code, 'e', 'E') && control_alone(key.modifiers) {
            Command::SaveEncrypted
        } else {
            Command::Other
        },
        Mode::Exit => Command::Other,
    }
}

/// What a key asks for in a mode.
pub fn command(mode: Mode, key: Key) -> (command: Command)
    ensures
        command == command_of(mode, key),
{
    let held = key.modifiers;
    let control = held.control && !held.shift && !held.alt && !held.logo && !held.hyper
        && !held.meta;
    match mode {
        Mode::Manager => match key.code {
            KeyCode::Esc => Command::Quit,
            KeyCode::Up => Command::Up,
            KeyCode::Down => Command::Down,
            KeyCode::Enter => Command::Confirm,
            KeyCode::Char(c) => if c == 'e' || c == 'E' {
                Command::OpenEditor
            } else if c == 'n' || c == 'N' {
                Command::NewEditor
            } else if c == 'd' || c == 'D' {
                Command::Delete
            } else {
                Command::Other
            },
            KeyCode::Other => Command::Other,
        },
        Mode::Viewer => match key.code {
            KeyCode::Up => Command::Up,
            KeyCode::Down => Command::Down,
            _ => Command::Other,
        },
        Mode::Editor => match key.code {
            KeyCode::Esc => Command::Quit,
            KeyCode::Char(c) => if (c == 's' || c == 'S') && control {
                Command::Save
            } else if (c == 'e' || c == 'E') && control {
                Command::SaveEncrypted
            } else {
                Command::Other
            },
            _ => Command::Other,
        },
        Mode::Exit => Command::Other,
    }
}

/// The help text of a mode.
pub open spec fn help_of(mode: Mode) -> Seq<char> {
    match mode {
        Mode::Manager =>
            "Manager mode\nEsc: Quit, end the session; Down: Select next item; Up: Select previous item; Enter: Action on the selected item; E: Open the editor; N: Create a new editor instance; D: Delete the selected item"@,
        Mode::Viewer => "Viewer mode\nEsc: Quit; Down, Up: Scroll the viewer"@,
        Mode::Editor =>
            "Editor mode\nEsc: Quit; Ctrl + S: Save the text file; Ctrl + E: Encrypt, and save the encrypted file; Other: See TextArea help"@,
        Mode::Exit => "End the session"@,
    }
}

impl Mode {
    /// The help text of the mode: its name, and what its keys do.
    pub fn help(&self) -> (text: String)
        ensures
            text@ == help_of(*self),
    {
        match self {
            Mode::Manager => String::from_str(
                "Manager mode\nEsc: Quit, end the session; Down: Select next item; Up: Select previous item; Enter: Action on the selected item; E: Open the editor; N: Create a new editor instance; D: Delete the selected item",
            ),
            Mode::Viewer => String::from_str(
                "Viewer mode\nEsc: Quit; Down, Up: Scroll the viewer",
            ),
            Mode::Editor => String::from_str(
                "Editor mode\nEsc: Quit; Ctrl + S: Save the text file; Ctrl + E: Encrypt, and save the encrypted file; Other: See TextArea help",
            ),
            Mode::Exit => String::from_str("End the session"),
        }
    }
}

/// What a key leaves for the host to do.
#[derive(Debug)]
pub enum Outcome {
    /// Nothing: the key is dealt with.
    Settled,
    /// A request to the file system, to be answered through `resume`.
    Ask(Request),
    /// The key belongs to the editor's buffer.
    Type,
}

/// An outcome as plain values.
pub enum OutcomeView {
    Settled,
    Ask(RequestView),
    Type,
}

impl View for Outcome {
    type V = OutcomeView;

    open spec fn view(&self) -> OutcomeView {
        match self {
            Outcome::Settled => OutcomeView::Settled,
            Outcome::Ask(request) => OutcomeView::Ask(request@),
            Outcome::Type => OutcomeView::Type,
        }
    }
}

/// The state of a session as plain values.
pub struct SessionView {
    pub mode: Mode,
    pub manager: ManagerView,
    pub viewer: ViewerView,
    pub editor: EditorView,
    /// The error that the status line shows, if the last operation failed.
    pub status: Option<ErrorView>,
}

/// What holds of every session: its manager is valid, and the viewer and the
/// editor hold a key that the cipher can use.
pub open spec fn valid_session(s: SessionView) -> bool {
    &&& crate::manager::valid(s.manager)
    &&& valid_key(s.viewer.key)
    &&& valid_key(s.editor.key)
}

/// The session at its start: in the manager, at the root, showing nothing,
/// editing nothing, with no error.
pub open spec fn initial(root: PathView, files: Seq<DirEntryView>, key: Seq<u8>) -> SessionView {
    SessionView {
        mode: Mode::Manager,
        manager: ManagerView {
            root,
            current: root,
            files,
            entities: crate::listing::listing(files, true),
            selected: None,
            created: Seq::empty(),
            asked: None,
        },
        viewer: blank(key),
        editor: EditorView { buffer: None, key },
        status: None,
    }
}

/// The viewer once it shows `content` under `name`.
pub open spec fn shown(viewer: ViewerView, content: ContentView, name: Option<Seq<char>>)
    -> ViewerView {
    ViewerView { name, entity: classified(content, viewer.key), scroll: 0, key: viewer.key }
}

/// What a key does in the manager.
pub open spec fn manager_step(s: SessionView, command: Command, t: SessionView, out: OutcomeView)
    -> bool {
    match command {
        Command::Quit => t == (SessionView { mode: Mode::Exit, status: None, ..s }) && out
            == OutcomeView::Settled,
        Command::Up => t == (SessionView {
            manager: ManagerView {
                selected: previous_index(s.manager.selected, s.manager.entities.len() as int),
                ..s.manager
            },
            status: None,
            ..s
        }) && out == OutcomeView::Settled,
        Command::Down => t == (SessionView {
            manager: ManagerView {
                selected: next_index(s.manager.selected, s.manager.entities.len() as int),
                ..s.manager
            },
            status: None,
            ..s
        }) && out == OutcomeView::Settled,
        Command::Confirm => match action_of(s.manager) {
            ProgressView::Pending(request) => t == (SessionView {
                manager: asking(s.manager, request),
                ..s
            }) && out == OutcomeView::Ask(request),
            ProgressView::Finished(_) => t == (SessionView { status: None, ..s }) && out
                == OutcomeView::Settled,
        },
        Command::OpenEditor => t == (SessionView { mode: Mode::Editor, status: None, ..s })
            && out == OutcomeView::Settled,
        Command::NewEditor => t == (SessionView {
            mode: Mode::Editor,
            editor: EditorView { buffer: Some(seq![Seq::<char>::empty()]), ..s.editor },
            status: None,
            ..s
        }) && out == OutcomeView::Settled,
        Command::Delete => match deletion_of(s.manager) {
            Ok(request) => t == (SessionView { manager: asking(s.manager, request), ..s }) && out
                == OutcomeView::Ask(request),
            Err(error) => t == (SessionView { status: Some(error), ..s }) && out
                == OutcomeView::Settled,
        },
        _ => t == (SessionView { status: None, ..s }) && out == OutcomeView::Settled,
    }
}

/// What a key does in the viewer: Up and Down scroll by a line, and every
/// other key closes the view.
pub open spec fn viewer_step(s: SessionView, command: Command, t: SessionView, out: OutcomeView)
    -> bool {
    &&& out == OutcomeView::Settled
    &&& match command {
        Command::Up => t == (SessionView {
            viewer: ViewerView { scroll: scrolled_up(s.viewer.scroll, 1), ..s.viewer },
            status: None,
            ..s
        }),
        Command::Down => t == (SessionView {
            viewer: ViewerView { scroll: scrolled_down(s.viewer.scroll, 1), ..s.viewer },
            status: None,
            ..s
        }),
        _ => t == (SessionView {
            mode: Mode::Manager,
            viewer: blank(s.viewer.key),
            status: None,
            ..s
        }),
    }
}

/// What a key does in the editor. Saving takes the buffer away at once and
/// asks the host to write the text, plain or encoded, to a new file in the
/// manager's directory; the mode changes when the host has answered.
pub open spec fn editor_step(s: SessionView, command: Command, t: SessionView, out: OutcomeView)
    -> bool {
    match command {
        Command::Quit => t == (SessionView { mode: Mode::Manager, status: None, ..s }) && out
            == OutcomeView::Settled,
        Command::Save => {
            &&& out matches OutcomeView::Ask(request)
            &&& t == (SessionView {
                manager: asking(s.manager, request),
                editor: EditorView { buffer: None, ..s.editor },
                ..s
            })
            &&& writes_into(
                request,
                s.manager.current,
                encode_utf8(finished_text(s.editor.buffer)),
            )
        },
        Command::SaveEncrypted => {
            &&& out matches OutcomeView::Ask(request)
            &&& t == (SessionView {
                manager: asking(s.manager, request),
                editor: EditorView { buffer: None, ..s.editor },
                ..s
            })
            &&& writes_into(
                request,
                s.manager.current,
                finished_bytes(s.editor.buffer, s.editor.key),
            )
        },
        _ => t == (SessionView { status: None, ..s }) && out == if s.editor.buffer is Some {
            OutcomeView::Type
        } else {
            OutcomeView::Settled
        },
    }
}

/// What a key does to a session `s`: the session `t` afterwards, and what is
/// left for the host.
pub open spec fn update_spec(s: SessionView, key: Key, t: SessionView, out: OutcomeView) -> bool {
    let command = command_of(s.mode, key);
    match s.mode {
        Mode::Manager => manager_step(s, command, t, out),
        Mode::Viewer => viewer_step(s, command, t, out),
        Mode::Editor => editor_step(s, command, t, out),
        Mode::Exit => t == (SessionView { status: None, ..s }) && out == OutcomeView::Settled,
    }
}

/// What a reply does to a session: the session afterwards, and the request
/// that the host is to answer next, if the operation goes on.
///
/// An error is shown and the mode stays. Content that was read goes to the
/// viewer, under the name of the selected item, and the viewer takes over.
/// All else that completes leads to the manager.
pub open spec fn resume_spec(s: SessionView, reply: ReplyView) -> (
    SessionView,
    Option<RequestView>,
) {
    let (manager, outcome) = resumed(s.manager, reply);
    match outcome {
        Err(error) => (SessionView { manager, status: Some(error), ..s }, None),
        Ok(ProgressView::Pending(next)) => (SessionView { manager, ..s }, Some(next)),
        Ok(ProgressView::Finished(RespondView::Text(text))) => (
            SessionView {
                mode: Mode::Viewer,
                manager,
                viewer: shown(s.viewer, ContentView::Text(text), selected_name(manager)),
                status: None,
                ..s
            },
            None,
        ),
        Ok(ProgressView::Finished(RespondView::Bin(bin))) => (
            SessionView {
                mode: Mode::Viewer,
                manager,
                viewer: shown(s.viewer, ContentView::Binary(bin), selected_name(manager)),
                status: None,
                ..s
            },
            None,
        ),
        Ok(ProgressView::Finished(RespondView::Nothing)) => (
            SessionView { mode: Mode::Manager, manager, status: None, ..s },
            None,
        ),
    }
}

/// The session after the editor's buffer has taken a key: the buffer is
/// still there, with whatever lines the key has left, and nothing else has
/// changed.
pub open spec fn typed(s: SessionView, t: SessionView) -> bool {
    &&& t.editor.buffer is Some
    &&& t == (SessionView { editor: EditorView { buffer: t.editor.buffer, ..s.editor }, ..s })
}

/// What pressing `key` does to a session `s`, by way of the session `mid`
/// that `update` leaves with the outcome `out`: a key for the buffer is
/// given to the buffer, and a request is handed on.
pub open spec fn pressed(
    s: SessionView,
    key: Key,
    mid: SessionView,
    out: OutcomeView,
    t: SessionView,
    pending: Option<RequestView>,
) -> bool {
    &&& update_spec(s, key, mid, out)
    &&& match out {
        OutcomeView::Settled => t == mid && pending is None,
        OutcomeView::Ask(request) => t == mid && pending == Some(request),
        OutcomeView::Type => typed(mid, t) && pending is None,
    }
}

/// An optional request as plain values.
pub open spec fn pending_view(pending: Option<Request>) -> Option<RequestView> {
    match pending {
        Some(request) => Some(request@),
        None => None,
    }
}

/// An optional error as plain values.
pub open spec fn status_view(status: Option<Error>) -> Option<ErrorView> {
    match status {
        Some(error) => Some(error@),
        None => None,
    }
}

/// What the viewer makes of a file that holds `bytes`: text where the bytes
/// are text, and else whatever they are under the cipher.
pub open spec fn viewed(bytes: Seq<u8>, key: Seq<u8>) -> ContentView {
    match text_of(bytes) {
        Some(text) => ContentView::Text(text),
        None => classified(ContentView::Binary(bytes), key),
    }
}

/// A file that was read is shown by the viewer, as what `viewed` says, under
/// the name of the selected item and from its top, and the status line is
/// cleared.
pub proof fn lemma_read_is_viewed(s: SessionView, path: PathView, bytes: Seq<u8>)
    requires
        s.manager.asked == Some(RequestView::Read(path)),
    ensures
        ({
            let t = resume_spec(s, ReplyView::Content(bytes)).0;
            &&& t.mode == Mode::Viewer
            &&& t.viewer.entity == viewed(bytes, s.viewer.key)
            &&& t.viewer.name == selected_name(s.manager)
            &&& t.viewer.scroll == 0
            &&& t.status is None
            &&& t.manager == idle(s.manager)
            &&& t.editor == s.editor
        }),
{
}

/// A text saved as it is reads back as that text.
pub proof fn lemma_plain_text_reads_back(text: Seq<char>, key: Seq<u8>)
    ensures
        viewed(encode_utf8(text), key) == ContentView::Text(text),
{
    crate::text::lemma_text_of_bytes(text);
}

/// A text saved encoded reads back as that text, marked as decrypted,
/// unless its encoded bytes happen to be text themselves: then those are
/// shown.
pub proof fn lemma_encoded_text_reads_back(text: Seq<char>, key: Seq<u8>)
    requires
        valid_key(key),
    ensures
        ({
            let bytes = crate::cipher::encoded(encode_utf8(text), key);
            match text_of(bytes) {
                Some(other) => viewed(bytes, key) == ContentView::Text(other),
                None => viewed(bytes, key) == ContentView::DecryptedText(text),
            }
        }),
{
    crate::viewer::lemma_encoded_text_is_shown(text, key);
}

/// Once the session is over it stays over: no key leads out of Exit, and
/// none leaves anything to do.
pub proof fn lemma_exit_is_final(s: SessionView, key: Key, t: SessionView, out: OutcomeView)
    requires
        s.mode == Mode::Exit,
        update_spec(s, key, t, out),
    ensures
        t.mode == Mode::Exit,
        out == OutcomeView::Settled,
        t.manager == s.manager,
        t.viewer == s.viewer,
        t.editor == s.editor,
{
}

/// A request that fails changes nothing but the status line: the mode, the
/// viewer and the editor stay, the manager stays but for waiting no longer,
/// the host's text is shown, and the operation ends there.
pub proof fn lemma_failure_keeps_mode(s: SessionView, text: Seq<char>)
    requires
        s.manager.asked is Some,
    ensures
        resume_spec(s, ReplyView::Failed(text)) == (
            SessionView {
                manager: idle(s.manager),
                status: Some(ErrorView::Filesystem(text)),
                ..s
            },
            None::<RequestView>,
        ),
{
}

/// A reply that nothing was asked for changes nothing but the status line.
pub proof fn lemma_unasked_reply_is_refused(s: SessionView, reply: ReplyView)
    requires
        s.manager.asked is None,
    ensures
        resume_spec(s, reply) == (
            SessionView { status: Some(ErrorView::Filesystem(mismatch_text())), ..s },
            None::<RequestView>,
        ),
{
}

/// A refused deletion changes nothing but the status line, which names the
/// reason.
pub proof fn lemma_refusal_keeps_mode(s: SessionView, key: Key, t: SessionView, out: OutcomeView)
    requires
        s.mode == Mode::Manager,
        command_of(s.mode, key) == Command::Delete,
        deletion_of(s.manager) is Err,
        update_spec(s, key, t, out),
    ensures
        t == (SessionView { status: Some(deletion_of(s.manager)->Err_0), ..s }),
        t.status->0 is NotDeletable,
        out == OutcomeView::Settled,
{
}

/// A key that settles without an error clears the status line.
pub proof fn lemma_success_clears_status(s: SessionView, key: Key, t: SessionView, out: OutcomeView)
    requires
        update_spec(s, key, t, out),
        out == OutcomeView::Settled,
        !(s.mode == Mode::Manager && command_of(s.mode, key) == Command::Delete),
    ensures
        t.status is None,
{
}

/// Every key leaves a valid session valid.
pub proof fn lemma_update_keeps_valid(s: SessionView, key: Key, t: SessionView, out: OutcomeView)
    requires
        valid_session(s),
        update_spec(s, key, t, out),
    ensures
        valid_session(t),
{
    let len = s.manager.entities.len() as int;
    if len > 0 {
        match s.manager.selected {
            Some(i) => {
                assert(0 <= (i + 1) % len < len) by (nonlinear_arith)
                    requires
                        0 <= i < len,
                ;
            },
            None => {},
        }
    }
    lemma_action_keeps_valid(s.manager);
}

/// Every reply leaves a valid session valid.
pub proof fn lemma_resume_keeps_valid(s: SessionView, reply: ReplyView)
    requires
        valid_session(s),
    ensures
        valid_session(resume_spec(s, reply).0),
{
    lemma_resumed_keeps_valid(s.manager, reply);
}

/// The key that a key event of the terminal stands for.
pub uninterp spec fn event_key(event: KeyEvent) -> Key;

/// Whether a key goes to the editor's buffer: the session is in the editor,
/// the key is no command there, and the editor has a buffer.
pub open spec fn goes_to_buffer(s: SessionView, key: Key) -> bool {
    &&& s.mode == Mode::Editor
    &&& command_of(s.mode, key) == Command::Other
    &&& s.editor.buffer is Some
}

/// Reads a key event of the terminal: its `code`, and its `modifiers` by
/// `KeyModifiers::contains`. Trusted: the key read depends on the event
/// alone.
#[verifier::external_body]
fn key_of_event(event: &KeyEvent) -> (key: Key)
    ensures
        key == event_key(*event),
{
    let held = event.modifiers;
    let code = match event.code {
        TermCode::Esc => KeyCode::Esc,
        TermCode::Up => KeyCode::Up,
        TermCode::Down => KeyCode::Down,
        TermCode::Enter => KeyCode::Enter,
        TermCode::Char(c) => KeyCode::Char(c),
        _ => KeyCode::Other,
    };
    let (shift, control) = (held.contains(Held::SHIFT), held.contains(Held::CONTROL));
    let (alt, logo) = (held.contains(Held::ALT), held.contains(Held::SUPER));
    let (hyper, meta) = (held.contains(Held::HYPER), held.contains(Held::META));
    Key { code, modifiers: Modifiers { shift, control, alt, logo, hyper, meta } }
}

/// The session.
pub struct Session<'a> {
    mode: Mode,
    manager: FileManager,
    viewer: Viewer,
    editor: Editor<'a>,
    status: Option<Error>,
}

impl<'a> View for Session<'a> {
    type V = SessionView;

    closed spec fn view(&self) -> SessionView {
        SessionView {
            mode: self.mode,
            manager: self.manager@,
            viewer: self.viewer@,
            editor: self.editor@,
            status: status_view(self.status),
        }
    }
}

impl<'a> Session<'a> {
    /// Whether the session is valid. Every session that this module hands
    /// out is, and stays so.
    pub open spec fn wf(&self) -> bool {
        valid_session(self@)
    }

    /// The buffer of the editor itself, while there is one.
    pub closed spec fn buffer(&self) -> Option<Buffer<'a>> {
        self.editor.textarea()
    }

    /// A session that starts in `root`, where the host found `files`, under
    /// `key`. Fails where an entry does not lie directly in `root`, and on a
    /// key of fewer than five bytes.
    pub fn new(root: Path, files: Vec<DirEntry>, key: &str) -> (r: Result<Session<'a>, Error>)
        ensures
            match r {
                Ok(session) => listed_in(crate::entity::entries_view(files@), root@) && valid_key(
                    key.spec_bytes(),
                ) && session@ == initial(
                    root@,
                    crate::entity::entries_view(files@),
                    key.spec_bytes(),
                ) && session.wf(),
                Err(error) => if !listed_in(crate::entity::entries_view(files@), root@) {
                    error@ == ErrorView::Filesystem(mismatch_text())
                } else {
                    !valid_key(key.spec_bytes()) && error@ == ErrorView::InvalidKey
                },
            },
    {
        if !all_listed_in(&files, &root) {
            return Err(
                Error::Filesystem(String::from_str("The reply does not answer the request")),
            );
        }
        let manager = FileManager::new(root, files);
        let viewer = match Viewer::new(key) {
            Ok(viewer) => viewer,
            Err(error) => {
                return Err(error);
            },
        };
        match Editor::new(key) {
            Ok(editor) => Ok(
                Session { mode: Mode::Manager, manager, viewer, editor, status: None },
            ),
            Err(error) => Err(error),
        }
    }

    /// The mode that the session is in.
    pub fn get_mode(&self) -> (mode: Mode)
        ensures
            mode == self@.mode,
    {
        self.mode
    }

    /// The error that the status line shows, if the last operation failed.
    pub fn get_status(&self) -> (status: Option<&Error>)
        ensures
            match status {
                Some(error) => self@.status == Some(error@),
                None => self@.status is None,
            },
    {
        self.status.as_ref()
    }

    /// The manager.
    pub fn get_manager_ref(&self) -> (manager: &FileManager)
        ensures
            manager@ == self@.manager,
            self.wf() ==> manager.wf(),
    {
        &self.manager
    }

    /// The viewer.
    pub fn get_viewer_ref(&self) -> (viewer: &Viewer)
        ensures
            viewer@ == self@.viewer,
            self.wf() ==> viewer.wf(),
    {
        &self.viewer
    }

    /// The editor.
    pub fn get_editor_ref(&self) -> (editor: &Editor<'a>)
        ensures
            editor@ == self@.editor,
            self.wf() ==> editor.wf(),
    {
        &self.editor
    }

    /// Takes a key, does what it asks for in the mode that the session is in,
    /// and says what is left for the host to do.
    pub fn update(&mut self, key: Key) -> (out: Outcome)
        requires
            old(self).wf(),
        ensures
            update_spec(old(self)@, key, final(self)@, out@),
            out@ is Type ==> final(self).buffer() == old(self).buffer(),
            final(self).wf(),
    {
        match self.mode {
            Mode::Manager => self.update_manager(command(Mode::Manager, key)),
            Mode::Viewer => self.update_viewer(command(Mode::Viewer, key)),
            Mode::Editor => self.update_editor(command(Mode::Editor, key)),
            Mode::Exit => {
                self.status = None;
                Outcome::Settled
            },
        }
    }

    /// A key in the manager.
    fn update_manager(&mut self, command: Command) -> (out: Outcome)
        requires
            old(self).wf(),
        ensures
            manager_step(old(self)@, command, final(self)@, out@),
            final(self).wf(),
    {
        match command {
            Command::Quit => {
                self.mode = Mode::Exit;
            },
            Command::Up => {
                self.manager.previous();
            },
            Command::Down => {
                self.manager.next();
            },
            Command::Confirm => match self.manager.action() {
                Progress::Pending(request) => {
                    return Outcome::Ask(request);
                },
                Progress::Finished(_) => {},
            },
            Command::OpenEditor => {
                self.mode = Mode::Editor;
            },
            Command::NewEditor => {
                self.editor.init();
                self.mode = Mode::Editor;
            },
            Command::Delete => match self.manager.delete_selected() {
                Ok(request) => {
                    return Outcome::Ask(request);
                },
                Err(error) => {
                    self.status = Some(error);
                    return Outcome::Settled;
                },
            },
            _ => {},
        }
        self.status = None;
        Outcome::Settled
    }

    /// A key in the viewer.
    fn update_viewer(&mut self, command: Command) -> (out: Outcome)
        requires
            old(self).wf(),
        ensures
            viewer_step(old(self)@, command, final(self)@, out@),
            final(self).wf(),
    {
        match command {
            Command::Up => {
                self.viewer.scroll_up(1);
            },
            Command::Down => {
                self.viewer.scroll_down(1);
            },
            _ => {
                self.viewer.clear();
                self.mode = Mode::Manager;
            },
        }
        self.status = None;
        Outcome::Settled
    }

    /// A key in the editor.
    fn update_editor(&mut self, command: Command) -> (out: Outcome)
        requires
            old(self).wf(),
        ensures
            editor_step(old(self)@, command, final(self)@, out@),
            out@ is Type ==> final(self).buffer() == old(self).buffer(),
            final(self).wf(),
    {
        match command {
            Command::Quit => {
                self.mode = Mode::Manager;
                self.status = None;
                Outcome::Settled
            },
            Command::Save => {
                let data = match self.editor.finish() {
                    Ok(text) => vstd::slice::slice_to_vec(text.as_str().as_bytes()),
                    Err(_) => Vec::new(),
                };
                Outcome::Ask(self.manager.create_file(data, None))
            },
            Command::SaveEncrypted => {
                let data = match self.editor.finish_encrypt() {
                    Ok(bytes) => bytes,
                    Err(_) => Vec::new(),
                };
                Outcome::Ask(self.manager.create_file(data, None))
            },
            _ => {
                self.status = None;
                if self.editor.is_editing() {
                    Outcome::Type
                } else {
                    Outcome::Settled
                }
            },
        }
    }

    /// Takes the host's reply to the request that the session has handed out
    /// last, carries the operation on, and hands out the next request if
    /// there is one.
    pub fn resume(&mut self, reply: Reply) -> (pending: Option<Request>)
        requires
            old(self).wf(),
        ensures
            final(self)@ == resume_spec(old(self)@, reply@).0,
            pending_view(pending) == resume_spec(old(self)@, reply@).1,
            final(self).wf(),
    {
        match self.manager.resume(reply) {
            Err(error) => {
                self.status = Some(error);
                None
            },
            Ok(Progress::Pending(next)) => Some(next),
            Ok(Progress::Finished(respond)) => {
                match respond {
                    Respond::Text(text) => {
                        let name = self.manager.get_selected_entity_name();
                        self.viewer.set_entity(ViewerEntity::Text(text), name);
                        self.mode = Mode::Viewer;
                    },
                    Respond::Bin(bin) => {
                        let name = self.manager.get_selected_entity_name();
                        self.viewer.set_entity(ViewerEntity::Binary(bin), name);
                        self.mode = Mode::Viewer;
                    },
                    Respond::Nothing => {
                        self.mode = Mode::Manager;
                    },
                }
                self.status = None;
                None
            },
        }
    }

    /// Takes a key event of the terminal: reads the key, does what `update`
    /// does with it, gives the event to the editor's buffer where the key
    /// belongs there, and hands out the request if one is left. A key that
    /// goes to the buffer leaves it with the lines that the text area makes
    /// of the event.
    pub fn press(&mut self, event: KeyEvent) -> (pending: Option<Request>)
        requires
            old(self).wf(),
        ensures
            exists|mid: SessionView, out: OutcomeView| #[trigger]
                pressed(
                    old(self)@,
                    event_key(event),
                    mid,
                    out,
                    final(self)@,
                    pending_view(pending),
                ),
            goes_to_buffer(old(self)@, event_key(event)) ==> old(self).buffer() is Some
                && final(self)@.editor.buffer == Some(
                buffer_typed(old(self).buffer()->0, event),
            ),
            final(self).wf(),
    {
        let key = key_of_event(&event);
        let out = self.update(key);
        let ghost mid = self@;
        proof {
            self.editor.lemma_lines_of_textarea();
        }
        let pending = match out {
            Outcome::Settled => None,
            Outcome::Ask(request) => Some(request),
            Outcome::Type => {
                match self.editor.get_textarea_mut() {
                    Some(buffer) => {
                        buffer.input(event);
                    },
                    None => {},
                }
                None
            },
        };
        assert(pressed(old(self)@, key, mid, out@, self@, pending_view(pending)));
        pending
    }
}

} // verus!
