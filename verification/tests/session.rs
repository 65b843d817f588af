use crossterm::event::{KeyCode as TermCode, KeyEvent, KeyModifiers};
use cryptfm::entity::{Action, DirEntry, EntryKind, ManagerEntity};
use cryptfm::error::{Error, Reason};
use cryptfm::host::{Reply, Request};
use cryptfm::path::Path;
use cryptfm::session::{command, Command, Key, KeyCode, Mode, Modifiers, Outcome, Session};
use cryptfm::viewer::ViewerEntity;

fn path(parts: &[&str]) -> Path {
    Path::new(true, parts.iter().map(|part| part.as_bytes().to_vec()).collect())
}

/// A file system in memory, to stand for the host.
struct Disk {
    folders: Vec<Path>,
    files: Vec<(Path, Vec<u8>, i128)>,
    clock: i128,
    read_only: bool,
}

impl Disk {
    fn new(folders: &[&[&str]]) -> Disk {
        Disk { folders: folders.iter().map(|parts| path(parts)).collect(), files: Vec::new(), clock: 0, read_only: false }
    }

    fn put(&mut self, parts: &[&str], data: &[u8]) {
        self.clock += 1;
        self.files.push((path(parts), data.to_vec(), self.clock));
    }

    fn content(&self, target: &Path) -> Option<Vec<u8>> {
        self.files.iter().find(|(at, _, _)| at == target).map(|(_, data, _)| data.clone())
    }

    fn list(&self, dir: &Path) -> Reply {
        if !self.folders.contains(dir) {
            return Reply::Failed(String::from("no such directory"));
        }
        let mut entries = Vec::new();
        for folder in &self.folders {
            if folder.parent().as_ref() == Some(dir) {
                entries.push(DirEntry { path: folder.clone(), kind: EntryKind::Folder, modified: Some(0) });
            }
        }
        for (at, _, modified) in &self.files {
            if at.parent().as_ref() == Some(dir) {
                entries.push(DirEntry { path: at.clone(), kind: EntryKind::File, modified: Some(*modified) });
            }
        }
        Reply::Entries(entries)
    }

    fn perform(&mut self, request: &Request) -> Reply {
        match request {
            Request::Read(target) => match self.content(target) {
                Some(data) => Reply::Content(data),
                None => Reply::Failed(String::from("no such file")),
            },
            Request::List(dir) | Request::Refresh(dir) => self.list(dir),
            Request::Write(target, data) => {
                if self.read_only {
                    return Reply::Failed(String::from("read-only file system"));
                }
                self.files.retain(|(at, _, _)| at != target);
                self.clock += 1;
                self.files.push((target.clone(), data.clone(), self.clock));
                Reply::Done
            }
            Request::Remove(target) => {
                let before = self.files.len();
                self.files.retain(|(at, _, _)| at != target);
                if self.files.len() == before {
                    Reply::Failed(String::from("no such file"))
                } else {
                    Reply::Done
                }
            }
        }
    }

    fn start<'a>(&self, key: &str) -> Session<'a> {
        match self.list(&path(&["root"])) {
            Reply::Entries(files) => Session::new(path(&["root"]), files, key).unwrap(),
            other => panic!("{:?}", other),
        }
    }

    /// Hands a key event to the session and answers what it asks for.
    fn press(&mut self, session: &mut Session, code: TermCode, modifiers: KeyModifiers) {
        let mut pending = session.press(KeyEvent::new(code, modifiers));
        while let Some(request) = pending {
            let reply = self.perform(&request);
            pending = session.resume(reply);
        }
    }

    fn tap(&mut self, session: &mut Session, code: TermCode) {
        self.press(session, code, KeyModifiers::NONE);
    }

    fn type_text(&mut self, session: &mut Session, text: &str) {
        for c in text.chars() {
            self.tap(session, TermCode::Char(c));
        }
    }
}

const NO_MODIFIERS: Modifiers =
    Modifiers { shift: false, control: false, alt: false, logo: false, hyper: false, meta: false };

fn plain(code: KeyCode) -> Key {
    Key { code, modifiers: NO_MODIFIERS }
}

fn with_control(code: KeyCode) -> Key {
    Key { code, modifiers: Modifiers { control: true, ..NO_MODIFIERS } }
}

fn status_of(session: &Session) -> Option<Error> {
    session.get_status().cloned()
}

#[test]
fn a_session_starts_in_the_manager() {
    let disk = Disk::new(&[&["root"]]);
    let session = disk.start("abcde");
    assert_eq!(session.get_mode(), Mode::Manager);
    assert_eq!(status_of(&session), None);
    assert_eq!(session.get_manager_ref().get_current(), path(&["root"]));
    assert!(session.get_manager_ref().get_entities_ref().is_empty());
    assert_eq!(session.get_viewer_ref().get_entity_ref(), &ViewerEntity::Text(String::new()));
    assert!(!session.get_editor_ref().is_editing());
}

#[test]
fn a_session_does_not_start_under_a_short_key() {
    assert_eq!(Session::new(path(&["root"]), vec![], "abcd").err(), Some(Error::InvalidKey));
}

#[test]
fn a_session_does_not_start_on_entries_from_elsewhere() {
    let stray = DirEntry { path: path(&["other", "x"]), kind: EntryKind::File, modified: None };
    assert_eq!(
        Session::new(path(&["root"]), vec![stray], "abcde").err(),
        Some(Error::Filesystem(String::from("The reply does not answer the request")))
    );
    let stray = DirEntry { path: path(&["root"]), kind: EntryKind::Folder, modified: None };
    assert_eq!(
        Session::new(path(&["root"]), vec![stray], "abcd").err(),
        Some(Error::Filesystem(String::from("The reply does not answer the request")))
    );
}

#[test]
fn create_and_view() {
    let mut disk = Disk::new(&[&["root"]]);
    let mut session = disk.start("abcde");

    disk.tap(&mut session, TermCode::Char('n'));
    assert_eq!(session.get_mode(), Mode::Editor);
    disk.type_text(&mut session, "hello");
    disk.press(&mut session, TermCode::Char('s'), KeyModifiers::CONTROL);
    assert_eq!(session.get_mode(), Mode::Manager);
    assert_eq!(status_of(&session), None);
    assert!(!session.get_editor_ref().is_editing());

    assert_eq!(session.get_manager_ref().get_entities_ref().len(), 1);
    assert_eq!(disk.files.len(), 1);
    assert_eq!(disk.files[0].1, b"hello".to_vec());
    assert_eq!(disk.files[0].0.parent(), Some(path(&["root"])));

    disk.tap(&mut session, TermCode::Down);
    disk.tap(&mut session, TermCode::Enter);
    assert_eq!(session.get_mode(), Mode::Viewer);
    assert_eq!(session.get_viewer_ref().get_entity_ref(), &ViewerEntity::Text(String::from("hello")));
    let name = String::from_utf8(disk.files[0].0.file_name().unwrap().clone()).unwrap();
    assert_eq!(session.get_viewer_ref().get_name(), Some(name));
}

#[test]
fn encrypt_round_trip() {
    let mut disk = Disk::new(&[&["root"]]);
    let mut session = disk.start("abcde");

    disk.tap(&mut session, TermCode::Char('N'));
    disk.type_text(&mut session, "secret");
    disk.press(&mut session, TermCode::Char('e'), KeyModifiers::CONTROL);
    assert_eq!(session.get_mode(), Mode::Manager);
    assert_eq!(disk.files[0].1, vec![212, 199, 198, 214, 202, 213]);

    disk.tap(&mut session, TermCode::Down);
    disk.tap(&mut session, TermCode::Enter);
    assert_eq!(session.get_mode(), Mode::Viewer);
    assert_eq!(
        session.get_viewer_ref().get_entity_ref(),
        &ViewerEntity::DecryptedText(String::from("secret"))
    );
}

#[test]
fn encoded_text_that_is_text_itself_is_shown_as_it_stands() {
    // Under a key of small bytes plain letters encode to plain letters.
    let key = "\u{1}\u{1}\u{1}\u{1}\u{1}";
    let mut disk = Disk::new(&[&["root"]]);
    let mut session = disk.start(key);
    disk.tap(&mut session, TermCode::Char('n'));
    disk.type_text(&mut session, "abc");
    disk.press(&mut session, TermCode::Char('e'), KeyModifiers::CONTROL);
    assert_eq!(disk.files[0].1, b"bcd".to_vec());
    disk.tap(&mut session, TermCode::Down);
    disk.tap(&mut session, TermCode::Enter);
    assert_eq!(session.get_viewer_ref().get_entity_ref(), &ViewerEntity::Text(String::from("bcd")));
}

#[test]
fn binary_passthrough() {
    let mut disk = Disk::new(&[&["root"]]);
    let blob = vec![0xff, 0x60, 0x00, 0x61];
    disk.put(&["root", "blob"], &blob);
    let mut session = disk.start("abcde");
    disk.tap(&mut session, TermCode::Down);
    disk.tap(&mut session, TermCode::Enter);
    assert_eq!(session.get_mode(), Mode::Viewer);
    assert_eq!(session.get_viewer_ref().get_entity_ref(), &ViewerEntity::Binary(blob));
    assert_eq!(session.get_viewer_ref().get_name(), Some(String::from("blob")));
}

#[test]
fn the_file_of_the_session_goes_and_the_old_one_stays() {
    let mut disk = Disk::new(&[&["root"]]);
    disk.put(&["root", "old"], b"old");
    let mut session = disk.start("abcde");

    disk.tap(&mut session, TermCode::Char('n'));
    disk.type_text(&mut session, "mine");
    disk.press(&mut session, TermCode::Char('S'), KeyModifiers::CONTROL);
    assert_eq!(disk.files.len(), 2);

    // The new file is the newest, so it is the first.
    disk.tap(&mut session, TermCode::Down);
    disk.tap(&mut session, TermCode::Char('d'));
    assert_eq!(status_of(&session), None);
    assert_eq!(session.get_mode(), Mode::Manager);
    assert_eq!(disk.files.len(), 1);
    assert_eq!(disk.files[0].0, path(&["root", "old"]));
    assert_eq!(session.get_manager_ref().get_entities_ref(), &vec![ManagerEntity::TextFile(path(&["root", "old"]))]);

    // The selection stays at its index, which now holds the old file.
    assert_eq!(session.get_manager_ref().get_selected_id(), Some(0));
    disk.tap(&mut session, TermCode::Char('D'));
    assert_eq!(status_of(&session), Some(Error::NotDeletable(Reason::NotCreated)));
    assert_eq!(session.get_mode(), Mode::Manager);
    assert_eq!(disk.files.len(), 1);

    // The error is shown until something succeeds.
    disk.tap(&mut session, TermCode::Down);
    assert_eq!(status_of(&session), None);
}

#[test]
fn folders_and_ways_out_do_not_go() {
    let mut disk = Disk::new(&[&["root"], &["root", "sub"]]);
    let mut session = disk.start("abcde");
    disk.tap(&mut session, TermCode::Down);
    disk.tap(&mut session, TermCode::Char('d'));
    assert_eq!(status_of(&session), Some(Error::NotDeletable(Reason::Folder)));
    assert_eq!(
        status_of(&session).unwrap().message(),
        "Cannot delete the folder entity"
    );
    disk.tap(&mut session, TermCode::Enter);
    assert_eq!(status_of(&session), None);
    assert_eq!(session.get_manager_ref().get_current(), path(&["root", "sub"]));
    disk.tap(&mut session, TermCode::Down);
    disk.tap(&mut session, TermCode::Char('d'));
    assert_eq!(status_of(&session), Some(Error::NotDeletable(Reason::Action)));
}

#[test]
fn into_a_folder_and_out_again() {
    let mut disk = Disk::new(&[&["root"], &["root", "a"], &["root", "a", "b"]]);
    disk.put(&["root", "a", "b", "deep"], b"deep");
    let mut session = disk.start("abcde");
    assert_eq!(session.get_manager_ref().get_entities_ref(), &vec![ManagerEntity::Folder(path(&["root", "a"]))]);

    disk.tap(&mut session, TermCode::Down);
    disk.tap(&mut session, TermCode::Enter);
    assert_eq!(session.get_mode(), Mode::Manager);
    assert_eq!(session.get_manager_ref().get_current(), path(&["root", "a"]));
    assert_eq!(session.get_manager_ref().get_selected_id(), None);
    assert_eq!(
        session.get_manager_ref().get_entities_ref(),
        &vec![
            ManagerEntity::Folder(path(&["root", "a", "b"])),
            ManagerEntity::Action(Action::Back),
            ManagerEntity::Action(Action::Root),
        ]
    );

    disk.tap(&mut session, TermCode::Down);
    disk.tap(&mut session, TermCode::Enter);
    assert_eq!(session.get_manager_ref().get_current(), path(&["root", "a", "b"]));

    // Back is the second item here: one level up, not two.
    disk.tap(&mut session, TermCode::Down);
    disk.tap(&mut session, TermCode::Down);
    assert_eq!(session.get_manager_ref().get_selected_entity(), Some(ManagerEntity::Action(Action::Back)));
    disk.tap(&mut session, TermCode::Enter);
    assert_eq!(session.get_manager_ref().get_current(), path(&["root", "a"]));

    disk.tap(&mut session, TermCode::Down);
    disk.tap(&mut session, TermCode::Enter);
    // Root is the last item.
    disk.tap(&mut session, TermCode::Up);
    assert_eq!(session.get_manager_ref().get_selected_entity(), Some(ManagerEntity::Action(Action::Root)));
    disk.tap(&mut session, TermCode::Enter);
    assert_eq!(session.get_manager_ref().get_current(), path(&["root"]));
    assert_eq!(session.get_manager_ref().get_entities_ref(), &vec![ManagerEntity::Folder(path(&["root", "a"]))]);
}

#[test]
fn a_failure_is_shown_and_the_mode_stays() {
    let mut disk = Disk::new(&[&["root"], &["root", "gone"]]);
    let mut session = disk.start("abcde");
    disk.folders.pop();
    disk.tap(&mut session, TermCode::Down);
    disk.tap(&mut session, TermCode::Enter);
    assert_eq!(session.get_mode(), Mode::Manager);
    assert_eq!(status_of(&session), Some(Error::Filesystem(String::from("no such directory"))));
    assert_eq!(session.get_manager_ref().get_current(), path(&["root"]));
    assert_eq!(session.get_manager_ref().get_selected_id(), Some(0));
}

#[test]
fn a_failed_save_stays_in_the_editor_without_the_text() {
    let mut disk = Disk::new(&[&["root"]]);
    disk.read_only = true;
    let mut session = disk.start("abcde");
    disk.tap(&mut session, TermCode::Char('n'));
    disk.type_text(&mut session, "lost");
    disk.press(&mut session, TermCode::Char('s'), KeyModifiers::CONTROL);
    assert_eq!(session.get_mode(), Mode::Editor);
    assert_eq!(status_of(&session), Some(Error::Filesystem(String::from("read-only file system"))));
    assert!(!session.get_editor_ref().is_editing());
    assert!(disk.files.is_empty());
    // Typing clears the error, and goes nowhere for want of a buffer.
    disk.tap(&mut session, TermCode::Char('x'));
    assert_eq!(status_of(&session), None);
    assert_eq!(session.get_mode(), Mode::Editor);
    assert!(!session.get_editor_ref().is_editing());
}

#[test]
fn saving_without_a_buffer_writes_an_empty_file() {
    let mut disk = Disk::new(&[&["root"]]);
    let mut session = disk.start("abcde");
    disk.tap(&mut session, TermCode::Char('e'));
    assert_eq!(session.get_mode(), Mode::Editor);
    assert!(!session.get_editor_ref().is_editing());
    disk.press(&mut session, TermCode::Char('s'), KeyModifiers::CONTROL);
    assert_eq!(session.get_mode(), Mode::Manager);
    assert_eq!(disk.files.len(), 1);
    assert!(disk.files[0].1.is_empty());
}

#[test]
fn leaving_the_editor_keeps_the_text() {
    let mut disk = Disk::new(&[&["root"]]);
    let mut session = disk.start("abcde");
    disk.tap(&mut session, TermCode::Char('n'));
    disk.type_text(&mut session, "draft");
    disk.tap(&mut session, TermCode::Esc);
    assert_eq!(session.get_mode(), Mode::Manager);
    disk.tap(&mut session, TermCode::Char('E'));
    assert_eq!(session.get_mode(), Mode::Editor);
    assert_eq!(session.get_editor_ref().get_textarea_ref().map(|buffer| buffer.lines()), Some(vec![String::from("draft")]));
    disk.tap(&mut session, TermCode::Esc);
    disk.tap(&mut session, TermCode::Char('n'));
    assert_eq!(session.get_editor_ref().get_textarea_ref().map(|buffer| buffer.lines()), Some(vec![String::new()]));
}

#[test]
fn letters_typed_in_the_editor_are_text() {
    let mut disk = Disk::new(&[&["root"]]);
    let mut session = disk.start("abcde");
    disk.tap(&mut session, TermCode::Char('n'));
    disk.type_text(&mut session, "send");
    // With Shift as well, Control and S do not save.
    disk.press(&mut session, TermCode::Char('S'), KeyModifiers::CONTROL | KeyModifiers::SHIFT);
    disk.press(&mut session, TermCode::Char('s'), KeyModifiers::CONTROL | KeyModifiers::ALT);
    disk.press(&mut session, TermCode::Char('s'), KeyModifiers::CONTROL | KeyModifiers::SUPER);
    disk.press(&mut session, TermCode::Char('e'), KeyModifiers::CONTROL | KeyModifiers::HYPER);
    disk.press(&mut session, TermCode::Char('e'), KeyModifiers::CONTROL | KeyModifiers::META);
    assert_eq!(session.get_mode(), Mode::Editor);
    assert!(session.get_editor_ref().is_editing());
    assert!(disk.files.is_empty());
    disk.tap(&mut session, TermCode::Enter);
    disk.tap(&mut session, TermCode::Up);
    assert_eq!(session.get_mode(), Mode::Editor);
    assert_eq!(session.get_editor_ref().get_textarea_ref().map(|buffer| buffer.lines()).unwrap()[0], "send");
}

#[test]
fn the_viewer_scrolls_and_closes() {
    let mut disk = Disk::new(&[&["root"]]);
    disk.put(&["root", "a.txt"], b"text");
    let mut session = disk.start("abcde");
    disk.tap(&mut session, TermCode::Down);
    disk.tap(&mut session, TermCode::Enter);
    assert_eq!(session.get_mode(), Mode::Viewer);
    disk.tap(&mut session, TermCode::Up);
    assert_eq!(session.get_viewer_ref().get_scroll(), 0);
    disk.tap(&mut session, TermCode::Down);
    disk.tap(&mut session, TermCode::Down);
    disk.tap(&mut session, TermCode::Up);
    assert_eq!(session.get_viewer_ref().get_scroll(), 1);
    assert_eq!(session.get_mode(), Mode::Viewer);
    disk.tap(&mut session, TermCode::Char('q'));
    assert_eq!(session.get_mode(), Mode::Manager);
    assert_eq!(session.get_viewer_ref().get_entity_ref(), &ViewerEntity::Text(String::new()));
    assert_eq!(session.get_viewer_ref().get_name(), None);
    assert_eq!(session.get_viewer_ref().get_scroll(), 0);
}

#[test]
fn enter_without_a_selection_stays_in_the_manager() {
    let mut disk = Disk::new(&[&["root"]]);
    disk.put(&["root", "a.txt"], b"text");
    let mut session = disk.start("abcde");
    disk.tap(&mut session, TermCode::Enter);
    assert_eq!(session.get_mode(), Mode::Manager);
    assert_eq!(status_of(&session), None);
}

#[test]
fn the_session_ends_on_esc_and_stays_ended() {
    let mut disk = Disk::new(&[&["root"]]);
    let mut session = disk.start("abcde");
    disk.tap(&mut session, TermCode::Esc);
    assert_eq!(session.get_mode(), Mode::Exit);
    for code in [TermCode::Enter, TermCode::Char('n'), TermCode::Esc, TermCode::Down] {
        disk.tap(&mut session, code);
        assert_eq!(session.get_mode(), Mode::Exit);
    }
}

#[test]
fn update_says_what_is_left_to_do() {
    let mut disk = Disk::new(&[&["root"], &["root", "sub"]]);
    disk.put(&["root", "a.txt"], b"text");
    let mut session = disk.start("abcde");
    assert!(matches!(session.update(plain(KeyCode::Down)), Outcome::Settled));
    match session.update(plain(KeyCode::Enter)) {
        Outcome::Ask(Request::List(target)) => assert_eq!(target, path(&["root", "sub"])),
        other => panic!("{:?}", other),
    }
    assert!(matches!(session.update(plain(KeyCode::Down)), Outcome::Settled));
    match session.update(plain(KeyCode::Enter)) {
        Outcome::Ask(Request::Read(target)) => assert_eq!(target, path(&["root", "a.txt"])),
        other => panic!("{:?}", other),
    }
    assert!(matches!(session.update(plain(KeyCode::Char('e'))), Outcome::Settled));
    assert!(matches!(session.update(plain(KeyCode::Char('x'))), Outcome::Settled));
    assert!(matches!(session.update(plain(KeyCode::Esc)), Outcome::Settled));
    assert!(matches!(session.update(plain(KeyCode::Char('n'))), Outcome::Settled));
    assert!(matches!(session.update(plain(KeyCode::Char('x'))), Outcome::Type));
    match session.update(with_control(KeyCode::Char('e'))) {
        Outcome::Ask(Request::Write(target, data)) => {
            assert_eq!(target.parent(), Some(path(&["root"])));
            assert!(data.is_empty());
        }
        other => panic!("{:?}", other),
    }
    assert_eq!(session.get_mode(), Mode::Editor);
}

#[test]
fn resume_leads_a_save_through_to_the_manager() {
    let disk = Disk::new(&[&["root"]]);
    let mut session = disk.start("abcde");
    session.update(plain(KeyCode::Char('n')));
    let write = match session.update(with_control(KeyCode::Char('s'))) {
        Outcome::Ask(request) => request,
        other => panic!("{:?}", other),
    };
    let target = match &write {
        Request::Write(target, _) => target.clone(),
        other => panic!("{:?}", other),
    };
    let refresh = session.resume(Reply::Done).unwrap();
    assert!(matches!(&refresh, Request::Refresh(dir) if dir == &path(&["root"])));
    assert_eq!(session.get_mode(), Mode::Editor);
    let listed = vec![DirEntry { path: target.clone(), kind: EntryKind::File, modified: Some(1) }];
    assert!(session.resume(Reply::Entries(listed)).is_none());
    assert_eq!(session.get_mode(), Mode::Manager);
    assert_eq!(session.get_manager_ref().get_entities_ref(), &vec![ManagerEntity::TextFile(target)]);
}

#[test]
fn a_reply_of_the_wrong_kind_is_shown_as_an_error() {
    let disk = Disk::new(&[&["root"]]);
    let mut session = disk.start("abcde");
    assert!(session.resume(Reply::Done).is_none());
    assert_eq!(session.get_mode(), Mode::Manager);
    assert_eq!(
        status_of(&session),
        Some(Error::Filesystem(String::from("The reply does not answer the request")))
    );
    session.update(plain(KeyCode::Down));
    assert_eq!(status_of(&session), None);
    assert!(matches!(session.update(plain(KeyCode::Down)), Outcome::Settled));
    let mut session = disk.start("abcde");
    session.update(plain(KeyCode::Char('n')));
    assert!(matches!(session.update(with_control(KeyCode::Char('s'))), Outcome::Ask(_)));
    assert!(session.resume(Reply::Content(vec![])).is_none());
    assert_eq!(session.get_mode(), Mode::Editor);
    assert_eq!(
        status_of(&session),
        Some(Error::Filesystem(String::from("The reply does not answer the request")))
    );
}

#[test]
fn commands_of_the_manager() {
    let manager = |code| command(Mode::Manager, plain(code));
    assert_eq!(manager(KeyCode::Esc), Command::Quit);
    assert_eq!(manager(KeyCode::Up), Command::Up);
    assert_eq!(manager(KeyCode::Down), Command::Down);
    assert_eq!(manager(KeyCode::Enter), Command::Confirm);
    assert_eq!(manager(KeyCode::Char('e')), Command::OpenEditor);
    assert_eq!(manager(KeyCode::Char('E')), Command::OpenEditor);
    assert_eq!(manager(KeyCode::Char('n')), Command::NewEditor);
    assert_eq!(manager(KeyCode::Char('N')), Command::NewEditor);
    assert_eq!(manager(KeyCode::Char('d')), Command::Delete);
    assert_eq!(manager(KeyCode::Char('D')), Command::Delete);
    assert_eq!(manager(KeyCode::Char('s')), Command::Other);
    assert_eq!(manager(KeyCode::Other), Command::Other);
    // The manager does not look at the modifiers.
    assert_eq!(command(Mode::Manager, with_control(KeyCode::Char('d'))), Command::Delete);
    assert_eq!(command(Mode::Manager, with_control(KeyCode::Esc)), Command::Quit);
}

#[test]
fn commands_of_the_viewer() {
    let viewer = |code| command(Mode::Viewer, plain(code));
    assert_eq!(viewer(KeyCode::Up), Command::Up);
    assert_eq!(viewer(KeyCode::Down), Command::Down);
    assert_eq!(viewer(KeyCode::Esc), Command::Other);
    assert_eq!(viewer(KeyCode::Enter), Command::Other);
    assert_eq!(viewer(KeyCode::Char('e')), Command::Other);
    assert_eq!(viewer(KeyCode::Other), Command::Other);
}

#[test]
fn commands_of_the_editor() {
    assert_eq!(command(Mode::Editor, plain(KeyCode::Esc)), Command::Quit);
    assert_eq!(command(Mode::Editor, with_control(KeyCode::Esc)), Command::Quit);
    assert_eq!(command(Mode::Editor, with_control(KeyCode::Char('s'))), Command::Save);
    assert_eq!(command(Mode::Editor, with_control(KeyCode::Char('S'))), Command::Save);
    assert_eq!(command(Mode::Editor, with_control(KeyCode::Char('e'))), Command::SaveEncrypted);
    assert_eq!(command(Mode::Editor, with_control(KeyCode::Char('E'))), Command::SaveEncrypted);
    assert_eq!(command(Mode::Editor, plain(KeyCode::Char('s'))), Command::Other);
    assert_eq!(command(Mode::Editor, plain(KeyCode::Char('e'))), Command::Other);
    assert_eq!(command(Mode::Editor, with_control(KeyCode::Char('n'))), Command::Other);
    assert_eq!(command(Mode::Editor, plain(KeyCode::Up)), Command::Other);
    assert_eq!(command(Mode::Editor, plain(KeyCode::Enter)), Command::Other);
    let more = [
        Modifiers { shift: true, control: true, ..NO_MODIFIERS },
        Modifiers { alt: true, control: true, ..NO_MODIFIERS },
        Modifiers { logo: true, control: true, ..NO_MODIFIERS },
        Modifiers { hyper: true, control: true, ..NO_MODIFIERS },
        Modifiers { meta: true, control: true, ..NO_MODIFIERS },
        Modifiers { shift: true, ..NO_MODIFIERS },
    ];
    for modifiers in more {
        assert_eq!(command(Mode::Editor, Key { code: KeyCode::Char('S'), modifiers }), Command::Other);
        assert_eq!(command(Mode::Editor, Key { code: KeyCode::Char('e'), modifiers }), Command::Other);
    }
}

#[test]
fn no_key_is_a_command_once_the_session_is_over() {
    for code in [KeyCode::Esc, KeyCode::Up, KeyCode::Enter, KeyCode::Char('n'), KeyCode::Other] {
        assert_eq!(command(Mode::Exit, plain(code)), Command::Other);
        assert_eq!(command(Mode::Exit, with_control(code)), Command::Other);
    }
}

#[test]
fn help_of_each_mode() {
    assert_eq!(
        Mode::Manager.help(),
        "Manager mode\nEsc: Quit, end the session; Down: Select next item; Up: Select previous item; Enter: Action on the selected item; E: Open the editor; N: Create a new editor instance; D: Delete the selected item"
    );
    assert_eq!(Mode::Viewer.help(), "Viewer mode\nEsc: Quit; Down, Up: Scroll the viewer");
    assert_eq!(
        Mode::Editor.help(),
        "Editor mode\nEsc: Quit; Ctrl + S: Save the text file; Ctrl + E: Encrypt, and save the encrypted file; Other: See TextArea help"
    );
    assert_eq!(Mode::Exit.help(), "End the session");
}

#[test]
fn messages_of_the_errors() {
    assert_eq!(Error::InvalidKey.message(), "Invalid key");
    assert_eq!(
        Error::NotDeletable(Reason::NotCreated).message(),
        "Cannot delete the entity not created in the current session"
    );
    assert_eq!(Error::NotDeletable(Reason::Folder).message(), "Cannot delete the folder entity");
    assert_eq!(Error::NotDeletable(Reason::Action).message(), "Cannot delete the action entity");
    assert_eq!(Error::Filesystem(String::from("disk full")).message(), "disk full");
}
