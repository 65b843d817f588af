//! What a directory listing is made of: the entries that the host reports,
//! and the entities that the manager shows for them.

use crate::path::{last_name, Path, PathView};
use crate::text::{string_from_utf8, text_of};
use vstd::prelude::*;
use vstd::string::StringExecFns;

verus! {

/// A way to move that is not an entry of the directory.
#[derive(Clone, Copy, Debug, PartialEq, Eq, Structural)]
pub enum Action {
    /// One level up.
    Back,
    /// To the directory that the session started in.
    Root,
}

/// The colours that the session asks to be shown in.
#[derive(Clone, Copy, Debug, PartialEq, Eq, Structural)]
pub enum Color {
    White,
    Blue,
    Red,
}

/// What the file system says an entry is.
#[derive(Clone, Copy, Debug, PartialEq, Eq, Structural)]
pub enum EntryKind {
    Folder,
    File,
    /// Neither a folder nor a regular file; such entries are not listed.
    Other,
}

/// One entry of a directory, as the host found it.
#[derive(Debug)]
pub struct DirEntry {
    pub path: Path,
    pub kind: EntryKind,
    /// When the entry was last modified, in any unit that grows with time;
    /// nothing where the host could not tell.
    pub modified: Option<i128>,
}

/// A directory entry as plain values.
pub struct DirEntryView {
    pub path: PathView,
    pub kind: EntryKind,
    pub modified: Option<i128>,
}

impl View for DirEntry {
    type V = DirEntryView;

    open spec fn view(&self) -> DirEntryView {
        DirEntryView { path: self.path@, kind: self.kind, modified: self.modified }
    }
}

impl Clone for DirEntry {
    fn clone(&self) -> (r: DirEntry)
        ensures
            r@ == self@,
    {
        DirEntry { path: self.path.clone(), kind: self.kind, modified: self.modified }
    }
}

/// The entries of a directory as plain values.
pub open spec fn entries_view(entries: Seq<DirEntry>) -> Seq<DirEntryView> {
    entries.map_values(|e: DirEntry| e@)
}

/// An item of the manager's listing.
#[derive(Debug)]
pub enum ManagerEntity {
    TextFile(Path),
    Folder(Path),
    Action(Action),
}

/// A listing item as plain values.
pub enum EntityView {
    TextFile(PathView),
    Folder(PathView),
    Action(Action),
}

impl View for ManagerEntity {
    type V = EntityView;

    open spec fn view(&self) -> EntityView {
        match self {
            ManagerEntity::TextFile(path) => EntityView::TextFile(path@),
            ManagerEntity::Folder(path) => EntityView::Folder(path@),
            ManagerEntity::Action(act) => EntityView::Action(*act),
        }
    }
}

impl Clone for ManagerEntity {
    fn clone(&self) -> (r: ManagerEntity)
        ensures
            r@ == self@,
    {
        match self {
            ManagerEntity::TextFile(path) => ManagerEntity::TextFile(path.clone()),
            ManagerEntity::Folder(path) => ManagerEntity::Folder(path.clone()),
            ManagerEntity::Action(act) => ManagerEntity::Action(*act),
        }
    }
}

impl PartialEq for ManagerEntity {
    fn eq(&self, other: &ManagerEntity) -> (r: bool) {
        match (self, other) {
            (ManagerEntity::TextFile(a), ManagerEntity::TextFile(b)) => *a == *b,
            (ManagerEntity::Folder(a), ManagerEntity::Folder(b)) => *a == *b,
            (ManagerEntity::Action(a), ManagerEntity::Action(b)) => *a == *b,
            _ => false,
        }
    }
}

impl vstd::std_specs::cmp::PartialEqSpecImpl for ManagerEntity {
    open spec fn obeys_eq_spec() -> bool {
        true
    }

    open spec fn eq_spec(&self, other: &ManagerEntity) -> bool {
        self@ == other@
    }
}

impl Eq for ManagerEntity {

}

/// The text that a listing shows for an item: the last name of its path, or
/// a stand-in where the path has no name or the name is not text; a way out
/// goes by its own name.
pub open spec fn label_of(entity: EntityView) -> Seq<char> {
    match entity {
        EntityView::TextFile(path) => match last_name(path) {
            Some(name) => match text_of(name) {
                Some(text) => text,
                None => "Unknown text name"@,
            },
            None => "Unknown text file"@,
        },
        EntityView::Folder(path) => match last_name(path) {
            Some(name) => match text_of(name) {
                Some(text) => text,
                None => "Unknown folder name"@,
            },
            None => "Unknown folder"@,
        },
        EntityView::Action(Action::Back) => "Back"@,
        EntityView::Action(Action::Root) => "Root"@,
    }
}

/// The colour that a listing shows an item in: files white, folders blue,
/// ways out red.
pub open spec fn color_of(entity: EntityView) -> Color {
    match entity {
        EntityView::TextFile(_) => Color::White,
        EntityView::Folder(_) => Color::Blue,
        EntityView::Action(_) => Color::Red,
    }
}

/// The last name of a path as text, or one of two stand-ins: `nameless`
/// where the path has no name, `unreadable` where the name is not text.
fn name_or(path: &Path, nameless: &str, unreadable: &str) -> (text: String)
    ensures
        text@ == match last_name(path@) {
            Some(name) => match text_of(name) {
                Some(text) => text,
                None => unreadable@,
            },
            None => nameless@,
        },
{
    match path.file_name() {
        Some(name) => match string_from_utf8(vstd::slice::slice_to_vec(name.as_slice())) {
            Ok(text) => text,
            Err(_) => String::from_str(unreadable),
        },
        None => String::from_str(nameless),
    }
}

impl ManagerEntity {
    /// The text that a listing shows for the item.
    pub fn label(&self) -> (text: String)
        ensures
            text@ == label_of(self@),
    {
        match self {
            ManagerEntity::TextFile(path) => name_or(
                path,
                "Unknown text file",
                "Unknown text name",
            ),
            ManagerEntity::Folder(path) => name_or(path, "Unknown folder", "Unknown folder name"),
            ManagerEntity::Action(Action::Back) => String::from_str("Back"),
            ManagerEntity::Action(Action::Root) => String::from_str("Root"),
        }
    }

    /// The colour that a listing shows the item in.
    pub fn color(&self) -> (color: Color)
        ensures
            color == color_of(self@),
    {
        match self {
            ManagerEntity::TextFile(_) => Color::White,
            ManagerEntity::Folder(_) => Color::Blue,
            ManagerEntity::Action(_) => Color::Red,
        }
    }
}

/// The items of a listing as plain values.
pub open spec fn entities_view(entities: Seq<ManagerEntity>) -> Seq<EntityView> {
    entities.map_values(|e: ManagerEntity| e@)
}

/// What opening a listing item gave.
#[derive(Debug)]
pub enum Respond {
    /// The content of a file that holds text.
    Text(String),
    /// The content of a file that does not.
    Bin(Vec<u8>),
    /// Nothing to show.
    Nothing,
}

/// A response as plain values.
pub enum RespondView {
    Text(Seq<char>),
    Bin(Seq<u8>),
    Nothing,
}

impl View for Respond {
    type V = RespondView;

    open spec fn view(&self) -> RespondView {
        match self {
            Respond::Text(text) => RespondView::Text(text@),
            Respond::Bin(bin) => RespondView::Bin(bin@),
            Respond::Nothing => RespondView::Nothing,
        }
    }
}

/// What a file's content is taken for: text where the bytes are well-formed
/// UTF-8, binary otherwise.
pub open spec fn content_of(bytes: Seq<u8>) -> RespondView {
    match text_of(bytes) {
        Some(text) => RespondView::Text(text),
        None => RespondView::Bin(bytes),
    }
}

impl Respond {
    /// Reads the content of a file as text; where that fails, keeps the bytes.
    pub fn from_bytes(bytes: Vec<u8>) -> (r: Respond)
        ensures
            r@ == content_of(bytes@),
    {
        match string_from_utf8(bytes) {
            Ok(text) => Respond::Text(text),
            Err(bin) => Respond::Bin(bin),
        }
    }
}

impl Clone for Respond {
    fn clone(&self) -> (r: Respond)
        ensures
            r@ == self@,
    {
        match self {
            Respond::Text(text) => Respond::Text(text.clone()),
            Respond::Bin(bin) => Respond::Bin(vstd::slice::slice_to_vec(bin.as_slice())),
            Respond::Nothing => Respond::Nothing,
        }
    }
}

impl PartialEq for Respond {
    fn eq(&self, other: &Respond) -> (r: bool) {
        match (self, other) {
            (Respond::Text(a), Respond::Text(b)) => *a == *b,
            (Respond::Bin(a), Respond::Bin(b)) => {
                let same = *a == *b;
                assert(same == (a@ =~= b@));
                same
            },
            (Respond::Nothing, Respond::Nothing) => true,
            _ => false,
        }
    }
}

impl vstd::std_specs::cmp::PartialEqSpecImpl for Respond {
    open spec fn obeys_eq_spec() -> bool {
        true
    }

    open spec fn eq_spec(&self, other: &Respond) -> bool {
        self@ == other@
    }
}

} // verus!
