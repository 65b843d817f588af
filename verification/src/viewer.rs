//! The viewer: a read-only look at the content of one listing item.
//!
//! Content that is not text may be text under the cipher. The viewer tries:
//! where the content decodes to text under the session's key, it shows that
//! text, marked as decrypted; where it does not, the content stays binary.

use crate::cipher::{
    decoded_text, decrypt_binary, encoded, lemma_text_round_trip, valid_key, KEY_LEN,
};
use crate::entity::Color;
use crate::error::{Error, ErrorView};
use crate::text::text_view;
use vstd::prelude::*;
use vstd::string::{StringExecFns, StringSliceAdditionalSpecFns};
use vstd::utf8::encode_utf8;

verus! {

/// What the viewer can show.
#[derive(Debug)]
pub enum ViewerEntity {
    /// Content that is text as it stands.
    Text(String),
    /// Text that the cipher found in binary content.
    DecryptedText(String),
    /// Content that is not text, with or without the cipher.
    Binary(Vec<u8>),
}

/// Content as plain values.
pub enum ContentView {
    Text(Seq<char>),
    DecryptedText(Seq<char>),
    Binary(Seq<u8>),
}

impl View for ViewerEntity {
    type V = ContentView;

    open spec fn view(&self) -> ContentView {
        match self {
            ViewerEntity::Text(text) => ContentView::Text(text@),
            ViewerEntity::DecryptedText(text) => ContentView::DecryptedText(text@),
            ViewerEntity::Binary(bin) => ContentView::Binary(bin@),
        }
    }
}

impl Clone for ViewerEntity {
    fn clone(&self) -> (r: ViewerEntity)
        ensures
            r@ == self@,
    {
        match self {
            ViewerEntity::Text(text) => ViewerEntity::Text(text.clone()),
            ViewerEntity::DecryptedText(text) => ViewerEntity::DecryptedText(text.clone()),
            ViewerEntity::Binary(bin) => ViewerEntity::Binary(
                vstd::slice::slice_to_vec(bin.as_slice()),
            ),
        }
    }
}

impl PartialEq for ViewerEntity {
    fn eq(&self, other: &ViewerEntity) -> (r: bool) {
        match (self, other) {
            (ViewerEntity::Text(a), ViewerEntity::Text(b)) => *a == *b,
            (ViewerEntity::DecryptedText(a), ViewerEntity::DecryptedText(b)) => *a == *b,
            (ViewerEntity::Binary(a), ViewerEntity::Binary(b)) => {
                let same = *a == *b;
                assert(same == (a@ =~= b@));
                same
            },
            _ => false,
        }
    }
}

impl vstd::std_specs::cmp::PartialEqSpecImpl for ViewerEntity {
    open spec fn obeys_eq_spec() -> bool {
        true
    }

    open spec fn eq_spec(&self, other: &ViewerEntity) -> bool {
        self@ == other@
    }
}

/// The state of a viewer as plain values.
pub struct ViewerView {
    /// The name shown above the content.
    pub name: Option<Seq<char>>,
    /// The content shown.
    pub entity: ContentView,
    /// How many lines the content is scrolled down by.
    pub scroll: int,
    /// The bytes of the session's key.
    pub key: Seq<u8>,
}

/// What the viewer makes of content under a key: binary content becomes
/// decrypted text where it decodes to text, and stays binary where it does
/// not; text stays as it is.
pub open spec fn classified(entity: ContentView, key: Seq<u8>) -> ContentView {
    match entity {
        ContentView::Binary(bin) => match decoded_text(bin, key) {
            Some(text) => ContentView::DecryptedText(text),
            None => ContentView::Binary(bin),
        },
        _ => entity,
    }
}

/// A viewer that shows nothing: empty text, no name, not scrolled.
pub open spec fn blank(key: Seq<u8>) -> ViewerView {
    ViewerView { name: None, entity: ContentView::Text(Seq::empty()), scroll: 0, key }
}

/// The offset after scrolling up by `value` lines: never above the top.
pub open spec fn scrolled_up(scroll: int, value: int) -> int {
    if scroll - value < 0 {
        0
    } else {
        scroll - value
    }
}

/// The offset after scrolling down by `value` lines: never beyond what the
/// offset can hold.
pub open spec fn scrolled_down(scroll: int, value: int) -> int {
    if scroll + value > u16::MAX {
        u16::MAX as int
    } else {
        scroll + value
    }
}

/// The title above the content: the name where there is one, and else what
/// kind of content it is.
pub open spec fn title_of(viewer: ViewerView) -> Seq<char> {
    match viewer.name {
        Some(name) => name,
        None => match viewer.entity {
            ContentView::Text(_) => "Text File"@,
            ContentView::DecryptedText(_) => "Encrypted File"@,
            ContentView::Binary(_) => "Binary File"@,
        },
    }
}

/// The text shown for the content: the text itself, or a note in place of
/// binary content.
pub open spec fn body_of(viewer: ViewerView) -> Seq<char> {
    match viewer.entity {
        ContentView::Text(text) => text,
        ContentView::DecryptedText(text) => text,
        ContentView::Binary(_) => "Binary file"@,
    }
}

/// By how many lines the text shown is shifted up: by the scroll offset for
/// text, and not at all for the note that stands in place of binary content.
pub open spec fn shift_of(viewer: ViewerView) -> int {
    match viewer.entity {
        ContentView::Binary(_) => 0,
        _ => viewer.scroll,
    }
}

/// The colour of the frame round the content: white for text, blue for
/// decrypted text, red for binary content.
pub open spec fn frame_of(viewer: ViewerView) -> Color {
    match viewer.entity {
        ContentView::Text(_) => Color::White,
        ContentView::DecryptedText(_) => Color::Blue,
        ContentView::Binary(_) => Color::Red,
    }
}

/// What a text encoded under the viewer's key is shown as: the text,
/// marked as decrypted.
pub proof fn lemma_encoded_text_is_shown(text: Seq<char>, key: Seq<u8>)
    requires
        valid_key(key),
    ensures
        classified(ContentView::Binary(encoded(encode_utf8(text), key)), key)
            == ContentView::DecryptedText(text),
{
    lemma_text_round_trip(text, key);
}

/// Content that does not decode to text under the key is shown as it came.
pub proof fn lemma_binary_stays(bin: Seq<u8>, key: Seq<u8>)
    requires
        decoded_text(bin, key) is None,
    ensures
        classified(ContentView::Binary(bin), key) == ContentView::Binary(bin),
{
}

/// The viewer.
pub struct Viewer {
    name: Option<String>,
    entity: ViewerEntity,
    scroll: u16,
    key: String,
}

impl View for Viewer {
    type V = ViewerView;

    closed spec fn view(&self) -> ViewerView {
        ViewerView {
            name: text_view(self.name),
            entity: self.entity@,
            scroll: self.scroll as int,
            key: encode_utf8(self.key@),
        }
    }
}

impl Viewer {
    /// Whether the viewer is valid: its key is one that the cipher can use.
    /// Every viewer that this module hands out is, and stays so.
    pub open spec fn wf(&self) -> bool {
        valid_key(self@.key)
    }

    /// A viewer that shows nothing, for a session under `key`. Fails on a
    /// key of fewer than five bytes.
    pub fn new(key: &str) -> (r: Result<Viewer, Error>)
        ensures
            match r {
                Ok(viewer) => valid_key(key.spec_bytes()) && viewer@ == blank(key.spec_bytes())
                    && viewer.wf(),
                Err(error) => !valid_key(key.spec_bytes()) && error@ == ErrorView::InvalidKey,
            },
    {
        if key.as_bytes().len() < KEY_LEN {
            return Err(Error::InvalidKey);
        }
        Ok(
            Viewer {
                name: None,
                entity: ViewerEntity::Text(String::new()),
                scroll: 0,
                key: String::from_str(key),
            },
        )
    }

    /// Shows `entity` under `name`, from its top. Binary content is tried
    /// under the cipher first.
    pub fn set_entity(&mut self, entity: ViewerEntity, name: Option<String>)
        requires
            old(self).wf(),
        ensures
            final(self)@ == (ViewerView {
                name: text_view(name),
                entity: classified(entity@, old(self)@.key),
                scroll: 0,
                key: old(self)@.key,
            }),
            final(self).wf(),
    {
        self.name = name;
        self.scroll = 0;
        match entity {
            ViewerEntity::Text(_) => self.entity = entity,
            ViewerEntity::DecryptedText(_) => self.entity = entity,
            ViewerEntity::Binary(bin) => {
                match decrypt_binary(bin.as_slice(), self.key.as_str()) {
                    Some(text) => self.entity = ViewerEntity::DecryptedText(text),
                    None => self.entity = ViewerEntity::Binary(bin),
                }
            },
        }
    }

    /// The name shown above the content.
    pub fn get_name(&self) -> (name: Option<String>)
        ensures
            text_view(name) == self@.name,
    {
        match &self.name {
            Some(name) => Some(name.clone()),
            None => None,
        }
    }

    /// The content shown.
    pub fn get_entity_ref(&self) -> (entity: &ViewerEntity)
        ensures
            entity@ == self@.entity,
    {
        &self.entity
    }

    /// How many lines the content is scrolled down by.
    pub fn get_scroll(&self) -> (scroll: u16)
        ensures
            scroll == self@.scroll,
    {
        self.scroll
    }

    /// The title above the content.
    pub fn title(&self) -> (text: String)
        ensures
            text@ == title_of(self@),
    {
        match &self.name {
            Some(name) => name.clone(),
            None => match &self.entity {
                ViewerEntity::Text(_) => String::from_str("Text File"),
                ViewerEntity::DecryptedText(_) => String::from_str("Encrypted File"),
                ViewerEntity::Binary(_) => String::from_str("Binary File"),
            },
        }
    }

    /// The text shown for the content.
    pub fn body(&self) -> (text: String)
        ensures
            text@ == body_of(self@),
    {
        match &self.entity {
            ViewerEntity::Text(text) => text.clone(),
            ViewerEntity::DecryptedText(text) => text.clone(),
            ViewerEntity::Binary(_) => String::from_str("Binary file"),
        }
    }

    /// By how many lines the text shown is shifted up.
    pub fn shift(&self) -> (lines: u16)
        ensures
            lines == shift_of(self@),
    {
        match &self.entity {
            ViewerEntity::Binary(_) => 0,
            _ => self.scroll,
        }
    }

    /// The colour of the frame round the content.
    pub fn frame(&self) -> (color: Color)
        ensures
            color == frame_of(self@),
    {
        match &self.entity {
            ViewerEntity::Text(_) => Color::White,
            ViewerEntity::DecryptedText(_) => Color::Blue,
            ViewerEntity::Binary(_) => Color::Red,
        }
    }

    /// Scrolls up by `value` lines, and stops at the top.
    pub fn scroll_up(&mut self, value: u16)
        ensures
            final(self)@ == (ViewerView {
                scroll: scrolled_up(old(self)@.scroll, value as int),
                ..old(self)@
            }),
            old(self).wf() ==> final(self).wf(),
    {
        self.scroll = self.scroll.saturating_sub(value);
    }

    /// Scrolls down by `value` lines, and stops at the largest offset that
    /// the viewer can hold.
    pub fn scroll_down(&mut self, value: u16)
        ensures
            final(self)@ == (ViewerView {
                scroll: scrolled_down(old(self)@.scroll, value as int),
                ..old(self)@
            }),
            old(self).wf() ==> final(self).wf(),
    {
        self.scroll = self.scroll.saturating_add(value);
    }

    /// Shows nothing again: empty text, no name, not scrolled.
    pub fn clear(&mut self)
        ensures
            final(self)@ == blank(old(self)@.key),
            old(self).wf() ==> final(self).wf(),
    {
        self.name = None;
        self.entity = ViewerEntity::Text(String::new());
        self.scroll = 0;
    }
}

} // verus!
