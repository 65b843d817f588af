//! The editor: a text buffer that lives while the user writes, and the two
//! ways to finish it, as plain text or encoded under the session's key.
//!
//! The buffer is the text area of `tui_textarea`. It takes the keys that the
//! user types and keeps the lines; the editor reads the lines when the user
//! is done.

use crate::cipher::{encoded, encrypt_string, valid_key, KEY_LEN};
use crate::error::{Error, ErrorView};
use crossterm::event::KeyEvent;
use tui_textarea::TextArea;
use vstd::prelude::*;
use vstd::string::{StringExecFns, StringSliceAdditionalSpecFns};
use vstd::utf8::encode_utf8;

verus! {

/// A key event of the terminal, carried through as it is.
#[verifier::external_type_specification]
#[verifier::external_body]
pub struct ExKeyEvent(KeyEvent);

/// The text buffer. It holds a `tui_textarea::TextArea`, of which the
/// library knows the lines and the place of the cursor, and nothing else.
#[verifier::external_body]
pub struct Buffer<'a> {
    area: TextArea<'a>,
}

/// The lines that a buffer holds, in order.
pub uninterp spec fn buffer_lines(buffer: Buffer) -> Seq<Seq<char>>;

/// Where the cursor of a buffer stands: its row and its column, both
/// counted from zero, the column in characters.
pub uninterp spec fn buffer_cursor_at(buffer: Buffer) -> (usize, usize);

/// The lines that a buffer holds once it has taken a key event: what the
/// text area makes of the key, given all that it holds.
pub uninterp spec fn buffer_typed(buffer: Buffer, event: KeyEvent) -> Seq<Seq<char>>;

impl<'a> View for Buffer<'a> {
    type V = Seq<Seq<char>>;

    open spec fn view(&self) -> Seq<Seq<char>> {
        buffer_lines(*self)
    }
}

/// Lines of text as plain values.
pub open spec fn lines_view(lines: Seq<String>) -> Seq<Seq<char>> {
    lines.map_values(|line: String| line@)
}

/// Calls `TextArea::default`. Trusted: a new text area holds one empty line.
#[verifier::external_body]
fn buffer_new<'a>() -> (buffer: Buffer<'a>)
    ensures
        buffer_lines(buffer) == seq![Seq::<char>::empty()],
{
    Buffer { area: TextArea::default() }
}

/// Calls `TextArea::into_lines`. Trusted: the call hands out the lines of
/// the text area, unchanged and in order.
#[verifier::external_body]
fn buffer_into_lines(buffer: Buffer) -> (lines: Vec<String>)
    ensures
        lines_view(lines@) == buffer_lines(buffer),
{
    buffer.area.into_lines()
}

/// Calls `TextArea::lines` and copies what it returns. Trusted: these are
/// the lines of the text area, unchanged and in order.
#[verifier::external_body]
fn buffer_copy_lines(buffer: &Buffer) -> (lines: Vec<String>)
    ensures
        lines_view(lines@) == buffer_lines(*buffer),
{
    buffer.area.lines().to_vec()
}

/// Calls `TextArea::cursor`. Trusted: the call returns the place of the text
/// area's cursor, which the text area alone determines.
#[verifier::external_body]
fn buffer_cursor(buffer: &Buffer) -> (at: (usize, usize))
    ensures
        at == buffer_cursor_at(*buffer),
{
    buffer.area.cursor()
}

/// Calls `TextArea::input` with a key event of the terminal. Trusted: the
/// lines afterwards are what the text area makes of the key, which depends
/// on the text area and the key alone; and the call returns whether the key
/// has changed the text, so the lines differ afterwards exactly when it
/// returns true. Nothing is claimed of the cursor.
#[verifier::external_body]
fn buffer_input(buffer: &mut Buffer, event: KeyEvent) -> (changed: bool)
    ensures
        buffer_lines(*final(buffer)) == buffer_typed(*old(buffer), event),
        changed == (buffer_lines(*final(buffer)) != buffer_lines(*old(buffer))),
{
    buffer.area.input(event)
}

impl<'a> Buffer<'a> {
    /// A copy of the lines.
    pub fn lines(&self) -> (lines: Vec<String>)
        ensures
            lines_view(lines@) == self@,
    {
        buffer_copy_lines(self)
    }

    /// Where the cursor stands: its row and its column, both counted from
    /// zero, the column in characters.
    pub open spec fn cursor_at(&self) -> (usize, usize) {
        buffer_cursor_at(*self)
    }

    /// The row and the column of the cursor.
    pub fn cursor(&self) -> (at: (usize, usize))
        ensures
            at == self.cursor_at(),
    {
        buffer_cursor(self)
    }

    /// Takes a key, and returns whether the key has changed the text: the
    /// lines differ afterwards exactly when it has. The lines are then what
    /// the text area makes of the key.
    pub fn input(&mut self, event: KeyEvent) -> (changed: bool)
        ensures
            final(self)@ == buffer_typed(*old(self), event),
            changed == (final(self)@ != old(self)@),
    {
        buffer_input(self, event)
    }
}

/// The lines joined into one text, with a line feed between each two.
pub open spec fn joined(lines: Seq<Seq<char>>) -> Seq<char>
    decreases lines.len(),
{
    if lines.len() == 0 {
        Seq::empty()
    } else if lines.len() == 1 {
        lines[0]
    } else {
        joined(lines.drop_last()) + seq!['\n'] + lines.last()
    }
}

/// The text that finishing an editor gives: the joined lines of its buffer,
/// or nothing where it has no buffer.
pub open spec fn finished_text(buffer: Option<Seq<Seq<char>>>) -> Seq<char> {
    match buffer {
        Some(lines) => joined(lines),
        None => Seq::empty(),
    }
}

/// The bytes that finishing an editor with encryption gives: the finished
/// text, encoded under the key.
pub open spec fn finished_bytes(buffer: Option<Seq<Seq<char>>>, key: Seq<u8>) -> Seq<u8> {
    encoded(encode_utf8(finished_text(buffer)), key)
}

/// Joins lines into one text, with a line feed between each two.
pub fn join_lines(lines: &Vec<String>) -> (text: String)
    ensures
        text@ == joined(lines_view(lines@)),
{
    let ghost all = lines_view(lines@);
    let mut text = String::new();
    let mut i: usize = 0;
    assert(all.take(0) =~= Seq::empty());
    while i < lines.len()
        invariant
            all == lines_view(lines@),
            i <= lines@.len(),
            text@ == joined(all.take(i as int)),
        decreases lines@.len() - i,
    {
        proof {
            reveal_strlit("\n");
            assert(all.take(i + 1).drop_last() =~= all.take(i as int));
            assert(all.take(i + 1).last() == lines@[i as int]@);
        }
        if i > 0 {
            text.append("\n");
            assert("\n"@ =~= seq!['\n']);
        }
        text.append(lines[i].as_str());
        i += 1;
    }
    assert(all.take(i as int) =~= all);
    text
}

/// The state of an editor as plain values.
pub struct EditorView {
    /// The lines of the buffer, while there is one.
    pub buffer: Option<Seq<Seq<char>>>,
    /// The bytes of the session's key.
    pub key: Seq<u8>,
}

/// The editor.
pub struct Editor<'a> {
    textarea: Option<Buffer<'a>>,
    key: String,
}

impl<'a> View for Editor<'a> {
    type V = EditorView;

    closed spec fn view(&self) -> EditorView {
        EditorView {
            buffer: match self.textarea {
                Some(buffer) => Some(buffer@),
                None => None,
            },
            key: encode_utf8(self.key@),
        }
    }
}

impl<'a> Editor<'a> {
    /// Whether the editor is valid: its key is one that the cipher can use.
    /// Every editor that this module hands out is, and stays so.
    pub open spec fn wf(&self) -> bool {
        valid_key(self@.key)
    }

    /// The buffer itself, while there is one.
    pub closed spec fn textarea(&self) -> Option<Buffer<'a>> {
        self.textarea
    }

    /// The lines that the editor shows are those of its buffer.
    pub proof fn lemma_lines_of_textarea(&self)
        ensures
            self@.buffer == match self.textarea() {
                Some(buffer) => Some(buffer@),
                None => None,
            },
    {
    }

    /// An editor without a buffer, for a session under `key`. Fails on a
    /// key of fewer than five bytes.
    pub fn new(key: &str) -> (r: Result<Editor<'a>, Error>)
        ensures
            match r {
                Ok(editor) => valid_key(key.spec_bytes()) && editor@ == (EditorView {
                    buffer: None,
                    key: key.spec_bytes(),
                }) && editor.wf(),
                Err(error) => !valid_key(key.spec_bytes()) && error@ == ErrorView::InvalidKey,
            },
    {
        if key.as_bytes().len() < KEY_LEN {
            return Err(Error::InvalidKey);
        }
        Ok(Editor { textarea: None, key: String::from_str(key) })
    }

    /// Starts a new text: the editor gets a buffer of one empty line, in
    /// place of any that it had.
    pub fn init(&mut self)
        ensures
            final(self)@ == (EditorView {
                buffer: Some(seq![Seq::<char>::empty()]),
                ..old(self)@
            }),
            old(self).wf() ==> final(self).wf(),
    {
        self.textarea = Some(buffer_new());
    }

    /// Whether the editor has a buffer.
    pub fn is_editing(&self) -> (r: bool)
        ensures
            r == self@.buffer is Some,
    {
        self.textarea.is_some()
    }

    /// The buffer, while there is one.
    pub fn get_textarea_ref(&self) -> (buffer: Option<&Buffer<'a>>)
        ensures
            match buffer {
                Some(buffer) => self@.buffer == Some(buffer@) && self.textarea() == Some(*buffer),
                None => self@.buffer is None,
            },
    {
        self.textarea.as_ref()
    }

    /// The buffer, while there is one, for the caller to change. Whatever
    /// the caller leaves in the buffer is what the editor holds afterwards.
    pub fn get_textarea_mut(&mut self) -> (buffer: Option<&mut Buffer<'a>>)
        ensures
            match buffer {
                Some(buffer) => old(self)@.buffer == Some(buffer@) && old(self).textarea() == Some(
                    *buffer,
                ) && final(self)@ == (EditorView { buffer: Some(final(buffer)@), ..old(self)@ }),
                None => old(self)@.buffer is None && final(self)@ == old(self)@,
            },
    {
        self.textarea.as_mut()
    }

    /// Ends the editing and returns the text: the lines of the buffer,
    /// joined by line feeds. The buffer is gone afterwards. Without a buffer
    /// the text is empty.
    pub fn finish(&mut self) -> (r: Result<String, Error>)
        ensures
            final(self)@ == (EditorView { buffer: None, ..old(self)@ }),
            r is Ok,
            r->Ok_0@ == finished_text(old(self)@.buffer),
            old(self).wf() ==> final(self).wf(),
    {
        match self.textarea.take() {
            Some(buffer) => Ok(join_lines(&buffer_into_lines(buffer))),
            None => Ok(String::new()),
        }
    }

    /// Ends the editing and returns the text encoded under the key. The
    /// buffer is gone afterwards. Without a buffer there are no bytes.
    pub fn finish_encrypt(&mut self) -> (r: Result<Vec<u8>, Error>)
        requires
            old(self).wf(),
        ensures
            final(self)@ == (EditorView { buffer: None, ..old(self)@ }),
            r is Ok,
            r->Ok_0@ == finished_bytes(old(self)@.buffer, old(self)@.key),
            final(self).wf(),
    {
        match self.textarea.take() {
            Some(buffer) => {
                let text = join_lines(&buffer_into_lines(buffer));
                Ok(encrypt_string(text.as_str(), self.key.as_str()))
            },
            None => {
                assert(encoded(encode_utf8(Seq::<char>::empty()), old(self)@.key) =~= Seq::<
                    u8,
                >::empty()) by {
                    assert(encode_utf8(Seq::<char>::empty()).len() == 0);
                }
                Ok(Vec::new())
            },
        }
    }
}

} // verus!
