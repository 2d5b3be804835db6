//! Clipboard contents and pasting through the clipboard.

use std::time::Duration;

use vstd::prelude::*;

use vstd::utf8::encode_utf8;

use crate::chars::{str_utf16, utf16_of};
use crate::expand::clipboard_var::text_view;
use crate::expand::ClipboardReader;

use super::{InjectError, KeyboardAction, KeyboardActionV, KeyboardSink};

verus! {

/// The clipboard format of ANSI text.
pub const CF_TEXT_FORMAT: u32 = 1;

/// The clipboard format of UTF-16 text.
pub const CF_UNICODETEXT_FORMAT: u32 = 13;

/// One clipboard format and its bytes.
#[derive(Debug, Clone)]
pub struct ClipboardFormat {
    pub format: u32,
    pub bytes: Vec<u8>,
}

/// Every format the clipboard held, in enumeration order.
#[derive(Debug, Clone)]
pub struct ClipboardSnapshot {
    pub formats: Vec<ClipboardFormat>,
}

/// What `String::from_utf16` gives for `units`: the UTF-16 decoding, where a
/// unit outside U+D800..U+DFFF is one character, a high surrogate followed
/// by a low surrogate is the supplementary character they encode, and any
/// other surrogate makes the units invalid (`None`).
pub open spec fn std_from_utf16(units: Seq<u16>) -> Option<Seq<char>>
    decreases units.len(),
{
    if units.len() == 0 {
        Some(Seq::empty())
    } else if units[0] < 0xD800 || units[0] > 0xDFFF {
        match std_from_utf16(units.skip(1)) {
            Some(rest) => Some(seq![units[0] as char] + rest),
            None => None,
        }
    } else if units[0] <= 0xDBFF && units.len() >= 2 && 0xDC00 <= units[1] <= 0xDFFF {
        let c = 0x10000 + (units[0] - 0xD800) * 0x400 + (units[1] - 0xDC00);
        match std_from_utf16(units.skip(2)) {
            Some(rest) => Some(seq![c as char] + rest),
            None => None,
        }
    } else {
        None
    }
}

/// Calls `String::from_utf16`, which decodes UTF-16 and fails on an unpaired
/// surrogate.
#[verifier::external_body]
fn string_from_utf16(units: &Vec<u16>) -> (r: Option<String>)
    ensures
        match (r, std_from_utf16(units@)) {
            (Some(s), Some(t)) => s@ == t,
            (None, None) => true,
            _ => false,
        },
{
    String::from_utf16(units).ok()
}

/// The little-endian 16-bit units of `bytes` (a trailing odd byte is
/// dropped), up to the first zero unit.
pub open spec fn units_before_nul(bytes: Seq<u8>, i: int) -> Seq<u16>
    decreases bytes.len() - i,
{
    if i < 0 || i + 2 > bytes.len() {
        Seq::empty()
    } else {
        let unit = (bytes[i] as int + 256 * bytes[i + 1] as int) as u16;
        if unit == 0 {
            Seq::empty()
        } else {
            seq![unit] + units_before_nul(bytes, i + 2)
        }
    }
}

/// Decodes NUL-terminated little-endian UTF-16 bytes.
pub fn decode_utf16_bytes(bytes: &Vec<u8>) -> (r: Option<String>)
    ensures
        match (r, std_from_utf16(units_before_nul(bytes@, 0))) {
            (Some(s), Some(t)) => s@ == t,
            (None, None) => true,
            _ => false,
        },
{
    let mut units: Vec<u16> = Vec::new();
    let mut i: usize = 0;
    while bytes.len() - i >= 2
        invariant_except_break
            i % 2 == 0,
            i <= bytes@.len(),
            units@ + units_before_nul(bytes@, i as int) == units_before_nul(bytes@, 0),
        ensures
            units@ == units_before_nul(bytes@, 0),
        decreases bytes.len() - i,
    {
        let unit: u16 = (bytes[i] as u16) + 256 * (bytes[i + 1] as u16);
        if unit == 0 {
            assert(units_before_nul(bytes@, i as int) == Seq::<u16>::empty());
            assert(units@ =~= units@ + Seq::<u16>::empty());
            break;
        }
        let ghost before = units@;
        units.push(unit);
        assert(units@ + units_before_nul(bytes@, i + 2) =~= before + units_before_nul(
            bytes@,
            i as int,
        ));
        i = i + 2;
    }
    proof {
        if bytes.len() - i < 2 {
            assert(units@ =~= units@ + units_before_nul(bytes@, i as int));
        }
    }
    string_from_utf16(&units)
}

/// Position of the first format entry of kind `format` at or after `i`.
pub open spec fn first_format_from(formats: Seq<ClipboardFormat>, format: u32, i: int) -> Option<int>
    decreases formats.len() - i,
{
    if i < 0 || i >= formats.len() {
        None
    } else if formats[i].format == format {
        Some(i)
    } else {
        first_format_from(formats, format, i + 1)
    }
}

/// The text a snapshot holds, as `ClipboardSnapshot::text_content` reads it:
/// the first UTF-16 text entry, decoded.
pub open spec fn snapshot_text(formats: Seq<ClipboardFormat>) -> Option<Seq<char>> {
    match first_format_from(formats, CF_UNICODETEXT_FORMAT, 0) {
        None => None,
        Some(k) => std_from_utf16(units_before_nul(formats[k].bytes@, 0)),
    }
}

impl ClipboardSnapshot {
    /// The text of the first UTF-16 text entry, if it decodes.
    pub fn text_content(&self) -> (r: Option<String>)
        ensures
            match (r, snapshot_text(self.formats@)) {
                (Some(s), Some(t)) => s@ == t,
                (None, None) => true,
                _ => false,
            },
    {
        let mut i: usize = 0;
        while i < self.formats.len()
            invariant
                i <= self.formats@.len(),
                first_format_from(self.formats@, CF_UNICODETEXT_FORMAT, 0) == first_format_from(
                    self.formats@,
                    CF_UNICODETEXT_FORMAT,
                    i as int,
                ),
            decreases self.formats.len() - i,
        {
            if self.formats[i].format == CF_UNICODETEXT_FORMAT {
                return decode_utf16_bytes(&self.formats[i].bytes);
            }
            i = i + 1;
        }
        None
    }
}

/// The little-endian bytes of `units`.
pub open spec fn le_bytes(units: Seq<u16>) -> Seq<u8>
    decreases units.len(),
{
    if units.len() == 0 {
        Seq::empty()
    } else {
        le_bytes(units.drop_last()) + seq![
            (units.last() % 256) as u8,
            (units.last() / 256) as u8,
        ]
    }
}

/// The formats that put `text` on the clipboard: NUL-terminated UTF-16
/// (little-endian) first, then NUL-terminated UTF-8 as ANSI text.
pub open spec fn text_formats(text: Seq<char>) -> Seq<(u32, Seq<u8>)> {
    seq![
        (CF_UNICODETEXT_FORMAT, le_bytes(utf16_of(text).push(0u16))),
        (CF_TEXT_FORMAT, encode_utf8(text).push(0u8)),
    ]
}

/// The clipboard formats that hold `text`.
pub fn clipboard_text_formats(text: &str) -> (r: Vec<ClipboardFormat>)
    ensures
        r@.len() == 2,
        forall|k: int|
            0 <= k < 2 ==> (#[trigger] r@[k]).format == text_formats(text@)[k].0 && r@[k].bytes@
                == text_formats(text@)[k].1,
{
    let mut units = str_utf16(text);
    units.push(0);
    let mut wide: Vec<u8> = Vec::new();
    let mut i: usize = 0;
    while i < units.len()
        invariant
            i <= units@.len(),
            wide@ == le_bytes(units@.take(i as int)),
        decreases units.len() - i,
    {
        let u = units[i];
        wide.push((u % 256) as u8);
        wide.push((u / 256) as u8);
        assert(units@.take(i + 1).drop_last() =~= units@.take(i as int));
        i = i + 1;
        assert(wide@ =~= le_bytes(units@.take(i as int)));
    }
    assert(units@.take(units@.len() as int) =~= units@);
    let bytes = text.as_bytes();
    let mut ansi: Vec<u8> = Vec::new();
    let mut j: usize = 0;
    while j < bytes.len()
        invariant
            j <= bytes@.len(),
            ansi@ == bytes@.take(j as int),
        decreases bytes.len() - j,
    {
        ansi.push(bytes[j]);
        j = j + 1;
        assert(ansi@ =~= bytes@.take(j as int));
    }
    assert(bytes@.take(bytes@.len() as int) =~= bytes@);
    ansi.push(0);
    let mut r: Vec<ClipboardFormat> = Vec::new();
    r.push(ClipboardFormat { format: CF_UNICODETEXT_FORMAT, bytes: wide });
    r.push(ClipboardFormat { format: CF_TEXT_FORMAT, bytes: ansi });
    r
}

/// How a paste through the clipboard went.
#[derive(Debug)]
pub enum ClipboardPasteResult {
    /// The text was pasted and the clipboard restored.
    Pasted,
    /// The text was pasted; restoring the earlier clipboard failed.
    PastedRestoreFailed(InjectError),
    /// Nothing was pasted.
    Failed(InjectError),
}

/// A clipboard that can paste text into the active application. Each
/// paste asked for is recorded with its timeout.
pub trait ClipboardBackend: ClipboardReader + Send + 'static {
    /// Each paste so far, in order: its text, its timeout and whether the
    /// text reached the sink.
    closed spec fn pastes(&self) -> Seq<(Seq<char>, Duration, bool)> {
        Seq::empty()
    }

    /// Puts `text` on the clipboard, hands one `Paste` action to `sink` and
    /// restores the clipboard; on `Failed` nothing reached the sink.
    fn paste<K: KeyboardSink>(
        &mut self,
        sink: &mut K,
        text: &str,
        timeout: Duration,
    ) -> (r: ClipboardPasteResult)
        ensures
            final(self).pastes() == old(self).pastes().push((text@, timeout, !(r is Failed))),
            final(self).reads() == old(self).reads(),
            match r {
                ClipboardPasteResult::Failed(_) => final(sink).sent() == old(sink).sent(),
                _ => final(sink).sent() == old(sink).sent().push(KeyboardActionV::Paste(text@)),
            },
    ;
}

/// A clipboard that holds nothing and pastes by handing the action on.
pub struct MockClipboardBackend {
    read: Ghost<Seq<Option<Seq<char>>>>,
    pasted: Ghost<Seq<(Seq<char>, Duration, bool)>>,
}

impl MockClipboardBackend {
    /// A clipboard that has been asked nothing.
    pub fn new() -> (r: Self)
        ensures
            r.reads() == Seq::<Option<Seq<char>>>::empty(),
            r.pastes() == Seq::<(Seq<char>, Duration, bool)>::empty(),
    {
        MockClipboardBackend { read: Ghost(Seq::empty()), pasted: Ghost(Seq::empty()) }
    }
}

impl ClipboardReader for MockClipboardBackend {
    closed spec fn reads(&self) -> Seq<Option<Seq<char>>> {
        self.read@
    }

    fn read_text(&mut self) -> (r: Option<String>)
        ensures
            r is None,
    {
        proof {
            self.read@ = self.read@.push(None);
        }
        None
    }
}

impl ClipboardBackend for MockClipboardBackend {
    closed spec fn pastes(&self) -> Seq<(Seq<char>, Duration, bool)> {
        self.pasted@
    }

    fn paste<K: KeyboardSink>(&mut self, sink: &mut K, text: &str, timeout: Duration) -> (r:
        ClipboardPasteResult)
        ensures
            r is Pasted,
    {
        proof {
            self.pasted@ = self.pasted@.push((text@, timeout, true));
        }
        sink.send(KeyboardAction::Paste(String::from_str(text)));
        ClipboardPasteResult::Pasted
    }
}

/// A clipboard with fixed text, for tests.
pub struct TestClipboardBackend {
    text: Option<String>,
    read: Ghost<Seq<Option<Seq<char>>>>,
    pasted: Ghost<Seq<(Seq<char>, Duration, bool)>>,
}

impl TestClipboardBackend {
    /// A clipboard holding `text`.
    pub fn with_text(text: &str) -> (r: Self)
        ensures
            r.spec_text() == Some(text@),
            r.reads() == Seq::<Option<Seq<char>>>::empty(),
            r.pastes() == Seq::<(Seq<char>, Duration, bool)>::empty(),
    {
        TestClipboardBackend {
            text: Some(String::from_str(text)),
            read: Ghost(Seq::empty()),
            pasted: Ghost(Seq::empty()),
        }
    }

    /// The text it holds.
    pub closed spec fn spec_text(&self) -> Option<Seq<char>> {
        match self.text {
            Some(t) => Some(t@),
            None => None,
        }
    }
}

impl ClipboardReader for TestClipboardBackend {
    closed spec fn reads(&self) -> Seq<Option<Seq<char>>> {
        self.read@
    }

    fn read_text(&mut self) -> (r: Option<String>)
        ensures
            final(self).spec_text() == old(self).spec_text(),
            text_view(r) == old(self).spec_text(),
    {
        let r = self.text.clone();
        proof {
            self.read@ = self.read@.push(text_view(r));
        }
        r
    }
}

impl ClipboardBackend for TestClipboardBackend {
    closed spec fn pastes(&self) -> Seq<(Seq<char>, Duration, bool)> {
        self.pasted@
    }

    fn paste<K: KeyboardSink>(&mut self, sink: &mut K, text: &str, timeout: Duration) -> (r:
        ClipboardPasteResult)
        ensures
            r is Pasted,
            final(self).spec_text() == old(self).spec_text(),
    {
        proof {
            self.pasted@ = self.pasted@.push((text@, timeout, true));
        }
        sink.send(KeyboardAction::Paste(String::from_str(text)));
        ClipboardPasteResult::Pasted
    }
}

} // verus!
