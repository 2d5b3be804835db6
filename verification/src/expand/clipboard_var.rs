//! The clipboard placeholder.

use vstd::prelude::*;

verus! {

/// A read clipboard text by value.
pub open spec fn text_view(t: Option<String>) -> Option<Seq<char>> {
    match t {
        Some(s) => Some(s@),
        None => None,
    }
}

/// The placeholder value for what a read gave: the text, or nothing.
pub open spec fn clipboard_text(t: Option<Seq<char>>) -> Seq<char> {
    match t {
        Some(s) => s,
        None => Seq::empty(),
    }
}

/// Reads the current clipboard text, if there is any. What a read gives
/// depends on the clipboard at the time; each answer is recorded.
pub trait ClipboardReader {
    /// What each read so far gave, in order.
    closed spec fn reads(&self) -> Seq<Option<Seq<char>>> {
        Seq::empty()
    }

    fn read_text(&mut self) -> (r: Option<String>)
        ensures
            final(self).reads() == old(self).reads().push(text_view(r)),
    ;
}

/// The value of the clipboard placeholder given what the clipboard held:
/// its text, or the empty string when there was none.
pub fn clipboard_value(text: Option<String>) -> (r: String)
    ensures
        r@ == (match text {
            Some(t) => t@,
            None => Seq::<char>::empty(),
        }),
{
    match text {
        Some(text) => text,
        None => String::new(),
    }
}

/// The clipboard text, or the empty string when there is none: one read,
/// whose answer gives the value.
pub fn resolve_clipboard<C: ClipboardReader>(reader: &mut C) -> (r: String)
    ensures
        final(reader).reads().len() == old(reader).reads().len() + 1,
        final(reader).reads().drop_last() == old(reader).reads(),
        r@ == clipboard_text(final(reader).reads().last()),
{
    let text = reader.read_text();
    proof {
        assert(reader.reads().drop_last() =~= old(reader).reads());
    }
    clipboard_value(text)
}

} // verus!
