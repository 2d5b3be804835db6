//! Form states and outcomes, the form window's route, and giving the focus
//! back after a submitted form.

use vstd::prelude::*;
use vstd::utf8::encode_utf8;

use crate::chars::{push_char, str_eq};

use super::focus::{FocusBackend, FocusError, ForegroundWindow};

verus! {

/// Where a form stands.
#[derive(Debug, Clone, PartialEq, Eq)]
pub enum FormState {
    Pending { hwnd: ForegroundWindow, snippet_id: String },
    Submitted { values: Vec<(String, String)> },
    Cancelled,
}

/// How a form ended: the submitted values by variable name, or cancelled.
#[derive(Debug, Clone, PartialEq, Eq)]
pub enum FormOutcome {
    Submitted(Vec<(String, String)>),
    Cancelled,
}

/// Why a form could not run.
#[derive(Debug, Clone, PartialEq, Eq)]
pub enum FormError {
    AlreadyOpen,
    Window(String),
    ChannelClosed,
}

/// Opens the form window for a snippet. Each request is recorded with the
/// answer it got.
pub trait WindowSink: Send + Sync + 'static {
    /// Each form asked for so far, in order: the snippet id, the window to
    /// return to, and the answer.
    closed spec fn opened(&self) -> Seq<(Seq<char>, ForegroundWindow, Result<(), FormError>)> {
        Seq::empty()
    }

    fn open_form(&mut self, snippet_id: &str, hwnd: ForegroundWindow) -> (r: Result<(), FormError>)
        ensures
            final(self).opened() == old(self).opened().push((snippet_id@, hwnd, r)),
    ;
}

/// A window sink that opens nothing and always succeeds.
pub struct NoopWindowSink {
    asked: Ghost<Seq<(Seq<char>, ForegroundWindow, Result<(), FormError>)>>,
}

impl NoopWindowSink {
    /// A sink that has been asked nothing.
    pub fn new() -> (r: Self)
        ensures
            r.opened() == Seq::<(Seq<char>, ForegroundWindow, Result<(), FormError>)>::empty(),
    {
        NoopWindowSink { asked: Ghost(Seq::empty()) }
    }
}

impl WindowSink for NoopWindowSink {
    closed spec fn opened(&self) -> Seq<(Seq<char>, ForegroundWindow, Result<(), FormError>)> {
        self.asked@
    }

    fn open_form(&mut self, snippet_id: &str, hwnd: ForegroundWindow) -> (r: Result<(), FormError>)
        ensures
            r is Ok,
    {
        let r = Ok(());
        proof {
            self.asked@ = self.asked@.push((snippet_id@, hwnd, r));
        }
        r
    }
}

/// Bytes left as they are in a path segment: ASCII letters, digits and `-._~`.
pub open spec fn unreserved(b: u8) -> bool {
    (0x41 <= b <= 0x5A) || (0x61 <= b <= 0x7A) || (0x30 <= b <= 0x39) || b == 0x2D || b == 0x2E
        || b == 0x5F || b == 0x7E
}

/// The upper-case hexadecimal digit of `d`.
pub open spec fn hex_digit(d: u8) -> char {
    if d < 10 {
        ((0x30 + d) as u32) as char
    } else {
        ((0x41 + d - 10) as u32) as char
    }
}

/// How one byte appears in an encoded path segment.
pub open spec fn encode_byte(b: u8) -> Seq<char> {
    if unreserved(b) {
        seq![(b as u32) as char]
    } else {
        seq!['%', hex_digit(b / 16), hex_digit(b % 16)]
    }
}

/// Percent-encoding of `bytes`.
pub open spec fn percent_encode(bytes: Seq<u8>) -> Seq<char>
    decreases bytes.len(),
{
    if bytes.len() == 0 {
        Seq::empty()
    } else {
        percent_encode(bytes.drop_last()) + encode_byte(bytes.last())
    }
}

fn hex_char(d: u8) -> (r: char)
    requires
        d < 16,
    ensures
        r == hex_digit(d),
{
    if d < 10 {
        ((0x30 + d) as u8) as char
    } else {
        ((0x41 + d - 10) as u8) as char
    }
}

/// Percent-encodes the UTF-8 bytes of `value`, leaving unreserved bytes.
pub fn encode_path_segment(value: &str) -> (r: String)
    ensures
        r@ == percent_encode(encode_utf8(value@)),
{
    let bytes = value.as_bytes();
    let mut encoded = String::new();
    let mut i: usize = 0;
    while i < bytes.len()
        invariant
            i <= bytes@.len(),
            bytes@ == encode_utf8(value@),
            encoded@ == percent_encode(bytes@.take(i as int)),
        decreases bytes.len() - i,
    {
        let b = bytes[i];
        let ghost before = encoded@;
        if (0x41 <= b && b <= 0x5A) || (0x61 <= b && b <= 0x7A) || (0x30 <= b && b <= 0x39) || b
            == 0x2D || b == 0x2E || b == 0x5F || b == 0x7E {
            push_char(&mut encoded, b as char);
        } else {
            push_char(&mut encoded, '%');
            push_char(&mut encoded, hex_char(b / 16));
            push_char(&mut encoded, hex_char(b % 16));
        }
        assert(bytes@.take(i + 1).drop_last() =~= bytes@.take(i as int));
        assert(encoded@ =~= before + encode_byte(b));
        i = i + 1;
    }
    assert(bytes@.take(bytes@.len() as int) =~= bytes@);
    encoded
}

/// Width of the form window, in pixels.
pub const FORM_WIDTH: i32 = 400;

/// Height of the form window, in pixels.
pub const FORM_HEIGHT: i32 = 240;

/// Half of `d`, rounded toward zero as integer division does.
pub open spec fn half_toward_zero(d: int) -> int {
    if d >= 0 { d / 2 } else { -((-d) / 2) }
}

/// Where a window of `width` by `height` goes to be centred in the work
/// area from (`left`, `top`) to (`right`, `bottom`): each origin is the
/// area's near edge plus half of the room left over, rounded toward zero
/// (negative when the window is the larger).
pub fn center_in_work_area(left: i32, top: i32, right: i32, bottom: i32, width: i32, height: i32) -> (r: (i32, i32))
    requires
        i32::MIN <= right - left <= i32::MAX,
        i32::MIN <= right - left - width <= i32::MAX,
        i32::MIN <= bottom - top <= i32::MAX,
        i32::MIN <= bottom - top - height <= i32::MAX,
        i32::MIN <= left + half_toward_zero(right - left - width) <= i32::MAX,
        i32::MIN <= top + half_toward_zero(bottom - top - height) <= i32::MAX,
    ensures
        r.0 == left + half_toward_zero(right - left - width),
        r.1 == top + half_toward_zero(bottom - top - height),
{
    let room_x: i64 = right as i64 - left as i64 - width as i64;
    let room_y: i64 = bottom as i64 - top as i64 - height as i64;
    let half_x: i64 = if room_x >= 0 { room_x / 2 } else { -((-room_x) / 2) };
    let half_y: i64 = if room_y >= 0 { room_y / 2 } else { -((-room_y) / 2) };
    let x: i64 = left as i64 + half_x;
    let y: i64 = top as i64 + half_y;
    (x as i32, y as i32)
}

/// The route of the form window for a snippet: `/form/` and the encoded id.
pub fn form_route(snippet_id: &str) -> (r: String)
    ensures
        r@ == "/form/"@ + percent_encode(encode_utf8(snippet_id@)),
{
    let encoded = encode_path_segment(snippet_id);
    crate::chars::concat_str("/form/", encoded.as_str())
}

/// After a submitted form the focus goes back to `hwnd` (one restore, whose
/// answer is returned); after a cancelled one nothing is asked and the
/// answer is `Ok`.
pub fn restore_on_submit<B: FocusBackend>(focus: &mut B, hwnd: ForegroundWindow, outcome: &FormOutcome) -> (r: Result<(), FocusError>)
    ensures
        final(focus).captures() == old(focus).captures(),
        outcome is Cancelled ==> r is Ok && final(focus).restores() == old(focus).restores(),
        outcome is Submitted ==> final(focus).restores() == old(focus).restores().push((hwnd, r)),
{
    match outcome {
        FormOutcome::Submitted(_) => focus.restore_foreground(hwnd),
        FormOutcome::Cancelled => Ok(()),
    }
}


/// An encoded path segment holds only unreserved characters and `%`
/// escapes, so it never contains `/`, `?`, `#` or a space.
pub proof fn lemma_encoded_segment_is_safe(bytes: Seq<u8>)
    ensures
        forall|i: int|
            0 <= i < percent_encode(bytes).len() ==> {
                let c = #[trigger] percent_encode(bytes)[i];
                c != '/' && c != '?' && c != '#' && c != ' '
            },
    decreases bytes.len(),
{
    if bytes.len() > 0 {
        lemma_encoded_segment_is_safe(bytes.drop_last());
        let b = bytes.last();
        let e = encode_byte(b);
        assert forall|i: int| 0 <= i < e.len() implies {
            let c = #[trigger] e[i];
            c != '/' && c != '?' && c != '#' && c != ' '
        } by {
            if unreserved(b) {
                assert(e[i] == (b as u32) as char);
            } else {
                assert(b / 16 < 16 && b % 16 < 16);
            }
        }
        let p = percent_encode(bytes.drop_last());
        assert(percent_encode(bytes) == p + e);
        assert forall|i: int| 0 <= i < percent_encode(bytes).len() implies {
            let c = #[trigger] percent_encode(bytes)[i];
            c != '/' && c != '?' && c != '#' && c != ' '
        } by {
            if i < p.len() {
                assert(percent_encode(bytes)[i] == p[i]);
            } else {
                assert(percent_encode(bytes)[i] == e[i - p.len()]);
            }
        }
    }
}


/// The name of an outcome, for logs.
pub fn form_outcome_label(outcome: &FormOutcome) -> (r: &'static str)
    ensures
        r@ == (if outcome is Submitted {
            "submitted"@
        } else {
            "cancelled"@
        }),
{
    match outcome {
        FormOutcome::Submitted(_) => "submitted",
        FormOutcome::Cancelled => "cancelled",
    }
}

/// How a form that ended in `state` came out: submitted values, or
/// cancelled (also when it never left the pending state).
pub fn outcome_of(state: FormState) -> (r: FormOutcome)
    ensures
        match state {
            FormState::Submitted { values } => r == FormOutcome::Submitted(values),
            _ => r == FormOutcome::Cancelled,
        },
{
    match state {
        FormState::Submitted { values } => FormOutcome::Submitted(values),
        _ => FormOutcome::Cancelled,
    }
}

/// The snippet a form is for: that of a pending form, none otherwise.
pub open spec fn state_snippet_id(state: FormState) -> Seq<char> {
    match state {
        FormState::Pending { snippet_id, .. } => snippet_id@,
        _ => Seq::empty(),
    }
}

/// The snippet a form is for.
pub fn state_snippet_id_of(state: &FormState) -> (r: &str)
    ensures
        r@ == state_snippet_id(*state),
{
    match state {
        FormState::Pending { snippet_id, .. } => snippet_id.as_str(),
        _ => {
            proof {
                reveal_strlit("");
            }
            ""
        },
    }
}

/// At most one form at a time: the form window sink and the form in flight.
/// The answer a form gets is handed over by the caller.
pub struct FormRunner<W: WindowSink> {
    sink: W,
    in_flight: Option<FormState>,
}

impl<W: WindowSink> FormRunner<W> {
    /// The form in flight.
    pub closed spec fn spec_in_flight(&self) -> Option<FormState> {
        self.in_flight
    }

    /// The window sink.
    pub closed spec fn spec_sink(&self) -> W {
        self.sink
    }

    /// A runner with no form in flight.
    pub fn new_with_sink(sink: W) -> (r: Self)
        ensures
            r.spec_in_flight() is None,
            r.spec_sink() == sink,
    {
        FormRunner { sink, in_flight: None }
    }

    /// Opens the form for `snippet_id`, to return to `hwnd`: refused while
    /// another form is in flight; a window error is passed on; otherwise the
    /// form is pending.
    pub fn begin(&mut self, snippet_id: &str, hwnd: ForegroundWindow) -> (r: Result<(), FormError>)
        ensures
            old(self).spec_in_flight() is Some ==> r == Err::<(), FormError>(FormError::AlreadyOpen)
                && final(self).spec_in_flight() == old(self).spec_in_flight(),
            old(self).spec_in_flight() is None && r is Ok ==> (final(self).spec_in_flight() matches Some(
                FormState::Pending { hwnd: h, snippet_id: id },
            ) && h == hwnd && id@ == snippet_id@),
            old(self).spec_in_flight() is None && r is Err ==> final(self).spec_in_flight() is None,
            old(self).spec_in_flight() is Some ==> final(self).spec_sink() == old(self).spec_sink(),
            old(self).spec_in_flight() is None ==> exists|answer: Result<(), FormError>|
                #![trigger old(self).spec_sink().opened().push((snippet_id@, hwnd, answer))]
                final(self).spec_sink().opened() == old(self).spec_sink().opened().push(
                    (snippet_id@, hwnd, answer),
                ) && (r is Ok <==> answer is Ok) && (answer is Err ==> r == answer),
    {
        if self.in_flight.is_some() {
            return Err(FormError::AlreadyOpen);
        }
        let answer = self.sink.open_form(snippet_id, hwnd);
        assert(self.spec_sink().opened() == old(self).spec_sink().opened().push((snippet_id@, hwnd, answer)));
        if answer.is_err() {
            return answer;
        }
        self.in_flight = Some(FormState::Pending { hwnd, snippet_id: String::from_str(snippet_id) });
        Ok(())
    }

    /// Submits `values` for `snippet_id`: when that snippet's form is in
    /// flight it ends, and the state to hand to the waiting run is
    /// returned; a submit for another snippet changes nothing.
    pub fn submit(&mut self, snippet_id: &str, values: Vec<(String, String)>) -> (r: Option<FormState>)
        ensures
            match old(self).spec_in_flight() {
                Some(s) => if state_snippet_id(s) == snippet_id@ {
                    r == Some(FormState::Submitted { values }) && final(self).spec_in_flight() is None
                } else {
                    r is None && final(self).spec_in_flight() == old(self).spec_in_flight()
                },
                None => r is None && final(self).spec_in_flight() is None,
            },
    {
        let current = self.in_flight.take();
        match current {
            None => None,
            Some(state) => {
                if str_eq(state_snippet_id_of(&state), snippet_id) {
                    Some(FormState::Submitted { values })
                } else {
                    self.in_flight = Some(state);
                    None
                }
            },
        }
    }

    /// Cancels the form for `snippet_id`, as `submit` does without values.
    pub fn cancel(&mut self, snippet_id: &str) -> (r: Option<FormState>)
        ensures
            match old(self).spec_in_flight() {
                Some(s) => if state_snippet_id(s) == snippet_id@ {
                    r == Some(FormState::Cancelled) && final(self).spec_in_flight() is None
                } else {
                    r is None && final(self).spec_in_flight() == old(self).spec_in_flight()
                },
                None => r is None && final(self).spec_in_flight() is None,
            },
    {
        let current = self.in_flight.take();
        match current {
            None => None,
            Some(state) => {
                if str_eq(state_snippet_id_of(&state), snippet_id) {
                    Some(FormState::Cancelled)
                } else {
                    self.in_flight = Some(state);
                    None
                }
            },
        }
    }

    /// Forgets the form in flight once its run has its answer.
    pub fn finish(&mut self)
        ensures
            final(self).spec_in_flight() is None,
    {
        self.in_flight = None;
    }
}

} // verus!
