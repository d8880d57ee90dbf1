//! Console helpers for long running command-line programs: a spinner whose
//! state advances one frame per render cycle while it drains status updates,
//! and a menu (in [`menu`]) that collects typed input field by field.
//!
//! The spinner is split in two halves. This crate owns the state and the
//! per-cycle rules: which frame is current, what the status line says, and
//! what one render cycle does with the updates that arrived since the last
//! one. A thin runtime wrapper owns the worker thread, the channel pump and
//! the terminal writes, and drives [`SpinnerState::cycle`] once per interval.

use vstd::prelude::*;
use std::sync::mpsc::Sender;

pub mod menu;
pub mod text;

verus! {

/// One update sent from the foreground to the render loop: either a new
/// status text for the spinner line, or a standalone message to print above it.
#[derive(Debug)]
pub enum SpinnerMessage {
    /// Replace the status text shown next to the frame.
    Status(String),
    /// Print this text on its own line above the spinner.
    Message(String),
}

/// How a rendered line is assembled around the frame and the status text:
/// `before + frame + between + status + after`. This replaces a free-form
/// formatting callback with data, so that what a cycle draws stays a pure
/// function of the state.
pub struct LineFormat {
    /// Text placed before the frame.
    pub before: String,
    /// Text placed between the frame and the status.
    pub between: String,
    /// Text placed after the status.
    pub after: String,
}

/// State owned by the render loop: the cycling frames, the cursor into them,
/// the current status text and the render cadence.
pub struct SpinnerState {
    /// Status text drawn next to the current frame.
    pub status: String,
    /// The animation frames, cycled in order; never empty.
    pub frames: Vec<&'static str>,
    /// Index of the frame the next redraw shows.
    pub cursor: usize,
    /// Custom line layout; `None` means `frame + " " + status`.
    pub format: Option<LineFormat>,
    /// Milliseconds the loop sleeps between redraws.
    pub step_ms: u64,
}

/// The status text after a batch of updates is drained, starting from `init`:
/// the payload of the last `Status` in the batch, or `init` if there is none.
pub open spec fn status_after(batch: Seq<SpinnerMessage>, init: Seq<char>) -> Seq<char>
    decreases batch.len(),
{
    if batch.len() == 0 {
        init
    } else {
        match batch.last() {
            SpinnerMessage::Status(s) => s@,
            SpinnerMessage::Message(_) => status_after(batch.drop_last(), init),
        }
    }
}

/// The standalone message a drain leaves pending: the payload of the last
/// `Message` in the batch, if any. Earlier messages in the same batch are
/// overwritten — at most one message surfaces per cycle.
pub open spec fn pending_after(batch: Seq<SpinnerMessage>) -> Option<Seq<char>>
    decreases batch.len(),
{
    if batch.len() == 0 {
        None
    } else {
        match batch.last() {
            SpinnerMessage::Message(m) => Some(m@),
            SpinnerMessage::Status(_) => pending_after(batch.drop_last()),
        }
    }
}

/// The line one redraw shows for a given layout, frame and status.
pub open spec fn spec_line(format: Option<LineFormat>, frame: Seq<char>, status: Seq<char>) -> Seq<char> {
    match format {
        Some(f) => f.before@ + frame + f.between@ + status + f.after@,
        None => frame + " "@ + status,
    }
}

/// The frame index reached after `n` single-step advances from `start`, in a
/// sequence of `len` frames.
pub open spec fn frame_index(start: int, n: int, len: int) -> int {
    (start + n) % len
}

/// What one render cycle hands back to the runtime that drives it.
pub struct CycleOutput {
    /// The standalone message to print above the spinner line, if any arrived.
    pub printed: Option<String>,
    /// The spinner line to redraw; `None` on a terminating cycle.
    pub line: Option<String>,
    /// Whether the loop must stop: set exactly when the channel was closed.
    pub stop: bool,
}

impl SpinnerState {
    /// The state is usable: there is at least one frame and the cursor points
    /// at one of them.
    pub open spec fn wf(self) -> bool {
        self.frames.len() > 0 && self.cursor < self.frames.len()
    }

    /// Move the cursor to the next frame, wrapping past the last back to the
    /// first.
    pub fn advance(&mut self)
        requires
            old(self).wf(),
        ensures
            final(self).wf(),
            final(self).cursor == frame_index(old(self).cursor as int, 1, old(self).frames.len() as int),
            final(self).status == old(self).status,
            final(self).frames == old(self).frames,
            final(self).format == old(self).format,
            final(self).step_ms == old(self).step_ms,
    {
        let ghost len = self.frames.len() as int;
        if self.cursor + 1 == self.frames.len() {
            proof {
                vstd::arithmetic::div_mod::lemma_mod_self_0(len);
            }
            self.cursor = 0;
        } else {
            proof {
                vstd::arithmetic::div_mod::lemma_small_mod((self.cursor + 1) as nat, len as nat);
            }
            self.cursor = self.cursor + 1;
        }
    }

    /// Apply a drained batch of updates in arrival order: the last `Status`
    /// wins as the new status text, and the last `Message`, if any, is
    /// returned as the one message this cycle prints.
    pub fn drain(&mut self, batch: Vec<SpinnerMessage>) -> (pending: Option<String>)
        ensures
            final(self).status@ == status_after(batch@, old(self).status@),
            (match pending {
                Some(p) => pending_after(batch@) == Some(p@),
                None => pending_after(batch@) is None,
            }),
            final(self).frames == old(self).frames,
            final(self).cursor == old(self).cursor,
            final(self).format == old(self).format,
            final(self).step_ms == old(self).step_ms,
    {
        let mut pending: Option<String> = None;
        let mut i: usize = 0;
        while i < batch.len()
            invariant
                i <= batch.len(),
                self.status@ == status_after(batch@.take(i as int), old(self).status@),
                (match pending {
                    Some(p) => pending_after(batch@.take(i as int)) == Some(p@),
                    None => pending_after(batch@.take(i as int)) is None,
                }),
                self.frames == old(self).frames,
                self.cursor == old(self).cursor,
                self.format == old(self).format,
                self.step_ms == old(self).step_ms,
            decreases batch.len() - i,
        {
            proof {
                assert(batch@.take(i + 1).drop_last() =~= batch@.take(i as int));
                assert(batch@.take(i + 1).last() == batch@[i as int]);
            }
            match &batch[i] {
                SpinnerMessage::Status(s) => {
                    self.status = s.clone();
                }
                SpinnerMessage::Message(m) => {
                    pending = Some(m.clone());
                }
            }
            i = i + 1;
        }
        proof {
            assert(batch@.take(batch@.len() as int) =~= batch@);
        }
        pending
    }

    /// Assemble the line the next redraw shows, from the current frame and
    /// status, under the configured layout.
    pub fn render_line(&self) -> (line: String)
        requires
            self.wf(),
        ensures
            line@ == spec_line(self.format, self.frames[self.cursor as int]@, self.status@),
    {
        let frame: &'static str = self.frames[self.cursor];
        match &self.format {
            Some(f) => {
                let mut line = f.before.clone();
                line.append(frame);
                line.append(f.between.as_str());
                line.append(self.status.as_str());
                line.append(f.after.as_str());
                line
            }
            None => {
                let mut line = String::from_str(frame);
                line.append(" ");
                line.append(self.status.as_str());
                line
            }
        }
    }

    /// One render cycle, as the background loop runs it: drain the batch of
    /// updates that arrived since the last cycle (last `Status` wins, at most
    /// the last `Message` is surfaced), then — unless the channel was closed —
    /// draw the current frame with the new status and advance the cursor. On
    /// a terminating cycle the pending message is still surfaced, but no
    /// spinner line is drawn and the cursor stays put.
    pub fn cycle(&mut self, batch: Vec<SpinnerMessage>, disconnected: bool) -> (out: CycleOutput)
        requires
            old(self).wf(),
        ensures
            final(self).wf(),
            final(self).status@ == status_after(batch@, old(self).status@),
            final(self).frames == old(self).frames,
            final(self).format == old(self).format,
            final(self).step_ms == old(self).step_ms,
            (match out.printed {
                Some(p) => pending_after(batch@) == Some(p@),
                None => pending_after(batch@) is None,
            }),
            out.stop == disconnected,
            disconnected ==> out.line is None && final(self).cursor == old(self).cursor,
            !disconnected ==> final(self).cursor == frame_index(
                old(self).cursor as int,
                1,
                old(self).frames.len() as int,
            ),
            !disconnected ==> (out.line matches Some(l) && l@ == spec_line(
                old(self).format,
                old(self).frames[old(self).cursor as int]@,
                status_after(batch@, old(self).status@),
            )),
    {
        let printed = self.drain(batch);
        if disconnected {
            CycleOutput { printed, line: None, stop: true }
        } else {
            let line = self.render_line();
            self.advance();
            CycleOutput { printed, line: Some(line), stop: false }
        }
    }
}

/// The views of a frame list, frame by frame.
pub open spec fn frames_views(frames: Seq<&'static str>) -> Seq<Seq<char>> {
    frames.map_values(|s: &'static str| s@)
}

/// The views of the default animation: a twelve step block fill.
pub open spec fn default_frames_view() -> Seq<Seq<char>> {
    seq!["▁"@, "▃"@, "▄"@, "▅"@, "▆"@, "▇"@, "█"@, "▇"@, "▆"@, "▅"@, "▄"@, "▃"@]
}

/// The default animation frames: a twelve step block fill.
pub fn default_frames() -> (v: Vec<&'static str>)
    ensures
        v@.len() == 12,
        frames_views(v@) == default_frames_view(),
{
    let v: Vec<&'static str> = vec!["▁", "▃", "▄", "▅", "▆", "▇", "█", "▇", "▆", "▅", "▄", "▃"];
    proof {
        assert(frames_views(v@) =~= default_frames_view());
    }
    v
}

/// Collects a spinner's configuration, every part optional, and finalizes it
/// into the state the render loop starts from.
pub struct SpinnerBuilder {
    /// The initial status text.
    pub msg: String,
    /// Custom animation frames; `None` picks the default block fill.
    pub spinner: Option<Vec<&'static str>>,
    /// Custom line layout; `None` picks `frame + " " + status`.
    pub format: Option<LineFormat>,
    /// Custom render interval in milliseconds; `None` picks 100.
    pub step_ms: Option<u64>,
}

impl SpinnerBuilder {
    /// Begin a configuration with the given initial status text and no
    /// customizations.
    pub fn new(msg: String) -> (b: SpinnerBuilder)
        ensures
            b.msg == msg,
            b.spinner is None,
            b.format is None,
            b.step_ms is None,
    {
        SpinnerBuilder { msg, spinner: None, format: None, step_ms: None }
    }

    /// Use these animation frames instead of the default block fill. The
    /// frames are cycled in the order given; they should be non-empty and,
    /// for a steady line, of uniform display width.
    pub fn spinner(self, sp: Vec<&'static str>) -> (b: SpinnerBuilder)
        ensures
            b.msg == self.msg,
            b.spinner == Some(sp),
            b.format == self.format,
            b.step_ms == self.step_ms,
    {
        SpinnerBuilder { msg: self.msg, spinner: Some(sp), format: self.format, step_ms: self.step_ms }
    }

    /// Redraw every `ms` milliseconds instead of the default 100.
    pub fn step(self, ms: u64) -> (b: SpinnerBuilder)
        ensures
            b.msg == self.msg,
            b.spinner == self.spinner,
            b.format == self.format,
            b.step_ms == Some(ms),
    {
        SpinnerBuilder { msg: self.msg, spinner: self.spinner, format: self.format, step_ms: Some(ms) }
    }

    /// Lay the rendered line out as `before + frame + between + status +
    /// after` instead of the default `frame + " " + status`.
    pub fn format(self, f: LineFormat) -> (b: SpinnerBuilder)
        ensures
            b.msg == self.msg,
            b.spinner == self.spinner,
            b.format == Some(f),
            b.step_ms == self.step_ms,
    {
        SpinnerBuilder { msg: self.msg, spinner: self.spinner, format: Some(f), step_ms: self.step_ms }
    }

    /// Finalize the configuration, filling every part left out with its
    /// default. An empty custom frame list is a caller error and is ruled
    /// out here; the returned state is what the render loop starts from.
    pub fn build(self) -> (st: SpinnerState)
        requires
            self.spinner matches Some(v) ==> v.len() > 0,
        ensures
            st.wf(),
            st.status == self.msg,
            st.cursor == 0,
            st.format == self.format,
            self.step_ms matches Some(ms) ==> st.step_ms == ms,
            self.step_ms is None ==> st.step_ms == 100,
            self.spinner matches Some(v) ==> st.frames == v,
            self.spinner is None ==> frames_views(st.frames@) == default_frames_view(),
    {
        let frames: Vec<&'static str> = match self.spinner {
            Some(v) => v,
            None => default_frames(),
        };
        let step_ms: u64 = match self.step_ms {
            Some(ms) => ms,
            None => 100,
        };
        SpinnerState { status: self.msg, frames, cursor: 0, format: self.format, step_ms }
    }
}

/// Declares `std::sync::mpsc::Sender` so the sending half of the update
/// channel can live in [`SpinnerHandle`]; the value itself stays opaque.
#[verifier::external_type_specification]
#[verifier::external_body]
#[verifier::reject_recursive_types(T)]
pub struct ExSender<T>(Sender<T>);

/// Relies on `std::sync::mpsc::Sender::send`: sending never blocks, and when
/// the receiving half is gone the error carries the unsent message back.
#[verifier::external_body]
fn send_msg(send: &Sender<SpinnerMessage>, m: SpinnerMessage) -> (r: Result<(), SpinnerMessage>)
    ensures
        r matches Err(p) ==> p == m,
{
    match send.send(m) {
        Ok(()) => Ok(()),
        Err(std::sync::mpsc::SendError(p)) => Err(p),
    }
}

/// The foreground half of a spinner: it enqueues updates for the render loop
/// without blocking and without touching the terminal itself.
pub struct SpinnerHandle {
    send: Sender<SpinnerMessage>,
}

impl SpinnerHandle {
    /// Wrap the sending half of the update channel whose receiving half the
    /// render loop drains.
    pub fn new(send: Sender<SpinnerMessage>) -> SpinnerHandle {
        SpinnerHandle { send }
    }

    /// Enqueue a new status text for the spinner line. When the render loop
    /// is already gone, the text comes back unchanged instead of being lost.
    pub fn update(&self, st: String) -> (r: Option<String>)
        ensures
            r matches Some(p) ==> p == st,
    {
        match send_msg(&self.send, SpinnerMessage::Status(st)) {
            Ok(_) => None,
            Err(m) => match m {
                SpinnerMessage::Status(s) => Some(s),
                SpinnerMessage::Message(s) => Some(s),
            },
        }
    }

    /// Enqueue a standalone message to print above the spinner line. When the
    /// render loop is already gone, the text comes back unchanged instead of
    /// being lost.
    pub fn message(&self, msg: String) -> (r: Option<String>)
        ensures
            r matches Some(p) ==> p == msg,
    {
        match send_msg(&self.send, SpinnerMessage::Message(msg)) {
            Ok(_) => None,
            Err(m) => match m {
                SpinnerMessage::Status(s) => Some(s),
                SpinnerMessage::Message(s) => Some(s),
            },
        }
    }

    /// Consume the handle, dropping the sending half of the channel: no
    /// further updates are possible, and the render loop observes the
    /// disconnection at its next drain and stops. Waiting for the worker
    /// itself is the runtime wrapper's part.
    pub fn close(self) {
    }
}

/// Law: the frame cursor is periodic in the number of single-step advances,
/// with period equal to the number of frames — after `len` more advances the
/// cursor is back where it was.
pub proof fn lemma_frame_cursor_periodic(start: int, n: int, len: int)
    requires
        0 < len,
    ensures
        frame_index(start, n + len, len) == frame_index(start, n, len),
{
    vstd::arithmetic::div_mod::lemma_mod_add_multiples_vanish(start + n, len);
}

/// Law: single-step advances compose — one more advance from the cursor `n`
/// cycles reach is the cursor `n + 1` cycles reach. With
/// [`lemma_frame_cursor_periodic`] this carries the per-cycle contract of
/// [`SpinnerState::cycle`] to any number of cycles.
pub proof fn lemma_frame_cursor_steps(start: int, n: int, len: int)
    requires
        0 < len,
    ensures
        frame_index(frame_index(start, n, len), 1, len) == frame_index(start, n + 1, len),
{
    vstd::arithmetic::div_mod::lemma_add_mod_noop(start + n, 1, len);
    if len == 1 {
        assert((start + n) % 1 == 0 && 1int % 1 == 0 && (start + n + 1) % 1 == 0 && ((start + n)
            % 1 + 1) % 1 == 0) by (nonlinear_arith);
    } else {
        vstd::arithmetic::div_mod::lemma_small_mod(1, len as nat);
    }
}

} // verus!
