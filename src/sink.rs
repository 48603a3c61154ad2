//! The decisions of the frame sink: whether a frame is captured, what the
//! producer does when the worker refuses a frame, what the worker does next,
//! and how a frame is repacked for output.

use vstd::prelude::*;
use crate::ratio::Ratio;

verus! {

/// One RGBA pixel.
pub type Rgba = (u8, u8, u8, u8);

/// A rendered frame, row after row.
#[derive(Clone, Debug)]
pub struct FrameBuffer {
    pub width: u64,
    pub height: u64,
    pub pixels: Vec<Rgba>,
}

impl FrameBuffer {
    /// One pixel per position.
    pub open spec fn wf(&self) -> bool {
        self.pixels@.len() == self.width * self.height
    }
}

/// Capture state of the producer side.
#[derive(Clone, Copy, Debug, PartialEq, Eq, Structural)]
pub struct Capture {
    /// Capture is asked for by the session settings.
    pub requested: bool,
    /// The worker refused a frame once; capture stays off for the session.
    pub broken: bool,
}

/// What the worker does on one turn.
#[derive(Clone, Copy, Debug, PartialEq, Eq, Structural)]
pub enum WorkerStep {
    /// Repack and write the frame it received.
    Write,
    /// Flush and terminate.
    Finish,
    /// Nothing to do yet: wait briefly and look again.
    Wait,
}

impl Capture {
    pub open spec fn capturing(self) -> bool {
        self.requested && !self.broken
    }

    /// The state after the worker accepted (`true`) or refused a frame.
    pub open spec fn after_send(self, accepted: bool) -> Capture {
        if self.capturing() && !accepted {
            Capture { broken: true, ..self }
        } else {
            self
        }
    }

    /// Whether the refusal is to be logged: only the one that breaks capture.
    pub open spec fn logs_on(self, accepted: bool) -> bool {
        self.capturing() && !accepted
    }

    pub fn new(requested: bool) -> (r: Capture)
        ensures
            r == (Capture { requested, broken: false }),
    {
        Capture { requested, broken: false }
    }

    /// Whether this frame is to be handed to the worker.
    pub fn is_capturing(&self) -> (r: bool)
        ensures
            r == self.capturing(),
    {
        self.requested && !self.broken
    }

    /// Asks for capture, or stops asking. A broken capture stays off.
    pub fn set_requested(&mut self, requested: bool)
        ensures
            *final(self) == (Capture { requested, ..*old(self) }),
    {
        self.requested = requested;
    }

    /// Records the outcome of a non-blocking send; returns whether to log
    /// the failure.
    pub fn record_send(&mut self, accepted: bool) -> (log: bool)
        ensures
            *final(self) == old(self).after_send(accepted),
            log == old(self).logs_on(accepted),
    {
        if self.requested && !self.broken && !accepted {
            self.broken = true;
            true
        } else {
            false
        }
    }
}

/// The state after a run of send outcomes.
pub open spec fn after_sends(c: Capture, outcomes: Seq<bool>) -> Capture
    decreases outcomes.len(),
{
    if outcomes.len() == 0 {
        c
    } else {
        after_sends(c.after_send(outcomes[0]), outcomes.drop_first())
    }
}

/// How many failures a run of send outcomes logs.
pub open spec fn logs_in(c: Capture, outcomes: Seq<bool>) -> nat
    decreases outcomes.len(),
{
    if outcomes.len() == 0 {
        0
    } else {
        (if c.logs_on(outcomes[0]) { 1nat } else { 0nat }) + logs_in(c.after_send(outcomes[0]), outcomes.drop_first())
    }
}

/// However many frames the worker refuses, capture is disabled at most
/// once, with one logged message: exactly once when capture was on and some
/// frame was refused, and then it stays off.
pub proof fn lemma_capture_disabled_once(c: Capture, outcomes: Seq<bool>)
    ensures
        logs_in(c, outcomes) <= 1,
        c.broken ==> logs_in(c, outcomes) == 0 && after_sends(c, outcomes) == c,
        c.capturing() && outcomes.contains(false) ==> logs_in(c, outcomes) == 1 && !after_sends(c, outcomes).capturing(),
        !outcomes.contains(false) ==> after_sends(c, outcomes) == c && logs_in(c, outcomes) == 0,
    decreases outcomes.len(),
{
    if outcomes.len() > 0 {
        let rest = outcomes.drop_first();
        let next = c.after_send(outcomes[0]);
        lemma_capture_disabled_once(next, rest);
        if c.logs_on(outcomes[0]) {
            assert(next.broken);
        }
        if outcomes.contains(false) && outcomes[0] {
            let k = choose|k: int| 0 <= k < outcomes.len() && outcomes[k] == false;
            assert(rest[k - 1] == false);
        }
        if !outcomes.contains(false) {
            assert forall|k: int| 0 <= k < rest.len() implies rest[k] != false by {
                assert(outcomes[k + 1] == rest[k]);
            }
        }
    }
}

/// The worker's next step: write a received frame, else finish once asked
/// to stop and nothing is queued, else wait.
pub fn worker_step(received: bool, stop_requested: bool) -> (r: WorkerStep)
    ensures
        received ==> r == WorkerStep::Write,
        !received && stop_requested ==> r == WorkerStep::Finish,
        !received && !stop_requested ==> r == WorkerStep::Wait,
{
    if received {
        WorkerStep::Write
    } else if stop_requested {
        WorkerStep::Finish
    } else {
        WorkerStep::Wait
    }
}

/// The presentation time of frame `frame_index`: `frame_index / target_fps`
/// seconds.
pub fn presentation_time(frame_index: u64, target_fps: u64) -> (r: Ratio)
    requires
        target_fps > 0,
    ensures
        r == (Ratio { num: frame_index, den: target_fps }),
        r.wf(),
{
    Ratio { num: frame_index, den: target_fps }
}

/// The colour channels of `p`, alpha dropped, packed tightly.
pub open spec fn packed(p: Seq<Rgba>) -> Seq<u8>
    decreases p.len(),
{
    if p.len() == 0 {
        Seq::empty()
    } else {
        packed(p.drop_last()) + seq![p.last().0, p.last().1, p.last().2]
    }
}

/// Drops the alpha channel and packs the colour channels tightly.
pub fn pack_rgb(pixels: &Vec<Rgba>) -> (r: Vec<u8>)
    ensures
        r@ == packed(pixels@),
{
    let mut r: Vec<u8> = Vec::new();
    let mut i: usize = 0;
    while i < pixels.len()
        invariant
            0 <= i <= pixels@.len(),
            r@ == packed(pixels@.take(i as int)),
        decreases pixels@.len() - i,
    {
        let (red, green, blue, _) = pixels[i];
        r.push(red);
        r.push(green);
        r.push(blue);
        proof {
            assert(pixels@.take(i + 1).drop_last() =~= pixels@.take(i as int));
            assert(r@ =~= packed(pixels@.take(i as int)) + seq![red, green, blue]);
        }
        i = i + 1;
    }
    assert(pixels@.take(pixels@.len() as int) =~= pixels@);
    r
}

/// The ASCII code of the digit zero.
pub const ASCII_ZERO: u8 = 48;

/// Digits in the numbers of written stills.
pub const FRAME_DIGITS: u64 = 6;

/// The decimal digits of `n`, as ASCII, padded with zeros to `width`.
pub open spec fn decimal(n: nat, width: nat) -> Seq<u8>
    decreases n, width,
{
    if n < 10 && width <= 1 {
        seq![(ASCII_ZERO + n) as u8]
    } else {
        decimal(n / 10, if width > 0 { (width - 1) as nat } else { 0 }) + seq![(ASCII_ZERO + n % 10) as u8]
    }
}

/// Appends the digits of `n`, padded with zeros to `width`.
pub fn push_decimal(n: u64, width: u64, out: &mut Vec<u8>)
    ensures
        final(out)@ == old(out)@ + decimal(n as nat, width as nat),
    decreases n, width,
{
    if n < 10 && width <= 1 {
        out.push(ASCII_ZERO + n as u8);
    } else {
        let ghost start = out@;
        push_decimal(n / 10, if width > 0 { width - 1 } else { 0 }, out);
        out.push(ASCII_ZERO + (n % 10) as u8);
        assert(out@ =~= start + decimal(n as nat, width as nat));
    }
}

/// The file name of the still of frame `index`: its zero-padded number and
/// the `.ppm` extension.
pub fn still_name(index: u64) -> (r: Vec<u8>)
    ensures
        r@ == decimal(index as nat, FRAME_DIGITS as nat) + seq![46u8, 112u8, 112u8, 109u8],
{
    let mut r: Vec<u8> = Vec::new();
    push_decimal(index, FRAME_DIGITS, &mut r);
    // ".ppm"
    r.push(46);
    r.push(112);
    r.push(112);
    r.push(109);
    assert(r@ =~= decimal(index as nat, FRAME_DIGITS as nat) + seq![46u8, 112u8, 112u8, 109u8]);
    r
}

/// The header of a binary PPM image: its magic number, width and height in
/// decimal, and the largest channel value, 255, each followed by white space.
pub open spec fn ppm_header(width: nat, height: nat) -> Seq<u8> {
    seq![80u8, 54u8, 10u8] + decimal(width, 1) + seq![32u8] + decimal(height, 1) + seq![10u8, 50u8, 53u8, 53u8, 10u8]
}

/// The frame as a binary PPM image; `None` when the pixel count does not
/// match the frame's size, as after a change of resolution.
pub fn encode_ppm(frame: &FrameBuffer) -> (r: Option<Vec<u8>>)
    ensures
        r is None <==> !frame.wf(),
        r matches Some(bytes) ==> bytes@ == ppm_header(frame.width as nat, frame.height as nat) + packed(
            frame.pixels@,
        ),
{
    proof {
        vstd::arithmetic::mul::lemma_mul_upper_bound(
            frame.width as int, u64::MAX as int, frame.height as int, u64::MAX as int);
    }
    let area = frame.width as u128 * frame.height as u128;
    if frame.pixels.len() as u128 != area {
        return None;
    }
    // The magic number and a newline, the width, a space, the height, and
    // the largest channel value between newlines.
    let mut r: Vec<u8> = Vec::new();
    r.push(80);
    r.push(54);
    r.push(10);
    push_decimal(frame.width, 1, &mut r);
    r.push(32);
    push_decimal(frame.height, 1, &mut r);
    r.push(10);
    r.push(50);
    r.push(53);
    r.push(53);
    r.push(10);
    assert(r@ =~= ppm_header(frame.width as nat, frame.height as nat));
    let mut body = pack_rgb(&frame.pixels);
    r.append(&mut body);
    Some(r)
}

} // verus!
