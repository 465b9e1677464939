//! The renderer's state and the decisions of its frame loop: what each
//! frame tick, host message and bot message does to it.

use vstd::prelude::*;
use crate::bitmap::{decode_emote, png_decoded, Bitmap, EmoteError};
use crate::catalog::EmoteCatalog;
use crate::compositor::{draws, render_emote, Pixel};
use crate::protocol::{BotMessage, HostMessage};
use crate::registry::{fresh_at, ActiveEmote, EmoteRegistry};
use crate::terminal::TerminalSnapshot;

verus! {

/// Microseconds in one second.
pub const MICROSECONDS_PER_SECOND: u64 = 1_000_000;

/// Frames sent to the host each second.
pub const TARGET_FRAME_RATE: u64 = 30;

/// The time between two frames, in microseconds.
pub const FRAME_INTERVAL: u64 = MICROSECONDS_PER_SECOND / TARGET_FRAME_RATE;

/// Whether `pixels` is what all of `emotes` may draw over `tty`: one run of
/// pixels after another, each what its emote draws, in the emotes' order.
pub open spec fn frame_draws(tty: TerminalSnapshot, emotes: Seq<ActiveEmote>, pixels: Seq<Pixel>) -> bool
    decreases emotes.len(),
{
    if emotes.len() == 0 {
        pixels.len() == 0
    } else {
        exists|k: int|
            0 <= k <= pixels.len() && frame_draws(tty, emotes.drop_last(), #[trigger] pixels.take(k))
                && draws(tty, emotes.last(), pixels.skip(k))
    }
}

/// How long to wait at `now` for the next frame when the last one was at
/// `last`: nothing once a frame interval has passed, else the rest of it. A
/// clock that reads earlier than `last` counts as no time passed.
pub open spec fn frame_wait(last: int, now: int) -> int {
    let elapsed = if now >= last { now - last } else { 0 };
    if elapsed >= FRAME_INTERVAL { 0 } else { FRAME_INTERVAL - elapsed }
}

/// Frames are paced by the clock, not by the work done for them. A frame
/// rendered at `tick` marks the last frame as `tick`; when compositing it
/// took `composite`, less than one frame interval, the wait then due ends
/// exactly one interval after `tick`. Frames so fall at whole multiples of
/// the interval from the clock's start, and ninety of them fit in three
/// seconds at the target rate.
pub proof fn lemma_frame_cadence(tick: u64, composite: u64)
    requires
        composite < FRAME_INTERVAL,
    ensures
        tick + composite + frame_wait(tick as int, tick + composite) == tick + FRAME_INTERVAL,
        90 * FRAME_INTERVAL <= 3 * MICROSECONDS_PER_SECOND < 91 * FRAME_INTERVAL,
{
}

/// The renderer: the terminal as last seen, the emote codes it knows, the
/// emotes on screen, and when the last frame was due.
pub struct Plugin {
    /// The host's terminal.
    pub tty: TerminalSnapshot,
    /// Emote codes and their image identifiers.
    pub global_emotes: EmoteCatalog,
    /// The emotes that chat asked for and that have not expired.
    pub active_emotes: EmoteRegistry,
    /// When the previous frame was rendered, in microseconds of the monotonic clock.
    pub last_frame_tick: u64,
}

impl Plugin {
    /// Every active emote's image holds four bytes per pixel.
    pub open spec fn wf(&self) -> bool {
        self.active_emotes.wf()
    }

    /// A renderer that knows `global_emotes`, with an empty terminal and no
    /// emotes, whose clock starts at `now`.
    pub fn new(global_emotes: EmoteCatalog, now: u64) -> (r: Self)
        ensures
            r.wf(),
            r.tty.size == (0u16, 0u16),
            r.tty.cursor == (0u16, 0u16),
            r.tty.cells@.len() == 0,
            r.global_emotes == global_emotes,
            r.active_emotes.emotes@.len() == 0,
            r.last_frame_tick == now,
    {
        Plugin {
            tty: TerminalSnapshot::new(),
            global_emotes,
            active_emotes: EmoteRegistry::new(),
            last_frame_tick: now,
        }
    }

    /// How long to wait at `now` before the next frame is due: nothing once a
    /// frame interval has passed since the last frame, else the rest of it.
    pub fn time_until_next_frame(&self, now: u64) -> (r: u64)
        ensures
            r == frame_wait(self.last_frame_tick as int, now as int),
    {
        let elapsed: u64 = if now >= self.last_frame_tick { now - self.last_frame_tick } else { 0 };
        if elapsed >= FRAME_INTERVAL {
            0
        } else {
            FRAME_INTERVAL - elapsed
        }
    }

    /// A frame tick at `now`: drops the emotes that have expired, then, unless
    /// the terminal has no rows or no columns, draws every remaining emote.
    /// The next frame is due one interval after `now`, however long this takes.
    pub fn render(&mut self, now: u64) -> (r: Option<Vec<Pixel>>)
        requires
            old(self).wf(),
        ensures
            final(self).wf(),
            final(self).tty == old(self).tty,
            final(self).global_emotes == old(self).global_emotes,
            final(self).last_frame_tick == now,
            final(self).active_emotes.emotes@ == fresh_at(old(self).active_emotes.emotes@, now as int),
            r is None <==> (old(self).tty.size.0 == 0 || old(self).tty.size.1 == 0),
            match r {
                Some(pixels) => frame_draws(old(self).tty, final(self).active_emotes.emotes@, pixels@),
                None => true,
            },
    {
        self.last_frame_tick = now;
        self.active_emotes.expire(now);
        if self.tty.size.0 == 0 || self.tty.size.1 == 0 {
            return None;
        }
        Some(self.render_emotes())
    }

    /// Every emote's pixels over the terminal, in the emotes' order.
    pub fn render_emotes(&self) -> (r: Vec<Pixel>)
        requires
            self.wf(),
        ensures
            frame_draws(self.tty, self.active_emotes.emotes@, r@),
    {
        let mut output: Vec<Pixel> = Vec::new();
        let mut i: usize = 0;
        while i < self.active_emotes.emotes.len()
            invariant
                self.wf(),
                i <= self.active_emotes.emotes@.len(),
                frame_draws(self.tty, self.active_emotes.emotes@.subrange(0, i as int), output@),
            decreases self.active_emotes.emotes@.len() - i,
        {
            let ghost before = output@;
            render_emote(&self.tty, &self.active_emotes.emotes[i], &mut output);
            proof {
                let done = self.active_emotes.emotes@.subrange(0, i + 1);
                assert(done.drop_last() =~= self.active_emotes.emotes@.subrange(0, i as int));
                assert(done.last() == self.active_emotes.emotes@[i as int]);
                let k = before.len() as int;
                assert(frame_draws(self.tty, done.drop_last(), output@.take(k)));
                assert(draws(self.tty, done.last(), output@.skip(k)));
                assert(frame_draws(self.tty, done, output@));
            }
            i = i + 1;
        }
        assert(self.active_emotes.emotes@.subrange(0, i as int) =~= self.active_emotes.emotes@);
        output
    }

    /// A message from the host: an update replaces the terminal; any other
    /// kind changes nothing.
    pub fn handle_tattoy_message(&mut self, message: HostMessage)
        ensures
            final(self).global_emotes == old(self).global_emotes,
            final(self).active_emotes == old(self).active_emotes,
            final(self).last_frame_tick == old(self).last_frame_tick,
            match message {
                HostMessage::TerminalUpdate { size, cells, cursor } => {
                    &&& final(self).tty.size == size
                    &&& final(self).tty.cursor == cursor
                    &&& final(self).tty.cells@ == cells@
                },
                _ => final(self).tty == old(self).tty,
            },
    {
        match message {
            HostMessage::TerminalUpdate { size, cells, cursor } => {
                self.tty.apply_update(size, cells, cursor);
            },
            HostMessage::TerminalResize { .. } => {},
            HostMessage::Unhandled => {},
        }
    }

    /// A message from the chat bot: the identifier of the image to fetch for
    /// its emote, or `None` where the catalog does not know the code. Nothing
    /// changes either way; the emote is added once its image is at hand.
    pub fn handle_bot_message(&self, message: &BotMessage) -> (r: Option<String>)
        ensures
            match r {
                Some(id) => self.global_emotes.spec_resolve(message.emote@) == Some(id@),
                None => self.global_emotes.spec_resolve(message.emote@) is None,
            },
    {
        self.global_emotes.resolve(&message.emote)
    }

    /// Adds an emote over `regexish` at `now` with the image that `payload`
    /// decodes to; a payload that is no PNG image adds nothing.
    pub fn add_active_emote(&mut self, regexish: String, payload: &[u8], now: u64) -> (r: Result<(), EmoteError>)
        requires
            old(self).wf(),
        ensures
            final(self).wf(),
            final(self).tty == old(self).tty,
            final(self).global_emotes == old(self).global_emotes,
            final(self).last_frame_tick == old(self).last_frame_tick,
            match r {
                Ok(()) => {
                    let added = final(self).active_emotes.emotes@.last();
                    &&& final(self).active_emotes.emotes@.len() == old(self).active_emotes.emotes@.len() + 1
                    &&& final(self).active_emotes.emotes@.drop_last() == old(self).active_emotes.emotes@
                    &&& added.pattern == regexish
                    &&& added.created_at == now
                    &&& png_decoded(payload@) == Some((added.image.width, added.image.height, added.image.rgba@))
                },
                Err(e) => {
                    &&& e == EmoteError::Decode
                    &&& png_decoded(payload@) is None
                    &&& final(self).active_emotes == old(self).active_emotes
                },
            },
    {
        match decode_emote(payload) {
            Ok(image) => {
                self.active_emotes.insert(regexish, image, now);
                assert(self.active_emotes.emotes@.drop_last() =~= old(self).active_emotes.emotes@);
                Ok(())
            },
            Err(e) => Err(e),
        }
    }
}

} // verus!
