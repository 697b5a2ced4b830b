//! One tarpit connection as a state machine.
//!
//! A connection goes round in cycles for as long as its peer keeps reading:
//! now and then an easter egg, then the banner in chunks, then the same
//! again. The server does the waiting and the writing. Between two writes it
//! asks the state machine here what to do next, and the state machine keeps
//! the registry's books.

use vstd::prelude::*;
use vstd::string::StringExecFns;
use crate::clock::Moment;
use crate::metrics::Event;
use crate::metrics::Metrics;
use crate::metrics::Registry;
use crate::metrics::Token;
use crate::metrics::TokenError;
use crate::metrics::applied;
use crate::metrics::lemma_live_count_update;

verus! {

/// Largest number of bytes in one write.
pub const CHUNK_SIZE: usize = 16;

/// The draw, out of 256, on which a cycle begins with the easter egg.
pub const EASTER_EGG_DRAW: u8 = 0x42;

/// The easter egg line.
pub const EASTER_EGG: &'static str = "Meow Meow Meow, but anymeow:\r\n";

/// What is written at once.
#[derive(Clone, Copy, Debug, PartialEq, Eq, Structural)]
pub enum Chunk {
    /// The easter egg line.
    EasterEgg,
    /// The bytes of the banner from `start` up to, and without, `end`.
    Banner { start: usize, end: usize },
}

/// How a write ended.
#[derive(Clone, Copy, Debug, PartialEq, Eq, Structural)]
pub enum Outcome {
    /// Every byte was written in time.
    Written,
    /// The time for the write ran out.
    TimedOut,
    /// The write failed.
    Failed,
}

/// Why a connection was ended.
#[derive(Clone, Copy, Debug, PartialEq, Eq, Structural)]
pub enum Cause {
    /// The time for a write ran out.
    TimedOut,
    /// A write failed.
    WriteFailed,
    /// The registry refused the connection's token.
    Registry(TokenError),
}

/// What there is to say of a connection that has ended.
#[derive(Clone, Copy, Debug, PartialEq, Eq)]
pub struct Farewell {
    /// Number of live connections that are left; 0 where `failure` is set.
    pub clients: usize,
    /// How long the connection lasted, in seconds; 0 where `failure` is set.
    pub duration: u64,
    /// Why the connection was ended.
    pub cause: Cause,
    /// Why the registry did not disconnect it, if it did not.
    pub failure: Option<TokenError>,
}

impl Farewell {
    /// The reason of the farewell in words, where `error` are the words of
    /// the error that ended the write, if one did. A timeout is called by its
    /// name where the registry disconnected the connection; where it did not,
    /// the registry's words follow those of the first error.
    pub open spec fn reason_text(self, error: Seq<char>) -> Seq<char> {
        let first = match self.cause {
            Cause::Registry(refused) => refused.text(),
            Cause::TimedOut => if self.failure is None {
                "time out"@
            } else {
                error
            },
            Cause::WriteFailed => error,
        };
        match self.failure {
            None => first,
            Some(failure) => first + "\", \""@ + failure.text(),
        }
    }

    /// Says the reason of the farewell in words.
    pub fn reason(&self, error: &str) -> (reason: String)
        ensures
            reason@ == self.reason_text(error@),
    {
        let mut reason = match self.cause {
            Cause::Registry(refused) => String::from_str(refused.message()),
            Cause::TimedOut => match self.failure {
                None => String::from_str("time out"),
                Some(_) => String::from_str(error),
            },
            Cause::WriteFailed => String::from_str(error),
        };
        match self.failure {
            None => {},
            Some(failure) => {
                reason.append("\", \"");
                reason.append(failure.message());
                assert(reason@ =~= self.reason_text(error@));
            },
        }
        reason
    }
}

/// A connection between two cycles: nothing is being written.
#[derive(Debug, PartialEq, Eq)]
pub struct Idle {
    pub token: Token,
    /// Number of bytes in the banner.
    pub banner_len: usize,
}

/// A connection with a write under way.
#[derive(Debug, PartialEq, Eq)]
pub struct Sending {
    pub token: Token,
    /// Number of bytes in the banner.
    pub banner_len: usize,
    /// What is being written.
    pub chunk: Chunk,
}

/// Where a connection stands after a step.
#[derive(Debug, PartialEq, Eq)]
pub enum Step {
    /// `chunk` is to be written next.
    Send(Sending),
    /// A cycle has ended; the next one can begin.
    Rest(Idle),
    /// The connection has ended and its token is spent.
    Closed(Farewell),
}

/// The chunk of a banner of `len` bytes that begins at `start`: up to
/// `CHUNK_SIZE` bytes, fewer at the banner's end, none behind it.
pub open spec fn chunk_at(len: usize, start: usize) -> Option<Chunk> {
    if start >= len {
        None
    } else if len - start > CHUNK_SIZE {
        Some(Chunk::Banner { start, end: (start + CHUNK_SIZE) as usize })
    } else {
        Some(Chunk::Banner { start, end: len })
    }
}

/// The end of a connection at the moment `now`: the registry disconnects it,
/// and the farewell holds what the registry answered.
pub open spec fn closed(registry: Registry, token: Token, now: Moment, cause: Cause) -> (
    Registry,
    Step,
) {
    (
        registry.disconnected(token@, now),
        Step::Closed(
            match registry.check(token@) {
                Ok(_) => Farewell {
                    clients: (registry.live() - 1) as usize,
                    duration: registry.duration(token@, now),
                    cause,
                    failure: None,
                },
                Err(failure) => Farewell { clients: 0, duration: 0, cause, failure: Some(failure) },
            },
        ),
    )
}

/// The end of a pass over the banner: it is counted, and the connection
/// rests. A connection whose token the registry refuses is ended.
pub open spec fn passed(registry: Registry, token: Token, banner_len: usize, now: Moment) -> (
    Registry,
    Step,
) {
    match registry.check(token@) {
        Ok(_) => (registry.noted(token@, Event::Banner), Step::Rest(Idle { token, banner_len })),
        Err(error) => closed(registry, token, now, Cause::Registry(error)),
    }
}

/// The pass over the banner goes on at `start`: with the chunk there, or,
/// behind the last chunk, with the pass's end.
pub open spec fn resumed(
    registry: Registry,
    token: Token,
    banner_len: usize,
    start: usize,
    now: Moment,
) -> (Registry, Step) {
    match chunk_at(banner_len, start) {
        Some(chunk) => (registry, Step::Send(Sending { token, banner_len, chunk })),
        None => passed(registry, token, banner_len, now),
    }
}

impl Idle {
    /// The beginning of a cycle on the draw `draw`: the easter egg on one
    /// draw of 256, else the banner from its first byte.
    pub open spec fn begun(self, registry: Registry, now: Moment, draw: u8) -> (Registry, Step) {
        if draw == EASTER_EGG_DRAW {
            (
                registry,
                Step::Send(
                    Sending {
                        token: self.token,
                        banner_len: self.banner_len,
                        chunk: Chunk::EasterEgg,
                    },
                ),
            )
        } else {
            resumed(registry, self.token, self.banner_len, 0, now)
        }
    }
}

impl Sending {
    /// What follows the write's end. A chunk that was written is counted,
    /// the easter egg as an easter egg too, and the pass over the banner goes
    /// on behind it. A write that failed or ran out of time, and a token that
    /// the registry refuses, end the connection.
    pub open spec fn completed(self, registry: Registry, outcome: Outcome, now: Moment) -> (
        Registry,
        Step,
    ) {
        match outcome {
            Outcome::TimedOut => closed(registry, self.token, now, Cause::TimedOut),
            Outcome::Failed => closed(registry, self.token, now, Cause::WriteFailed),
            Outcome::Written => match registry.check(self.token@) {
                Err(error) => closed(registry, self.token, now, Cause::Registry(error)),
                Ok(_) => match self.chunk {
                    Chunk::EasterEgg => resumed(
                        registry.noted(self.token@, Event::Chunk).noted(
                            self.token@,
                            Event::EasterEgg,
                        ),
                        self.token,
                        self.banner_len,
                        0,
                        now,
                    ),
                    Chunk::Banner { start, end } => resumed(
                        registry.noted(self.token@, Event::Chunk),
                        self.token,
                        self.banner_len,
                        end,
                        now,
                    ),
                },
            },
        }
    }
}

/// A connection that rests or writes is live, and a step changes the number
/// of live connections only by ending the connection: then one connection
/// fewer is live, unless the registry did not hold this one.
pub proof fn law_step_counts(registry: Registry, sending: Sending, outcome: Outcome, now: Moment)
    ensures
        ({
            let (after, step) = sending.completed(registry, outcome, now);
            let held = registry.holds(sending.token@);
            &&& step is Closed && held ==> after.live() + 1 == registry.live()
            &&& !(step is Closed && held) ==> after.live() == registry.live()
            &&& step is Closed ==> !after.holds(sending.token@)
            &&& !(step is Closed) ==> after.holds(sending.token@)
            &&& outcome != Outcome::Written ==> step is Closed
        }),
{
    let uid = sending.token@;
    if registry.holds(uid) {
        lemma_live_count_update(registry.slots, uid as int, None);
        let counted = registry.noted(uid, Event::Chunk);
        lemma_live_count_update(
            registry.slots,
            uid as int,
            Some(applied(Event::Chunk, registry.client(uid))),
        );
        let egged = counted.noted(uid, Event::EasterEgg);
        lemma_live_count_update(
            counted.slots,
            uid as int,
            Some(applied(Event::EasterEgg, counted.client(uid))),
        );
        lemma_live_count_update(
            counted.slots,
            uid as int,
            Some(applied(Event::Banner, counted.client(uid))),
        );
        lemma_live_count_update(
            egged.slots,
            uid as int,
            Some(applied(Event::Banner, egged.client(uid))),
        );
    }
}

/// Draws a byte with `rand::random`, which takes it from the thread's
/// generator of random numbers. Nothing is claimed of the byte.
#[verifier::external_body]
fn random_byte() -> (draw: u8) {
    rand::random::<u8>()
}

fn close(registry: &mut Metrics, token: Token, now: Moment, cause: Cause) -> (step: Step)
    requires
        old(registry).wf(),
    ensures
        final(registry).wf(),
        (final(registry)@, step) == closed(old(registry)@, token, now, cause),
{
    match registry.disconnect(token, now) {
        Ok((clients, duration)) => Step::Closed(Farewell { clients, duration, cause, failure: None }),
        Err(failure) => Step::Closed(
            Farewell { clients: 0, duration: 0, cause, failure: Some(failure) },
        ),
    }
}

fn pass(registry: &mut Metrics, token: Token, banner_len: usize, now: Moment) -> (step: Step)
    requires
        old(registry).wf(),
    ensures
        final(registry).wf(),
        (final(registry)@, step) == passed(old(registry)@, token, banner_len, now),
{
    match registry.sent_banner(&token) {
        Ok(_) => Step::Rest(Idle { token, banner_len }),
        Err(error) => close(registry, token, now, Cause::Registry(error)),
    }
}

fn resume(
    registry: &mut Metrics,
    token: Token,
    banner_len: usize,
    start: usize,
    now: Moment,
) -> (step: Step)
    requires
        old(registry).wf(),
    ensures
        final(registry).wf(),
        (final(registry)@, step) == resumed(old(registry)@, token, banner_len, start, now),
{
    if start >= banner_len {
        pass(registry, token, banner_len, now)
    } else if banner_len - start > CHUNK_SIZE {
        Step::Send(
            Sending { token, banner_len, chunk: Chunk::Banner { start, end: start + CHUNK_SIZE } },
        )
    } else {
        Step::Send(Sending { token, banner_len, chunk: Chunk::Banner { start, end: banner_len } })
    }
}

impl Idle {
    /// A connection that was admitted with `token`, before its first cycle.
    pub fn new(token: Token, banner_len: usize) -> (idle: Idle)
        ensures
            idle == (Idle { token, banner_len }),
    {
        Idle { token, banner_len }
    }

    /// Begins a cycle on the draw `draw`.
    pub fn begin_with(self, registry: &mut Metrics, now: Moment, draw: u8) -> (step: Step)
        requires
            old(registry).wf(),
        ensures
            final(registry).wf(),
            (final(registry)@, step) == self.begun(old(registry)@, now, draw),
    {
        if draw == EASTER_EGG_DRAW {
            Step::Send(
                Sending { token: self.token, banner_len: self.banner_len, chunk: Chunk::EasterEgg },
            )
        } else {
            resume(registry, self.token, self.banner_len, 0, now)
        }
    }

    /// Begins a cycle on a random draw.
    pub fn begin(self, registry: &mut Metrics, now: Moment) -> (step: Step)
        requires
            old(registry).wf(),
        ensures
            final(registry).wf(),
            exists|draw: u8| (final(registry)@, step) == self.begun(old(registry)@, now, draw),
    {
        let draw = random_byte();
        self.begin_with(registry, now, draw)
    }
}

impl Sending {
    /// Goes on after the write has ended with `outcome`.
    pub fn complete(self, registry: &mut Metrics, outcome: Outcome, now: Moment) -> (step: Step)
        requires
            old(registry).wf(),
        ensures
            final(registry).wf(),
            (final(registry)@, step) == self.completed(old(registry)@, outcome, now),
    {
        match outcome {
            Outcome::TimedOut => close(registry, self.token, now, Cause::TimedOut),
            Outcome::Failed => close(registry, self.token, now, Cause::WriteFailed),
            Outcome::Written => {
                match registry.sent_chunk(&self.token) {
                    Err(error) => close(registry, self.token, now, Cause::Registry(error)),
                    Ok(_) => match self.chunk {
                        Chunk::EasterEgg => match registry.sent_easteregg(&self.token) {
                            Err(error) => close(registry, self.token, now, Cause::Registry(error)),
                            Ok(_) => resume(registry, self.token, self.banner_len, 0, now),
                        },
                        Chunk::Banner { start, end } => resume(
                            registry,
                            self.token,
                            self.banner_len,
                            end,
                            now,
                        ),
                    },
                }
            },
        }
    }
}

} // verus!
