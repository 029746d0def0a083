//! The emission loop as a state machine: it decides each unit of work and when to
//! stop, while the caller performs the writes and reports how they went.
use vstd::prelude::*;
use crate::buffer::{build_buffer, repeat_count_of, RepeatedBuffer, TARGET_CAPACITY};
use crate::bytes::{append_bytes, append_line, lemma_repeat_lines_add, line_of, repeat_lines};
use crate::config::Config;
use crate::style::{plain_style, random_below, reset_sequence, Color};
use vstd::arithmetic::div_mod::{lemma_fundamental_div_mod, lemma_fundamental_div_mod_converse};
use crate::writer::{framed, styled, styled_line, Writer};

verus! {

/// Why emission ended.
#[derive(Clone, Copy, Debug, PartialEq, Eq, Structural)]
pub enum StopReason {
    LimitReached,
    ShutdownRequested,
    StreamClosed,
    Failed,
}

/// The kind of a failed write, as the output stream reports it.
#[derive(Clone, Copy, Debug, PartialEq, Eq, Structural)]
pub enum IoFailure {
    BrokenPipe,
    UnexpectedEof,
    Interrupted,
    Other,
}

/// Emission cannot start.
#[derive(Clone, Copy, Debug, PartialEq, Eq, Structural)]
pub enum StartError {
    MissingMessages,
}

/// What the caller does next: send these bytes, or stop.
#[derive(Debug)]
pub enum Step {
    Write(Vec<u8>),
    Stop(StopReason),
}

/// A closed stream ends emission quietly; any other failure is fatal.
pub open spec fn classify_spec(f: IoFailure) -> StopReason {
    match f {
        IoFailure::BrokenPipe | IoFailure::UnexpectedEof | IoFailure::Interrupted => StopReason::StreamClosed,
        IoFailure::Other => StopReason::Failed,
    }
}

/// How a failed write ends emission.
pub fn classify(f: IoFailure) -> (r: StopReason)
    ensures
        r == classify_spec(f),
{
    match f {
        IoFailure::BrokenPipe | IoFailure::UnexpectedEof | IoFailure::Interrupted => StopReason::StreamClosed,
        IoFailure::Other => StopReason::Failed,
    }
}

/// Whether the next unit is the whole buffer: batching is on and the lines left,
/// if bounded, still hold a whole buffer.
pub open spec fn takes_buffer(batched: bool, repeat: nat, remaining: Option<usize>) -> bool {
    batched && repeat >= 1 && match remaining {
        Some(r) => r >= repeat,
        None => true,
    }
}

/// Lines in the next unit.
pub open spec fn unit_lines(batched: bool, repeat: nat, remaining: Option<usize>) -> nat {
    if takes_buffer(batched, repeat, remaining) {
        repeat
    } else {
        1
    }
}

/// The lines left after `n` more are written.
pub open spec fn less(remaining: Option<usize>, n: nat) -> Option<usize> {
    match remaining {
        Some(r) => Some((r - n) as usize),
        None => None,
    }
}

/// The sizes of the units, in order, that write `r` lines with buffers of `n` lines.
pub open spec fn schedule(r: nat, n: nat) -> Seq<nat>
    decreases r,
{
    if r == 0 {
        Seq::empty()
    } else {
        let u: nat = if n >= 1 && r >= n { n } else { 1 };
        seq![u] + schedule((r - u) as nat, n)
    }
}

/// The sum of a sequence of counts.
pub open spec fn total(s: Seq<nat>) -> nat
    decreases s.len(),
{
    if s.len() == 0 {
        0
    } else {
        s[0] + total(s.drop_first())
    }
}

/// The lines that the picks of a random run select, each with its terminator.
pub open spec fn picked_lines(messages: Seq<Vec<u8>>, picks: Seq<int>) -> Seq<u8>
    decreases picks.len(),
{
    if picks.len() == 0 {
        Seq::empty()
    } else {
        picked_lines(messages, picks.drop_last()) + line_of(messages[picks.last()]@)
    }
}

proof fn lemma_schedule_shape(r: nat, n: nat)
    requires
        n >= 1,
    ensures
        schedule(r, n) =~= Seq::new(r / n, |_i: int| n) + Seq::new(r % n, |_i: int| 1nat),
        total(schedule(r, n)) == r,
    decreases r,
{
    if r == 0 {
        lemma_fundamental_div_mod_converse(0, n as int, 0, 0);
    } else if r >= n {
        lemma_schedule_shape((r - n) as nat, n);
        lemma_fundamental_div_mod((r - n) as int, n as int);
        let q = (r - n) as int / n as int;
        let m = (r - n) as int % n as int;
        assert(r == (q + 1) * n + m) by (nonlinear_arith)
            requires
                (r - n) as int == n * q + m,
        ;
        lemma_fundamental_div_mod_converse(r as int, n as int, q + 1, m);
        assert(seq![n] + schedule((r - n) as nat, n) =~= Seq::new(r / n, |_i: int| n) + Seq::new(
            r % n,
            |_i: int| 1nat,
        ));
        assert((seq![n] + schedule((r - n) as nat, n)).drop_first() =~= schedule((r - n) as nat, n));
    } else {
        lemma_schedule_shape((r - 1) as nat, n);
        lemma_fundamental_div_mod_converse((r - 1) as int, n as int, 0, (r - 1) as int);
        lemma_fundamental_div_mod_converse(r as int, n as int, 0, r as int);
        assert((seq![1nat] + schedule((r - 1) as nat, n)).drop_first() =~= schedule((r - 1) as nat, n));
    }
}

/// With a limit of at least one line, the buffer holds between one line and the
/// limit, and the units that write the limit are `limit / n` whole buffers followed
/// by `limit % n` single lines, `n` being the buffer's line count: exactly the
/// limit in all.
pub proof fn lemma_batches_cover_limit(message_len: nat, limit: nat)
    requires
        1 <= limit <= usize::MAX,
    ensures
        ({
            let n = repeat_count_of(message_len, TARGET_CAPACITY as nat, Some(limit as usize));
            &&& 1 <= n <= limit
            &&& schedule(limit, n) == Seq::new(limit / n, |_i: int| n) + Seq::new(
                limit % n,
                |_i: int| 1nat,
            )
            &&& total(schedule(limit, n)) == limit
            &&& unit_lines(true, n, Some(limit as usize)) == schedule(limit, n)[0]
        }),
{
    let n = repeat_count_of(message_len, TARGET_CAPACITY as nat, Some(limit as usize));
    lemma_schedule_shape(limit, n);
}

/// What one unit of `k` lines of `m` sends in a color mode without random styling.
pub open spec fn unit_bytes(color: Color, m: Seq<u8>, k: nat) -> Seq<u8> {
    match color {
        Color::Fixed(h) => framed(plain_style(h), repeat_lines(m, k)),
        _ => repeat_lines(m, k),
    }
}

/// The bytes of units of the given sizes, one after another.
pub open spec fn run_output(color: Color, m: Seq<u8>, sizes: Seq<nat>) -> Seq<u8>
    decreases sizes.len(),
{
    if sizes.len() == 0 {
        Seq::empty()
    } else {
        run_output(color, m, sizes.drop_last()) + unit_bytes(color, m, sizes.last())
    }
}

/// One run of emission: the writer, the messages, the plan and the progress.
pub struct Emission {
    pub writer: Writer,
    pub messages: Vec<Vec<u8>>,
    pub random: bool,
    pub batched: bool,
    pub buffer: RepeatedBuffer,
    /// The first message and the terminator, as fixed mode writes it line by line.
    pub line: Vec<u8>,
    pub remaining: Option<usize>,
    pub in_flight: usize,
    pub stopped: Option<StopReason>,
}

impl Emission {
    pub open spec fn wf(&self) -> bool {
        &&& self.messages@.len() >= 1
        &&& !self.random ==> self.line@ == line_of(self.messages@[0]@)
        &&& !self.random ==> self.buffer.holds(self.messages@[0]@)
        &&& self.batched == (!self.random && !(self.writer.color is Random))
        &&& self.batched ==> (self.buffer.repeat_count >= 1 || self.remaining == Some(0usize))
        &&& self.in_flight > 0 ==> self.stopped is None && match self.remaining {
            Some(r) => self.in_flight <= r,
            None => true,
        }
    }

    /// Lines in the next unit.
    pub open spec fn unit_size(&self) -> nat {
        unit_lines(self.batched, self.buffer.repeat_count as nat, self.remaining)
    }

    /// What the next unit carries in fixed mode, before styling.
    pub open spec fn payload(&self) -> Seq<u8> {
        if takes_buffer(self.batched, self.buffer.repeat_count as nat, self.remaining) {
            self.buffer.bytes@
        } else {
            line_of(self.messages@[0]@)
        }
    }

    /// The parts of the state that no step changes.
    pub open spec fn same_plan(&self, other: &Emission) -> bool {
        &&& self.writer == other.writer
        &&& self.messages@ == other.messages@
        &&& self.random == other.random
        &&& self.batched == other.batched
        &&& self.buffer == other.buffer
        &&& self.line@ == other.line@
    }

    /// Plans a run: fixed mode writes the first message, batched into one buffer
    /// unless every line needs a style of its own; random mode picks a message for
    /// each line. No messages at all is an error.
    pub fn start(config: &Config, messages: Vec<Vec<u8>>) -> (r: Result<Emission, StartError>)
        requires
            forall|i: int| 0 <= i < messages@.len() ==> (#[trigger] messages@[i])@.len() < usize::MAX,
        ensures
            messages@.len() == 0 <==> r is Err,
            r is Err ==> r == Err::<Emission, StartError>(StartError::MissingMessages),
            r matches Ok(e) ==> {
                &&& e.wf()
                &&& e.messages@ == messages@
                &&& e.random == config.random
                &&& e.writer.color == config.color
                &&& e.remaining == config.max_lines
                &&& e.stopped is None
                &&& e.in_flight == 0
                &&& e.batched ==> e.buffer.repeat_count == repeat_count_of(
                    messages@[0]@.len(),
                    TARGET_CAPACITY as nat,
                    config.max_lines,
                )
            },
    {
        if messages.len() == 0 {
            return Err(StartError::MissingMessages);
        }
        let writer = Writer::new_from_config(config);
        let batched = !config.random && writer.supports_multiple_messages();
        let buffer = if !config.random {
            build_buffer(messages[0].as_slice(), TARGET_CAPACITY, config.max_lines)
        } else {
            RepeatedBuffer { bytes: Vec::new(), repeat_count: 0 }
        };
        let mut line: Vec<u8> = Vec::new();
        if !config.random {
            append_line(&mut line, messages[0].as_slice());
        }
        Ok(Emission {
            writer,
            messages,
            random: config.random,
            batched,
            buffer,
            line,
            remaining: config.max_lines,
            in_flight: 0,
            stopped: None,
        })
    }

    /// Decides the next unit of work. A stopped run stays stopped; a shutdown
    /// request stops it; a bounded run with no lines left stops with its limit
    /// reached. Otherwise the next unit is handed out: in fixed mode the whole
    /// buffer while a whole buffer is left, else one line; in random mode one line
    /// holding a message picked at random.
    pub fn next_unit(&mut self, stop_requested: bool) -> (r: Step)
        requires
            old(self).wf(),
        ensures
            final(self).wf(),
            final(self).same_plan(old(self)),
            final(self).remaining == old(self).remaining,
            old(self).stopped matches Some(reason) ==> (r matches Step::Stop(q) && q == reason)
                && final(self).stopped == old(self).stopped,
            old(self).stopped is None && stop_requested ==> r == Step::Stop(StopReason::ShutdownRequested)
                && final(self).stopped == Some(StopReason::ShutdownRequested),
            old(self).stopped is None && !stop_requested && old(self).remaining == Some(0usize) ==> r
                == Step::Stop(StopReason::LimitReached) && final(self).stopped == Some(
                StopReason::LimitReached,
            ),
            r is Stop ==> final(self).in_flight == 0,
            old(self).stopped is None && !stop_requested && old(self).remaining != Some(0usize) ==> {
                &&& r is Write
                &&& final(self).stopped is None
                &&& final(self).in_flight == old(self).unit_size()
                &&& !old(self).random ==> styled(old(self).writer.color, old(self).payload(), r->Write_0@)
                &&& old(self).random ==> exists|i: int|
                    0 <= i < old(self).messages@.len() && styled_line(
                        old(self).writer.color,
                        (#[trigger] old(self).messages@[i])@,
                        r->Write_0@,
                    )
            },
    {
        match self.stopped {
            Some(reason) => {
                self.in_flight = 0;
                return Step::Stop(reason);
            },
            None => {},
        }
        if stop_requested {
            self.stopped = Some(StopReason::ShutdownRequested);
            self.in_flight = 0;
            return Step::Stop(StopReason::ShutdownRequested);
        }
        let whole_buffer = match self.remaining {
            Some(r) => {
                if r == 0 {
                    self.stopped = Some(StopReason::LimitReached);
                    self.in_flight = 0;
                    return Step::Stop(StopReason::LimitReached);
                }
                self.batched && self.buffer.repeat_count >= 1 && r >= self.buffer.repeat_count
            },
            None => self.batched && self.buffer.repeat_count >= 1,
        };
        if self.random {
            let i = random_below(self.messages.len());
            let bytes = self.writer.writeln(self.messages[i].as_slice());
            self.in_flight = 1;
            Step::Write(bytes)
        } else if whole_buffer {
            let bytes = self.writer.write(self.buffer.bytes.as_slice());
            self.in_flight = self.buffer.repeat_count;
            Step::Write(bytes)
        } else {
            let bytes = self.writer.write(self.line.as_slice());
            self.in_flight = 1;
            Step::Write(bytes)
        }
    }

    /// Takes the outcome of the unit handed out last. Success counts its lines
    /// against the limit; a failure stops the run as `classify` says.
    pub fn record(&mut self, outcome: Result<(), IoFailure>)
        requires
            old(self).wf(),
        ensures
            final(self).wf(),
            final(self).same_plan(old(self)),
            final(self).in_flight == 0,
            old(self).in_flight == 0 ==> final(self).remaining == old(self).remaining
                && final(self).stopped == old(self).stopped,
            old(self).in_flight > 0 && outcome is Ok ==> final(self).remaining == less(
                old(self).remaining,
                old(self).in_flight as nat,
            ) && final(self).stopped is None,
            old(self).in_flight > 0 ==> (outcome matches Err(f) ==> final(self).remaining
                == old(self).remaining && final(self).stopped == Some(classify_spec(f))),
    {
        if self.in_flight == 0 {
            return;
        }
        match outcome {
            Ok(()) => {
                self.remaining = match self.remaining {
                    Some(r) => Some(r - self.in_flight),
                    None => None,
                };
            },
            Err(f) => {
                self.stopped = Some(classify(f));
            },
        }
        self.in_flight = 0;
    }
}

/// Runs a bounded emission to its end, with no shutdown request and every write
/// succeeding, and returns every byte written, the closing style reset included.
/// With color off, fixed mode gives the first message on exactly as many lines as
/// the limit, and random mode as many lines each holding one of the messages.
pub fn render(config: &Config, messages: Vec<Vec<u8>>) -> (r: Result<Vec<u8>, StartError>)
    requires
        config.max_lines is Some,
        forall|i: int| 0 <= i < messages@.len() ==> (#[trigger] messages@[i])@.len() < usize::MAX,
    ensures
        messages@.len() == 0 <==> r is Err,
        r is Err ==> r == Err::<Vec<u8>, StartError>(StartError::MissingMessages),
        r matches Ok(out) ==> (config.color is Disabled && config.max_lines == Some(0usize) ==> out@.len()
            == 0),
        r matches Ok(out) ==> (config.color is Disabled && !config.random ==> out@ == repeat_lines(
            messages@[0]@,
            config.max_lines->0 as nat,
        )),
        r matches Ok(out) ==> (!config.random && !(config.color is Random) ==> {
            let n = repeat_count_of(messages@[0]@.len(), TARGET_CAPACITY as nat, config.max_lines);
            let units = run_output(config.color, messages@[0]@, schedule(config.max_lines->0 as nat, n));
            &&& config.color is Disabled ==> out@ == units
            &&& config.color is Fixed ==> out@ == units + reset_sequence()
        }),
        r matches Ok(out) ==> (config.color is Disabled && config.random ==> exists|picks: Seq<int>|
            {
                &&& picks.len() == config.max_lines->0
                &&& forall|k: int| 0 <= k < picks.len() ==> 0 <= #[trigger] picks[k] < messages@.len()
                &&& out@ == picked_lines(messages@, picks)
            }),
{
    let limit: usize = match config.max_lines {
        Some(l) => l,
        None => 0,
    };
    let ghost msgs = messages@;
    let mut e = match Emission::start(config, messages) {
        Ok(e) => e,
        Err(x) => {
            return Err(x);
        },
    };
    let mut out: Vec<u8> = Vec::new();
    let mut done = false;
    let ghost mut picks: Seq<int> = Seq::empty();
    let ghost mut sizes: Seq<nat> = Seq::empty();
    let ghost unit_run = !config.random && !(config.color is Random);
    let ghost n = e.buffer.repeat_count as nat;
    proof {
        if unit_run {
            assert(sizes + schedule(limit as nat, n) =~= schedule(limit as nat, n));
        }
    }
    let ghost plain_fixed = !config.random && (config.color is Disabled);
    let ghost plain_random = config.random && (config.color is Disabled);
    while !done
        invariant
            e.wf(),
            e.messages@ == msgs,
            msgs.len() >= 1,
            e.random == config.random,
            e.writer.color == config.color,
            e.in_flight == 0,
            config.max_lines == Some(limit),
            e.remaining is Some,
            e.remaining->0 <= limit,
            done ==> e.remaining == Some(0usize),
            !done ==> e.stopped is None,
            plain_fixed == (!config.random && (config.color is Disabled)),
            plain_random == (config.random && (config.color is Disabled)),
            plain_fixed ==> out@ == repeat_lines(msgs[0]@, (limit - e.remaining->0) as nat),
            unit_run == (!config.random && !(config.color is Random)),
            unit_run ==> {
                &&& e.batched
                &&& e.buffer.repeat_count == n
                &&& schedule(limit as nat, n) == sizes + schedule(e.remaining->0 as nat, n)
                &&& out@ == run_output(config.color, msgs[0]@, sizes)
            },
            plain_random ==> {
                &&& picks.len() == limit - e.remaining->0
                &&& forall|k: int| 0 <= k < picks.len() ==> 0 <= #[trigger] picks[k] < msgs.len()
                &&& out@ == picked_lines(msgs, picks)
            },
        decreases e.remaining->0 + (if done { 0int } else { 1int }),
    {
        let ghost before = e;
        match e.next_unit(false) {
            Step::Write(bytes) => {
                append_bytes(&mut out, bytes.as_slice());
                proof {
                    let r = before.remaining->0;
                    let u = before.unit_size();
                    if plain_fixed {
                        let m = msgs[0]@;
                        assert(repeat_lines(m, 1) =~= line_of(m)) by {
                            assert(repeat_lines(m, 0) =~= Seq::<u8>::empty());
                        }
                        assert(before.payload() == repeat_lines(m, u));
                        lemma_repeat_lines_add(m, (limit - r) as nat, u);
                        assert((limit - r) as nat + u == (limit - (r - u)) as nat);
                    }
                    if unit_run {
                        let m = msgs[0]@;
                        assert(repeat_lines(m, 1) =~= line_of(m)) by {
                            assert(repeat_lines(m, 0) =~= Seq::<u8>::empty());
                        }
                        assert(before.payload() == repeat_lines(m, u));
                        assert(bytes@ == unit_bytes(config.color, m, u));
                        let longer = sizes.push(u);
                        assert(longer.drop_last() =~= sizes);
                        assert(schedule(r as nat, n) == seq![u] + schedule((r - u) as nat, n));
                        assert(schedule(limit as nat, n) =~= longer + schedule((r - u) as nat, n));
                        sizes = longer;
                    }
                    if plain_random {
                        let i = choose|i: int|
                            0 <= i < msgs.len() && styled_line(
                                config.color,
                                (#[trigger] msgs[i])@,
                                bytes@,
                            );
                        assert(bytes@ =~= line_of(msgs[i]@));
                        let grown = picks.push(i);
                        assert(grown.drop_last() =~= picks);
                        picks = grown;
                    }
                }
                e.record(Ok(()));
            },
            Step::Stop(_) => {
                done = true;
            },
        }
    }
    let tail = e.writer.reset();
    let ghost body = out@;
    append_bytes(&mut out, tail.as_slice());
    proof {
        if config.color is Disabled {
            assert(out@ =~= body);
        }
        if unit_run {
            assert(sizes + schedule(0, n) =~= sizes);
        }
    }
    Ok(out)
}

} // verus!
