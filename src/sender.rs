//! The sender: the check of its command line, and its walk over the
//! destination ports as a state machine. The caller performs each send the
//! machine asks for and hands back whether it went through; a failed send
//! never keeps the remaining ports from being tried.

use crate::endpoints::{destination_port, spec_destination_ports, DESTINATION_COUNT};
use vstd::prelude::*;
use vstd::string::StrSliceExecFns;
use vstd::utf8::encode_utf8;

verus! {

/// A command line the sender cannot work with.
#[derive(Clone, Copy, Debug, PartialEq, Eq, Structural)]
pub enum ArgError {
    /// Exactly one argument, the message, is expected; this many were given.
    WrongCount(usize),
}

/// Takes the message out of the sender's arguments (the program name not
/// included): its UTF-8 bytes when there is exactly one argument.
pub fn message_from_args(args: &Vec<String>) -> (r: Result<Vec<u8>, ArgError>)
    ensures
        r is Ok <==> args@.len() == 1,
        r is Ok ==> r->Ok_0@ == encode_utf8(args@[0]@),
        r is Err ==> r->Err_0 == ArgError::WrongCount(args@.len() as usize),
{
    if args.len() != 1 {
        return Err(ArgError::WrongCount(args.len()));
    }
    Ok(args[0].as_str().as_bytes_vec())
}

/// What the caller does next.
#[derive(Clone, Copy, Debug, PartialEq, Eq, Structural)]
pub enum SenderStep {
    /// Send the message to this loopback port.
    Send(u16),
    /// Every destination has been tried.
    Finished,
}

/// The outcome of one delivery attempt.
#[derive(Clone, Copy, Debug, PartialEq, Eq, Structural)]
pub struct Report {
    pub port: u16,
    /// The datagram was handed to the operating system.
    pub sent: bool,
}

/// The step a sender takes once the attempts in `outcomes` are done.
pub open spec fn spec_next_step(outcomes: Seq<bool>) -> SenderStep {
    if outcomes.len() < spec_destination_ports().len() {
        SenderStep::Send(spec_destination_ports()[outcomes.len() as int])
    } else {
        SenderStep::Finished
    }
}

/// The outcomes after one more attempt is recorded; once every port was
/// tried, nothing more is.
pub open spec fn spec_record(outcomes: Seq<bool>, sent: bool) -> Seq<bool> {
    if outcomes.len() < spec_destination_ports().len() {
        outcomes.push(sent)
    } else {
        outcomes
    }
}

/// The outcomes a fresh sender holds after `results` are recorded in turn.
pub open spec fn recorded(results: Seq<bool>) -> Seq<bool>
    decreases results.len(),
{
    if results.len() == 0 {
        Seq::empty()
    } else {
        spec_record(recorded(results.drop_last()), results.last())
    }
}

/// Progress through the destination ports: one outcome per port tried.
pub struct Sender {
    outcomes: Vec<bool>,
}

impl View for Sender {
    type V = Seq<bool>;

    closed spec fn view(&self) -> Seq<bool> {
        self.outcomes@
    }
}

impl Sender {
    #[verifier::type_invariant]
    spec fn inv(&self) -> bool {
        self.outcomes@.len() <= DESTINATION_COUNT
    }

    /// A sender that has tried no port yet.
    pub fn new() -> (r: Sender)
        ensures
            r@ == Seq::<bool>::empty(),
    {
        Sender { outcomes: Vec::new() }
    }

    /// The next port to send to, or `Finished`.
    pub fn next_step(&self) -> (r: SenderStep)
        ensures
            r == spec_next_step(self@),
    {
        proof {
            use_type_invariant(self);
            lemma_destination_count();
        }
        if self.outcomes.len() < DESTINATION_COUNT {
            SenderStep::Send(destination_port(self.outcomes.len()))
        } else {
            SenderStep::Finished
        }
    }

    /// Records whether the send to the current port went through, moving on
    /// to the next port either way. Returns the report for that port, or
    /// `None` when every port was already tried.
    pub fn record(&mut self, sent: bool) -> (r: Option<Report>)
        ensures
            final(self)@ == spec_record(old(self)@, sent),
            r == (match spec_next_step(old(self)@) {
                SenderStep::Send(port) => Some(Report { port, sent }),
                SenderStep::Finished => None,
            }),
    {
        proof {
            use_type_invariant(&*self);
            lemma_destination_count();
        }
        if self.outcomes.len() < DESTINATION_COUNT {
            let port = destination_port(self.outcomes.len());
            let mut outcomes: Vec<bool> = Vec::new();
            std::mem::swap(&mut outcomes, &mut self.outcomes);
            outcomes.push(sent);
            self.outcomes = outcomes;
            Some(Report { port, sent })
        } else {
            None
        }
    }

    /// The reports of the ports tried so far, in order.
    pub fn reports(&self) -> (r: Vec<Report>)
        ensures
            r@.len() == self@.len(),
            r@.len() <= spec_destination_ports().len(),
            forall|i: int|
                0 <= i < r@.len() ==> #[trigger] r@[i] == (Report {
                    port: spec_destination_ports()[i],
                    sent: self@[i],
                }),
    {
        proof {
            use_type_invariant(self);
            lemma_destination_count();
        }
        let mut r: Vec<Report> = Vec::new();
        let mut i: usize = 0;
        while i < self.outcomes.len()
            invariant
                self.outcomes@.len() <= DESTINATION_COUNT,
                spec_destination_ports().len() == DESTINATION_COUNT,
                i <= self.outcomes@.len(),
                r@.len() == i,
                forall|k: int|
                    0 <= k < i ==> #[trigger] r@[k] == (Report {
                        port: spec_destination_ports()[k],
                        sent: self.outcomes@[k],
                    }),
            decreases self.outcomes@.len() - i,
        {
            r.push(Report { port: destination_port(i), sent: self.outcomes[i] });
            i = i + 1;
        }
        r
    }
}

proof fn lemma_destination_count()
    ensures
        spec_destination_ports().len() == DESTINATION_COUNT,
{
}

/// A fresh sender that has recorded `results` holds the first of them, one
/// per destination port, and drops those past the last port.
proof fn lemma_recorded_is_prefix(results: Seq<bool>)
    ensures
        results.len() <= spec_destination_ports().len() ==> recorded(results) == results,
        results.len() > spec_destination_ports().len() ==> recorded(results) == results.take(
            spec_destination_ports().len() as int,
        ),
    decreases results.len(),
{
    if results.len() > 0 {
        lemma_recorded_is_prefix(results.drop_last());
        if results.len() <= spec_destination_ports().len() {
            assert(results.drop_last().push(results.last()) =~= results);
        } else if results.len() == spec_destination_ports().len() + 1 {
            assert(results.drop_last() =~= results.take(spec_destination_ports().len() as int));
        } else {
            assert(results.drop_last().take(spec_destination_ports().len() as int) =~= results.take(
                spec_destination_ports().len() as int,
            ));
        }
    }
}

/// Failures are isolated: whatever each attempt returns, a fresh sender asks
/// to send to every destination port, in order and once each, before it
/// finishes. Attempt `k` goes to the `k`-th port whatever the earlier
/// attempts returned, and after one attempt per port the sender is finished
/// with one outcome recorded for each.
pub proof fn lemma_every_destination_attempted(results: Seq<bool>)
    ensures
        forall|k: int|
            0 <= k < results.len() && k < spec_destination_ports().len() ==> spec_next_step(
                #[trigger] recorded(results.take(k)),
            ) == SenderStep::Send(spec_destination_ports()[k]),
        results.len() >= spec_destination_ports().len() ==> spec_next_step(recorded(results))
            == SenderStep::Finished,
        results.len() >= spec_destination_ports().len() ==> recorded(results) == results.take(
            spec_destination_ports().len() as int,
        ),
{
    assert forall|k: int|
        0 <= k < results.len() && k < spec_destination_ports().len() implies spec_next_step(
        #[trigger] recorded(results.take(k)),
    ) == SenderStep::Send(spec_destination_ports()[k]) by {
        lemma_recorded_is_prefix(results.take(k));
    }
    lemma_recorded_is_prefix(results);
    if results.len() == spec_destination_ports().len() {
        assert(results.take(spec_destination_ports().len() as int) =~= results);
    }
}

} // verus!
