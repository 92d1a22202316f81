//! The host's commit discipline, independent of any runtime.
//!
//! A host custodies the truth layer and submits commands through the same
//! boundary, one command per tick; it contributes scheduling only — no
//! gameplay semantics. Its own failures are host-local: a closed set,
//! reported beside canonical receipts, never inside them. A host fault is
//! not a game outcome, produces no canonical receipt, and consumes no
//! canonical sequence number.

use vstd::prelude::*;

use crate::boundary::{room_for, run_spec, settled, submit, submit_spec, revisions_within};
use crate::command::Command;
use crate::receipt::Receipt;
use crate::world::{World, WorldModel};

verus! {

/// Host-local faults: transport and presentation failures outside
/// `submit`.
#[derive(Debug, Clone, Copy, PartialEq, Eq, Structural)]
pub enum HostFault {
    /// The intention failed host admission before reaching the boundary.
    AdmissionFailed,
    /// A projection consumer failed downstream of a successful commit.
    ProjectionConsumerFailed,
}

pub open spec fn host_fault_code(f: HostFault) -> Seq<char> {
    match f {
        HostFault::AdmissionFailed => "admission_failed"@,
        HostFault::ProjectionConsumerFailed => "projection_consumer_failed"@,
    }
}

impl HostFault {
    pub fn code(self) -> (r: &'static str)
        ensures
            r@ == host_fault_code(self),
    {
        match self {
            HostFault::AdmissionFailed => "admission_failed",
            HostFault::ProjectionConsumerFailed => "projection_consumer_failed",
        }
    }
}

/// What a host core holds: the custodied world, the last sequence number
/// used, the receipt log, the host-local fault log, and whether a
/// transport failure is armed for the next admission.
pub struct HostModel {
    pub world: WorldModel,
    pub seq: u64,
    pub log: Seq<Receipt>,
    pub faults: Seq<HostFault>,
    pub armed: bool,
}

/// One command offered to the host: an armed fault swallows it (and is
/// recorded), otherwise it is committed under the next sequence number.
pub open spec fn host_offer_spec(h: HostModel, cmd: Command) -> HostModel {
    if h.armed {
        HostModel { faults: h.faults.push(HostFault::AdmissionFailed), armed: false, ..h }
    } else {
        let step = submit_spec(h.world, (h.seq + 1) as u64, cmd);
        HostModel { world: step.0, seq: (h.seq + 1) as u64, log: h.log.push(step.1), ..h }
    }
}

/// The host after offering `cmds` in order.
pub open spec fn host_run_spec(h: HostModel, cmds: Seq<Command>) -> HostModel
    decreases cmds.len(),
{
    if cmds.len() == 0 {
        h
    } else {
        host_offer_spec(host_run_spec(h, cmds.drop_last()), cmds.last())
    }
}

/// The host's custody and commit discipline: every write to truth goes
/// through `submit`, from `commit` alone.
pub struct HostCore {
    world: World,
    seq: u64,
    log: Vec<Receipt>,
    faults: Vec<HostFault>,
    armed: bool,
}

/// A host that can take `n` more commands: settled truth with room for
/// `n` more submits and `n` more sequence numbers.
pub open spec fn host_ready(h: HostModel, n: int) -> bool {
    &&& settled(h.world)
    &&& room_for(h.world, n)
    &&& h.seq + n <= u64::MAX
}

impl HostCore {
    pub closed spec fn view(&self) -> HostModel {
        HostModel {
            world: self.world@,
            seq: self.seq,
            log: self.log@,
            faults: self.faults@,
            armed: self.armed,
        }
    }

    /// Custodies a fixture: no receipt yet, no sequence number used, no
    /// fault recorded, nothing armed.
    pub fn new(fixture: World) -> (r: HostCore)
        ensures
            r@ == (HostModel {
                world: fixture@,
                seq: 0,
                log: Seq::empty(),
                faults: Seq::empty(),
                armed: false,
            }),
    {
        HostCore { world: fixture, seq: 0, log: Vec::new(), faults: Vec::new(), armed: false }
    }

    /// Arms a one-shot injected transport failure for the next admission.
    pub fn fail_next_admission(&mut self)
        ensures
            final(self)@ == (HostModel { armed: true, ..old(self)@ }),
    {
        self.armed = true;
    }

    /// Offers one command: an armed fault records `AdmissionFailed` and the
    /// intention never reaches the boundary; otherwise the command is
    /// submitted under the next sequence number.
    pub fn offer(&mut self, cmd: Command)
        requires
            host_ready(old(self)@, 1),
        ensures
            final(self)@ == host_offer_spec(old(self)@, cmd),
            settled(final(self)@.world),
            revisions_within(old(self)@.world, final(self)@.world, 1),
            final(self)@.seq <= old(self)@.seq + 1,
    {
        if self.armed {
            self.armed = false;
            self.faults.push(HostFault::AdmissionFailed);
            return;
        }
        self.seq = self.seq + 1;
        let receipt = submit(&mut self.world, self.seq, cmd);
        self.log.push(receipt);
    }

    /// Offers each command in order, one tick per command. May be called
    /// again to continue the trial.
    pub fn run_trial(&mut self, commands: &[Command])
        requires
            host_ready(old(self)@, commands@.len() as int),
        ensures
            final(self)@ == host_run_spec(old(self)@, commands@),
            settled(final(self)@.world),
    {
        let ghost h0 = self@;
        let mut i: usize = 0;
        while i < commands.len()
            invariant
                i <= commands@.len(),
                host_ready(h0, commands@.len() as int),
                settled(self@.world),
                revisions_within(h0.world, self@.world, i as int),
                self@.seq <= h0.seq + i,
                self@ == host_run_spec(h0, commands@.take(i as int)),
            decreases commands@.len() - i,
        {
            proof {
                let t = commands@.take(i as int + 1);
                assert(t.drop_last() =~= commands@.take(i as int));
                assert(t.last() == commands@[i as int]);
            }
            self.offer(commands[i]);
            i = i + 1;
        }
        proof {
            assert(commands@.take(commands@.len() as int) =~= commands@);
        }
    }

    /// Reports a failed projection consumer host-locally.
    pub fn record_consumer_failure(&mut self)
        ensures
            final(self)@ == (HostModel {
                faults: old(self)@.faults.push(HostFault::ProjectionConsumerFailed),
                ..old(self)@
            }),
    {
        self.faults.push(HostFault::ProjectionConsumerFailed);
    }

    /// The host-local fault log.
    pub fn host_faults(&self) -> (r: &[HostFault])
        ensures
            r@ == self@.faults,
    {
        self.faults.as_slice()
    }

    /// The custodied truth, read-only.
    pub fn truth(&self) -> (r: &World)
        ensures
            r@ == self@.world,
    {
        &self.world
    }

    pub fn receipt_log(&self) -> (r: &[Receipt])
        ensures
            r@ == self@.log,
    {
        self.log.as_slice()
    }

    /// Gives up custody: the final truth world and receipt log.
    pub fn into_truth(self) -> (r: (World, Vec<Receipt>))
        ensures
            r.0@ == self@.world,
            r.1@ == self@.log,
    {
        (self.world, self.log)
    }
}

/// With nothing armed, offering commands is exactly running them: the
/// host adds no semantics of its own and consumes sequence numbers as the
/// pure run does.
pub proof fn law_unfaulted_host_is_the_pure_run(w: WorldModel, cmds: Seq<Command>)
    requires
        cmds.len() <= u64::MAX,
    ensures
        ({
            let h = host_run_spec(
                HostModel { world: w, seq: 0, log: Seq::empty(), faults: Seq::empty(), armed: false },
                cmds,
            );
            &&& (h.world, h.log) == run_spec(w, cmds)
            &&& h.seq == cmds.len()
            &&& h.faults == Seq::<HostFault>::empty()
            &&& !h.armed
        }),
    decreases cmds.len(),
{
    if cmds.len() > 0 {
        law_unfaulted_host_is_the_pure_run(w, cmds.drop_last());
    }
}

/// Runs a whole trial through the host's admission and commit discipline
/// and returns the final truth world and receipt log.
pub fn run_hosted(fixture: World, commands: &[Command]) -> (r: (World, Vec<Receipt>))
    requires
        settled(fixture@),
        room_for(fixture@, commands@.len() as int),
    ensures
        (r.0@, r.1@) == run_spec(fixture@, commands@),
{
    let ghost w = fixture@;
    let mut host = HostCore::new(fixture);
    host.run_trial(commands);
    proof {
        law_unfaulted_host_is_the_pure_run(w, commands@);
    }
    host.into_truth()
}

/// An armed admission fault swallows the next command: it reaches no
/// owner, leaves no receipt and consumes no sequence number; only the
/// host-local fault log records it, and the fault is disarmed.
pub proof fn law_admission_fault_leaves_no_trace(h: HostModel, cmd: Command)
    requires
        h.armed,
    ensures
        host_offer_spec(h, cmd).world == h.world,
        host_offer_spec(h, cmd).log == h.log,
        host_offer_spec(h, cmd).seq == h.seq,
        host_offer_spec(h, cmd).faults == h.faults.push(HostFault::AdmissionFailed),
        !host_offer_spec(h, cmd).armed,
{
}

/// A trial whose first offer is swallowed by an armed fault ends exactly
/// as the pure run of the remaining commands: the same truth, the same
/// receipts under the same sequence numbers, with the one fault beside
/// them.
pub proof fn law_swallowed_offer_is_invisible_to_truth(w: WorldModel, first: Command, rest: Seq<Command>)
    requires
        rest.len() <= u64::MAX,
    ensures
        ({
            let h = host_run_spec(
                HostModel { world: w, seq: 0, log: Seq::empty(), faults: Seq::empty(), armed: true },
                seq![first] + rest,
            );
            &&& (h.world, h.log) == run_spec(w, rest)
            &&& h.seq == rest.len()
            &&& h.faults == seq![HostFault::AdmissionFailed]
            &&& !h.armed
        }),
    decreases rest.len(),
{
    let h0 = HostModel { world: w, seq: 0, log: Seq::empty(), faults: Seq::empty(), armed: true };
    let all = seq![first] + rest;
    if rest.len() == 0 {
        assert(all.drop_last() =~= Seq::<Command>::empty());
        assert(all.last() == first);
        assert(host_run_spec(h0, all.drop_last()) == h0);
        assert(rest =~= Seq::<Command>::empty());
        assert(run_spec(w, rest) == (w, Seq::<Receipt>::empty()));
        assert(Seq::<HostFault>::empty().push(HostFault::AdmissionFailed) =~= seq![HostFault::AdmissionFailed]);
    } else {
        let prefix = rest.drop_last();
        law_swallowed_offer_is_invisible_to_truth(w, first, prefix);
        assert(all.drop_last() =~= seq![first] + prefix);
        assert(all.last() == rest.last());
        let prev = host_run_spec(h0, all.drop_last());
        assert(prev == host_run_spec(h0, seq![first] + prefix));
        assert(!prev.armed);
        assert(host_run_spec(h0, all) == host_offer_spec(prev, rest.last()));
    }
}

} // verus!
