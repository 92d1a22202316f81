use std::collections::{BTreeMap, BTreeSet};

use truth_layer::boundary::{
    run_commands, submit, CharacterId, ClaimId, Command, GatherCommand, OutcomeKind, Receipt,
    RefusalReason, SiteId, Verb, WitnessCommand,
};
use truth_layer::host::{run_hosted, HostCore, HostFault};
use truth_layer::rs01::{rs01_commands, rs01_fixture, RS01_CLAIM, RS01_HOLDER, RS01_SITE, RS01_WITNESS};
use truth_layer::trial::{commands, fixture};

fn lines(log: &[Receipt]) -> Vec<String> {
    log.iter().map(Receipt::canonical_line).collect()
}

#[test]
fn hosted_run_reproduces_pure_receipts_and_hash() {
    let cmds = commands();
    let mut pure_world = fixture();
    let pure_log: Vec<Receipt> = cmds
        .iter()
        .enumerate()
        .map(|(i, cmd)| submit(&mut pure_world, i as u64 + 1, *cmd))
        .collect();

    let (host_world, host_log) = run_hosted(fixture(), &cmds);

    assert_eq!(
        host_world.canonical_state(),
        pure_world.canonical_state(),
        "exact canonical final state"
    );
    assert_eq!(host_world.hash(), pure_world.hash(), "final world hash");
    assert_eq!(lines(&host_log), lines(&pure_log), "canonical receipt lines");
}

const TRACE_SEED: u64 = 0x0070_0700_6d61_7065;
const TRACE_COUNT: usize = 1_000;
const TRACE_DEPTH: usize = 32;
const ACTORS: [u64; 5] = [1, 2, 3, 4, 9];
const CLAIMS: [u64; 10] = [1, 2, 3, 4, 5, 6, 7, 8, 9, 99];
const SITES: [u64; 5] = [1, 2, 3, 4, 9];
const GATHER_COMMANDS: usize = ACTORS.len() * CLAIMS.len() * SITES.len();
const WITNESS_COMMANDS: usize = ACTORS.len() * CLAIMS.len();
const COMMAND_SPACE: usize = GATHER_COMMANDS + WITNESS_COMMANDS;

struct Lcg {
    state: u64,
}

impl Lcg {
    fn new(seed: u64) -> Self {
        Self { state: seed }
    }

    fn next_index(&mut self, upper: usize) -> usize {
        self.state = self
            .state
            .wrapping_mul(6_364_136_223_846_793_005)
            .wrapping_add(1_442_695_040_888_963_407);
        ((self.state >> 32) as usize) % upper
    }
}

#[derive(Default)]
struct Coverage {
    command_indices: BTreeSet<usize>,
    verbs: BTreeMap<String, usize>,
    outcomes: BTreeMap<String, usize>,
}

impl Coverage {
    fn observe(&mut self, command_index: usize, receipt: &Receipt) {
        self.command_indices.insert(command_index);
        *self.verbs.entry(receipt.verb.code().to_owned()).or_default() += 1;
        *self
            .outcomes
            .entry(format!(
                "{}:{}",
                receipt.outcome.code(),
                receipt.outcome.reason_code()
            ))
            .or_default() += 1;
        match receipt.verb {
            Verb::Gather => {
                if matches!(
                    receipt.outcome,
                    OutcomeKind::Accepted
                        | OutcomeKind::Partial(_)
                        | OutcomeKind::Refused(RefusalReason::SiteEmpty)
                ) {
                    assert!(receipt.band.is_some(), "a consulted gather yield has a band");
                    assert!(receipt.tier.is_some(), "a consulted gather yield has a tier");
                }
            }
            Verb::Witness | Verb::Give => {}
        }
    }
}

fn command_at(index: usize) -> Command {
    if index < GATHER_COMMANDS {
        let site_index = index % SITES.len();
        let remaining = index / SITES.len();
        let claim_index = remaining % CLAIMS.len();
        let actor_index = remaining / CLAIMS.len();
        Command::Gather(GatherCommand {
            actor: CharacterId(ACTORS[actor_index]),
            claim: ClaimId(CLAIMS[claim_index]),
            site: SiteId(SITES[site_index]),
        })
    } else {
        let witness_index = index - GATHER_COMMANDS;
        let claim_index = witness_index % CLAIMS.len();
        let actor_index = witness_index / CLAIMS.len();
        Command::Witness(WitnessCommand {
            witness: CharacterId(ACTORS[actor_index]),
            claim: ClaimId(CLAIMS[claim_index]),
        })
    }
}

fn compare_trace(commands: &[Command]) -> Result<Vec<Receipt>, String> {
    let mut pure_world = fixture();
    let pure_log: Vec<Receipt> = commands
        .iter()
        .enumerate()
        .map(|(i, command)| submit(&mut pure_world, i as u64 + 1, *command))
        .collect();
    let (hosted_world, hosted_log) = run_hosted(fixture(), commands);
    if lines(&pure_log) == lines(&hosted_log)
        && pure_world.canonical_state() == hosted_world.canonical_state()
        && pure_world.hash() == hosted_world.hash()
    {
        Ok(pure_log)
    } else {
        Err(format!(
            "pure_receipts={:#?}\nhosted_receipts={:#?}",
            lines(&pure_log),
            lines(&hosted_log)
        ))
    }
}

#[test]
fn falsification_bounded_transition_domain_matches_exactly() {
    let mut generator = Lcg::new(TRACE_SEED);
    let mut coverage = Coverage::default();

    for trace_index in 0..TRACE_COUNT {
        let indexed_commands: Vec<(usize, Command)> = (0..TRACE_DEPTH)
            .map(|_| {
                let command_index = generator.next_index(COMMAND_SPACE);
                (command_index, command_at(command_index))
            })
            .collect();
        let commands: Vec<Command> = indexed_commands.iter().map(|(_, command)| *command).collect();
        match compare_trace(&commands) {
            Ok(pure_log) => {
                for ((command_index, _), receipt) in indexed_commands.iter().zip(&pure_log) {
                    coverage.observe(*command_index, receipt);
                }
            }
            Err(evidence) => {
                panic!("transition-domain parity divergence trace_index={trace_index}\n{evidence}");
            }
        }
    }

    assert_eq!(
        coverage.command_indices.len(),
        COMMAND_SPACE,
        "the seeded run must visit every enumerated command input"
    );
    assert!(coverage.verbs.len() >= 2);
    assert!(!coverage.outcomes.is_empty());
}

fn extra_witness() -> Command {
    Command::Witness(WitnessCommand {
        witness: CharacterId(1),
        claim: ClaimId(9),
    })
}

#[test]
fn falsification_admission_failure_must_leave_zero_canonical_trace() {
    let cmds = commands();
    let mut host = HostCore::new(fixture());
    host.run_trial(&cmds);
    let truth_before = host.truth().canonical_state();
    let hash_before = host.truth().hash();
    let receipts_before = lines(host.receipt_log());

    host.fail_next_admission();
    host.run_trial(std::slice::from_ref(&extra_witness()));
    assert_eq!(host.truth().canonical_state(), truth_before, "zero truth mutation");
    assert_eq!(host.truth().hash(), hash_before);
    assert_eq!(lines(host.receipt_log()), receipts_before, "no canonical receipt");
    assert_eq!(host.host_faults(), &[HostFault::AdmissionFailed]);

    host.run_trial(std::slice::from_ref(&extra_witness()));
    let mut reference = fixture();
    let mut reference_lines = Vec::new();
    for (i, cmd) in cmds.iter().chain([&extra_witness()]).enumerate() {
        reference_lines.push(submit(&mut reference, i as u64 + 1, *cmd).canonical_line());
    }
    assert_eq!(lines(host.receipt_log()), reference_lines);
    assert_eq!(host.truth().canonical_state(), reference.canonical_state());
    assert_eq!(host.host_faults(), &[HostFault::AdmissionFailed]);
}

#[test]
fn host_fault_codes_are_closed() {
    assert_eq!(HostFault::AdmissionFailed.code(), "admission_failed");
    assert_eq!(
        HostFault::ProjectionConsumerFailed.code(),
        "projection_consumer_failed"
    );
    let mut host = HostCore::new(fixture());
    host.record_consumer_failure();
    assert_eq!(host.host_faults(), &[HostFault::ProjectionConsumerFailed]);
    assert!(host.receipt_log().is_empty());
}

#[test]
fn falsification_envelope_single_actor_arc_is_unrepresentable() {
    let mut world = rs01_fixture();
    let receipt = submit(
        &mut world,
        1,
        Command::Witness(WitnessCommand {
            witness: CharacterId(RS01_HOLDER),
            claim: ClaimId(RS01_CLAIM),
        }),
    );
    assert_eq!(
        receipt.outcome,
        OutcomeKind::Refused(RefusalReason::CannotWitnessOwnClaim)
    );
    let receipt = submit(
        &mut world,
        2,
        Command::Gather(GatherCommand {
            actor: CharacterId(RS01_WITNESS),
            claim: ClaimId(RS01_CLAIM),
            site: SiteId(RS01_SITE),
        }),
    );
    assert_eq!(
        receipt.outcome,
        OutcomeKind::Refused(RefusalReason::ClaimNotHeldByActor)
    );
}

#[test]
fn rs01_commands_refuse_then_witness_then_gather() {
    let (world, log) = run_hosted(rs01_fixture(), &rs01_commands());
    assert_eq!(
        log[0].outcome,
        OutcomeKind::Refused(RefusalReason::ClaimNotWitnessed)
    );
    assert_eq!(log[1].outcome, OutcomeKind::Accepted);
    assert_eq!(log[2].outcome, OutcomeKind::Accepted);
    assert_eq!(world.characters.stamina(CharacterId(RS01_HOLDER)).unwrap().points(), 53);
    assert_eq!(world.characters.stamina(CharacterId(RS01_WITNESS)).unwrap().points(), 60);
}

#[test]
fn a_swallowed_first_offer_leaves_the_pure_run_of_the_rest() {
    let cmds = commands();
    let mut host = HostCore::new(fixture());
    host.fail_next_admission();
    host.run_trial(&cmds);
    let rest = &cmds[1..];
    let mut pure = fixture();
    let log = run_commands(&mut pure, rest);
    assert_eq!(lines(host.receipt_log()), lines(&log));
    assert_eq!(host.truth().hash(), pure.hash());
    assert_eq!(host.truth().canonical_state(), pure.canonical_state());
    let codes: Vec<&str> = host.host_faults().iter().map(|f| f.code()).collect();
    assert_eq!(codes, ["admission_failed"]);
}
