# truth_layer

The truth layer of a small settlement game, verified with Verus: three
single-writer owners (characters, economy, social), a validating boundary
that plans every command before any owner mutates, canonical receipts,
deterministic FNV-1a world hashes, and ten bounded oracles that audit a run.

All yield, cost and fixture numbers are mechanical examples, not balance.

## Layout

| Module | Role |
| --- | --- |
| `src/vocab.rs`, `src/grammar.rs` | Closed vocabularies, the 4×4 yield cell, costs, identity fingerprints |
| `src/character.rs`, `src/economy.rs`, `src/social.rs` | The three owners and their validation tokens |
| `src/world.rs` | The whole state, its hash, its canonical serialization, seeding and coherence |
| `src/canon.rs` | Reading canonical lines back: equal canonical states hash equal bytes |
| `src/boundary.rs`, `src/receipt.rs`, `src/command.rs` | Plans, commits, receipts, canonical command bytes |
| `src/laws.rs`, `src/audit.rs`, `src/agreement.rs` | Laws of one submit, of whole runs, and of the shadow's agreement with the boundary |
| `src/shadow.rs`, `src/oracles.rs` | The independent shadow evaluator and the oracle suite |
| `src/host.rs` | The host core: admission, custody, host-local faults |
| `src/seam.rs` | The text command seam |
| `src/trial.rs`, `src/winter.rs`, `src/rs01.rs` | Fixtures, command sequences and scenes |
| `src/anticipation.rs` | Drive-ranked selection between already-legal intents |
| `src/shapes.rs` | The YAML and HTML truth-shape projections |
| `app/` | The command-line runner: prints a trial, its oracles, the scenes, the projections |

The runner in `app/` runs the standard trial and exits non-zero if any
oracle fails. Its `winter` subcommand runs the winter scene, `host` adds the
host parity and fault probes, and `shapes <dir>` writes the truth-shape
projection.
