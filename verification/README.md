# zkdb_plonky2

The logic of a zero-knowledge query database, verified with Verus: query plans,
witnesses, the circuits that prove COUNT, SUM, AVG, ORDER BY, GROUP BY and
INNER JOIN over at most 128 rows, and the checks that hold a proof against the
artifact that records it.

## Layout

- `src/field` – the Goldilocks field: arithmetic, a proof that its order is
  prime, and with it that the field has no zero divisors.
- `src/circuit/system.rs` – constraint systems: gates that define wires, checks
  that tie wires together, assigning and checking wires.
- `src/circuit/{agg,sort,group_by,join}.rs` – the circuits. Each is built with a
  proof that its satisfying assignments are exactly those of a stated relation.
- `src/circuit/{permutation,laws}.rs` – what the circuits guarantee (a bound on
  the challenges under which a grand product misses a non-permutation, order,
  group boundaries, sums, the number of groups), exactly which rows their provers
  accept, and what the public inputs then say.
- `src/circuit/witness.rs` – witness traces and how they are built from rows.
- `src/commitment` – commitments to rows and snapshots.
- `src/query` – logical, physical and proof plans.
- `src/backend` – classification and compilation of plans, proving a witness,
  sealing and verifying artifacts, the mock backend, and the laws that tie these
  together.
- `src/api` – what the HTTP interface reports and decides.
- `src/outside.rs` – the calls into BLAKE3, hex, UUID and JSON crates, with the
  contracts that are believed of them.
- `app` – the service: the Plonky2 proof system, serde, axum and tokio.

## The hash

The circuits and commitments hash with Poseidon. The library does not compute
Poseidon: functions that hash take the hash as a callable value, and contracts
hold for every function that it computes. The service passes Plonky2's own
Poseidon, both natively and for the hash gates of a circuit.

## The proof system

The service replays the gates of a constraint system on a Plonky2 circuit
builder, sets the input wires of an assignment, and proves. What the proof
system says of a proof, and the public inputs that the proof carries, go back to
the library, which judges the artifact.
