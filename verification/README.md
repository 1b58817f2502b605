# Proving keys under a memory ceiling

A PLONK prover holds a key and builds cosets from it. Both can be larger than the
memory that a device will let a process keep. This library decides, by an explicit
policy, what stays in memory and what moves to mapped files, and proves with
[Verus](https://github.com/verus-lang/verus) that the move changes nothing else.

- `src/config.rs`: the policy, cancellation tokens, and the context of a proof.
- `src/plonk/device.rs`, `src/plonk/mmap_pk.rs`: temporary files, their space, and
  batches of polynomials in them.
- `src/plonk/cosets.rs`: cosets in memory or in files.
- `src/plonk/vk.rs`, `src/plonk/pk.rs`, `src/encoding.rs`, `src/bytes.rs`: keys and
  their bytes.
- `src/plonk/stage.rs`: reports of the memory that each stage of a load takes.
- `src/poly/`: polynomials, views, and the storage of bases.
- `src/curve.rs`: scalars and commitments of BLS12-381.
- `app/`: the host side, with the environment, files and mappings.

Statements that relate several functions are the public proof functions whose
names start with `law_`. What the library takes on trust from other crates is
marked `external_body` and described there.
