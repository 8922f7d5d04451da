# tcp_optimiser

TCP Optimiser tunes TCP congestion control, queue disciplines and pacing on
Android devices (Magisk / KernelSU module). It detects the active Wi-Fi or
cellular interface, resolves the policy for it against what the kernel
supports, applies it, and keeps rollback evidence so that every change can be
undone and read back.

## Layout

- `src/` is the library, written in Verus. Every function there carries a
  `requires` / `ensures` contract that Verus proves; the public proof
  functions (`lemma_*`) state properties that relate several functions, such
  as the hysteresis of the adaptive classifier, the round trip of the
  unavailable-algorithm marker, how baseline restoration reports refused and
  read-back steps, and the generation rules of the runtime-control protocol.
  Which recorded sysctl a restore may write is decided by
  `baseline::restore_action`, whose contract admits a write only on a path of
  the compiled allowlist whose node exists.
  - `config`, `network`, `daemon`, `daemon_apply`, `daemon_loop`: policy
    resolution per interface and the decisions of the daemon loop.
  - `sysctl`, `kernel_module`, `bbr2`: kernel parameters, bundled modules and
    their markers, the BBRv2 provider probe.
  - `baseline`, `baseline_status`, `checkpoint`, `control`, `plan`, `policy`:
    rollback journals, runtime control, last-known-good checkpoints, policy
    plans, verification and repair.
  - `health`: what follows a post-apply verification (checkpoint, one more
    consecutive failure, automatic safe mode at the threshold).
  - `integrity`, `digest`: the signed SHA-256 manifest of the module payload.
  - `proxy`, `stats`, `profile`, `adaptive`, `liveness`, `logging`,
    `install`, `build_info`, `order`, `text`, `clock`: parsers and helpers.
- The calls into `sha2`, `ed25519-dalek`, the clock and a few `std` text
  functions go through small trusted wrappers (`#[verifier::external_body]`)
  whose contracts name or state what those functions return.
- `app/` is the `tcp_optimiser` command: argument handling, file and process
  I/O, JSON (serde) and the floating-point telemetry classifier. It performs
  the reads and writes that the library's decisions name.
- `tests/` exercises the library on concrete values.
