# remagic

The verified core of the remagic application platform for e-paper tablets: the
rules by which applications are described, started, frozen, drawn, switched and
updated. Every function under `src/` is written in Verus and proved against its
contract, except for the small wrappers around outside functions that are named
at the end.

| where | what |
|---|---|
| `src/device.rs` | which tablet this is, and what it can do |
| `src/manifest/` | application manifests: ids, validation, finding them |
| `src/runtime/` | directories, environment, policy and the checks before a start |
| `src/state/` | the supervisor's states and transitions, and their older single-state form |
| `src/session.rs` | the session that survives a restart |
| `src/power.rs`, `src/power_policy.rs`, `src/backlight.rs` | the power key, idle sleep, the front light |
| `src/system_release.rs` | signed system releases |
| `src/sdk/` | what an application uses: surfaces, frames, touches, lifecycle, sync |
| `src/agent/` | the agent service: requests, turns, worker processes, events |
| `src/home/` | the launcher: pages, gestures, settings, store, images |
| `src/text.rs`, `src/path.rs`, `src/ordered.rs`, `src/first.rs`, `src/json.rs` | text, paths, ordered collections, searching and JSON |
| `app/` | the program around the library: sockets, files, processes, fonts |
| `tests/` | the library on concrete values |

What the library promises over several calls is stated in public proof
functions beside the code it speaks of: for instance, that the display is
covered before the tablet sleeps (`home::ui::lock_pixels_come_before_sleep`),
that a stale generation is refused (`agent::state::stale_generations_are_refused`),
and that frames can be read back as they were written
(`sdk::frame::frames_round_trip`).

Outside functions are called through small wrappers marked
`#[verifier::external_body]`, each with a comment that says what is believed of
the call. They call JSON (`serde_json`), base64, SHA-256 (`sha2`), Ed25519
(`ring`) and PNG (`png`), and of the standard library `String::from_utf8`, the
parsing of an `i32` and the `Debug` output of a `str`. The contract of
`String::push` is believed in the same way.
