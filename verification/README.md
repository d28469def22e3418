# gmessages

Google Messages support for a messaging app (Android, experimental): the
store of threads, messages, outbox items and sync cursors; the outbox retry
rules; the sync loop's decisions; the WebView record mappings; and the
encrypted session file.

- `src/` is the library, written in Verus and verified: the public functions
  state in `ensures` what they return and change (where the clock or the
  operating system's randomness decides, what holds whatever they give), and
  the laws of the store, the outbox and the sync backoff are public proof
  functions (`store_laws.rs` and beside the functions they speak of). Calls
  into `aes-gcm`, `base64`, `getrandom`, `uuid` and the system clock stand
  behind small trusted wrappers whose contracts say what those crates document.
- `app/` is the ordinary Rust around it: JSON persistence, file and HTTP I/O,
  the async outbox and sync loops, and the entry points the Flutter side calls.
- `tests/` exercises the library on concrete values.
