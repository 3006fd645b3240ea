# android-bluetooth-serial

Bluetooth classic RFCOMM/SPP connections on Android, from Rust.

- `src/` is the library. It decides what is asked of the Java side of Android and what follows
  from the answers, and does no input or output itself. It is written in Verus: every function
  states its behaviour in a contract that is proved, and the proof functions named `law_..` state
  what whole conversations with the Java side come to.
- `app/` is the crate for users. It carries the commands of the library out through JNI, runs the
  background thread, and offers the socket with the traits `Read` and `Write` of the standard
  library.
- `tests/` holds conversations with prepared answers.

Two things are taken on trust: that `jni::errors::Error` is a type of values that can be handed
on, and what `str::to_lowercase` does (see `src/text.rs`).
