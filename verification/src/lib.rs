//! Bluetooth classic RFCOMM/SPP connections on Android.
//!
//! The crate decides and does no input or output. Each function of the interface starts a
//! conversation with the Java side of Android: it hands out a first [`java::Command`], takes the
//! [`java::Reply`] to it, hands out the next command, and so on until it ends with its result.
//! The driver of the conversation, which is not part of the crate, carries the commands out.
//!
//! - [`java`]: commands, replies, and the Java methods that are called.
//! - [`operation`]: conversations in general, and what it means to run one.
//! - [`error`]: errors, and how a Java exception becomes one.
//! - [`query`]: yes-or-no questions.
//! - [`adapter`]: the adapter of this device, and the devices that are bonded to it.
//! - [`device`]: remote devices.
//! - [`socket`]: the socket and what it holds.
//! - [`connection`]: connecting and closing a socket.
//! - [`stream`]: reading from a socket, writing to it and flushing it.
//! - [`reader`]: the background thread that receives bytes.
//! - [`buffer`]: the buffer between that thread and the caller who reads.
//! - [`text`]: looking for a word in a message.
//!
//! A function that starts a conversation says in its contract where the conversation starts;
//! `next` of [`operation::Protocol`] and `socket_next` of [`socket::SocketProtocol`] say how it
//! goes on. The proof functions named `law_..` say what whole conversations come to.

pub mod adapter;
pub mod buffer;
pub mod connection;
pub mod device;
pub mod error;
pub mod java;
pub mod operation;
pub mod query;
pub mod reader;
pub mod socket;
pub mod stream;
pub mod text;

pub use adapter::{bluetooth_adapter, get_bluetooth_adapter, get_bonded_devices, is_enabled};
pub use device::BluetoothDevice;
pub use error::{jerr, BluetoothError, ErrorKind};
pub use java::SPP_UUID;
pub use operation::{Operation, Progress};
pub use socket::{BluetoothSocket, SocketOperation};
