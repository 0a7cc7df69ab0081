//! A verified TFTP endpoint library: the wire codec, option negotiation,
//! the window buffer, the state machines of the sending and the receiving
//! side of a transfer, the listener's decisions and the command line.
//!
//! The library does no input or output. A transfer is a state machine
//! that is told what happened (bytes were read, a packet arrived, the
//! time is over) and answers with what to do next; the caller owns the
//! socket, the file and the clock. Every function has a contract over a
//! mathematical view of its data, and the laws that relate several
//! functions stand as proof functions: `roundtrip` for the codec,
//! `delivery` and `session` for what a transfer delivers, `numbering` for
//! block numbers and their roll-over, `containment` for the paths that a
//! server serves, and `OptionsProtocol::lemma_apply_idempotent` for the
//! negotiation of options.

pub mod client;
pub mod client_config;
pub mod config;
pub mod containment;
pub mod convert;
pub mod decimal;
pub mod delivery;
pub mod drop;
pub mod log;
pub mod message;
pub mod numbering;
pub mod options;
pub mod packet;
pub mod path;
pub mod receiver;
pub mod roundtrip;
pub mod sender;
pub mod server;
pub mod session;
pub mod text;
pub mod transfer;
pub mod window;
pub mod worker;

pub use convert::Convert;
pub use options::Duration;
pub use options::OptionType;
pub use options::OptionsPrivate;
pub use options::OptionsProtocol;
pub use options::Rollover;
pub use options::TransferOption;
pub use packet::ErrorCode;
pub use packet::Opcode;
pub use packet::Packet;
pub use packet::PacketError;
pub use server::RequestType;
pub use client::Client;
pub use client::Mode;
pub use path::convert_file_path;
pub use path::convert_file_path_abs;
pub use path::validate_file_path;
pub use receiver::Receiver;
pub use sender::Sender;
pub use server::Server;
pub use transfer::Failure;
pub use window::Window;
pub use worker::Worker;
pub use log::verbosity;
pub use log::verbosity_set;
pub use message::Message;
pub use text::OptionFmt;
pub use drop::drop_check;
pub use drop::drop_set;
pub use config::parse_local_args;
pub use config::Config;
pub use config::ConfigError;
pub use client_config::ClientConfig;
