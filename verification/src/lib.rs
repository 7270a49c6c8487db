//! MQTT version 5 sink: sends packets over a connection, numbers those that
//! the peer acknowledges, and matches acknowledgements to requests.
pub mod ack;
pub mod channel;
pub mod codec;
pub mod error;
pub mod external;
pub mod laws;
pub mod lemmas;
pub mod promises;
pub mod publish;
pub mod sink;
pub mod state;
pub mod subscribe;
pub mod table;
pub mod types;
