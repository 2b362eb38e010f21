//! Transport framing for the IEC 60870-5-104 telecontrol protocol: the
//! reassembly of a TCP byte stream into discrete APDUs, classification of
//! each frame by its control field, and the session and admission rules
//! that bound concurrent connections and idle time.

pub mod admission;
pub mod bytebuf;
pub mod config;
pub mod frame;
pub mod session;
