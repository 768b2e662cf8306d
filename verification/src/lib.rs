pub mod capability;
pub mod daemon;
pub mod filter;
pub mod grabbed;
pub mod keys;
pub mod laws;
pub mod markers;
pub mod number;
pub mod order;
pub mod ports;
pub mod probe;
pub mod protocol;
pub mod quiet;
pub mod sniper;
pub mod split;
pub mod startup;
pub mod text;
pub mod transport;
pub mod usb;
pub mod watch;
