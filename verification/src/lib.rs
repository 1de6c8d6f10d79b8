//! Invoice status synchronisation: signed status updates are authenticated,
//! the latest status of each invoice is kept in a store, and a watcher of one
//! invoice is told of every change until the invoice reaches a terminal status.

pub mod text;
pub mod args;
pub mod btcpay;
pub mod database;
pub mod hexcode;
pub mod invoice;
pub mod log;
pub mod memory;
pub mod state;
pub mod websocket;
