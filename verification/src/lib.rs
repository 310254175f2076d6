//! Shares AF_PACKET capture rings between local processes.

pub mod text;
pub mod numbers;
pub mod os_error;
pub mod afpacket;
pub mod bpf;
pub mod bytes;
pub mod client_error;
pub mod protocol;
pub mod client;
pub mod stream;
pub mod capture;
pub mod off_linux;
pub mod daemon_error;
pub mod writer;
pub mod reader;
pub mod config;
pub mod serve;
pub mod clients;
pub mod dispatch;
pub mod fanout;
pub mod accept;
pub mod permissions;
pub mod passing;
pub mod stats;
pub mod cleanup;
pub mod shutdown;
pub mod block;
pub mod ffi;
pub mod args;
pub mod pcap;
pub mod testclient;
