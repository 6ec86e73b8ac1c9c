//! Verified decision logic of three network tools: an IPv4 checker, an SSH
//! remote-control tool and a Wake-on-LAN sender.

pub mod text;
pub mod tool;
pub mod check_ipv4;
pub mod ssh_control;
pub mod wake_on_lan;
