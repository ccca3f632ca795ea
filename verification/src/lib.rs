pub mod text;
pub mod addr;
pub mod range;
pub mod oui;
pub mod ports;
pub mod http;
pub mod netbios;
pub mod device;
pub mod mac;
pub mod types;
pub mod engine;
pub mod registry;
pub mod export;
pub mod subnet;
