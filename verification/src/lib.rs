//! A FIPS leaf node's protocol core: FMP wire framing, established-frame
//! encryption and decryption, link-message dispatch, peer policy, the
//! LR2021 packet framer and the session state machine that drives a node.

pub mod wire;
pub mod aead;
pub mod established;
pub mod bytes_out;
pub mod link;
pub mod clock;
pub mod peer_policy;
pub mod packet_buf;
pub mod lr2021_framing;
pub mod recv_buffer;
pub mod mmp;
pub mod node;
pub mod esp_now;
