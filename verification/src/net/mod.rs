//! Addresses, buffers and messages of the network.

pub mod addr;
pub mod buf;
pub mod msg;
pub mod name;

pub use addr::{IpAddr, SocketAddr};
pub use buf::{Buf, BufMut, ConstBuf};
pub use msg::{
    Ecn, MultiMsgFlattenIter, Packet, PacketModel, RecvModel, RecvMsg, SendModel, SendMsg, SoFeat,
    MAX_PACKET_SIZE,
};
pub use name::{ServerName, ServerNameError};
