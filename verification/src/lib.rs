//! Zero-copy, in-place views and builders for fixed-header, TLV-body binary
//! messages in the STUN framing: a 20-byte header followed by a 4-byte-padded
//! attribute list. Read-only and mutating accessors over an externally owned
//! byte buffer, forward iteration over attributes, and an appending builder
//! that maintains the header length field. Out-of-range reads and appends
//! yield absence; truncated or malformed input is read truncation-tolerantly.
pub mod attr;
pub mod attr_mut;
pub mod carve;
pub mod msg;
pub mod msg_mut;
pub mod wire;

pub use attr::ByteAttr;
pub use attr::ByteAttrIter;
pub use attr_mut::ByteAttrIterMut;
pub use attr_mut::ByteAttrMut;
pub use msg::ByteMsg;
pub use msg_mut::ByteMsgMut;
