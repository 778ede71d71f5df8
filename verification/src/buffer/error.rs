use vstd::prelude::*;

verus! {

/// What can go wrong when packets are stored, looked up or parsed.
#[derive(Debug, PartialEq, Eq, Clone, Copy, Structural)]
pub enum BufferError {
    /// The packet is not in the cache.
    ErrPacketNotFound,
    /// The destination has no room for the packet.
    ErrBufferTooSmall,
    /// The packet is larger than a slot of the cache.
    ErrLargePacket,
    /// The packet is older than anything that the cache still covers.
    ErrPacketTooOld,
    /// The packet was received before.
    ErrRTXPacket,
    /// The packet ends before the fields that it announces.
    ErrShortPacket,
    /// The packet is empty.
    ErrNilPacket,
    /// The buffer is closed.
    ErrIOEof,
    /// The bytes are not a sequence of RTCP packets.
    ErrRTCP,
}

impl BufferError {
    /// The message of the error.
    pub open spec fn text(&self) -> Seq<char> {
        match *self {
            BufferError::ErrPacketNotFound => "packet not found in cache"@,
            BufferError::ErrBufferTooSmall => "buffer too small"@,
            BufferError::ErrLargePacket => "packet too large for the cache"@,
            BufferError::ErrPacketTooOld => "received packet too old"@,
            BufferError::ErrRTXPacket => "packet already received"@,
            BufferError::ErrShortPacket => "packet is not large enough"@,
            BufferError::ErrNilPacket => "invalid nil packet"@,
            BufferError::ErrIOEof => "io EOF"@,
            BufferError::ErrRTCP => "rtcp error"@,
        }
    }

    /// The message of the error.
    pub fn message(&self) -> (message: String)
        ensures
            message@ == self.text(),
    {
        match self {
            BufferError::ErrPacketNotFound => "packet not found in cache".to_owned(),
            BufferError::ErrBufferTooSmall => "buffer too small".to_owned(),
            BufferError::ErrLargePacket => "packet too large for the cache".to_owned(),
            BufferError::ErrPacketTooOld => "received packet too old".to_owned(),
            BufferError::ErrRTXPacket => "packet already received".to_owned(),
            BufferError::ErrShortPacket => "packet is not large enough".to_owned(),
            BufferError::ErrNilPacket => "invalid nil packet".to_owned(),
            BufferError::ErrIOEof => "io EOF".to_owned(),
            BufferError::ErrRTCP => "rtcp error".to_owned(),
        }
    }
}

pub type Result<T> = core::result::Result<T, BufferError>;

} // verus!
