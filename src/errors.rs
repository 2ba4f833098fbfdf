use vstd::prelude::*;

use crate::layer2::EthernetTypeId;
use crate::layer3::InternetProtocolId;

verus! {

/// Why a decode or a flow projection failed.
#[derive(Debug)]
pub enum Error {
    /// The buffer ended inside a structure; this many more bytes are needed.
    Incomplete(usize),
    /// The capture file's magic number is not one this decoder knows.
    BadMagic(u32),
    /// An IP header carries a version other than the one expected.
    BadVersion(u8),
    /// An IPv4 header length (IHL) below five words.
    BadHeaderLength(u8),
    /// A TCP data offset below five words.
    BadDataOffset(u8),
    /// A declared length smaller than the header it must cover, or one that
    /// an IPv6 extension header overruns.
    BadLength(u16),
    /// An EtherType that is neither a VLAN tag, a known layer 3 protocol
    /// nor a payload length.
    UnknownEtherType(u16),
    /// A well-formed frame whose layer 3 protocol yields no flow.
    UnsupportedL3(EthernetTypeId),
    /// A well-formed packet whose layer 4 protocol yields no flow.
    UnsupportedL4(InternetProtocolId),
    /// An inner layer left this many bytes of the region handed to it.
    IncompleteParse(usize),
    /// A lower layer failed while a flow was built; the cause is kept.
    FlowParse(Box<Error>),
}

} // verus!
