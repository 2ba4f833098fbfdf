use vstd::prelude::*;

use crate::common::{be16, copy_range, read_be16, to_mac_address, MacAddress, Vlan};
use crate::errors::Error;
use crate::layer3::{l3_flow, Layer3FlowInfo};

verus! {

/// Largest EtherType value that is a payload length rather than a type.
pub const ETHERNET_PAYLOAD: u16 = 1500;

/// Layer 3 protocols that an EtherType can name.
#[derive(Clone, Copy, Debug, PartialEq, Eq, Structural)]
pub enum Layer3Id {
    Lldp,
    IPv4,
    IPv6,
    Arp,
}

/// The two VLAN tag protocol identifiers.
#[derive(Clone, Copy, Debug, PartialEq, Eq, Structural)]
pub enum VlanTypeId {
    /// 802.1Q customer tag, 0x8100.
    VlanTagId,
    /// 802.1ad service tag, 0x88a8.
    ProviderBridging,
}

/// What a 16-bit EtherType slot holds.
#[derive(Clone, Copy, Debug, PartialEq, Eq, Structural)]
pub enum EthernetTypeId {
    PayloadLength(u16),
    Vlan(VlanTypeId),
    L3(Layer3Id),
    Unknown(u16),
}

/// The meaning of the EtherType value `v`.
pub open spec fn ether_type_of(v: u16) -> EthernetTypeId {
    if v == 0x8100 {
        EthernetTypeId::Vlan(VlanTypeId::VlanTagId)
    } else if v == 0x88a8 {
        EthernetTypeId::Vlan(VlanTypeId::ProviderBridging)
    } else if v == 0x88cc {
        EthernetTypeId::L3(Layer3Id::Lldp)
    } else if v == 0x0800 {
        EthernetTypeId::L3(Layer3Id::IPv4)
    } else if v == 0x86dd {
        EthernetTypeId::L3(Layer3Id::IPv6)
    } else if v == 0x0806 {
        EthernetTypeId::L3(Layer3Id::Arp)
    } else if v <= ETHERNET_PAYLOAD {
        EthernetTypeId::PayloadLength(v)
    } else {
        EthernetTypeId::Unknown(v)
    }
}

impl EthernetTypeId {
    pub fn new(v: u16) -> (r: EthernetTypeId)
        ensures
            r == ether_type_of(v),
    {
        match v {
            0x8100 => EthernetTypeId::Vlan(VlanTypeId::VlanTagId),
            0x88a8 => EthernetTypeId::Vlan(VlanTypeId::ProviderBridging),
            0x88cc => EthernetTypeId::L3(Layer3Id::Lldp),
            0x0800 => EthernetTypeId::L3(Layer3Id::IPv4),
            0x86dd => EthernetTypeId::L3(Layer3Id::IPv6),
            0x0806 => EthernetTypeId::L3(Layer3Id::Arp),
            x => {
                if x <= ETHERNET_PAYLOAD {
                    EthernetTypeId::PayloadLength(x)
                } else {
                    EthernetTypeId::Unknown(x)
                }
            },
        }
    }
}

/// Length of the two MAC addresses that start a frame.
pub const MACS_LENGTH: usize = 12;

/// Bytes of a VLAN tag's value, which follows the tag's 2-byte type; its
/// first two bytes are the TCI.
pub const VLAN_LENGTH: usize = 4;

/// Bytes that one VLAN tag takes on the wire: its type and its value.
pub const VLAN_TAG_LENGTH: usize = 6;

/// The VLAN tag type that a VLAN EtherType names.
pub open spec fn vlan_type_of(v: u16) -> VlanTypeId {
    if v == 0x88a8 {
        VlanTypeId::ProviderBridging
    } else {
        VlanTypeId::VlanTagId
    }
}

/// The 12-bit VLAN identifier in the TCI that starts the tag bytes `v`.
pub open spec fn vid_of(v: Seq<u8>) -> int {
    (v[0] % 16) as int * 256 + v[1] as int
}

/// One VLAN tag: its type and the four bytes of value that follow its type
/// on the wire, the TCI first.
#[derive(Clone, Copy, Debug, PartialEq, Eq)]
pub struct VlanTag {
    pub vlan_type: VlanTypeId,
    pub value: [u8; 4],
}

impl VlanTag {
    /// The VLAN identifier: the low twelve bits of the big-endian TCI.
    pub fn vlan(&self) -> (r: u16)
        ensures
            r as int == vid_of(self.value@),
    {
        (self.value[0] % 16) as u16 * 256 + self.value[1] as u16
    }
}

/// The VLAN identifier of the outermost tag in `vlans`, or 0 without tags.
pub open spec fn outer_vid(vlans: Seq<VlanTag>) -> int {
    if vlans.len() > 0 {
        vid_of(vlans[0].value@)
    } else {
        0
    }
}

/// Steps over the VLAN tags of the frame `s` from the EtherType slot at
/// offset `p`. Gives the offset of the slot that holds the terminal
/// EtherType, or the bytes that are missing to reach it.
pub open spec fn vlan_walk(s: Seq<u8>, p: int) -> Result<int, Error>
    decreases s.len() - p,
{
    if p + 2 > s.len() {
        Err(Error::Incomplete((p + 2 - s.len()) as usize))
    } else if ether_type_of(be16(s, p) as u16) is Vlan {
        if p + 6 > s.len() {
            Err(Error::Incomplete((p + 6 - s.len()) as usize))
        } else {
            vlan_walk(s, p + 6)
        }
    } else {
        Ok(p)
    }
}

/// Number of consecutive VLAN tags in the frame `s` from the EtherType slot
/// at offset `p`.
pub open spec fn vlan_count(s: Seq<u8>, p: int) -> nat
    decreases s.len() - p,
{
    if p + 6 <= s.len() && ether_type_of(be16(s, p) as u16) is Vlan {
        1 + vlan_count(s, p + 6)
    } else {
        0
    }
}

/// A walk that succeeds steps over exactly the tags that follow one another.
pub proof fn lemma_vlan_walk_count(s: Seq<u8>, p: int)
    requires
        vlan_walk(s, p) is Ok,
    ensures
        vlan_walk(s, p).unwrap() == p + 6 * vlan_count(s, p),
        vlan_walk(s, p).unwrap() + 2 <= s.len(),
    decreases s.len() - p,
{
    if p + 2 <= s.len() && ether_type_of(be16(s, p) as u16) is Vlan && p + 6 <= s.len() {
        lemma_vlan_walk_count(s, p + 6);
    }
}

/// A frame with stacked VLAN tags decodes to as many tags as follow one
/// another on the wire, outermost first, each with the type and bytes found
/// at its place, and the frame's VLAN is the identifier of the outermost one.
pub proof fn lemma_vlan_stacking(s: Seq<u8>, e: Ethernet)
    requires
        vlan_walk(s, MACS_LENGTH as int) is Ok,
        ethernet_fields(s, e),
    ensures
        e.vlans@.len() == vlan_count(s, MACS_LENGTH as int),
        forall|i: int| 0 <= i < e.vlans@.len() ==> vlan_tag_at(s, i, #[trigger] e.vlans@[i]),
        outer_vid(e.vlans@) == if e.vlans@.len() > 0 {
            vid_of(s.subrange(MACS_LENGTH + 2, MACS_LENGTH + 4))
        } else {
            0
        },
{
    lemma_vlan_walk_count(s, MACS_LENGTH as int);
    if e.vlans@.len() > 0 {
        assert(vlan_tag_at(s, 0, e.vlans@[0]));
    }
}

/// Cutting a frame inside its addresses or tags leaves a walk that asks
/// for more bytes.
proof fn lemma_vlan_walk_prefix(s: Seq<u8>, p: int, k: int)
    requires
        0 <= p,
        vlan_walk(s, p) is Ok,
        0 <= k < vlan_walk(s, p).unwrap() + 2,
        k <= s.len(),
    ensures
        vlan_walk(s.take(k), p) matches Err(Error::Incomplete(_)),
    decreases s.len() - p,
{
    let t = s.take(k);
    if k >= p + 2 {
        assert(be16(t, p) == be16(s, p));
        if ether_type_of(be16(s, p) as u16) is Vlan {
            if k >= p + 6 {
                lemma_vlan_walk_prefix(s, p + 6, k);
            }
        }
    }
}

/// Every prefix of a frame that ends before its terminal EtherType slot is
/// complete fails as incomplete.
pub proof fn lemma_ethernet_prefix_incomplete(s: Seq<u8>, k: int)
    requires
        vlan_walk(s, MACS_LENGTH as int) is Ok,
        0 <= k < terminal_slot(s) + 2,
    ensures
        vlan_walk(s.take(k), MACS_LENGTH as int) matches Err(Error::Incomplete(_)),
{
    lemma_vlan_walk_count(s, MACS_LENGTH as int);
    lemma_vlan_walk_prefix(s, MACS_LENGTH as int, k);
}

/// Cutting a frame after its terminal EtherType slot leaves its tags and
/// that slot where they were.
pub proof fn lemma_vlan_walk_take(s: Seq<u8>, p: int, k: int)
    requires
        0 <= p,
        vlan_walk(s, p) is Ok,
        vlan_walk(s, p).unwrap() + 2 <= k <= s.len(),
    ensures
        vlan_walk(s.take(k), p) == vlan_walk(s, p),
    decreases s.len() - p,
{
    lemma_vlan_walk_count(s, p);
    let t = s.take(k);
    assert(be16(t, p) == be16(s, p));
    if ether_type_of(be16(s, p) as u16) is Vlan && p + 6 <= s.len() {
        lemma_vlan_walk_take(s, p + 6, k);
    }
}

/// Bytes appended after a frame's tags change neither the tags nor where
/// the terminal EtherType slot is.
pub proof fn lemma_vlan_walk_extend(s: Seq<u8>, p: int, b: u8)
    requires
        0 <= p,
        vlan_walk(s, p) is Ok,
    ensures
        vlan_walk(s.push(b), p) == vlan_walk(s, p),
    decreases s.len() - p,
{
    let t = s.push(b);
    assert(be16(t, p) == be16(s, p));
    if ether_type_of(be16(s, p) as u16) is Vlan && p + 6 <= s.len() {
        lemma_vlan_walk_extend(s, p + 6, b);
    }
}

/// Offset of the terminal EtherType slot of a frame that decodes.
pub open spec fn terminal_slot(s: Seq<u8>) -> int {
    vlan_walk(s, MACS_LENGTH as int).unwrap()
}

/// The `i`-th VLAN tag of the frame `s` is `tag`.
pub open spec fn vlan_tag_at(s: Seq<u8>, i: int, tag: VlanTag) -> bool {
    let p = MACS_LENGTH + 6 * i;
    &&& ether_type_of(be16(s, p) as u16) == EthernetTypeId::Vlan(tag.vlan_type)
    &&& tag.value@ == s.subrange(p + 2, p + 6)
}

/// A decoded Ethernet II frame. It owns a copy of its payload.
pub struct Ethernet {
    pub dst_mac: MacAddress,
    pub src_mac: MacAddress,
    pub ether_type: EthernetTypeId,
    pub vlans: Vec<VlanTag>,
    pub payload: Vec<u8>,
}

/// `e` holds the frame `s`: its addresses, its tags from outermost to
/// innermost, the terminal EtherType and everything after it as payload.
pub open spec fn ethernet_fields(s: Seq<u8>, e: Ethernet) -> bool {
    let t = terminal_slot(s);
    &&& e.dst_mac.0@ == s.subrange(0, 6)
    &&& e.src_mac.0@ == s.subrange(6, 12)
    &&& e.ether_type == ether_type_of(be16(s, t) as u16)
    &&& MACS_LENGTH + 6 * e.vlans@.len() == t
    &&& forall|i: int| 0 <= i < e.vlans@.len() ==> vlan_tag_at(s, i, #[trigger] e.vlans@[i])
    &&& e.payload@ == s.subrange(t + 2, s.len() as int)
}

impl Ethernet {
    pub fn dst_mac(&self) -> (r: &MacAddress)
        ensures
            *r == self.dst_mac,
    {
        &self.dst_mac
    }

    pub fn src_mac(&self) -> (r: &MacAddress)
        ensures
            *r == self.src_mac,
    {
        &self.src_mac
    }

    pub fn ether_type(&self) -> (r: &EthernetTypeId)
        ensures
            *r == self.ether_type,
    {
        &self.ether_type
    }

    pub fn vlans(&self) -> (r: &Vec<VlanTag>)
        ensures
            r@ == self.vlans@,
    {
        &self.vlans
    }

    /// The VLAN identifier of the outermost tag, or 0 without tags.
    pub fn vlans_to_vlan(vlans: &Vec<VlanTag>) -> (r: Vlan)
        ensures
            r as int == outer_vid(vlans@),
    {
        if vlans.len() > 0 {
            vlans[0].vlan()
        } else {
            0
        }
    }

    pub fn vlan(&self) -> (r: Vlan)
        ensures
            r as int == outer_vid(self.vlans@),
    {
        Ethernet::vlans_to_vlan(&self.vlans)
    }

    pub fn payload(&self) -> (r: &Vec<u8>)
        ensures
            r@ == self.payload@,
    {
        &self.payload
    }

    pub fn new(
        dst_mac: MacAddress,
        src_mac: MacAddress,
        ether_type: EthernetTypeId,
        vlans: Vec<VlanTag>,
        payload: Vec<u8>,
    ) -> (r: Ethernet)
        ensures
            r.dst_mac == dst_mac,
            r.src_mac == src_mac,
            r.ether_type == ether_type,
            r.vlans@ == vlans@,
            r.payload@ == payload@,
    {
        Ethernet { dst_mac, src_mac, ether_type, vlans, payload }
    }

    /// Decodes an Ethernet II frame with any number of stacked VLAN tags.
    /// The payload runs to the end of the input, so the rest is empty.
    pub fn parse(input: &[u8]) -> (r: Result<(&[u8], Ethernet), Error>)
        ensures
            match r {
                Ok((rest, e)) => {
                    &&& vlan_walk(input@, MACS_LENGTH as int) is Ok
                    &&& ethernet_fields(input@, e)
                    &&& rest@.len() == 0
                    &&& MACS_LENGTH + VLAN_TAG_LENGTH * e.vlans@.len() + 2 + e.payload@.len() == input@.len()
                },
                Err(err) => vlan_walk(input@, MACS_LENGTH as int) == Err::<int, Error>(err),
            },
    {
        let n = input.len();
        if n < MACS_LENGTH + 2 {
            return Err(Error::Incomplete(MACS_LENGTH + 2 - n));
        }
        let dst_mac = to_mac_address(input, 0);
        let src_mac = to_mac_address(input, 6);
        let mut vlans: Vec<VlanTag> = Vec::new();
        let mut p: usize = MACS_LENGTH;
        let mut ether_type = EthernetTypeId::new(read_be16(input, p));
        while matches!(ether_type, EthernetTypeId::Vlan(_))
            invariant
                n == input@.len(),
                p == MACS_LENGTH + 6 * vlans@.len(),
                p + 2 <= n,
                ether_type == ether_type_of(be16(input@, p as int) as u16),
                vlan_walk(input@, MACS_LENGTH as int) == vlan_walk(input@, p as int),
                forall|i: int| 0 <= i < vlans@.len() ==> vlan_tag_at(input@, i, #[trigger] vlans@[i]),
            decreases n - p,
        {
            if n - p < 6 {
                return Err(Error::Incomplete(6 - (n - p)));
            }
            let vlan_type = match ether_type {
                EthernetTypeId::Vlan(v) => v,
                _ => VlanTypeId::VlanTagId,
            };
            let value = [input[p + 2], input[p + 3], input[p + 4], input[p + 5]];
            assert(value@ =~= input@.subrange(p + 2, p + 6));
            let tag = VlanTag { vlan_type, value };
            vlans.push(tag);
            p = p + VLAN_TAG_LENGTH;
            if n - p < 2 {
                return Err(Error::Incomplete(2 - (n - p)));
            }
            ether_type = EthernetTypeId::new(read_be16(input, p));
        }
        let payload = copy_range(input, p + 2, n);
        let e = Ethernet { dst_mac, src_mac, ether_type, vlans, payload };
        Ok((vstd::slice::slice_subrange(input, n, n), e))
    }
}

/// Addresses, VLAN and ports of one frame.
#[derive(Clone, Copy, Debug, PartialEq, Eq)]
pub struct Layer2FlowInfo {
    pub src_mac: MacAddress,
    pub dst_mac: MacAddress,
    pub vlan: Vlan,
    pub layer3: Layer3FlowInfo,
}

impl Layer2FlowInfo {
    /// Projects a frame onto its flow information: only IPv4 and IPv6
    /// payloads carrying TCP or UDP give one, and each inner layer must use
    /// the whole region the outer one hands it.
    pub fn from_ethernet(value: &Ethernet) -> (r: Result<Layer2FlowInfo, Error>)
        ensures
            match r {
                Ok(info) => {
                    &&& l3_flow(value.ether_type, value.payload@, Ok::<Layer3FlowInfo, Error>(info.layer3))
                    &&& info.src_mac == value.src_mac
                    &&& info.dst_mac == value.dst_mac
                    &&& info.vlan == outer_vid(value.vlans@)
                },
                Err(e) => l3_flow(value.ether_type, value.payload@, Err::<Layer3FlowInfo, Error>(e)),
            },
    {
        let layer3 = Layer3FlowInfo::from_payload(value.ether_type, value.payload.as_slice())?;
        Ok(Layer2FlowInfo {
            src_mac: value.src_mac,
            dst_mac: value.dst_mac,
            vlan: Ethernet::vlans_to_vlan(&value.vlans),
            layer3,
        })
    }
}

} // verus!
