use vstd::prelude::*;

use crate::common::{be16, Vlan};
use crate::errors::Error;
use crate::layer2::{lemma_ethernet_prefix_incomplete, lemma_vlan_walk_take, lemma_vlan_walk_count, lemma_vlan_walk_extend, ether_type_of, EthernetTypeId, vid_of, vlan_walk, Ethernet, Layer2FlowInfo, MACS_LENGTH};
use crate::layer3::{lemma_l3_prefix_incomplete, lemma_extra_byte_residue, l3_error, l3_fields, InternetProtocolId, IpAddress, Layer3FlowInfo};
use crate::layer4::Layer4FlowInfo;
use crate::record::PcapRecord;

verus! {

/// One end of a flow.
#[derive(Clone, Copy, Debug, PartialEq, Eq)]
pub struct Device {
    pub ip: IpAddress,
    pub port: u16,
}

/// The flow view of one record: when it was captured, its two ends, its
/// VLAN and its layer 4 protocol.
#[derive(Clone, Copy, Debug, PartialEq, Eq)]
pub struct Flow {
    pub timestamp_sec: u32,
    pub timestamp_frac: u32,
    pub source: Device,
    pub destination: Device,
    pub vlan: Vlan,
    pub protocol: InternetProtocolId,
}

/// The layer 3 information that the flow `f` carries.
pub open spec fn flow_layer3(f: Flow) -> Layer3FlowInfo {
    Layer3FlowInfo {
        src_ip: f.source.ip,
        dst_ip: f.destination.ip,
        protocol: f.protocol,
        layer4: Layer4FlowInfo { src_port: f.source.port, dst_port: f.destination.port },
    }
}

/// The EtherType that ends the tags of a frame whose terminal slot is `t`.
pub open spec fn frame_ether_type(frame: Seq<u8>, t: int) -> EthernetTypeId {
    ether_type_of(be16(frame, t) as u16)
}

/// The VLAN of a frame whose terminal slot is `t`: the identifier of the
/// outermost tag, or 0 when the frame has none.
pub open spec fn frame_vlan(frame: Seq<u8>, t: int) -> int {
    if t > MACS_LENGTH {
        vid_of(frame.subrange(MACS_LENGTH + 2, MACS_LENGTH + 4))
    } else {
        0
    }
}

/// The error that projecting the frame bytes `frame` onto a flow meets, if
/// any.
pub open spec fn flow_error(frame: Seq<u8>) -> Option<Error> {
    match vlan_walk(frame, MACS_LENGTH as int) {
        Err(e) => Some(Error::FlowParse(Box::new(e))),
        Ok(t) => l3_error(frame_ether_type(frame, t), frame.subrange(t + 2, frame.len() as int)),
    }
}

/// `f` is the flow of the record `rec`, whose projection succeeds.
pub open spec fn flow_fields(rec: PcapRecord, f: Flow) -> bool {
    let frame = rec.payload@;
    let t = vlan_walk(frame, MACS_LENGTH as int).unwrap();
    &&& l3_fields(frame_ether_type(frame, t), frame.subrange(t + 2, frame.len() as int), flow_layer3(f))
    &&& f.vlan == frame_vlan(frame, t)
    &&& f.timestamp_sec == rec.timestamp_sec
    &&& f.timestamp_frac == rec.timestamp_frac
}

/// Number of records in `recs` whose projection succeeds.
pub open spec fn flow_count(recs: Seq<PcapRecord>) -> nat
    decreases recs.len(),
{
    if recs.len() == 0 {
        0
    } else {
        flow_count(recs.drop_last()) + if flow_error(recs.last().payload@) is None {
            1nat
        } else {
            0nat
        }
    }
}

/// One byte appended to a frame that projects onto a flow makes the
/// projection fail, naming the one byte left over inside the IP packet's
/// region.
pub proof fn lemma_frame_extra_byte(frame: Seq<u8>, b: u8)
    requires
        flow_error(frame) is None,
    ensures
        flow_error(frame.push(b)) == Some(Error::IncompleteParse(1)),
{
    let longer = frame.push(b);
    lemma_vlan_walk_extend(frame, MACS_LENGTH as int, b);
    lemma_vlan_walk_count(frame, MACS_LENGTH as int);
    let t = vlan_walk(frame, MACS_LENGTH as int).unwrap();
    assert(be16(longer, t) == be16(frame, t));
    let payload = frame.subrange(t + 2, frame.len() as int);
    assert(longer.subrange(t + 2, longer.len() as int) =~= payload.push(b));
    lemma_extra_byte_residue(frame_ether_type(frame, t), payload, b);
}

/// Cutting a frame that projects onto a flow anywhere before its end makes
/// the projection fail, and the cause is an incomplete layer: the frame's
/// tags, or the IP packet it carries.
pub proof fn lemma_frame_prefix_incomplete(frame: Seq<u8>, k: int)
    requires
        flow_error(frame) is None,
        0 <= k < frame.len(),
    ensures
        flow_error(frame.take(k)) matches Some(Error::FlowParse(c)) && *c is Incomplete,
{
    lemma_vlan_walk_count(frame, MACS_LENGTH as int);
    let t = vlan_walk(frame, MACS_LENGTH as int).unwrap();
    let cut = frame.take(k);
    if k < t + 2 {
        lemma_ethernet_prefix_incomplete(frame, k);
    } else {
        lemma_vlan_walk_take(frame, MACS_LENGTH as int, k);
        assert(be16(cut, t) == be16(frame, t));
        let payload = frame.subrange(t + 2, frame.len() as int);
        assert(cut.subrange(t + 2, cut.len() as int) =~= payload.take(k - t - 2));
        lemma_l3_prefix_incomplete(frame_ether_type(frame, t), payload, k - t - 2);
    }
}

/// The count over a prefix grows by one at each record that projects.
proof fn lemma_flow_count_step(recs: Seq<PcapRecord>, i: int)
    requires
        0 <= i < recs.len(),
    ensures
        flow_count(recs.take(i + 1)) == flow_count(recs.take(i)) + if flow_error(recs[i].payload@) is None {
            1nat
        } else {
            0nat
        },
{
    assert(recs.take(i + 1).drop_last() =~= recs.take(i));
    assert(recs.take(i + 1).last() == recs[i]);
}

/// A record that projects is counted before any later prefix ends.
proof fn lemma_flow_count_mono(recs: Seq<PcapRecord>, k: int, i: int)
    requires
        0 <= k < i <= recs.len(),
        flow_error(recs[k].payload@) is None,
    ensures
        flow_count(recs.take(k)) < flow_count(recs.take(i)),
    decreases i - k,
{
    lemma_flow_count_step(recs, i - 1);
    if k < i - 1 {
        lemma_flow_count_mono(recs, k, i - 1);
    }
}

impl Flow {
    /// Projects one record onto its flow: decodes the frame, then the IP
    /// packet, then the TCP or UDP header, each filling the region that the
    /// outer layer hands it.
    pub fn from_record(record: &PcapRecord) -> (r: Result<Flow, Error>)
        ensures
            match r {
                Ok(f) => flow_error(record.payload@) is None && flow_fields(*record, f),
                Err(e) => flow_error(record.payload@) == Some(e),
            },
    {
        let frame = record.payload.as_slice();
        let (rest, eth) = match Ethernet::parse(frame) {
            Err(e) => return Err(Error::FlowParse(Box::new(e))),
            Ok(x) => x,
        };
        if rest.len() > 0 {
            return Err(Error::IncompleteParse(rest.len()));
        }
        proof {
            if eth.vlans@.len() > 0 {
                assert(crate::layer2::vlan_tag_at(frame@, 0, eth.vlans@[0]));
            }
        }
        let l2 = Layer2FlowInfo::from_ethernet(&eth)?;
        Ok(Flow {
            timestamp_sec: record.timestamp_sec,
            timestamp_frac: record.timestamp_frac,
            source: Device { ip: l2.layer3.src_ip, port: l2.layer3.layer4.src_port },
            destination: Device { ip: l2.layer3.dst_ip, port: l2.layer3.layer4.dst_port },
            vlan: l2.vlan,
            protocol: l2.layer3.protocol,
        })
    }
}

impl PcapRecord {
    /// Projects every record onto its flow, in order. Leniently, records
    /// whose projection fails are skipped; strictly, the first failure is
    /// returned.
    pub fn convert_records(records: Vec<PcapRecord>, lenient: bool) -> (r: Result<Vec<Flow>, Error>)
        ensures
            lenient ==> r is Ok,
            match r {
                Ok(flows) => {
                    &&& flows@.len() == flow_count(records@)
                    &&& forall|i: int|
                        0 <= i < records@.len() && #[trigger] flow_error(records@[i].payload@) is None
                            ==> flow_fields(records@[i], flows@[flow_count(records@.take(i)) as int])
                    &&& !lenient ==> flows@.len() == records@.len()
                },
                Err(e) => {
                    &&& !lenient
                    &&& exists|i: int|
                        0 <= i < records@.len() && #[trigger] flow_error(records@[i].payload@) == Some(e)
                            && forall|j: int| 0 <= j < i ==> #[trigger] flow_error(records@[j].payload@) is None
                },
            },
    {
        let mut flows: Vec<Flow> = Vec::new();
        let n = records.len();
        let mut i: usize = 0;
        assert(records@.take(0) =~= Seq::<PcapRecord>::empty());
        while i < n
            invariant
                n == records@.len(),
                i <= n,
                flows@.len() == flow_count(records@.take(i as int)),
                forall|k: int|
                    0 <= k < i && #[trigger] flow_error(records@[k].payload@) is None
                        ==> flow_fields(records@[k], flows@[flow_count(records@.take(k)) as int]),
                !lenient ==> flows@.len() == i,
                !lenient ==> forall|k: int| 0 <= k < i ==> #[trigger] flow_error(records@[k].payload@) is None,
            decreases n - i,
        {
            proof {
                lemma_flow_count_step(records@, i as int);
            }
            let ghost old_flows = flows@;
            match Flow::from_record(&records[i]) {
                Ok(f) => {
                    flows.push(f);
                    proof {
                        assert forall|k: int|
                            0 <= k < i && #[trigger] flow_error(records@[k].payload@) is None implies
                            flows@[flow_count(records@.take(k)) as int] == old_flows[flow_count(records@.take(k)) as int] by {
                            lemma_flow_count_mono(records@, k, i as int);
                        }
                    }
                },
                Err(e) => {
                    if !lenient {
                        return Err(e);
                    }
                },
            }
            i = i + 1;
        }
        assert(records@.take(n as int) =~= records@);
        Ok(flows)
    }
}

} // verus!
