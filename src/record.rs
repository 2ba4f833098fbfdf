use vstd::prelude::*;

use crate::common::{be32, copy_range, le32, read_u32, u32_at, Endianness};
use crate::errors::Error;

verus! {

/// Length of a record header.
pub const RECORD_HEADER_LENGTH: usize = 16;

/// One captured packet: its timestamp, its captured and original lengths and
/// a copy of the captured frame bytes.
pub struct PcapRecord {
    pub timestamp_sec: u32,
    /// Microseconds past `timestamp_sec`.
    pub timestamp_frac: u32,
    pub actual_length: u32,
    pub original_length: u32,
    pub payload: Vec<u8>,
}

/// The captured length declared by the record header at the start of `s`.
pub open spec fn incl_len(s: Seq<u8>, e: Endianness) -> int {
    u32_at(s, 8, e)
}

/// Bytes that the record at the start of `s` takes, header included.
pub open spec fn record_len(s: Seq<u8>, e: Endianness) -> int {
    RECORD_HEADER_LENGTH + incl_len(s, e)
}

/// The error that decoding a record at the start of `s` meets, if any.
pub open spec fn record_error(s: Seq<u8>, e: Endianness) -> Option<Error> {
    if s.len() < RECORD_HEADER_LENGTH {
        Some(Error::Incomplete((RECORD_HEADER_LENGTH - s.len()) as usize))
    } else if s.len() < record_len(s, e) {
        Some(Error::Incomplete((record_len(s, e) - s.len()) as usize))
    } else {
        None
    }
}

/// `r` holds the record at the start of `s`.
pub open spec fn record_fields(s: Seq<u8>, e: Endianness, r: PcapRecord) -> bool {
    &&& r.timestamp_sec == u32_at(s, 0, e)
    &&& r.timestamp_frac == u32_at(s, 4, e)
    &&& r.actual_length == incl_len(s, e)
    &&& r.original_length == u32_at(s, 12, e)
    &&& r.payload@ == s.subrange(RECORD_HEADER_LENGTH as int, record_len(s, e))
}

/// `recs` are the records that follow one another from the start of `s`,
/// and `rest` is what follows the last of them.
pub open spec fn record_chain(s: Seq<u8>, e: Endianness, recs: Seq<PcapRecord>, rest: Seq<u8>) -> bool
    decreases recs.len(),
{
    if recs.len() == 0 {
        rest == s
    } else {
        &&& record_error(s, e) is None
        &&& record_fields(s, e, recs[0])
        &&& record_chain(s.subrange(record_len(s, e), s.len() as int), e, recs.drop_first(), rest)
    }
}

/// Bytes that the records `recs` take on the wire, headers included.
pub open spec fn framed_len(recs: Seq<PcapRecord>) -> int
    decreases recs.len(),
{
    if recs.len() == 0 {
        0
    } else {
        RECORD_HEADER_LENGTH + recs[0].payload@.len() + framed_len(recs.drop_first())
    }
}

/// A chain extends by the record that follows its last one.
pub(crate) proof fn lemma_chain_push(
    s: Seq<u8>,
    e: Endianness,
    recs: Seq<PcapRecord>,
    cur: Seq<u8>,
    r: PcapRecord,
)
    requires
        record_chain(s, e, recs, cur),
        record_error(cur, e) is None,
        record_fields(cur, e, r),
    ensures
        record_chain(s, e, recs.push(r), cur.subrange(record_len(cur, e), cur.len() as int)),
    decreases recs.len(),
{
    if recs.len() > 0 {
        let next = s.subrange(record_len(s, e), s.len() as int);
        lemma_chain_push(next, e, recs.drop_first(), cur, r);
        assert(recs.push(r).drop_first() =~= recs.drop_first().push(r));
        assert(recs.push(r)[0] == recs[0]);
    } else {
        assert(recs.push(r)[0] == r);
        assert(recs.push(r).drop_first() =~= Seq::<PcapRecord>::empty());
        let next = cur.subrange(record_len(cur, e), cur.len() as int);
        assert(record_chain(next, e, recs.push(r).drop_first(), next));
    }
}

/// Each record of a chain accounts for its header and its captured bytes:
/// together with what is left they make up the whole input.
pub proof fn lemma_records_framing(s: Seq<u8>, e: Endianness, recs: Seq<PcapRecord>, rest: Seq<u8>)
    requires
        record_chain(s, e, recs, rest),
    ensures
        framed_len(recs) + rest.len() == s.len(),
    decreases recs.len(),
{
    if recs.len() > 0 {
        let next = s.subrange(record_len(s, e), s.len() as int);
        lemma_records_framing(next, e, recs.drop_first(), rest);
    }
}

/// Every prefix of a record that ends before its captured bytes do fails
/// as incomplete.
pub proof fn lemma_record_prefix_incomplete(s: Seq<u8>, e: Endianness, k: int)
    requires
        record_error(s, e) is None,
        0 <= k < record_len(s, e),
    ensures
        record_error(s.take(k), e) matches Some(Error::Incomplete(_)),
{
    let t = s.take(k);
    if k >= RECORD_HEADER_LENGTH {
        assert(t[8] == s[8] && t[9] == s[9] && t[10] == s[10] && t[11] == s[11]);
        assert(incl_len(t, e) == incl_len(s, e));
    }
}

/// A record written big-endian and the same record written little-endian
/// decode to the same values: the same error, or records with the same
/// fields.
pub proof fn lemma_record_endianness(big: Seq<u8>, little: Seq<u8>)
    requires
        big.len() == little.len(),
        big.len() >= RECORD_HEADER_LENGTH,
        be32(big, 0) == le32(little, 0),
        be32(big, 4) == le32(little, 4),
        be32(big, 8) == le32(little, 8),
        be32(big, 12) == le32(little, 12),
        big.skip(RECORD_HEADER_LENGTH as int) == little.skip(RECORD_HEADER_LENGTH as int),
    ensures
        record_error(big, Endianness::Big) == record_error(little, Endianness::Little),
        record_error(big, Endianness::Big) is None ==> forall|r: PcapRecord|
            #[trigger] record_fields(big, Endianness::Big, r) <==> record_fields(little, Endianness::Little, r),
{
    if record_error(big, Endianness::Big) is None {
        assert forall|r: PcapRecord|
            #[trigger] record_fields(big, Endianness::Big, r) <==> record_fields(little, Endianness::Little, r) by {
            assert(big.subrange(RECORD_HEADER_LENGTH as int, record_len(big, Endianness::Big))
                =~= big.skip(RECORD_HEADER_LENGTH as int).take(incl_len(big, Endianness::Big)));
            assert(little.subrange(RECORD_HEADER_LENGTH as int, record_len(little, Endianness::Little))
                =~= little.skip(RECORD_HEADER_LENGTH as int).take(incl_len(little, Endianness::Little)));
        }
    }
}

/// `little` holds the same records as `big`, with every record header
/// written little-endian where `big` writes it big-endian: the same field
/// values, the same captured bytes, and the same bytes in an incomplete
/// tail.
pub open spec fn mirrored(big: Seq<u8>, little: Seq<u8>) -> bool
    decreases big.len(),
{
    if big.len() < RECORD_HEADER_LENGTH {
        little == big
    } else {
        &&& little.len() == big.len()
        &&& be32(big, 0) == le32(little, 0)
        &&& be32(big, 4) == le32(little, 4)
        &&& be32(big, 8) == le32(little, 8)
        &&& be32(big, 12) == le32(little, 12)
        &&& if record_error(big, Endianness::Big) is None {
            let end = record_len(big, Endianness::Big);
            &&& big.subrange(RECORD_HEADER_LENGTH as int, end) == little.subrange(RECORD_HEADER_LENGTH as int, end)
            &&& mirrored(big.subrange(end, big.len() as int), little.subrange(end, little.len() as int))
        } else {
            big.subrange(RECORD_HEADER_LENGTH as int, big.len() as int)
                == little.subrange(RECORD_HEADER_LENGTH as int, little.len() as int)
        }
    }
}

/// A record sequence written big-endian and the same sequence written
/// little-endian decode to the same records, and leave tails of the same
/// length that hold no complete record.
pub proof fn lemma_chain_endianness(big: Seq<u8>, little: Seq<u8>, recs: Seq<PcapRecord>, rest: Seq<u8>)
    requires
        mirrored(big, little),
        record_chain(big, Endianness::Big, recs, rest),
        record_error(rest, Endianness::Big) is Some,
    ensures
        rest.len() <= big.len(),
        little.len() == big.len(),
        record_chain(little, Endianness::Little, recs, little.skip(big.len() - rest.len())),
        record_error(little.skip(big.len() - rest.len()), Endianness::Little) is Some,
    decreases recs.len(),
{
    if recs.len() == 0 {
        assert(little.skip(0) =~= little);
        if big.len() < RECORD_HEADER_LENGTH {
        } else {
            assert(incl_len(big, Endianness::Big) == incl_len(little, Endianness::Little));
        }
    } else {
        let end = record_len(big, Endianness::Big);
        assert(incl_len(big, Endianness::Big) == incl_len(little, Endianness::Little));
        assert(record_fields(little, Endianness::Little, recs[0]));
        let b2 = big.subrange(end, big.len() as int);
        let l2 = little.subrange(end, little.len() as int);
        lemma_chain_endianness(b2, l2, recs.drop_first(), rest);
        assert(l2.skip(b2.len() - rest.len()) =~= little.skip(big.len() - rest.len()));
    }
}

/// `a` and `b` hold the same record.
pub open spec fn same_record(a: PcapRecord, b: PcapRecord) -> bool {
    &&& a.timestamp_sec == b.timestamp_sec
    &&& a.timestamp_frac == b.timestamp_frac
    &&& a.actual_length == b.actual_length
    &&& a.original_length == b.original_length
    &&& a.payload@ == b.payload@
}

/// Decoding a prefix of a record sequence yields the first records of the
/// whole, never another one, and all of them only when the cut falls in the
/// undecoded tail; so a cut into a sequence that decodes to its end yields
/// strictly fewer records.
pub proof fn lemma_chain_prefix(
    s: Seq<u8>,
    e: Endianness,
    recs: Seq<PcapRecord>,
    rest: Seq<u8>,
    k: int,
    cut_recs: Seq<PcapRecord>,
    cut_rest: Seq<u8>,
)
    requires
        record_chain(s, e, recs, rest),
        record_error(rest, e) is Some,
        0 <= k <= s.len(),
        record_chain(s.take(k), e, cut_recs, cut_rest),
        record_error(cut_rest, e) is Some,
    ensures
        cut_recs.len() <= recs.len(),
        forall|i: int| 0 <= i < cut_recs.len() ==> same_record(#[trigger] cut_recs[i], recs[i]),
        cut_recs.len() == recs.len() ==> cut_rest.len() + (s.len() - k) == rest.len(),
        rest.len() == 0 && k < s.len() ==> cut_recs.len() < recs.len(),
    decreases cut_recs.len(),
{
    let t = s.take(k);
    if cut_recs.len() == 0 {
        if recs.len() > 0 {
            lemma_records_framing(s, e, recs, rest);
            lemma_framed_len_positive(recs);
        }
    } else {
        assert(t[8] == s[8] && t[9] == s[9] && t[10] == s[10] && t[11] == s[11]);
        assert(incl_len(t, e) == incl_len(s, e));
        let end = record_len(s, e);
        assert(record_error(s, e) is None);
        assert(t.subrange(RECORD_HEADER_LENGTH as int, end) =~= s.subrange(RECORD_HEADER_LENGTH as int, end));
        assert(u32_at(t, 0, e) == u32_at(s, 0, e) && u32_at(t, 4, e) == u32_at(s, 4, e));
        assert(u32_at(t, 12, e) == u32_at(s, 12, e));
        if recs.len() == 0 {
            assert(false);
        } else {
            let s2 = s.subrange(end, s.len() as int);
            assert(t.subrange(end, t.len() as int) =~= s2.take(k - end));
            lemma_chain_prefix(s2, e, recs.drop_first(), rest, k - end, cut_recs.drop_first(), cut_rest);
            assert forall|i: int| 0 <= i < cut_recs.len() implies same_record(#[trigger] cut_recs[i], recs[i]) by {
                if i > 0 {
                    assert(cut_recs[i] == cut_recs.drop_first()[i - 1]);
                    assert(recs[i] == recs.drop_first()[i - 1]);
                }
            }
        }
    }
}

/// A non-empty sequence of records takes at least one record header.
proof fn lemma_framed_len_positive(recs: Seq<PcapRecord>)
    ensures
        framed_len(recs) >= if recs.len() > 0 {
            RECORD_HEADER_LENGTH as int
        } else {
            0
        },
    decreases recs.len(),
{
    if recs.len() > 0 {
        lemma_framed_len_positive(recs.drop_first());
    }
}

impl PcapRecord {
    pub fn payload(&self) -> (r: &Vec<u8>)
        ensures
            r@ == self.payload@,
    {
        &self.payload
    }

    /// Decodes one record: the 16-byte header in the file's byte order, then
    /// exactly the captured length of frame bytes.
    pub fn parse(input: &[u8], endianness: Endianness) -> (r: Result<(&[u8], PcapRecord), Error>)
        ensures
            match r {
                Ok((rest, rec)) => {
                    &&& record_error(input@, endianness) is None
                    &&& record_fields(input@, endianness, rec)
                    &&& rest@ == input@.subrange(record_len(input@, endianness), input@.len() as int)
                    &&& RECORD_HEADER_LENGTH + rec.payload@.len() + rest@.len() == input@.len()
                },
                Err(e) => record_error(input@, endianness) == Some(e),
            },
    {
        let n = input.len();
        if n < RECORD_HEADER_LENGTH {
            return Err(Error::Incomplete(RECORD_HEADER_LENGTH - n));
        }
        let actual_length = read_u32(input, 8, endianness);
        let available = n - RECORD_HEADER_LENGTH;
        if available < actual_length as usize {
            return Err(Error::Incomplete(actual_length as usize - available));
        }
        let end = RECORD_HEADER_LENGTH + actual_length as usize;
        let rec = PcapRecord {
            timestamp_sec: read_u32(input, 0, endianness),
            timestamp_frac: read_u32(input, 4, endianness),
            actual_length,
            original_length: read_u32(input, 12, endianness),
            payload: copy_range(input, RECORD_HEADER_LENGTH, end),
        };
        Ok((vstd::slice::slice_subrange(input, end, n), rec))
    }
}

} // verus!
