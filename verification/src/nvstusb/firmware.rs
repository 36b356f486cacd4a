//! The emitter's firmware image: a stream of records, each with its length, its
//! address and its bytes.  Length and address are sixteen bits, high byte
//! first.

use vstd::prelude::*;

verus! {

/// A piece of firmware: the bytes `from..to` of the image go to `address`.
#[derive(Clone, Copy, Debug, PartialEq, Eq, Structural)]
pub struct FirmwareRecord {
    pub address: u16,
    pub from: usize,
    pub to: usize,
}

/// What is wrong with an image.
#[derive(Clone, Copy, Debug, PartialEq, Eq, Structural)]
pub enum FirmwareError {
    /// A record is longer than what is left of the image.
    Truncated,
    /// The image ends inside the head of a record.
    MidRecord,
}

impl FirmwareError {
    pub fn message(&self) -> (m: &'static str)
        ensures
            m@ == (match *self {
                FirmwareError::Truncated => "truncated firmware record"@,
                FirmwareError::MidRecord => "firmware ended mid-record"@,
            }),
    {
        match self {
            FirmwareError::Truncated => "truncated firmware record",
            FirmwareError::MidRecord => "firmware ended mid-record",
        }
    }
}

/// A record as its address and its bytes.
pub type RecordView = (u16, Seq<u8>);

/// The sixteen-bit number at `at`, high byte first.
pub open spec fn be16(s: Seq<u8>, at: int) -> int {
    s[at] * 256 + s[at + 1]
}

/// The records of an image up to the first fault, and the fault.
pub open spec fn image(fw: Seq<u8>) -> (Seq<RecordView>, Option<FirmwareError>)
    decreases fw.len(),
{
    if fw.len() < 4 {
        (
            Seq::empty(),
            if fw.len() == 0 {
                None
            } else {
                Some(FirmwareError::MidRecord)
            },
        )
    } else {
        let n = be16(fw, 0);
        let rest = fw.skip(4);
        if n > rest.len() {
            (Seq::empty(), Some(FirmwareError::Truncated))
        } else {
            let (more, fault) = image(rest.skip(n));
            (seq![(be16(fw, 2) as u16, rest.take(n))] + more, fault)
        }
    }
}

/// The record's place in the image and its bytes.
pub open spec fn record_view(fw: Seq<u8>) -> spec_fn(FirmwareRecord) -> RecordView {
    |r: FirmwareRecord| (r.address, fw.subrange(r.from as int, r.to as int))
}

/// Splits an image into its records.  Where a record is faulty, the records
/// before it are returned together with the fault.
pub fn read_firmware(fw: &[u8]) -> (r: (Vec<FirmwareRecord>, Option<FirmwareError>))
    ensures
        r.0@.map_values(record_view(fw@)) == image(fw@).0,
        r.1 == image(fw@).1,
        forall|i: int|
            0 <= i < r.0@.len() ==> (#[trigger] r.0@[i]).from <= r.0@[i].to <= fw@.len(),
{
    let mut records: Vec<FirmwareRecord> = Vec::new();
    let mut pos: usize = 0;
    let ghost all = image(fw@);
    proof {
        assert(fw@.skip(0) =~= fw@);
        assert(records@.map_values(record_view(fw@)) + all.0 =~= all.0);
    }
    while fw.len() - pos >= 4
        invariant
            pos <= fw@.len(),
            all == image(fw@),
            all.0 == records@.map_values(record_view(fw@)) + image(fw@.skip(pos as int)).0,
            all.1 == image(fw@.skip(pos as int)).1,
            forall|i: int|
                0 <= i < records@.len() ==> (#[trigger] records@[i]).from <= records@[i].to
                    <= fw@.len(),
        decreases fw@.len() - pos,
    {
        let ghost here = fw@.skip(pos as int);
        let length: usize = fw[pos] as usize * 256 + fw[pos + 1] as usize;
        let address: u16 = fw[pos + 2] as u16 * 256 + fw[pos + 3] as u16;
        let from: usize = pos + 4;
        proof {
            assert(here[0] == fw@[pos as int] && here[1] == fw@[pos + 1]);
            assert(here[2] == fw@[pos + 2] && here[3] == fw@[pos + 3]);
        }
        if length > fw.len() - from {
            assert(records@.map_values(record_view(fw@)) + Seq::<RecordView>::empty()
                =~= records@.map_values(record_view(fw@)));
            return (records, Some(FirmwareError::Truncated));
        }
        let ghost before = records@.map_values(record_view(fw@));
        records.push(FirmwareRecord { address, from, to: from + length });
        proof {
            let bytes = here.skip(4).take(length as int);
            assert(bytes =~= fw@.subrange(from as int, from + length));
            assert(here.skip(4).skip(length as int) =~= fw@.skip(from + length));
            let more = image(fw@.skip(from + length)).0;
            assert(records@.map_values(record_view(fw@)) =~= before.push((address, bytes)));
            assert(before + (seq![(address, bytes)] + more) =~= before.push((address, bytes))
                + more);
        }
        pos = from + length;
    }
    assert(records@.map_values(record_view(fw@)) + Seq::<RecordView>::empty()
        =~= records@.map_values(record_view(fw@)));
    if pos != fw.len() {
        (records, Some(FirmwareError::MidRecord))
    } else {
        (records, None)
    }
}

/// The bytes of a record in an image.
pub open spec fn record_bytes(r: RecordView) -> Seq<u8> {
    seq![
        (r.1.len() / 256) as u8,
        (r.1.len() % 256) as u8,
        (r.0 / 256) as u8,
        (r.0 % 256) as u8,
    ] + r.1
}

/// The image made of some records.
pub open spec fn image_of(records: Seq<RecordView>) -> Seq<u8>
    decreases records.len(),
{
    if records.len() == 0 {
        Seq::empty()
    } else {
        record_bytes(records[0]) + image_of(records.skip(1))
    }
}

/// Records that were put into an image come out of it unchanged.
pub proof fn an_image_reads_back(records: Seq<RecordView>)
    requires
        forall|i: int| 0 <= i < records.len() ==> (#[trigger] records[i]).1.len() <= u16::MAX,
    ensures
        image(image_of(records)) == (records, None::<FirmwareError>),
    decreases records.len(),
{
    if records.len() == 0 {
        assert(records =~= Seq::empty());
    } else {
        let r = records[0];
        let more = records.skip(1);
        let fw = image_of(records);
        assert forall|i: int| 0 <= i < more.len() implies (#[trigger] more[i]).1.len()
            <= u16::MAX by {
            assert(more[i] == records[i + 1]);
        }
        an_image_reads_back(more);
        assert(fw[0] == (r.1.len() / 256) as u8);
        assert(fw[1] == (r.1.len() % 256) as u8);
        assert(fw[2] == (r.0 / 256) as u8);
        assert(fw[3] == (r.0 % 256) as u8);
        assert(be16(fw, 0) == r.1.len());
        assert(be16(fw, 2) == r.0);
        assert(fw.skip(4).take(r.1.len() as int) =~= r.1);
        assert(fw.skip(4).skip(r.1.len() as int) =~= image_of(more));
        assert(seq![r] + more =~= records);
    }
}

/// An image without a fault is exactly its records: no byte is left out.
pub proof fn a_sound_image_is_its_records(fw: Seq<u8>)
    requires
        image(fw).1 is None,
    ensures
        image_of(image(fw).0) == fw,
    decreases fw.len(),
{
    if fw.len() >= 4 {
        let n = be16(fw, 0);
        let rest = fw.skip(4);
        let (more, fault) = image(rest.skip(n));
        a_sound_image_is_its_records(rest.skip(n));
        let records = image(fw).0;
        assert(records[0] == (be16(fw, 2) as u16, rest.take(n)));
        assert(records.skip(1) =~= more);
        assert(record_bytes(records[0]) =~= fw.take(4) + rest.take(n));
        assert(fw.take(4) + rest.take(n) + rest.skip(n) =~= fw);
    } else {
        assert(fw =~= Seq::empty());
    }
}

} // verus!
