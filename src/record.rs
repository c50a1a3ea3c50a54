//! The file record kept in a ledger record's data.
use vstd::prelude::*;

use molecule::prelude::Entity;

verus! {

/// One entry of a record's update history: the transaction and witness index of an
/// earlier update and the checksum at that point.
pub struct BackLink {
    pub tx_hash: Vec<u8>,
    pub index: u32,
    pub checksum: u32,
}

/// What a backlink says.
pub struct BackLinkView {
    pub tx_hash: Seq<u8>,
    pub index: u32,
    pub checksum: u32,
}

impl View for BackLink {
    type V = BackLinkView;

    open spec fn view(&self) -> BackLinkView {
        BackLinkView { tx_hash: self.tx_hash@, index: self.index, checksum: self.checksum }
    }
}

/// The metadata of one file: the witness index where this transaction's content
/// starts, the running checksum, the fixed descriptive fields and, in the record
/// formats that carry one, the list of earlier positions.
pub struct FileRecord {
    pub index: u32,
    pub checksum: u32,
    pub content_type: Vec<u8>,
    pub filename: Vec<u8>,
    pub backlinks: Option<Vec<BackLink>>,
}

/// What a file record says.
pub struct RecordView {
    pub index: u32,
    pub checksum: u32,
    pub content_type: Seq<u8>,
    pub filename: Seq<u8>,
    pub backlinks: Option<Seq<BackLinkView>>,
}

impl View for FileRecord {
    type V = RecordView;

    open spec fn view(&self) -> RecordView {
        RecordView {
            index: self.index,
            checksum: self.checksum,
            content_type: self.content_type@,
            filename: self.filename@,
            backlinks: backlink_views(self.backlinks),
        }
    }
}

/// The record that decoded fields `f` make; the encoding carries no backlink list.
pub open spec fn decoded_view(f: (u32, u32, Seq<u8>, Seq<u8>)) -> RecordView {
    RecordView { index: f.0, checksum: f.1, content_type: f.2, filename: f.3, backlinks: None }
}

/// The backlinks of a record as values.
pub open spec fn backlink_views(links: Option<Vec<BackLink>>) -> Option<Seq<BackLinkView>> {
    match links {
        Some(v) => Some(v@.map_values(|b: BackLink| b@)),
        None => None,
    }
}

/// The fields `(index, checksum, content type, file name)` that the record encoding
/// `raw` holds, where `raw` is one.
pub uninterp spec fn record_fields(raw: Seq<u8>) -> Option<(u32, u32, Seq<u8>, Seq<u8>)>;

/// Relies on `ckbfs_types::CKBFSData::from_compatible_slice` and its field accessors:
/// the fields of the record that `raw` encodes, or none where `raw` is no such record.
#[verifier::external_body]
fn decode_ckbfs_data(raw: &[u8]) -> (r: Option<(u32, u32, Vec<u8>, Vec<u8>)>)
    ensures
        match (r, record_fields(raw@)) {
            (Some(v), Some(f)) => v.0 == f.0 && v.1 == f.1 && v.2@ == f.2 && v.3@ == f.3,
            (None, None) => true,
            _ => false,
        },
{
    let data = ckbfs_types::CKBFSData::from_compatible_slice(raw).ok()?;
    Some((
        u32::from_le_bytes(data.index().as_slice().try_into().unwrap()),
        u32::from_le_bytes(data.checksum().as_slice().try_into().unwrap()),
        data.content_type().raw_data().to_vec(),
        data.filename().raw_data().to_vec(),
    ))
}

/// Decodes a record from its encoding; this encoding carries no backlink list.
pub fn decode_record(raw: &[u8]) -> (r: Option<FileRecord>)
    ensures
        match (r, record_fields(raw@)) {
            (Some(rec), Some(f)) => rec@ == decoded_view(f),
            (None, None) => true,
            _ => false,
        },
{
    match decode_ckbfs_data(raw) {
        Some((index, checksum, content_type, filename)) => Some(
            FileRecord { index, checksum, content_type, filename, backlinks: None },
        ),
        None => None,
    }
}

} // verus!
