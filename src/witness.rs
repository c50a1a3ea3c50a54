//! The witness chain codec: head, middle and tail segments and the walk along
//! their `next_index` links.
use vstd::prelude::*;

use crate::checksum::{le_u32, read_le_u32};
use crate::hasher_error::CKBFSError;
use crate::hex::slice_from;

verus! {

/// Header bytes in front of the content of a witness of the index-list form.
pub const CKBFS_WITNESSES_OFFSET: usize = 6;

/// Where the content of a head segment begins: tag, version, previous position,
/// previous checksum and next index.
pub const CKBFS_V3_HEAD_WITNESS_OFFSET: usize = 50;

/// Where the content of a middle segment begins.
pub const CKBFS_V3_MIDDLE_WITNESS_OFFSET: usize = 4;

/// Where the content of a tail segment begins.
pub const CKBFS_V3_TAIL_WITNESS_OFFSET: usize = 4;

/// Where the previous checksum of a head segment lies.
pub const CKBFS_V3_HEAD_RECOVER_CHECKSUM_OFFSET: usize = 42;

/// Where the next index of a head segment lies.
pub const CKBFS_V3_HEAD_NEXT_INDEX_OFFSET: usize = 46;

/// Where the next index of a middle segment lies.
pub const CKBFS_V3_MIDDLE_NEXT_INDEX_OFFSET: usize = 0;

/// Where the next index of a tail segment lies.
pub const CKBFS_V3_TAIL_NEXT_INDEX_OFFSET: usize = 0;

/// The protocol version that head segments carry.
pub const CKBFS_V3_VERSION: u8 = 3;

/// A witness position together with the role in which it is read.
#[allow(non_camel_case_types)]
#[derive(Debug, Clone, Copy, PartialEq, Eq, Structural)]
pub enum CKBFS_V3_WITNESSES_INDEX {
    HeadWitness(u32),
    MiddleWitness(u32),
    TailWitness(u32),
}

/// A decoded segment: its content, the index of its successor (none where the link is
/// zero) and, for a head, the checksum that its content continues.
pub struct CKBFSV3WintessWithMeta {
    pub data: Vec<u8>,
    pub next_index: Option<u32>,
    pub recover_checksum: Option<u32>,
}

/// What a decoded segment says.
pub struct Segment {
    pub content: Seq<u8>,
    pub next_index: Option<u32>,
    pub recover_checksum: Option<u32>,
}

impl View for CKBFSV3WintessWithMeta {
    type V = Segment;

    open spec fn view(&self) -> Segment {
        Segment {
            content: self.data@,
            next_index: self.next_index,
            recover_checksum: self.recover_checksum,
        }
    }
}

impl CKBFSV3WintessWithMeta {
    /// The content bytes of the segment.
    pub fn data(&self) -> (r: &Vec<u8>)
        ensures
            r@ == self.data@,
    {
        &self.data
    }

    /// The index of the successor, if any.
    pub fn next_index(&self) -> (r: Option<u32>)
        ensures
            r == self.next_index,
    {
        self.next_index
    }

    /// The checksum that the content continues, for a head.
    pub fn recover_checksum(&self) -> (r: Option<u32>)
        ensures
            r == self.recover_checksum,
    {
        self.recover_checksum
    }
}

/// A link value, where zero stands for no successor.
pub open spec fn link(v: int) -> Option<u32> {
    if v == 0 {
        None
    } else {
        Some(v as u32)
    }
}

/// The five-byte tag `CKBFS` that opens a head segment.
pub open spec fn head_tag() -> Seq<u8> {
    seq![0x43u8, 0x4bu8, 0x42u8, 0x46u8, 0x53u8]
}

/// The four bytes of `w` from `offset` on, read as a little-endian number.
pub open spec fn le_u32_at(w: Seq<u8>, offset: int) -> int {
    le_u32(w.subrange(offset, offset + 4))
}

/// Decoding of `w` as a head segment.
pub open spec fn head_segment(w: Seq<u8>) -> Result<Segment, CKBFSError> {
    if w.len() < 50 {
        Err(CKBFSError::LengthNotEnough)
    } else if w.subrange(0, 5) != head_tag() || w[5] != 3 {
        Err(CKBFSError::Encoding)
    } else {
        Ok(
            Segment {
                content: w.subrange(50, w.len() as int),
                next_index: link(le_u32_at(w, 46)),
                recover_checksum: Some(le_u32_at(w, 42) as u32),
            },
        )
    }
}

/// Decoding of `w` as a middle or tail segment.
pub open spec fn body_segment(w: Seq<u8>) -> Result<Segment, CKBFSError> {
    if w.len() < 4 {
        Err(CKBFSError::LengthNotEnough)
    } else {
        Ok(
            Segment {
                content: w.subrange(4, w.len() as int),
                next_index: link(le_u32_at(w, 0)),
                recover_checksum: None,
            },
        )
    }
}

/// Decoding of `w` in the given role.
pub open spec fn segment_of(w: Seq<u8>, role: CKBFS_V3_WITNESSES_INDEX) -> Result<Segment, CKBFSError> {
    match role {
        CKBFS_V3_WITNESSES_INDEX::HeadWitness(_) => head_segment(w),
        _ => body_segment(w),
    }
}

/// The position that a role names.
pub open spec fn role_index(role: CKBFS_V3_WITNESSES_INDEX) -> u32 {
    match role {
        CKBFS_V3_WITNESSES_INDEX::HeadWitness(i) => i,
        CKBFS_V3_WITNESSES_INDEX::MiddleWitness(i) => i,
        CKBFS_V3_WITNESSES_INDEX::TailWitness(i) => i,
    }
}

/// The witnesses of a transaction as byte sequences.
pub open spec fn witness_seqs(ws: &Vec<Vec<u8>>) -> Seq<Seq<u8>> {
    ws@.map_values(|w: Vec<u8>| w@)
}

/// Loading the witness that `role` names from `ws` and decoding it in that role.
pub open spec fn load_segment(ws: Seq<Seq<u8>>, role: CKBFS_V3_WITNESSES_INDEX) -> Result<Segment, CKBFSError> {
    if role_index(role) >= ws.len() {
        Err(CKBFSError::IndexOutOfBound)
    } else {
        segment_of(ws[role_index(role) as int], role)
    }
}

/// Decodes `witness` in the role that `index` gives.
pub fn parse_witness_v3(witness: &[u8], index: CKBFS_V3_WITNESSES_INDEX) -> (r: Result<
    CKBFSV3WintessWithMeta,
    CKBFSError,
>)
    ensures
        match (r, segment_of(witness@, index)) {
            (Ok(m), Ok(s)) => m@ == s,
            (Err(e), Err(f)) => e == f,
            _ => false,
        },
{
    match index {
        CKBFS_V3_WITNESSES_INDEX::HeadWitness(_) => {
            if witness.len() < CKBFS_V3_HEAD_WITNESS_OFFSET {
                return Err(CKBFSError::LengthNotEnough);
            }
            let tag_ok = witness[0] == 0x43u8 && witness[1] == 0x4bu8 && witness[2] == 0x42u8
                && witness[3] == 0x46u8 && witness[4] == 0x53u8;
            proof {
                assert(tag_ok <==> witness@.subrange(0, 5) =~= head_tag());
            }
            if !tag_ok || witness[5] != CKBFS_V3_VERSION {
                return Err(CKBFSError::Encoding);
            }
            let recover_checksum = read_le_u32(witness, CKBFS_V3_HEAD_RECOVER_CHECKSUM_OFFSET);
            let next_index = read_le_u32(witness, CKBFS_V3_HEAD_NEXT_INDEX_OFFSET);
            let data = slice_from(witness, CKBFS_V3_HEAD_WITNESS_OFFSET);
            Ok(
                CKBFSV3WintessWithMeta {
                    data,
                    next_index: if next_index == 0 {
                        None
                    } else {
                        Some(next_index)
                    },
                    recover_checksum: Some(recover_checksum),
                },
            )
        },
        _ => {
            if witness.len() < CKBFS_V3_MIDDLE_WITNESS_OFFSET {
                return Err(CKBFSError::LengthNotEnough);
            }
            let next_index = read_le_u32(witness, CKBFS_V3_MIDDLE_NEXT_INDEX_OFFSET);
            let data = slice_from(witness, CKBFS_V3_MIDDLE_WITNESS_OFFSET);
            Ok(
                CKBFSV3WintessWithMeta {
                    data,
                    next_index: if next_index == 0 {
                        None
                    } else {
                        Some(next_index)
                    },
                    recover_checksum: None,
                },
            )
        },
    }
}

/// Loads the witness that `index` names from `witnesses` and decodes it in that role.
pub fn load_witnesses_for_ckbfs_v3(
    index: CKBFS_V3_WITNESSES_INDEX,
    witnesses: &Vec<Vec<u8>>,
) -> (r: Result<CKBFSV3WintessWithMeta, CKBFSError>)
    ensures
        match (r, load_segment(witness_seqs(witnesses), index)) {
            (Ok(m), Ok(s)) => m@ == s,
            (Err(e), Err(f)) => e == f,
            _ => false,
        },
{
    let witness_index = match index {
        CKBFS_V3_WITNESSES_INDEX::HeadWitness(i) => i,
        CKBFS_V3_WITNESSES_INDEX::MiddleWitness(i) => i,
        CKBFS_V3_WITNESSES_INDEX::TailWitness(i) => i,
    };
    if witness_index as usize >= witnesses.len() {
        return Err(CKBFSError::IndexOutOfBound);
    }
    parse_witness_v3(witnesses[witness_index as usize].as_slice(), index)
}

/// The witness at `index` without its first `offset` bytes.
pub open spec fn witness_after(ws: Seq<Seq<u8>>, index: int, offset: int) -> Result<Seq<u8>, CKBFSError> {
    if index < 0 || index >= ws.len() {
        Err(CKBFSError::IndexOutOfBound)
    } else if ws[index].len() < offset {
        Err(CKBFSError::LengthNotEnough)
    } else {
        Ok(ws[index].subrange(offset, ws[index].len() as int))
    }
}

/// Loads the witness at `index` and drops its first `offset` bytes.
pub fn load_witnesses_with_offset(index: usize, offset: usize, witnesses: &Vec<Vec<u8>>) -> (r:
    Result<Vec<u8>, CKBFSError>)
    ensures
        match (r, witness_after(witness_seqs(witnesses), index as int, offset as int)) {
            (Ok(v), Ok(s)) => v@ == s,
            (Err(e), Err(f)) => e == f,
            _ => false,
        },
{
    if index >= witnesses.len() {
        return Err(CKBFSError::IndexOutOfBound);
    }
    let witness = &witnesses[index];
    if witness.len() < offset {
        return Err(CKBFSError::LengthNotEnough);
    }
    Ok(slice_from(witness.as_slice(), offset))
}

/// Loads the content of a witness of the index-list form.
pub fn load_witnesses_for_ckbfs(index: usize, witnesses: &Vec<Vec<u8>>) -> (r: Result<Vec<u8>, CKBFSError>)
    ensures
        match (r, witness_after(witness_seqs(witnesses), index as int, CKBFS_WITNESSES_OFFSET as int)) {
            (Ok(v), Ok(s)) => v@ == s,
            (Err(e), Err(f)) => e == f,
            _ => false,
        },
{
    load_witnesses_with_offset(index, CKBFS_WITNESSES_OFFSET, witnesses)
}

/// The content of the segments reached from the link `next`, in order, following at
/// most `fuel` links; a chain that needs more has revisited a witness.
pub open spec fn chain_rest(ws: Seq<Seq<u8>>, next: Option<u32>, fuel: nat) -> Result<Seq<u8>, CKBFSError>
    decreases fuel,
{
    match next {
        None => Ok(Seq::empty()),
        Some(i) => if fuel == 0 {
            Err(CKBFSError::Encoding)
        } else {
            match load_segment(ws, CKBFS_V3_WITNESSES_INDEX::MiddleWitness(i)) {
                Err(e) => Err(e),
                Ok(seg) => match chain_rest(ws, seg.next_index, (fuel - 1) as nat) {
                    Err(e) => Err(e),
                    Ok(rest) => Ok(seg.content + rest),
                },
            }
        },
    }
}

/// `prefix` in front of a chain's content, or the chain's failure.
pub open spec fn prepend(prefix: Seq<u8>, r: Result<Seq<u8>, CKBFSError>) -> Result<Seq<u8>, CKBFSError> {
    match r {
        Ok(rest) => Ok(prefix + rest),
        Err(e) => Err(e),
    }
}

/// The content of the chain that starts with the head segment at `head`: the head's
/// content followed by that of each successor; no chain may follow more links than
/// there are witnesses.
pub open spec fn chain_content(ws: Seq<Seq<u8>>, head: u32) -> Result<Seq<u8>, CKBFSError> {
    match load_segment(ws, CKBFS_V3_WITNESSES_INDEX::HeadWitness(head)) {
        Err(e) => Err(e),
        Ok(h) => prepend(h.content, chain_rest(ws, h.next_index, ws.len())),
    }
}

/// Walks the chain that starts with the head segment at `head_index` and gathers its
/// content in order; also hands back the decoded head.
pub fn walk_chain(head_index: u32, witnesses: &Vec<Vec<u8>>) -> (r: Result<
    (Vec<u8>, CKBFSV3WintessWithMeta),
    CKBFSError,
>)
    ensures
        match (r, chain_content(witness_seqs(witnesses), head_index)) {
            (Ok((content, head)), Ok(s)) => content@ == s && Ok::<Segment, CKBFSError>(head@)
                == load_segment(
                witness_seqs(witnesses),
                CKBFS_V3_WITNESSES_INDEX::HeadWitness(head_index),
            ),
            (Err(e), Err(f)) => e == f,
            _ => false,
        },
{
    let ghost ws = witness_seqs(witnesses);
    let head = load_witnesses_for_ckbfs_v3(
        CKBFS_V3_WITNESSES_INDEX::HeadWitness(head_index),
        witnesses,
    )?;
    let mut content = slice_from(head.data.as_slice(), 0);
    assert(content@ =~= head.data@);
    let mut current = head.next_index;
    let mut fuel: usize = witnesses.len();
    while current.is_some()
        invariant
            ws == witness_seqs(witnesses),
            fuel <= ws.len(),
            chain_content(ws, head_index) == prepend(content@, chain_rest(ws, current, fuel as nat)),
        decreases fuel,
    {
        let next_idx = match current {
            Some(i) => i,
            None => 0,
        };
        if fuel == 0 {
            return Err(CKBFSError::Encoding);
        }
        let ghost before = content@;
        let mut segment = load_witnesses_for_ckbfs_v3(
            CKBFS_V3_WITNESSES_INDEX::MiddleWitness(next_idx),
            witnesses,
        )?;
        let ghost seg_content = segment.data@;
        content.append(&mut segment.data);
        current = segment.next_index;
        fuel = fuel - 1;
        proof {
            match chain_rest(ws, current, fuel as nat) {
                Ok(rest) => {
                    assert(before + (seg_content + rest) =~= content@ + rest);
                },
                Err(_) => {},
            }
        }
    }
    Ok((content, head))
}

/// A head segment at `h` that links to a middle segment at `m`, which links to a tail
/// segment at `t`, makes a chain whose content is the three contents in that order,
/// wherever the three stand among the witnesses.
pub proof fn lemma_three_segment_chain(ws: Seq<Seq<u8>>, h: u32, m: u32, t: u32)
    requires
        load_segment(ws, CKBFS_V3_WITNESSES_INDEX::HeadWitness(h)) is Ok,
        load_segment(ws, CKBFS_V3_WITNESSES_INDEX::HeadWitness(h))->Ok_0.next_index == Some(m),
        load_segment(ws, CKBFS_V3_WITNESSES_INDEX::MiddleWitness(m)) is Ok,
        load_segment(ws, CKBFS_V3_WITNESSES_INDEX::MiddleWitness(m))->Ok_0.next_index == Some(t),
        load_segment(ws, CKBFS_V3_WITNESSES_INDEX::TailWitness(t)) is Ok,
        load_segment(ws, CKBFS_V3_WITNESSES_INDEX::TailWitness(t))->Ok_0.next_index is None,
    ensures
        chain_content(ws, h) == Ok::<Seq<u8>, CKBFSError>(
            load_segment(ws, CKBFS_V3_WITNESSES_INDEX::HeadWitness(h))->Ok_0.content
                + load_segment(ws, CKBFS_V3_WITNESSES_INDEX::MiddleWitness(m))->Ok_0.content
                + load_segment(ws, CKBFS_V3_WITNESSES_INDEX::TailWitness(t))->Ok_0.content,
        ),
{
    let hs = load_segment(ws, CKBFS_V3_WITNESSES_INDEX::HeadWitness(h))->Ok_0;
    let ms = load_segment(ws, CKBFS_V3_WITNESSES_INDEX::MiddleWitness(m))->Ok_0;
    let ts = load_segment(ws, CKBFS_V3_WITNESSES_INDEX::TailWitness(t))->Ok_0;
    assert(m != t);
    assert(ws.len() >= 2);
    let n = ws.len();
    assert(load_segment(ws, CKBFS_V3_WITNESSES_INDEX::MiddleWitness(t)) == load_segment(
        ws,
        CKBFS_V3_WITNESSES_INDEX::TailWitness(t),
    ));
    assert(chain_rest(ws, None, (n - 2) as nat) == Ok::<Seq<u8>, CKBFSError>(Seq::empty()));
    assert(chain_rest(ws, Some(t), (n - 1) as nat) == Ok::<Seq<u8>, CKBFSError>(ts.content + Seq::empty()));
    assert(chain_rest(ws, Some(m), n) == Ok::<Seq<u8>, CKBFSError>(ms.content + (ts.content + Seq::empty())));
    assert(hs.content + (ms.content + (ts.content + Seq::<u8>::empty())) =~= hs.content + ms.content + ts.content);
}

} // verus!
