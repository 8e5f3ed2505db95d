//! The slotted leaf page.
//!
//! A leaf page stores records in its body. The body starts with the leaf
//! header: cell count, used space, free-block chain head, lead offset and
//! fragmented bytes, each a little-endian 16-bit field. After it grows the
//! cell-offset directory, two bytes per record; the record heap grows down
//! from the end of the body. Deleting a record threads its bytes onto the
//! free-block chain; remainders too small to chain are counted as
//! fragmented.
//!
//! All positions in this module are body positions: offsets past the
//! page header.

use vstd::prelude::*;
use crate::buf::{read_u16_at, write_u16_at, spec_u16_at, spec_splice, splice_bytes};
use crate::codec::{spec_ser_opt_value, spec_parse_opt_value, write_opt_value};
use crate::errors::PageError;
use crate::meta::{PAGE_SIZE, PAGE_HEADER_RESERVED_BYTES};
use crate::page::{Projection, Transact};
use crate::values::Value;
use crate::varint::{spec_varint, spec_parse_varint, OvrInteger};

verus! {

/// The marker type of the leaf-page projection.
pub struct Leaf;

/// Remainders of at most this many bytes are counted as fragmented rather
/// than chained.
pub const FRAGMENTATION_SIZE: usize = 4;

/// The leaf header: cell count, used space, free-block pointer, lead
/// offset, fragmented bytes — five 16-bit fields.
pub const LEAF_HEADER_SIZE: usize = 10;

/// A record of the leaf page: an optional value; an empty one is a
/// tombstoned delivery.
pub struct Record {
    pub value: Option<Value>,
}

/// A record together with its serialized bytes.
pub struct SerializedRecord {
    pub value: Record,
    pub data: Vec<u8>,
}

impl Record {
    /// Serializes the record: the wire encoding of its optional value.
    pub fn produce(self) -> (r: SerializedRecord)
        ensures
            r.data@ == spec_ser_opt_value(self.value.deep_view()),
            r.value.value.deep_view() == self.value.deep_view(),
    {
        let mut data: Vec<u8> = Vec::new();
        write_opt_value(&self.value, &mut data);
        SerializedRecord { value: self, data }
    }
}

impl SerializedRecord {
    /// The record back, dropping the bytes.
    pub fn to_record(self) -> (r: Record)
        ensures
            r == self.value,
    {
        self.value
    }

    /// The bytes the record takes on a page: its length's varint, then the
    /// bytes.
    pub fn total_serialized_size(&self) -> (r: usize)
        requires
            self.data@.len() + 16 <= usize::MAX,
        ensures
            r == self.data@.len() + spec_varint(self.data@.len()).len(),
            r >= self.data@.len() + 1,
    {
        proof {
            crate::varint::lemma_varint_len(self.data@.len());
        }
        self.data.len() + OvrInteger::required_space(self.data.len() as u64)
    }
}

/// A hole in the record heap, threaded on the free-block chain: the next
/// block's position, this hole's offset (0 marks a recyclable chain slot),
/// and its size.
pub struct FreeBlock {
    pub position: usize,
    pub next: u16,
    pub offset: u16,
    pub size: u16,
}

/// How a record allocation was satisfied: out of a free block, or at the
/// lead pointer.
pub struct Allocation {
    pub location: usize,
    pub free_block: Option<FreeBlock>,
    pub size: usize,
    pub is_lead_allocation: bool,
}

/// The body capacity of a leaf page.
pub open spec fn spec_body_capacity() -> int {
    PAGE_SIZE - PAGE_HEADER_RESERVED_BYTES
}

/// The leaf's 16-bit header field at body position `o`, read out of the
/// page's backing bytes.
pub open spec fn spec_leaf_u16(backing: Seq<u8>, o: int) -> u16 {
    spec_u16_at(backing, PAGE_HEADER_RESERVED_BYTES + o)
}

/// The stored cell count.
pub open spec fn spec_cell_count(backing: Seq<u8>) -> u16 {
    spec_leaf_u16(backing, 0)
}

/// The stored used space.
pub open spec fn spec_used_space(backing: Seq<u8>) -> u16 {
    spec_leaf_u16(backing, 2)
}

/// The stored free-block chain head, 0 for none.
pub open spec fn spec_free_ptr(backing: Seq<u8>) -> u16 {
    spec_leaf_u16(backing, 4)
}

/// The stored lead offset: bytes already consumed by the downward heap.
pub open spec fn spec_lead_offset(backing: Seq<u8>) -> u16 {
    spec_leaf_u16(backing, 6)
}

/// The stored fragmented byte count.
pub open spec fn spec_fragmented(backing: Seq<u8>) -> u16 {
    spec_leaf_u16(backing, 8)
}

/// The cell offset stored for record `i`.
pub open spec fn spec_offset_at(backing: Seq<u8>, i: int) -> u16 {
    spec_leaf_u16(backing, LEAF_HEADER_SIZE + 2 * i)
}

/// The free space the page reports: its body capacity less the leaf header
/// and the used space.
pub open spec fn spec_free_space(backing: Seq<u8>) -> int {
    spec_body_capacity() - LEAF_HEADER_SIZE - spec_used_space(backing)
}

/// Sane leaf accounting, enough for every read and write to stay inside
/// the page: the directory fits, and the used space fits the body.
pub open spec fn spec_leaf_sane(backing: Seq<u8>) -> bool {
    &&& backing.len() == PAGE_SIZE
    &&& LEAF_HEADER_SIZE + 2 * spec_cell_count(backing) <= spec_body_capacity()
    &&& spec_used_space(backing) <= spec_body_capacity() - LEAF_HEADER_SIZE
}

/// The page accounting identity: what the page calls free is exactly its
/// body capacity less the leaf header and the used space, so the three
/// always make up the capacity.
pub proof fn lemma_leaf_accounting(backing: Seq<u8>)
    ensures
        spec_used_space(backing) + spec_free_space(backing) + LEAF_HEADER_SIZE
            == spec_body_capacity(),
{
}

impl Projection<Leaf> {
    /// The page's body capacity in bytes.
    pub open spec fn spec_capacity(self) -> int {
        self.page.reference.size - PAGE_HEADER_RESERVED_BYTES
    }

    /// How many records the page holds.
    pub fn get_cell_count(&self) -> (r: usize)
        requires
            self.wf(),
        ensures
            r == spec_cell_count(self.page.backing@),
    {
        read_u16_at(&self.page.backing, PAGE_HEADER_RESERVED_BYTES as usize) as usize
    }

    /// The bytes in use: live records, their directory slots, and chain
    /// slots.
    pub fn get_used_space(&self) -> (r: usize)
        requires
            self.wf(),
        ensures
            r == spec_used_space(self.page.backing@),
    {
        read_u16_at(&self.page.backing, PAGE_HEADER_RESERVED_BYTES as usize + 2) as usize
    }

    /// The bytes still free for records and directory growth.
    pub fn get_free_space(&self) -> (r: usize)
        requires
            self.wf(),
            spec_leaf_sane(self.page.backing@),
        ensures
            r == spec_free_space(self.page.backing@),
    {
        self.capacity() - Self::header_size() - self.get_used_space()
    }

    /// The head of the free-block chain; 0 for an empty chain.
    pub fn get_free_block_ptr(&self) -> (r: usize)
        requires
            self.wf(),
        ensures
            r == spec_free_ptr(self.page.backing@),
    {
        read_u16_at(&self.page.backing, PAGE_HEADER_RESERVED_BYTES as usize + 4) as usize
    }

    /// How many bytes the downward-growing record heap has consumed.
    pub fn get_lead_offset(&self) -> (r: usize)
        requires
            self.wf(),
        ensures
            r == spec_lead_offset(self.page.backing@),
    {
        read_u16_at(&self.page.backing, PAGE_HEADER_RESERVED_BYTES as usize + 6) as usize
    }

    /// The unreclaimable fragment bytes.
    pub fn get_fragmented(&self) -> (r: usize)
        requires
            self.wf(),
        ensures
            r == spec_fragmented(self.page.backing@),
    {
        read_u16_at(&self.page.backing, PAGE_HEADER_RESERVED_BYTES as usize + 8) as usize
    }

    /// The leaf header's byte length.
    pub fn header_size() -> (r: usize)
        ensures
            r == LEAF_HEADER_SIZE,
    {
        LEAF_HEADER_SIZE
    }

    /// Where record `index`'s directory slot sits in the body.
    pub fn calculate_offset_index(index: usize) -> (r: usize)
        requires
            LEAF_HEADER_SIZE + index * 2 <= usize::MAX,
        ensures
            r == LEAF_HEADER_SIZE + index * 2,
    {
        Self::header_size() + index * 2
    }

    /// The cell offset stored for record `index`.
    pub fn get_offset(&self, index: usize) -> (r: usize)
        requires
            self.wf(),
            LEAF_HEADER_SIZE + 2 * index + 2 <= self.spec_capacity(),
        ensures
            r == spec_offset_at(self.page.backing@, index as int),
    {
        let pos = Self::calculate_offset_index(index);
        read_u16_at(&self.page.backing, PAGE_HEADER_RESERVED_BYTES as usize + pos) as usize
    }

    /// Whether a serialized record fits: its full on-page length plus one
    /// new directory slot within the free space.
    pub fn will_fit(&self, record: &SerializedRecord) -> (r: bool)
        requires
            self.wf(),
            spec_leaf_sane(self.page.backing@),
            record.data@.len() + 16 <= usize::MAX,
        ensures
            r == (record.data@.len() + spec_varint(record.data@.len()).len() + 2
                <= spec_free_space(self.page.backing@)),
    {
        let total = record.total_serialized_size();
        let remaining = self.get_free_space();
        if total > remaining {
            false
        } else {
            total + 2 <= remaining
        }
    }

    /// Whether record `index`'s cell offset is live: 0 marks a deleted
    /// slot.
    pub fn check_record_exists(&self, record: usize) -> (r: bool)
        requires
            self.wf(),
            LEAF_HEADER_SIZE + 2 * record + 2 <= self.spec_capacity(),
        ensures
            r == (spec_offset_at(self.page.backing@, record as int) != 0),
    {
        self.get_offset(record) != 0
    }

    /// The varint length header and byte length of record `record`, if it
    /// is live and its length parses.
    pub fn get_record_size_characteristics(&self, record: usize) -> (r: Option<(usize, usize)>)
        requires
            self.wf(),
            LEAF_HEADER_SIZE + 2 * record + 2 <= self.spec_capacity(),
        ensures
            r is Some <==> self.get_record_size_spec(record as int) is Some,
            r matches Some((header, actual)) ==> self.get_record_size_spec(record as int)
                == Some((header as int, actual as int)),
    {
        if !self.check_record_exists(record) {
            return None;
        }
        let off = self.get_offset(record);
        let body = self.body();
        if off > body.len() {
            return None;
        }
        match OvrInteger::read(body, off) {
            Err(..) => None,
            Ok((n, end)) => {
                if n > usize::MAX as u64 {
                    None
                } else {
                    Some((end - off, n as usize))
                }
            },
        }
    }

    /// The byte length of record `record`, if live.
    pub fn get_record_size(&self, record: usize) -> (r: Option<usize>)
        requires
            self.wf(),
            LEAF_HEADER_SIZE + 2 * record + 2 <= self.spec_capacity(),
        ensures
            r is Some <==> self.get_record_size_spec(record as int) is Some,
            r matches Some(n) ==> self.get_record_size_spec(record as int) matches Some((h, a))
                && n == a,
    {
        match self.get_record_size_characteristics(record) {
            None => None,
            Some((_header, actual)) => Some(actual),
        }
    }

    /// The full on-page length of record `record`, length header included.
    pub fn get_total_record_size(&self, record: usize) -> (r: Option<usize>)
        requires
            self.wf(),
            LEAF_HEADER_SIZE + 2 * record + 2 <= self.spec_capacity(),
        ensures
            self.get_record_size_spec(record as int) is None ==> r is None,
            r matches Some(n) ==> self.get_record_size_spec(record as int) matches Some((h, a))
                && n == h + a,
            self.get_record_size_spec(record as int) matches Some((h, a)) && h + a <= usize::MAX
                ==> r is Some,
    {
        match self.get_record_size_characteristics(record) {
            None => None,
            Some((header, actual)) => {
                if actual > usize::MAX - header {
                    proof {
                        let off = spec_offset_at(self.page.backing@, record as int) as int;
                        let b = self.page.backing@.skip(PAGE_HEADER_RESERVED_BYTES as int).skip(
                            off,
                        );
                        crate::varint::lemma_parse_varint_bounds(b);
                    }
                    None
                } else {
                    Some(header + actual)
                }
            },
        }
    }

    /// What `get_record_size_characteristics` reports, at the
    /// specification level.
    pub open spec fn get_record_size_spec(self, record: int) -> Option<(int, int)> {
        let off = spec_offset_at(self.page.backing@, record) as int;
        let body = self.page.backing@.skip(PAGE_HEADER_RESERVED_BYTES as int);
        if off == 0 || off > body.len() {
            None
        } else {
            match spec_parse_varint(body.skip(off)) {
                Option::None => None,
                Option::Some((n, used)) => if n > usize::MAX {
                    None
                } else {
                    Some((used, n as int))
                },
            }
        }
    }

    /// Reads a free block's three fields at a body position.
    pub fn read_free_block(&self, position: usize) -> (r: Result<FreeBlock, PageError>)
        requires
            self.wf(),
        ensures
            LEAF_HEADER_SIZE <= position && position + 6 <= self.spec_capacity() ==> (
            r matches Ok(fb) && fb.position == position && fb.next == spec_leaf_u16(
                self.page.backing@,
                position as int,
            ) && fb.offset == spec_leaf_u16(self.page.backing@, position + 2) && fb.size
                == spec_leaf_u16(self.page.backing@, position + 4)),
            position < LEAF_HEADER_SIZE || position + 6 > self.spec_capacity() ==> r == Err::<
                FreeBlock,
                PageError,
            >(PageError::FailedReadingFreeBlock),
    {
        if position < LEAF_HEADER_SIZE || position > self.capacity() || self.capacity() - position
            < 6 {
            return Err(PageError::FailedReadingFreeBlock);
        }
        let base = PAGE_HEADER_RESERVED_BYTES as usize + position;
        Ok(
            FreeBlock {
                position,
                next: read_u16_at(&self.page.backing, base),
                offset: read_u16_at(&self.page.backing, base + 2),
                size: read_u16_at(&self.page.backing, base + 4),
            },
        )
    }

    /// Walks the free chain for the first live block that can hold `size`
    /// bytes. The walk gives up after as many steps as the body could hold
    /// blocks, which only a cyclic chain reaches.
    pub fn descend_free_chain(&self, pointer: usize, size: usize) -> (r: Option<Allocation>)
        requires
            self.wf(),
        ensures
            r matches Some(a) ==> {
                &&& !a.is_lead_allocation
                &&& a.size == size
                &&& a.free_block matches Some(fb)
                &&& a.location == fb.offset
                &&& fb.offset != 0
                &&& fb.size >= size
                &&& LEAF_HEADER_SIZE <= fb.position
                &&& fb.position + 6 <= self.spec_capacity()
                &&& fb.next == spec_leaf_u16(self.page.backing@, fb.position as int)
                &&& fb.offset == spec_leaf_u16(self.page.backing@, fb.position + 2)
                &&& fb.size == spec_leaf_u16(self.page.backing@, fb.position + 4)
            },
    {
        let mut current = pointer;
        let mut fuel: usize = PAGE_SIZE;
        while fuel > 0
            invariant
                self.wf(),
            decreases fuel,
        {
            let block = match self.read_free_block(current) {
                Ok(b) => b,
                Err(..) => {
                    return None;
                },
            };
            if size <= u16::MAX as usize && block.size >= size as u16 && block.offset != 0 {
                let offset = block.offset as usize;
                return Some(
                    Allocation {
                        free_block: Some(block),
                        size,
                        is_lead_allocation: false,
                        location: offset,
                    },
                );
            } else if block.next == 0 {
                return None;
            } else {
                current = block.next as usize;
            }
            fuel = fuel - 1;
        }
        None
    }

    /// Finds a suitable free block, if the chain has one.
    pub fn find_free_slot(&self, size: usize) -> (r: Option<Allocation>)
        requires
            self.wf(),
        ensures
            spec_free_ptr(self.page.backing@) == 0 ==> r is None,
            r matches Some(a) ==> !a.is_lead_allocation && a.size == size && (
            a.free_block matches Some(fb) && a.location == fb.offset && fb.offset != 0 && fb.size
                >= size && LEAF_HEADER_SIZE <= fb.position && fb.position + 6
                <= self.spec_capacity() && fb.next == spec_leaf_u16(
                self.page.backing@,
                fb.position as int,
            ) && fb.offset == spec_leaf_u16(self.page.backing@, fb.position + 2) && fb.size
                == spec_leaf_u16(self.page.backing@, fb.position + 4)),
    {
        let star = self.get_free_block_ptr();
        if star == 0 {
            None
        } else {
            self.descend_free_chain(star, size)
        }
    }

    /// Tries to place `size` bytes at the lead pointer; fails when the
    /// allocation would collide with the growing directory.
    pub fn try_alloc_lead(&self, size: usize) -> (r: Option<Allocation>)
        requires
            self.wf(),
            spec_leaf_sane(self.page.backing@),
        ensures
            r matches Some(a) ==> {
                &&& a.is_lead_allocation
                &&& a.free_block is None
                &&& a.size == size
                &&& a.location == self.spec_capacity() - spec_lead_offset(self.page.backing@)
                    - size
                &&& a.location > LEAF_HEADER_SIZE + 2 * spec_cell_count(self.page.backing@)
                &&& a.location + size <= self.spec_capacity()
            },
            (spec_lead_offset(self.page.backing@) + size > self.spec_capacity() || self.spec_capacity()
                - spec_lead_offset(self.page.backing@) - size <= LEAF_HEADER_SIZE + 2
                * spec_cell_count(self.page.backing@)) ==> r is None,
            spec_lead_offset(self.page.backing@) + size <= self.spec_capacity()
                && self.spec_capacity() - spec_lead_offset(self.page.backing@) - size
                > LEAF_HEADER_SIZE + 2 * spec_cell_count(self.page.backing@) ==> r is Some,
    {
        let cap = self.capacity();
        let lead = self.get_lead_offset();
        if lead > cap || size > cap - lead {
            return None;
        }
        let lead_ptr = cap - lead - size;
        let cc = self.get_cell_count();
        let offset_size = Self::header_size() + 2 * cc;
        if lead_ptr <= offset_size {
            None
        } else {
            Some(
                Allocation {
                    free_block: None,
                    size,
                    location: lead_ptr,
                    is_lead_allocation: true,
                },
            )
        }
    }

    /// Chooses an allocation for `size` bytes: a free block first, the lead
    /// pointer second; nothing when the page lacks the free space.
    pub fn can_allocate(&self, size: usize) -> (r: Option<Allocation>)
        requires
            self.wf(),
            spec_leaf_sane(self.page.backing@),
        ensures
            size >= spec_free_space(self.page.backing@) ==> r is None,
            spec_free_ptr(self.page.backing@) == 0 && size < spec_free_space(self.page.backing@)
                && spec_lead_offset(self.page.backing@) + size <= self.spec_capacity()
                && self.spec_capacity() - spec_lead_offset(self.page.backing@) - size
                > LEAF_HEADER_SIZE + 2 * spec_cell_count(self.page.backing@) ==> r is Some,
            spec_free_ptr(self.page.backing@) == 0 && r is Some
                ==> r->Some_0.is_lead_allocation,
            r matches Some(a) ==> a.size == size && size < spec_free_space(self.page.backing@)
                && (a.is_lead_allocation ==> a.free_block is None && a.location
                == self.spec_capacity() - spec_lead_offset(self.page.backing@) - size
                && a.location > LEAF_HEADER_SIZE + 2 * spec_cell_count(self.page.backing@)
                && a.location + size <= self.spec_capacity()) && (!a.is_lead_allocation ==> (
            a.free_block matches Some(fb) && a.location == fb.offset && fb.offset != 0 && fb.size
                >= size && LEAF_HEADER_SIZE <= fb.position && fb.position + 6
                <= self.spec_capacity() && fb.next == spec_leaf_u16(
                self.page.backing@,
                fb.position as int,
            ) && fb.offset == spec_leaf_u16(self.page.backing@, fb.position + 2) && fb.size
                == spec_leaf_u16(self.page.backing@, fb.position + 4))),
    {
        let free = self.get_free_space();
        if size >= free {
            None
        } else {
            match self.find_free_slot(size) {
                Some(alloc) => Some(alloc),
                None => self.try_alloc_lead(size),
            }
        }
    }

    /// Finds where a serialized record would go.
    pub fn find_new_record_ptr(&self, record: &SerializedRecord) -> (r: Option<Allocation>)
        requires
            self.wf(),
            spec_leaf_sane(self.page.backing@),
            record.data@.len() + 16 <= usize::MAX,
        ensures
            r matches Some(a) ==> a.size == record.data@.len() + spec_varint(
                record.data@.len(),
            ).len() && a.size < spec_free_space(self.page.backing@),
    {
        self.can_allocate(record.total_serialized_size())
    }

    /// Reads record `index` back: nothing past the cell count, an error
    /// when the stored bytes do not parse.
    pub fn read_record(&self, index: usize) -> (r: Result<Option<Record>, PageError>)
        requires
            self.wf(),
            spec_leaf_sane(self.page.backing@),
        ensures
            index >= spec_cell_count(self.page.backing@) ==> r == Ok::<
                Option<Record>,
                PageError,
            >(None),
            index < spec_cell_count(self.page.backing@) ==> (r is Err <==> ({
                let off = spec_offset_at(self.page.backing@, index as int) as int;
                let body = self.page.backing@.skip(PAGE_HEADER_RESERVED_BYTES as int);
                ||| off > body.len()
                ||| spec_parse_varint(body.skip(off)) is None
                ||| spec_parse_varint(body.skip(off))->Some_0.0 > u64::MAX
                ||| spec_parse_opt_value(
                    body.skip(off + spec_parse_varint(body.skip(off))->Some_0.1),
                ) is None
            })),
            r is Err ==> r == Err::<Option<Record>, PageError>(
                PageError::RecordDeserializationFailure,
            ),
            r matches Ok(Some(rec)) ==> {
                let off = spec_offset_at(self.page.backing@, index as int) as int;
                let body = self.page.backing@.skip(PAGE_HEADER_RESERVED_BYTES as int);
                &&& index < spec_cell_count(self.page.backing@)
                &&& spec_parse_varint(body.skip(off)) matches Some((n, used))
                &&& spec_parse_opt_value(body.skip(off + spec_parse_varint(body.skip(off))->Some_0.1))
                    matches Some((v, vu)) && rec.value.deep_view() == v
            },
    {
        if index >= self.get_cell_count() {
            return Ok(None);
        }
        proof {
            assert(LEAF_HEADER_SIZE + 2 * index + 2 <= self.spec_capacity());
        }
        let offset = self.get_offset(index);
        let body = self.body();
        if offset > body.len() {
            return Err(PageError::RecordDeserializationFailure);
        }
        let after_len = match OvrInteger::read(body, offset) {
            Ok((.., end)) => end,
            Err(..) => {
                return Err(PageError::RecordDeserializationFailure);
            },
        };
        match crate::codec::read_opt_value(body, after_len) {
            Ok((value, ..)) => Ok(Some(Record { value })),
            Err(..) => Err(PageError::RecordDeserializationFailure),
        }
    }

    /// Walks the whole free chain, head first; the walk gives up on a
    /// chain longer than the body could hold, which only a cycle reaches.
    pub fn read_free_chain(&self) -> (r: Result<Vec<FreeBlock>, PageError>)
        requires
            self.wf(),
        ensures
            spec_free_ptr(self.page.backing@) == 0 ==> (r matches Ok(blocks) && blocks@.len()
                == 0),
            spec_free_ptr(self.page.backing@) != 0 ==> (r matches Ok(blocks) ==> blocks@.len()
                >= 1 && blocks@[0].position == spec_free_ptr(self.page.backing@)),
            r matches Ok(blocks) ==> forall|i: int|
                0 <= i < blocks@.len() ==> #[trigger] self.spec_block_matches(blocks@[i]),
            r matches Ok(blocks) ==> forall|i: int|
                0 <= i < blocks@.len() - 1 ==> #[trigger] blocks@[i + 1].position == blocks@[
                    i
                ].next,
    {
        let mut traversal: Vec<FreeBlock> = Vec::new();
        let first = self.get_free_block_ptr();
        if first == 0 {
            proof {
                assert(traversal@.len() == 0);
            }
            return Ok(traversal);
        }
        assert(spec_free_ptr(self.page.backing@) != 0);
        let mut block = match self.read_free_block(first) {
            Ok(b) => b,
            Err(e) => {
                return Err(e);
            },
        };
        let mut fuel: usize = PAGE_SIZE;
        while block.next != 0 && fuel > 0
            invariant
                self.wf(),
                spec_free_ptr(self.page.backing@) != 0,
                self.spec_block_matches(block),
                traversal@.len() == 0 ==> block.position == spec_free_ptr(self.page.backing@)
                    && spec_free_ptr(self.page.backing@) != 0,
                traversal@.len() > 0 ==> traversal@[0].position == spec_free_ptr(
                    self.page.backing@,
                ) && traversal@.last().next == block.position,
                forall|i: int|
                    0 <= i < traversal@.len() ==> #[trigger] self.spec_block_matches(
                        traversal@[i],
                    ),
                forall|i: int|
                    0 <= i < traversal@.len() - 1 ==> #[trigger] traversal@[i + 1].position
                        == traversal@[i].next,
            decreases fuel,
        {
            let next_ptr = block.next as usize;
            let next_block = match self.read_free_block(next_ptr) {
                Ok(b) => b,
                Err(e) => {
                    return Err(e);
                },
            };
            traversal.push(block);
            block = next_block;
            fuel = fuel - 1;
        }
        traversal.push(block);
        Ok(traversal)
    }

    /// Whether a block value reads back the chain fields stored at its
    /// position.
    pub open spec fn spec_block_matches(self, fb: FreeBlock) -> bool {
        &&& LEAF_HEADER_SIZE <= fb.position
        &&& fb.position + 6 <= self.spec_capacity()
        &&& fb.next == spec_leaf_u16(self.page.backing@, fb.position as int)
        &&& fb.offset == spec_leaf_u16(self.page.backing@, fb.position + 2)
        &&& fb.size == spec_leaf_u16(self.page.backing@, fb.position + 4)
    }
}


/// Two page backings that agree outside the cell-count field and store the
/// same cell count are the same bytes.
proof fn lemma_same_but_cell_count(before: Seq<u8>, after: Seq<u8>)
    requires
        before.len() == after.len(),
        before.len() >= PAGE_HEADER_RESERVED_BYTES + 2,
        spec_cell_count(after) == spec_cell_count(before),
        forall|j: int|
            0 <= j < before.len() && !(PAGE_HEADER_RESERVED_BYTES <= j
                < PAGE_HEADER_RESERVED_BYTES + 2) ==> after[j] == before[j],
    ensures
        after == before,
{
    vstd::bytes::lemma_auto_spec_u16_to_from_le_bytes();
    assert(before.subrange(PAGE_HEADER_RESERVED_BYTES as int, PAGE_HEADER_RESERVED_BYTES + 2)
        =~= vstd::bytes::spec_u16_to_le_bytes(spec_cell_count(before)));
    assert(after.subrange(PAGE_HEADER_RESERVED_BYTES as int, PAGE_HEADER_RESERVED_BYTES + 2)
        =~= vstd::bytes::spec_u16_to_le_bytes(spec_cell_count(after)));
    assert forall|jj: int| 0 <= jj < before.len() implies after[jj] == before[jj] by {
        if PAGE_HEADER_RESERVED_BYTES <= jj < PAGE_HEADER_RESERVED_BYTES + 2 {
            assert(after.subrange(10, 12)[jj - 10] == before.subrange(10, 12)[jj - 10]);
        }
    }
    assert(after =~= before);
}

impl FreeBlock {
    /// How many bytes a chain slot takes: three 16-bit fields.
    pub fn size() -> (r: usize)
        ensures
            r == 6,
    {
        6
    }

    /// Reads a free block at a body position.
    pub fn read(position: usize, array: &Projection<Leaf>) -> (r: Result<FreeBlock, PageError>)
        requires
            array.wf(),
        ensures
            LEAF_HEADER_SIZE <= position && position + 6 <= array.spec_capacity() ==> (
            r matches Ok(fb) && fb.position == position && fb.next == spec_leaf_u16(
                array.page.backing@,
                position as int,
            ) && fb.offset == spec_leaf_u16(array.page.backing@, position + 2) && fb.size
                == spec_leaf_u16(array.page.backing@, position + 4)),
            position < LEAF_HEADER_SIZE || position + 6 > array.spec_capacity() ==> r == Err::<
                FreeBlock,
                PageError,
            >(PageError::FailedReadingFreeBlock),
    {
        array.read_free_block(position)
    }

    /// Writes a free block's three fields at a body position.
    pub fn write(array: &mut Transact<Leaf>, start: usize, next: usize, offset: usize, size: usize)
        requires
            old(array).wf(),
            LEAF_HEADER_SIZE <= start,
            start + 6 <= spec_body_capacity(),
            next <= u16::MAX,
            offset <= u16::MAX,
            size <= u16::MAX,
        ensures
            final(array).wf(),
            final(array).page.page.reference == old(array).page.page.reference,
            final(array).page.page.metadata == old(array).page.page.metadata,
            final(array).page.page.backing@.len() == old(array).page.page.backing@.len(),
            spec_leaf_u16(final(array).page.page.backing@, start as int) == next,
            spec_leaf_u16(final(array).page.page.backing@, start + 2) == offset,
            spec_leaf_u16(final(array).page.page.backing@, start + 4) == size,
            spec_cell_count(final(array).page.page.backing@) == spec_cell_count(
                old(array).page.page.backing@,
            ),
            spec_used_space(final(array).page.page.backing@) == spec_used_space(
                old(array).page.page.backing@,
            ),
            spec_free_ptr(final(array).page.page.backing@) == spec_free_ptr(
                old(array).page.page.backing@,
            ),
            spec_lead_offset(final(array).page.page.backing@) == spec_lead_offset(
                old(array).page.page.backing@,
            ),
            spec_fragmented(final(array).page.page.backing@) == spec_fragmented(
                old(array).page.page.backing@,
            ),
            forall|j: int|
                0 <= j < old(array).page.page.backing@.len() && !(PAGE_HEADER_RESERVED_BYTES + start
                    <= j < PAGE_HEADER_RESERVED_BYTES + start + 6) ==> final(array).page.page.backing@[j] == old(array).page.page.backing@[j],
    {
        let base = PAGE_HEADER_RESERVED_BYTES as usize + start;
        write_u16_at(&mut array.page.page.backing, base, next as u16);
        let ghost s1 = array.page.page.backing@;
        write_u16_at(&mut array.page.page.backing, base + 2, offset as u16);
        let ghost s2 = array.page.page.backing@;
        write_u16_at(&mut array.page.page.backing, base + 4, size as u16);
        proof {
            let now = array.page.page.backing@;
            let orig = old(array).page.page.backing@;
            assert(spec_u16_at(now, base as int) == next) by {
                assert(now.subrange(base as int, base + 2) =~= s1.subrange(base as int, base + 2));
            }
            assert(spec_u16_at(now, base + 2) == offset) by {
                assert(now.subrange(base + 2, base + 4) =~= s2.subrange(base + 2, base + 4));
            }
            assert(spec_u16_at(now, 10) == spec_u16_at(orig, 10)) by {
                assert(now.subrange(10, 12) =~= orig.subrange(10, 12));
            }
            assert(spec_u16_at(now, 12) == spec_u16_at(orig, 12)) by {
                assert(now.subrange(12, 14) =~= orig.subrange(12, 14));
            }
            assert(spec_u16_at(now, 14) == spec_u16_at(orig, 14)) by {
                assert(now.subrange(14, 16) =~= orig.subrange(14, 16));
            }
            assert(spec_u16_at(now, 16) == spec_u16_at(orig, 16)) by {
                assert(now.subrange(16, 18) =~= orig.subrange(16, 18));
            }
            assert(spec_u16_at(now, 18) == spec_u16_at(orig, 18)) by {
                assert(now.subrange(18, 20) =~= orig.subrange(18, 20));
            }
        }
    }
}

impl Transact<Leaf> {
    /// Stores a 16-bit leaf header field and leaves every other byte of the
    /// page alone.
    fn put_leaf_u16(&mut self, off: usize, v: u16)
        requires
            old(self).wf(),
            off + 2 <= LEAF_HEADER_SIZE,
        ensures
            final(self).wf(),
            final(self).page.page.reference == old(self).page.page.reference,
            final(self).page.page.metadata == old(self).page.page.metadata,
            final(self).page.page.backing@.len() == old(self).page.page.backing@.len(),
            spec_leaf_u16(final(self).page.page.backing@, off as int) == v,
            forall|o: int|
                0 <= o && o + 2 <= LEAF_HEADER_SIZE && (o + 2 <= off || off + 2 <= o)
                    ==> spec_leaf_u16(final(self).page.page.backing@, o) == spec_leaf_u16(
                    old(self).page.page.backing@,
                    o,
                ),
            forall|j: int|
                0 <= j < old(self).page.page.backing@.len() && !(PAGE_HEADER_RESERVED_BYTES + off
                    <= j < PAGE_HEADER_RESERVED_BYTES + off + 2) ==> final(self).page.page.backing@[j] == old(self).page.page.backing@[j],
            forall|i: int|
                0 <= i && LEAF_HEADER_SIZE + 2 * i + 2 <= spec_body_capacity()
                    ==> spec_offset_at(final(self).page.page.backing@, i) == spec_offset_at(
                    old(self).page.page.backing@,
                    i,
                ),
    {
        write_u16_at(&mut self.page.page.backing, PAGE_HEADER_RESERVED_BYTES as usize + off, v);
        proof {
            let now = self.page.page.backing@;
            let orig = old(self).page.page.backing@;
            assert forall|o: int|
                0 <= o && o + 2 <= LEAF_HEADER_SIZE && (o + 2 <= off || off + 2 <= o) implies
                spec_leaf_u16(now, o) == spec_leaf_u16(orig, o) by {
                assert(now.subrange(PAGE_HEADER_RESERVED_BYTES + o, PAGE_HEADER_RESERVED_BYTES + o
                    + 2) =~= orig.subrange(
                    PAGE_HEADER_RESERVED_BYTES + o,
                    PAGE_HEADER_RESERVED_BYTES + o + 2,
                ));
            }
            assert forall|i: int|
                0 <= i && LEAF_HEADER_SIZE + 2 * i + 2 <= spec_body_capacity() implies
                spec_offset_at(now, i) == spec_offset_at(orig, i) by {
                let at = PAGE_HEADER_RESERVED_BYTES + LEAF_HEADER_SIZE + 2 * i;
                assert(now.subrange(at, at + 2) =~= orig.subrange(at, at + 2));
            }
        }
    }


    /// Stores the cell count.
    pub fn set_cell_count(&mut self, cells: usize)
        requires
            old(self).wf(),
            cells <= u16::MAX,
        ensures
            final(self).wf(),
            final(self).page.page.reference == old(self).page.page.reference,
            final(self).page.page.metadata == old(self).page.page.metadata,
            final(self).page.page.backing@.len() == old(self).page.page.backing@.len(),
            spec_cell_count(final(self).page.page.backing@) == cells,
            spec_used_space(final(self).page.page.backing@) == spec_used_space(
                old(self).page.page.backing@,
            ),
            spec_free_ptr(final(self).page.page.backing@) == spec_free_ptr(
                old(self).page.page.backing@,
            ),
            spec_lead_offset(final(self).page.page.backing@) == spec_lead_offset(
                old(self).page.page.backing@,
            ),
            spec_fragmented(final(self).page.page.backing@) == spec_fragmented(
                old(self).page.page.backing@,
            ),
            forall|i: int|
                0 <= i && LEAF_HEADER_SIZE + 2 * i + 2 <= spec_body_capacity()
                    ==> spec_offset_at(final(self).page.page.backing@, i) == spec_offset_at(
                    old(self).page.page.backing@,
                    i,
                ),
            forall|j: int|
                0 <= j < old(self).page.page.backing@.len() && !(10 <= j < 12)
                    ==> final(self).page.page.backing@[j] == old(self).page.page.backing@[j],
    {
        self.put_leaf_u16(0, cells as u16);
    }

    /// Stores the used-space counter.
    pub fn set_used_space(&mut self, total: usize)
        requires
            old(self).wf(),
            total <= u16::MAX,
        ensures
            final(self).wf(),
            final(self).page.page.reference == old(self).page.page.reference,
            final(self).page.page.metadata == old(self).page.page.metadata,
            final(self).page.page.backing@.len() == old(self).page.page.backing@.len(),
            spec_used_space(final(self).page.page.backing@) == total,
            spec_cell_count(final(self).page.page.backing@) == spec_cell_count(
                old(self).page.page.backing@,
            ),
            spec_free_ptr(final(self).page.page.backing@) == spec_free_ptr(
                old(self).page.page.backing@,
            ),
            spec_lead_offset(final(self).page.page.backing@) == spec_lead_offset(
                old(self).page.page.backing@,
            ),
            spec_fragmented(final(self).page.page.backing@) == spec_fragmented(
                old(self).page.page.backing@,
            ),
            forall|i: int|
                0 <= i && LEAF_HEADER_SIZE + 2 * i + 2 <= spec_body_capacity()
                    ==> spec_offset_at(final(self).page.page.backing@, i) == spec_offset_at(
                    old(self).page.page.backing@,
                    i,
                ),
            forall|j: int|
                0 <= j < old(self).page.page.backing@.len() && !(12 <= j < 14)
                    ==> final(self).page.page.backing@[j] == old(self).page.page.backing@[j],
    {
        self.put_leaf_u16(2, total as u16);
    }

    /// Stores the free-block chain head.
    pub fn set_free_ptr(&mut self, ptr: usize)
        requires
            old(self).wf(),
            ptr <= u16::MAX,
        ensures
            final(self).wf(),
            final(self).page.page.reference == old(self).page.page.reference,
            final(self).page.page.metadata == old(self).page.page.metadata,
            final(self).page.page.backing@.len() == old(self).page.page.backing@.len(),
            spec_free_ptr(final(self).page.page.backing@) == ptr,
            spec_cell_count(final(self).page.page.backing@) == spec_cell_count(
                old(self).page.page.backing@,
            ),
            spec_used_space(final(self).page.page.backing@) == spec_used_space(
                old(self).page.page.backing@,
            ),
            spec_lead_offset(final(self).page.page.backing@) == spec_lead_offset(
                old(self).page.page.backing@,
            ),
            spec_fragmented(final(self).page.page.backing@) == spec_fragmented(
                old(self).page.page.backing@,
            ),
            forall|i: int|
                0 <= i && LEAF_HEADER_SIZE + 2 * i + 2 <= spec_body_capacity()
                    ==> spec_offset_at(final(self).page.page.backing@, i) == spec_offset_at(
                    old(self).page.page.backing@,
                    i,
                ),
            forall|j: int|
                0 <= j < old(self).page.page.backing@.len() && !(14 <= j < 16)
                    ==> final(self).page.page.backing@[j] == old(self).page.page.backing@[j],
    {
        self.put_leaf_u16(4, ptr as u16);
    }

    /// Stores the lead offset.
    pub fn set_lead_offset(&mut self, ptr: usize)
        requires
            old(self).wf(),
            ptr <= u16::MAX,
        ensures
            final(self).wf(),
            final(self).page.page.reference == old(self).page.page.reference,
            final(self).page.page.metadata == old(self).page.page.metadata,
            final(self).page.page.backing@.len() == old(self).page.page.backing@.len(),
            spec_lead_offset(final(self).page.page.backing@) == ptr,
            spec_cell_count(final(self).page.page.backing@) == spec_cell_count(
                old(self).page.page.backing@,
            ),
            spec_used_space(final(self).page.page.backing@) == spec_used_space(
                old(self).page.page.backing@,
            ),
            spec_free_ptr(final(self).page.page.backing@) == spec_free_ptr(
                old(self).page.page.backing@,
            ),
            spec_fragmented(final(self).page.page.backing@) == spec_fragmented(
                old(self).page.page.backing@,
            ),
            forall|i: int|
                0 <= i && LEAF_HEADER_SIZE + 2 * i + 2 <= spec_body_capacity()
                    ==> spec_offset_at(final(self).page.page.backing@, i) == spec_offset_at(
                    old(self).page.page.backing@,
                    i,
                ),
            forall|j: int|
                0 <= j < old(self).page.page.backing@.len() && !(16 <= j < 18)
                    ==> final(self).page.page.backing@[j] == old(self).page.page.backing@[j],
    {
        self.put_leaf_u16(6, ptr as u16);
    }

    /// Stores the fragmented byte count.
    pub fn set_fragmented(&mut self, count: usize)
        requires
            old(self).wf(),
            count <= u16::MAX,
        ensures
            final(self).wf(),
            final(self).page.page.reference == old(self).page.page.reference,
            final(self).page.page.metadata == old(self).page.page.metadata,
            final(self).page.page.backing@.len() == old(self).page.page.backing@.len(),
            spec_fragmented(final(self).page.page.backing@) == count,
            spec_cell_count(final(self).page.page.backing@) == spec_cell_count(
                old(self).page.page.backing@,
            ),
            spec_used_space(final(self).page.page.backing@) == spec_used_space(
                old(self).page.page.backing@,
            ),
            spec_free_ptr(final(self).page.page.backing@) == spec_free_ptr(
                old(self).page.page.backing@,
            ),
            spec_lead_offset(final(self).page.page.backing@) == spec_lead_offset(
                old(self).page.page.backing@,
            ),
            forall|i: int|
                0 <= i && LEAF_HEADER_SIZE + 2 * i + 2 <= spec_body_capacity()
                    ==> spec_offset_at(final(self).page.page.backing@, i) == spec_offset_at(
                    old(self).page.page.backing@,
                    i,
                ),
            forall|j: int|
                0 <= j < old(self).page.page.backing@.len() && !(18 <= j < 20)
                    ==> final(self).page.page.backing@[j] == old(self).page.page.backing@[j],
    {
        self.put_leaf_u16(8, count as u16);
    }

    /// Increments the cell count and returns the new value.
    pub fn increment_cell_count(&mut self) -> (r: usize)
        requires
            old(self).wf(),
            spec_cell_count(old(self).page.page.backing@) < u16::MAX,
        ensures
            final(self).wf(),
            final(self).page.page.reference == old(self).page.page.reference,
            final(self).page.page.metadata == old(self).page.page.metadata,
            final(self).page.page.backing@.len() == old(self).page.page.backing@.len(),
            r == spec_cell_count(old(self).page.page.backing@) + 1,
            spec_cell_count(final(self).page.page.backing@) == r,
            spec_used_space(final(self).page.page.backing@) == spec_used_space(
                old(self).page.page.backing@,
            ),
            spec_free_ptr(final(self).page.page.backing@) == spec_free_ptr(
                old(self).page.page.backing@,
            ),
            spec_lead_offset(final(self).page.page.backing@) == spec_lead_offset(
                old(self).page.page.backing@,
            ),
            spec_fragmented(final(self).page.page.backing@) == spec_fragmented(
                old(self).page.page.backing@,
            ),
            forall|i: int|
                0 <= i && LEAF_HEADER_SIZE + 2 * i + 2 <= spec_body_capacity()
                    ==> spec_offset_at(final(self).page.page.backing@, i) == spec_offset_at(
                    old(self).page.page.backing@,
                    i,
                ),
            forall|j: int|
                0 <= j < old(self).page.page.backing@.len() && !(10 <= j < 12)
                    ==> final(self).page.page.backing@[j] == old(self).page.page.backing@[j],
    {
        let new = self.page.get_cell_count() + 1;
        self.set_cell_count(new);
        new
    }

    /// Writes record `offset_index`'s directory slot.
    pub fn write_record_offset(&mut self, offset_index: usize, record_ptr: usize)
        requires
            old(self).wf(),
            LEAF_HEADER_SIZE + 2 * offset_index + 2 <= spec_body_capacity(),
            record_ptr <= u16::MAX,
        ensures
            final(self).wf(),
            final(self).page.page.reference == old(self).page.page.reference,
            final(self).page.page.metadata == old(self).page.page.metadata,
            final(self).page.page.backing@.len() == old(self).page.page.backing@.len(),
            spec_offset_at(final(self).page.page.backing@, offset_index as int) == record_ptr,
            forall|i: int|
                0 <= i && i != offset_index && LEAF_HEADER_SIZE + 2 * i + 2 <= spec_body_capacity()
                    ==> spec_offset_at(final(self).page.page.backing@, i) == spec_offset_at(
                    old(self).page.page.backing@,
                    i,
                ),
            spec_cell_count(final(self).page.page.backing@) == spec_cell_count(
                old(self).page.page.backing@,
            ),
            spec_used_space(final(self).page.page.backing@) == spec_used_space(
                old(self).page.page.backing@,
            ),
            spec_free_ptr(final(self).page.page.backing@) == spec_free_ptr(
                old(self).page.page.backing@,
            ),
            spec_lead_offset(final(self).page.page.backing@) == spec_lead_offset(
                old(self).page.page.backing@,
            ),
            spec_fragmented(final(self).page.page.backing@) == spec_fragmented(
                old(self).page.page.backing@,
            ),
            forall|j: int|
                0 <= j < old(self).page.page.backing@.len() && !(PAGE_HEADER_RESERVED_BYTES
                    + LEAF_HEADER_SIZE + 2 * offset_index <= j < PAGE_HEADER_RESERVED_BYTES
                    + LEAF_HEADER_SIZE + 2 * offset_index + 2) ==> final(self).page.page.backing@[j] == old(self).page.page.backing@[j],
    {
        let offset = crate::leaf::LEAF_HEADER_SIZE + offset_index * 2;
        write_u16_at(
            &mut self.page.page.backing,
            PAGE_HEADER_RESERVED_BYTES as usize + offset,
            record_ptr as u16,
        );
        proof {
            let now = self.page.page.backing@;
            let orig = old(self).page.page.backing@;
            assert(spec_u16_at(now, 10) == spec_u16_at(orig, 10)) by {
                assert(now.subrange(10, 12) =~= orig.subrange(10, 12));
            }
            assert(spec_u16_at(now, 12) == spec_u16_at(orig, 12)) by {
                assert(now.subrange(12, 14) =~= orig.subrange(12, 14));
            }
            assert(spec_u16_at(now, 14) == spec_u16_at(orig, 14)) by {
                assert(now.subrange(14, 16) =~= orig.subrange(14, 16));
            }
            assert(spec_u16_at(now, 16) == spec_u16_at(orig, 16)) by {
                assert(now.subrange(16, 18) =~= orig.subrange(16, 18));
            }
            assert(spec_u16_at(now, 18) == spec_u16_at(orig, 18)) by {
                assert(now.subrange(18, 20) =~= orig.subrange(18, 20));
            }
            assert forall|i: int|
                0 <= i && i != offset_index && LEAF_HEADER_SIZE + 2 * i + 2
                    <= spec_body_capacity() implies spec_offset_at(now, i) == spec_offset_at(
                orig,
                i,
            ) by {
                let at = PAGE_HEADER_RESERVED_BYTES + LEAF_HEADER_SIZE + 2 * i;
                assert(now.subrange(at, at + 2) =~= orig.subrange(at, at + 2));
            }
        }
    }


    /// Writes bytes at a body position in the heap region, leaving the leaf
    /// header fields alone.
    fn put_body_bytes(&mut self, at: usize, bytes: &[u8])
        requires
            old(self).wf(),
            LEAF_HEADER_SIZE <= at,
            at + bytes@.len() <= spec_body_capacity(),
        ensures
            final(self).wf(),
            final(self).page.page.reference == old(self).page.page.reference,
            final(self).page.page.metadata == old(self).page.page.metadata,
            final(self).page.page.backing@ == spec_splice(
                old(self).page.page.backing@,
                PAGE_HEADER_RESERVED_BYTES + at,
                bytes@,
            ),
            spec_cell_count(final(self).page.page.backing@) == spec_cell_count(
                old(self).page.page.backing@,
            ),
            spec_used_space(final(self).page.page.backing@) == spec_used_space(
                old(self).page.page.backing@,
            ),
            spec_free_ptr(final(self).page.page.backing@) == spec_free_ptr(
                old(self).page.page.backing@,
            ),
            spec_lead_offset(final(self).page.page.backing@) == spec_lead_offset(
                old(self).page.page.backing@,
            ),
            spec_fragmented(final(self).page.page.backing@) == spec_fragmented(
                old(self).page.page.backing@,
            ),
    {
        splice_bytes(&mut self.page.page.backing, PAGE_HEADER_RESERVED_BYTES as usize + at, bytes);
        proof {
            let now = self.page.page.backing@;
            let orig = old(self).page.page.backing@;
            assert(spec_u16_at(now, 10) == spec_u16_at(orig, 10)) by {
                assert(now.subrange(10, 12) =~= orig.subrange(10, 12));
            }
            assert(spec_u16_at(now, 12) == spec_u16_at(orig, 12)) by {
                assert(now.subrange(12, 14) =~= orig.subrange(12, 14));
            }
            assert(spec_u16_at(now, 14) == spec_u16_at(orig, 14)) by {
                assert(now.subrange(14, 16) =~= orig.subrange(14, 16));
            }
            assert(spec_u16_at(now, 16) == spec_u16_at(orig, 16)) by {
                assert(now.subrange(16, 18) =~= orig.subrange(16, 18));
            }
            assert(spec_u16_at(now, 18) == spec_u16_at(orig, 18)) by {
                assert(now.subrange(18, 20) =~= orig.subrange(18, 20));
            }
        }
    }

    /// Settles an allocation: pushes the lead pointer, or spends the chosen
    /// free block, keeping its remainder chained or counting it as
    /// fragmented; then adds the spent bytes to the used space.
    pub fn solve_allocate(&mut self, allocation: Allocation) -> (r: Result<(), PageError>)
        requires
            old(self).wf(),
            spec_leaf_sane(old(self).page.page.backing@),
            spec_used_space(old(self).page.page.backing@) + allocation.size <= spec_body_capacity()
                - LEAF_HEADER_SIZE,
            allocation.is_lead_allocation ==> allocation.free_block is None && spec_lead_offset(
                old(self).page.page.backing@,
            ) + allocation.size <= spec_body_capacity(),
            !allocation.is_lead_allocation ==> (allocation.free_block matches Some(fb)
                && LEAF_HEADER_SIZE <= fb.position && fb.position + 6 <= spec_body_capacity()
                && fb.size >= allocation.size),
        ensures
            final(self).wf(),
            final(self).page.page.reference == old(self).page.page.reference,
            final(self).page.page.metadata == old(self).page.page.metadata,
            final(self).page.page.backing@.len() == old(self).page.page.backing@.len(),
            spec_cell_count(final(self).page.page.backing@) == spec_cell_count(
                old(self).page.page.backing@,
            ),
            spec_free_ptr(final(self).page.page.backing@) == spec_free_ptr(
                old(self).page.page.backing@,
            ),
            r is Ok ==> spec_used_space(final(self).page.page.backing@) == spec_used_space(
                old(self).page.page.backing@,
            ) + allocation.size,
            r is Ok && allocation.is_lead_allocation ==> spec_lead_offset(
                final(self).page.page.backing@,
            ) == spec_lead_offset(old(self).page.page.backing@) + allocation.size
                && spec_fragmented(final(self).page.page.backing@) == spec_fragmented(
                old(self).page.page.backing@,
            ),
            !allocation.is_lead_allocation ==> spec_lead_offset(final(self).page.page.backing@)
                == spec_lead_offset(old(self).page.page.backing@),
            r is Ok && !allocation.is_lead_allocation ==> spec_fragmented(
                final(self).page.page.backing@,
            ) <= spec_fragmented(old(self).page.page.backing@) + FRAGMENTATION_SIZE
                && spec_fragmented(final(self).page.page.backing@) >= spec_fragmented(
                old(self).page.page.backing@,
            ),
            r is Ok && allocation.is_lead_allocation ==> forall|j: int|
                20 <= j < old(self).page.page.backing@.len() ==> final(self).page.page.backing@[j]
                    == old(self).page.page.backing@[j],
            r is Err ==> r == Err::<(), PageError>(PageError::BadAllocation)
                && final(self).page.page.backing@ == old(self).page.page.backing@,
            allocation.is_lead_allocation ==> r is Ok,
            !allocation.is_lead_allocation && (allocation.free_block matches Some(fb)
                && (allocation.size == fb.size || (fb.offset + allocation.size <= u16::MAX && (
            fb.size - allocation.size > FRAGMENTATION_SIZE || spec_fragmented(
                old(self).page.page.backing@,
            ) + (fb.size - allocation.size) <= u16::MAX)))) ==> r is Ok,
    {
        let used = self.page.get_used_space();
        if allocation.is_lead_allocation {
            let lead = self.page.get_lead_offset();
            self.set_lead_offset(lead + allocation.size);
        } else {
            let fb = match allocation.free_block {
                Some(fb) => fb,
                None => {
                    return Err(PageError::BadAllocation);
                },
            };
            if allocation.size == fb.size as usize {
                FreeBlock::write(self, fb.position, fb.next as usize, 0, 0);
            } else {
                let remainder = fb.size as usize - allocation.size;
                let new_offset = fb.offset as usize + allocation.size;
                let frag = self.page.get_fragmented();
                if new_offset > u16::MAX as usize || (remainder <= FRAGMENTATION_SIZE && frag
                    + remainder > u16::MAX as usize) {
                    return Err(PageError::BadAllocation);
                }
                match self.adjust_free_block(new_offset, remainder, fb) {
                    Ok(..) => {},
                    Err(e) => {
                        return Err(e);
                    },
                }
            }
        }
        self.set_used_space(used + allocation.size);
        Ok(())
    }

    /// Rewrites a spent block to describe its remainder, or nulls it and
    /// counts the remainder as fragmented when it is too small to chain.
    pub fn adjust_free_block(&mut self, new_offset: usize, new_size: usize, block: FreeBlock) -> (r:
        Result<(), PageError>)
        requires
            old(self).wf(),
            LEAF_HEADER_SIZE <= block.position,
            block.position + 6 <= spec_body_capacity(),
            new_offset <= u16::MAX,
            new_size <= u16::MAX,
            new_size <= FRAGMENTATION_SIZE ==> spec_fragmented(old(self).page.page.backing@)
                + new_size <= u16::MAX,
        ensures
            final(self).wf(),
            r is Ok,
            final(self).page.page.reference == old(self).page.page.reference,
            final(self).page.page.metadata == old(self).page.page.metadata,
            final(self).page.page.backing@.len() == old(self).page.page.backing@.len(),
            spec_cell_count(final(self).page.page.backing@) == spec_cell_count(
                old(self).page.page.backing@,
            ),
            spec_used_space(final(self).page.page.backing@) == spec_used_space(
                old(self).page.page.backing@,
            ),
            spec_free_ptr(final(self).page.page.backing@) == spec_free_ptr(
                old(self).page.page.backing@,
            ),
            spec_lead_offset(final(self).page.page.backing@) == spec_lead_offset(
                old(self).page.page.backing@,
            ),
            new_size <= FRAGMENTATION_SIZE ==> spec_fragmented(final(self).page.page.backing@)
                == spec_fragmented(old(self).page.page.backing@) + new_size,
            new_size > FRAGMENTATION_SIZE ==> spec_fragmented(final(self).page.page.backing@)
                == spec_fragmented(old(self).page.page.backing@),
    {
        if new_size <= FRAGMENTATION_SIZE {
            FreeBlock::write(self, block.position, block.next as usize, 0, 0);
            let frag = self.page.get_fragmented();
            self.set_fragmented(frag + new_size);
        } else {
            FreeBlock::write(self, block.position, block.next as usize, new_offset, new_size);
        }
        Ok(())
    }

    /// Allocates a six-byte chain slot describing the hole at
    /// `offset`/`size`, spending space like a record; the slot bytes count
    /// as fragmented. Returns the slot's position.
    pub fn allocate_free_block(&mut self, offset: usize, size: usize) -> (r: Result<
        usize,
        PageError,
    >)
        requires
            old(self).wf(),
            spec_leaf_sane(old(self).page.page.backing@),
            offset <= u16::MAX,
            size <= u16::MAX,
        ensures
            final(self).wf(),
            final(self).page.page.reference == old(self).page.page.reference,
            final(self).page.page.metadata == old(self).page.page.metadata,
            final(self).page.page.backing@.len() == old(self).page.page.backing@.len(),
            spec_leaf_sane(final(self).page.page.backing@),
            spec_cell_count(final(self).page.page.backing@) == spec_cell_count(
                old(self).page.page.backing@,
            ),
            spec_free_ptr(final(self).page.page.backing@) == spec_free_ptr(
                old(self).page.page.backing@,
            ),
            r matches Ok(loc) ==> spec_used_space(final(self).page.page.backing@)
                == spec_used_space(old(self).page.page.backing@) + 6 && LEAF_HEADER_SIZE <= loc
                <= u16::MAX && spec_fragmented(final(self).page.page.backing@) <= spec_fragmented(
                old(self).page.page.backing@,
            ) + 6 + FRAGMENTATION_SIZE && spec_fragmented(final(self).page.page.backing@)
                >= spec_fragmented(old(self).page.page.backing@) + 6,
            r is Err ==> final(self).page.page.backing@ == old(self).page.page.backing@,
            spec_free_ptr(old(self).page.page.backing@) == 0 && 6 < spec_free_space(
                old(self).page.page.backing@,
            ) && spec_lead_offset(old(self).page.page.backing@) + 6 <= spec_body_capacity()
                && spec_body_capacity() - spec_lead_offset(old(self).page.page.backing@) - 6
                > LEAF_HEADER_SIZE + 2 * spec_cell_count(old(self).page.page.backing@)
                && spec_fragmented(old(self).page.page.backing@) + 10 <= u16::MAX ==> r is Ok,
            spec_free_ptr(old(self).page.page.backing@) == 0 ==> forall|j: int|
                0 <= j < spec_cell_count(old(self).page.page.backing@) ==> spec_offset_at(
                    final(self).page.page.backing@,
                    j,
                ) == spec_offset_at(old(self).page.page.backing@, j),
    {
        let allocate = match self.page.can_allocate(6) {
            Some(a) => a,
            None => {
                return Err(PageError::LeafPageFull);
            },
        };
        let location = allocate.location;
        if location < LEAF_HEADER_SIZE || location + 6 > self.page.capacity() || location
            > u16::MAX as usize {
            return Err(PageError::BadAllocation);
        }
        let frag = self.page.get_fragmented();
        if frag + 6 + FRAGMENTATION_SIZE > u16::MAX as usize {
            return Err(PageError::BadAllocation);
        }
        if !allocate.is_lead_allocation {
            let fb = match &allocate.free_block {
                Some(fb) => fb,
                None => {
                    return Err(PageError::BadAllocation);
                },
            };
            if fb.offset as usize + 6 > u16::MAX as usize {
                return Err(PageError::BadAllocation);
            }
        }
        let ghost orig = self.page.page.backing@;
        let ghost was_empty_chain = spec_free_ptr(orig) == 0;
        FreeBlock::write(self, location, 0, offset, size);
        let ghost s_blk = self.page.page.backing@;
        match self.solve_allocate(allocate) {
            Ok(..) => {},
            Err(..) => {
                proof {
                    assert(false);
                }
                return Err(PageError::BadAllocation);
            },
        }
        let ghost s_solved = self.page.page.backing@;
        let frag_now = self.page.get_fragmented();
        self.set_fragmented(frag_now + 6);
        proof {
            if was_empty_chain {
                let now = self.page.page.backing@;
                assert forall|j: int|
                    0 <= j < spec_cell_count(orig) implies spec_offset_at(now, j)
                    == spec_offset_at(orig, j) by {
                    let at = PAGE_HEADER_RESERVED_BYTES + LEAF_HEADER_SIZE + 2 * j;
                    assert(s_blk.subrange(at, at + 2) =~= orig.subrange(at, at + 2));
                    assert(s_solved.subrange(at, at + 2) =~= s_blk.subrange(at, at + 2));
                }
            }
        }
        Ok(location)
    }


    /// Threads a freshly freed hole onto the chain: starts the chain when
    /// it is empty, otherwise hands the hole to the chain walk.
    pub fn update_free_list(&mut self, start: usize, size: usize) -> (r: Result<(), PageError>)
        requires
            old(self).wf(),
            spec_leaf_sane(old(self).page.page.backing@),
            start <= u16::MAX,
            size <= u16::MAX,
        ensures
            final(self).wf(),
            final(self).page.page.reference == old(self).page.page.reference,
            final(self).page.page.metadata == old(self).page.page.metadata,
            final(self).page.page.backing@.len() == old(self).page.page.backing@.len(),
            spec_leaf_sane(final(self).page.page.backing@),
            spec_cell_count(final(self).page.page.backing@) == spec_cell_count(
                old(self).page.page.backing@,
            ),
            r is Ok ==> spec_used_space(final(self).page.page.backing@) == spec_used_space(
                old(self).page.page.backing@,
            ) || spec_used_space(final(self).page.page.backing@) == spec_used_space(
                old(self).page.page.backing@,
            ) + 6,
            spec_free_ptr(old(self).page.page.backing@) == 0 && 6 < spec_free_space(
                old(self).page.page.backing@,
            ) && spec_lead_offset(old(self).page.page.backing@) + 6 <= spec_body_capacity()
                && spec_body_capacity() - spec_lead_offset(old(self).page.page.backing@) - 6
                > LEAF_HEADER_SIZE + 2 * spec_cell_count(old(self).page.page.backing@)
                && spec_fragmented(old(self).page.page.backing@) + 10 <= u16::MAX ==> r is Ok,
            r is Err ==> final(self).page.page.backing@ == old(self).page.page.backing@,
            spec_free_ptr(old(self).page.page.backing@) == 0 && r is Ok ==> forall|j: int|
                0 <= j < spec_cell_count(old(self).page.page.backing@) ==> spec_offset_at(
                    final(self).page.page.backing@,
                    j,
                ) == spec_offset_at(old(self).page.page.backing@, j),
    {
        let free_list_pointer = self.page.get_free_block_ptr();
        if free_list_pointer == 0 {
            let new_ptr = match self.allocate_free_block(start, size) {
                Ok(p) => p,
                Err(e) => {
                    return Err(e);
                },
            };
            self.set_free_ptr(new_ptr);
            Ok(())
        } else {
            self.update_free_chain(free_list_pointer, start, size)
        }
    }

    /// Walks the chain to take the hole in: a recyclable slot is reused, a
    /// neighbouring hole is widened, and otherwise a new slot is appended at
    /// the tail. The walk gives up on a chain longer than the body could
    /// hold, which only a cycle reaches.
    pub fn update_free_chain(&mut self, pointer: usize, start: usize, size: usize) -> (r: Result<
        (),
        PageError,
    >)
        requires
            old(self).wf(),
            spec_leaf_sane(old(self).page.page.backing@),
            start <= u16::MAX,
            size <= u16::MAX,
        ensures
            final(self).wf(),
            final(self).page.page.reference == old(self).page.page.reference,
            final(self).page.page.metadata == old(self).page.page.metadata,
            final(self).page.page.backing@.len() == old(self).page.page.backing@.len(),
            spec_leaf_sane(final(self).page.page.backing@),
            spec_cell_count(final(self).page.page.backing@) == spec_cell_count(
                old(self).page.page.backing@,
            ),
            r is Ok ==> spec_used_space(final(self).page.page.backing@) == spec_used_space(
                old(self).page.page.backing@,
            ) || spec_used_space(final(self).page.page.backing@) == spec_used_space(
                old(self).page.page.backing@,
            ) + 6,
            r is Err ==> final(self).page.page.backing@ == old(self).page.page.backing@,
            LEAF_HEADER_SIZE <= pointer && pointer + 6 <= spec_body_capacity() && spec_leaf_u16(
                old(self).page.page.backing@,
                pointer + 2,
            ) == 0 ==> r is Ok,
    {
        let mut current_ptr = pointer;
        let mut fuel: usize = PAGE_SIZE;
        while fuel > 0
            invariant
                self.wf(),
                self.page.page.backing == old(self).page.page.backing,
                self.page.page.reference == old(self).page.page.reference,
                self.page.page.metadata == old(self).page.page.metadata,
                spec_leaf_sane(self.page.page.backing@),
                start <= u16::MAX,
                size <= u16::MAX,
                LEAF_HEADER_SIZE <= pointer && pointer + 6 <= spec_body_capacity()
                    && spec_leaf_u16(self.page.page.backing@, pointer + 2) == 0 ==> fuel
                    == PAGE_SIZE && current_ptr == pointer,
            decreases fuel,
        {
            let current = match self.page.read_free_block(current_ptr) {
                Ok(b) => b,
                Err(e) => {
                    return Err(e);
                },
            };
            let next_ptr = current.next as usize;
            if current.offset == 0 {
                FreeBlock::write(self, current.position, next_ptr, start, size);
                return Ok(());
            } else if start + size == current.offset as usize {
                if current.size as usize + size > u16::MAX as usize {
                    return Err(PageError::BadAllocation);
                }
                FreeBlock::write(
                    self,
                    current.position,
                    next_ptr,
                    start,
                    current.size as usize + size,
                );
                return Ok(());
            } else if current.offset as usize + current.size as usize == start {
                if current.size as usize + size > u16::MAX as usize {
                    return Err(PageError::BadAllocation);
                }
                FreeBlock::write(
                    self,
                    current.position,
                    next_ptr,
                    current.offset as usize,
                    current.size as usize + size,
                );
                return Ok(());
            } else if current.next == 0 {
                let new_block = match self.allocate_free_block(start, size) {
                    Ok(p) => p,
                    Err(e) => {
                        return Err(e);
                    },
                };
                FreeBlock::write(
                    self,
                    current.position,
                    new_block,
                    current.offset as usize,
                    current.size as usize,
                );
                return Ok(());
            } else {
                current_ptr = next_ptr;
            }
            fuel = fuel - 1;
        }
        Err(PageError::FailedReadingFreeBlock)
    }

    /// Writes a record: serializes it first.
    pub fn write_record(&mut self, record: Record) -> (r: Result<(), PageError>)
        requires
            old(self).wf(),
            spec_leaf_sane(old(self).page.page.backing@),
            spec_cell_count(old(self).page.page.backing@) < u16::MAX,
        ensures
            final(self).wf(),
            spec_leaf_sane(final(self).page.page.backing@),
            final(self).page.page.reference == old(self).page.page.reference,
            final(self).page.page.metadata == old(self).page.page.metadata,
            r is Ok ==> spec_cell_count(final(self).page.page.backing@) == spec_cell_count(
                old(self).page.page.backing@,
            ) + 1,
            r is Err ==> final(self).page.page.backing@ == old(self).page.page.backing@,
    {
        let serialized = record.produce();
        if serialized.data.len() > PAGE_SIZE {
            return Err(PageError::LeafPageFull);
        }
        self.write_serialized_record(serialized)
    }

    /// Writes a serialized record: spends its bytes and one directory slot.
    /// On success the cell count grows by one and the used space by exactly
    /// the record's on-page length plus its directory slot; when the record
    /// went to the lead pointer, its bytes sit at the returned offset.
    pub fn write_serialized_record(&mut self, record: SerializedRecord) -> (r: Result<
        (),
        PageError,
    >)
        requires
            old(self).wf(),
            spec_leaf_sane(old(self).page.page.backing@),
            spec_cell_count(old(self).page.page.backing@) < u16::MAX,
            record.data@.len() <= PAGE_SIZE,
        ensures
            final(self).wf(),
            spec_leaf_sane(final(self).page.page.backing@),
            final(self).page.page.reference == old(self).page.page.reference,
            final(self).page.page.metadata == old(self).page.page.metadata,
            record.data@.len() + spec_varint(record.data@.len()).len() + 2 > spec_free_space(
                old(self).page.page.backing@,
            ) ==> r == Err::<(), PageError>(PageError::LeafPageFull)
                && final(self).page.page.backing@ == old(self).page.page.backing@,
            r is Err ==> final(self).page.page.backing@ == old(self).page.page.backing@,
            ({
                let before = old(self).page.page.backing@;
                let total = record.data@.len() + spec_varint(record.data@.len()).len();
                &&& total + 2 <= spec_free_space(before)
                &&& spec_free_ptr(before) == 0
                &&& LEAF_HEADER_SIZE + 2 * (spec_cell_count(before) + 1) + 2
                    <= spec_body_capacity()
                &&& spec_lead_offset(before) + total <= spec_body_capacity()
                &&& spec_body_capacity() - spec_lead_offset(before) - total > LEAF_HEADER_SIZE + 2
                    * (spec_cell_count(before) + 1)
            }) ==> r is Ok,
            r is Ok ==> {
                let total = record.data@.len() + spec_varint(record.data@.len()).len();
                let before = old(self).page.page.backing@;
                let after = final(self).page.page.backing@;
                &&& spec_cell_count(after) == spec_cell_count(before) + 1
                &&& spec_used_space(after) == spec_used_space(before) + 2 + total
                &&& spec_offset_at(after, spec_cell_count(before) as int) != 0
                &&& (spec_lead_offset(after) == spec_lead_offset(before) + total
                    || spec_lead_offset(after) == spec_lead_offset(before))
                &&& (spec_lead_offset(after) == spec_lead_offset(before) + total ==> {
                    let loc = spec_body_capacity() - spec_lead_offset(before) - total;
                    &&& spec_offset_at(after, spec_cell_count(before) as int) == loc
                    &&& after.subrange(
                        PAGE_HEADER_RESERVED_BYTES + loc,
                        PAGE_HEADER_RESERVED_BYTES + loc + total,
                    ) == spec_varint(record.data@.len()) + record.data@
                })
            },
    {
        proof {
            crate::varint::lemma_varint_len_small(record.data@.len());
        }
        if !self.page.will_fit(&record) {
            return Err(PageError::LeafPageFull);
        }
        let ghost before = self.page.page.backing@;
        let total = record.data.len() + OvrInteger::required_space(record.data.len() as u64);
        let old_cc = self.page.get_cell_count();
        let old_used = self.page.get_used_space();
        let ghost old_lead = spec_lead_offset(before);
        if LEAF_HEADER_SIZE + 2 * (old_cc + 1) + 2 > self.page.capacity() {
            return Err(PageError::LeafPageFull);
        }

        // Find the allocation against the grown directory, as if the new
        // cell were already counted.
        let new_cell_count = self.increment_cell_count();
        let record_allocation = match self.page.can_allocate(total) {
            Some(a) => a,
            None => {
                self.set_cell_count(old_cc);
                proof {
                    lemma_same_but_cell_count(before, self.page.page.backing@);
                    assert(self.page.page.backing@ =~= before);
                }
                return Err(PageError::LeafPageFull);
            },
        };
        let record_ptr = record_allocation.location;
        if record_ptr < LEAF_HEADER_SIZE || record_ptr + total > self.page.capacity() || record_ptr
            > u16::MAX as usize || LEAF_HEADER_SIZE + 2 * (new_cell_count - 1) + 2
            > self.page.capacity() {
            self.set_cell_count(old_cc);
            proof {
                    lemma_same_but_cell_count(before, self.page.page.backing@);
                    assert(self.page.page.backing@ =~= before);
                }
            return Err(PageError::LeafPageFull);
        }
        if !record_allocation.is_lead_allocation {
            let ok = match &record_allocation.free_block {
                Some(fb) => {
                    let frag = self.page.get_fragmented();
                    total == fb.size as usize || (fb.offset as usize + total <= u16::MAX as usize
                        && (fb.size as usize - total > FRAGMENTATION_SIZE || frag + (
                        fb.size as usize - total) <= u16::MAX as usize))
                },
                None => false,
            };
            if !ok {
                self.set_cell_count(old_cc);
                proof {
                    lemma_same_but_cell_count(before, self.page.page.backing@);
                    assert(self.page.page.backing@ =~= before);
                }
                return Err(PageError::LeafPageFull);
            }
        }

        // Write the length header and the record bytes at the allocation.
        let mut payload: Vec<u8> = Vec::new();
        OvrInteger::write(record.data.len() as u64, &mut payload);
        let ghost data_view = record.data@;
        let mut data = record.data;
        payload.append(&mut data);
        let ghost is_lead = record_allocation.is_lead_allocation;
        self.put_body_bytes(record_ptr, payload.as_slice());
        let ghost s_put = self.page.page.backing@;
        proof {
            assert(s_put.subrange(
                PAGE_HEADER_RESERVED_BYTES + record_ptr,
                PAGE_HEADER_RESERVED_BYTES + record_ptr + payload@.len(),
            ) =~= payload@);
        }

        // Account for the directory slot, settle the allocation, and file
        // the new cell's offset.
        let used_now = self.page.get_used_space();
        self.set_used_space(used_now + 2);
        let ghost s_used = self.page.page.backing@;
        match self.solve_allocate(record_allocation) {
            Ok(..) => {},
            Err(..) => {
                proof {
                    assert(false);
                }
                return Err(PageError::BadAllocation);
            },
        }
        let ghost s_solved = self.page.page.backing@;
        self.write_record_offset(new_cell_count - 1, record_ptr);
        proof {
            if is_lead {
                let after = self.page.page.backing@;
                let lo = PAGE_HEADER_RESERVED_BYTES + record_ptr;
                let hi = lo + payload@.len();
                assert(s_used.subrange(lo as int, hi as int) =~= s_put.subrange(
                    lo as int,
                    hi as int,
                ));
                assert(s_solved.subrange(lo as int, hi as int) =~= s_used.subrange(
                    lo as int,
                    hi as int,
                ));
                assert(after.subrange(lo as int, hi as int) =~= s_solved.subrange(
                    lo as int,
                    hi as int,
                ));
            }
        }
        Ok(())
    }

    /// Deletes record `record`: zeroes its directory slot and bytes, shifts
    /// the directory left, and threads the hole onto the free chain. The
    /// cell count drops by one; the used space drops by the record's
    /// on-page length and its slot, then grows by six when a fresh chain
    /// slot had to be allocated.
    pub fn simple_delete(&mut self, record: usize) -> (r: Result<(), PageError>)
        requires
            old(self).wf(),
            spec_leaf_sane(old(self).page.page.backing@),
        ensures
            final(self).wf(),
            spec_leaf_sane(final(self).page.page.backing@),
            final(self).page.page.reference == old(self).page.page.reference,
            final(self).page.page.metadata == old(self).page.page.metadata,
            LEAF_HEADER_SIZE + 2 * record + 2 <= spec_body_capacity() && spec_offset_at(
                old(self).page.page.backing@,
                record as int,
            ) == 0 ==> r == Err::<(), PageError>(PageError::NoRecordFound)
                && final(self).page.page.backing@ == old(self).page.page.backing@,
            r is Ok ==> {
                let before = old(self).page.page.backing@;
                let after = final(self).page.page.backing@;
                &&& spec_cell_count(before) >= 1
                &&& spec_cell_count(after) == spec_cell_count(before) - 1
                &&& (old(self).page.get_record_size_spec(record as int) matches Some((h, a)) && (
                spec_used_space(after) == spec_used_space(before) - 2 - (h + a)
                    || spec_used_space(after) == spec_used_space(before) - 2 - (h + a) + 6))
            },
            r is Err ==> final(self).page.page.backing@ == old(self).page.page.backing@ || ({
                let before = old(self).page.page.backing@;
                let after = final(self).page.page.backing@;
                &&& spec_cell_count(after) == spec_cell_count(before) - 1
                &&& (old(self).page.get_record_size_spec(record as int) matches Some((h, a))
                    && spec_used_space(after) == spec_used_space(before) - 2 - (h + a))
            }),
            r is Ok && spec_free_ptr(old(self).page.page.backing@) == 0 && spec_offset_at(
                old(self).page.page.backing@,
                record as int,
            ) >= LEAF_HEADER_SIZE + 2 * spec_cell_count(old(self).page.page.backing@) ==> forall|
                j: int,
            |
                0 <= j < spec_cell_count(old(self).page.page.backing@) - 1 ==> spec_offset_at(
                    final(self).page.page.backing@,
                    j,
                ) == if j < record {
                    spec_offset_at(old(self).page.page.backing@, j)
                } else {
                    spec_offset_at(old(self).page.page.backing@, j + 1)
                },
            ({
                let before = old(self).page.page.backing@;
                let sz = old(self).page.get_record_size_spec(record as int);
                &&& record <= PAGE_SIZE
                &&& LEAF_HEADER_SIZE + 2 * record + 2 <= spec_body_capacity()
                &&& spec_offset_at(before, record as int) != 0
                &&& record < spec_cell_count(before)
                &&& (sz matches Some((h, a)) && {
                    let size = h + a;
                    let off = spec_offset_at(before, record as int) as int;
                    &&& LEAF_HEADER_SIZE <= off
                    &&& size <= spec_body_capacity()
                    &&& off <= spec_body_capacity() - size
                    &&& spec_used_space(before) >= 2 + size
                    &&& spec_free_ptr(before) == 0
                    &&& 6 < spec_body_capacity() - LEAF_HEADER_SIZE - (spec_used_space(before) - 2
                        - size)
                    &&& spec_lead_offset(before) + 6 <= spec_body_capacity()
                    &&& spec_body_capacity() - spec_lead_offset(before) - 6 > LEAF_HEADER_SIZE + 2
                        * (spec_cell_count(before) - 1)
                    &&& spec_fragmented(before) + 10 <= u16::MAX
                })
            }) ==> r is Ok,
    {
        let cap = self.page.capacity();
        if record > PAGE_SIZE || LEAF_HEADER_SIZE + 2 * record + 2 > cap {
            return Err(PageError::NoRecordFound);
        }
        if !self.page.check_record_exists(record) {
            return Err(PageError::NoRecordFound);
        }
        let initial_cell_count = self.page.get_cell_count();
        if record >= initial_cell_count {
            return Err(PageError::NoRecordFound);
        }
        let size = match self.page.get_total_record_size(record) {
            Some(s) => s,
            None => {
                return Err(PageError::RecordDeserializationFailure);
            },
        };
        let offset = self.page.get_offset(record);
        let used = self.page.get_used_space();
        if offset < LEAF_HEADER_SIZE || size > cap || offset > cap - size || used < 2 + size {
            return Err(PageError::BadAllocation);
        }

        // Zero the directory slot and the record bytes.
        self.write_record_offset(record, 0);
        let mut zeros: Vec<u8> = Vec::new();
        let mut z: usize = 0;
        while z < size
            invariant
                z <= size,
                zeros@.len() == z,
            decreases size - z,
        {
            zeros.push(0);
            z = z + 1;
        }
        let ghost pre_zero = self.page.page.backing@;
        self.put_body_bytes(offset, zeros.as_slice());
        proof {
            if offset >= LEAF_HEADER_SIZE + 2 * spec_cell_count(old(self).page.page.backing@) {
                let now = self.page.page.backing@;
                assert forall|jj: int|
                    0 <= jj < initial_cell_count implies spec_offset_at(now, jj)
                    == spec_offset_at(pre_zero, jj) by {
                    let at = PAGE_HEADER_RESERVED_BYTES + LEAF_HEADER_SIZE + 2 * jj;
                    assert(now.subrange(at, at + 2) =~= pre_zero.subrange(at, at + 2));
                }
            }
        }

        // Update the accounting.
        self.set_used_space(used - (2 + size));
        self.set_cell_count(initial_cell_count - 1);

        // Shift the directory left over the vacated slot.
        let ghost before0 = old(self).page.page.backing@;
        let ghost above = offset >= LEAF_HEADER_SIZE + 2 * spec_cell_count(before0);
        let mut j = record;
        while j + 1 < initial_cell_count
            invariant
                above ==> forall|jj: int|
                    0 <= jj < record ==> spec_offset_at(self.page.page.backing@, jj)
                        == spec_offset_at(before0, jj),
                above ==> forall|jj: int|
                    record <= jj < j ==> spec_offset_at(self.page.page.backing@, jj)
                        == spec_offset_at(before0, jj + 1),
                above ==> forall|jj: int|
                    j <= jj < initial_cell_count && jj != record ==> spec_offset_at(
                        self.page.page.backing@,
                        jj,
                    ) == spec_offset_at(before0, jj),
                self.wf(),
                spec_leaf_sane(self.page.page.backing@),
                self.page.page.reference == old(self).page.page.reference,
                self.page.page.metadata == old(self).page.page.metadata,
                self.page.page.backing@.len() == old(self).page.page.backing@.len(),
                record <= j,
                j <= u16::MAX + 1,
                j < initial_cell_count || j == record,
                initial_cell_count <= u16::MAX,
                LEAF_HEADER_SIZE + 2 * initial_cell_count <= spec_body_capacity(),
                spec_cell_count(self.page.page.backing@) == initial_cell_count - 1,
                spec_used_space(self.page.page.backing@) == spec_used_space(
                    old(self).page.page.backing@,
                ) - 2 - size,
                spec_free_ptr(self.page.page.backing@) == spec_free_ptr(
                    old(self).page.page.backing@,
                ),
                spec_lead_offset(self.page.page.backing@) == spec_lead_offset(
                    old(self).page.page.backing@,
                ),
                spec_fragmented(self.page.page.backing@) == spec_fragmented(
                    old(self).page.page.backing@,
                ),
            decreases initial_cell_count - j,
        {
            let moved = self.page.get_offset(j + 1);
            self.write_record_offset(j, moved);
            j = j + 1;
        }
        if initial_cell_count >= 1 {
            self.write_record_offset(initial_cell_count - 1, 0);
        }

        // Thread the hole onto the free chain.
        match self.update_free_list(offset, size) {
            Ok(..) => Ok(()),
            Err(e) => Err(e),
        }
    }
}


} // verus!
