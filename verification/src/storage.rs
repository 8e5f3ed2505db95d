//! The storage facade.
//!
//! Key-to-value persistence over the paged file: the facade keeps its record
//! table in memory and mirrors it into a paged image — leaf pages holding
//! one record per cell, each cell the key and value in the wire encoding,
//! pages chained in table order. Every mutation rebuilds the image; the
//! caller persists the image's bytes and hands them back on open.

use vstd::prelude::*;
use crate::codec::{
    spec_ser_string,
    spec_ser_value,
    write_string,
    write_value,
    read_key,
    read_value,
};
use crate::errors::NetworkError;
use crate::keys::Key;
use crate::leaf::{Record as LeafRecord, SerializedRecord, LEAF_HEADER_SIZE, spec_body_capacity, spec_cell_count, spec_free_ptr, spec_lead_offset, spec_fragmented, spec_used_space, spec_leaf_sane};
use crate::meta::{PAGE_SIZE, RESERVED_HEADER_SIZE, PAGE_HEADER_RESERVED_BYTES, MAGIC_BYTE};
use crate::page::Transact;
use crate::paged_file::PagedFile;
use crate::values::{Value, ValueView};
use crate::varint::{spec_varint, OvrInteger};
use crate::store::{spec_find_value, spec_keys_unique, Record};

verus! {

/// A record as the facade stores and lists it.
pub struct StoredRecord {
    pub key: Key,
    pub value: Value,
}

/// The bytes a record takes in a cell: its key and value in the wire
/// encoding, behind the cell's length header.
pub open spec fn spec_pair_len(k: Seq<char>, v: ValueView) -> int {
    spec_ser_string(k).len() + spec_ser_value(v).len() as int
}

/// Whether a record fits a fresh leaf page, with room to spare for the
/// length header and one directory slot.
pub open spec fn spec_pair_fits(k: Seq<char>, v: ValueView) -> bool {
    spec_pair_len(k, v) + spec_varint(spec_pair_len(k, v) as nat).len() <= spec_body_capacity()
        - 13
}

/// The most data pages an image may hold.
pub open spec fn spec_page_limit() -> int {
    ((u32::MAX - RESERVED_HEADER_SIZE) as u32 / (PAGE_SIZE as u32)) as int
}

/// The storage facade: the record table and its paged image.
pub struct DatabaseStorage {
    pub entries: Vec<(Key, Record)>,
    pub file: PagedFile,
}

impl DatabaseStorage {
    /// Well-formedness: keys are unique, every record fits a fresh page,
    /// the image is a well-formed paged file, and its free list is empty.
    pub open spec fn wf(self) -> bool {
        &&& spec_keys_unique(self.entries@)
        &&& self.file.wf()
        &&& self.file.free_list@.len() == 0
        &&& self.entries@.len() + 3 <= spec_page_limit()
        &&& forall|i: int|
            0 <= i < self.entries@.len() ==> #[trigger] spec_pair_fits(
                self.entries@[i].0@,
                self.entries@[i].1.value@,
            )
    }

    /// What the facade binds to `k`.
    pub open spec fn spec_get(self, k: Seq<char>) -> Option<ValueView> {
        spec_find_value(self.entries@, k)
    }

    /// An empty facade: a freshly formatted image.
    pub fn new() -> (r: Self)
        ensures
            r.wf(),
            r.entries@.len() == 0,
    {
        let file = match PagedFile::open(Vec::new()) {
            Ok(f) => f,
            Err(..) => {
                proof {
                    assert(false);
                }
                PagedFile { data: Vec::new(), is_initialized: false, free_list: Vec::new() }
            },
        };
        proof {
            assert(((u32::MAX - RESERVED_HEADER_SIZE) as u32 / (PAGE_SIZE as u32)) >= 3)
                by (nonlinear_arith);
        }
        Self { entries: Vec::new(), file }
    }

    /// How many records the facade holds.
    pub fn len(&self) -> (r: usize)
        ensures
            r == self.entries@.len(),
    {
        self.entries.len()
    }

    /// Serializes one record into the bytes its cell holds.
    fn pair_bytes(key: &Key, value: &Value) -> (r: Vec<u8>)
        ensures
            r@ == spec_ser_string(key@) + spec_ser_value(value@),
    {
        let mut data: Vec<u8> = Vec::new();
        write_string(key.as_str(), &mut data);
        write_value(value, &mut data);
        assert(data@ =~= spec_ser_string(key@) + spec_ser_value(value@));
        data
    }

    /// Rebuilds the paged image from the table: records go into leaf pages
    /// in table order, a fresh page whenever one fills, pages chained in
    /// both directions.
    fn save(&mut self) -> (r: Result<(), NetworkError>)
        requires
            spec_keys_unique(old(self).entries@),
            forall|i: int|
                0 <= i < old(self).entries@.len() ==> #[trigger] spec_pair_fits(
                    old(self).entries@[i].0@,
                    old(self).entries@[i].1.value@,
                ),
            old(self).entries@.len() + 3 <= spec_page_limit(),
        ensures
            final(self).entries == old(self).entries,
            r is Ok,
            final(self).wf(),
    {
        let n = self.entries.len();
        let mut file = match PagedFile::open(Vec::new()) {
            Ok(f) => f,
            Err(..) => {
                proof {
                    assert(false);
                }
                return Err(NetworkError::StorageError);
            },
        };
        let first_page = match file.new_page() {
            Ok(p) => p,
            Err(..) => {
                proof {
                    assert(false);
                }
                return Err(NetworkError::StorageError);
            },
        };
        let mut tx = first_page.leaf().transact();
        // Blank the leaf header; a fresh page is all zeros, and writing the
        // fields gives their values a stated form.
        tx.set_cell_count(0);
        tx.set_used_space(0);
        tx.set_free_ptr(0);
        tx.set_lead_offset(0);
        tx.set_fragmented(0);
        let mut i: usize = 0;
        while i < n
            invariant
                n == self.entries@.len(),
                i <= n,
                self.entries == old(self).entries,
                spec_keys_unique(self.entries@),
                forall|j: int|
                    0 <= j < self.entries@.len() ==> #[trigger] spec_pair_fits(
                        self.entries@[j].0@,
                        self.entries@[j].1.value@,
                    ),
                self.entries@.len() + 2 <= spec_page_limit(),
                file.wf(),
                file.free_list@.len() == 0,
                file.spec_pages() <= 1 + i,
                tx.wf(),
                spec_leaf_sane(tx.page.page.backing@),
                tx.page.page.reference.pointer.0 >= RESERVED_HEADER_SIZE,
                tx.page.page.reference.pointer.0 + PAGE_SIZE <= file.data@.len(),
            decreases n - i,
        {
            let data = Self::pair_bytes(&self.entries[i].0, &self.entries[i].1.value);
            proof {
                assert(spec_pair_fits(self.entries@[i as int].0@, self.entries@[i as int].1.value@));
                crate::varint::lemma_varint_len(data@.len());
            }
            let record = SerializedRecord {
                value: LeafRecord { value: Some(self.entries[i].1.value.duplicate()) },
                data,
            };
            match tx.write_serialized_record(record) {
                Ok(..) => {},
                Err(..) => {
                    // The page is full: chain a fresh one and retry there.
                    let next_page = match file.new_page() {
                        Ok(p) => p,
                        Err(..) => {
                            proof {
                                assert(false);
                            }
                            return Err(NetworkError::StorageError);
                        },
                    };
                    proof {
                        crate::page::lemma_link_of_page_number(next_page.reference.pointer);
                        crate::page::lemma_link_of_page_number(tx.page.page.reference.pointer);
                    }
                    let next_number = next_page.start().page_number();
                    let this_number = tx.page.page.start().page_number();
                    tx.set_next(Some(next_number));
                    match tx.commit(&mut file) {
                        Ok(..) => {},
                        Err(..) => {
                            return Err(NetworkError::StorageError);
                        },
                    }
                    let mut fresh = next_page.leaf().transact();
                    fresh.set_previous(Some(this_number));
                    // Blank the leaf header of the fresh page too.
                    fresh.set_cell_count(0);
                    fresh.set_used_space(0);
                    fresh.set_free_ptr(0);
                    fresh.set_lead_offset(0);
                    fresh.set_fragmented(0);
                    let data = Self::pair_bytes(&self.entries[i].0, &self.entries[i].1.value);
                    proof {
                        assert(spec_pair_fits(
                            self.entries@[i as int].0@,
                            self.entries@[i as int].1.value@,
                        ));
                        crate::varint::lemma_varint_len(data@.len());
                    }
                    let record = SerializedRecord {
                        value: LeafRecord { value: Some(self.entries[i].1.value.duplicate()) },
                        data,
                    };
                    match fresh.write_serialized_record(record) {
                        Ok(..) => {},
                        Err(..) => {
                            proof {
                                assert(false);
                            }
                            return Err(NetworkError::StorageError);
                        },
                    }
                    tx = fresh;
                },
            }
            i = i + 1;
        }
        match tx.commit(&mut file) {
            Ok(..) => {},
            Err(..) => {
                return Err(NetworkError::StorageError);
            },
        }
        self.file = file;
        Ok(())
    }

    /// The current image; the caller persists these bytes.
    pub fn image_bytes(&self) -> (r: &Vec<u8>)
        ensures
            r == &self.file.data,
    {
        &self.file.data
    }

    /// Binds `value` to `key`, replacing any current binding, and rebuilds
    /// the image. A record too large for one page is refused untouched.
    pub fn write(&mut self, key: &Key, value: &Value) -> (r: Result<(), NetworkError>)
        requires
            old(self).wf(),
        ensures
            spec_pair_fits(key@, value@) && old(self).entries@.len() + 4 <= spec_page_limit()
                ==> r is Ok,
            r is Err ==> r == Err::<(), NetworkError>(NetworkError::StorageError) && final(self).entries == old(self).entries && final(self).file.data == old(self).file.data,
            final(self).wf(),
            r is Ok ==> {
                &&& final(self).spec_get(key@) == Some(value@)
                &&& (forall|k2: Seq<char>|
                    k2 != key@ ==> final(self).spec_get(k2) == old(self).spec_get(k2))
                &&& final(self).entries@.len() == if old(self).spec_get(key@) is Some {
                    old(self).entries@.len() as int
                } else {
                    old(self).entries@.len() + 1 as int
                }
            },
    {
        let limit = ((u32::MAX - RESERVED_HEADER_SIZE) / (PAGE_SIZE as u32)) as usize;
        if self.entries.len() + 4 > limit {
            return Err(NetworkError::StorageError);
        }
        let data = Self::pair_bytes(key, value);
        if data.len() > PAGE_SIZE {
            return Err(NetworkError::StorageError);
        }
        let header = OvrInteger::required_space(data.len() as u64);
        proof {
            crate::varint::lemma_varint_len(data@.len());
        }
        if data.len() + header > PAGE_SIZE - PAGE_HEADER_RESERVED_BYTES as usize - 13 {
            return Err(NetworkError::StorageError);
        }
        assert(spec_pair_fits(key@, value@));
        let ghost pre = self.entries@;
        crate::store::table_bind(&mut self.entries, key, value);
        proof {
            assert forall|i: int|
                0 <= i < self.entries@.len() implies #[trigger] spec_pair_fits(
                self.entries@[i].0@,
                self.entries@[i].1.value@,
            ) by {
                if i < pre.len() {
                    if self.entries@[i].1.value@ == pre[i].1.value@ {
                        assert(self.entries@[i].0@ == pre[i].0@);
                        assert(spec_pair_fits(pre[i].0@, pre[i].1.value@));
                    }
                }
            }
        }
        match self.save() {
            Ok(..) => Ok(()),
            Err(e) => {
                proof {
                    assert(false);
                }
                Err(e)
            },
        }
    }

    /// Rebinds `key`; updates replace, exactly as `write` does.
    pub fn update(&mut self, key: &Key, value: Value) -> (r: Result<(), NetworkError>)
        requires
            old(self).wf(),
        ensures
            spec_pair_fits(key@, value@) && old(self).entries@.len() + 4 <= spec_page_limit()
                ==> r is Ok,
            final(self).wf(),
            r is Ok ==> final(self).spec_get(key@) == Some(value@) && (forall|k2: Seq<char>|
                k2 != key@ ==> final(self).spec_get(k2) == old(self).spec_get(k2)),
    {
        self.write(key, &value)
    }

    /// Unbinds `key` and rebuilds the image.
    pub fn delete(&mut self, key: &Key) -> (r: Result<(), NetworkError>)
        requires
            old(self).wf(),
        ensures
            r is Ok,
            final(self).wf(),
            final(self).spec_get(key@) is None,
            forall|k2: Seq<char>| k2 != key@ ==> final(self).spec_get(k2) == old(self).spec_get(k2),
    {
        let ghost pre = self.entries@;
        crate::store::table_unbind(&mut self.entries, key);
        proof {
            assert forall|i: int|
                0 <= i < self.entries@.len() implies #[trigger] spec_pair_fits(
                self.entries@[i].0@,
                self.entries@[i].1.value@,
            ) by {
                let k = choose|k: int| 0 <= k < pre.len() && #[trigger] self.entries@[i]
                    == #[trigger] pre[k];
                assert(spec_pair_fits(pre[k].0@, pre[k].1.value@));
            }
        }
        match self.save() {
            Ok(..) => {},
            Err(..) => {
                proof {
                    assert(false);
                }
            },
        }
        Ok(())
    }

    /// Lists every record.
    pub fn records(&self) -> (r: Vec<StoredRecord>)
        ensures
            r@.len() == self.entries@.len(),
            forall|i: int|
                0 <= i < r@.len() ==> #[trigger] r@[i].key@ == self.entries@[i].0@ && r@[i].value@
                    == self.entries@[i].1.value@,
    {
        let n = self.entries.len();
        let mut out: Vec<StoredRecord> = Vec::new();
        let mut i: usize = 0;
        while i < n
            invariant
                n == self.entries@.len(),
                i <= n,
                out@.len() == i,
                forall|j: int|
                    0 <= j < i ==> #[trigger] out@[j].key@ == self.entries@[j].0@ && out@[j].value@
                        == self.entries@[j].1.value@,
            decreases n - i,
        {
            out.push(
                StoredRecord {
                    key: self.entries[i].0.duplicate(),
                    value: self.entries[i].1.value.duplicate(),
                },
            );
            i = i + 1;
        }
        out
    }

    /// Rebuilds a facade from a paged image: every live page is read as a
    /// leaf and its cells decode to key-value records, bound in page order.
    /// A later duplicate of a key or a malformed cell is refused. The
    /// opened image is kept as the facade's own.
    pub fn from_bytes(bytes: &Vec<u8>) -> (r: Result<Self, NetworkError>)
        requires
            bytes@.len() <= u32::MAX,
        ensures
            r matches Ok(f) ==> f.wf(),
            bytes@.len() == 0 ==> (r matches Ok(f) && f.entries@.len() == 0),
            bytes@.len() >= RESERVED_HEADER_SIZE && bytes@[0] == MAGIC_BYTE ==> (r matches Ok(f)
                ==> f.file.data@ == bytes@),
    {
        let file = match PagedFile::open(crate::buf::copy_bytes(bytes)) {
            Ok(f) => f,
            Err(e) => {
                return Err(e);
            },
        };
        if file.free_pages() != 0 {
            return Err(NetworkError::StorageError);
        }
        let mut entries: Vec<(Key, Record)> = Vec::new();
        let total = file.pages();
        let mut page_no: u32 = 0;
        while page_no < total
            invariant
                file.wf(),
                total == file.spec_pages(),
                total > 0 ==> bytes@.len() > 0,
                bytes@.len() == 0 ==> entries@.len() == 0,
                file.free_list@.len() == 0,
                bytes@.len() >= RESERVED_HEADER_SIZE && bytes@[0] == MAGIC_BYTE ==> file.data@
                    == bytes@,
                spec_keys_unique(entries@),
                entries@.len() + 3 <= spec_page_limit(),
                forall|i: int|
                    0 <= i < entries@.len() ==> #[trigger] spec_pair_fits(
                        entries@[i].0@,
                        entries@[i].1.value@,
                    ),
            decreases total - page_no,
        {
            let page = match file.acquire(page_no) {
                Ok(p) => p,
                Err(e) => {
                    return Err(e);
                },
            };
            let leaf = page.leaf();
            let cells = leaf.get_cell_count();
            if LEAF_HEADER_SIZE + 2 * cells + 2 > PAGE_SIZE - PAGE_HEADER_RESERVED_BYTES as usize {
                return Err(NetworkError::StorageError);
            }
            let mut cell: usize = 0;
            while cell < cells
                invariant
                    leaf.wf(),
                    cells == spec_cell_count(leaf.page.backing@),
                    LEAF_HEADER_SIZE + 2 * cells + 2 <= spec_body_capacity(),
                    cell <= cells,
                    bytes@.len() > 0,
                    spec_keys_unique(entries@),
                    entries@.len() + 3 <= spec_page_limit(),
                    forall|i: int|
                        0 <= i < entries@.len() ==> #[trigger] spec_pair_fits(
                            entries@[i].0@,
                            entries@[i].1.value@,
                        ),
                decreases cells - cell,
            {
                let offset = leaf.get_offset(cell);
                let body = leaf.body();
                if offset > body.len() {
                    return Err(NetworkError::StorageError);
                }
                let after_len = match OvrInteger::read(body, offset) {
                    Ok((.., end)) => end,
                    Err(..) => {
                        return Err(NetworkError::StorageError);
                    },
                };
                let (key, after_key) = match read_key(body, after_len) {
                    Ok(v) => v,
                    Err(..) => {
                        return Err(NetworkError::StorageError);
                    },
                };
                let (value, ..) = match read_value(body, after_key) {
                    Ok(v) => v,
                    Err(..) => {
                        return Err(NetworkError::StorageError);
                    },
                };
                let data = Self::pair_bytes(&key, &value);
                if data.len() > PAGE_SIZE {
                    return Err(NetworkError::StorageError);
                }
                let header = OvrInteger::required_space(data.len() as u64);
                proof {
                    crate::varint::lemma_varint_len(data@.len());
                }
                if data.len() + header > PAGE_SIZE - PAGE_HEADER_RESERVED_BYTES as usize - 13 {
                    return Err(NetworkError::StorageError);
                }
                if table_has_key(&entries, &key) {
                    return Err(NetworkError::StorageError);
                }
                let limit = ((u32::MAX - RESERVED_HEADER_SIZE) / (PAGE_SIZE as u32)) as usize;
                if entries.len() + 4 > limit {
                    return Err(NetworkError::StorageError);
                }
                crate::store::table_bind(&mut entries, &key, &value);
                cell = cell + 1;
            }
            page_no = page_no + 1;
        }
        Ok(Self { entries, file })
    }
}

/// Whether a record table binds `key`.
fn table_has_key(entries: &Vec<(Key, Record)>, key: &Key) -> (r: bool)
    ensures
        r == (spec_find_value(entries@, key@) is Some),
{
    crate::store::table_contains(entries, key)
}

} // verus!
