//! The paged file.
//!
//! One storage file, held here as its byte image: a reserved header page
//! whose first byte is the magic byte, then fixed-size data pages. Freed
//! pages go on a free list and are recycled newest-first by `new_page`.
//! Reading the image from disk and writing it back is the caller's concern.

use vstd::prelude::*;
use vstd::bytes::{u32_from_le_bytes, spec_u32_from_le_bytes};
use vstd::slice::slice_subrange;
use crate::buf::{fill_bytes, spec_splice};
use crate::errors::NetworkError;
use crate::meta::{PageType, RawPageAddress, MAGIC_BYTE, PAGE_SIZE, RESERVED_HEADER_SIZE, PAGE_HEADER_RESERVED_BYTES};
use crate::page::{Page, PageMetadata, PageReference};

verus! {

/// The addresses of the free pages among the first `upto` data pages of the
/// image, in page order: those whose first byte is 1.
pub open spec fn spec_scan_free(data: Seq<u8>, upto: nat) -> Seq<RawPageAddress>
    decreases upto,
{
    if upto == 0 {
        Seq::empty()
    } else {
        let addr = RESERVED_HEADER_SIZE + (upto - 1) * PAGE_SIZE;
        let prefix = spec_scan_free(data, (upto - 1) as nat);
        if data[addr as int] == 1 {
            prefix.push(RawPageAddress(addr as u32))
        } else {
            prefix
        }
    }
}

/// The paged file: the whole file image, and the free list rebuilt from it.
pub struct PagedFile {
    pub data: Vec<u8>,
    pub is_initialized: bool,
    pub free_list: Vec<RawPageAddress>,
}

impl PagedFile {
    /// Well-formedness: the image holds at least the header and fits the
    /// 32-bit address space, and every free-list entry names a whole data
    /// page inside it.
    pub open spec fn wf(self) -> bool {
        self.data@.len() >= RESERVED_HEADER_SIZE && self.data@.len() <= u32::MAX && forall|k: int|
            0 <= k < self.free_list@.len() ==> #[trigger] self.spec_free_entry_ok(
                self.free_list@[k],
            )
    }

    /// A free-list entry names a page-aligned region inside the image.
    pub open spec fn spec_free_entry_ok(self, a: RawPageAddress) -> bool {
        a.0 >= RESERVED_HEADER_SIZE && a.0 + PAGE_SIZE <= self.data@.len() && ((a.0
            - RESERVED_HEADER_SIZE) as u32) % (PAGE_SIZE as u32) == 0
    }

    /// Well-formedness survives any change that keeps the free list and
    /// does not shrink the image.
    pub proof fn lemma_wf_preserved(pre: PagedFile, post: PagedFile)
        requires
            pre.wf(),
            post.free_list@ == pre.free_list@,
            post.data@.len() >= pre.data@.len(),
            post.data@.len() <= u32::MAX,
        ensures
            post.wf(),
    {
        assert forall|k: int|
            0 <= k < post.free_list@.len() implies #[trigger] post.spec_free_entry_ok(
            post.free_list@[k],
        ) by {
            assert(pre.spec_free_entry_ok(pre.free_list@[k]));
        }
    }

    /// Well-formedness survives pushing a valid entry.
    pub proof fn lemma_wf_push(pre: PagedFile, post: PagedFile, a: RawPageAddress)
        requires
            pre.wf(),
            pre.spec_free_entry_ok(a),
            post.free_list@ == pre.free_list@.push(a),
            post.data@.len() == pre.data@.len(),
        ensures
            post.wf(),
    {
        assert forall|k: int|
            0 <= k < post.free_list@.len() implies #[trigger] post.spec_free_entry_ok(
            post.free_list@[k],
        ) by {
            if k < pre.free_list@.len() {
                assert(pre.spec_free_entry_ok(pre.free_list@[k]));
            }
        }
    }

    /// Well-formedness survives popping the newest entry.
    pub proof fn lemma_wf_pop(pre: PagedFile, post: PagedFile)
        requires
            pre.wf(),
            pre.free_list@.len() > 0,
            post.free_list@ == pre.free_list@.drop_last(),
            post.data@.len() == pre.data@.len(),
        ensures
            post.wf(),
            pre.spec_free_entry_ok(pre.free_list@.last()),
    {
        assert(pre.spec_free_entry_ok(pre.free_list@[pre.free_list@.len() - 1]));
        assert forall|k: int|
            0 <= k < post.free_list@.len() implies #[trigger] post.spec_free_entry_ok(
            post.free_list@[k],
        ) by {
            assert(pre.spec_free_entry_ok(pre.free_list@[k]));
        }
    }

    /// How many whole data pages the image holds.
    pub open spec fn spec_pages(self) -> u32 {
        (((self.data@.len() - RESERVED_HEADER_SIZE) as u64) / (PAGE_SIZE as u64)) as u32
    }

    pub fn pages(&self) -> (r: u32)
        requires
            self.wf(),
        ensures
            r == self.spec_pages(),
    {
        (((self.data.len() - (RESERVED_HEADER_SIZE as usize)) as u64) / (PAGE_SIZE as u64)) as u32
    }

    /// How many pages wait on the free list.
    pub fn free_pages(&self) -> (r: usize)
        ensures
            r == self.free_list@.len(),
    {
        self.free_list.len()
    }

    /// Pushes a page address on the free list.
    pub fn add_to_free_list(&mut self, addr: RawPageAddress)
        requires
            old(self).spec_free_entry_ok(addr),
        ensures
            old(self).wf() ==> final(self).wf(),
            final(self).free_list@ == old(self).free_list@.push(addr),
            final(self).data == old(self).data,
            final(self).is_initialized == old(self).is_initialized,
    {
        self.free_list.push(addr);
        proof {
            if old(self).wf() {
                PagedFile::lemma_wf_push(*old(self), *self, addr);
            }
        }
    }

    /// Opens a file image. An empty image is formatted: a zeroed header page
    /// with the magic byte first. A non-empty image must start with the
    /// magic byte; its free list is rebuilt by scanning the free byte of
    /// every page.
    pub fn open(bytes: Vec<u8>) -> (r: Result<Self, NetworkError>)
        requires
            bytes@.len() <= u32::MAX,
        ensures
            bytes@.len() == 0 ==> (r matches Ok(f) && f.wf() && f.data@.len()
                == RESERVED_HEADER_SIZE && f.data@[0] == MAGIC_BYTE && (forall|j: int|
                1 <= j < RESERVED_HEADER_SIZE ==> f.data@[j] == 0) && f.free_list@.len() == 0),
            bytes@.len() > 0 && bytes@.len() < RESERVED_HEADER_SIZE ==> r == Err::<
                Self,
                NetworkError,
            >(NetworkError::IllegalRead),
            bytes@.len() >= RESERVED_HEADER_SIZE && bytes@[0] != MAGIC_BYTE ==> r == Err::<
                Self,
                NetworkError,
            >(NetworkError::BadMagicByte),
            bytes@.len() >= RESERVED_HEADER_SIZE && bytes@[0] == MAGIC_BYTE ==> (r matches Ok(f)
                && f.wf() && f.data@ == bytes@ && f.free_list@ == spec_scan_free(
                bytes@,
                f.spec_pages() as nat,
            )),
    {
        if bytes.len() == 0 {
            let mut data: Vec<u8> = Vec::new();
            let mut i: usize = 0;
            while i < RESERVED_HEADER_SIZE as usize
                invariant
                    i <= RESERVED_HEADER_SIZE,
                    data@.len() == i,
                    forall|j: int| 0 <= j < i ==> data@[j] == 0,
                decreases RESERVED_HEADER_SIZE as usize - i,
            {
                data.push(0);
                i = i + 1;
            }
            data.set(0, MAGIC_BYTE);
            Ok(Self { data, is_initialized: true, free_list: Vec::new() })
        } else if bytes.len() < RESERVED_HEADER_SIZE as usize {
            Err(NetworkError::IllegalRead)
        } else if bytes[0] != MAGIC_BYTE {
            Err(NetworkError::BadMagicByte)
        } else {
            let mut object = Self { data: bytes, is_initialized: true, free_list: Vec::new() };
            let total = object.pages();
            let mut i: u32 = 0;
            while i < total
                invariant
                    object.wf(),
                    object.data@.len() <= u32::MAX,
                    object.data@ == bytes@,
                    total == object.spec_pages(),
                    i <= total,
                    object.free_list@ == spec_scan_free(object.data@, i as nat),
                decreases total - i,
            {
                let ghost pre = object.free_list@;
                proof {
                    assert((i + 1) * PAGE_SIZE == i * PAGE_SIZE + PAGE_SIZE) by (nonlinear_arith);
                    assert(i as int * PAGE_SIZE >= 0) by (nonlinear_arith);
                    assert((i as int + 1) * PAGE_SIZE <= object.spec_pages() as int * PAGE_SIZE)
                        by (nonlinear_arith)
                        requires
                            i as int + 1 <= object.spec_pages() as int,
                    ;
                    assert(object.spec_pages() as int * PAGE_SIZE <= object.data@.len()
                        - RESERVED_HEADER_SIZE) by (nonlinear_arith)
                        requires
                            object.spec_pages() == ((object.data@.len() - RESERVED_HEADER_SIZE)
                                as u64 / (PAGE_SIZE as u64)) as u32,
                            object.data@.len() >= RESERVED_HEADER_SIZE,
                            object.data@.len() <= u32::MAX,
                    ;
                }
                let ghost before_push = object;
                let addr: u32 = RESERVED_HEADER_SIZE + i * (PAGE_SIZE as u32);
                if self_read_byte(&object.data, addr as usize) == 1 {
                    object.free_list.push(RawPageAddress::new(addr));
                    proof {
                        assert(((addr - RESERVED_HEADER_SIZE) as u32) % (PAGE_SIZE as u32) == 0)
                            by (nonlinear_arith)
                            requires
                                addr == RESERVED_HEADER_SIZE + i * PAGE_SIZE,
                        ;
                        PagedFile::lemma_wf_push(before_push, object, RawPageAddress(addr));
                    }
                }
                proof {
                    assert(spec_scan_free(object.data@, (i + 1) as nat) == if object.data@[(
                    RESERVED_HEADER_SIZE + i * PAGE_SIZE) as int] == 1 {
                        spec_scan_free(object.data@, i as nat).push(
                            RawPageAddress((RESERVED_HEADER_SIZE + i * PAGE_SIZE) as u32),
                        )
                    } else {
                        spec_scan_free(object.data@, i as nat)
                    });
                }
                i = i + 1;
            }
            Ok(object)
        }
    }

    /// Loads a data page into memory. Fails on a page number at or past the
    /// end, and on a page whose free byte is set.
    pub fn acquire(&self, page: u32) -> (r: Result<Page, NetworkError>)
        requires
            self.wf(),
        ensures
            page >= self.spec_pages() ==> r == Err::<Page, NetworkError>(
                NetworkError::PageOutOfBounds,
            ),
            r matches Ok(p) ==> {
                let b = self.data@.subrange(
                    (RESERVED_HEADER_SIZE + page * PAGE_SIZE) as int,
                    RESERVED_HEADER_SIZE + page * PAGE_SIZE + PAGE_SIZE,
                );
                &&& page < self.spec_pages()
                &&& p.reference.pointer.0 == RESERVED_HEADER_SIZE + page * PAGE_SIZE
                &&& p.reference.size == PAGE_SIZE
                &&& p.wf()
                &&& p.backing@ == b
                &&& !p.metadata.free
                &&& p.backing@[0] != 1
                &&& p.metadata.previous.0 == crate::page::spec_link_of_stored(
                    crate::page::spec_stored_prev(b),
                )
                &&& p.metadata.next.0 == crate::page::spec_link_of_stored(
                    crate::page::spec_stored_next(b),
                )
                &&& p.metadata.page_type.tag() == b[9]
            },
            page < self.spec_pages() && crate::page::spec_page_loadable(
                self.data@,
                (RESERVED_HEADER_SIZE + page * PAGE_SIZE) as int,
                PAGE_SIZE as int,
            ) && self.data@[RESERVED_HEADER_SIZE + page * PAGE_SIZE] != 1 ==> r is Ok,
            page < self.spec_pages() && crate::page::spec_page_loadable(
                self.data@,
                (RESERVED_HEADER_SIZE + page * PAGE_SIZE) as int,
                PAGE_SIZE as int,
            ) && self.data@[RESERVED_HEADER_SIZE + page * PAGE_SIZE] == 1 ==> r == Err::<
                Page,
                NetworkError,
            >(NetworkError::PageFreedError),
    {
        let total = self.pages();
        if page >= total {
            return Err(NetworkError::PageOutOfBounds);
        }
        proof {
            assert(page as int * PAGE_SIZE + PAGE_SIZE <= total as int * PAGE_SIZE)
                by (nonlinear_arith)
                requires
                    page as int + 1 <= total as int,
            ;
            assert(total as int * PAGE_SIZE <= self.data@.len() - RESERVED_HEADER_SIZE)
                by (nonlinear_arith)
                requires
                    total == ((self.data@.len() - RESERVED_HEADER_SIZE) as u64 / (
                    PAGE_SIZE as u64)) as u32,
                    self.data@.len() >= RESERVED_HEADER_SIZE,
                    self.data@.len() <= u32::MAX,
            ;
            assert(page as int * PAGE_SIZE >= 0) by (nonlinear_arith);
        }
        let addr = RawPageAddress::new(RESERVED_HEADER_SIZE + page * (PAGE_SIZE as u32));
        let reference = PageReference::new(addr, PAGE_SIZE as u32);
        let acked = match reference.load(self) {
            Ok(p) => p,
            Err(e) => {
                return Err(e);
            },
        };
        if acked.metadata.free {
            return Err(NetworkError::PageFreedError);
        }
        Ok(acked)
    }

    /// Hands out a page: the most recently freed one, reformatted, or a
    /// fresh page appended to the image. Either way the page comes back
    /// zeroed.
    pub fn new_page(&mut self) -> (r: Result<Page, NetworkError>)
        requires
            old(self).wf(),
        ensures
            final(self).wf(),
            final(self).data@.len() >= old(self).data@.len(),
            old(self).free_list@.len() > 0 ==> {
                &&& r matches Ok(p)
                &&& p.reference.pointer == old(self).free_list@.last()
                &&& final(self).free_list@ == old(self).free_list@.drop_last()
                &&& final(self).data@.len() == old(self).data@.len()
            },
            r matches Ok(p) ==> {
                &&& p.wf()
                &&& p.reference.size == PAGE_SIZE
                &&& (forall|j: int| 0 <= j < PAGE_SIZE ==> p.backing@[j] == 0)
                &&& !p.metadata.free
                &&& p.metadata.previous.0 == 0
                &&& p.metadata.next.0 == 0
                &&& p.metadata.page_type == PageType::Normal
                &&& p.reference.pointer.0 + PAGE_SIZE <= final(self).data@.len()
                &&& final(self).data@.subrange(
                    p.reference.pointer.0 as int,
                    p.reference.pointer.0 + PAGE_SIZE,
                ) =~= p.backing@
            },
            old(self).free_list@.len() == 0 ==> {
                &&& final(self).free_list@ == old(self).free_list@
                &&& (r is Ok <==> old(self).spec_pages() <= ((u32::MAX - RESERVED_HEADER_SIZE)
                    as u32 / (PAGE_SIZE as u32)) - 1)
                &&& (r matches Ok(p) ==> p.reference.pointer.0 == RESERVED_HEADER_SIZE + old(
                    self,
                ).spec_pages() * PAGE_SIZE && final(self).data@.len() == RESERVED_HEADER_SIZE + (
                old(self).spec_pages() + 1) * PAGE_SIZE)
            },
    {
        let popped = self.free_list.pop();
        match popped {
            Some(to_use) => {
                proof {
                    PagedFile::lemma_wf_pop(*old(self), *self);
                }
                self.reserve(to_use, PAGE_SIZE as u32)
            },
            None => {
                let total = self.pages();
                proof {
                    assert(total as int * PAGE_SIZE <= self.data@.len() - RESERVED_HEADER_SIZE)
                        by (nonlinear_arith)
                        requires
                            total == ((self.data@.len() - RESERVED_HEADER_SIZE) as u64 / (
                            PAGE_SIZE as u64)) as u32,
                            self.data@.len() >= RESERVED_HEADER_SIZE,
                            self.data@.len() <= u32::MAX,
                    ;
                    assert(total as int * PAGE_SIZE >= 0) by (nonlinear_arith);
                }
                if total > ((u32::MAX - RESERVED_HEADER_SIZE) / (PAGE_SIZE as u32))
                    - 1 {
                    return Err(NetworkError::IllegalRead);
                }
                proof {
                    assert((total as int + 1) * PAGE_SIZE + (RESERVED_HEADER_SIZE as int)
                        <= u32::MAX) by (nonlinear_arith)
                        requires
                            total as int <= ((u32::MAX - RESERVED_HEADER_SIZE) as u32 / (
                            PAGE_SIZE as u32)) as int - 1,
                    ;
                }
                let ptr = RawPageAddress::new(
                    RESERVED_HEADER_SIZE + total * (PAGE_SIZE as u32),
                );
                let needed: usize = (ptr.0 as usize) + PAGE_SIZE;
                while self.data.len() < needed
                    invariant
                        needed <= u32::MAX,
                        old(self).data@.len() <= self.data@.len(),
                        self.data@.len() <= needed,
                        self.free_list@ == old(self).free_list@,
                        self.is_initialized == old(self).is_initialized,
                        forall|j: int|
                            0 <= j < old(self).data@.len() ==> self.data@[j] == old(self).data@[j],
                        forall|j: int|
                            old(self).data@.len() <= j < self.data@.len() ==> self.data@[j] == 0,
                    decreases needed - self.data@.len(),
                {
                    self.data.push(0);
                }
                proof {
                    PagedFile::lemma_wf_preserved(*old(self), *self);
                }
                self.reserve(ptr, PAGE_SIZE as u32)
            },
        }
    }

    /// Reformats the page range at `ptr`: zeroes its bytes and returns the
    /// fresh page.
    pub(crate) fn reserve(&mut self, ptr: RawPageAddress, size: u32) -> (r: Result<Page, NetworkError>)
        requires
            old(self).wf(),
            size == PAGE_SIZE,
        ensures
            final(self).wf(),
            final(self).free_list == old(self).free_list,
            final(self).is_initialized == old(self).is_initialized,
            ptr.0 + size <= old(self).data@.len() ==> {
                &&& r matches Ok(p)
                &&& p.reference.pointer == ptr
                &&& p.reference.size == size
                &&& p.wf()
                &&& (forall|j: int| 0 <= j < size ==> p.backing@[j] == 0)
                &&& !p.metadata.free
                &&& p.metadata.previous.0 == 0
                &&& p.metadata.next.0 == 0
                &&& p.metadata.page_type == PageType::Normal
                &&& final(self).data@.len() == old(self).data@.len()
                &&& (forall|j: int|
                    0 <= j < old(self).data@.len() && !(ptr.0 <= j < ptr.0 + size)
                        ==> final(self).data@[j] == old(self).data@[j])
                &&& final(self).data@.subrange(ptr.0 as int, ptr.0 + size) =~= p.backing@
            },
            ptr.0 + size > old(self).data@.len() ==> r == Err::<Page, NetworkError>(
                NetworkError::IllegalRead,
            ) && final(self).data == old(self).data,
    {
        if (ptr.0 as u64) + (size as u64) > self.data.len() as u64 {
            return Err(NetworkError::IllegalRead);
        }
        fill_bytes(&mut self.data, ptr.0 as usize, size as usize, 0);
        let mut backing: Vec<u8> = Vec::new();
        let mut i: usize = 0;
        while i < size as usize
            invariant
                i <= size,
                backing@.len() == i,
                forall|j: int| 0 <= j < i ==> backing@[j] == 0,
            decreases size as usize - i,
        {
            backing.push(0);
            i = i + 1;
        }
        proof {
            PagedFile::lemma_wf_preserved(*old(self), *self);
        }
        assert(final(self).data@.subrange(ptr.0 as int, ptr.0 + size) =~= backing@);
        Ok(
            Page {
                reference: PageReference { pointer: ptr, size },
                metadata: PageMetadata {
                    free: false,
                    previous: RawPageAddress(0),
                    next: RawPageAddress(0),
                    page_type: PageType::Normal,
                },
                backing,
            },
        )
    }
}

/// Reads one byte of the image.
fn self_read_byte(data: &Vec<u8>, at: usize) -> (r: u8)
    requires
        at < data@.len(),
    ensures
        r == data@[at as int],
{
    data[at]
}

/// Recycling: `free` pushes the page's address on the free list, and
/// `new_page` pops the newest entry; so after a free, the very next
/// `new_page` returns exactly the freed address, with a zeroed body.
pub proof fn lemma_free_then_new_page_recycles(l: Seq<RawPageAddress>, a: RawPageAddress)
    ensures
        l.push(a).len() > 0,
        l.push(a).last() == a,
        l.push(a).drop_last() =~= l,
{
}

} // verus!
