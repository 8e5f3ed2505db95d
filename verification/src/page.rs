//! Pages of the storage file.
//!
//! A page is a fixed-size byte region of the file. Its first bytes are the
//! page header: the free byte, the previous and next page numbers as
//! little-endian 32-bit words, and the page type byte. A `Page` holds the
//! region in memory together with the metadata parsed from that header.
//!
//! A page is read through a `Projection` and mutated through a `Transact`,
//! which writes the whole page back on commit.

use vstd::prelude::*;
use vstd::bytes::{u32_from_le_bytes, u32_to_le_bytes, spec_u32_from_le_bytes, spec_u32_to_le_bytes, lemma_auto_spec_u32_to_from_le_bytes};
use vstd::slice::{slice_subrange, slice_to_vec};
use crate::buf::{splice_bytes, fill_bytes, spec_splice};
use crate::errors::NetworkError;
use crate::meta::{PageType, RawPageAddress, PAGE_SIZE, RESERVED_HEADER_SIZE, PAGE_HEADER_RESERVED_BYTES};
use crate::paged_file::PagedFile;

verus! {

/// A page that has not been loaded: where it starts and how long it is.
#[derive(Clone, Copy, PartialEq, Eq, Debug, Structural)]
pub struct PageReference {
    pub pointer: RawPageAddress,
    pub size: u32,
}

/// The metadata parsed from a page header.
pub struct PageMetadata {
    pub free: bool,
    pub previous: RawPageAddress,
    pub next: RawPageAddress,
    pub page_type: PageType,
}

/// A page loaded into memory.
pub struct Page {
    pub reference: PageReference,
    pub metadata: PageMetadata,
    pub backing: Vec<u8>,
}

/// The previous-page number stored in a page's bytes.
pub open spec fn spec_stored_prev(b: Seq<u8>) -> u32 {
    spec_u32_from_le_bytes(b.subrange(1, 5))
}

/// The next-page number stored in a page's bytes.
pub open spec fn spec_stored_next(b: Seq<u8>) -> u32 {
    spec_u32_from_le_bytes(b.subrange(5, 9))
}

/// The file address a stored page-number link points at.
pub open spec fn spec_link_address(n: u32) -> int {
    RESERVED_HEADER_SIZE + n * PAGE_SIZE
}

/// The in-memory address a stored link decodes to: a stored 0 means no
/// link and decodes to the zero address.
pub open spec fn spec_link_of_stored(n: u32) -> int {
    if n == 0 {
        0
    } else {
        spec_link_address(n)
    }
}

/// Whether the page region at `ptr` parses: it lies inside the image, both
/// link addresses fit the 32-bit space, and the type byte is known.
pub open spec fn spec_page_loadable(data: Seq<u8>, ptr: int, size: int) -> bool {
    let b = data.subrange(ptr, ptr + size);
    ptr + size <= data.len() && spec_link_of_stored(spec_stored_prev(b)) <= u32::MAX
        && spec_link_of_stored(spec_stored_next(b)) <= u32::MAX && b[9] <= 1
}

/// Linking a page by its number points back inside the 32-bit space: the
/// link address of a page's number is at most the page's own address.
pub proof fn lemma_link_of_page_number(p: RawPageAddress)
    requires
        p.0 == 0 || p.0 >= RESERVED_HEADER_SIZE,
    ensures
        spec_link_address(p.spec_page_number()) <= u32::MAX,
        spec_link_of_stored(p.spec_page_number()) <= u32::MAX,
{
    if p.0 == 0 {
        assert(spec_link_address(0) == RESERVED_HEADER_SIZE);
    } else {
        let n = ((p.0 - RESERVED_HEADER_SIZE) as u32) / (PAGE_SIZE as u32);
        assert(n * PAGE_SIZE <= p.0 - RESERVED_HEADER_SIZE) by (nonlinear_arith)
            requires
                n == ((p.0 - RESERVED_HEADER_SIZE) as u32) / (PAGE_SIZE as u32),
                p.0 >= RESERVED_HEADER_SIZE,
        ;
    }
}

impl PageReference {
    pub fn new(pointer: RawPageAddress, size: u32) -> (r: Self)
        ensures
            r.pointer == pointer && r.size == size,
    {
        Self { pointer, size }
    }

    /// Loads the referenced region and parses its page header. Fails when
    /// the region runs past the image, a link address leaves the 32-bit
    /// space, or the type byte is unknown.
    pub fn load(self, page_file: &PagedFile) -> (r: Result<Page, NetworkError>)
        requires
            page_file.wf(),
            self.size == PAGE_SIZE,
        ensures
            self.pointer.0 + self.size > page_file.data@.len() ==> r == Err::<
                Page,
                NetworkError,
            >(NetworkError::IoError),
            r matches Ok(p) ==> {
                let b = page_file.data@.subrange(
                    self.pointer.0 as int,
                    self.pointer.0 + self.size,
                );
                &&& self.pointer.0 + self.size <= page_file.data@.len()
                &&& p.reference == self
                &&& p.wf()
                &&& p.backing@ == b
                &&& p.metadata.free == (b[0] == 1)
                &&& p.metadata.previous.0 == spec_link_of_stored(spec_stored_prev(b))
                &&& p.metadata.next.0 == spec_link_of_stored(spec_stored_next(b))
                &&& p.metadata.page_type.tag() == b[9]
            },
            spec_page_loadable(page_file.data@, self.pointer.0 as int, self.size as int)
                ==> r is Ok,
    {
        if (self.pointer.0 as u64) + (self.size as u64) > page_file.data.len() as u64 {
            return Err(NetworkError::IoError);
        }
        let start = self.pointer.0 as usize;
        let backing = slice_to_vec(
            slice_subrange(page_file.data.as_slice(), start, start + self.size as usize),
        );
        let is_free = backing[0] == 1;
        let prev_stored = u32_from_le_bytes(slice_subrange(backing.as_slice(), 1, 5));
        let next_stored = u32_from_le_bytes(slice_subrange(backing.as_slice(), 5, 9));
        assert(backing@.subrange(1, 5) =~= page_file.data@.subrange(
            self.pointer.0 as int,
            self.pointer.0 + self.size,
        ).subrange(1, 5));
        assert(backing@.subrange(5, 9) =~= page_file.data@.subrange(
            self.pointer.0 as int,
            self.pointer.0 + self.size,
        ).subrange(5, 9));
        let prev64: u64 = if prev_stored == 0 {
            0
        } else {
            (prev_stored as u64) * (PAGE_SIZE as u64) + (RESERVED_HEADER_SIZE as u64)
        };
        let next64: u64 = if next_stored == 0 {
            0
        } else {
            (next_stored as u64) * (PAGE_SIZE as u64) + (RESERVED_HEADER_SIZE as u64)
        };
        if prev64 > u32::MAX as u64 || next64 > u32::MAX as u64 {
            return Err(NetworkError::IllegalRead);
        }
        let page_type = match PageType::from_u8(backing[9]) {
            Ok(t) => t,
            Err(e) => {
                return Err(e);
            },
        };
        Ok(
            Page {
                reference: self,
                metadata: PageMetadata {
                    free: is_free,
                    previous: RawPageAddress::new(prev64 as u32),
                    next: RawPageAddress::new(next64 as u32),
                    page_type,
                },
                backing,
            },
        )
    }

    /// Zeroes the referenced region and returns the fresh page.
    pub fn load_formatted(self, page_file: &mut PagedFile) -> (r: Result<Page, NetworkError>)
        requires
            old(page_file).wf(),
            self.size == PAGE_SIZE,
        ensures
            final(page_file).wf(),
            final(page_file).free_list == old(page_file).free_list,
            self.pointer.0 + self.size <= old(page_file).data@.len() ==> {
                &&& r matches Ok(p)
                &&& p.reference == self
                &&& p.wf()
                &&& (forall|j: int| 0 <= j < self.size ==> p.backing@[j] == 0)
                &&& !p.metadata.free
                &&& p.metadata.previous.0 == 0
                &&& p.metadata.next.0 == 0
                &&& p.metadata.page_type == PageType::Normal
                &&& final(page_file).data@.len() == old(page_file).data@.len()
                &&& (forall|j: int|
                    0 <= j < old(page_file).data@.len() && !(self.pointer.0 <= j < self.pointer.0
                        + self.size) ==> final(page_file).data@[j] == old(page_file).data@[j])
            },
            self.pointer.0 + self.size > old(page_file).data@.len() ==> r == Err::<
                Page,
                NetworkError,
            >(NetworkError::IllegalRead) && final(page_file).data == old(page_file).data,
    {
        page_file.reserve(self.pointer, self.size)
    }
}

impl Page {
    /// Well-formedness: the backing holds exactly one page.
    pub open spec fn wf(self) -> bool {
        self.backing@.len() == self.reference.size && self.reference.size == PAGE_SIZE
    }

    /// Where the page starts.
    pub fn start(&self) -> (r: RawPageAddress)
        ensures
            r == self.reference.pointer,
    {
        self.reference.pointer
    }

    /// The page's byte length.
    pub fn size(&self) -> (r: u32)
        ensures
            r == self.reference.size,
    {
        self.reference.size
    }

    /// The page's body length: its size less the page header.
    pub fn capacity(&self) -> (r: u32)
        requires
            self.reference.size >= PAGE_HEADER_RESERVED_BYTES,
        ensures
            r == self.reference.size - PAGE_HEADER_RESERVED_BYTES,
    {
        self.reference.size - PAGE_HEADER_RESERVED_BYTES
    }

    /// The address just past the page.
    pub fn end(&self) -> (r: RawPageAddress)
        requires
            self.reference.pointer.0 + self.reference.size <= u32::MAX,
        ensures
            r.0 == self.reference.pointer.0 + self.reference.size,
    {
        self.start().offset(self.size())
    }

    /// Whether the page names a next page.
    pub fn has_next(&self) -> (r: bool)
        ensures
            r == (self.metadata.next.0 != 0),
    {
        !self.metadata.next.is_zero()
    }

    /// The file address of a body position.
    pub fn get_write_ptr(&self, position: u32) -> (r: RawPageAddress)
        requires
            self.reference.pointer.0 + position + PAGE_HEADER_RESERVED_BYTES <= u32::MAX,
        ensures
            r.0 == self.reference.pointer.0 + position + PAGE_HEADER_RESERVED_BYTES,
    {
        self.start().offset(position).offset(PAGE_HEADER_RESERVED_BYTES)
    }

    /// Whether a write of `size` bytes at `position` stays inside the page.
    fn bound_check(&self, position: u32, size: u32) -> (r: Result<(), NetworkError>)
        ensures
            r is Ok <==> position + size <= self.reference.size,
            r is Err ==> r == Err::<(), NetworkError>(NetworkError::IllegalRead),
    {
        if position > self.reference.size || size > self.reference.size - position {
            return Err(NetworkError::IllegalRead);
        }
        Ok(())
    }

    /// Writes bytes into the file image at a page-relative position,
    /// header included. The in-memory backing is not touched; a reload
    /// sees the write.
    pub fn raw_write(&self, file: &mut PagedFile, position: u32, bytes: Vec<u8>) -> (r: Result<
        Vec<u8>,
        NetworkError,
    >)
        requires
            old(file).wf(),
            self.wf(),
            self.reference.pointer.0 + self.reference.size <= old(file).data@.len(),
        ensures
            final(file).wf(),
            final(file).free_list == old(file).free_list,
            final(file).data@.len() == old(file).data@.len(),
            position + bytes@.len() <= self.reference.size ==> r == Ok::<Vec<u8>, NetworkError>(
                bytes,
            ) && final(file).data@ == spec_splice(
                old(file).data@,
                self.reference.pointer.0 + position,
                bytes@,
            ),
            position + bytes@.len() > self.reference.size ==> r == Err::<Vec<u8>, NetworkError>(
                NetworkError::IllegalRead,
            ) && final(file).data == old(file).data,
    {
        if bytes.len() > self.reference.size as usize || position > self.reference.size {
            return Err(NetworkError::IllegalRead);
        }
        match self.bound_check(position, bytes.len() as u32) {
            Ok(..) => {},
            Err(e) => {
                return Err(e);
            },
        }
        splice_bytes(
            &mut file.data,
            (self.reference.pointer.0 as usize) + (position as usize),
            bytes.as_slice(),
        );
        proof {
            PagedFile::lemma_wf_preserved(*old(file), *file);
        }
        Ok(bytes)
    }

    /// Writes bytes into the file image at a body position, past the page
    /// header.
    pub fn write(&self, file: &mut PagedFile, position: u32, bytes: Vec<u8>) -> (r: Result<
        Vec<u8>,
        NetworkError,
    >)
        requires
            old(file).wf(),
            self.wf(),
            self.reference.pointer.0 + self.reference.size <= old(file).data@.len(),
            position + PAGE_HEADER_RESERVED_BYTES <= u32::MAX,
        ensures
            final(file).wf(),
            final(file).free_list == old(file).free_list,
            final(file).data@.len() == old(file).data@.len(),
            position + PAGE_HEADER_RESERVED_BYTES + bytes@.len() <= self.reference.size ==> r
                == Ok::<Vec<u8>, NetworkError>(bytes) && final(file).data@ == spec_splice(
                old(file).data@,
                self.reference.pointer.0 + position + PAGE_HEADER_RESERVED_BYTES,
                bytes@,
            ),
            position + PAGE_HEADER_RESERVED_BYTES + bytes@.len() > self.reference.size ==> r
                == Err::<Vec<u8>, NetworkError>(NetworkError::IllegalRead) && final(file).data
                == old(file).data,
    {
        self.raw_write(file, position + PAGE_HEADER_RESERVED_BYTES, bytes)
    }

    /// Marks the page free: sets its free byte in the image and pushes its
    /// address on the free list.
    pub fn free(&mut self, file: &mut PagedFile) -> (r: Result<(), NetworkError>)
        requires
            old(file).wf(),
            old(self).wf(),
            old(self).reference.pointer.0 >= RESERVED_HEADER_SIZE,
            ((old(self).reference.pointer.0 - RESERVED_HEADER_SIZE) as u32) % (PAGE_SIZE as u32) == 0,
            old(self).reference.pointer.0 + old(self).reference.size <= old(file).data@.len(),
        ensures
            r is Ok,
            final(self).reference == old(self).reference,
            final(self).backing == old(self).backing,
            final(self).metadata.free,
            final(self).metadata.previous == old(self).metadata.previous,
            final(self).metadata.next == old(self).metadata.next,
            final(self).metadata.page_type == old(self).metadata.page_type,
            final(file).wf(),
            final(file).data@ == spec_splice(
                old(file).data@,
                old(self).reference.pointer.0 as int,
                seq![1u8],
            ),
            final(file).free_list@ == old(file).free_list@.push(old(self).reference.pointer),
    {
        let mut marker: Vec<u8> = Vec::new();
        marker.push(1u8);
        match self.raw_write(file, 0, marker) {
            Ok(..) => {},
            Err(..) => {
                proof {
                    assert(false);
                }
            },
        }
        self.metadata.free = true;
        file.add_to_free_list(self.start());
        Ok(())
    }

    /// The page type stored in the page's bytes.
    pub fn get_type(&self) -> (r: Result<PageType, NetworkError>)
        requires
            self.wf(),
        ensures
            self.backing@[9] <= 1 ==> (r matches Ok(t) && t.tag() == self.backing@[9]),
            self.backing@[9] > 1 ==> r == Err::<PageType, NetworkError>(
                NetworkError::ErrorDecodingBoolean,
            ),
    {
        let ntype = self.backing[9];
        PageType::from_u8(ntype)
    }

    /// Links this page to a previous page: stores the page number in the
    /// image and caches the link address.
    pub fn set_previous(&mut self, file: &mut PagedFile, previous: u32) -> (r: Result<
        (),
        NetworkError,
    >)
        requires
            old(file).wf(),
            old(self).wf(),
            old(self).reference.pointer.0 + old(self).reference.size <= old(file).data@.len(),
            spec_link_of_stored(previous) <= u32::MAX,
        ensures
            r is Ok,
            final(file).wf(),
            final(file).free_list == old(file).free_list,
            final(file).data@ == spec_splice(
                old(file).data@,
                old(self).reference.pointer.0 + 1,
                spec_u32_to_le_bytes(previous),
            ),
            final(self).reference == old(self).reference,
            final(self).backing == old(self).backing,
            final(self).metadata.free == old(self).metadata.free,
            final(self).metadata.next == old(self).metadata.next,
            final(self).metadata.page_type == old(self).metadata.page_type,
            final(self).metadata.previous.0 == spec_link_of_stored(previous),
    {
        proof {
            lemma_auto_spec_u32_to_from_le_bytes();
        }
        let word = u32_to_le_bytes(previous);
        match self.raw_write(file, 1, word) {
            Ok(..) => {},
            Err(..) => {
                proof {
                    assert(false);
                }
            },
        }
        self.metadata.previous = if previous == 0 {
            RawPageAddress::zero()
        } else {
            RawPageAddress::new(RESERVED_HEADER_SIZE + previous * (PAGE_SIZE as u32))
        };
        Ok(())
    }

    /// Links this page to a next page: stores the page number in the image
    /// and caches the link address.
    pub fn set_next(&mut self, file: &mut PagedFile, next: u32) -> (r: Result<(), NetworkError>)
        requires
            old(file).wf(),
            old(self).wf(),
            old(self).reference.pointer.0 + old(self).reference.size <= old(file).data@.len(),
            spec_link_of_stored(next) <= u32::MAX,
        ensures
            r is Ok,
            final(file).wf(),
            final(file).free_list == old(file).free_list,
            final(file).data@ == spec_splice(
                old(file).data@,
                old(self).reference.pointer.0 + 5,
                spec_u32_to_le_bytes(next),
            ),
            final(self).reference == old(self).reference,
            final(self).backing == old(self).backing,
            final(self).metadata.free == old(self).metadata.free,
            final(self).metadata.previous == old(self).metadata.previous,
            final(self).metadata.page_type == old(self).metadata.page_type,
            final(self).metadata.next.0 == spec_link_of_stored(next),
    {
        proof {
            lemma_auto_spec_u32_to_from_le_bytes();
        }
        let word = u32_to_le_bytes(next);
        match self.raw_write(file, 5, word) {
            Ok(..) => {},
            Err(..) => {
                proof {
                    assert(false);
                }
            },
        }
        self.metadata.next = if next == 0 {
            RawPageAddress::zero()
        } else {
            RawPageAddress::new(RESERVED_HEADER_SIZE + next * (PAGE_SIZE as u32))
        };
        Ok(())
    }


    /// The page after this one: the linked next page when one is named,
    /// else a fresh page, linked in both directions.
    pub fn get_next(&mut self, file: &mut PagedFile) -> (r: Result<Page, NetworkError>)
        requires
            old(file).wf(),
            old(self).wf(),
            old(self).reference.pointer.0 + old(self).reference.size <= old(file).data@.len(),
            old(self).reference.pointer.0 == 0 || old(self).reference.pointer.0
                >= RESERVED_HEADER_SIZE,
            old(self).metadata.next.0 == 0 || old(self).metadata.next.0 >= RESERVED_HEADER_SIZE,
        ensures
            final(file).wf(),
            r matches Ok(p) ==> p.wf(),
            old(self).metadata.next.0 != 0 ==> final(file).data == old(file).data && final(file).free_list == old(file).free_list && final(self).metadata == old(self).metadata,
            old(self).metadata.next.0 != 0 ==> ({
                let pn = old(self).metadata.next.spec_page_number();
                &&& (pn >= old(file).spec_pages() ==> r == Err::<Page, NetworkError>(
                    NetworkError::PageOutOfBounds,
                ))
                &&& (r matches Ok(p) ==> p.reference.pointer.0 == RESERVED_HEADER_SIZE + pn
                    * PAGE_SIZE && !p.metadata.free)
                &&& (pn < old(file).spec_pages() && spec_page_loadable(
                    old(file).data@,
                    (RESERVED_HEADER_SIZE + pn * PAGE_SIZE) as int,
                    PAGE_SIZE as int,
                ) && old(file).data@[RESERVED_HEADER_SIZE + pn * PAGE_SIZE] != 1 ==> r is Ok)
            }),
            old(self).metadata.next.0 == 0 && (old(file).free_list@.len() > 0 || old(
                file,
            ).spec_pages() <= ((u32::MAX - RESERVED_HEADER_SIZE) as u32 / (PAGE_SIZE as u32)) - 1)
                ==> r is Ok,
            old(self).metadata.next.0 == 0 ==> (r matches Ok(p) ==> final(self).metadata.next.0
                == spec_link_of_stored(p.reference.pointer.spec_page_number())
                && p.metadata.previous.0 == spec_link_of_stored(
                old(self).reference.pointer.spec_page_number(),
            ) && !p.metadata.free),
    {
        if self.has_next() {
            file.acquire(self.metadata.next.page_number())
        } else {
            let mut o: Page = match file.new_page() {
                Ok(p) => p,
                Err(e) => {
                    return Err(e);
                },
            };
            proof {
                let op = o.reference.pointer.0;
                assert(op == 0 || op >= RESERVED_HEADER_SIZE) by {
                    if old(file).free_list@.len() > 0 {
                        assert(old(file).spec_free_entry_ok(old(file).free_list@.last()));
                    } else {
                        let ghost pages = old(file).spec_pages();
                        assert(op == RESERVED_HEADER_SIZE + pages * PAGE_SIZE);
                        assert(pages * PAGE_SIZE >= 0) by (nonlinear_arith);
                    }
                }
                lemma_link_of_page_number(o.reference.pointer);
                lemma_link_of_page_number(self.reference.pointer);
            }
            let o_number = o.start().page_number();
            let self_number = self.start().page_number();
            match o.set_previous(file, self_number) {
                Ok(..) => {},
                Err(..) => {
                    return Err(NetworkError::IllegalRead);
                },
            }
            match self.set_next(file, o_number) {
                Ok(..) => {},
                Err(..) => {
                    return Err(NetworkError::IllegalRead);
                },
            }
            Ok(o)
        }
    }

    /// Reloads the page from the image.
    pub fn reload(self, page_file: &PagedFile) -> (r: Result<Page, NetworkError>)
        requires
            page_file.wf(),
            self.reference.size == PAGE_SIZE,
        ensures
            r matches Ok(p) ==> p.wf() && p.reference == self.reference && p.backing@
                == page_file.data@.subrange(
                self.reference.pointer.0 as int,
                self.reference.pointer.0 + self.reference.size,
            ),
    {
        self.reference.load(page_file)
    }

    /// Views the page through a typed projection.
    pub fn project<P>(self) -> (r: Projection<P>)
        ensures
            r.page == self,
    {
        Projection { page: self, projection: core::marker::PhantomData }
    }

    /// Views the page as a plain page.
    pub fn normal(self) -> (r: Projection<()>)
        ensures
            r.page == self,
    {
        self.project()
    }

    /// Views the page as a slotted leaf page.
    pub fn leaf(self) -> (r: Projection<crate::leaf::Leaf>)
        ensures
            r.page == self,
    {
        self.project()
    }
}

/// A read view of a page.
#[verifier::reject_recursive_types(P)]
pub struct Projection<P> {
    pub page: Page,
    pub projection: core::marker::PhantomData<P>,
}

/// A write view of a page; `commit` writes it back to the file image.
#[verifier::reject_recursive_types(K)]
pub struct Transact<K> {
    pub page: Projection<K>,
}

impl<P> Projection<P> {
    pub open spec fn wf(self) -> bool {
        self.page.wf()
    }

    /// Starts a transaction on this view.
    pub fn transact(self) -> (r: Transact<P>)
        ensures
            r.page == self,
    {
        Transact { page: self }
    }

    /// Reloads the view from the image.
    pub fn reload(self, file: &PagedFile) -> (r: Result<Self, NetworkError>)
        requires
            file.wf(),
            self.page.reference.size == PAGE_SIZE,
        ensures
            r matches Ok(p) ==> p.wf() && p.page.reference == self.page.reference && p.page.backing@
                == file.data@.subrange(
                self.page.reference.pointer.0 as int,
                self.page.reference.pointer.0 + self.page.reference.size,
            ),
    {
        match self.page.reference.load(file) {
            Ok(page) => Ok(Self { page, projection: core::marker::PhantomData }),
            Err(e) => Err(e),
        }
    }

    /// The cached previous-page link.
    pub fn previous(&self) -> (r: RawPageAddress)
        ensures
            r == self.page.metadata.previous,
    {
        self.page.metadata.previous
    }

    /// The cached next-page link.
    pub fn next(&self) -> (r: RawPageAddress)
        ensures
            r == self.page.metadata.next,
    {
        self.page.metadata.next
    }

    /// Whether the page is marked free.
    pub fn is_free(&self) -> (r: bool)
        ensures
            r == self.page.metadata.free,
    {
        self.page.metadata.free
    }

    /// The page's byte length.
    pub fn size(&self) -> (r: usize)
        ensures
            r == self.page.reference.size,
    {
        self.page.reference.size as usize
    }

    /// The page's body length.
    pub fn capacity(&self) -> (r: usize)
        requires
            self.page.reference.size >= PAGE_HEADER_RESERVED_BYTES,
        ensures
            r == self.page.reference.size - PAGE_HEADER_RESERVED_BYTES,
    {
        self.size() - PAGE_HEADER_RESERVED_BYTES as usize
    }

    /// The cached page type.
    pub fn page_type(&self) -> (r: PageType)
        ensures
            r == self.page.metadata.page_type,
    {
        self.page.metadata.page_type
    }

    /// The page body: the bytes past the page header.
    pub fn body(&self) -> (r: &[u8])
        requires
            self.wf(),
        ensures
            r@ == self.page.backing@.skip(PAGE_HEADER_RESERVED_BYTES as int),
    {
        slice_subrange(
            self.page.backing.as_slice(),
            PAGE_HEADER_RESERVED_BYTES as usize,
            self.page.backing.len(),
        )
    }
}

impl<K> Transact<K> {
    pub open spec fn wf(self) -> bool {
        self.page.wf()
    }

    /// Writes the page back into the file image and returns the read view.
    pub fn commit(self, file: &mut PagedFile) -> (r: Result<Projection<K>, NetworkError>)
        requires
            old(file).wf(),
            self.page.page.wf(),
            self.page.page.reference.pointer.0 + self.page.page.reference.size <= old(
                file,
            ).data@.len(),
        ensures
            final(file).wf(),
            final(file).free_list == old(file).free_list,
            final(file).data@ == spec_splice(
                old(file).data@,
                self.page.page.reference.pointer.0 as int,
                self.page.page.backing@,
            ),
            r matches Ok(p) && p == self.page,
    {
        splice_bytes(
            &mut file.data,
            self.page.page.reference.pointer.0 as usize,
            self.page.page.backing.as_slice(),
        );
        proof {
            PagedFile::lemma_wf_preserved(*old(file), *file);
        }
        Ok(self.page)
    }

    /// Sets or clears the free byte.
    pub fn set_free(&mut self, is_free: bool)
        requires
            old(self).wf(),
        ensures
            final(self).wf(),
            final(self).page.page.reference == old(self).page.page.reference,
            final(self).page.page.backing@ == old(self).page.page.backing@.update(
                0,
                if is_free {
                    1u8
                } else {
                    0u8
                },
            ),
            final(self).page.page.metadata.free == is_free,
            final(self).page.page.metadata.previous == old(self).page.page.metadata.previous,
            final(self).page.page.metadata.next == old(self).page.page.metadata.next,
            final(self).page.page.metadata.page_type == old(self).page.page.metadata.page_type,
    {
        if is_free {
            self.page.page.backing.set(0, 1);
        } else {
            self.page.page.backing.set(0, 0);
        }
        self.page.page.metadata.free = is_free;
    }

    /// Stores a previous-page link, or clears it.
    pub fn set_previous(&mut self, previous: Option<u32>)
        requires
            old(self).wf(),
            previous matches Some(n) ==> spec_link_of_stored(n) <= u32::MAX,
        ensures
            final(self).wf(),
            final(self).page.page.reference == old(self).page.page.reference,
            final(self).page.page.metadata.free == old(self).page.page.metadata.free,
            final(self).page.page.metadata.next == old(self).page.page.metadata.next,
            final(self).page.page.metadata.page_type == old(self).page.page.metadata.page_type,
            match previous {
                Option::Some(n) => final(self).page.page.backing@ == spec_splice(
                    old(self).page.page.backing@,
                    1,
                    spec_u32_to_le_bytes(n),
                ) && final(self).page.page.metadata.previous.0 == spec_link_of_stored(n),
                Option::None => final(self).page.page.backing@ == spec_splice(
                    old(self).page.page.backing@,
                    1,
                    spec_u32_to_le_bytes(0),
                ) && final(self).page.page.metadata.previous.0 == 0,
            },
    {
        proof {
            lemma_auto_spec_u32_to_from_le_bytes();
        }
        match previous {
            Some(n) => {
                let word = u32_to_le_bytes(n);
                splice_bytes(&mut self.page.page.backing, 1, word.as_slice());
                self.page.page.metadata.previous = if n == 0 {
                    RawPageAddress::zero()
                } else {
                    RawPageAddress::new(RESERVED_HEADER_SIZE + n * (PAGE_SIZE as u32))
                };
            },
            None => {
                let word = u32_to_le_bytes(0);
                splice_bytes(&mut self.page.page.backing, 1, word.as_slice());
                self.page.page.metadata.previous = RawPageAddress::zero();
            },
        }
    }

    /// Stores a next-page link, or clears it.
    pub fn set_next(&mut self, next: Option<u32>)
        requires
            old(self).wf(),
            next matches Some(n) ==> spec_link_of_stored(n) <= u32::MAX,
        ensures
            final(self).wf(),
            final(self).page.page.reference == old(self).page.page.reference,
            final(self).page.page.metadata.free == old(self).page.page.metadata.free,
            final(self).page.page.metadata.previous == old(self).page.page.metadata.previous,
            final(self).page.page.metadata.page_type == old(self).page.page.metadata.page_type,
            match next {
                Option::Some(n) => final(self).page.page.backing@ == spec_splice(
                    old(self).page.page.backing@,
                    5,
                    spec_u32_to_le_bytes(n),
                ) && final(self).page.page.metadata.next.0 == spec_link_of_stored(n),
                Option::None => final(self).page.page.backing@ == spec_splice(
                    old(self).page.page.backing@,
                    5,
                    spec_u32_to_le_bytes(0),
                ) && final(self).page.page.metadata.next.0 == 0,
            },
    {
        proof {
            lemma_auto_spec_u32_to_from_le_bytes();
        }
        match next {
            Some(n) => {
                let word = u32_to_le_bytes(n);
                splice_bytes(&mut self.page.page.backing, 5, word.as_slice());
                self.page.page.metadata.next = if n == 0 {
                    RawPageAddress::zero()
                } else {
                    RawPageAddress::new(RESERVED_HEADER_SIZE + n * (PAGE_SIZE as u32))
                };
            },
            None => {
                let word = u32_to_le_bytes(0);
                splice_bytes(&mut self.page.page.backing, 5, word.as_slice());
                self.page.page.metadata.next = RawPageAddress::zero();
            },
        }
    }

    /// Stores the page type byte.
    pub fn set_type(&mut self, ptype: PageType)
        requires
            old(self).wf(),
        ensures
            final(self).wf(),
            final(self).page.page.reference == old(self).page.page.reference,
            final(self).page.page.backing@ == old(self).page.page.backing@.update(
                9,
                ptype.tag(),
            ),
            final(self).page.page.metadata.page_type == ptype,
            final(self).page.page.metadata.free == old(self).page.page.metadata.free,
            final(self).page.page.metadata.previous == old(self).page.page.metadata.previous,
            final(self).page.page.metadata.next == old(self).page.page.metadata.next,
    {
        self.page.page.metadata.page_type = ptype;
        let b = ptype.as_u8();
        self.page.page.backing.set(9, b);
    }

    /// Blanks the page: zeroes every byte and clears the cached links and
    /// free flag.
    pub fn format(&mut self)
        requires
            old(self).wf(),
        ensures
            final(self).wf(),
            final(self).page.page.reference == old(self).page.page.reference,
            final(self).page.page.backing@.len() == old(self).page.page.backing@.len(),
            forall|j: int|
                0 <= j < final(self).page.page.backing@.len()
                    ==> final(self).page.page.backing@[j] == 0,
            !final(self).page.page.metadata.free,
            final(self).page.page.metadata.previous.0 == 0,
            final(self).page.page.metadata.next.0 == 0,
            final(self).page.page.metadata.page_type == old(self).page.page.metadata.page_type,
    {
        let n = self.page.page.backing.len();
        fill_bytes(&mut self.page.page.backing, 0, n, 0);
        self.page.page.metadata.free = false;
        self.page.page.metadata.previous = RawPageAddress::zero();
        self.page.page.metadata.next = RawPageAddress::zero();
    }

    /// The page body: the bytes past the page header.
    pub fn body(&self) -> (r: &[u8])
        requires
            self.wf(),
        ensures
            r@ == self.page.page.backing@.skip(PAGE_HEADER_RESERVED_BYTES as int),
    {
        self.page.body()
    }

    /// Writes bytes at a body position.
    pub fn write_body(&mut self, at: usize, bytes: &[u8])
        requires
            old(self).wf(),
            PAGE_HEADER_RESERVED_BYTES + at + bytes@.len() <= old(self).page.page.backing@.len(),
        ensures
            final(self).wf(),
            final(self).page.page.reference == old(self).page.page.reference,
            final(self).page.page.metadata == old(self).page.page.metadata,
            final(self).page.page.backing@ == spec_splice(
                old(self).page.page.backing@,
                PAGE_HEADER_RESERVED_BYTES + at,
                bytes@,
            ),
    {
        splice_bytes(
            &mut self.page.page.backing,
            PAGE_HEADER_RESERVED_BYTES as usize + at,
            bytes,
        );
    }
}

} // verus!
