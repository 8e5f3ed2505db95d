//! Paged-file and page tests: formatting, committal, freeing, recycling,
//! and chaining, all over the in-memory file image.

use overseer::errors::NetworkError;
use overseer::meta::{PageType, PAGE_SIZE, RESERVED_HEADER_SIZE};
use overseer::paged_file::PagedFile;

#[test]
pub fn page_types() {
    let mut paged = PagedFile::open(Vec::new()).unwrap();
    assert_eq!(paged.data.len() as u32, RESERVED_HEADER_SIZE);
    let page = paged.new_page().unwrap().normal();
    assert_eq!(page.page_type(), PageType::Normal);

    let mut tx = page.transact();
    tx.set_type(PageType::Dummy);
    assert_eq!(tx.page.page_type(), PageType::Dummy);
    let page = tx.commit(&mut paged).unwrap();

    let page = page.reload(&paged).unwrap();
    assert_eq!(page.page_type(), PageType::Dummy);
}

#[test]
pub fn checkout() {
    let mut paged = PagedFile::open(Vec::new()).unwrap();
    assert_eq!(paged.data.len() as u32, RESERVED_HEADER_SIZE);
    paged.new_page().unwrap();
    paged.new_page().unwrap();

    assert_eq!(
        paged.data.len(),
        RESERVED_HEADER_SIZE as usize + PAGE_SIZE + PAGE_SIZE
    );

    let mut tx = paged.acquire(0).unwrap().normal().transact();
    tx.write_body(0, &[1, 2, 3]);
    let page = tx.commit(&mut paged).unwrap();

    assert_eq!(&page.body()[..3], &[1, 2, 3]);

    let reopened = PagedFile::open(paged.data.clone()).unwrap();
    let page = reopened.acquire(0).unwrap().normal();
    assert_eq!(&page.body()[..3], &[1, 2, 3]);
}

#[test]
pub fn free_page() {
    let mut paged = PagedFile::open(Vec::new()).unwrap();
    paged.new_page().unwrap();
    assert_eq!(paged.free_pages(), 0);

    let mut page = paged.acquire(0).unwrap();
    assert!(!page.metadata.free);
    page.free(&mut paged).unwrap();
    assert!(page.metadata.free);
    assert_eq!(paged.free_pages(), 1);

    let mut paged = PagedFile::open(paged.data.clone()).unwrap();
    assert!(page.metadata.free);
    assert_eq!(paged.free_pages(), 1);

    // Freed pages are recycled: the freed address comes back, zeroed.
    let freed_at = page.start();
    let mut page = paged.new_page().unwrap();
    assert_eq!(paged.free_pages(), 0);
    assert_eq!(page.start(), freed_at);
    assert!(page.backing.iter().all(|b| *b == 0));

    page.free(&mut paged).unwrap();
    assert!(matches!(
        paged.acquire(0).err().unwrap(),
        NetworkError::PageFreedError
    ));
}

#[test]
pub fn page_chaining() {
    let mut paged = PagedFile::open(Vec::new()).unwrap();
    let mut page = paged.new_page().unwrap();

    assert_eq!(page.start().page_number(), 0);
    assert!(!page.has_next());
    assert!(page.metadata.previous.is_zero());

    let chain = page.get_next(&mut paged).unwrap();
    assert!(page.has_next());
    assert_eq!(
        page.get_next(&mut paged).unwrap().start().page_number(),
        chain.start().page_number()
    );
    assert_eq!(chain.metadata.previous.page_number(), 0);
    assert_eq!(page.metadata.next.page_number(), 1);

    let paged = PagedFile::open(paged.data.clone()).unwrap();
    let page_a = paged.acquire(0).unwrap();
    let page_b = paged.acquire(1).unwrap();
    assert_eq!(page_a.metadata.next.page_number(), 1);
    assert_eq!(page_b.metadata.previous.page_number(), 0);
}

#[test]
pub fn test_header_consistency() {
    // The header fields keep their places when the links change.
    let mut paged = PagedFile::open(Vec::new()).unwrap();
    let mut page = paged.new_page().unwrap();

    assert_eq!(page.get_type().unwrap(), PageType::Normal);
    page.set_next(&mut paged, 23).unwrap();
    assert_eq!(page.get_type().unwrap(), PageType::Normal);
    assert_eq!(
        page.metadata.next.as_u64(),
        RESERVED_HEADER_SIZE as u64 + 23 * PAGE_SIZE as u64
    );

    page.set_previous(&mut paged, 78).unwrap();
    assert_eq!(page.get_type().unwrap(), PageType::Normal);
    assert_eq!(
        page.metadata.next.as_u64(),
        RESERVED_HEADER_SIZE as u64 + 23 * PAGE_SIZE as u64
    );
    assert_eq!(
        page.metadata.previous.as_u64(),
        RESERVED_HEADER_SIZE as u64 + 78 * PAGE_SIZE as u64
    );
}

#[test]
pub fn test_open_page_committal() {
    let mut paged = PagedFile::open(Vec::new()).unwrap();
    let page = paged.new_page().unwrap().normal();

    assert_eq!(&page.body()[0..4], &[0, 0, 0, 0]);

    let mut open = page.transact();
    open.write_body(0, &[1, 2, 3, 4]);
    let page = open.commit(&mut paged).unwrap();
    assert_eq!(&page.body()[0..4], &[1, 2, 3, 4]);

    let page = page.reload(&paged).unwrap();
    assert_eq!(&page.body()[0..4], &[1, 2, 3, 4]);
}

#[test]
pub fn test_open_page_committal_metadata() {
    let mut paged = PagedFile::open(Vec::new()).unwrap();
    let page = paged.new_page().unwrap().normal();

    assert_eq!(&page.body()[0..4], &[0, 0, 0, 0]);

    let mut open = page.transact();
    open.write_body(0, &[1, 2, 3, 4]);
    open.set_previous(Some(24));
    let page = open.commit(&mut paged).unwrap();

    assert_eq!(&page.body()[0..4], &[1, 2, 3, 4]);
    assert_eq!(page.previous().page_number(), 24);

    let page = page.reload(&paged).unwrap();
    assert_eq!(&page.body()[0..4], &[1, 2, 3, 4]);
    assert_eq!(page.previous().page_number(), 24);
}

#[test]
pub fn open_refuses_wrong_magic() {
    let mut bytes = vec![0u8; RESERVED_HEADER_SIZE as usize];
    bytes[0] = 0x55;
    assert!(matches!(
        PagedFile::open(bytes).err().unwrap(),
        NetworkError::BadMagicByte
    ));

    let paged = PagedFile::open(Vec::new()).unwrap();
    assert!(matches!(
        paged.acquire(0).err().unwrap(),
        NetworkError::PageOutOfBounds
    ));
}

#[test]
pub fn page_type_byte_is_checked() {
    assert_eq!(PageType::from_u8(0).unwrap(), PageType::Normal);
    assert_eq!(PageType::from_u8(1).unwrap(), PageType::Dummy);
    assert!(matches!(
        PageType::from_u8(7).unwrap_err(),
        NetworkError::ErrorDecodingBoolean
    ));
    assert_eq!(PageType::Dummy.as_u8(), 1);
}

#[test]
pub fn raw_write_is_bounded() {
    // A write running past the page is refused and leaves the image alone.
    let mut paged = PagedFile::open(Vec::new()).unwrap();
    let page = paged.new_page().unwrap();
    let before = paged.data.clone();
    let err = page
        .raw_write(&mut paged, (PAGE_SIZE - 1) as u32, vec![1, 2, 3])
        .unwrap_err();
    assert!(matches!(err, NetworkError::IllegalRead));
    assert_eq!(paged.data, before);
}
