//! Slotted leaf page tests: record writes and reads, deletion, the free
//! chain, and the space accounting.

use overseer::errors::PageError;
use overseer::leaf::{FreeBlock, Record};
use overseer::meta::{PAGE_HEADER_RESERVED_BYTES, PAGE_SIZE};
use overseer::paged_file::PagedFile;
use overseer::page::Projection;
use overseer::values::Value;

#[test]
pub fn test_leaf_page_fill_fragmented() {
    let mut paged = PagedFile::open(Vec::new()).unwrap();
    let mut leaf = paged.new_page().unwrap().leaf().transact();

    let record_a = Record { value: Some(Value::Integer(339939393)) }.produce();
    let record_b = Record { value: Some(Value::Integer(332)) }.produce();
    let record_c = Record { value: Some(Value::Integer(83920320039092)) }.produce();
    let record_d = Record { value: Some(Value::Integer(83920320039092333)) }.produce();

    let total_a = record_a.total_serialized_size();
    let total_b = record_b.total_serialized_size();
    let total_c = record_c.total_serialized_size();
    let total_d = record_d.total_serialized_size();

    leaf.write_serialized_record(record_a).unwrap();
    leaf.write_serialized_record(record_b).unwrap();
    leaf.write_serialized_record(record_c).unwrap();

    leaf.simple_delete(1).unwrap();

    let fc = leaf.page.read_free_chain().unwrap();
    assert_eq!(fc.len(), 1);
    assert_eq!(fc.first().unwrap().size as usize, total_b);

    leaf.simple_delete(0).unwrap();

    let fc = leaf.page.read_free_chain().unwrap();
    assert_eq!(fc.len(), 1);
    assert_eq!(fc.first().unwrap().size as usize, total_b + total_a);

    leaf.simple_delete(0).unwrap();

    let fc = leaf.page.read_free_chain().unwrap();
    assert_eq!(fc.len(), 1);
    assert_eq!(fc.first().unwrap().size as usize, total_a + total_b + total_c);

    // This record is smaller than the hole, so the single block shrinks by
    // exactly its size.
    leaf.write_serialized_record(record_d).unwrap();

    let fc = leaf.page.read_free_chain().unwrap();
    assert_eq!(fc.len(), 1);
    assert_eq!(
        fc.first().unwrap().size as usize,
        (total_a + total_b + total_c) - total_d
    );
}

#[test]
pub fn test_leaf_page_deletion_basic() {
    let mut paged = PagedFile::open(Vec::new()).unwrap();
    let mut leaf = paged.new_page().unwrap().leaf().transact();

    leaf.write_record(Record { value: Some(Value::Integer(339939393)) }).unwrap();
    leaf.write_record(Record { value: Some(Value::Integer(332)) }).unwrap();
    leaf.write_record(Record { value: Some(Value::Integer(83920320039092)) }).unwrap();

    leaf.simple_delete(1).unwrap();

    assert_eq!(leaf.page.get_cell_count(), 2);
    assert_eq!(
        leaf.page.read_record(0).unwrap().unwrap().value,
        Some(Value::Integer(339939393))
    );
    assert_eq!(
        leaf.page.read_record(1).unwrap().unwrap().value,
        Some(Value::Integer(83920320039092))
    );
}

#[test]
pub fn test_leaf_page_basic_set_get_cell_count() {
    let mut paged = PagedFile::open(Vec::new()).unwrap();
    let leaf = paged.new_page().unwrap().leaf();
    assert_eq!(leaf.get_cell_count(), 0);

    let mut tx = leaf.transact();
    tx.set_cell_count(24);
    let leaf = tx.commit(&mut paged).unwrap();

    assert_eq!(leaf.get_cell_count(), 24);
}

#[test]
pub fn test_leaf_space_calculaion() {
    let mut paged = PagedFile::open(Vec::new()).unwrap();
    let mut leaf = paged.new_page().unwrap().leaf().transact();

    let base = PAGE_SIZE
        - PAGE_HEADER_RESERVED_BYTES as usize
        - Projection::<overseer::leaf::Leaf>::header_size();
    assert_eq!(leaf.page.get_free_space(), base);
    let record = Record { value: Some(Value::Integer(32)) }.produce();
    let record_space = record.total_serialized_size();
    leaf.write_serialized_record(record).unwrap();
    assert_eq!(leaf.page.get_free_space(), base - record_space - 2);
    leaf.simple_delete(0).unwrap();
    assert_eq!(leaf.page.get_free_space(), base - FreeBlock::size());
}

#[test]
pub fn test_leaf_page_write_overfit() {
    let mut paged = PagedFile::open(Vec::new()).unwrap();
    let mut leaf = paged.new_page().unwrap().leaf().transact();

    let massive_string = String::from_utf8(vec![23u8; PAGE_SIZE + 2]).unwrap();

    let result = leaf.write_record(Record { value: Some(Value::String(massive_string)) });
    if let Err(result) = result {
        assert_eq!(result.variant(), PageError::LeafPageFull.variant());
    } else {
        panic!("Should have errored on overflow but did not.");
    }
}

#[test]
pub fn test_leaf_page_write_record() {
    let mut paged = PagedFile::open(Vec::new()).unwrap();
    let mut leaf = paged.new_page().unwrap().leaf().transact();

    leaf.write_record(Record { value: Some(Value::Integer(32)) }).unwrap();
    leaf.write_record(Record { value: Some(Value::Integer(21)) }).unwrap();
    leaf.write_record(Record { value: Some(Value::String("hello andrew".to_string())) }).unwrap();

    assert_eq!(leaf.page.get_cell_count(), 3);

    assert_eq!(
        leaf.page.read_record(0).unwrap().unwrap().value,
        Some(Value::Integer(32))
    );
    assert_eq!(
        leaf.page.read_record(1).unwrap().unwrap().value,
        Some(Value::Integer(21))
    );
    assert_eq!(
        leaf.page.read_record(2).unwrap().unwrap().value,
        Some(Value::String("hello andrew".to_string()))
    );
}

#[test]
pub fn leaf_accounting_after_writes() {
    // The used space grows by exactly the record's on-page length plus its
    // directory slot; reading past the cell count yields nothing; deleting
    // a missing record is an error.
    let mut paged = PagedFile::open(Vec::new()).unwrap();
    let mut leaf = paged.new_page().unwrap().leaf().transact();

    let record = Record { value: Some(Value::String("watch-me".to_string())) }.produce();
    let total = record.total_serialized_size();
    let used_before = leaf.page.get_used_space();
    leaf.write_serialized_record(record).unwrap();
    assert_eq!(leaf.page.get_used_space(), used_before + total + 2);

    assert!(leaf.page.read_record(7).unwrap().is_none());
    assert_eq!(
        leaf.simple_delete(3).unwrap_err().variant(),
        PageError::NoRecordFound.variant()
    );

    // A deleted delivery reads back as an empty record too.
    let mut leaf2 = paged.new_page().unwrap().leaf().transact();
    leaf2.write_record(Record { value: None }).unwrap();
    assert_eq!(leaf2.page.read_record(0).unwrap().unwrap().value, None);
}
