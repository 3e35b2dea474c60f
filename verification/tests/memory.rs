use impressions::array_string::{ArrayString, ArrayStringError};
use impressions::image::region::headers::header::coff::field::Field as CoffField;
use impressions::image::region::headers::header::section::field::Field as SectionField;
use impressions::image::region::section::Block;
use impressions::memory::cursor::{Cursor, CursorError, Position, SimpleCursor};
use impressions::memory::sparse::{Sparse, SparseError};
use impressions::memory::{Address, AddressSpace, Size, SizeError, SpaceError};
use impressions::wire::{read_field, write_field, ReadError};

#[test]
fn sizes_must_fit_the_address_space() {
    assert_eq!(Size::new(0), Err(SizeError::Invalid(0)));
    assert_eq!(Size::new(0x1_0000_0000).unwrap().get(), 0x1_0000_0000);
    assert_eq!(Size::new(0x1_0000_0001), Err(SizeError::Invalid(0x1_0000_0001)));
}

#[test]
fn address_spaces_must_fit_the_address_space() {
    let size = Size::new(0x10).unwrap();
    assert_eq!(Address::new(0xffff_fff0).to_space(size).unwrap().size().get(), 0x10);
    assert_eq!(
        Address::new(0xffff_fff1).to_space(size),
        Err(SpaceError::Overflow(Address::new(0xffff_fff1), 0x10)),
    );
}

#[test]
fn address_arithmetic_is_checked() {
    assert_eq!(Address::new(5).checked_add(7), Some(Address::new(12)));
    assert_eq!(Address::new(0xffff_ffff).checked_add(1), None);
    assert_eq!(Address::new(5).checked_sub(7), None);
    assert_eq!(Address::new(7).checked_sub(5), Some(Address::new(2)));
}

#[test]
fn address_space_inclusion() {
    let outer = AddressSpace::new_valid(Address::new(10), Size::new(10).unwrap());
    let inner = AddressSpace::new_valid(Address::new(12), Size::new(8).unwrap());
    let past = AddressSpace::new_valid(Address::new(12), Size::new(9).unwrap());
    assert!(outer.includes(inner));
    assert!(!outer.includes(past));
}

#[test]
fn positions_move_within_the_address_space() {
    assert_eq!(Position::new(3).checked_add(4), Some(Position(7)));
    assert_eq!(Position(0xffff_ffff).checked_add(1), Some(Position(0x1_0000_0000)));
    assert_eq!(Position(0x1_0000_0000).checked_add(1), None);
    assert_eq!(Position(0x1_0000_0000).get_addressable(), None);
    assert_eq!(Position(12).get_addressable(), Some(12));
}

#[test]
fn simple_cursor_goes_to_the_end() {
    let mut cursor = SimpleCursor::new(Size::new(4).unwrap());
    assert_eq!(cursor.advance(2), Ok(()));
    assert_eq!(cursor.position(), Position(2));
    assert_eq!(cursor.step(), Ok(None));
    assert_eq!(cursor.position(), Position(4));
    assert_eq!(cursor.seek(Position(5)), Err(CursorError::OutOfBounds(Position(5), 4)));
}

#[test]
fn sparse_keeps_entries_in_order_and_apart() {
    let mut sparse: Sparse<Block> = Sparse::new(Size::new(100).unwrap());
    let block = |size: u64| Block::new(Size::new(size).unwrap());
    assert_eq!(sparse.insert(50, block(10)), Ok(()));
    assert_eq!(sparse.insert(10, block(10)), Ok(()));
    assert_eq!(sparse.insert(30, block(5)), Ok(()));
    assert_eq!(sparse.len(), 3);
    assert_eq!(sparse.address_at(0), 10);
    assert_eq!(sparse.address_at(1), 30);
    assert_eq!(sparse.address_at(2), 50);
    assert_eq!(sparse.insert(15, block(2)), Err(SparseError::Overlapping { address: 15, size: 2 }));
    assert_eq!(sparse.insert(25, block(6)), Err(SparseError::Overlapping { address: 25, size: 6 }));
    assert_eq!(sparse.insert(95, block(6)), Err(SparseError::OutOfBounds { address: 95, size: 6 }));
    assert_eq!(sparse.len(), 3);
    assert_eq!(sparse.find(34), Some(1));
    assert_eq!(sparse.find(35), None);
    assert_eq!(sparse.stop_after(35), 50);
    assert_eq!(sparse.stop_after(52), 60);
    assert_eq!(sparse.stop_after(70), 100);
    assert_eq!(sparse.identified(), 25);
    let (address, removed) = sparse.remove(1);
    assert_eq!(address, 30);
    assert_eq!(removed, block(5));
    assert_eq!(sparse.identified(), 20);
}

#[test]
fn fields_know_their_places() {
    assert_eq!(CoffField::at(2), Some(CoffField::NumberOfSections));
    assert_eq!(CoffField::at(20), None);
    assert_eq!(CoffField::Characteristics.position(), Position(18));
    assert_eq!(CoffField::TimeDateStamp.name(), "time_date_stamp");
    assert_eq!(CoffField::all().len(), 7);
    let space = SectionField::PointerToRawData.address_space();
    assert_eq!(space.address(), Address::new(20));
    assert_eq!(space.size().get(), 4);
}

#[test]
fn array_strings_stop_at_the_first_nul() {
    let data = *b"ab\0\0\0\0\0\0";
    let text = ArrayString::<8>::parse(&data, 0).unwrap();
    assert_eq!(text.as_str(), "ab");
    let mut out = Vec::new();
    text.encode(&mut out);
    assert_eq!(out, data.to_vec());
}

#[test]
fn array_strings_reject_invalid_text() {
    let data = [0xff, 0, 0, 0];
    assert_eq!(ArrayString::<4>::parse(&data, 0).err(), Some(ArrayStringError::InvalidUtf8));
    assert_eq!(
        ArrayString::<4>::parse(&data, 2).err(),
        Some(ArrayStringError::Read(ReadError { requested: 4, available: 2 })),
    );
}

#[test]
fn fields_read_back_what_was_written() {
    let mut out = Vec::new();
    write_field(&mut out, 0x1234_5678, 4);
    write_field(&mut out, 0xabcd, 2);
    write_field(&mut out, 0x7f, 1);
    assert_eq!(out, vec![0x78, 0x56, 0x34, 0x12, 0xcd, 0xab, 0x7f]);
    assert_eq!(read_field(&out, 0, 4), Ok(0x1234_5678));
    assert_eq!(read_field(&out, 4, 2), Ok(0xabcd));
    assert_eq!(read_field(&out, 6, 1), Ok(0x7f));
    assert_eq!(read_field(&out, 6, 2), Err(ReadError { requested: 2, available: 1 }));
    assert_eq!(read_field(&out, 7, 1), Err(ReadError { requested: 1, available: 0 }));
}
