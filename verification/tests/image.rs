use impressions::image::region::headers::header::dos::field::Field as DosField;
use impressions::image::region::headers::header::optional::cursor::OptionalHeaderCursor;
use impressions::image::region::headers::header::cursor::HeaderCursor;
use impressions::image::region::headers::header::Header;
use impressions::image::region::headers::{Error as HeadersError, Headers, SectionCharacteristics};
use impressions::image::region::section::{Block, Error as SectionError};
use impressions::image::region::Region;
use impressions::image::{Error, Image, InsertError, Segment};
use impressions::memory::cursor::{Cursor, CursorError, Position};
use impressions::memory::sparse::SparseError;
use impressions::memory::{Address, Size, SizeError};
use impressions::wire::ReadError;

const SAMPLE_HEADERS_DATA: [u8; 696] = [
    77, 90, 144, 0, 3, 0, 0, 0, 4, 0, 0, 0, 255, 255, 0, 0, 184, 0, 0, 0, 0, 0, 0, 0, 64, 0, 0,
    0, 0, 0, 0, 0, 0, 0, 0, 0, 0, 0, 0, 0, 0, 0, 0, 0, 0, 0, 0, 0, 0, 0, 0, 0, 0, 0, 0, 0, 0,
    0, 0, 0, 32, 1, 0, 0, 14, 31, 186, 14, 0, 180, 9, 205, 33, 184, 1, 76, 205, 33, 84, 104,
    105, 115, 32, 112, 114, 111, 103, 114, 97, 109, 32, 99, 97, 110, 110, 111, 116, 32, 98,
    101, 32, 114, 117, 110, 32, 105, 110, 32, 68, 79, 83, 32, 109, 111, 100, 101, 32, 13, 13,
    10, 36, 0, 0, 0, 0, 0, 0, 0, 253, 10, 68, 56, 185, 107, 42, 107, 185, 107, 42, 107, 185,
    107, 42, 107, 194, 119, 38, 107, 183, 107, 42, 107, 214, 116, 33, 107, 178, 107, 42, 107,
    58, 119, 36, 107, 161, 107, 42, 107, 214, 116, 32, 107, 194, 107, 42, 107, 62, 119, 40,
    107, 191, 107, 42, 107, 185, 107, 42, 107, 191, 107, 42, 107, 219, 116, 57, 107, 183, 107,
    42, 107, 185, 107, 43, 107, 44, 107, 42, 107, 230, 73, 33, 107, 184, 107, 42, 107, 230, 73,
    32, 107, 184, 107, 42, 107, 70, 75, 46, 107, 254, 107, 42, 107, 81, 116, 33, 107, 182, 107,
    42, 107, 81, 116, 32, 107, 177, 107, 42, 107, 191, 72, 33, 107, 201, 107, 42, 107, 126,
    109, 44, 107, 184, 107, 42, 107, 82, 105, 99, 104, 185, 107, 42, 107, 0, 0, 0, 0, 0, 0, 0,
    0, 0, 0, 0, 0, 0, 0, 0, 0, 80, 69, 0, 0, 76, 1, 4, 0, 251, 139, 53, 60, 0, 0, 0, 0, 0, 0,
    0, 0, 224, 0, 15, 1, 11, 1, 6, 0, 0, 112, 29, 0, 0, 16, 9, 0, 0, 0, 0, 0, 32, 214, 28, 0,
    0, 16, 0, 0, 0, 128, 29, 0, 0, 0, 64, 0, 0, 16, 0, 0, 0, 16, 0, 0, 4, 0, 0, 0, 0, 0, 0, 0,
    4, 0, 0, 0, 0, 0, 0, 0, 0, 16, 33, 1, 0, 16, 0, 0, 0, 0, 0, 0, 2, 0, 0, 0, 0, 0, 16, 0, 0,
    16, 0, 0, 0, 0, 16, 0, 0, 16, 0, 0, 0, 0, 0, 0, 16, 0, 0, 0, 0, 0, 0, 0, 0, 0, 0, 0, 144,
    95, 30, 0, 220, 0, 0, 0, 0, 224, 32, 1, 208, 40, 0, 0, 0, 0, 0, 0, 0, 0, 0, 0, 0, 0, 0, 0,
    0, 0, 0, 0, 0, 0, 0, 0, 0, 0, 0, 0, 0, 0, 0, 0, 0, 0, 0, 0, 0, 0, 0, 0, 0, 0, 0, 0, 0, 0,
    0, 0, 0, 0, 0, 0, 0, 0, 0, 0, 0, 0, 0, 0, 0, 0, 0, 0, 0, 0, 0, 0, 0, 0, 0, 0, 0, 0, 0, 0,
    0, 128, 29, 0, 80, 3, 0, 0, 0, 0, 0, 0, 0, 0, 0, 0, 0, 0, 0, 0, 0, 0, 0, 0, 0, 0, 0, 0, 0,
    0, 0, 0, 46, 116, 101, 120, 116, 0, 0, 0, 81, 99, 29, 0, 0, 16, 0, 0, 0, 112, 29, 0, 0, 16,
    0, 0, 0, 0, 0, 0, 0, 0, 0, 0, 0, 0, 0, 0, 32, 0, 0, 96, 46, 114, 100, 97, 116, 97, 0, 0,
    192, 243, 0, 0, 0, 128, 29, 0, 0, 0, 1, 0, 0, 128, 29, 0, 0, 0, 0, 0, 0, 0, 0, 0, 0, 0, 0,
    0, 64, 0, 0, 64, 46, 100, 97, 116, 97, 0, 0, 0, 8, 86, 2, 1, 0, 128, 30, 0, 0, 224, 7, 0,
    0, 128, 30, 0, 0, 0, 0, 0, 0, 0, 0, 0, 0, 0, 0, 0, 64, 0, 0, 192, 46, 114, 115, 114, 99, 0,
    0, 0, 208, 40, 0, 0, 0, 224, 32, 1, 0, 48, 0, 0, 0, 96, 38, 0, 0, 0, 0, 0, 0, 0, 0, 0, 0,
    0, 0, 0, 64, 0, 0, 64,
    ];

/// The offset of the Optional header in the sample.
const OPTIONAL: usize = 288 + 24;

/// The offset of the first section header in the sample.
const FIRST_SECTION: usize = 536;

fn put_u16(bytes: &mut [u8], at: usize, value: u16) {
    bytes[at..at + 2].copy_from_slice(&value.to_le_bytes());
}

fn put_u32(bytes: &mut [u8], at: usize, value: u32) {
    bytes[at..at + 4].copy_from_slice(&value.to_le_bytes());
}

/// A small image: the sample headers cut down to one section header, with
/// headers of 0x400 bytes, an image of 0x2000 bytes, and a section of 0x20
/// bytes in memory at 0x1000 whose 16 bytes of raw data follow the headers.
fn small_image_file() -> Vec<u8> {
    let mut bytes = SAMPLE_HEADERS_DATA[..FIRST_SECTION + 40].to_vec();
    put_u16(&mut bytes, 288 + 6, 1);
    put_u32(&mut bytes, OPTIONAL + 56, 0x2000);
    put_u32(&mut bytes, OPTIONAL + 60, 0x400);
    put_u32(&mut bytes, FIRST_SECTION + 8, 0x20);
    put_u32(&mut bytes, FIRST_SECTION + 12, 0x1000);
    put_u32(&mut bytes, FIRST_SECTION + 16, 0x10);
    put_u32(&mut bytes, FIRST_SECTION + 20, 0x400);
    bytes.resize(0x400, 0);
    bytes.extend(1..=16u8);
    bytes
}

fn small_image() -> Image {
    Image::decode_guarded(&small_image_file()).unwrap().unwrap()
}

#[test]
fn headers_encode_gives_back_sample() {
    let (headers, consumed) = Headers::parse_guarded(&SAMPLE_HEADERS_DATA).unwrap().unwrap();
    assert_eq!(consumed, 696);
    let mut out = Vec::new();
    headers.encode(&mut out);
    assert_eq!(out, SAMPLE_HEADERS_DATA.to_vec());
}

#[test]
fn headers_identified_leaves_out_stub() {
    let (headers, _) = Headers::parse_guarded(&SAMPLE_HEADERS_DATA).unwrap().unwrap();
    assert_eq!(headers.stub().len(), 288 - 64);
    assert_eq!(headers.identified(), 696 - (288 - 64));
}

#[test]
fn headers_reject_bad_signature() {
    let mut bytes = SAMPLE_HEADERS_DATA.to_vec();
    bytes[288] = b'X';
    assert_eq!(Headers::parse_guarded(&bytes).unwrap().err(), Some(HeadersError::InvalidSignature));
}

#[test]
fn headers_reject_truncated_input() {
    let bytes = &SAMPLE_HEADERS_DATA[..300];
    assert_eq!(
        Headers::parse_guarded(bytes).unwrap().err(),
        Some(HeadersError::Decode(ReadError { requested: 4, available: 0 })),
    );
}

#[test]
fn headers_refuse_offset_into_dos_header() {
    let mut bytes = SAMPLE_HEADERS_DATA.to_vec();
    put_u32(&mut bytes, 60, 32);
    assert!(Headers::parse_guarded(&bytes).is_none());
}

#[test]
fn image_decode_places_headers_then_section() {
    let image = small_image();
    assert_eq!(image.address(), Address::new(0x00400000));
    assert_eq!(image.size().get(), 0x2000);
    assert_eq!(image.headers().size(), 0x400);
    let regions = image.regions();
    assert_eq!(regions.len(), 2);
    assert_eq!(regions.address_at(0), 0);
    assert!(regions.item_at(0).is_headers());
    assert_eq!(regions.address_at(1), 0x1000);
    assert!(regions.item_at(1).is_section());
    let sections = image.sections();
    assert_eq!(sections.len(), 1);
    assert_eq!(sections[0].raw(), (1..=16u8).collect::<Vec<u8>>().as_slice());
    assert_eq!(sections[0].header().name().as_str(), ".text");
    let space = image.address_space();
    assert_eq!(space.address(), Address::new(0x00400000));
    assert_eq!(space.size().get(), 0x2000);
}

#[test]
fn image_encode_gives_back_file() {
    let file = small_image_file();
    let image = Image::decode_guarded(&file).unwrap().unwrap();
    let mut out = vec![0xaa];
    assert_eq!(image.encode(&mut out), Ok(()));
    assert_eq!(out[0], 0xaa);
    assert_eq!(&out[1..], file.as_slice());
}

#[test]
fn image_decode_rejects_empty_image() {
    let mut file = small_image_file();
    put_u32(&mut file, OPTIONAL + 56, 0);
    assert_eq!(Image::decode_guarded(&file).unwrap().err(), Some(Error::Size(SizeError::Invalid(0))));
}

#[test]
fn image_decode_rejects_section_overlapping_headers() {
    let mut file = small_image_file();
    put_u32(&mut file, FIRST_SECTION + 12, 0x100);
    assert_eq!(
        Image::decode_guarded(&file).unwrap().err(),
        Some(Error::Sparse(SparseError::Overlapping { address: 0, size: 0x400 })),
    );
}

#[test]
fn image_decode_rejects_section_past_image_end() {
    let mut file = small_image_file();
    put_u32(&mut file, FIRST_SECTION + 12, 0x1ff0);
    assert_eq!(
        Image::decode_guarded(&file).unwrap().err(),
        Some(Error::Sparse(SparseError::OutOfBounds { address: 0x1ff0, size: 0x20 })),
    );
}

#[test]
fn image_decode_rejects_truncated_section() {
    let file = small_image_file();
    assert_eq!(
        Image::decode_guarded(&file[..0x408]).unwrap().err(),
        Some(Error::Section(SectionError::Decode(ReadError { requested: 16, available: 8 }))),
    );
}

#[test]
fn image_decode_rejects_section_without_size() {
    let mut file = small_image_file();
    put_u32(&mut file, FIRST_SECTION + 8, 0);
    assert_eq!(
        Image::decode_guarded(&file).unwrap().err(),
        Some(Error::Section(SectionError::Size(SizeError::Invalid(0)))),
    );
}

#[test]
fn image_decode_rejects_section_data_before_headers_end() {
    let mut file = small_image_file();
    put_u32(&mut file, FIRST_SECTION + 20, 0x200);
    assert!(Image::decode_guarded(&file).is_none());
}

#[test]
fn image_decode_rejects_bad_headers() {
    let mut file = small_image_file();
    file[0] = 0;
    assert!(matches!(Image::decode_guarded(&file), Some(Err(Error::Headers(_)))));
}

#[test]
fn image_insert_places_block_in_section() {
    let mut image = small_image();
    let before = image.identified();
    let block = Block::new(Size::new(8).unwrap());
    assert_eq!(image.insert(Address::new(0x00401004), block), Ok(()));
    assert_eq!(image.identified(), before + 8);
    let sections = image.sections();
    let blocks = sections[0].blocks();
    assert_eq!(blocks.len(), 1);
    assert_eq!(blocks.address_at(0), 4);
}

#[test]
fn image_insert_rejects_overlapping_block() {
    let mut image = small_image();
    let block = Block::new(Size::new(8).unwrap());
    assert_eq!(image.insert(Address::new(0x00401004), block), Ok(()));
    let other = Block::new(Size::new(4).unwrap());
    assert_eq!(
        image.insert(Address::new(0x00401008), other),
        Err(Error::Section(SectionError::Blocks(SparseError::Overlapping { address: 8, size: 4 }))),
    );
}

#[test]
fn image_insert_rejects_block_past_section_end() {
    let mut image = small_image();
    let block = Block::new(Size::new(8).unwrap());
    assert_eq!(
        image.insert(Address::new(0x0040101c), block),
        Err(Error::Section(SectionError::Blocks(SparseError::OutOfBounds { address: 0x1c, size: 8 }))),
    );
}

#[test]
fn image_insert_rejects_address_below_image() {
    let mut image = small_image();
    let block = Block::new(Size::new(8).unwrap());
    let result = image.insert(Address::new(0x003ff000), block);
    match result {
        Err(Error::Insert(InsertError::OutOfBounds(inner, outer))) => {
            assert_eq!(inner.address(), Address::new(0x003ff000));
            assert_eq!(inner.size().get(), 8);
            assert_eq!(outer.address(), Address::new(0x00400000));
            assert_eq!(outer.size().get(), 0x2000);
        },
        other => panic!("unexpected result {:?}", other),
    }
}

#[test]
fn image_insert_rejects_headers_and_gaps() {
    let mut image = small_image();
    let block = Block::new(Size::new(8).unwrap());
    assert_eq!(
        image.insert(Address::new(0x00400010), block),
        Err(Error::Insert(InsertError::Unsupported(Address::new(0x10)))),
    );
    assert_eq!(
        image.insert(Address::new(0x00400800), block),
        Err(Error::Insert(InsertError::Unsupported(Address::new(0x800)))),
    );
}

#[test]
fn image_cursor_moves_through_headers() {
    let image = small_image();
    let mut cursor = image.cursor();
    assert_eq!(cursor.position(), Position(0));
    assert_eq!(cursor.address(), Some(Address::new(0x00400000)));
    assert!(cursor.headers().is_some());
    assert!(cursor.header().unwrap().is_dos());
    assert_eq!(cursor.step(), Ok(Some(Position(2))));
    assert_eq!(cursor.next(), Ok(Some(Position(64))));
    assert!(cursor.header().is_none());
    let stub = cursor.unidentified().unwrap();
    assert_eq!(stub.address(), Address::new(64));
    assert_eq!(stub.size().get(), 288 - 64);
    assert_eq!(cursor.next(), Ok(Some(Position(288))));
    assert!(cursor.header().unwrap().is_signature());
    assert_eq!(cursor.next(), Ok(Some(Position(292))));
    assert!(cursor.header().unwrap().is_coff());
}

#[test]
fn image_cursor_inspects_fields() {
    let image = small_image();
    let cursor = image.cursor();
    let records = cursor.inspect();
    assert_eq!(records.len(), 1);
    let inspection = &records[0];
    assert_eq!(inspection.name, "e_magic");
    assert_eq!(inspection.bytes, vec![b'M', b'Z']);
    assert_eq!(inspection.space.address(), Address::new(0x00400000));
    let relative = cursor.relative(true);
    assert_eq!(relative.inspect()[0].space.address(), Address::new(0));
    assert_eq!(relative.address(), Some(Address::new(0)));
}

#[test]
fn image_cursor_crosses_gaps_and_sections() {
    let image = small_image();
    let mut cursor = image.cursor();
    assert_eq!(cursor.seek(Position(0x400)), Ok(()));
    assert!(cursor.region().is_none());
    assert!(cursor.inspect().is_empty());
    assert_eq!(cursor.next(), Ok(Some(Position(0x1000))));
    assert!(cursor.section().is_some());
    let records = cursor.inspect();
    assert_eq!(records.len(), 1);
    let inspection = &records[0];
    assert_eq!(inspection.name, "Unidentified");
    assert_eq!(inspection.bytes.len(), 0x20);
    assert_eq!(cursor.next(), Ok(Some(Position(0x1020))));
    assert_eq!(cursor.next(), Ok(None));
    assert_eq!(cursor.position(), Position(0x2000));
    assert_eq!(cursor.next(), Ok(None));
}

#[test]
fn image_cursor_finds_blocks() {
    let mut image = small_image();
    let block = Block::new(Size::new(8).unwrap());
    assert_eq!(image.insert(Address::new(0x00401004), block), Ok(()));
    let mut cursor = image.cursor();
    assert_eq!(cursor.seek_address(Address::new(0x00401006)), Ok(()));
    assert_eq!(cursor.position(), Position(0x1006));
    assert_eq!(cursor.address(), Some(Address::new(0x00401006)));
    assert_eq!(cursor.block(), Some(&block));
    let records = cursor.inspect();
    assert_eq!(records.len(), 1);
    let inspection = &records[0];
    assert_eq!(inspection.name, "Block");
    assert_eq!(inspection.space.address(), Address::new(0x00401004));
    assert_eq!(inspection.bytes, vec![5, 6, 7, 8, 9, 10, 11, 12]);
    assert_eq!(cursor.next(), Ok(Some(Position(0x100c))));
    assert!(cursor.block().is_none());
    let gap = cursor.unidentified().unwrap();
    assert_eq!(gap.address(), Address::new(0x100c));
    assert_eq!(gap.size().get(), 0x14);
}

#[test]
fn image_cursor_rejects_positions_outside() {
    let image = small_image();
    let mut cursor = image.cursor();
    assert_eq!(
        cursor.seek_address(Address::new(0x100)),
        Err(CursorError::OutOfBounds(Position(0x100), 0x2000)),
    );
    assert_eq!(cursor.seek(Position(0x2001)), Err(CursorError::OutOfBounds(Position(0x2001), 0x2000)));
    assert_eq!(cursor.advance(0x10), Ok(()));
    assert_eq!(cursor.position(), Position(0x10));
    assert_eq!(
        cursor.advance(0xffff_ffff),
        Err(CursorError::CannotAdvance(Position(0x10), 0xffff_ffff)),
    );
}

#[test]
fn optional_header_cursor_moves_between_parts() {
    let (headers, _) = Headers::parse_guarded(&SAMPLE_HEADERS_DATA).unwrap().unwrap();
    let mut cursor = OptionalHeaderCursor::new(headers.optional());
    assert_eq!(cursor.step(), Ok(Some(Position(2))));
    assert_eq!(cursor.next(), Ok(Some(Position(28))));
    assert_eq!(cursor.next(), Ok(Some(Position(96))));
    assert_eq!(cursor.step(), Ok(Some(Position(100))));
    let records = cursor.inspect();
    assert_eq!(records.len(), 2);
    assert_eq!(records[0].name, "Data Directories");
    assert_eq!(records[0].space.address(), Address::new(96));
    assert_eq!(records[0].space.size().get(), 128);
    let inspection = &records[1];
    assert_eq!(inspection.name, "size");
    assert_eq!(inspection.space.address(), Address::new(100));
    assert_eq!(inspection.bytes, vec![0, 0, 0, 0]);
    assert_eq!(cursor.seek(Position(224)), Ok(()));
    assert_eq!(cursor.next(), Ok(None));
    assert_eq!(cursor.seek(Position(225)), Err(CursorError::OutOfBounds(Position(225), 224)));
    assert_eq!(cursor.seek(Position(26)), Ok(()));
    assert_eq!(cursor.step(), Ok(Some(Position(28))));
    assert_eq!(cursor.position(), Position(28));
}

#[test]
fn dos_fields_are_found_by_offset() {
    assert_eq!(DosField::at(0), Some(DosField::Magic));
    assert_eq!(DosField::at(61), Some(DosField::PeHeadersOffset));
    assert_eq!(DosField::at(64), None);
    assert_eq!(DosField::PeHeadersOffset.address(), Address::new(60));
    assert_eq!(DosField::Reserved2.size().get(), 20);
}

#[test]
fn regions_tell_their_kind() {
    let image = small_image();
    let regions = image.regions();
    let headers = regions.item_at(0);
    assert!(headers.as_headers().is_some());
    assert!(headers.as_section().is_none());
    let section: &Region = regions.item_at(1);
    assert!(!section.is_headers());
}

#[test]
fn header_cursors_step_through_fields() {
    let (headers, _) = Headers::parse_guarded(&SAMPLE_HEADERS_DATA).unwrap().unwrap();
    let coff = Header::Coff(*headers.coff());
    let mut cursor = HeaderCursor::new(&coff);
    assert!(cursor.as_coff().is_some());
    assert!(cursor.as_dos().is_none());
    assert_eq!(cursor.step(), Ok(Some(Position(2))));
    let records = cursor.inspect();
    assert_eq!(records.len(), 1);
    let inspection = &records[0];
    assert_eq!(inspection.name, "number_of_sections");
    assert_eq!(inspection.bytes, vec![4, 0]);
    assert_eq!(cursor.seek(Position(18)), Ok(()));
    assert_eq!(cursor.next(), Ok(None));
    assert!(cursor.inspect().is_empty());

    let signature = Header::Signature;
    let mut cursor = HeaderCursor::new(&signature);
    assert_eq!(cursor.inspect()[0].bytes, vec![b'P', b'E', 0, 0]);
    assert_eq!(cursor.step(), Ok(None));
    assert_eq!(cursor.position(), Position(4));
}

#[test]
fn data_directories_answer_by_index() {
    let (headers, _) = Headers::parse_guarded(&SAMPLE_HEADERS_DATA).unwrap().unwrap();
    let directories = headers.optional().data_directories().unwrap();
    assert_eq!(directories.count(), 16);
    assert_eq!(directories.size().get(), 128);
    assert!(directories.export_table().is_none());
    assert_eq!(directories.entry(1).target_size(), 220);
    let mut cursor = directories.cursor();
    assert_eq!(cursor.seek(Position(12)), Ok(()));
    let records = cursor.inspect();
    assert_eq!(records.len(), 2);
    assert_eq!(records[0].name, "Data Directories");
    assert_eq!(records[0].space.address(), Address::new(0));
    assert_eq!(records[0].space.size().get(), 128);
    let inspection = &records[1];
    assert_eq!(inspection.name, "size");
    assert_eq!(inspection.space.address(), Address::new(12));
    assert_eq!(inspection.bytes, vec![220, 0, 0, 0]);
    assert_eq!(cursor.next(), Ok(Some(Position(16))));
}

#[test]
fn section_characteristics_show_permissions() {
    let (headers, _) = Headers::parse_guarded(&SAMPLE_HEADERS_DATA).unwrap().unwrap();
    assert_eq!(headers.sections()[0].characteristics().permissions(), "r-x");
    assert_eq!(headers.sections()[2].characteristics().permissions(), "rw-");
    assert_eq!(SectionCharacteristics::new(0).permissions(), "---");
    let parsed = SectionCharacteristics::parse(&[0x20, 0, 0, 0x60], 0).unwrap();
    assert!(parsed.code() && parsed.read() && parsed.execute() && !parsed.write());
}

#[test]
fn entry_point_is_relative_to_image_base() {
    let (headers, _) = Headers::parse_guarded(&SAMPLE_HEADERS_DATA).unwrap().unwrap();
    assert_eq!(headers.optional().entry_point(), Address::new(0x005cd620));
}

#[test]
fn image_segments_cover_regions_and_gaps() {
    let image = small_image();
    let segments = image.segments();
    let layout: Vec<(u32, u64, bool)> = segments
        .iter()
        .map(|(address, size, segment)| (*address, *size, matches!(segment, Segment::Occupied(_))))
        .collect();
    assert_eq!(layout, vec![(0, 0x400, true), (0x400, 0xc00, false), (0x1000, 0x20, true), (0x1020, 0xfe0, false)]);
}

#[test]
fn windows_fields_cursor_shows_structure_then_field() {
    let (headers, _) = Headers::parse_guarded(&SAMPLE_HEADERS_DATA).unwrap().unwrap();
    let windows = headers.optional().windows();
    let mut cursor = windows.cursor();
    assert_eq!(cursor.seek(Position(33)), Ok(()));
    let records = cursor.inspect();
    assert_eq!(records.len(), 2);
    assert_eq!(records[0].name, "Windows Fields");
    assert_eq!(records[0].space.address(), Address::new(0));
    assert_eq!(records[0].space.size().get(), 68);
    assert_eq!(records[0].bytes.len(), 68);
    assert_eq!(records[1].name, "size_of_headers");
    assert_eq!(records[1].space.address(), Address::new(32));
    assert_eq!(records[1].space.size().get(), 4);
    assert_eq!(records[1].bytes, vec![0, 16, 0, 0]);
    assert_eq!(cursor.seek(Position(68)), Ok(()));
    let records = cursor.inspect();
    assert_eq!(records.len(), 1);
    assert_eq!(records[0].name, "Windows Fields");
}

#[test]
fn optional_header_cursor_places_parts_within_header() {
    let (headers, _) = Headers::parse_guarded(&SAMPLE_HEADERS_DATA).unwrap().unwrap();
    let mut cursor = OptionalHeaderCursor::new(headers.optional());
    let records = cursor.inspect();
    assert_eq!(records.len(), 2);
    assert_eq!(records[0].name, "Standard Fields");
    assert_eq!(records[0].space.size().get(), 28);
    assert_eq!(records[1].space.address(), Address::new(0));
    assert_eq!(records[1].bytes, vec![11, 1]);
    assert_eq!(cursor.seek(Position(60)), Ok(()));
    let records = cursor.inspect();
    assert_eq!(records.len(), 2);
    assert_eq!(records[0].name, "Windows Fields");
    assert_eq!(records[0].space.address(), Address::new(28));
    assert_eq!(records[1].name, "size_of_headers");
    assert_eq!(records[1].space.address(), Address::new(60));
}

#[test]
fn structures_inspect_as_a_whole() {
    let (headers, _) = Headers::parse_guarded(&SAMPLE_HEADERS_DATA).unwrap().unwrap();
    let dos = headers.dos().inspect();
    assert_eq!(dos.name, "DOS Header");
    assert_eq!(dos.space.size().get(), 64);
    assert_eq!(dos.bytes, SAMPLE_HEADERS_DATA[0..64].to_vec());
    let coff = headers.coff().inspect();
    assert_eq!(coff.name, "COFF Header");
    assert_eq!(coff.bytes, SAMPLE_HEADERS_DATA[292..312].to_vec());
    let optional = headers.optional().inspect();
    assert_eq!(optional.name, "Optional Header");
    assert_eq!(optional.space.size().get(), 224);
    assert_eq!(optional.bytes, SAMPLE_HEADERS_DATA[312..536].to_vec());
    assert_eq!(headers.optional().standard().inspect().name, "Standard Fields");
    assert_eq!(headers.optional().windows().inspect().space.size().get(), 68);
    let directory = headers.optional().data_directories().unwrap().entry(1).inspect();
    assert_eq!(directory.name, "Data Directory");
    assert_eq!(directory.space.size().get(), 8);
    assert_eq!(headers.optional().data_directories().unwrap().entry(1).size().get(), 8);
    let section = headers.sections()[0].inspect();
    assert_eq!(section.name, "Section Header");
    assert_eq!(section.space.address(), Address::new(0));
    assert_eq!(section.bytes, SAMPLE_HEADERS_DATA[536..576].to_vec());
}

#[test]
fn decoded_image_places_parsed_headers_first() {
    let file = small_image_file();
    let image = small_image();
    let (headers, _) = Headers::parse_guarded(&file).unwrap().unwrap();
    assert_eq!(image.headers(), &headers);
    assert_eq!(image.regions().item_at(0).as_headers(), Some(&headers));
    assert_eq!(image.sections().len(), headers.sections().len());
    assert_eq!(image.regions().address_at(0), 0);
    assert_eq!(image.regions().address_at(1), headers.sections()[0].section_address().value());
    assert_eq!(image.sections()[0].header(), &headers.sections()[0]);
    assert_eq!(image.headers().optional().section_alignment(), 0x1000);
    assert_eq!(headers.dos().pe_headers_offset(), 288);
}
