use impressions::image::Padding;
use impressions::memory::{Address, Size, SliceError};

#[test]
fn slice_preserves_padding_value() {
    let padding = Padding::new(Size::new(10).unwrap(), 0xcc);
    let slice = padding
        .slice(Address::new(3).to_space(Size::new(4).unwrap()).unwrap())
        .unwrap();

    assert_eq!(slice.size().get(), 4);
    assert_eq!(slice.value(), 0xcc);
}

#[test]
fn slice_rejects_address_at_exclusive_end() {
    let padding = Padding::new(Size::new(10).unwrap(), 0xcc);
    let address_space = Address::new(10).to_space(Size::new(1).unwrap()).unwrap();

    assert_eq!(
        padding.slice(address_space),
        Err(SliceError::OutOfBounds(address_space, padding.address_space())),
    );
}

#[test]
fn slice_rejects_range_that_extends_past_end() {
    let padding = Padding::new(Size::new(10).unwrap(), 0xcc);
    let address_space = Address::new(8).to_space(Size::new(3).unwrap()).unwrap();

    assert_eq!(
        padding.slice(address_space),
        Err(SliceError::OutOfBounds(address_space, padding.address_space())),
    );
}
