use holochain_core::allocation::{code_from_rank, SinglePageAllocation, SinglePageStack};
use holochain_core::get_links::HcApiReturnCode;

#[test]
fn allocation_must_fit_the_page() {
    let allocation = SinglePageAllocation::new(3, 5).expect("the region fits");
    assert_eq!(3, allocation.offset());
    assert_eq!(5, allocation.length());
    assert_eq!(
        Err(HcApiReturnCode::Error),
        SinglePageAllocation::new(3, 0)
    );
    assert_eq!(
        Err(HcApiReturnCode::ErrorPageOverflow),
        SinglePageAllocation::new(65535, 1)
    );
    assert!(SinglePageAllocation::new(65534, 1).is_ok());
    assert!(SinglePageAllocation::new(0, 65535).is_ok());
    assert_eq!(
        Err(HcApiReturnCode::ErrorPageOverflow),
        SinglePageAllocation::new(1, 65535)
    );
}

#[test]
fn allocation_encodes_offset_above_length() {
    let allocation = SinglePageAllocation::new(3, 5).expect("the region fits");
    assert_eq!(3 * 65536 + 5, allocation.encode());
    let first = SinglePageAllocation::new(0, 1).expect("the region fits");
    assert_eq!(1, first.encode());
    let last = SinglePageAllocation::new(65534, 1).expect("the region fits");
    assert_eq!(0xfffe_0001, last.encode());
}

#[test]
fn allocation_decodes_what_was_encoded() {
    for (offset, length) in [(0u16, 1u16), (3, 5), (65534, 1), (0, 65535), (100, 60000)] {
        let allocation = SinglePageAllocation::new(offset, length).expect("the region fits");
        assert_eq!(
            Ok(allocation),
            SinglePageAllocation::decode(allocation.encode())
        );
    }
}

#[test]
fn numbers_of_codes_decode_to_the_codes() {
    for code in [
        HcApiReturnCode::Success,
        HcApiReturnCode::Error,
        HcApiReturnCode::ErrorSerdeJson,
        HcApiReturnCode::ErrorPageOverflow,
        HcApiReturnCode::ErrorActionResult,
    ] {
        assert_eq!(Err(code), SinglePageAllocation::decode(code.code() as u32));
    }
    assert_eq!(
        Err(HcApiReturnCode::Error),
        SinglePageAllocation::decode(9 * 65536)
    );
    assert_eq!(
        Err(HcApiReturnCode::ErrorPageOverflow),
        SinglePageAllocation::decode(65535 * 65536 + 1)
    );
    assert_eq!(HcApiReturnCode::ErrorSerdeJson, code_from_rank(2));
    assert_eq!(HcApiReturnCode::Error, code_from_rank(77));
}

#[test]
fn stack_hands_out_the_page_from_the_bottom() {
    let mut stack = SinglePageStack::new();
    assert_eq!(0, stack.top());
    let first = stack.allocate(10).expect("the page has room");
    assert_eq!((0, 10), (first.offset(), first.length()));
    let second = stack.allocate(20).expect("the page has room");
    assert_eq!((10, 20), (second.offset(), second.length()));
    assert_eq!(30, stack.top());

    assert_eq!(Err(HcApiReturnCode::Error), stack.allocate(0));
    assert_eq!(
        Err(HcApiReturnCode::ErrorPageOverflow),
        stack.allocate(65535)
    );
    assert_eq!(30, stack.top());
    let rest = stack.allocate(65505).expect("the page has room");
    assert_eq!((30, 65505), (rest.offset(), rest.length()));
    assert_eq!(65535, stack.top());
    assert_eq!(Err(HcApiReturnCode::ErrorPageOverflow), stack.allocate(1));
}

#[test]
fn stack_takes_room_for_texts() {
    let mut stack = SinglePageStack::new();
    let first = stack.allocate_bytes(7).expect("the page has room");
    assert_eq!((0, 7), (first.offset(), first.length()));
    assert_eq!(Err(HcApiReturnCode::Error), stack.allocate_bytes(0));
    assert_eq!(
        Err(HcApiReturnCode::ErrorPageOverflow),
        stack.allocate_bytes(65536)
    );
    assert_eq!(
        Err(HcApiReturnCode::ErrorPageOverflow),
        stack.allocate_bytes(65529)
    );
    assert_eq!(7, stack.top());
    assert!(stack.allocate_bytes(65528).is_ok());
}
