use kyber_ntt::flash::{
    erase_check, erase_words, get_address, write_check, write_halfwords, FlashError, FLASH_BASE,
    PAGES, PAGE_SIZE,
};

#[test]
fn flash_layout() {
    assert_eq!(FLASH_BASE, 0x0800_0000);
    assert_eq!(PAGE_SIZE, 2048);
    assert_eq!(PAGES, 128);
}

#[test]
fn address_of_first_page() {
    assert_eq!(get_address(0, 0), 0x0800_0000);
    assert_eq!(get_address(0, 4), 0x0800_0004);
}

#[test]
fn address_of_page_112() {
    assert_eq!(get_address(112, 0), 0x0803_8000);
    assert_eq!(get_address(112, 0x7ff), 0x0803_87ff);
}

#[test]
fn address_of_last_page() {
    assert_eq!(get_address(127, 0), 0x0803_f800);
}

#[test]
fn erase_walks_over_words() {
    assert_eq!(erase_words(0), 0);
    assert_eq!(erase_words(3), 0);
    assert_eq!(erase_words(4), 1);
    assert_eq!(erase_words(2048), 512);
    assert_eq!(erase_words(usize::MAX), 0);
    assert_eq!(erase_words(isize::MAX as usize), (isize::MAX / 4) as usize);
}

#[test]
fn write_programs_half_words() {
    assert_eq!(write_halfwords(0), 0);
    assert_eq!(write_halfwords(4), 2);
    assert_eq!(write_halfwords(512), 256);
}

#[test]
fn erase_fails_on_write_protection() {
    assert!(erase_check(0x20, false).is_ok());
    let e = erase_check(0x0001_0010, true).unwrap_err();
    assert_eq!(e.status(), 0x0010);
}

#[test]
fn write_fails_on_either_error() {
    assert!(write_check(0x20, false, false).is_ok());
    assert_eq!(write_check(0x14, true, true).unwrap_err().status(), 0x14);
    assert_eq!(write_check(0x10, true, false).unwrap_err().status(), 0x10);
    assert_eq!(write_check(0xffff_0004, false, true).unwrap_err().status(), 0x0004);
}

#[test]
fn flash_error_holds_the_status() {
    let e = FlashError::new(0xbeef);
    assert_eq!(e.status(), 0xbeef);
    let copy = e.clone();
    assert_eq!(copy.status(), 0xbeef);
    assert_eq!(format!("{:?}", e), "FlashError { status: 48879 }");
}
