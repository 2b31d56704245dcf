use ldtray::{Error, Icon};

#[test]
fn accepts_matching_length() {
    let icon = Icon::from_rgba(2, 1, vec![0; 8]).unwrap();
    assert_eq!(icon.width(), 2);
    assert_eq!(icon.height(), 1);
    assert_eq!(icon.rgba().len(), 8);
}

#[test]
fn rejects_wrong_length() {
    assert!(Icon::from_rgba(2, 2, vec![0; 8]).is_err());
}

#[test]
fn rejects_empty() {
    assert!(Icon::from_rgba(0, 0, vec![]).is_err());
}

#[test]
fn rejects_zero_sized_with_bytes() {
    assert!(Icon::from_rgba(0, 5, vec![1, 2, 3, 4]).is_err());
}

#[test]
fn wrong_length_message_names_sizes() {
    match Icon::from_rgba(2, 2, vec![0; 8]) {
        Err(Error::Backend(msg)) => {
            assert_eq!(msg, "icon data is 8 bytes but 2x2 RGBA needs 16");
        }
        _ => panic!("expected a backend error"),
    }
}

#[test]
fn empty_message_names_sizes() {
    match Icon::from_rgba(0, 0, vec![]) {
        Err(Error::Backend(msg)) => {
            assert_eq!(msg, "icon data is 0 bytes but 0x0 RGBA needs 0");
        }
        _ => panic!("expected a backend error"),
    }
}

#[test]
fn keeps_pixels_in_order() {
    let icon = Icon::from_rgba(1, 2, vec![1, 2, 3, 4, 5, 6, 7, 8]).unwrap();
    assert_eq!(icon.rgba(), &[1, 2, 3, 4, 5, 6, 7, 8]);
}

#[test]
fn clone_is_pixel_for_pixel() {
    let icon = Icon::from_rgba(1, 1, vec![255, 0, 0, 255]).unwrap();
    let copy = icon.clone();
    assert_eq!(copy.width(), 1);
    assert_eq!(copy.height(), 1);
    assert_eq!(copy.rgba(), icon.rgba());
}

#[test]
fn large_icon_accepted() {
    let side = 16u32;
    let icon = Icon::from_rgba(side, side, vec![7; 16 * 16 * 4]).unwrap();
    assert_eq!(icon.rgba().len(), 1024);
}

#[test]
fn largest_sizes_are_rejected_with_exact_need() {
    match Icon::from_rgba(u32::MAX, u32::MAX, vec![]) {
        Err(Error::Backend(msg)) => {
            assert_eq!(
                msg,
                "icon data is 0 bytes but 4294967295x4294967295 RGBA needs 73786976260478468100"
            );
        }
        _ => panic!("expected a backend error"),
    }
}

#[test]
fn debug_text_omits_pixels() {
    let icon = Icon::from_rgba(2, 1, vec![0; 8]).unwrap();
    assert_eq!(icon.debug_text(), "Icon { width: 2, height: 1, bytes: 8 }");
}
