use https_redirect::text::{replace_all_exec, u16_to_decimal};

#[test]
fn decimal_of_ports() {
    assert_eq!(u16_to_decimal(0), "0");
    assert_eq!(u16_to_decimal(7), "7");
    assert_eq!(u16_to_decimal(80), "80");
    assert_eq!(u16_to_decimal(443), "443");
    assert_eq!(u16_to_decimal(65535), "65535");
}

#[test]
fn replace_is_left_to_right_and_non_overlapping() {
    assert_eq!(replace_all_exec("aaa", "aa", "b"), "ba");
    assert_eq!(replace_all_exec("x80y80", "80", "443"), "x443y443");
    assert_eq!(replace_all_exec("none", "80", "443"), "none");
    assert_eq!(replace_all_exec("", "80", "443"), "");
    assert_eq!(replace_all_exec("héllo:80", "80", "8"), "héllo:8");
}
