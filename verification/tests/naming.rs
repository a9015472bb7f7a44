use piet_quantize::naming::output_file_name;

fn derive(name: &str) -> Option<String> {
    let bytes: Vec<u8> = name.as_bytes().to_vec();
    output_file_name(&bytes).map(|out| String::from_utf8(out).unwrap())
}

#[test]
fn extension_is_replaced() {
    assert_eq!(derive("photo.jpeg"), Some("photo_piet.png".to_string()));
    assert_eq!(derive("scan.png"), Some("scan_piet.png".to_string()));
}

#[test]
fn final_separator_wins() {
    assert_eq!(derive("a.b.c"), Some("a.b_piet.png".to_string()));
}

#[test]
fn leading_separator_leaves_empty_base() {
    assert_eq!(derive(".hidden"), Some("_piet.png".to_string()));
}

#[test]
fn no_separator_has_no_output_name() {
    assert_eq!(derive("noext"), None);
    assert_eq!(derive(""), None);
}
