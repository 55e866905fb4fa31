use vox_lab::text::{chars_of, concat2, join_strs, trim_bounds, trim_end_char};

#[test]
fn trim_bounds_skip_unicode_whitespace() {
    let cs = chars_of(" \t complete \r\n");
    let (a, b) = trim_bounds(&cs, 0);
    assert_eq!(cs[a..b].iter().collect::<String>(), "complete");
    let cs = chars_of("event:\u{3000}x y\u{a0}");
    let (a, b) = trim_bounds(&cs, 6);
    assert_eq!(cs[a..b].iter().collect::<String>(), "x y");
    let cs = chars_of("   ");
    assert_eq!(trim_bounds(&cs, 0), (3, 3));
    let cs = chars_of("\u{200b}a");
    assert_eq!(trim_bounds(&cs, 0), (0, 2));
}

#[test]
fn trim_end_char_strips_every_trailing_slash() {
    assert_eq!(trim_end_char("http://h//", '/'), "http://h");
    assert_eq!(trim_end_char("///", '/'), "");
    assert_eq!(trim_end_char("a/b", '/'), "a/b");
}

#[test]
fn join_and_concat() {
    assert_eq!(join_strs(&["tch", "wgpu", "cuda"], ","), "tch,wgpu,cuda");
    assert_eq!(join_strs(&["one"], ","), "one");
    assert_eq!(join_strs(&[], ","), "");
    assert_eq!(concat2("ab", "cd"), "abcd");
}
