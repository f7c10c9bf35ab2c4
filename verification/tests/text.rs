use sticker_crawler::text::{chars_of, connect, find_first, find_last, slice_of, string_from};

#[test]
fn chars_of_a_string() {
    assert_eq!(chars_of(""), Vec::<char>::new());
    assert_eq!(chars_of("a☆b"), vec!['a', '☆', 'b']);
}

#[test]
fn string_from_a_range_of_characters() {
    let chars = vec!['a', '☆', 'b', 'c'];
    assert_eq!(string_from(&chars, 0, 4), "a☆bc");
    assert_eq!(string_from(&chars, 1, 3), "☆b");
    assert_eq!(string_from(&chars, 2, 2), "");
    assert_eq!(slice_of(&chars, 1, 3), vec!['☆', 'b']);
    assert_eq!(slice_of(&chars, 4, 4), Vec::<char>::new());
}

#[test]
fn concat_of_two_strings() {
    assert_eq!(connect("", ""), "");
    assert_eq!(connect("a☆", "b"), "a☆b");
}

#[test]
fn find_first_and_last() {
    let chars = vec!['a', '/', 'b', '/', 'c'];
    assert_eq!(find_first(&chars, '/'), Some(1));
    assert_eq!(find_last(&chars, '/'), Some(3));
    assert_eq!(find_first(&chars, 'a'), Some(0));
    assert_eq!(find_last(&chars, 'a'), Some(0));
    assert_eq!(find_first(&chars, 'c'), Some(4));
    assert_eq!(find_first(&chars, 'x'), None);
    assert_eq!(find_last(&chars, 'x'), None);
    assert_eq!(find_first(&vec![], 'x'), None);
    assert_eq!(find_last(&vec![], 'x'), None);
}
