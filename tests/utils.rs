use rummy::utils::{split_first_char, split_last_char};

#[test]
fn test_split_first_char() {
    assert_eq!(Some(('a', "sdf".to_string())), split_first_char("asdf"));
    assert_eq!(Some(('a', "".to_string())), split_first_char("a"));
    assert_eq!(Some(('H', "i Bob".to_string())), split_first_char("Hi Bob"));
    assert_eq!(None, split_first_char(""));
}

#[test]
fn test_split_last_char() {
    assert_eq!(Some(("asd".to_string(), 'f')), split_last_char("asdf"));
    assert_eq!(Some(("".to_string(), 'a')), split_last_char("a"));
    assert_eq!(Some(("Hi Bo".to_string(), 'b')), split_last_char("Hi Bob"));
    assert_eq!(None, split_last_char(""));
}

#[test]
fn split_chars_beyond_ascii() {
    assert_eq!(Some(('é', "té".to_string())), split_first_char("été"));
    assert_eq!(Some(("ét".to_string(), 'é')), split_last_char("été"));
}
