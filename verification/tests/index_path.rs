use cargo_lookup::get_index_path;

#[test]
fn test_get_index_path_1() {
    assert_eq!(get_index_path("a"), "1/a");
}

#[test]
fn test_get_index_path_2() {
    assert_eq!(get_index_path("ab"), "2/ab");
}

#[test]
fn test_get_index_path_3() {
    assert_eq!(get_index_path("abc"), "3/a/abc");
}

#[test]
fn test_get_index_path_4() {
    assert_eq!(get_index_path("abcd"), "ab/cd/abcd");
}

#[test]
fn test_get_index_path_long() {
    assert_eq!(get_index_path("abcdefgh"), "ab/cd/abcdefgh");
}

#[test]
fn test_get_index_path_caps() {
    assert_eq!(get_index_path("AbcDefGH"), "ab/cd/abcdefgh");
}

#[test]
fn index_path_documented_examples() {
    assert_eq!(get_index_path("cargo"), "ca/rg/cargo");
    assert_eq!(get_index_path("ice"), "3/i/ice");
}

#[test]
fn index_path_lowers_short_names() {
    assert_eq!(get_index_path("A"), "1/a");
    assert_eq!(get_index_path("Ab"), "2/ab");
    assert_eq!(get_index_path("ICE"), "3/i/ice");
}

#[test]
fn index_path_keeps_what_is_no_ascii_capital() {
    assert_eq!(get_index_path("a-b_9"), "a-/b_/a-b_9");
    assert_eq!(get_index_path("Z[@`"), "z[/@`/z[@`");
}

#[test]
fn index_path_is_the_same_for_a_name_and_its_lower_case() {
    assert_eq!(get_index_path("SerDe"), get_index_path("serde"));
}
