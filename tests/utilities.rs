use tetris_towers::cache::Cache;
use tetris_towers::ids::{
    generate_name_based_uuid, generate_uuid, generate_uuid_string, generate_uuid_v4, generate_uuid_v4_string,
    is_valid_uuid, parse_uuid, uuid_string,
};
use tetris_towers::physics::{block_for_shape, block_type_code, material_code, BlockType, MaterialType};
use tetris_towers::strings::{
    clamp, is_alphabetic, is_alphanumeric, is_blank, is_email, is_integer, is_url, to_camel_case, to_kebab_case,
    to_pascal_case, to_snake_case, truncate, truncate_with_ellipsis,
};
use tetris_towers::text::decimal_text;

#[test]
fn case_conversions() {
    assert_eq!(to_snake_case("HelloWorld"), "hello_world");
    assert_eq!(to_snake_case("parseHTTPRequest"), "parse_httprequest");
    assert_eq!(to_kebab_case("HelloWorld"), "hello-world");
    assert_eq!(to_kebab_case("snake_case name"), "snake-case-name");
    assert_eq!(to_camel_case("hello_world-again now"), "helloWorldAgainNow");
    assert_eq!(to_pascal_case("hello_world"), "HelloWorld");
    assert_eq!(to_pascal_case(""), "");
}

#[test]
fn predicates() {
    assert!(is_blank(""));
    assert!(is_blank(" \n\t"));
    assert!(!is_blank(" a "));
    assert!(is_integer("-42"));
    assert!(!is_integer("4.2"));
    assert!(!is_integer("99999999999999999999"));
    assert!(is_alphabetic("abcÉ"));
    assert!(!is_alphabetic("ab1"));
    assert!(!is_alphabetic(""));
    assert!(is_alphanumeric("ab1"));
    assert!(!is_alphanumeric("ab 1"));
    assert!(is_email("a@b.c"));
    assert!(!is_email("a@b"));
    assert!(!is_email("a.b@c"));
    assert!(!is_email("a@b@c.d"));
    assert!(is_url("ftp://host"));
    assert!(!is_url("http:/host"));
    assert_eq!(clamp(5, 0, 3), 3);
    assert_eq!(clamp(-5, 0, 3), 0);
    assert_eq!(clamp(2, 0, 3), 2);
}

#[test]
fn truncation() {
    assert_eq!(truncate("hello", 3), "hel");
    assert_eq!(truncate("hi", 3), "hi");
    assert_eq!(truncate_with_ellipsis("hello world", 8), "hello...");
    assert_eq!(truncate_with_ellipsis("hello", 2), "he");
    assert_eq!(truncate_with_ellipsis("hello", 5), "hello");
    assert_eq!(decimal_text(0), "0");
    assert_eq!(decimal_text(1024), "1024");
}

#[test]
fn ids() {
    let a = generate_uuid_v4();
    let b = generate_uuid();
    assert_ne!(a, b);
    for id in [a, b] {
        let u = uuid::Uuid::from_u128(id);
        assert_eq!(u.get_version_num(), 4);
        assert_eq!(u.get_variant(), uuid::Variant::RFC4122);
        assert_eq!((id >> 76) & 0xf, 4);
        assert_eq!((id >> 62) & 0x3, 2);
    }
    let text = generate_uuid_v4_string();
    assert_eq!(text.len(), 36);
    assert!(is_valid_uuid(&text));
    assert!(is_valid_uuid(&generate_uuid_string()));
    assert!(!is_valid_uuid("not-a-uuid"));
    assert_eq!(uuid_string(0x550e8400e29b41d4a716446655440000), "550e8400-e29b-41d4-a716-446655440000");
    assert_eq!(parse_uuid("550e8400-e29b-41d4-a716-446655440000"), Some(0x550e8400e29b41d4a716446655440000));
    assert_eq!(parse_uuid("zzz"), None);
    assert_eq!(generate_name_based_uuid("example.com"), generate_name_based_uuid("example.com"));
    assert_eq!((generate_name_based_uuid("example.com") >> 76) & 0xf, 5);
    let id = generate_uuid_v4();
    assert_eq!(parse_uuid(&uuid_string(id)), Some(id));
    assert_eq!(uuid_string(generate_name_based_uuid("python.org")), "886313e1-3b8a-5372-9b90-0c9aee199e5d");
}

#[test]
fn cache_entries_lapse() {
    let mut c: Cache<u32> = Cache::new(1_000);
    c.set("a", 1, 0);
    c.set("b", 2, 500);
    c.set("a", 3, 100);
    assert_eq!(c.len(), 2);
    assert_eq!(c.keys(), vec!["a".to_string(), "b".to_string()]);
    assert_eq!(c.get("a", 1_000).copied(), Some(3));
    assert_eq!(c.get("a", 1_100).copied(), None);
    assert!(c.contains_key("b", 1_499));
    assert!(!c.contains_key("b", 1_500));
    assert!(c.is_empty());
    c.set("x", 9, 0);
    assert_eq!(c.remove("x"), Some(9));
    assert_eq!(c.remove("x"), None);
    c.set_ttl(5);
    assert_eq!(c.get_ttl(), 5);
    c.set("y", 1, 0);
    c.clear();
    assert_eq!(c.len(), 0);
}

#[test]
fn physics_codes() {
    assert_eq!(block_for_shape(tetris_towers::game::BlockType::S), BlockType::SBlock);
    assert_eq!(block_type_code(BlockType::Custom), 7);
    assert_eq!(material_code(MaterialType::Ice), 4);
}

#[test]
fn file_name_parts() {
    assert_eq!(tetris_towers::paths::get_file_extension("logs/app.log"), Some("log".to_string()));
    assert_eq!(tetris_towers::paths::get_file_extension("README"), None);
    assert_eq!(tetris_towers::paths::get_file_stem("config/config.json"), Some("config".to_string()));
    assert_eq!(tetris_towers::paths::get_file_stem("archive.tar.gz"), Some("archive.tar".to_string()));
}

#[test]
fn integer_text_edges() {
    assert!(is_integer("+7"));
    assert!(!is_integer("-"));
    assert!(!is_integer(""));
    assert!(is_integer("9223372036854775807"));
    assert!(is_integer("-9223372036854775808"));
    assert!(!is_integer("9223372036854775808"));
    assert!(!is_integer("-9223372036854775809"));
    assert!(is_integer("007"));
    assert!(!is_integer(" 7"));
    assert!(is_blank("\u{3000}\u{a0}\u{2028}"));
    assert!(!is_blank("\u{200b}"));
}

#[test]
fn cache_entries_with_their_own_lifetime() {
    let mut c: Cache<&str> = Cache::new(10);
    c.set_with_ttl("forever", "a", None, 0);
    c.set_with_ttl("short", "b", Some(5), 0);
    c.set("default", "c", 0);
    assert!(c.contains_key("short", 4));
    assert_eq!(c.get("short", 5).copied(), Some("b"));
    assert!(!c.contains_key("short", 6));
    assert!(c.contains_key("default", 9));
    assert!(!c.contains_key("default", 10));
    assert_eq!(c.get("forever", u64::MAX - 1).copied(), Some("a"));
}
