use omt_atlas::naming::simple_format_u32;
use omt_atlas::naming::simple_format_u64;
use omt_atlas::naming::OutputNames;
use std::path::Path;
use omt_atlas::text::basename_of;
use omt_atlas::text::decimal_string;
use omt_atlas::text::file_name_of;
use omt_atlas::text::map_line_string;
use omt_atlas::text::signed_decimal_string;

#[test]
fn decimal_has_no_leading_zeros() {
    assert_eq!(decimal_string(0), "0");
    assert_eq!(decimal_string(7), "7");
    assert_eq!(decimal_string(10), "10");
    assert_eq!(decimal_string(1234567890), "1234567890");
    assert_eq!(decimal_string(4294967295), "4294967295");
    assert_eq!(decimal_string(u64::MAX), "18446744073709551615");
}

#[test]
fn signed_decimal_writes_the_sign() {
    assert_eq!(signed_decimal_string(0), "0");
    assert_eq!(signed_decimal_string(42), "42");
    assert_eq!(signed_decimal_string(-1), "-1");
    assert_eq!(signed_decimal_string(i64::MIN), "-9223372036854775808");
    assert_eq!(signed_decimal_string(i64::MAX), "9223372036854775807");
}

#[test]
fn basename_strips_directories() {
    assert_eq!(basename_of("art/sprite3.png"), "sprite3.png");
    assert_eq!(basename_of("sprite.png"), "sprite.png");
    assert_eq!(basename_of("/a/b/c/d.png"), "d.png");
    assert_eq!(basename_of("bilder/grün.png"), "grün.png");
    assert_eq!(basename_of("a/.hidden"), ".hidden");
    assert_eq!(basename_of("a/..."), "...");
    assert_eq!(basename_of("./a"), "a");
}

#[test]
fn basename_skips_trailing_separators_and_dots() {
    assert_eq!(basename_of("b/"), "b");
    assert_eq!(basename_of("a/b/"), "b");
    assert_eq!(basename_of("a/b/."), "b");
    assert_eq!(basename_of("a/b//"), "b");
    assert_eq!(basename_of("a/b/./"), "b");
    assert_eq!(basename_of("a/b/.//./"), "b");
    assert_eq!(basename_of("a/./b"), "b");
}

#[test]
fn path_without_final_segment_has_no_file_name() {
    for path in ["", "/", "//", ".", "./", "./.", "/.", "..", "a/..", "a/../", "a/b/../."] {
        assert_eq!(file_name_of(path), None);
        assert_eq!(basename_of(path), "");
    }
    assert_eq!(file_name_of("a/b/"), Some("b".to_string()));
    assert_eq!(file_name_of("x"), Some("x".to_string()));
}

#[test]
fn file_name_agrees_with_std_on_many_paths() {
    let alphabet = ['/', '.', 'a', 'b', '/', '.', 'é'];
    let mut seed: u64 = 0xD1B54A32D192ED03;
    for round in 0..3000u32 {
        let mut path = String::new();
        let len = (round % 10) as usize;
        for _ in 0..len {
            seed = seed.wrapping_mul(6364136223846793005).wrapping_add(1442695040888963407);
            path.push(alphabet[((seed >> 33) % alphabet.len() as u64) as usize]);
        }
        let expected = Path::new(&path).file_name().and_then(|n| n.to_str()).map(|n| n.to_string());
        assert_eq!(file_name_of(&path), expected);
    }
}

#[test]
fn map_line_has_both_corners() {
    assert_eq!(map_line_string("art/sprite3.png", 0, 100, 100, 100), "sprite3.png:0,100-100,200\n");
    assert_eq!(
        map_line_string("overlay-00-title-square.png", 0, 0, 2048, 1536),
        "overlay-00-title-square.png:0,0-2048,1536\n"
    );
    assert_eq!(map_line_string("b/", 0, 0, 1, 1), "b:0,0-1,1\n");
    assert_eq!(map_line_string("a/b/.", 3, 4, 1, 1), "b:3,4-4,5\n");
    assert_eq!(
        map_line_string("x", 4294967295, 4294967295, 1, 2),
        "x:4294967295,4294967295-4294967296,4294967297\n"
    );
}

#[test]
fn format_replaces_placeholder() {
    assert_eq!(simple_format_u32("atlas-%d", 2), "atlas-2");
    assert_eq!(simple_format_u32("atlas-%d", 0), "atlas-0");
    assert_eq!(simple_format_u32("%d-out", 4294967295), "4294967295-out");
    assert_eq!(simple_format_u32("plain", 5), "plain");
    assert_eq!(simple_format_u32("a%db%dc", 12), "a12b12c");
    assert_eq!(simple_format_u32("cost-$1-%d", 3), "cost-$1-3");
    assert_eq!(simple_format_u32("%%d%", 3), "%3%");
    assert_eq!(simple_format_u32("%", 3), "%");
    assert_eq!(simple_format_u32("", 3), "");
    assert_eq!(simple_format_u64("c-%d", 4294967296), "c-4294967296");
}

#[test]
fn output_names_for_canvas_two() {
    let names = OutputNames::new("atlas-%d", 2);
    assert_eq!(names.png, "atlas-2.png");
    assert_eq!(names.atlas, "atlas-2.atlas");
    assert_eq!(names.map, "atlas-2.map");
}

fn with_number(s: &[char], number: &str) -> String {
    if s.len() < 2 {
        s.iter().collect()
    } else if s[0] == '%' && s[1] == 'd' {
        format!("{}{}", number, with_number(&s[2..], number))
    } else {
        format!("{}{}", s[0], with_number(&s[1..], number))
    }
}

#[test]
fn format_agrees_with_its_definition_on_many_patterns() {
    let alphabet = ['%', 'd', 'a', '$', '1', 'ü', '\n', '(', ')'];
    let mut seed: u64 = 0x2545F4914F6CDD1D;
    for round in 0..600u32 {
        let mut pattern = Vec::new();
        let len = (round % 9) as usize;
        for _ in 0..len {
            seed = seed.wrapping_mul(6364136223846793005).wrapping_add(1442695040888963407);
            pattern.push(alphabet[((seed >> 33) % alphabet.len() as u64) as usize]);
        }
        let text: String = pattern.iter().collect();
        assert_eq!(simple_format_u32(&text, round), with_number(&pattern, &round.to_string()));
    }
}

#[test]
fn decimal_agrees_with_std_on_many_numbers() {
    let mut n: u64 = 1;
    for _ in 0..200 {
        assert_eq!(decimal_string(n), n.to_string());
        assert_eq!(signed_decimal_string(n as i64), (n as i64).to_string());
        n = n.wrapping_mul(6364136223846793005).wrapping_add(1442695040888963407);
    }
}
