use mjolnir_backend::files::{
    count_recovered_pngs, has_extension, is_recovered_frame_png, next_available_frame_index,
    parse_u64, recorded_frame_stem, recovered_frame_index, recovered_png_name,
};

fn chars(s: &str) -> Vec<char> {
    s.chars().collect()
}

fn names(list: &[&str]) -> Vec<String> {
    list.iter().map(|s| s.to_string()).collect()
}

#[test]
fn recovery_count_recovered_pngs_only_counts_frame_pngs() {
    let listing = names(&["frame_000000.png", "frame_000001.png", "notes.txt", "preview.png"]);
    assert_eq!(count_recovered_pngs(&listing), 2);
}

#[test]
fn next_available_frame_index_skips_existing_frames() {
    let listing = names(&["frame_000000.png", "frame_000007.png", "notes.txt"]);
    assert_eq!(next_available_frame_index(&listing), 8);
    assert_eq!(next_available_frame_index(&names(&[])), 0);
    assert_eq!(next_available_frame_index(&names(&["frame_x.png", "frame_+3.png"])), 4);
    assert_eq!(
        next_available_frame_index(&names(&["frame_18446744073709551615.png"])),
        u64::MAX
    );
}

#[test]
fn recovered_frame_names_follow_the_path_extension_rules() {
    assert!(is_recovered_frame_png(&chars("frame_.png")));
    assert!(is_recovered_frame_png(&chars("frame_abc.png")));
    assert!(!is_recovered_frame_png(&chars("frame.png")));
    assert!(!is_recovered_frame_png(&chars("frame_1.PNG")));
    assert!(!is_recovered_frame_png(&chars(".png")));
    assert_eq!(recovered_frame_index(&chars("frame_000042.png")), Some(42));
    assert_eq!(recovered_frame_index(&chars("frame_4x.png")), None);
    assert_eq!(recovered_frame_index(&chars("frame_18446744073709551616.png")), None);
}

#[test]
fn parse_u64_accepts_an_optional_plus_and_rejects_overflow() {
    assert_eq!(parse_u64(&chars("0")), Some(0));
    assert_eq!(parse_u64(&chars("+17")), Some(17));
    assert_eq!(parse_u64(&chars("007")), Some(7));
    assert_eq!(parse_u64(&chars("18446744073709551615")), Some(u64::MAX));
    assert_eq!(parse_u64(&chars("18446744073709551616")), None);
    assert_eq!(parse_u64(&chars("")), None);
    assert_eq!(parse_u64(&chars("+")), None);
    assert_eq!(parse_u64(&chars("-1")), None);
    assert_eq!(parse_u64(&chars("1 ")), None);
}

#[test]
fn frame_file_names_are_zero_padded() {
    assert_eq!(recorded_frame_stem(7), "frame_0007");
    assert_eq!(recorded_frame_stem(12345), "frame_12345");
    assert_eq!(recovered_png_name(0), "frame_000000.png");
    assert_eq!(recovered_png_name(1234567), "frame_1234567.png");
}

#[test]
fn recovered_name_reads_back_as_its_index() {
    for index in [0u64, 9, 10, 999_999, 1_000_000, u64::MAX] {
        assert_eq!(recovered_frame_index(&chars(&recovered_png_name(index))), Some(index));
    }
}

#[test]
fn extensions_need_a_non_empty_stem() {
    assert!(has_extension(&chars("a.zst"), &chars("zst")));
    assert!(has_extension(&chars("frame.tar.zst"), &chars("zst")));
    assert!(!has_extension(&chars(".zst"), &chars("zst")));
    assert!(!has_extension(&chars("azst"), &chars("zst")));
    assert!(!has_extension(&chars("a.json.bak"), &chars("json")));
}
