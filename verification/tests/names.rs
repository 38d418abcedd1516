use mjolnir_backend::compression::{format_ffmpeg_stderr, sanitize};
use mjolnir_backend::names::sanitize_chars;
use mjolnir_backend::recorded::sanitize_path_name;

#[test]
fn shared_sanitize_replaces_unsupported_characters() {
    assert_eq!(sanitize("Cam/01:mono"), "Cam_01_mono");
}

#[test]
fn h265_stream_sanitize_replaces_unsupported_characters() {
    assert_eq!(sanitize("Cam/01:mono"), "Cam_01_mono");
}

#[test]
fn sanitize_keeps_safe_characters_and_replaces_each_other_character() {
    assert_eq!(sanitize_path_name("a-b_c.D9"), "a-b_c.D9");
    assert_eq!(sanitize_path_name("x y\u{e9}z"), "x_y_z");
    assert_eq!(sanitize_chars(""), "");
}

#[test]
fn ffmpeg_stderr_is_parenthesised_when_present() {
    assert_eq!(format_ffmpeg_stderr(""), "");
    assert_eq!(format_ffmpeg_stderr("bad input"), " (bad input)");
}

#[test]
fn sanitize_path_name_turns_special_names_into_one_entry() {
    assert_eq!(sanitize_path_name(""), "_");
    assert_eq!(sanitize_path_name("."), "_");
    assert_eq!(sanitize_path_name(".."), "_");
    assert_eq!(sanitize_path_name("..."), "...");
    assert_eq!(sanitize_path_name("../x"), ".._x");
    assert_eq!(sanitize_path_name("/"), "_");
}

#[test]
fn sanitize_path_name_stays_inside_the_base_directory() {
    let base = std::path::Path::new("/tmp/base");
    for name in ["", ".", "..", "a/b", "../..", "cam era"] {
        let joined = base.join(sanitize_path_name(name));
        assert_eq!(joined.parent(), Some(base));
        assert_eq!(joined.components().count(), base.components().count() + 1);
    }
}
