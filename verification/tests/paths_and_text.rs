use just_convert::paths::{extension, file_name, file_stem, has_ext, is_absolute, is_within, join, lower, parent, with_extension};
use just_convert::text::{comma_separated, decimal_string, parse_unsigned, same_text, strip_prefix, strip_quotes, text_contains, text_less, trim, upper};

#[test]
fn absolute_paths_start_at_a_root_or_a_drive() {
    assert!(is_absolute("/home/me"));
    assert!(is_absolute("C:/files"));
    assert!(is_absolute("D:\\files"));
    assert!(!is_absolute("files/a.txt"));
    assert!(!is_absolute("C:files"));
}

#[test]
fn path_parts_follow_the_last_component() {
    assert_eq!(file_name("/a/b/report.final.pdf"), Some("report.final.pdf".to_string()));
    assert_eq!(file_name("/a/b/"), Some("b".to_string()));
    assert_eq!(file_name("/"), None);
    assert_eq!(extension("/a/report.final.PDF"), Some("PDF".to_string()));
    assert_eq!(extension("/a/.bashrc"), None);
    assert_eq!(file_stem("/a/archive.tar.gz"), Some("archive.tar".to_string()));
    assert_eq!(file_stem("/a/.bashrc"), Some(".bashrc".to_string()));
    assert_eq!(parent("/a/b"), Some("/a".to_string()));
    assert_eq!(parent("/"), None);
    assert_eq!(join("/a", "b.txt"), "/a/b.txt");
    assert_eq!(join("C:\\a\\", "b.txt"), "C:\\a\\b.txt");
    assert_eq!(with_extension("/a/song.wav", "mp3"), "/a/song.mp3");
    assert!(has_ext("/a/SONG.Mp3", "mp3"));
    assert!(!has_ext("/a/song", "mp3"));
}

#[test]
fn text_helpers_behave_like_their_std_counterparts() {
    assert_eq!(trim("\t hello world \n"), "hello world");
    assert_eq!(lower("MiXeD.PDF"), "mixed.pdf");
    assert_eq!(upper("ffprobe"), "FFPROBE");
    assert!(same_text("abc", "abc"));
    assert!(!same_text("abc", "abd"));
    assert!(text_less("Z", "a"));
    assert!(text_less("ab", "abc"));
    assert!(!text_less("abc", "abc"));
    assert!(text_contains("/x/microsoft/windowsapps/python.exe", "/microsoft/windowsapps/"));
    assert!(!text_contains("short", "longer text"));
    assert_eq!(strip_prefix("KEY:42", "KEY:"), Some("42".to_string()));
    assert_eq!(strip_prefix("KE", "KEY:"), None);
    assert_eq!(decimal_string(0), "0");
    assert_eq!(decimal_string(1700000000), "1700000000");
    assert_eq!(comma_separated(&vec![3, 1, 12]), "3,1,12");
}

#[test]
fn numbers_are_read_as_str_parse_reads_them() {
    assert_eq!(parse_unsigned("+17", 255), Some(17));
    assert_eq!(parse_unsigned("255", 255), Some(255));
    assert_eq!(parse_unsigned("256", 255), None);
    assert_eq!(parse_unsigned("-1", 255), None);
    assert_eq!(parse_unsigned("", 255), None);
    assert_eq!(parse_unsigned(" 1", 255), None);
    assert_eq!(parse_unsigned("4294967295", u32::MAX), Some(4294967295));
}

#[test]
fn containment_compares_whole_components() {
    assert!(is_within("/a/b/c", "/a/b"));
    assert!(is_within("/a/b", "/a/b"));
    assert!(is_within("/x", "/"));
    assert!(is_within("C:\\work\\out", "C:\\work"));
    assert!(!is_within("/a/bc", "/a/b"));
    assert!(!is_within("/a", "/a/b"));
}

#[test]
fn registry_values_lose_their_quotes_and_spaces() {
    assert_eq!(strip_quotes("  \"C:\\Python\\\" "), "C:\\Python\\");
    assert_eq!(strip_quotes("\"\""), "");
    assert_eq!(strip_quotes("plain"), "plain");
}
