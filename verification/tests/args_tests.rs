use file2book_launcher::build_cli_arguments;
use file2book_launcher::i32_to_string;
use file2book_launcher::u64_to_string;
use file2book_launcher::File2BookOptions;

fn options(page: &str, ratio: &str, depth: Option<i32>) -> File2BookOptions {
    File2BookOptions {
        page_size: page.to_string(),
        aspect_ratio: ratio.to_string(),
        depth,
    }
}

#[test]
fn depth_flag_is_last_when_present() {
    let args = build_cli_arguments("in.pdf", &options("A4", "16:9", Some(3)));
    assert_eq!(
        args,
        vec![
            "-m".to_string(),
            "file2book".to_string(),
            "in.pdf".to_string(),
            "--page-size=A4".to_string(),
            "--aspect-ratio=16:9".to_string(),
            "--depth=3".to_string(),
        ]
    );
    assert_eq!(args.last().unwrap(), "--depth=3");
}

#[test]
fn no_depth_flag_when_absent() {
    let args = build_cli_arguments("in.pdf", &options("A4", "16:9", None));
    assert_eq!(args.len(), 5);
    assert!(args.iter().all(|a| !a.starts_with("--depth=")));
}

#[test]
fn fixed_prefix_and_input_path() {
    let args = build_cli_arguments("/tmp/some file.epub", &options("letter", "4:3", None));
    assert_eq!(args[0], "-m");
    assert_eq!(args[1], "file2book");
    assert_eq!(args[2], "/tmp/some file.epub");
    assert_eq!(args[3], "--page-size=letter");
    assert_eq!(args[4], "--aspect-ratio=4:3");
}

#[test]
fn negative_depth_renders_with_sign() {
    let args = build_cli_arguments("x", &options("A5", "1:1", Some(-12)));
    assert_eq!(args.last().unwrap(), "--depth=-12");
}

#[test]
fn option_values_pass_through_verbatim() {
    let args = build_cli_arguments("x", &options("  odd value ", "", None));
    assert_eq!(args[3], "--page-size=  odd value ");
    assert_eq!(args[4], "--aspect-ratio=");
}

#[test]
fn unsigned_decimal_rendering() {
    assert_eq!(u64_to_string(0), "0");
    assert_eq!(u64_to_string(7), "7");
    assert_eq!(u64_to_string(10), "10");
    assert_eq!(u64_to_string(909), "909");
    assert_eq!(u64_to_string(u64::MAX), "18446744073709551615");
}

#[test]
fn signed_decimal_rendering() {
    assert_eq!(i32_to_string(0), "0");
    assert_eq!(i32_to_string(42), "42");
    assert_eq!(i32_to_string(-1), "-1");
    assert_eq!(i32_to_string(i32::MAX), "2147483647");
    assert_eq!(i32_to_string(i32::MIN), "-2147483648");
}
