use dpm::errors::Errors;
use dpm::program_execution::{docker_path, string_from_uft8};
use dpm::text::{decimal, starts_with_dash, trim, white_space};

#[test]
fn utf8_output_is_decoded() {
    assert_eq!(string_from_uft8(b"hello".to_vec()), Ok("hello".to_string()));
    assert_eq!(string_from_uft8("h\u{e9}llo \u{1f600}".as_bytes().to_vec()), Ok("h\u{e9}llo \u{1f600}".to_string()));
    assert_eq!(string_from_uft8(Vec::new()), Ok(String::new()));
}

#[test]
fn invalid_utf8_is_an_error() {
    assert_eq!(string_from_uft8(vec![0xff, 0x41]), Err(Errors::UTF8Error));
    // an overlong encoding of '/'
    assert_eq!(string_from_uft8(vec![0xc0, 0xaf]), Err(Errors::UTF8Error));
    // a lone surrogate
    assert_eq!(string_from_uft8(vec![0xed, 0xa0, 0x80]), Err(Errors::UTF8Error));
}

#[test]
fn docker_path_is_trimmed_output() {
    assert_eq!(docker_path(true, b"/usr/bin/docker\n".to_vec()), Ok("/usr/bin/docker".to_string()));
    assert_eq!(docker_path(true, b"  \t/opt/docker \r\n".to_vec()), Ok("/opt/docker".to_string()));
    assert_eq!(docker_path(true, vec![0x80]), Err(Errors::UTF8Error));
}

#[test]
fn missing_docker_is_not_found() {
    // `which docker` fails and prints nothing when Docker is not installed
    assert_eq!(docker_path(false, Vec::new()), Err(Errors::DockerNotFound));
    assert_eq!(docker_path(false, b"/usr/bin/docker\n".to_vec()), Err(Errors::DockerNotFound));
    assert_eq!(docker_path(true, b"\n".to_vec()), Err(Errors::DockerNotFound));
    assert_eq!(docker_path(true, Vec::new()), Err(Errors::DockerNotFound));
}

#[test]
fn trim_matches_std() {
    let samples = [
        "",
        "   ",
        "abc",
        "  abc  ",
        "\u{a0}x y\u{3000}",
        "\u{2028}\u{85}inner  space\u{200a}",
        "\u{200b}zero width is not white space\u{200b}",
        "\t\n\x0b\x0c\r mixed \r\n",
    ];
    for s in samples {
        assert_eq!(trim(s), s.trim().to_string());
    }
}

#[test]
fn trim_twice_is_trim_once() {
    let s = " \u{2000} a b \u{3000}";
    assert_eq!(trim(&trim(s)), trim(s));
}

#[test]
fn white_space_matches_std() {
    for u in 0u32..0x3100 {
        if let Some(c) = char::from_u32(u) {
            assert_eq!(white_space(c), c.is_whitespace(), "char {:#x}", u);
        }
    }
}

#[test]
fn flags_start_with_dash() {
    assert!(starts_with_dash(&"-t".to_string()));
    assert!(starts_with_dash(&"--help".to_string()));
    assert!(starts_with_dash(&"-".to_string()));
    assert!(!starts_with_dash(&"".to_string()));
    assert!(!starts_with_dash(&"python".to_string()));
    assert!(!starts_with_dash(&"\u{2010}t".to_string()));
}

#[test]
fn decimal_notation() {
    assert_eq!(decimal(0), "0");
    assert_eq!(decimal(7), "7");
    assert_eq!(decimal(10), "10");
    assert_eq!(decimal(1000), "1000");
    assert_eq!(decimal(65534), "65534");
    assert_eq!(decimal(u32::MAX), "4294967295");
}
