use sysmon_extract::decompose::{compose, decompose};
use sysmon_extract::text::{
    chars_of, find_char, is_whitespace, text_of, trim_bounds, trim_text,
};

fn pair(k: &str, v: &str) -> (String, String) {
    (k.to_string(), v.to_string())
}

fn none() -> Vec<(String, String)> {
    Vec::new()
}

/// The same decomposition written with the standard library's own splitting
/// and trimming.
fn by_std(message: &str) -> Vec<(String, String)> {
    let mut pairs = Vec::new();
    for part in message.split('\n') {
        let segments: Vec<&str> = part.splitn(2, ':').collect();
        if segments.len() == 2 {
            pairs.push((segments[0].trim().to_string(), segments[1].trim().to_string()));
        }
    }
    pairs
}

#[test]
fn first_colon_only_split() {
    assert_eq!(
        decompose("CommandLine: C:\\a:b.exe"),
        vec![pair("CommandLine", "C:\\a:b.exe")]
    );
}

#[test]
fn malformed_line_dropped() {
    assert_eq!(decompose("NoColonHere"), none());
}

#[test]
fn empty_message_gives_no_pairs() {
    assert_eq!(decompose(""), none());
}

#[test]
fn only_line_feeds_give_no_pairs() {
    assert_eq!(decompose("\n\n\n"), none());
}

#[test]
fn lines_come_out_in_order() {
    assert_eq!(
        decompose("UtcTime: 2023-08-07 03:00:00.000\nProcessId: 42\nImage: C:\\x.exe"),
        vec![
            pair("UtcTime", "2023-08-07 03:00:00.000"),
            pair("ProcessId", "42"),
            pair("Image", "C:\\x.exe"),
        ]
    );
}

#[test]
fn malformed_line_between_good_ones_is_dropped() {
    assert_eq!(
        decompose("A: 1\nno colon here\nB: 2"),
        vec![pair("A", "1"), pair("B", "2")]
    );
}

#[test]
fn key_and_value_are_trimmed() {
    assert_eq!(decompose("  Key \t:  some value  "), vec![pair("Key", "some value")]);
}

#[test]
fn carriage_return_is_trimmed_from_the_value() {
    assert_eq!(
        decompose("A: 1\r\nB: 2\r\n"),
        vec![pair("A", "1"), pair("B", "2")]
    );
}

#[test]
fn empty_key_and_empty_value_are_kept() {
    assert_eq!(decompose(":"), vec![pair("", "")]);
    assert_eq!(decompose("Key:"), vec![pair("Key", "")]);
    assert_eq!(decompose(": value"), vec![pair("", "value")]);
}

#[test]
fn trailing_line_feed_adds_nothing() {
    assert_eq!(decompose("A: 1\n"), vec![pair("A", "1")]);
}

#[test]
fn repeated_keys_are_all_kept() {
    assert_eq!(
        decompose("UtcTime: A\nUtcTime: B"),
        vec![pair("UtcTime", "A"), pair("UtcTime", "B")]
    );
}

#[test]
fn text_beyond_ascii_is_kept() {
    assert_eq!(
        decompose("\u{3000}사용자\u{00a0}: 값 : 둘\u{2003}\nÉ:é"),
        vec![pair("사용자", "값 : 둘"), pair("É", "é")]
    );
}

#[test]
fn decompose_agrees_with_std_splitting() {
    let samples = [
        "",
        ":",
        "::",
        "a",
        "a:b",
        "a:b:c",
        " a : b ",
        "\n",
        "a:b\n",
        "\na:b",
        "a:b\n\nc:d",
        "a:b\r\nc:d\r\n",
        "no colon\nKey: Value\n  : \n:::\n\t\tX\t:\tY\t",
        "Hashes: SHA1=AA,MD5=BB\nCommandLine: \"C:\\Program Files\\x.exe\" --url http://h:80/p",
        "\u{2028}k\u{2029}:\u{205f}v\u{202f}\n\u{1680}k2\u{85}:\u{a0}v2\u{3000}",
        "\u{b}k\u{c}:\u{d}v\u{9}",
        "\u{180e}k:\u{200b}v\u{feff}",
        "Process Create:\nRuleName: -\nUtcTime: 2023-08-07 03:00:00.000\nUser: NT AUTHORITY\\SYSTEM",
    ];
    for sample in samples {
        assert_eq!(decompose(sample), by_std(sample), "message {:?}", sample);
    }
}

#[test]
fn whitespace_is_what_std_calls_whitespace() {
    let mut code: u32 = 0;
    while code <= 0x10FFFF {
        if let Some(c) = char::from_u32(code) {
            assert_eq!(is_whitespace(c), c.is_whitespace(), "U+{:04X}", code);
        }
        code += 1;
    }
}

#[test]
fn trim_text_agrees_with_std_trim() {
    let samples = [
        "",
        " ",
        "   ",
        "a",
        " a",
        "a ",
        " a b ",
        "\t\r\n a \u{3000}",
        "\u{a0}\u{2000}x y\u{200a}\u{85}",
        "\u{200b}x\u{200b}",
    ];
    for sample in samples {
        assert_eq!(trim_text(sample), sample.trim(), "text {:?}", sample);
    }
}

#[test]
fn chars_and_text_round_trip() {
    let chars = chars_of("héllo, wörld");
    assert_eq!(chars.len(), 12);
    assert_eq!(chars[1], 'é');
    assert_eq!(text_of(&chars, 0, 12), "héllo, wörld");
    assert_eq!(text_of(&chars, 7, 12), "wörld");
    assert_eq!(text_of(&chars, 3, 3), "");
}

#[test]
fn find_char_gives_the_first_or_the_end() {
    let chars = chars_of("a:b:c");
    assert_eq!(find_char(&chars, 0, 5, ':'), 1);
    assert_eq!(find_char(&chars, 2, 5, ':'), 3);
    assert_eq!(find_char(&chars, 4, 5, ':'), 5);
    assert_eq!(find_char(&chars, 0, 1, ':'), 1);
    assert_eq!(find_char(&chars, 0, 0, ':'), 0);
}

#[test]
fn trim_bounds_of_a_range() {
    let chars = chars_of("  ab  cd  ");
    assert_eq!(trim_bounds(&chars, 0, 10), (2, 8));
    assert_eq!(trim_bounds(&chars, 0, 5), (2, 4));
    assert_eq!(trim_bounds(&chars, 4, 6), (6, 6));
    assert_eq!(trim_bounds(&chars, 3, 4), (3, 4));
}

#[test]
fn compose_writes_key_colon_space_value_lines() {
    assert_eq!(compose(&none()), "");
    assert_eq!(compose(&vec![pair("A", "1")]), "A: 1");
    assert_eq!(
        compose(&vec![pair("A", "1"), pair("B", ""), pair("", "x:y")]),
        "A: 1\nB: \n: x:y"
    );
}

#[test]
fn decompose_is_idempotent_through_compose() {
    let samples = [
        "UtcTime: 2023-08-07 03:00:00.000\nProcessId: 42\nImage: C:\\x.exe",
        "Key: Value",
        "",
        "  a :  b  \nnothing\n c:d:e \r\n:\nlast:",
        "\u{3000}k\u{a0}:\u{2003}v w\u{2003}",
    ];
    for sample in samples {
        let once = decompose(sample);
        let again = decompose(&compose(&once));
        assert_eq!(again, once, "message {:?}", sample);
    }
}

#[test]
fn well_formed_message_is_composed_back_unchanged() {
    let message = "UtcTime: 2023-08-07 03:00:00.000\nProcessId: 42\nImage: C:\\x.exe";
    assert_eq!(compose(&decompose(message)), message);
}
