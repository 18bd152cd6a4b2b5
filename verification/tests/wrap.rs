use otree::parse::wrap::find_split_position;

#[test]
fn test_find_split_position() {
    let cases = [
        ("short text", 20, 10),
        ("", 10, 0),
        ("a", 10, 1),
        ("hello", 5, 5),
        ("hi", 10, 2),
        ("hello world", 8, 6),
        ("verylongword", 5, 5),
        ("测试中文", 4, 3),
        ("🚀rocket", 4, 4),
        ("café", 3, 3),
        ("naïve", 3, 2),
    ];

    for (text, max_width, expected) in cases {
        let pos = find_split_position(text, max_width);
        assert_eq!(pos, expected, "Failed for text: {text:?}");
    }
}

#[test]
fn test_split() {
    let cases = [
        ("short text", 20, vec!["short text"]),
        ("", 10, vec![]),
        ("a", 10, vec!["a"]),
        ("hello", 5, vec!["hello"]),
        ("hi", 10, vec!["hi"]),
        ("hello world", 8, vec!["hello ", "world"]),
        ("verylongword", 5, vec!["veryl", "ongwo", "rd"]),
        ("测试中文", 7, vec!["测试", "中文"]),
        ("🚀rocket", 4, vec!["🚀", "rock", "et"]),
        ("café", 3, vec!["caf", "é"]),
        ("naïve", 3, vec!["na", "ïv", "e"]),
        ("abcdefghijklmnop", 5, vec!["abcde", "fghij", "klmno", "p"]),
        ("test with spaces", 6, vec!["test ", "with ", "spaces"]),
        (
            "test with spaces",
            3,
            vec!["tes", "t ", "wit", "h ", "spa", "ces"],
        ),
    ];

    for (text, max_width, expected) in cases {
        let mut parts = Vec::new();
        let mut remaining = text;

        while !remaining.is_empty() {
            let pos = find_split_position(remaining, max_width);
            let (current, rest) = remaining.split_at(pos);
            parts.push(current);
            remaining = rest;
        }

        assert_eq!(
            parts, expected,
            "Split failed for text: {text:?}, max_width: {max_width}"
        );

        let rejoined = parts.join("");
        assert_eq!(
            rejoined, text,
            "Rejoined text doesn't match original for: {text:?}"
        );

        for part in &parts {
            assert!(
                part.len() <= max_width || part.chars().count() == 1,
                "Part too long: {part:?} (len: {}, max: {max_width})",
                part.len()
            );
        }
    }
}

fn split_all(text: &str, max_width: usize) -> Vec<String> {
    let mut parts = Vec::new();
    let mut remaining = text;
    while !remaining.is_empty() {
        let pos = find_split_position(remaining, max_width);
        assert!(pos > 0);
        assert!(remaining.is_char_boundary(pos));
        let (current, rest) = remaining.split_at(pos);
        parts.push(current.to_string());
        remaining = rest;
    }
    parts
}

#[test]
fn split_rejoins_and_respects_boundaries() {
    let texts = [
        "plain ascii text with several words in it",
        "tabs\tand\tspaces are both separators",
        "ünïcödé wörds ärë splït sæfely",
        "日本語のテキストは三バイトの文字です",
        "😀😃😄😁 emoji 😆😅😂🤣",
        "nospacesatallinthisverylongidentifier",
        "",
        " ",
    ];
    for text in texts {
        for max_width in 0..24usize {
            let parts = split_all(text, max_width);
            assert_eq!(parts.concat(), text);
            for part in &parts {
                assert!(!part.is_empty());
                assert!(part.len() <= max_width || part.chars().count() == 1);
            }
        }
    }
}

#[test]
fn split_prefers_the_last_separator_in_reach() {
    // The separator at byte 11 is more than ten bytes before the width.
    assert_eq!(find_split_position("hello world abcdefghijklmnopqrstuvwxyz", 30), 30);
    // A tab is a separator too, and stays with the first part.
    assert_eq!(find_split_position("ab\tcdefgh", 5), 3);
    // The last of several separators wins.
    assert_eq!(find_split_position("a b c d e f", 8), 8);
    assert_eq!(find_split_position("a b c d e f", 7), 6);
}

#[test]
fn split_of_zero_width_takes_one_character() {
    assert_eq!(find_split_position("abc", 0), 1);
    assert_eq!(find_split_position("éa", 0), 2);
    assert_eq!(find_split_position("🚀", 1), 4);
}
