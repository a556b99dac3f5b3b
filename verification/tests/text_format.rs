use music_bot::args::{join_args, parse_position, parse_u64_up_to, parse_volume_level};
use music_bot::embeds::{duration_bar, fmt_artists, fmt_duration};
use music_bot::model::Artist;
use music_bot::text::{
    find_char, is_whitespace, split_once_char, split_words,
    trim_text, u64_text,
};

fn artist(name: &str) -> Artist {
    Artist { name: name.to_string() }
}

fn strings(v: &[&str]) -> Vec<String> {
    v.iter().map(|s| s.to_string()).collect()
}

#[test]
fn duration_with_hours() {
    assert_eq!(fmt_duration(3725), "1:02:05");
    assert_eq!(fmt_duration(3600), "1:00:00");
    assert_eq!(fmt_duration(36000), "10:00:00");
}

#[test]
fn duration_without_hours() {
    assert_eq!(fmt_duration(0), "0:00");
    assert_eq!(fmt_duration(59), "0:59");
    assert_eq!(fmt_duration(61), "1:01");
    assert_eq!(fmt_duration(3599), "59:59");
}

#[test]
fn duration_negative_rounds_toward_zero() {
    assert_eq!(fmt_duration(-61), "-1:-1");
    assert_eq!(fmt_duration(-5), "0:-5");
    assert_eq!(fmt_duration(-3725), "-2:-5");
}

#[test]
fn duration_parts_add_back_up() {
    for secs in [0i32, 1, 59, 60, 3599, 3600, 3661, 86399, 100000] {
        let text = fmt_duration(secs);
        let parts: Vec<i32> = text.split(':').map(|p| p.parse().unwrap()).collect();
        let total = match parts.len() {
            3 => parts[0] * 3600 + parts[1] * 60 + parts[2],
            _ => parts[0] * 60 + parts[1],
        };
        assert_eq!(total, secs);
    }
}

#[test]
fn bar_is_twenty_wide() {
    for secs in [i32::MIN, -31, -30, -1, 0, 29, 30, 95, 599, 600, 601, i32::MAX] {
        assert_eq!(duration_bar(secs).chars().count(), 20);
    }
}

#[test]
fn bar_blocks_per_thirty_seconds() {
    assert_eq!(duration_bar(0), format!("{}{}", "█".repeat(1), "░".repeat(19)));
    assert_eq!(duration_bar(95), format!("{}{}", "█".repeat(3), "░".repeat(17)));
    assert_eq!(duration_bar(600), "█".repeat(20));
    assert_eq!(duration_bar(10_000), "█".repeat(20));
}

#[test]
fn bar_negative_is_full() {
    assert_eq!(duration_bar(-30), "█".repeat(20));
    assert_eq!(duration_bar(-29), format!("{}{}", "█", "░".repeat(19)));
}

#[test]
fn artists_joined_or_unknown() {
    assert_eq!(fmt_artists(&[]), "Desconocido");
    assert_eq!(fmt_artists(&[artist("Daft Punk")]), "Daft Punk");
    assert_eq!(
        fmt_artists(&[artist("A"), artist("B"), artist("C")]),
        "A & B & C"
    );
}

#[test]
fn decimal_text() {
    assert_eq!(u64_text(0), "0");
    assert_eq!(u64_text(1024), "1024");
    assert_eq!(u64_text(u64::MAX), "18446744073709551615");
}

#[test]
fn unicode_whitespace() {
    assert!(is_whitespace(' '));
    assert!(is_whitespace('\t'));
    assert!(is_whitespace('\u{3000}'));
    assert!(is_whitespace('\u{a0}'));
    assert!(!is_whitespace('x'));
    assert!(!is_whitespace('\u{200b}'));
    for c in ['\u{85}', '\u{1680}', '\u{2001}', '\u{2028}', '\u{205f}', 'a', '0', '_'] {
        assert_eq!(is_whitespace(c), c.is_whitespace());
    }
}

#[test]
fn trim_like_std() {
    for s in ["  hi  ", "\t\n x y \u{3000}", "", "   ", "abc"] {
        assert_eq!(trim_text(s), s.trim());
    }
}

#[test]
fn split_words_like_std() {
    for s in ["a  b\tc", "  lead", "trail  ", "", " \u{2003} ", "one"] {
        let expected: Vec<String> = s.split_whitespace().map(str::to_string).collect();
        assert_eq!(split_words(s), expected);
    }
}

#[test]
fn split_once_at_first_space() {
    assert_eq!(split_once_char("play  foo", ' '), ("play".to_string(), " foo".to_string()));
    assert_eq!(split_once_char("queue", ' '), ("queue".to_string(), String::new()));
    assert_eq!(find_char("abc", 'z'), 3);
    assert_eq!(find_char("abc", 'b'), 1);
}

#[test]
fn unsigned_parsing_like_std() {
    for s in ["0", "42", "+7", "255", "256", "", "+", "-1", "1a", " 1", "007"] {
        assert_eq!(parse_u64_up_to(s, 255), s.parse::<u8>().ok().map(|v| v as u64));
    }
    assert_eq!(parse_u64_up_to("18446744073709551615", u64::MAX), Some(u64::MAX));
    assert_eq!(parse_u64_up_to("18446744073709551616", u64::MAX), None);
}

#[test]
fn position_argument() {
    assert_eq!(parse_position(&strings(&["3"])), Some(3));
    assert_eq!(parse_position(&strings(&["0"])), None);
    assert_eq!(parse_position(&strings(&["tres"])), None);
    assert_eq!(parse_position(&[]), None);
}

#[test]
fn volume_argument() {
    assert_eq!(parse_volume_level(&strings(&["0"])), Some(0));
    assert_eq!(parse_volume_level(&strings(&["100"])), Some(100));
    assert_eq!(parse_volume_level(&strings(&["101"])), None);
    assert_eq!(parse_volume_level(&strings(&["300"])), None);
    assert_eq!(parse_volume_level(&strings(&["-5"])), None);
}

#[test]
fn query_joined_with_spaces() {
    assert_eq!(join_args(&strings(&["never", "gonna", "give"])), "never gonna give");
    assert_eq!(join_args(&[]), "");
}

#[test]
fn artist_names_read_back_from_text() {
    let names = ["Daft Punk", "Pharrell Williams", " x ", ""];
    let artists: Vec<Artist> = names.iter().map(|n| artist(n)).collect();
    let text = fmt_artists(&artists);
    assert_eq!(text.split(" & ").collect::<Vec<&str>>(), names.to_vec());
    assert_eq!(fmt_artists(&[artist("Solo")]), "Solo");
}

#[test]
fn longer_track_never_gets_shorter_bar() {
    let full = |s: i32| duration_bar(s).matches('\u{2588}').count();
    let samples = [0, 1, 29, 30, 59, 60, 89, 300, 599, 600, 601, 629, 630, 5000, i32::MAX];
    for w in samples.windows(2) {
        assert!(full(w[0]) <= full(w[1]));
    }
    assert_eq!(full(0), 1);
    assert_eq!(full(90), 3);
    assert_eq!(full(630), 20);
    let bar = duration_bar(95);
    assert!(bar.starts_with("\u{2588}\u{2588}\u{2588}\u{2591}"));
}
