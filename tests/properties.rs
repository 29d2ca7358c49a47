use unicode_width_cli::truncate::{
    alignment_from_lowercase, pad, parse_alignment, truncate, truncate_and_pad, Alignment,
};
use unicode_width_cli::{calculate_width, codepoint_width, grapheme_safe_truncate, width_breakdown};

const SAMPLES: [&str; 6] = [
    "",
    "hello",
    "你好世界",
    "a你👋b\u{0301}c",
    "hello\u{200B}world",
    "\u{7}tab\there",
];

#[test]
fn width_equals_sum_of_breakdown() {
    for s in SAMPLES {
        let total: usize = width_breakdown(s).iter().map(|p| p.1).sum();
        assert_eq!(calculate_width(s), total);
        assert_eq!(width_breakdown(s).len(), s.chars().count());
    }
}

#[test]
fn truncation_fits_budget_and_keeps_prefix() {
    for s in SAMPLES {
        for w in 0..12usize {
            let t = truncate(s, w);
            assert!(calculate_width(&t) <= w);
            assert!(s.starts_with(t.as_str()));
            assert_eq!(grapheme_safe_truncate(s, w), t);
        }
    }
}

#[test]
fn truncation_is_monotone_in_budget() {
    for s in SAMPLES {
        for w1 in 0..10usize {
            for w2 in w1..10usize {
                let t1 = truncate(s, w1);
                let t2 = truncate(s, w2);
                assert!(t2.starts_with(t1.as_str()));
            }
        }
    }
}

#[test]
fn padding_never_shrinks() {
    for s in SAMPLES {
        for target in 0..12usize {
            for align in [Alignment::Left, Alignment::Right, Alignment::Center] {
                let p = pad(s, target, align);
                let w = calculate_width(s);
                assert!(calculate_width(&p) >= w);
                assert_eq!(calculate_width(&p), w.max(target));
            }
        }
    }
}

#[test]
fn truncate_and_pad_is_exact_width() {
    for s in SAMPLES {
        for width in 0..12usize {
            for align in [Alignment::Left, Alignment::Right, Alignment::Center] {
                assert_eq!(calculate_width(&truncate_and_pad(s, width, align)), width);
            }
        }
    }
}

#[test]
fn center_puts_odd_space_on_the_right() {
    assert_eq!(pad("hi", 7, Alignment::Center), "  hi   ");
    assert_eq!(pad("hi", 3, Alignment::Center), "hi ");
    assert_eq!(pad("你", 4, Alignment::Center), " 你 ");
}

#[test]
fn wide_codepoint_over_budget_is_dropped_whole() {
    assert_eq!(truncate("你", 1), "");
    assert_eq!(truncate("a你", 2), "a");
    assert_eq!(truncate("", 5), "");
}

#[test]
fn control_codepoints_have_no_width() {
    assert_eq!(calculate_width("\u{7}"), 0);
    assert_eq!(calculate_width("a\tb"), 2);
    assert_eq!(width_breakdown("\u{1b}x"), vec![('\u{1b}', 0), ('x', 1)]);
    assert_eq!(codepoint_width('\u{85}'), 0);
}

#[test]
fn codepoint_widths() {
    assert_eq!(codepoint_width(' '), 1);
    assert_eq!(codepoint_width('你'), 2);
    assert_eq!(codepoint_width('\u{0301}'), 0);
    assert_eq!(codepoint_width('\u{200B}'), 0);
}

#[test]
fn pad_already_wide_text_is_unchanged() {
    assert_eq!(pad("你好", 4, Alignment::Center), "你好");
    assert_eq!(pad("你好", 0, Alignment::Right), "你好");
    assert_eq!(pad("", 3, Alignment::Right), "   ");
}

#[test]
fn literal_width_scenarios() {
    assert_eq!(calculate_width("hello"), 5);
    assert_eq!(calculate_width(""), 0);
    assert_eq!(calculate_width("你好"), 4);
    assert_eq!(calculate_width("e\u{0301}"), 1);
    assert_eq!(calculate_width("hello\u{200B}world"), 10);
    assert_eq!(truncate("你好世界", 5), "你好");
    assert_eq!(pad("hi", 6, Alignment::Center), "  hi  ");
    assert_eq!(pad("hi", 5, Alignment::Center), " hi  ");
    assert_eq!(truncate_and_pad("hello world", 8, Alignment::Left), "hello wo");
}

#[test]
fn alignment_tokens_any_case() {
    assert_eq!(parse_alignment("left"), Ok(Alignment::Left));
    assert_eq!(parse_alignment("RIGHT"), Ok(Alignment::Right));
    assert_eq!(parse_alignment("Center"), Ok(Alignment::Center));
}

#[test]
fn unknown_alignment_token_is_refused() {
    assert_eq!(parse_alignment("middle"), Err("Invalid alignment: middle".to_string()));
    assert_eq!(parse_alignment(""), Err("Invalid alignment: ".to_string()));
}

#[test]
fn lowercase_token_lookup_is_exact() {
    assert_eq!(alignment_from_lowercase("right"), Some(Alignment::Right));
    assert_eq!(alignment_from_lowercase("RIGHT"), None);
    assert_eq!(alignment_from_lowercase("lefty"), None);
}
