use wheelsticks::text::less;

#[test]
fn less_orders_byte_by_byte() {
    assert!(less("a", "b"));
    assert!(!less("b", "a"));
    assert!(less("a", "aa"));
    assert!(!less("aa", "a"));
    assert!(less("", "a"));
    assert!(!less("a", ""));
    assert!(less("Z", "a"));
    assert!(less("c10", "c9"));
}

#[test]
fn nothing_is_less_than_itself() {
    for text in ["", "a", "web", "größe", "\u{10FFFF}"] {
        assert!(!less(text, text));
    }
}

#[test]
fn less_agrees_with_the_order_of_strings() {
    let texts = [
        "", "a", "A", "aa", "ab", "b", "web", "web1", "web-1", "we", "é", "e", "z", "ü", "\u{7f}",
        "\u{80}", "\u{7ff}", "\u{800}", "\u{ffff}", "\u{10000}", "\u{10FFFF}", "c1", "c10", "c2",
    ];
    for left in texts {
        for right in texts {
            assert_eq!(less(left, right), left < right, "{left:?} {right:?}");
        }
    }
}
