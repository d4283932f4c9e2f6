use wheelsticks::table::{decode, white_space, Misfit};

fn row(fields: &[&str]) -> Vec<String> {
    fields.iter().map(|field| (*field).into()).collect()
}

#[test]
fn table_decodes_rows_and_fields() {
    assert_eq!(
        decode("13 a  b\n 8 x\tyz", 3),
        Ok(vec![row(&["13", "a", "b"]), row(&["8", "x", "yz"])]),
    );
}

#[test]
fn table_names_the_line_and_the_field_count_of_a_misfit() {
    assert_eq!(
        decode("13 a b\n8 x\n1 2 3", 3),
        Err(Misfit { line_number: 2, expected: 3, found: 2, row: "8 x".into() }),
    );
    assert_eq!(
        decode("13 a b\n8 x\n1 2 3", 3).unwrap_err().words(),
        "Unable to parse result line 2, expected 3 fields but got 2: \"8 x\"",
    );
}

#[test]
fn table_names_the_first_misfit_only() {
    assert_eq!(
        decode("a\nb c\nd e f", 1),
        Err(Misfit { line_number: 2, expected: 1, found: 2, row: "b c".into() }),
    );
}

#[test]
fn empty_text_has_no_rows() {
    assert_eq!(decode("", 3), Ok(vec![]));
    assert_eq!(decode("", 0), Ok(vec![]));
}

#[test]
fn last_line_may_end_with_a_line_feed() {
    assert_eq!(decode("a b\nc d\n", 2), Ok(vec![row(&["a", "b"]), row(&["c", "d"])]));
    assert_eq!(decode("a b\nc d", 2), Ok(vec![row(&["a", "b"]), row(&["c", "d"])]));
}

#[test]
fn empty_line_is_a_row_without_fields() {
    assert_eq!(
        decode("a b\n\nc d", 2),
        Err(Misfit { line_number: 2, expected: 2, found: 0, row: "".into() }),
    );
    assert_eq!(decode("\n\n", 0), Ok(vec![row(&[]), row(&[])]));
    assert_eq!(
        decode("a b\n   ", 2),
        Err(Misfit { line_number: 2, expected: 2, found: 0, row: "   ".into() }),
    );
}

#[test]
fn carriage_return_before_line_feed_ends_the_line() {
    assert_eq!(
        decode("a\r\nb c\r\n", 1),
        Err(Misfit { line_number: 2, expected: 1, found: 2, row: "b c".into() }),
    );
    assert_eq!(
        decode("a b\rc", 1),
        Err(Misfit { line_number: 1, expected: 1, found: 3, row: "a b\rc".into() }),
    );
    assert_eq!(
        decode("a b\r", 1),
        Err(Misfit { line_number: 1, expected: 1, found: 2, row: "a b\r".into() }),
    );
}

#[test]
fn rows_agree_with_lines_and_split_whitespace() {
    let texts = [
        "",
        "\n",
        "\r\n",
        "\r",
        "a",
        " a ",
        "a\n",
        "a\r\n",
        "a\r",
        "a\n\n",
        "\na",
        "a b\tc\u{a0}d\u{2003}e\u{3000}f\u{85}g\u{1680}h\u{2028}i\u{2029}j\u{202f}k\u{205f}l",
        "x\u{b}y\u{c}z",
        "é ü\nße\u{200b}x y",
        "one  two\r\n three\r\r\nfour \n\r\n",
    ];
    for text in texts {
        for column_count in 0..4 {
            let expected: Vec<Vec<String>> = text
                .lines()
                .map(|line| line.split_whitespace().map(String::from).collect())
                .collect();
            let misfit = expected.iter().position(|fields| fields.len() != column_count);
            match (decode(text, column_count), misfit) {
                (Ok(rows), None) => assert_eq!(rows, expected),
                (Err(misfit), Some(at)) => assert_eq!(
                    misfit,
                    Misfit {
                        line_number: at + 1,
                        expected: column_count,
                        found: expected[at].len(),
                        row: text.lines().nth(at).unwrap().into(),
                    },
                ),
                (outcome, misfit) => panic!("{text:?}: {outcome:?} but {misfit:?}"),
            }
        }
    }
}

#[test]
fn white_space_is_what_char_takes_for_it() {
    for code in 0..=0x10FFFF_u32 {
        if let Some(character) = char::from_u32(code) {
            assert_eq!(white_space(character), character.is_whitespace(), "{code:#x}");
        }
    }
}

#[test]
fn misfit_words_hold_the_numbers_in_decimal() {
    let misfit = Misfit { line_number: 120, expected: 3, found: 1005, row: "a \"b\"\t\\".into() };
    assert_eq!(
        misfit.words(),
        "Unable to parse result line 120, expected 3 fields but got 1005: \"a \\\"b\\\"\\t\\\\\"",
    );
    let misfit = Misfit { line_number: 0, expected: 10, found: usize::MAX, row: "".into() };
    assert_eq!(
        misfit.words(),
        format!("Unable to parse result line 0, expected 10 fields but got {}: \"\"", usize::MAX),
    );
}
