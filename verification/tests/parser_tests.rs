use braille_table::cells::BrailleCell;
use braille_table::cells::BrailleDot;
use braille_table::cells::char_to_dot;
use braille_table::parser::ErrorKind;
use braille_table::parser::Line;
use braille_table::parser::ParseError;
use braille_table::parser::Prefix;
use braille_table::parser::Prefixes;
use braille_table::parser::Rule;
use braille_table::parser::ascii_chars;
use braille_table::parser::chars;
use braille_table::parser::comment_line;
use braille_table::parser::display;
use braille_table::parser::dots;
use braille_table::parser::empty_line;
use braille_table::parser::end_comment;
use braille_table::parser::include_rule;
use braille_table::parser::joinword;
use braille_table::parser::largesign;
use braille_table::parser::multind;
use braille_table::parser::prefixes;
use braille_table::parser::rule_line;
use braille_table::parser::syllable;
use braille_table::parser::table;
use braille_table::parser::undefined;

fn cell(ds: &[BrailleDot]) -> BrailleCell {
    let mut c = BrailleCell::empty();
    for d in ds {
        c = c.with(*d);
    }
    c
}

fn pfx(set: &[Prefix]) -> Prefixes {
    let mut p = Prefixes::empty();
    for f in set {
        p = p.with(*f);
    }
    p
}

fn c123() -> BrailleCell {
    cell(&[BrailleDot::DOT1, BrailleDot::DOT2, BrailleDot::DOT3])
}

fn c12() -> BrailleCell {
    cell(&[BrailleDot::DOT1, BrailleDot::DOT2])
}

fn c1f() -> BrailleCell {
    cell(&[BrailleDot::DOT1, BrailleDot::DOTF])
}

fn c78() -> BrailleCell {
    cell(&[BrailleDot::DOT7, BrailleDot::DOT8])
}

#[test]
fn char_to_dot_test() {
    assert_eq!(char_to_dot('8'), Some(BrailleDot::DOT8));
    assert_eq!(char_to_dot('F'), None);
    assert_eq!(char_to_dot('z'), None);
}

#[test]
fn character_test() {
    assert_eq!(ascii_chars("hallo"), Ok(("", String::from("hallo"))));
    assert_eq!(ascii_chars("haLlo"), Ok(("", String::from("haLlo"))));
}

#[test]
fn dots_test() {
    assert_eq!(dots("123"), Ok(("", vec![c123()])));
    assert_eq!(dots("1f"), Ok(("", vec![c1f()])));
    assert_eq!(dots("123-1f"), Ok(("", vec![c123(), c1f()])));
    assert_eq!(dots("123-1f-78"), Ok(("", vec![c123(), c1f(), c78()])));
    assert_eq!(
        dots("huhu"),
        Err(ParseError { pos: 0, kind: ErrorKind::InvalidHexDigit })
    );
}

#[test]
fn include_test() {
    assert_eq!(
        include_rule("include filename"),
        Ok(("", Rule::Include { filename: String::from("filename") }))
    );
}

#[test]
fn undefined_test() {
    assert_eq!(
        undefined("undefined 12"),
        Ok(("", Rule::Undefined { dots: vec![c12()] }))
    );
}

#[test]
fn display_test() {
    assert_eq!(
        display("display haha 122"),
        Ok((
            "",
            Rule::Display {
                chars: String::from("haha"),
                dots: vec![c12()],
                prefixes: Prefixes::empty()
            }
        ))
    );
}

#[test]
fn prefixes_test() {
    assert_eq!(
        display("nocross display haha 122"),
        Ok((
            "",
            Rule::Display {
                chars: String::from("haha"),
                dots: vec![c12()],
                prefixes: pfx(&[Prefix::Nocross])
            }
        ))
    );
    assert_eq!(
        display("noback nocross display haha 122"),
        Ok((
            "",
            Rule::Display {
                chars: String::from("haha"),
                dots: vec![c12()],
                prefixes: pfx(&[Prefix::Noback, Prefix::Nocross])
            }
        ))
    );
}

#[test]
fn largesign_test() {
    assert_eq!(
        largesign("largesign überall 123"),
        Ok(("", Rule::Largesign { word: String::from("überall"), dots: vec![c123()] }))
    );
    assert_eq!(
        largesign("largesign அஇ 123"),
        Ok(("", Rule::Largesign { word: String::from("அஇ"), dots: vec![c123()] }))
    );
}

#[test]
fn joinword_test() {
    assert_eq!(
        joinword("joinword haha 123"),
        Ok(("", Rule::Joinword { word: String::from("haha"), dots: vec![c123()] }))
    );
    assert_eq!(
        joinword("joinword அஇ 123"),
        Ok(("", Rule::Joinword { word: String::from("அஇ"), dots: vec![c123()] }))
    );
}

#[test]
fn rule_line_test() {
    assert_eq!(
        rule_line("joinword haha 123\n"),
        Ok((
            "",
            Line::Rule {
                rule: Rule::Joinword { word: String::from("haha"), dots: vec![c123()] },
                comment: String::new()
            }
        ))
    );
    assert_eq!(
        rule_line("largesign அஇ 123\n"),
        Ok((
            "",
            Line::Rule {
                rule: Rule::Largesign { word: String::from("அஇ"), dots: vec![c123()] },
                comment: String::new()
            }
        ))
    );
    assert_eq!(
        rule_line("syllable haha 123\n"),
        Ok((
            "",
            Line::Rule {
                rule: Rule::Syllable { word: String::from("haha"), dots: vec![c123()] },
                comment: String::new()
            }
        ))
    );
}

#[test]
fn empty_line_test() {
    assert_eq!(empty_line("       \n"), Ok(("", Line::Empty)));
    assert_eq!(empty_line("\n"), Ok(("", Line::Empty)));
}

#[test]
fn comment_line_test() {
    assert_eq!(
        comment_line("# haha 1234    \n"),
        Ok(("", Line::Comment { comment: String::from(" haha 1234    ") }))
    );
    assert_eq!(
        comment_line("# haha 1234    "),
        Err(ParseError { pos: 15, kind: ErrorKind::MissingLineTerminator })
    );
}

#[test]
fn end_comment_test() {
    assert_eq!(
        end_comment("an end comment\n"),
        Err(ParseError { pos: 0, kind: ErrorKind::MissingArgument })
    );
    assert_eq!(
        end_comment(" an end comment\n"),
        Ok(("\n", String::from("an end comment")))
    );
    assert_eq!(
        rule_line("joinword haha 123 comment \n"),
        Ok((
            "",
            Line::Rule {
                rule: Rule::Joinword { word: String::from("haha"), dots: vec![c123()] },
                comment: String::from("comment ")
            }
        ))
    );
}

#[test]
fn table_test() {
    let input = "       \njoinword haha 123\nsyllable haha 123-1f\n";
    assert_eq!(
        table(input),
        (
            "",
            vec![
                Line::Empty,
                Line::Rule {
                    rule: Rule::Joinword { word: String::from("haha"), dots: vec![c123()] },
                    comment: String::new()
                },
                Line::Rule {
                    rule: Rule::Syllable {
                        word: String::from("haha"),
                        dots: vec![c123(), c1f()]
                    },
                    comment: String::new()
                },
            ]
        )
    );
    let input2 = "       \n# just testing\nnocross multind hehe 123\njoinword haha 123\nsyllable haha 123\n";
    assert_eq!(
        table(input2),
        (
            "",
            vec![
                Line::Empty,
                Line::Comment { comment: String::from(" just testing") },
                Line::Rule {
                    rule: Rule::Multind {
                        chars: String::from("hehe"),
                        dots: vec![c123()],
                        prefixes: pfx(&[Prefix::Nocross])
                    },
                    comment: String::new()
                },
                Line::Rule {
                    rule: Rule::Joinword { word: String::from("haha"), dots: vec![c123()] },
                    comment: String::new()
                },
                Line::Rule {
                    rule: Rule::Syllable { word: String::from("haha"), dots: vec![c123()] },
                    comment: String::new()
                },
            ]
        )
    );
}

#[test]
fn dot_decoding_alphabet_test() {
    for c in "0123456789abcdef".chars() {
        assert!(char_to_dot(c).is_some());
    }
    let mut seen = Vec::new();
    for c in "0123456789abcdef".chars() {
        let d = char_to_dot(c).unwrap();
        assert!(!seen.contains(&d));
        seen.push(d);
    }
    for c in "ABCDEFg-. #\n".chars() {
        assert!(char_to_dot(c).is_none());
    }
}

#[test]
fn distinct_digit_flag_count_test() {
    let (rest, cells) = dots("1212").unwrap();
    assert_eq!(rest, "");
    assert_eq!(cells, vec![c12()]);
    let all = [
        BrailleDot::DOT0,
        BrailleDot::DOT1,
        BrailleDot::DOT2,
        BrailleDot::DOT3,
        BrailleDot::DOT4,
        BrailleDot::DOT5,
        BrailleDot::DOT6,
        BrailleDot::DOT7,
        BrailleDot::DOT8,
        BrailleDot::DOT9,
        BrailleDot::DOTA,
        BrailleDot::DOTB,
        BrailleDot::DOTC,
        BrailleDot::DOTD,
        BrailleDot::DOTE,
        BrailleDot::DOTF,
    ];
    let mut count = 0;
    for d in all {
        if cells[0].has(d) {
            count += 1;
        }
    }
    assert_eq!(count, 2);
}

#[test]
fn empty_dot_group_test() {
    assert_eq!(dots(""), Err(ParseError { pos: 0, kind: ErrorKind::EmptyDotGroup }));
    assert_eq!(dots("12-"), Err(ParseError { pos: 3, kind: ErrorKind::EmptyDotGroup }));
    assert_eq!(dots("12--34"), Err(ParseError { pos: 3, kind: ErrorKind::EmptyDotGroup }));
    assert_eq!(dots("12-x"), Err(ParseError { pos: 3, kind: ErrorKind::InvalidHexDigit }));
    assert_eq!(dots("12F"), Ok(("F", vec![c12()])));
}

#[test]
fn prefix_parser_total_test() {
    assert_eq!(
        prefixes("noback nocross "),
        ("", pfx(&[Prefix::Noback, Prefix::Nocross]))
    );
    assert_eq!(
        prefixes("nofor nocross x"),
        ("x", pfx(&[Prefix::Nofor, Prefix::Nocross]))
    );
    assert_eq!(prefixes("nofor rest"), ("rest", pfx(&[Prefix::Nofor])));
    assert_eq!(prefixes("noback rest"), ("rest", pfx(&[Prefix::Noback])));
    assert_eq!(prefixes("nocross rest"), ("rest", pfx(&[Prefix::Nocross])));
    assert_eq!(prefixes("anything else"), ("anything else", Prefixes::empty()));
    assert_eq!(prefixes(""), ("", Prefixes::empty()));
    assert_eq!(prefixes("nobackx"), ("nobackx", Prefixes::empty()));
    let (_, p) = prefixes("noback nofor ");
    assert!(!(p.has(Prefix::Noback) && p.has(Prefix::Nofor)));
    assert!(p.has(Prefix::Noback));
}

#[test]
fn multind_prefix_test() {
    assert_eq!(
        multind("nocross multind hehe 123"),
        Ok((
            "",
            Rule::Multind {
                chars: String::from("hehe"),
                dots: vec![c123()],
                prefixes: pfx(&[Prefix::Nocross])
            }
        ))
    );
}

#[test]
fn unicode_word_boundary_test() {
    assert_eq!(chars("haha 123"), Ok((" 123", String::from("haha"))));
    assert_eq!(chars("ab1"), Ok(("1", String::from("ab"))));
    assert_eq!(chars("அஇ x"), Ok((" x", String::from("அஇ"))));
    assert_eq!(chars("123"), Err(ParseError { pos: 0, kind: ErrorKind::MissingArgument }));
    assert_eq!(ascii_chars("über"), Err(ParseError { pos: 0, kind: ErrorKind::MissingArgument }));
}

#[test]
fn line_classification_test() {
    assert_eq!(
        braille_table::parser::line("include filename\n"),
        Ok((
            "",
            Line::Rule {
                rule: Rule::Include { filename: String::from("filename") },
                comment: String::new()
            }
        ))
    );
    assert_eq!(
        braille_table::parser::line("undefined 12\n"),
        Ok((
            "",
            Line::Rule { rule: Rule::Undefined { dots: vec![c12()] }, comment: String::new() }
        ))
    );
    assert_eq!(
        braille_table::parser::line("# just testing\n"),
        Ok(("", Line::Comment { comment: String::from(" just testing") }))
    );
    assert_eq!(braille_table::parser::line("huh"), Err(ParseError { pos: 0, kind: ErrorKind::UnrecognizedLine }));
}

#[test]
fn rule_error_kind_test() {
    assert_eq!(
        rule_line("foo bar\n"),
        Err(ParseError { pos: 0, kind: ErrorKind::UnrecognizedKeyword })
    );
    assert_eq!(
        rule_line("joinword haha 123"),
        Err(ParseError { pos: 17, kind: ErrorKind::MissingLineTerminator })
    );
    assert_eq!(
        include_rule("include "),
        Err(ParseError { pos: 8, kind: ErrorKind::MissingArgument })
    );
    assert_eq!(
        display("display haha"),
        Err(ParseError { pos: 12, kind: ErrorKind::MissingArgument })
    );
    assert_eq!(
        undefined("undefined huhu"),
        Err(ParseError { pos: 10, kind: ErrorKind::InvalidHexDigit })
    );
}

#[test]
fn table_stops_at_bad_line_test() {
    let input = "joinword haha 123\nhuh?\nsyllable haha 1\n";
    let (rest, lines) = table(input);
    assert_eq!(rest, "huh?\nsyllable haha 1\n");
    assert_eq!(lines.len(), 1);
    assert_eq!(table(""), ("", Vec::new()));
}

#[test]
fn crlf_line_test() {
    assert_eq!(
        rule_line("joinword haha 123\r\n"),
        Ok((
            "",
            Line::Rule {
                rule: Rule::Joinword { word: String::from("haha"), dots: vec![c123()] },
                comment: String::new()
            }
        ))
    );
    assert_eq!(empty_line("  \r\n"), Ok(("", Line::Empty)));
}
