use nanai_simple_lang::parser::let_text::{parse_let, Expected, LetText, LetTextError};
use nom::bytes::complete::tag;
use nom::character::complete::{alpha1, alphanumeric1, multispace0};
use nom::combinator::{opt, recognize};
use nom::multi::many1;
use nom::sequence::tuple;
use nom::IResult;

fn decl(mutable: bool, name: &str, ty: Option<&str>, value: &str) -> LetText {
    LetText {
        mutable,
        name: name.to_string(),
        ty: ty.map(|t| t.to_string()),
        value: value.to_string(),
    }
}

#[test]
fn plain_declaration() {
    assert_eq!(parse_let("let x = 5"), Ok(("", decl(false, "x", None, "5"))));
}

#[test]
fn mutable_and_typed_declaration() {
    assert_eq!(
        parse_let("  let mut total : int = a1 + 2"),
        Ok((" + 2", decl(true, "total", Some("int"), "a1")))
    );
}

#[test]
fn pieces_need_no_space_between_them() {
    assert_eq!(parse_let("letx=1"), Ok(("", decl(false, "x", None, "1"))));
    assert_eq!(parse_let("let mutx:t=y z"), Ok((" z", decl(true, "x", Some("t"), "y"))));
}

#[test]
fn a_name_is_letters_only() {
    assert_eq!(
        parse_let("let x1 = 5"),
        Err(LetTextError { expected: Expected::Equals, at: 5 })
    );
    assert_eq!(parse_let("let _x = 5"), Err(LetTextError { expected: Expected::Name, at: 4 }));
}

#[test]
fn what_is_missing_and_where() {
    assert_eq!(parse_let(""), Err(LetTextError { expected: Expected::Let, at: 0 }));
    assert_eq!(parse_let("  le"), Err(LetTextError { expected: Expected::Let, at: 2 }));
    assert_eq!(parse_let("x = 1"), Err(LetTextError { expected: Expected::Let, at: 0 }));
    assert_eq!(parse_let("let"), Err(LetTextError { expected: Expected::Name, at: 3 }));
    assert_eq!(parse_let("let mut "), Err(LetTextError { expected: Expected::Name, at: 8 }));
    assert_eq!(parse_let("let x"), Err(LetTextError { expected: Expected::Equals, at: 5 }));
    assert_eq!(parse_let("let x = "), Err(LetTextError { expected: Expected::Value, at: 8 }));
    assert_eq!(parse_let("let x = +"), Err(LetTextError { expected: Expected::Value, at: 8 }));
}

#[test]
fn a_colon_without_a_type_is_not_taken() {
    assert_eq!(
        parse_let("let x : = 1"),
        Err(LetTextError { expected: Expected::Equals, at: 6 })
    );
}

#[test]
fn the_place_counts_characters() {
    assert_eq!(
        parse_let("let \u{e9} = 1"),
        Err(LetTextError { expected: Expected::Name, at: 4 })
    );
    assert_eq!(parse_let("let x = 1\u{e9}\u{e9}"), Ok(("\u{e9}\u{e9}", decl(false, "x", None, "1"))));
}

fn with_combinators(input: &str) -> IResult<&str, (bool, String, Option<String>, String)> {
    let (input, _) = multispace0(input)?;
    let (input, _) = tag("let")(input)?;
    let (input, _) = multispace0(input)?;
    let (input, mut_kw) = opt(tag("mut"))(input)?;
    let mutable = mut_kw.is_some();
    let (input, _) = multispace0(input)?;
    let (input, name) = alpha1(input)?;
    let (input, _) = multispace0(input)?;
    let (input, ty) = opt(tuple((tag(":"), multispace0, alpha1)))(input)?;
    let ty = ty.map(|(_, _, t)| t.to_string());
    let (input, _) = multispace0(input)?;
    let (input, _) = tag("=")(input)?;
    let (input, _) = multispace0(input)?;
    let (input, value) = recognize(many1(alphanumeric1))(input)?;
    Ok((input, (mutable, name.to_string(), ty, value.to_string())))
}

#[test]
fn agrees_with_the_combinator_parser() {
    let texts = [
        "let x = 5",
        "let mut x = 5",
        "let mut x: int = 5 rest",
        " \t\r\nlet\nmut\tx\r:\nint\t=\r\n5",
        "letmutx:int=5",
        "let mutable = 1",
        "let mut = 1",
        "let m = 1",
        "let x : int = y",
        "let x : 1",
        "let x : = 1",
        "let x :: int = 1",
        "let x: int",
        "let x: int =",
        "let x: int = ;",
        "let x = abc123def 4",
        "let x = 12ab",
        "let x == 1",
        "let x = = 1",
        "let 1 = 1",
        "let x y = 1",
        "let",
        "le",
        "",
        "   ",
        "Let x = 1",
        "let X = Y",
        "let x = \u{e9}",
        "let \u{e9} = 1",
        "let x\u{3000}= 1",
        "let x = 1\u{e9}",
        "\u{feff}let x = 1",
        "let x = 1 let y = 2",
    ];
    for text in texts {
        let ours = parse_let(text);
        match with_combinators(text) {
            Ok((rest, (mutable, name, ty, value))) => {
                assert_eq!(ours, Ok((rest, LetText { mutable, name, ty, value })), "{:?}", text);
            }
            Err(nom::Err::Error(e)) => {
                let at = text.chars().count() - e.input.chars().count();
                match ours {
                    Err(found) => assert_eq!(found.at, at, "{:?}", text),
                    Ok(_) => panic!("{:?} was read", text),
                }
            }
            Err(_) => panic!("{:?}", text),
        }
    }
}

fn every_text(alphabet: &[char], len: usize, text: &mut String, each: &mut dyn FnMut(&str)) {
    each(text);
    if len == 0 {
        return;
    }
    for c in alphabet {
        text.push(*c);
        every_text(alphabet, len - 1, text, each);
        text.pop();
    }
}

#[test]
fn agrees_with_the_combinator_parser_on_short_texts() {
    let mut count = 0;
    for start in ["", "let", " let ", "letmut"] {
        let mut text = start.to_string();
        every_text(&[' ', 'm', 'u', 't', ':', '=', 'a', '1'], 5, &mut text, &mut |text| {
            let ours = parse_let(text);
            match with_combinators(text) {
                Ok((rest, (mutable, name, ty, value))) => {
                    assert_eq!(ours, Ok((rest, LetText { mutable, name, ty, value })), "{:?}", text);
                }
                Err(nom::Err::Error(e)) => {
                    let at = text.chars().count() - e.input.chars().count();
                    match ours {
                        Err(found) => assert_eq!(found.at, at, "{:?}", text),
                        Ok(_) => panic!("{:?} was read", text),
                    }
                }
                Err(_) => panic!("{:?}", text),
            }
            count += 1;
        });
    }
    assert!(count > 100000);
}
