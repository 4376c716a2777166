use harvester::event_arg::EventArg;
use harvester::metadata::Error;
use harvester::text::{characters, decimal_text, is_white_space, trim};

fn primitive(name: &str) -> EventArg {
    EventArg::Primitive(name.to_string())
}

fn message(text: &str) -> String {
    match EventArg::from_str(text) {
        Err(Error::InvalidEventArgument(message)) => message,
        other => panic!("{:?}", other),
    }
}

fn read(text: &str) -> EventArg {
    match EventArg::from_str(text) {
        Ok(arg) => arg,
        Err(e) => panic!("{:?}", e),
    }
}

#[test]
fn anything_else_is_primitive() {
    assert_eq!(read("AccountId"), primitive("AccountId"));
    assert_eq!(read(""), primitive(""));
    assert_eq!(read("u32>"), primitive("u32>"));
    assert_eq!(read(" Vec<u8>"), primitive(" Vec<u8>"));
    assert_eq!(read("Vec"), primitive("Vec"));
}

#[test]
fn vectors_and_options_nest() {
    assert_eq!(read("Vec<u8>"), EventArg::Vec(Box::new(primitive("u8"))));
    assert_eq!(read("Option<u8>"), EventArg::Option(Box::new(primitive("u8"))));
    assert_eq!(
        read("Vec<Option<Vec<T::AccountId>>>"),
        EventArg::Vec(Box::new(EventArg::Option(Box::new(EventArg::Vec(Box::new(primitive(
            "T::AccountId"
        )))))))
    );
    assert_eq!(read("Vec<>"), EventArg::Vec(Box::new(primitive(""))));
    assert_eq!(read("Option<>"), EventArg::Option(Box::new(primitive(""))));
}

#[test]
fn tuples_are_split_at_commas() {
    assert_eq!(
        read("(AccountId, Vec<u8> ,\tOption<Balance>)"),
        EventArg::Tuple(vec![
            primitive("AccountId"),
            EventArg::Vec(Box::new(primitive("u8"))),
            EventArg::Option(Box::new(primitive("Balance"))),
        ])
    );
    assert_eq!(read("()"), EventArg::Tuple(vec![primitive("")]));
    assert_eq!(read("(,)"), EventArg::Tuple(vec![primitive(""), primitive("")]));
}

#[test]
fn commas_of_inner_tuples_split_the_outer_one() {
    assert_eq!(message("((A, B), C)"), "(A");
    assert_eq!(message("(Vec<(A, B)>, C)"), "Vec<(A");
}

#[test]
fn inner_text_is_not_trimmed_in_brackets() {
    assert_eq!(read("Vec< u8 >"), EventArg::Vec(Box::new(primitive(" u8 "))));
}

#[test]
fn missing_closing_bracket_is_an_error() {
    assert_eq!(message("Vec<u8"), "Vec<u8");
    assert_eq!(message("Vec<"), "Vec<");
    assert_eq!(message("(u8"), "(u8");
    assert_eq!(message("("), "(");
    assert_eq!(message("Option<u8"), "Expected closing `>` for `Option` got: Option<u8");
    assert_eq!(
        message("Vec<Option<u8 >  >"),
        "Expected closing `>` for `Option` got: Option<u8 >  "
    );
}

#[test]
fn first_bad_argument_of_a_tuple_decides() {
    assert_eq!(message("(A, Vec<B, (C)"), "Vec<B");
}

#[test]
fn parse_reads_the_same() {
    let arg: Result<EventArg, Error> = "Vec<u8>".parse();
    match arg {
        Ok(arg) => assert_eq!(arg, read("Vec<u8>")),
        Err(e) => panic!("{:?}", e),
    }
}

#[test]
fn wide_characters_are_kept() {
    assert_eq!(read("Vec<ü→𝄞>"), EventArg::Vec(Box::new(primitive("ü→𝄞"))));
    assert_eq!(read("(\u{2003}é\u{3000},𝄞)"), EventArg::Tuple(vec![primitive("é"), primitive("𝄞")]));
}

#[test]
fn primitives_come_from_left_to_right() {
    assert_eq!(read("u8").primitives(), vec!["u8"]);
    assert_eq!(read("Vec<Option<u8>>").primitives(), vec!["u8"]);
    assert_eq!(read("(A, Vec<B>, Option<C>, A)").primitives(), vec!["A", "B", "C", "A"]);
    assert_eq!(EventArg::Tuple(vec![]).primitives(), Vec::<String>::new());
    assert_eq!(
        EventArg::Tuple(vec![
            EventArg::Tuple(vec![primitive("A"), primitive("B")]),
            EventArg::Tuple(vec![]),
            primitive("C"),
        ])
        .primitives(),
        vec!["A", "B", "C"]
    );
}

#[test]
fn rendered_argument_reads_back() {
    let arg = EventArg::Tuple(vec![
        EventArg::Vec(Box::new(EventArg::Option(Box::new(primitive("Balance"))))),
        primitive("u32"),
    ]);
    assert_eq!(read("(Vec<Option<Balance>>,u32)"), arg);
    assert_eq!(arg.clone(), arg);
}

#[test]
fn every_text_that_reads_holds_a_primitive() {
    for text in ["", "()", "Vec<>", "Option<()>", "(,)", "Vec<(A, B)>"] {
        assert!(read(text).primitives().len() > 0);
    }
}

#[test]
fn white_space_is_that_of_unicode() {
    for code in 0..=0x10ffffu32 {
        if let Some(c) = char::from_u32(code) {
            assert_eq!(is_white_space(c), c.is_whitespace(), "{:x}", code);
        }
    }
}

#[test]
fn trim_takes_white_space_from_both_ends() {
    for text in ["", " ", "a", " a", "a ", " a b ", "\u{85}\u{2009}x\u{a0}\n", "\u{200b}x", "𝄞 "] {
        assert_eq!(trim(text), text.trim());
    }
}

#[test]
fn characters_are_those_of_the_text() {
    assert_eq!(characters("aé𝄞"), vec!['a', 'é', '𝄞']);
    assert_eq!(characters(""), Vec::<char>::new());
}

fn render(arg: &EventArg) -> String {
    match arg {
        EventArg::Primitive(p) => p.clone(),
        EventArg::Vec(inner) => format!("Vec<{}>", render(inner)),
        EventArg::Option(inner) => format!("Option<{}>", render(inner)),
        EventArg::Tuple(args) => {
            let texts: Vec<String> = args.iter().map(render).collect();
            format!("({})", texts.join(","))
        }
    }
}

#[test]
fn text_without_white_space_is_that_of_what_it_gives() {
    for text in ["", "()", "(,)", "Vec<>", "(A,Vec<B>,Option<Vec<C>>)", "Vec<(A)>", "u8>", ")("] {
        assert_eq!(render(&read(text)), text);
    }
}

#[test]
fn primitives_of_lists_in_a_row_follow_each_other() {
    let first = vec![read("(A,B)"), primitive("C")];
    let second = vec![read("Vec<D>")];
    let all = [first.clone(), second.clone()].concat();
    let mut apart = EventArg::Tuple(first).primitives();
    apart.extend(EventArg::Tuple(second).primitives());
    assert_eq!(EventArg::Tuple(all).primitives(), apart);
    assert_eq!(apart, vec!["A", "B", "C", "D"]);
}

#[test]
fn decimal_numbers_have_no_leading_zeros() {
    for n in [0, 7, 9, 10, 42, 100, 255, 1_000_000, u32::MAX] {
        assert_eq!(decimal_text(n), n.to_string());
    }
}
