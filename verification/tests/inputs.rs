use actions_core::text::{contains, decimal, is_whitespace, replace_char, split, text_eq, trim};
use actions_core::{
    get_boolean_input, get_input, get_multiline_input, input_variable_name, CoreError,
    InputOptions,
};

fn options(required: Option<bool>, trim_whitespace: Option<bool>) -> InputOptions {
    InputOptions { required, trim_whitespace }
}

#[test]
fn input_variable_name_upper_case_and_underscores() {
    assert_eq!(input_variable_name("my input"), "INPUT_MY_INPUT");
}

#[test]
fn input_variable_name_keeps_other_characters() {
    assert_eq!(input_variable_name("a-b c_d"), "INPUT_A-B_C_D");
}

#[test]
fn get_input_trims_by_default() {
    assert_eq!(get_input("n", "  value \n", None).ok().unwrap(), "value");
}

#[test]
fn get_input_trims_with_default_options() {
    let o = options(None, None);
    assert_eq!(get_input("n", "\t v v ", Some(&o)).ok().unwrap(), "v v");
}

#[test]
fn get_input_keeps_whitespace_when_asked() {
    let o = options(None, Some(false));
    assert_eq!(get_input("n", "  value ", Some(&o)).ok().unwrap(), "  value ");
}

#[test]
fn get_input_trims_when_asked() {
    let o = options(None, Some(true));
    assert_eq!(get_input("n", "  value ", Some(&o)).ok().unwrap(), "value");
}

#[test]
fn get_input_required_and_empty_is_refused() {
    let o = options(Some(true), None);
    match get_input("token", "", Some(&o)) {
        Err(CoreError::Configuration(m)) => assert_eq!(m, "input token required"),
        _ => panic!("expected a configuration error"),
    }
}

#[test]
fn get_input_not_required_and_empty_is_empty() {
    let o = options(Some(false), None);
    assert_eq!(get_input("token", "", Some(&o)).ok().unwrap(), "");
    assert_eq!(get_input("token", "", None).ok().unwrap(), "");
    let d = options(None, None);
    assert_eq!(get_input("token", "", Some(&d)).ok().unwrap(), "");
}

#[test]
fn get_input_required_and_blank_is_trimmed_to_empty() {
    let o = options(Some(true), None);
    assert_eq!(get_input("token", "   ", Some(&o)).ok().unwrap(), "");
}

#[test]
fn get_input_required_with_value() {
    let o = options(Some(true), None);
    assert_eq!(get_input("token", " x ", Some(&o)).ok().unwrap(), "x");
}

#[test]
fn get_multiline_input_trims_each_line() {
    let v = get_multiline_input("n", "  a \n b\n\nc  \n", None).ok().unwrap();
    assert_eq!(v, vec!["a", "b", "", "c"]);
}

#[test]
fn get_multiline_input_keeps_whitespace_when_asked() {
    let o = options(None, Some(false));
    let v = get_multiline_input("n", "  a \n b\n", Some(&o)).ok().unwrap();
    assert_eq!(v, vec!["  a ", " b", ""]);
}

#[test]
fn get_multiline_input_of_empty_value_is_one_empty_line() {
    let v = get_multiline_input("n", "", None).ok().unwrap();
    assert_eq!(v, vec![""]);
}

#[test]
fn get_multiline_input_required_and_empty_is_refused() {
    let o = options(Some(true), Some(false));
    match get_multiline_input("list", "", Some(&o)) {
        Err(CoreError::Configuration(m)) => assert_eq!(m, "input list required"),
        _ => panic!("expected a configuration error"),
    }
}

#[test]
fn get_boolean_input_accepts_the_six_literals() {
    for t in ["true", "True", "TRUE"] {
        assert_eq!(get_boolean_input("b", t, None).ok(), Some(true));
    }
    for f in ["false", "False", "FALSE"] {
        assert_eq!(get_boolean_input("b", f, None).ok(), Some(false));
    }
}

#[test]
fn get_boolean_input_trims_first() {
    assert_eq!(get_boolean_input("b", " true\n", None).ok(), Some(true));
}

#[test]
fn get_boolean_input_untrimmed_is_refused() {
    let o = options(None, Some(false));
    assert!(matches!(get_boolean_input("b", " true", Some(&o)), Err(CoreError::Validation(_))));
}

#[test]
fn get_boolean_input_rejects_other_texts() {
    for other in ["", "tRue", "yes", "1", "0", "truee", "fals", "TRUE FALSE"] {
        match get_boolean_input("flag", other, None) {
            Err(CoreError::Validation(m)) => {
                assert_eq!(m, "flag not `true | True | TRUE | false | False | FALSE`")
            },
            _ => panic!("expected a validation error"),
        }
    }
}

#[test]
fn get_boolean_input_required_and_empty_is_a_configuration_error() {
    let o = options(Some(true), None);
    match get_boolean_input("flag", "", Some(&o)) {
        Err(CoreError::Configuration(m)) => assert_eq!(m, "input flag required"),
        _ => panic!("expected a configuration error"),
    }
}

#[test]
fn trim_unicode_whitespace() {
    assert_eq!(trim("\u{3000}\u{a0} a b \u{2028}\r\n"), "a b");
    assert_eq!(trim("\u{3000}\u{a0} a b \u{2028}\r\n"), "\u{3000}\u{a0} a b \u{2028}\r\n".trim());
    assert_eq!(trim(" \t "), "");
    assert_eq!(trim(""), "");
    assert_eq!(trim("\u{200b}x\u{200b}"), "\u{200b}x\u{200b}");
}

#[test]
fn is_whitespace_agrees_with_char_on_every_scalar() {
    let mut n: u32 = 0;
    while n <= 0x10FFFF {
        if let Some(c) = char::from_u32(n) {
            assert_eq!(is_whitespace(c), c.is_whitespace());
        }
        n += 1;
    }
}

#[test]
fn split_pieces() {
    assert_eq!(split("a\nb", '\n'), "a\nb".split('\n').collect::<Vec<_>>());
    assert_eq!(split("\n", '\n'), vec!["", ""]);
    assert_eq!(split("", '\n'), vec![""]);
    assert_eq!(split("x,,y,", ','), vec!["x", "", "y", ""]);
}

#[test]
fn replace_char_all_occurrences() {
    assert_eq!(replace_char("a b  c", ' ', "__"), "a__b____c");
    assert_eq!(replace_char("abc", 'x', "y"), "abc");
    assert_eq!(replace_char("xx", 'x', ""), "");
}

#[test]
fn contains_substring() {
    assert!(contains("hello", "ell"));
    assert!(contains("hello", "hello"));
    assert!(contains("hello", ""));
    assert!(contains("", ""));
    assert!(contains("hello", "lo"));
    assert!(!contains("hello", "hex"));
    assert!(!contains("hi", "him"));
    assert!(!contains("", "a"));
}

#[test]
fn text_eq_compares_characters() {
    assert!(text_eq("abc", "abc"));
    assert!(!text_eq("abc", "abd"));
    assert!(!text_eq("abc", "ab"));
    assert!(text_eq("", ""));
}

#[test]
fn decimal_numerals() {
    assert_eq!(decimal(0), "0");
    assert_eq!(decimal(7), "7");
    assert_eq!(decimal(10), "10");
    assert_eq!(decimal(1905), "1905");
    assert_eq!(decimal(u32::MAX), "4294967295");
}
