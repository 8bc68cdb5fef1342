use ncmdump::document::{check_digit_runs, parse_document, JsonDoc, JsonNumber, MAX_DIGIT_RUN};

fn number(n: u64) -> JsonDoc {
    JsonDoc::Number(JsonNumber { positive: true, mantissa: n, exponent: 0 })
}

fn text(s: &str) -> JsonDoc {
    JsonDoc::Text(s.to_string())
}

#[test]
fn parse_reads_each_kind_of_value() {
    assert_eq!(parse_document("null"), Some(JsonDoc::Null));
    assert_eq!(parse_document("true"), Some(JsonDoc::Flag(true)));
    assert_eq!(parse_document("false"), Some(JsonDoc::Flag(false)));
    assert_eq!(parse_document("\"abc\""), Some(text("abc")));
    assert_eq!(parse_document("320"), Some(number(320)));
    assert_eq!(parse_document("[]"), Some(JsonDoc::List(vec![])));
    assert_eq!(parse_document("{}"), Some(JsonDoc::Record(vec![])));
}

#[test]
fn parse_reads_long_and_escaped_text() {
    let long = "a text that is longer than thirty bytes, so that it is not kept inline";
    assert_eq!(parse_document(&format!("\"{}\"", long)), Some(text(long)));
    assert_eq!(parse_document("\"a\\\"b\\u00e9\""), Some(text("a\"b\u{e9}")));
}

#[test]
fn parse_reads_numbers_by_their_parts() {
    assert_eq!(
        parse_document("-5"),
        Some(JsonDoc::Number(JsonNumber { positive: false, mantissa: 5, exponent: 0 }))
    );
    assert_eq!(
        parse_document("1.5"),
        Some(JsonDoc::Number(JsonNumber { positive: true, mantissa: 15, exponent: -1 }))
    );
}

#[test]
fn parse_keeps_members_in_order() {
    assert_eq!(
        parse_document("{\"b\":1,\"a\":[\"x\",2],\"c\":{\"d\":null}}"),
        Some(JsonDoc::Record(vec![
            ("b".to_string(), number(1)),
            ("a".to_string(), JsonDoc::List(vec![text("x"), number(2)])),
            ("c".to_string(), JsonDoc::Record(vec![("d".to_string(), JsonDoc::Null)])),
        ]))
    );
}

#[test]
fn parse_refuses_what_is_no_document() {
    assert_eq!(parse_document(""), None);
    assert_eq!(parse_document("{"), None);
    assert_eq!(parse_document("{\"a\":}"), None);
    assert_eq!(parse_document("[1,2"), None);
    assert_eq!(parse_document("nul"), None);
    assert_eq!(parse_document("{} x"), None);
}

#[test]
fn integer_of_a_number() {
    let n = |positive, mantissa, exponent| JsonNumber { positive, mantissa, exponent };
    assert_eq!(n(true, 0, 0).as_integer(), Some(0));
    assert_eq!(n(false, 0, 0).as_integer(), Some(0));
    assert_eq!(n(true, 320, 0).as_integer(), Some(320));
    assert_eq!(n(false, 320, 0).as_integer(), Some(-320));
    assert_eq!(n(true, i64::MAX as u64, 0).as_integer(), Some(i64::MAX));
    assert_eq!(n(true, i64::MAX as u64 + 1, 0).as_integer(), None);
    assert_eq!(n(false, i64::MAX as u64 + 1, 0).as_integer(), Some(i64::MIN));
    assert_eq!(n(false, i64::MAX as u64 + 2, 0).as_integer(), None);
    assert_eq!(n(true, u64::MAX, 0).as_integer(), None);
    assert_eq!(n(true, 32, 1).as_integer(), None);
    assert_eq!(n(true, 3200, -1).as_integer(), None);
}

#[test]
fn text_and_integer_of_a_document() {
    assert_eq!(text("abc").as_text(), Some(&"abc".to_string()));
    assert_eq!(number(3).as_text(), None);
    assert_eq!(JsonDoc::Null.as_text(), None);
    assert_eq!(number(3).as_integer(), Some(3));
    assert_eq!(text("3").as_integer(), None);
    assert_eq!(JsonDoc::Flag(true).as_integer(), None);
}

#[test]
fn member_of_a_record() {
    let doc = JsonDoc::Record(vec![
        ("a".to_string(), number(1)),
        ("b".to_string(), text("x")),
        ("a".to_string(), number(2)),
    ]);
    assert_eq!(doc.get_member("a"), Some(&number(1)));
    assert_eq!(doc.get_member("b"), Some(&text("x")));
    assert_eq!(doc.get_member("c"), None);
    assert_eq!(doc.get_member(""), None);
    assert_eq!(JsonDoc::Record(vec![]).get_member("a"), None);
    assert_eq!(JsonDoc::List(vec![number(1)]).get_member("a"), None);
    assert_eq!(text("a").get_member("a"), None);
}

#[test]
fn item_of_a_list() {
    let doc = JsonDoc::List(vec![text("x"), number(2)]);
    assert_eq!(doc.get_item(0), Some(&text("x")));
    assert_eq!(doc.get_item(1), Some(&number(2)));
    assert_eq!(doc.get_item(2), None);
    assert_eq!(JsonDoc::Null.get_item(0), None);
    assert_eq!(JsonDoc::Record(vec![("0".to_string(), number(1))]).get_item(0), None);
}

fn fraction_of_zeros(digits: usize) -> String {
    let mut text = String::from("0.");
    text.extend(std::iter::repeat('0').take(digits));
    text
}

#[test]
fn digit_runs_up_to_the_limit_fit() {
    assert!(check_digit_runs(b""));
    assert!(check_digit_runs(b"0123456789"));
    assert!(check_digit_runs(b"no digit at all"));
    assert!(check_digit_runs(&vec![b'7'; MAX_DIGIT_RUN]));
    let mut broken = vec![b'1'; 2 * MAX_DIGIT_RUN + 1];
    broken[MAX_DIGIT_RUN] = b'.';
    assert!(check_digit_runs(&broken));
    assert!(check_digit_runs(&vec![b'a'; 100_000]));
    assert!(check_digit_runs(&vec![b'/'; 40_000]));
    assert!(check_digit_runs(&vec![b':'; 40_000]));
}

#[test]
fn digit_runs_past_the_limit_do_not_fit() {
    assert!(!check_digit_runs(&vec![b'0'; MAX_DIGIT_RUN + 1]));
    assert!(!check_digit_runs(&vec![b'9'; MAX_DIGIT_RUN + 2]));
    let mut late = vec![b'x'; 10];
    late.extend(vec![b'5'; MAX_DIGIT_RUN + 1]);
    late.push(b'x');
    assert!(!check_digit_runs(&late));
    let mut broken = vec![b'1'; 2 * MAX_DIGIT_RUN + 2];
    broken[MAX_DIGIT_RUN] = b'.';
    assert!(!check_digit_runs(&broken));
}

#[test]
fn fraction_at_the_limit_is_read() {
    assert_eq!(
        parse_document(&fraction_of_zeros(MAX_DIGIT_RUN)),
        Some(JsonDoc::Number(JsonNumber { positive: true, mantissa: 0, exponent: -32767 }))
    );
}

#[test]
fn fraction_past_the_limit_is_not_read() {
    assert_eq!(parse_document(&fraction_of_zeros(32768)), None);
    assert_eq!(parse_document(&fraction_of_zeros(32769)), None);
    assert_eq!(parse_document(&fraction_of_zeros(100_000)), None);
    assert_eq!(parse_document(&format!("[1,{},2]", fraction_of_zeros(32769))), None);
    assert_eq!(parse_document(&format!("{{\"a\":-{}}}", fraction_of_zeros(32769))), None);
}

#[test]
fn long_run_of_digits_is_not_read_wherever_it_stands() {
    let digits: String = std::iter::repeat('1').take(32768).collect();
    assert_eq!(parse_document(&digits), None);
    assert_eq!(parse_document(&format!("\"{}\"", digits)), None);
    let shorter: String = std::iter::repeat('1').take(32767).collect();
    assert_eq!(parse_document(&format!("\"{}\"", shorter)), Some(text(&shorter)));
}
