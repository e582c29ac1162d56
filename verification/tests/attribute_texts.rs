use url_mapper::attribute::{hello_attribute, repeat, show_streams};
use url_mapper::numeral::{decimal_text, digit_of, parse_count};
use url_mapper::basics::find;

#[test]
fn feature() {
    let repeat_count = 2;
    let input_fn = "TokenStream::new()";
    let copies = repeat(repeat_count, input_fn);
    assert_eq!(copies.len(), 2);
    if let Some(index) = find(input_fn, '(') {
        assert_eq!(index, 16);
        for i in 0..repeat_count {
            let ret = format!("{}{}{}", &input_fn[..index], i + 1, &input_fn[index..]);
            println!("fn: \"{}\"", ret);
            assert_eq!(copies[i as usize], ret);
        }
    } else {
        panic!("the text holds an opening bracket");
    }
    assert_eq!(copies[0], "TokenStream::new1()");
    assert_eq!(copies[1], "TokenStream::new2()");
}

#[test]
fn repeat_numbers_the_name_before_the_first_bracket() {
    let copies = repeat(3, "fn prt() { println!(\"Hello, greet2!\"); }");
    assert_eq!(
        copies,
        vec![
            "fn prt1() { println!(\"Hello, greet2!\"); }".to_string(),
            "fn prt2() { println!(\"Hello, greet2!\"); }".to_string(),
            "fn prt3() { println!(\"Hello, greet2!\"); }".to_string(),
        ]
    );
}

#[test]
fn repeat_without_bracket_gives_nothing() {
    assert!(repeat(5, "struct Unit;").is_empty());
    assert!(repeat(5, "").is_empty());
}

#[test]
fn repeat_zero_times_gives_nothing() {
    assert!(repeat(0, "fn f() {}").is_empty());
}

#[test]
fn repeat_counts_past_nine() {
    let copies = repeat(12, "f()");
    assert_eq!(copies.len(), 12);
    assert_eq!(copies[8], "f9()");
    assert_eq!(copies[9], "f10()");
    assert_eq!(copies[11], "f12()");
}

#[test]
fn repeat_keeps_characters_of_several_bytes() {
    let copies = repeat(1, "fn grüße(ß: u8) {}");
    assert_eq!(copies, vec!["fn grüße1(ß: u8) {}".to_string()]);
}

#[test]
fn decimal_text_matches_the_standard_rendering() {
    for n in [0u32, 1, 9, 10, 11, 99, 100, 101, 4096, 1_000_000, u32::MAX - 1, u32::MAX] {
        assert_eq!(decimal_text(n), n.to_string());
    }
    assert_eq!(decimal_text(4294967295), "4294967295");
    assert_eq!(decimal_text(7), "7");
}

#[test]
fn hello_attribute_writes_the_print_statement() {
    assert_eq!(hello_attribute("Greet"), "println!(\"Hello, Greet\");");
    assert_eq!(hello_attribute(""), "println!(\"Hello, \");");
}

#[test]
fn show_streams_quotes_both_texts() {
    let (first, second) = show_streams("bar", "fn invoke1() {}");
    assert_eq!(first, "attr: \"bar\"");
    assert_eq!(second, "item: \"fn invoke1() {}\"");
}

#[test]
fn parse_count_reads_digits_with_or_without_plus() {
    assert_eq!(parse_count("2"), Some(2));
    assert_eq!(parse_count("0"), Some(0));
    assert_eq!(parse_count("+7"), Some(7));
    assert_eq!(parse_count("007"), Some(7));
    assert_eq!(parse_count("+000"), Some(0));
    assert_eq!(parse_count("4294967295"), Some(u32::MAX));
    assert_eq!(parse_count("0004294967295"), Some(u32::MAX));
}

#[test]
fn parse_count_refuses_everything_else() {
    for text in [
        "", "+", "-", "-1", "-0", "++1", "+-1", "1+", "1 ", " 1", "1_000", "0x10", "1.0", "a", "12a",
        "a12", "4294967296", "4294967300", "42949672950", "99999999999999999999", "٣", "１",
    ] {
        assert_eq!(parse_count(text), None);
    }
}

#[test]
fn parse_count_agrees_with_the_standard_parser() {
    for text in [
        "", "+", "-", "0", "+0", "-0", "1", "+1", "-1", "10", "010", "+010", "++1", "1+", "12a",
        "4294967294", "4294967295", "4294967296", "+4294967295", "+4294967296", "5000000000",
        "18446744073709551616", "00000000000000000000001", " 1", "1\n", "é", "1é",
    ] {
        assert_eq!(parse_count(text), text.parse::<u32>().ok());
    }
}

#[test]
fn parse_count_reads_back_what_decimal_text_writes() {
    for n in [0u32, 1, 9, 10, 99, 100, 12345, 4294967294, u32::MAX] {
        assert_eq!(parse_count(&decimal_text(n)), Some(n));
    }
}

#[test]
fn digit_of_knows_the_ten_digits() {
    for (value, c) in "0123456789".chars().enumerate() {
        assert_eq!(digit_of(c), Some(value as u32));
    }
    for c in ['a', '+', '-', ' ', '/', ':', '٣', '１'] {
        assert_eq!(digit_of(c), None);
    }
}
