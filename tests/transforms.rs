use dlog::models::{Log, Priority, Timestamp};
use dlog::transforms::{get_last_four, ConsoleTransform, CreditCardTransform, TransformKind, Transforms};

fn mask(s: &str) -> String {
    CreditCardTransform.mask(s)
}

const BULLETS: &str = "\u{2022}\u{2022}\u{2022}\u{2022}\u{2022}\u{2022}\u{2022}\u{2022}\u{2022}\u{2022}\u{2022}\u{2022}\u{2022}\u{2022}\u{2022}\u{2022}";

#[test]
fn whole_card_number_is_masked() {
    assert_eq!(mask("card 4111111111111111 ok"), format!("card {} ok", BULLETS));
    assert_eq!(mask("5500000000000004"), BULLETS);
}

#[test]
fn grouped_card_number_is_masked() {
    assert_eq!(mask("pay 4111 1111 1111 1111 now"), format!("pay {} now", BULLETS));
    assert_eq!(mask("pay 4111-1111-1111-1111"), format!("pay {}", BULLETS));
}

#[test]
fn other_numbers_stay() {
    assert_eq!(mask("order 1234 5678 9012 3456"), "order 1234 5678 9012 3456");
    assert_eq!(mask("call 555-1234"), "call 555 1234");
    assert_eq!(mask("no digits here"), "no digits here");
}

#[test]
fn blank_parts_stay_with_the_part_before() {
    assert_eq!(mask("a  b"), "a  b");
    assert_eq!(mask(" lead"), " lead");
    assert_eq!(mask(""), "");
}

#[test]
fn last_four_are_trimmed() {
    let mut message: Vec<String> = vec!["keep", "1 ", "2", " 3", "4\t"]
        .into_iter()
        .map(String::from)
        .collect();
    let four = get_last_four(&mut message);
    assert_eq!(message, vec!["keep".to_string()]);
    assert_eq!(four, vec!["1", "2", "3", "4"]);
}

#[test]
fn transform_list_order() {
    let mut t = Transforms::new();
    assert_eq!(t.list(), vec![TransformKind::Console]);
    assert!(t.echoes());
    t.add_credit_card_sanitizer(false);
    assert_eq!(t.list(), vec![TransformKind::Console]);
    t.add_credit_card_sanitizer(true);
    assert_eq!(t.list(), vec![TransformKind::CreditCard, TransformKind::Console]);
}

#[test]
fn transforms_rewrite_entries() {
    let mut t = Transforms::new();
    let mut e = Log::at(Timestamp { unix_nanos: 5 }, Priority::Error, "card 4111111111111111".to_string());
    t.apply(&mut e);
    assert_eq!(e.text, "card 4111111111111111");
    t.add_credit_card_sanitizer(true);
    t.apply(&mut e);
    assert_eq!(e.text, format!("card {}", BULLETS));
    assert_eq!(e.priority, Priority::Error);
    assert_eq!(e.timestamp.unix_nanos, 5);
}

#[test]
fn console_line() {
    let e = Log::at(Timestamp { unix_nanos: 1_614_834_367_000_000_000 }, Priority::Info, "hi".to_string());
    assert_eq!(
        ConsoleTransform.line(&e).unwrap(),
        "[2021-03-04 05:06:07 +00] [Informational]: hi"
    );
}

#[test]
fn default_transforms_echo_only() {
    assert_eq!(Transforms::default().list(), vec![TransformKind::Console]);
}
