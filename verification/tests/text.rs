use dapr_wasm::classify::{
    classification_message, detection_message, line_at, line_count, strongest_class,
};
use dapr_wasm::decimal::{parse_decimal_list, to_decimal_list};
use dapr_wasm::host::{grayscale_call_inputs, grayscale_call_output};
use dapr_wasm::param::Param;
use dapr_wasm::ret::RetValue;

#[test]
fn writes_bytes_as_a_decimal_list() {
    assert_eq!(to_decimal_list(&vec![0, 7, 42, 100, 255]), "0,7,42,100,255");
    assert_eq!(to_decimal_list(&vec![9]), "9");
    assert_eq!(to_decimal_list(&vec![]), "");
}

#[test]
fn reads_a_decimal_list_as_str_parse_does() {
    assert_eq!(parse_decimal_list("0,7,42,255"), Some(vec![0, 7, 42, 255]));
    assert_eq!(parse_decimal_list("+5,007"), Some(vec![5, 7]));
    assert_eq!(parse_decimal_list("256"), None);
    assert_eq!(parse_decimal_list("1,,2"), None);
    assert_eq!(parse_decimal_list("1,2,"), None);
    assert_eq!(parse_decimal_list(""), None);
    assert_eq!(parse_decimal_list("-1"), None);
    assert_eq!(parse_decimal_list("+"), None);
    assert_eq!(parse_decimal_list(" 1"), None);
    assert_eq!(parse_decimal_list("99999999999999999999"), None);
}

#[test]
fn a_decimal_list_reads_back_its_bytes() {
    let bytes: Vec<u8> = (0..=255).collect();
    assert_eq!(parse_decimal_list(&to_decimal_list(&bytes)), Some(bytes));
}

#[test]
fn finds_the_first_strongest_class() {
    assert_eq!(strongest_class(&vec![0, 3, 7, 7, 1]), (2, 7));
    assert_eq!(strongest_class(&vec![0, 0]), (-1, 0));
    assert_eq!(strongest_class(&vec![]), (-1, 0));
    assert_eq!(strongest_class(&vec![255]), (0, 255));
}

#[test]
fn counts_and_reads_lines_as_str_lines_does() {
    let text = "background\ntench\r\ngoldfish\n";
    assert_eq!(line_count(text), text.lines().count());
    assert_eq!(line_at(text, 0), "background");
    assert_eq!(line_at(text, 1), "tench");
    assert_eq!(line_at(text, 2), "goldfish");
    let bare = "a\r\nb\r";
    assert_eq!(line_count(bare), 2);
    assert_eq!(line_at(bare, 1), "b\r");
    assert_eq!(line_count(""), 0);
    assert_eq!(line_count("\n"), 1);
    assert_eq!(line_at("\n", 0), "");
    assert_eq!(line_at("\u{e9}t\u{e9}\nhiver", 1), "hiver");
}

#[test]
fn reports_a_detection() {
    assert_eq!(detection_message("hotdog", 255), "hotdog is detected with 255/255 confidence");
    assert_eq!(detection_message("military uniform", 206), "military uniform is detected with 206/255 confidence");
    assert_eq!(detection_message("x", 0), "x is detected with 0/255 confidence");
}

#[test]
fn reports_the_strongest_class_by_its_label() {
    let labels = "dummy\nhotdog\nburger\n";
    assert_eq!(classification_message(&vec![0, 255, 3], labels), "hotdog is detected with 255/255 confidence");
    assert_eq!(classification_message(&vec![0, 0, 0], labels), "dummy is detected with 0/255 confidence");
    assert_eq!(classification_message(&vec![1, 2, 9], labels), "burger is detected with 9/255 confidence");
}

#[test]
fn the_grayscale_call_passes_the_image_as_a_decimal_list() {
    let inputs = grayscale_call_inputs(&vec![137, 80, 78]);
    assert_eq!(inputs, vec![Param::String("137,80,78".to_string())]);
}

#[test]
fn the_grayscale_call_returns_its_last_string() {
    let results = vec![RetValue::U8(1), RetValue::String("aGk=".to_string())];
    assert_eq!(grayscale_call_output(results), "aGk=");
}
