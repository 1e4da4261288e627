use tuxctl::app::items::{any_holds, list_severity, service_matches};
use tuxctl::app::list::find_places;
use tuxctl::app::process_order::keys_match;
use tuxctl::linux::network::OperState;
use tuxctl::linux::service::ServiceInfo;
use tuxctl::linux::stat::{join_arguments, parse_command_line};
use tuxctl::linux::service_listing::find_complaint;
use tuxctl::text::{
    characters, contains_text, copy_optional_text, find_from, find_last, find_whitespace,
    is_control, is_whitespace, same_optional_text, same_text, split_lines, split_once, split_words,
    split_words_from, starts_with, string_of, strip_prefix, trim, trim_range,
};

const SAMPLES: [&str; 12] = [
    "",
    " ",
    "one",
    " one two ",
    "a\nb\r\nc\n",
    "\n\n",
    "a\r",
    "\u{85}next\u{2003}em\u{a0}",
    "key: value: more",
    "Grüße\tan alle",
    ":",
    "\r\n",
];

fn chars(text: &str) -> Vec<char> {
    text.chars().collect()
}

fn strings(texts: &[&str]) -> Vec<String> {
    texts.iter().map(|text| (*text).to_owned()).collect()
}

#[test]
fn characters_are_classed_as_the_standard_library_classes_them() {
    for c in '\0'..=char::MAX {
        assert_eq!(is_whitespace(c), c.is_whitespace(), "{:x}", c as u32);
        assert_eq!(is_control(c), c.is_control(), "{:x}", c as u32);
    }
}

#[test]
fn texts_are_split_as_the_standard_library_splits_them() {
    for text in SAMPLES {
        assert_eq!(characters(text), chars(text), "{text:?}");
        assert_eq!(
            split_lines(text),
            text.lines().collect::<Vec<_>>(),
            "{text:?}"
        );
        assert_eq!(
            split_words(text),
            text.split_whitespace().collect::<Vec<_>>(),
            "{text:?}"
        );
        assert_eq!(trim(text), text.trim(), "{text:?}");
        assert_eq!(
            split_once(text, ':'),
            text.split_once(':')
                .map(|(left, right)| (left.to_owned(), right.to_owned())),
            "{text:?}"
        );
    }
}

#[test]
fn parts_are_found_as_the_standard_library_finds_them() {
    for text in SAMPLES {
        for part in ["", "a", "one", "two ", ":", "value", "\n"] {
            assert_eq!(contains_text(text, part), text.contains(part));
            assert_eq!(starts_with(text, part), text.starts_with(part));
            assert_eq!(
                strip_prefix(text, part).as_deref(),
                text.strip_prefix(part)
            );
            assert_eq!(same_text(text, part), text == part);
        }
    }
}

#[test]
fn positions_are_counted_in_characters() {
    let text = chars("ä (b) c)");

    assert_eq!(find_from(&text, 0, 'b'), 3);
    assert_eq!(find_from(&text, 4, 'b'), text.len());
    assert_eq!(find_last(&text, ')'), Some(7));
    assert_eq!(find_last(&text, 'x'), None);
    assert_eq!(find_whitespace(&text, 0, true), 1);
    assert_eq!(find_whitespace(&text, 1, false), 2);
    assert_eq!(string_of(&text, 3, 4), "b");
    assert_eq!(trim_range(&text, 1, 6), "(b)");
    assert_eq!(split_words_from(&text, 2), ["(b)", "c)"]);
}

#[test]
fn optional_texts_are_copied_and_compared() {
    let some = Some("text".to_owned());

    assert_eq!(copy_optional_text(&some), some);
    assert_eq!(copy_optional_text(&None), None);
    assert!(same_optional_text(&some, &Some("text".to_owned())));
    assert!(!same_optional_text(&some, &None));
    assert!(same_optional_text(&None, &None));
}

#[test]
fn case_is_folded_beyond_ascii() {
    assert_eq!(OperState::from_sys(" DOWN\n"), OperState::Down);
    assert_eq!(OperState::from_word("DOWN"), OperState::Unknown);
    let service = ServiceInfo {
        unit: "ÜBER.service".into(),
        ..ServiceInfo::default()
    };

    assert!(service_matches(&service, &chars("über")));
    assert!(!service_matches(&service, &chars("ÜBER")));
    assert!(service_matches(&service, &Vec::new()));
}

#[test]
fn a_query_is_part_of_one_text_at_least() {
    let texts = strings(&["alpha", "beta"]);

    assert!(any_holds(&texts, &chars("eta")));
    assert!(!any_holds(&texts, &chars("ab")));
    assert!(any_holds(&Vec::new(), &Vec::new()));
    assert!(!any_holds(&Vec::new(), &chars("a")));
}

#[test]
fn severities_are_searched_by_number_and_name() {
    assert_eq!(list_severity(Some(4)), ["4", "warn", "warning"]);
    assert_eq!(list_severity(Some(3)), ["3", "error"]);
    assert_eq!(list_severity(Some(200)), ["200", "-"]);
    assert!(list_severity(None).is_empty());
}

#[test]
fn processes_are_searched_by_name_command_and_pid() {
    let name = chars("bash");
    let command = Some(chars("/bin/bash -l"));

    assert!(keys_match(&name, &command, 4711, &chars("bin/")));
    assert!(keys_match(&name, &command, 4711, &chars("71")));
    assert!(!keys_match(&name, &None, 4711, &chars("bin/")));
    assert!(keys_match(&name, &None, 4711, &Vec::new()));
}

#[test]
fn items_are_found_in_order() {
    let services: Vec<ServiceInfo> = ["a.service", "b.timer", "c.service"]
        .map(|unit| ServiceInfo {
            unit: unit.into(),
            ..ServiceInfo::default()
        })
        .into();

    assert_eq!(find_places(&services, &chars("service")), [0, 2]);
    assert_eq!(find_places(&services, &Vec::new()), [0, 1, 2]);
}

#[test]
fn arguments_are_joined_by_spaces() {
    assert_eq!(
        join_arguments(&strings(&["/bin/sh", "-c", "x y"])).as_deref(),
        Some("/bin/sh -c x y")
    );
    assert_eq!(join_arguments(&Vec::new()), None);
    assert_eq!(
        parse_command_line(&b"\0a\xffb\0\0c".to_vec()).as_deref(),
        Some("a\u{fffd}b c")
    );
}

#[test]
fn a_complaint_is_the_first_line() {
    assert_eq!(find_complaint(" first \nsecond"), "first");
    assert_eq!(find_complaint(""), "systemctl failed");
}
