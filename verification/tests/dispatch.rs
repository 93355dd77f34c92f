use chatsounds_plugin::dispatch::{choose_sound, dispatch, EngineRequest};
use chatsounds_plugin::text::{char_is_whitespace, to_chars, trim};

#[test]
fn stop_command_in_any_casing_stops_all() {
    for word in ["sh", "Sh", "sH", "SH"] {
        assert_eq!(dispatch(true, word), EngineRequest::StopAll, "{:?}", word);
    }
}

#[test]
fn stop_command_with_white_space_around_stops_all() {
    for text in [" sh", "sh ", "  SH  ", "\tSh\n", "\u{3000}sH\u{a0}", "\r\n sh \u{2003}"] {
        assert_eq!(dispatch(true, text), EngineRequest::StopAll, "{:?}", text);
    }
}

#[test]
fn other_text_is_looked_up_trimmed() {
    assert_eq!(dispatch(true, "hello"), EngineRequest::Find("hello".to_string()));
    assert_eq!(dispatch(true, "  hello world \n"), EngineRequest::Find("hello world".to_string()));
    assert_eq!(dispatch(true, "shh"), EngineRequest::Find("shh".to_string()));
    assert_eq!(dispatch(true, "s h"), EngineRequest::Find("s h".to_string()));
    assert_eq!(dispatch(true, "s"), EngineRequest::Find("s".to_string()));
    assert_eq!(dispatch(true, "hs"), EngineRequest::Find("hs".to_string()));
    assert_eq!(dispatch(true, "\u{17f}h"), EngineRequest::Find("\u{17f}h".to_string()));
}

#[test]
fn empty_trigger_is_looked_up_as_it_is() {
    assert_eq!(dispatch(true, ""), EngineRequest::Find(String::new()));
    assert_eq!(dispatch(true, "   "), EngineRequest::Find(String::new()));
}

#[test]
fn without_engine_nothing_is_asked() {
    assert_eq!(dispatch(false, "sh"), EngineRequest::Idle);
    assert_eq!(dispatch(false, "hello"), EngineRequest::Idle);
    assert_eq!(dispatch(false, ""), EngineRequest::Idle);
}

#[test]
fn dispatch_agrees_with_lowercasing_the_trimmed_text() {
    let samples = [
        "sh", "SH", " Sh ", "sH\t", "shh", "ssh", "s\u{127}", "\u{17f}h", "\u{17f}H", "S\u{210e}",
        "sh!", "", " ", "hello", "\u{ff33}\u{ff28}", "sh sh", "\u{212a}", "S\u{48}",
    ];
    for sample in samples {
        let text = sample.trim();
        let expected = if text.to_lowercase() == "sh" {
            EngineRequest::StopAll
        } else {
            EngineRequest::Find(text.to_string())
        };
        assert_eq!(dispatch(true, sample), expected, "{:?}", sample);
    }
}

#[test]
fn white_space_is_what_the_standard_library_calls_white_space() {
    let mut code: u32 = 0;
    while code <= 0x10FFFF {
        if let Some(c) = char::from_u32(code) {
            assert_eq!(char_is_whitespace(c), c.is_whitespace(), "U+{:04X}", code);
        }
        code += 1;
    }
}

#[test]
fn trim_removes_white_space_at_both_ends_only() {
    assert_eq!(trim("  a b  "), "a b");
    assert_eq!(trim("a"), "a");
    assert_eq!(trim(""), "");
    assert_eq!(trim(" \t\r\n"), "");
    assert_eq!(trim("\u{2028}x\u{2029}"), "x");
    assert_eq!(trim("\u{200b}x"), "\u{200b}x");
}

#[test]
fn trim_agrees_with_the_standard_library() {
    let samples = [
        "",
        " ",
        "a",
        " a",
        "a ",
        " a ",
        "\u{a0}caf\u{e9}\u{a0}",
        "\u{1680}\u{2000}x y\u{200a}\u{202f}\u{205f}\u{3000}",
        "\u{85}\u{b}\u{c}text\u{1f600} ",
        "\u{feff} bom ",
        "inner  space",
    ];
    for sample in samples {
        assert_eq!(trim(sample), sample.trim(), "{:?}", sample);
    }
}

#[test]
fn to_chars_lists_characters_not_bytes() {
    assert_eq!(to_chars(""), Vec::<char>::new());
    assert_eq!(to_chars("a\u{e9}\u{1f600}"), vec!['a', '\u{e9}', '\u{1f600}']);
}

#[test]
fn no_candidate_means_no_sound() {
    let none: Vec<String> = Vec::new();
    assert_eq!(choose_sound(&none), None);
}

#[test]
fn single_candidate_is_chosen() {
    let one = vec!["only".to_string()];
    assert_eq!(choose_sound(&one), Some(&one[0]));
}

#[test]
fn chosen_sound_is_one_of_the_candidates() {
    let sounds = vec![10u32, 20, 30, 40];
    for _ in 0..200 {
        let chosen = choose_sound(&sounds);
        assert!(matches!(chosen, Some(s) if sounds.contains(s)));
    }
}

#[test]
fn every_candidate_is_chosen_sooner_or_later() {
    let sounds = vec![0usize, 1, 2];
    let mut seen = [false; 3];
    for _ in 0..2000 {
        if let Some(&s) = choose_sound(&sounds) {
            seen[s] = true;
        }
    }
    assert_eq!(seen, [true, true, true]);
}
