use rock_run::story::{
    build_text_sections, build_text_sections_according_to_syllables, change_selection, compose_selection_msg,
    display_or_hide_messages, split_selection_msg, SectionStyle, SelectionChange, SelectionDirection,
    SelectionSound, StoryMessageKind, TextSyllableState, UserSelection,
};

/// The parts of a message around its selection, the selection read from its
/// JSON text.
fn decompose(text: &str) -> Option<(String, UserSelection, String)> {
    let (ltext, json, rtext) = split_selection_msg(text)?;
    let value: serde_json::Value = serde_json::from_str(&json).unwrap();
    let items: Vec<String> = value["selection_items"]
        .as_array()
        .unwrap()
        .iter()
        .map(|v| v.as_str().unwrap().to_string())
        .collect();
    let selected = value["selected_item"].as_u64().unwrap() as usize;
    Some((ltext, UserSelection::from_parts(items, selected), rtext))
}

#[test]
fn test_build_text_section_according_to_syllables() {
    let result = build_text_sections_according_to_syllables("Hel-lo I am Rose, help me re-turn home.");
    assert_eq!(result.len(), 17); // space counts as a section
    assert_eq!(result[0].1, SectionStyle::A);
    assert_eq!(result[0].0, "Hel".to_string());
    assert_eq!(result[1].1, SectionStyle::B);
    assert_eq!(result[1].0, "lo".to_string());
    assert_eq!(result[2].1, SectionStyle::A); // first space
    assert_eq!(result[2].0, " ".to_string());
    assert_eq!(result[3].1, SectionStyle::A);
    assert_eq!(result[3].0, "I".to_string());
    assert_eq!(result[4].1, SectionStyle::A); // second space
    assert_eq!(result[4].0, " ".to_string());
    assert_eq!(result[5].1, SectionStyle::B);
    assert_eq!(result[5].0, "am".to_string());
}

#[test]
fn test_build_text_section() {
    let result = build_text_sections_according_to_syllables("Hel-lo I am Rose, help me re-turn home.");
    assert_eq!(result.len(), 17); // space counts as a section
    assert_eq!(result[0].1, SectionStyle::A);
    assert_eq!(result[1].1, SectionStyle::B);
    assert_eq!(result[2].1, SectionStyle::A); // first space
    assert_eq!(result[3].1, SectionStyle::A);
    assert_eq!(result[4].1, SectionStyle::A); // second space
    assert_eq!(result[5].1, SectionStyle::B);
}

fn check_sections(result: &[(String, SectionStyle)], expected: &[(&str, SectionStyle)]) {
    assert_eq!(result.len(), expected.len());
    for (r, e) in result.iter().zip(expected.iter()) {
        assert_eq!(r.0, e.0.to_string());
        assert_eq!(r.1, e.1);
    }
}

#[test]
fn test_build_text_section_01() {
    let text = r###"Ceci est un test: \("selection_items":["sel1","sel2"],"selected_item":0\)."###;
    let result = build_text_sections(decompose(text), text);
    check_sections(
        &result,
        &[
            ("Ceci", SectionStyle::A),
            (" ", SectionStyle::A),
            ("est", SectionStyle::B),
            (" ", SectionStyle::A),
            ("un", SectionStyle::A),
            (" ", SectionStyle::A),
            ("test:", SectionStyle::B),
            ("sel1", SectionStyle::Selected),
            ("sel2", SectionStyle::A),
            (".", SectionStyle::A),
        ],
    );
}

#[test]
fn test_build_text_section_02() {
    let text = r###"Ceci est un test: \("selection_items":["sel1","sel2"],"selected_item":1\)."###;
    let result = build_text_sections(decompose(text), text);
    check_sections(
        &result,
        &[
            ("Ceci", SectionStyle::A),
            (" ", SectionStyle::A),
            ("est", SectionStyle::B),
            (" ", SectionStyle::A),
            ("un", SectionStyle::A),
            (" ", SectionStyle::A),
            ("test:", SectionStyle::B),
            ("sel1", SectionStyle::A),
            ("sel2", SectionStyle::Selected),
            (".", SectionStyle::A),
        ],
    );
}

#[test]
fn escaped_hyphen_is_not_a_syllable_break() {
    let result = build_text_sections_according_to_syllables(r"a\-b");
    assert_eq!(result.len(), 1);
    assert_eq!(result[0].0, "a-b".to_string());
}

#[test]
fn message_without_selection_is_not_split() {
    assert!(split_selection_msg("Just words.").is_none());
    assert!(decompose("Just words.").is_none());
}

#[test]
fn split_then_compose_gives_the_message_back() {
    let text = r#"Pick: \("selection_items":["1","2"],"selected_item":0\) now"#;
    let (l, json, r) = split_selection_msg(text).unwrap();
    assert_eq!(l, "Pick: ");
    assert_eq!(json, r#"{"selection_items":["1","2"],"selected_item":0}"#);
    assert_eq!(r, " now");
    assert_eq!(compose_selection_msg(&l, &json, &r), text);
}

fn sel(items: &[&str], selected: usize) -> UserSelection {
    UserSelection::from_parts(items.iter().map(|s| s.to_string()).collect(), selected)
}

fn updated(change: SelectionChange) -> (Vec<String>, usize, SelectionSound) {
    match change {
        SelectionChange::Update(s, sound) => (s.items().clone(), s.get_selected_item(), sound),
        other => panic!("expected an update, got {other:?}"),
    }
}

#[test]
fn number_items_go_up_and_down_round_ten() {
    let (items, i, sound) = updated(change_selection(Some(sel(&["4", "9"], 1)), SelectionDirection::Up));
    assert_eq!((items, i, sound), (vec!["4".to_string(), "0".to_string()], 1, SelectionSound::Plus));
    let (items, _, sound) = updated(change_selection(Some(sel(&["0", "9"], 0)), SelectionDirection::Down));
    assert_eq!((items[0].as_str(), sound), ("9", SelectionSound::Minus));
    let (items, _, _) = updated(change_selection(Some(sel(&["4"], 0)), SelectionDirection::Up));
    assert_eq!(items, vec!["5".to_string()]);
}

#[test]
fn left_and_right_go_round_the_items() {
    let (_, i, sound) = updated(change_selection(Some(sel(&["a", "b", "c"], 2)), SelectionDirection::Right));
    assert_eq!((i, sound), (0, SelectionSound::Change));
    let (_, i, _) = updated(change_selection(Some(sel(&["a", "b", "c"], 0)), SelectionDirection::Left));
    assert_eq!(i, 2);
    // Items on their own lines are chosen with up and down.
    assert!(matches!(
        change_selection(Some(sel(&["a\n", "b\n"], 0)), SelectionDirection::Right),
        SelectionChange::Stop
    ));
    let (_, i, _) = updated(change_selection(Some(sel(&["a\n", "b\n"], 0)), SelectionDirection::Down));
    assert_eq!(i, 1);
}

#[test]
fn moves_without_selection() {
    assert!(matches!(change_selection(None, SelectionDirection::Up), SelectionChange::Stop));
    assert!(matches!(change_selection(None, SelectionDirection::Left), SelectionChange::Sound(SelectionSound::Change)));
}

#[test]
fn story_box_visibility() {
    assert_eq!(display_or_hide_messages(TextSyllableState::Hidden, StoryMessageKind::Display), TextSyllableState::Visible);
    assert_eq!(display_or_hide_messages(TextSyllableState::Visible, StoryMessageKind::Hide), TextSyllableState::Hidden);
    assert_eq!(display_or_hide_messages(TextSyllableState::Visible, StoryMessageKind::Next), TextSyllableState::Visible);
}

#[test]
fn section_count_is_syllables_plus_spaces() {
    // 5 words, 9 syllables: 9 sections for syllables and 4 spaces.
    let result = build_text_sections_according_to_syllables("Hel-lo I am Ro-se, re-turn-ing");
    assert_eq!(result.len(), 9 + 4);
    assert!(build_text_sections_according_to_syllables("").is_empty());
    assert!(build_text_sections_according_to_syllables("   \n ").is_empty());
    assert_eq!(build_text_sections_according_to_syllables("one").len(), 1);
}

#[test]
fn compose_then_split_gives_the_parts_back() {
    let json = r#"{"selection_items":["1","2"],"selected_item":1}"#;
    let msg = compose_selection_msg("How many? ", json, " nuts.");
    assert_eq!(msg, r#"How many? \("selection_items":["1","2"],"selected_item":1\) nuts."#);
    assert_eq!(
        split_selection_msg(&msg),
        Some(("How many? ".to_string(), json.to_string(), " nuts.".to_string()))
    );
    assert_eq!(split_selection_msg("Hello"), None);
}
