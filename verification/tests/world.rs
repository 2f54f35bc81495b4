use rock_run::enigma::EnigmaResult;
use rock_run::gates::{rockgates_to_move, squirrel_runs, starts_platforms, stories_to_clear, Answer, GateOpener};
use rock_run::level_items::{extra_life_positions, nut_positions, sensor_values, Nuts};
use rock_run::screen_map::{PixelPoint, ScreenMap};
use rock_run::text::{
    chars_of, contains_chars, parse_usize, replace_chars, split_chars, split_whitespace, string_of, trim_chars,
    usize_to_string,
};
use rock_run::vine::{vine_data_for, vine_layout, vine_step, VineStep, VineTexture};

fn text(chars: &[char]) -> String {
    chars.iter().collect()
}

#[test]
fn decimal_numbers() {
    assert_eq!(parse_usize(&chars_of("42")), Some(42));
    assert_eq!(parse_usize(&chars_of("+7")), Some(7));
    assert_eq!(parse_usize(&chars_of("4a")), None);
    assert_eq!(parse_usize(&chars_of("")), None);
    assert_eq!(parse_usize(&chars_of("-1")), None);
    assert_eq!(usize_to_string(1234), "1234");
    assert_eq!(usize_to_string(0), "0");
    assert_eq!(parse_usize(&chars_of(&usize_to_string(98765))), Some(98765));
}

#[test]
fn text_helpers() {
    assert_eq!(text(&trim_chars(&chars_of("  a b \n"))), "a b");
    assert_eq!(text(&replace_chars(&chars_of("a{b}"), &vec!['{'], &vec!['\\', '('])), "a\\(b}");
    let words: Vec<String> = split_whitespace(&chars_of(" Hel-lo  I\tam ")).iter().map(|w| text(w)).collect();
    assert_eq!(words, vec!["Hel-lo", "I", "am"]);
    let rows: Vec<String> = split_chars(&chars_of("XO\nSO\n"), '\n').iter().map(|w| text(w)).collect();
    assert_eq!(rows, vec!["XO", "SO", ""]);
    assert!(contains_chars(&chars_of("story05-04"), &chars_of("story05")));
    assert!(!contains_chars(&chars_of("story05-04"), &chars_of("story06")));
    assert_eq!(string_of(&vec!['o', 'k']), "ok");
}

#[test]
fn vines_grow_one_chunk_per_tick() {
    assert_eq!(vine_step(None, 35), VineStep::Bud);
    assert_eq!(vine_step(Some(0), 35), VineStep::Grow(1));
    assert_eq!(vine_step(Some(34), 35), VineStep::Grow(35));
    assert_eq!(vine_step(Some(35), 35), VineStep::Keep);
}

#[test]
fn vine_layouts() {
    let l = vine_layout(0);
    assert_eq!(l.root, VineTexture::Root);
    assert_eq!(l.pieces, vec![(VineTexture::RootEnd, -24)]);
    assert_eq!((l.collider_center_y, l.collider_half_height), (-8, 16));
    let l = vine_layout(3);
    assert_eq!(
        l.pieces,
        vec![
            (VineTexture::Right, -24),
            (VineTexture::Left, -40),
            (VineTexture::Right, -56),
            (VineTexture::RightEnd, -72)
        ]
    );
    assert_eq!((l.collider_center_y, l.collider_half_height), (-28, 44));
    assert_eq!(vine_layout(2).pieces[2], (VineTexture::LeftEnd, -56));
}

#[test]
fn vines_of_the_enigmas() {
    let map = ScreenMap::new("SO", 1280, 720);
    let v = vine_data_for("story100-03", &map).unwrap();
    assert_eq!(v.pos, PixelPoint { x: 5992, y: 317 });
    assert_eq!(v.size, 35);
    assert_eq!(v.associated_enigma, "story100-03");
    assert_eq!(vine_data_for("story101-03", &map).unwrap().size, 31);
    assert!(vine_data_for("story05-04", &map).is_none());
}

#[test]
fn a_solved_gate_rises_then_stops() {
    let gates = vec!["story03-03".to_string(), "story04-03".to_string()];
    let mut opener = GateOpener::new();
    let none: Vec<String> = vec![];
    assert_eq!(opener.step(&gates, &none, true), None);
    assert_eq!(opener.step(&gates, &vec!["story04-03".to_string()], false), None);
    for _ in 0..23 {
        assert_eq!(opener.step(&gates, &none, true), Some(1));
    }
    assert_eq!(opener.step(&gates, &none, true), None);
    assert_eq!(opener.step(&gates, &none, true), None);
    // A solved enigma with no gate opens nothing.
    assert_eq!(opener.step(&gates, &vec!["story05-04".to_string()], true), None);
}

#[test]
fn rock_gates_and_stories() {
    let rockgates = vec![
        ("story06-03".to_string(), Answer::Correct),
        ("story06-03".to_string(), Answer::Incorrect),
        ("story07-04".to_string(), Answer::Correct),
        ("story06-03".to_string(), Answer::Correct),
    ];
    assert_eq!(rockgates_to_move(&EnigmaResult::Correct("story06-03".to_string()), &rockgates), vec![0, 3]);
    assert_eq!(rockgates_to_move(&EnigmaResult::Incorrect("story06-03".to_string()), &rockgates), vec![1]);
    let names = vec!["story05".to_string(), "story06".to_string(), "story05".to_string()];
    assert_eq!(stories_to_clear("story05-04", &names), vec![0, 2]);
    assert!(starts_platforms(&EnigmaResult::Correct("story05-04".to_string())));
    assert!(!starts_platforms(&EnigmaResult::Incorrect("story05-04".to_string())));
    assert!(squirrel_runs(&EnigmaResult::Correct("story100-03".to_string())));
    assert!(!squirrel_runs(&EnigmaResult::Correct("story06-03".to_string())));
}

#[test]
fn level_items_and_sensors() {
    let map = ScreenMap::new("SO", 1280, 720);
    assert_eq!(nut_positions(1, &map).len(), 11);
    assert_eq!(nut_positions(1, &map)[0], PixelPoint { x: 5600 - 1280, y: -(446 - 360) - 1 });
    assert!(nut_positions(2, &map).is_empty());
    assert_eq!(extra_life_positions(2, &map), vec![PixelPoint { x: 4136, y: -1159 }]);

    let mut nuts = Nuts::new();
    nuts.collect();
    nuts.collect();
    assert_eq!(nuts.len(), 2);
    nuts.clear();
    assert_eq!(nuts.len(), 0);

    let s = sensor_values(1, "pterodactyl_attack01", &map).unwrap();
    assert_eq!(s.start_pos, PixelPoint { x: 316, y: -96 });
    assert_eq!(s.end_pos, PixelPoint { x: -1280, y: -96 });
    assert!(s.disable_next_collision);
    let s = sensor_values(2, "exit01", &map).unwrap();
    assert_eq!((s.start_pos, s.end_pos), (PixelPoint { x: 0, y: 0 }, PixelPoint { x: 0, y: 0 }));
    assert!(sensor_values(3, "exit01", &map).is_none());
    assert!(sensor_values(2, "rock02", &map).is_some());
}
