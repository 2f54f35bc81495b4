use rock_run::enigma::{
    assemble_draw, build_enigmas, can_check_enigma, check_enigma, draw_enigmas, mcq_messages, EnigmaDraw, EnigmaFollowUp, EnigmaKind,
    EnigmaResult, Enigmas,
};
use rock_run::messages::{display_story, QueueAction, StoryMessages, StoryQueue};
use rock_run::story::UserSelection;

fn strings(items: &[&str]) -> Vec<String> {
    items.iter().map(|s| s.to_string()).collect()
}

fn draw() -> EnigmaDraw {
    EnigmaDraw {
        sum_n1: 7,
        sum_n2: 8,
        double_n1: 4,
        mcq_05: 0,
        mcq_06: 3,
        mcq_07: 5,
        diff_n1: 9,
        diff_n2: 3,
        half_n1: 10,
    }
}

fn table() -> Vec<(String, String, String)> {
    mcq_messages()
        .iter()
        .map(|(q, wrong, right)| (q.to_string(), wrong.to_string(), right.to_string()))
        .collect()
}

fn enigmas() -> Enigmas {
    build_enigmas(draw(), &table())
}

fn answer(items: &[&str], selected: usize) -> UserSelection {
    UserSelection::from_parts(strings(items), selected)
}

fn check(story: &str, sel: Option<&UserSelection>, nuts: usize, keys: u8) -> Option<(EnigmaResult, EnigmaFollowUp)> {
    check_enigma(story, &enigmas(), sel, nuts, keys)
}

#[test]
fn built_enigmas_hold_the_drawn_numbers() {
    let e = enigmas();
    assert_eq!(e.enigmas.len(), 8);
    assert_eq!(e.enigmas[0].associated_story, "story03-03");
    assert_eq!(
        e.enigmas[0].kind,
        EnigmaKind::Numbers(vec![
            ("n1".to_string(), "7".to_string()),
            ("n2".to_string(), "8".to_string())
        ])
    );
    assert_eq!(e.enigmas[7].associated_story, "story101-03");
    assert_eq!(e.enigmas[7].kind, EnigmaKind::Numbers(vec![("n1".to_string(), "10".to_string())]));
    assert_eq!(e.enigmas[6].kind, EnigmaKind::Mcq(vec![]));
}

#[test]
fn built_enigmas_ask_the_drawn_questions() {
    let e = enigmas();
    assert_eq!(e.enigmas[2].associated_story, "story05-04");
    assert_eq!(e.enigmas[2].kind, EnigmaKind::Mcq(strings(&["mammals-question", "mammals", "non-mammals"])));
    assert_eq!(e.enigmas[3].associated_story, "story06-03");
    assert_eq!(
        e.enigmas[3].kind,
        EnigmaKind::Mcq(strings(&["japan-capital-question", "non-japan-capital", "japan-capital"]))
    );
    assert_eq!(e.enigmas[4].associated_story, "story07-04");
    assert_eq!(
        e.enigmas[4].kind,
        EnigmaKind::Mcq(strings(&["largest-ocean-question", "non-largest-ocean", "largest-ocean"]))
    );
    let other = EnigmaDraw { mcq_05: 6, mcq_06: 1, mcq_07: 2, ..draw() };
    let e = build_enigmas(other, &table());
    assert_eq!(
        e.enigmas[2].kind,
        EnigmaKind::Mcq(strings(&["largest-animal-question", "non-largest-animal", "largest-animal"]))
    );
    assert_eq!(
        e.enigmas[4].kind,
        EnigmaKind::Mcq(strings(&[
            "closest-planet-to-sun-question",
            "non-closest-planet-to-sun",
            "closest-planet-to-sun"
        ]))
    );
}

#[test]
fn assembled_draw_takes_the_last_three_questions() {
    let d = assemble_draw(vec![3, 0, 6, 2, 5, 1, 4], 50, 49, 0, 12, 40, 21);
    assert_eq!(
        d,
        EnigmaDraw {
            sum_n1: 50,
            sum_n2: 49,
            double_n1: 0,
            mcq_05: 4,
            mcq_06: 1,
            mcq_07: 5,
            diff_n1: 40,
            diff_n2: 12,
            half_n1: 42,
        }
    );
}

#[test]
fn assembled_draw_keeps_the_larger_difference_first() {
    let d = assemble_draw(vec![0, 1, 2, 3, 4, 5, 6], 0, 0, 49, 100, 7, 49);
    assert_eq!((d.diff_n1, d.diff_n2), (100, 7));
    assert_eq!(d.half_n1, 98);
    assert_eq!((d.mcq_05, d.mcq_06, d.mcq_07), (6, 5, 4));
    let d = assemble_draw(vec![0, 1, 2, 3, 4, 5, 6], 0, 0, 0, 33, 33, 0);
    assert_eq!((d.diff_n1, d.diff_n2), (33, 33));
    assert_eq!(d.half_n1, 0);
}

#[test]
fn sum_enigma_is_right_for_the_sum_only() {
    let right = answer(&["1", "5"], 0);
    assert_eq!(
        check("story03-03", Some(&right), 0, 0),
        Some((EnigmaResult::Correct("story03-03".to_string()), EnigmaFollowUp::Nothing))
    );
    let wrong = answer(&["1", "4"], 0);
    assert_eq!(
        check("story03-03", Some(&wrong), 0, 0),
        Some((EnigmaResult::Incorrect("story03-03".to_string()), EnigmaFollowUp::Nothing))
    );
}

#[test]
fn double_and_half_enigmas() {
    assert_eq!(
        check("story04-03", Some(&answer(&["0", "8"], 1)), 0, 0),
        Some((EnigmaResult::Correct("story04-03".to_string()), EnigmaFollowUp::Nothing))
    );
    assert_eq!(
        check("story101-03", Some(&answer(&["5"], 0)), 0, 0),
        Some((EnigmaResult::Correct("story101-03".to_string()), EnigmaFollowUp::Nothing))
    );
    assert_eq!(
        check("story101-03", Some(&answer(&["6"], 0)), 0, 0),
        Some((EnigmaResult::Incorrect("story101-03".to_string()), EnigmaFollowUp::Nothing))
    );
}

#[test]
fn difference_enigma_needs_the_key() {
    let six = answer(&["6"], 0);
    assert_eq!(
        check("story08-03", Some(&six), 0, 1),
        Some((EnigmaResult::Correct("story08-03".to_string()), EnigmaFollowUp::SpawnStory101))
    );
    assert_eq!(
        check("story08-03", Some(&six), 0, 0),
        Some((EnigmaResult::Incorrect("story08-03".to_string()), EnigmaFollowUp::Nothing))
    );
}

#[test]
fn nuts_enigma_counts_eleven_nuts() {
    assert_eq!(
        check("story100-03", None, 11, 0),
        Some((EnigmaResult::Correct("story100-03".to_string()), EnigmaFollowUp::Nothing))
    );
    assert_eq!(
        check("story100-03", None, 10, 0),
        Some((EnigmaResult::Incorrect("story100-03".to_string()), EnigmaFollowUp::Nothing))
    );
}

#[test]
fn multiple_choice_questions() {
    // The selected choice, trimmed, must be found in the right answer.
    assert_eq!(
        check("story05-04", Some(&answer(&[" non-mammals ", "mammals"], 0)), 0, 0),
        Some((EnigmaResult::Correct("story05-04".to_string()), EnigmaFollowUp::SpawnStory100))
    );
    assert_eq!(
        check("story06-03", Some(&answer(&["non-japan-capital", "japan-capital"], 0)), 0, 0),
        Some((EnigmaResult::Incorrect("story06-03".to_string()), EnigmaFollowUp::Nothing))
    );
    assert_eq!(
        check("story07-04", Some(&answer(&["non-largest-ocean", "largest-ocean"], 1)), 0, 0),
        Some((EnigmaResult::Correct("story07-04".to_string()), EnigmaFollowUp::SpawnKey))
    );
}

#[test]
fn message_without_enigma_is_not_checked() {
    assert_eq!(check("story01-03", None, 0, 0), None);
}

#[test]
fn drawn_enigmas_stay_in_their_ranges() {
    for _ in 0..50 {
        let d = draw_enigmas();
        assert!(d.sum_n1 <= 50 && d.sum_n2 < 50);
        assert!(d.double_n1 <= 49);
        assert!(d.mcq_05 < 7 && d.mcq_06 < 7 && d.mcq_07 < 7);
        assert!(d.mcq_05 != d.mcq_06 && d.mcq_05 != d.mcq_07 && d.mcq_06 != d.mcq_07);
        assert!(d.diff_n2 <= d.diff_n1 && d.diff_n1 <= 100);
        assert!(d.half_n1 <= 98 && d.half_n1 % 2 == 0);
    }
    assert_eq!(mcq_messages().len(), 7);
    assert_eq!(mcq_messages()[3], ("japan-capital-question", "non-japan-capital", "japan-capital"));
}

#[test]
fn stories_give_their_messages() {
    let e = enigmas();
    let msgs = display_story("story01", &e).unwrap();
    let keys: Vec<&str> = msgs.iter().map(|m| m.0.as_str()).collect();
    assert_eq!(keys, vec!["story01-01", "story01-02", "story01-03"]);
    assert!(msgs.iter().all(|m| m.1.is_none()));

    let msgs = display_story("story03", &e).unwrap();
    assert_eq!(msgs.len(), 3);
    assert_eq!(msgs[2].0, "story03-03");
    assert_eq!(
        msgs[2].1,
        Some(vec![("n1".to_string(), "7".to_string()), ("n2".to_string(), "8".to_string())])
    );
    let msgs = display_story("story04", &e).unwrap();
    assert_eq!(msgs[2].1, Some(vec![("n1".to_string(), "4".to_string())]));

    assert!(display_story("story42", &e).is_none());
}

fn msg(key: &str) -> (String, Option<Vec<(String, String)>>) {
    (key.to_string(), None)
}

#[test]
fn queue_shows_messages_in_order_then_closes() {
    let mut q = StoryQueue::new();
    let a = q.handle(StoryMessages::Display(vec![msg("m1"), msg("m2"), msg("m3")]));
    assert_eq!(a, QueueAction::Show(msg("m1")));
    assert_eq!(q.handle(StoryMessages::Next), QueueAction::Show(msg("m2")));
    assert_eq!(q.handle(StoryMessages::Hide), QueueAction::Stop);
    assert_eq!(q.handle(StoryMessages::Next), QueueAction::Show(msg("m3")));
    assert_eq!(q.handle(StoryMessages::Next), QueueAction::NoMore("m3".to_string()));
    assert_eq!(q.handle(StoryMessages::Next), QueueAction::NoMore("m3".to_string()));
}

#[test]
fn new_messages_replace_those_left() {
    let mut q = StoryQueue::new();
    q.handle(StoryMessages::Display(vec![msg("a"), msg("b")]));
    assert_eq!(q.handle(StoryMessages::Display(vec![msg("c")])), QueueAction::Show(msg("c")));
    assert_eq!(q.handle(StoryMessages::Next), QueueAction::NoMore("c".to_string()));
    // No message at all: the box closes at once.
    let mut q = StoryQueue::new();
    assert_eq!(q.handle(StoryMessages::Display(vec![])), QueueAction::NoMore(String::new()));
}

#[test]
fn enigmas_can_be_checked_with_an_answer_of_the_right_kind() {
    let e = enigmas();
    assert!(can_check_enigma("story03-03", &e, Some(&answer(&["15"], 0))));
    assert!(!can_check_enigma("story03-03", &e, Some(&answer(&["fifteen"], 0))));
    assert!(!can_check_enigma("story03-03", &e, None));
    assert!(can_check_enigma("story05-04", &e, Some(&answer(&["a", "b"], 1))));
    assert!(!can_check_enigma("story05-04", &e, Some(&answer(&["a", "b"], 2))));
    assert!(can_check_enigma("story100-03", &e, None));
    assert!(can_check_enigma("story01-03", &e, None));
    let empty = Enigmas::default();
    assert!(!can_check_enigma("story04-03", &empty, Some(&answer(&["8"], 0))));
}

#[test]
fn built_calculations_name_each_number_once() {
    for k in [0, 1, 5, 7] {
        if let EnigmaKind::Numbers(nums) = &enigmas().enigmas[k].kind {
            let names: Vec<&String> = nums.iter().map(|(n, _)| n).collect();
            for a in 0..names.len() {
                for b in a + 1..names.len() {
                    assert_ne!(names[a], names[b]);
                }
            }
        } else {
            panic!("enigma {k} is not a calculation");
        }
    }
}
