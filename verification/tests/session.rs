use deck_creator::session::{
    capitalize, is_known_class, pick_class, takes_runes, title_case, Selection, Session,
    SessionError,
};

fn classes() -> Vec<String> {
    vec!["Mage".to_string(), "Death Knight".to_string(), "Rogue".to_string()]
}

fn lines(typed: &[&str]) -> Vec<String> {
    typed.iter().map(|line| line.to_string()).collect()
}

fn selection(class: &str, runes: &str) -> Selection {
    Selection { class: class.to_string(), runes: runes.to_string() }
}

#[test]
fn capitalize_raises_the_first_and_lowers_the_rest() {
    assert_eq!(capitalize("hELLO"), "Hello");
    assert_eq!(capitalize("x"), "X");
    assert_eq!(capitalize("Mage"), "Mage");
}

#[test]
fn capitalize_of_nothing_is_nothing() {
    assert_eq!(capitalize(""), "");
}

#[test]
fn capitalize_follows_unicode_case_mapping() {
    assert_eq!(capitalize("\u{df}A"), "SSa");
    assert_eq!(capitalize("\u{e9}T\u{c9}"), "\u{c9}t\u{e9}");
    assert_eq!(capitalize("1aB"), "1ab");
}

#[test]
fn title_case_capitalizes_each_word() {
    assert_eq!(title_case("death knight"), "Death Knight");
    assert_eq!(title_case("DEMON hUNTER"), "Demon Hunter");
    assert_eq!(title_case("mage"), "Mage");
}

#[test]
fn title_case_keeps_every_space() {
    assert_eq!(title_case(" death  knight "), " Death  Knight ");
    assert_eq!(title_case(""), "");
    assert_eq!(title_case(" "), " ");
}

#[test]
fn is_known_class_ignores_letter_case() {
    assert!(is_known_class(&classes(), "mage"));
    assert!(is_known_class(&classes(), "DEATH KNIGHT"));
    assert!(!is_known_class(&classes(), "wizard"));
    assert!(!is_known_class(&classes(), "deathknight"));
    assert!(!is_known_class(&[], "mage"));
}

#[test]
fn takes_runes_holds_of_one_class() {
    assert!(takes_runes("Death Knight"));
    assert!(takes_runes("death knight"));
    assert!(!takes_runes("Mage"));
    assert!(!takes_runes("Death  Knight"));
}

#[test]
fn pick_class_asks_the_death_knight_for_three_runes() {
    assert_eq!(
        pick_class(&classes(), &lines(&["death knight", "B", "F", "U"])),
        Ok(selection("Death Knight", "BFU"))
    );
}

#[test]
fn pick_class_asks_the_mage_for_no_runes() {
    assert_eq!(pick_class(&classes(), &lines(&["mage"])), Ok(selection("Mage", "")));
    assert_eq!(
        pick_class(&classes(), &lines(&["mage", "B", "F", "U"])),
        Ok(selection("Mage", ""))
    );
}

#[test]
fn pick_class_rejects_an_unknown_class() {
    assert_eq!(pick_class(&classes(), &lines(&["wizard"])), Err(SessionError::UnknownClass));
}

#[test]
fn pick_class_reads_an_empty_line_where_the_lines_run_out() {
    assert_eq!(pick_class(&classes(), &[]), Err(SessionError::UnknownClass));
    assert_eq!(
        pick_class(&classes(), &lines(&["death knight", "B"])),
        Err(SessionError::EmptyRuneInput)
    );
}

#[test]
fn pick_class_rejects_an_empty_rune_line() {
    assert_eq!(
        pick_class(&classes(), &lines(&["death knight", "B", "", "U"])),
        Err(SessionError::EmptyRuneInput)
    );
}

#[test]
fn pick_class_takes_the_first_character_of_each_rune_line() {
    assert_eq!(
        pick_class(&classes(), &lines(&["Death Knight", "blood", "frost", "unholy"])),
        Ok(selection("Death Knight", "BFU"))
    );
}

#[test]
fn pick_class_accepts_any_character_as_a_rune_and_repeats() {
    assert_eq!(
        pick_class(&classes(), &lines(&["DEATH KNIGHT", "x", "x", "7"])),
        Ok(selection("Death Knight", "XX7"))
    );
}

#[test]
fn pick_class_returns_the_class_as_typed_and_capitalized() {
    let known = vec!["MAGE".to_string()];
    assert_eq!(pick_class(&known, &lines(&["mAGE"])), Ok(selection("Mage", "")));
}

#[test]
fn step_walks_through_the_states() {
    let known = classes();
    let session = Session::start();
    assert_eq!(session, Session::AskClass);
    assert!(!session.has_ended());
    let session = session.step(&known, "death knight");
    assert_eq!(
        session,
        Session::AskRunes { class: "Death Knight".to_string(), runes: Vec::new() }
    );
    let session = session.step(&known, "b");
    assert_eq!(
        session,
        Session::AskRunes { class: "Death Knight".to_string(), runes: vec!['b'] }
    );
    let session = session.step(&known, "f").step(&known, "u");
    assert_eq!(session, Session::Done(selection("Death Knight", "BFU")));
    assert!(session.has_ended());
    let session = session.step(&known, "again");
    assert_eq!(session.outcome(), Some(Ok(selection("Death Knight", "BFU"))));
}

#[test]
fn an_ended_session_stays_as_it_is() {
    let known = classes();
    let failed = Session::start().step(&known, "wizard");
    assert_eq!(failed, Session::Invalid(SessionError::UnknownClass));
    let failed = failed.step(&known, "mage");
    assert_eq!(failed.outcome(), Some(Err(SessionError::UnknownClass)));
    assert_eq!(Session::start().outcome(), None);
}

#[test]
fn prompt_for_the_class_lists_the_classes() {
    assert_eq!(
        Session::start().prompt(&classes()),
        Some("What class do you want to choose?\nMage, Death Knight, Rogue\n".to_string())
    );
    assert_eq!(
        Session::start().prompt(&[]),
        Some("What class do you want to choose?\n\n".to_string())
    );
}

#[test]
fn prompt_for_a_rune_counts_down() {
    let known = classes();
    let mut session = Session::start().step(&known, "death knight");
    for left in ["3", "2", "1"] {
        assert_eq!(
            session.prompt(&known),
            Some(format!(
                "What runes do you want to add ({} more)\nBlood, Frost, Unholy\n",
                left
            ))
        );
        session = session.step(&known, "B");
    }
    assert_eq!(session.prompt(&known), None);
}
