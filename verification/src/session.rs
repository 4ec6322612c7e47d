//! The class selection session: a state machine that is fed the lines a
//! user types and ends with a class and, for the rune-bearing class, three
//! runes.

use vstd::prelude::*;
use vstd::string::*;
use crate::casing::{char_uppercase, lowercase, to_lower, to_upper, upper_char, uppercase};
use crate::text::{chars_of, join, joined, pieces, same_text, split, string_of, texts};

verus! {

/// The class that takes runes, in lower case.
pub const RUNE_CLASS: &'static str = "death knight";

/// How many runes the rune-bearing class takes.
pub const RUNE_COUNT: usize = 3;

/// `s` with its first character in upper case and the rest in lower case.
pub open spec fn capitalized(s: Seq<char>) -> Seq<char> {
    if s.len() == 0 {
        Seq::empty()
    } else {
        char_uppercase(s[0]) + lowercase(s.skip(1))
    }
}

/// `line` with each of its words, as spaces separate them, capitalized.
pub open spec fn title_cased(line: Seq<char>) -> Seq<char> {
    joined(pieces(line, ' ').map_values(|w: Seq<char>| capitalized(w)), seq![' '])
}

/// Whether `class` is one of `classes`, letter case aside.
pub open spec fn known_class(classes: Seq<Seq<char>>, class: Seq<char>) -> bool {
    exists|i: int| 0 <= i < classes.len() && lowercase(#[trigger] classes[i]) == lowercase(class)
}

/// Whether `class` is the class that takes runes, letter case aside.
pub open spec fn bears_runes(class: Seq<char>) -> bool {
    lowercase(class) == RUNE_CLASS@
}

/// Why a session ended without a selection.
#[derive(Debug, Clone, Copy, PartialEq, Eq, Structural)]
pub enum SessionError {
    /// The class that was typed is none of the known classes.
    UnknownClass,
    /// An empty line was typed where a rune was asked for.
    EmptyRuneInput,
}

/// What a session ends with: the class as typed, capitalized, and the runes
/// in upper case; no runes for a class that takes none.
#[derive(Debug, PartialEq, Eq)]
pub struct Selection {
    pub class: String,
    pub runes: String,
}

/// Where a session stands.
#[derive(Debug, PartialEq, Eq)]
pub enum Session {
    /// The class is asked for next.
    AskClass,
    /// A rune is asked for next; `runes` holds those given so far.
    AskRunes { class: String, runes: Vec<char> },
    /// The session has ended with a selection.
    Done(Selection),
    /// The session has ended without one.
    Invalid(SessionError),
}

/// Where a session stands, as mathematical data.
pub ghost enum State {
    AskClass,
    AskRunes { class: Seq<char>, runes: Seq<char> },
    Done { class: Seq<char>, runes: Seq<char> },
    Invalid(SessionError),
}

impl View for Session {
    type V = State;

    open spec fn view(&self) -> State {
        match self {
            Session::AskClass => State::AskClass,
            Session::AskRunes { class, runes } => State::AskRunes { class: class@, runes: runes@ },
            Session::Done(s) => State::Done { class: s.class@, runes: s.runes@ },
            Session::Invalid(e) => State::Invalid(*e),
        }
    }
}

/// The state after `line` was typed where the class was asked for.
pub open spec fn after_class(classes: Seq<Seq<char>>, line: Seq<char>) -> State {
    let class = title_cased(line);
    if !known_class(classes, class) {
        State::Invalid(SessionError::UnknownClass)
    } else if bears_runes(class) {
        State::AskRunes { class, runes: Seq::empty() }
    } else {
        State::Done { class, runes: Seq::empty() }
    }
}

/// The state after `line` was typed where a rune was asked for: its first
/// character is the rune, whatever it is.
pub open spec fn after_rune(class: Seq<char>, runes: Seq<char>, line: Seq<char>) -> State {
    if line.len() == 0 {
        State::Invalid(SessionError::EmptyRuneInput)
    } else if runes.len() + 1 >= RUNE_COUNT {
        State::Done { class, runes: uppercase(runes.push(line[0])) }
    } else {
        State::AskRunes { class, runes: runes.push(line[0]) }
    }
}

impl State {
    /// Whether the session has ended.
    pub open spec fn ended(self) -> bool {
        self is Done || self is Invalid
    }

    /// The state after `line` was typed. A session that has ended stays as
    /// it is.
    pub open spec fn step(self, classes: Seq<Seq<char>>, line: Seq<char>) -> State {
        match self {
            State::AskClass => after_class(classes, line),
            State::AskRunes { class, runes } => after_rune(class, runes, line),
            _ => self,
        }
    }

    /// How many lines the session can still take, at most.
    pub open spec fn lines_left(self) -> nat {
        match self {
            State::AskClass => (RUNE_COUNT + 1) as nat,
            State::AskRunes { class, runes } => if runes.len() + 1 >= RUNE_COUNT {
                1
            } else {
                (RUNE_COUNT - runes.len()) as nat
            },
            _ => 0,
        }
    }

    /// The state in which the session ends when it is fed `lines`, one per
    /// question; where the lines run out, an empty line is read.
    pub open spec fn run(self, classes: Seq<Seq<char>>, lines: Seq<Seq<char>>) -> State
        decreases self.lines_left(),
    {
        if self.ended() {
            self
        } else if lines.len() == 0 {
            self.step(classes, Seq::empty()).run(classes, lines)
        } else {
            self.step(classes, lines[0]).run(classes, lines.skip(1))
        }
    }
}

/// The question for the class: a heading, the known classes with commas
/// between them, and a line break.
pub open spec fn class_prompt(classes: Seq<Seq<char>>) -> Seq<char> {
    "What class do you want to choose?\n"@ + joined(classes, ", "@) + "\n"@
}

/// How many runes are still to be given when `given` have been.
pub open spec fn runes_missing(given: nat) -> nat {
    if given >= RUNE_COUNT {
        0
    } else {
        (RUNE_COUNT - given) as nat
    }
}

/// The digit for a number up to three.
pub open spec fn digit(n: nat) -> char {
    if n == 0 {
        '0'
    } else if n == 1 {
        '1'
    } else if n == 2 {
        '2'
    } else {
        '3'
    }
}

/// The question for a rune: how many are still missing, and the three
/// runes to choose from.
pub open spec fn rune_prompt(given: nat) -> Seq<char> {
    "What runes do you want to add ("@ + seq![digit(runes_missing(given))]
        + " more)\nBlood, Frost, Unholy\n"@
}

impl State {
    /// The question that is pending; none once the session has ended.
    pub open spec fn prompt(self, classes: Seq<Seq<char>>) -> Option<Seq<char>> {
        match self {
            State::AskClass => Some(class_prompt(classes)),
            State::AskRunes { class, runes } => Some(rune_prompt(runes.len())),
            _ => None,
        }
    }
}

/// Every run ends: in a selection or in an error.
pub proof fn lemma_run_ends(state: State, classes: Seq<Seq<char>>, lines: Seq<Seq<char>>)
    ensures
        state.run(classes, lines).ended(),
    decreases state.lines_left(),
{
    if !state.ended() {
        if lines.len() == 0 {
            lemma_run_ends(state.step(classes, Seq::empty()), classes, lines);
        } else {
            lemma_run_ends(state.step(classes, lines[0]), classes, lines.skip(1));
        }
    }
}

impl State {
    /// Whether the state can arise in a session over `classes`: a class
    /// that was accepted is a known one; runes are asked of the rune-bearing
    /// class only, while fewer than three are held; a selection holds no
    /// runes for a class that takes none, and the upper-case form of three
    /// typed characters for the class that takes them.
    pub open spec fn sound(self, classes: Seq<Seq<char>>) -> bool {
        match self {
            State::AskRunes { class, runes } => {
                &&& known_class(classes, class)
                &&& bears_runes(class)
                &&& runes.len() < RUNE_COUNT
            },
            State::Done { class, runes } => {
                &&& known_class(classes, class)
                &&& if bears_runes(class) {
                    exists|given: Seq<char>|
                        given.len() == RUNE_COUNT && runes == #[trigger] uppercase(given)
                } else {
                    runes.len() == 0
                }
            },
            _ => true,
        }
    }
}

/// A line takes a session from a state that can arise to another one.
pub proof fn lemma_step_keeps_sound(state: State, classes: Seq<Seq<char>>, line: Seq<char>)
    requires
        state.sound(classes),
    ensures
        state.step(classes, line).sound(classes),
{
    match state {
        State::AskRunes { class, runes } => {
            if line.len() > 0 && runes.len() + 1 >= RUNE_COUNT {
                let given = runes.push(line[0]);
                assert(given.len() == RUNE_COUNT && uppercase(given) == uppercase(given));
            }
        },
        _ => {},
    }
}

/// Whatever is typed, a session that starts by asking for the class ends
/// in a state that can arise: its selection names a known class, with three
/// runes, in upper case, for the rune-bearing class and none for another.
pub proof fn lemma_run_keeps_sound(state: State, classes: Seq<Seq<char>>, lines: Seq<Seq<char>>)
    requires
        state.sound(classes),
    ensures
        state.run(classes, lines).sound(classes),
    decreases state.lines_left(),
{
    if !state.ended() {
        if lines.len() == 0 {
            lemma_step_keeps_sound(state, classes, Seq::empty());
            lemma_run_keeps_sound(state.step(classes, Seq::empty()), classes, lines);
        } else {
            lemma_step_keeps_sound(state, classes, lines[0]);
            lemma_run_keeps_sound(state.step(classes, lines[0]), classes, lines.skip(1));
        }
    }
}

/// Puts the first character of `s` in upper case and the rest in lower case.
pub fn capitalize(s: &str) -> (r: String)
    ensures
        r@ == capitalized(s@),
{
    let n: usize = s.unicode_len();
    if n == 0 {
        String::new()
    } else {
        let head: String = upper_char(s.get_char(0));
        let tail: String = to_lower(s.substring_char(1, n));
        assert(s@.skip(1) =~= s@.subrange(1, n as int));
        head.concat(tail.as_str())
    }
}

/// Capitalizes each word of `line`, as spaces separate them.
pub fn title_case(line: &str) -> (r: String)
    ensures
        r@ == title_cased(line@),
{
    let words: Vec<String> = split(line, ' ');
    let mut out: Vec<String> = Vec::new();
    let mut i: usize = 0;
    let ghost want = pieces(line@, ' ').map_values(|w: Seq<char>| capitalized(w));
    while i < words.len()
        invariant
            i <= words.len(),
            texts(words@) == pieces(line@, ' '),
            out@.len() == i,
            forall|j: int| 0 <= j < i ==> (#[trigger] out@[j])@ == capitalized(words@[j]@),
        decreases words.len() - i,
    {
        out.push(capitalize(words[i].as_str()));
        i += 1;
    }
    assert(texts(out@) =~= want) by {
        assert forall|j: int| 0 <= j < want.len() implies texts(out@)[j] == want[j] by {
            assert(texts(words@)[j] == words@[j]@);
        }
    }
    let r: String = join(&out, " ");
    proof {
        reveal_strlit(" ");
        assert(" "@ =~= seq![' ']);
    }
    r
}

/// Whether `class` is one of `classes`, letter case aside.
pub fn is_known_class(classes: &[String], class: &str) -> (b: bool)
    ensures
        b == known_class(texts(classes@), class@),
{
    let wanted: String = to_lower(class);
    let mut i: usize = 0;
    while i < classes.len()
        invariant
            i <= classes@.len(),
            wanted@ == lowercase(class@),
            forall|j: int| 0 <= j < i ==> lowercase(#[trigger] texts(classes@)[j]) != lowercase(class@),
        decreases classes@.len() - i,
    {
        let lowered: String = to_lower(classes[i].as_str());
        assert(texts(classes@)[i as int] == classes@[i as int]@);
        if same_text(lowered.as_str(), wanted.as_str()) {
            return true;
        }
        i += 1;
    }
    false
}

/// Whether `class` is the class that takes runes, letter case aside.
pub fn takes_runes(class: &str) -> (b: bool)
    ensures
        b == bears_runes(class@),
{
    let lowered: String = to_lower(class);
    same_text(lowered.as_str(), RUNE_CLASS)
}

impl Session {
    /// A session at its start: the class is asked for.
    pub fn start() -> (r: Session)
        ensures
            r@ == State::AskClass,
    {
        Session::AskClass
    }

    /// Whether the session has ended.
    pub fn has_ended(&self) -> (b: bool)
        ensures
            b == self@.ended(),
    {
        match self {
            Session::Done(_) => true,
            Session::Invalid(_) => true,
            _ => false,
        }
    }

    /// The question to put to the user next; none once the session has
    /// ended.
    pub fn prompt(&self, classes: &[String]) -> (r: Option<String>)
        ensures
            match r {
                Some(text) => self@.prompt(texts(classes@)) == Some(text@),
                None => self@.prompt(texts(classes@)) is None,
            },
    {
        match self {
            Session::AskClass => {
                let mut list: Vec<String> = Vec::new();
                let mut i: usize = 0;
                while i < classes.len()
                    invariant
                        i <= classes@.len(),
                        list@.len() == i,
                        forall|j: int| 0 <= j < i ==> (#[trigger] list@[j])@ == classes@[j]@,
                    decreases classes@.len() - i,
                {
                    list.push(classes[i].clone());
                    i += 1;
                }
                assert(texts(list@) =~= texts(classes@));
                let mut out: String = "What class do you want to choose?\n".to_owned();
                out.append(join(&list, ", ").as_str());
                out.append("\n");
                Some(out)
            },
            Session::AskRunes { class, runes } => {
                let given: usize = runes.len();
                let mark: char = if given >= RUNE_COUNT {
                    '0'
                } else if given == 2 {
                    '1'
                } else if given == 1 {
                    '2'
                } else {
                    '3'
                };
                let mut count: Vec<char> = Vec::new();
                count.push(mark);
                assert(count@ =~= seq![digit(runes_missing(given as nat))]);
                let mut out: String = "What runes do you want to add (".to_owned();
                out.append(string_of(&count).as_str());
                out.append(" more)\nBlood, Frost, Unholy\n");
                Some(out)
            },
            _ => None,
        }
    }

    /// Takes the line that was typed in answer to the pending question.
    pub fn step(self, classes: &[String], line: &str) -> (r: Session)
        ensures
            r@ == self@.step(texts(classes@), line@),
    {
        match self {
            Session::AskClass => {
                let class: String = title_case(line);
                if !is_known_class(classes, class.as_str()) {
                    Session::Invalid(SessionError::UnknownClass)
                } else if takes_runes(class.as_str()) {
                    Session::AskRunes { class, runes: Vec::new() }
                } else {
                    Session::Done(Selection { class, runes: String::new() })
                }
            },
            Session::AskRunes { class, runes } => {
                let typed: Vec<char> = chars_of(line);
                if typed.len() == 0 {
                    Session::Invalid(SessionError::EmptyRuneInput)
                } else {
                    let mut runes: Vec<char> = runes;
                    let full: bool = runes.len() >= RUNE_COUNT - 1;
                    runes.push(typed[0]);
                    if full {
                        let given: String = string_of(&runes);
                        Session::Done(Selection { class, runes: to_upper(given.as_str()) })
                    } else {
                        Session::AskRunes { class, runes }
                    }
                }
            },
            Session::Done(s) => Session::Done(s),
            Session::Invalid(e) => Session::Invalid(e),
        }
    }

    /// The selection or the error that the session has ended with; `None`
    /// while it is still asking.
    pub fn outcome(self) -> (r: Option<Result<Selection, SessionError>>)
        ensures
            match r {
                None => !self@.ended(),
                Some(Ok(s)) => self@ == (State::Done { class: s.class@, runes: s.runes@ }),
                Some(Err(e)) => self@ == State::Invalid(e),
            },
    {
        match self {
            Session::Done(s) => Some(Ok(s)),
            Session::Invalid(e) => Some(Err(e)),
            _ => None,
        }
    }
}

/// Runs a whole session on the lines that the user types, one per question:
/// first the class, then, for the rune-bearing class, one line per rune.
/// Where the lines run out, an empty line is read, as a terminal that nobody
/// attends gives one.
pub fn pick_class(classes: &[String], lines: &[String]) -> (r: Result<Selection, SessionError>)
    ensures
        match r {
            Ok(s) => State::AskClass.run(texts(classes@), texts(lines@)) == (State::Done {
                class: s.class@,
                runes: s.runes@,
            }),
            Err(e) => State::AskClass.run(texts(classes@), texts(lines@)) == State::Invalid(e),
        },
{
    let mut session: Session = Session::start();
    let mut next: usize = 0;
    assert(texts(lines@).skip(0) =~= texts(lines@));
    while !session.has_ended()
        invariant
            next <= lines@.len(),
            State::AskClass.run(texts(classes@), texts(lines@)) == session@.run(
                texts(classes@),
                texts(lines@).skip(next as int),
            ),
        decreases session@.lines_left(),
    {
        let ghost rest = texts(lines@).skip(next as int);
        if next < lines.len() {
            assert(rest[0] == lines@[next as int]@);
            assert(rest.skip(1) =~= texts(lines@).skip(next + 1));
            session = session.step(classes, lines[next].as_str());
            next += 1;
        } else {
            let nothing: String = String::new();
            session = session.step(classes, nothing.as_str());
        }
    }
    match session.outcome() {
        Some(r) => r,
        None => Err(SessionError::UnknownClass),
    }
}

} // verus!
