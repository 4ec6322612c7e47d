//! The card repository's rules: which files of a tree are card files, and
//! what becomes of each file's outcome while the tree is scanned.

use vstd::prelude::*;
use crate::extract::ExtractionError;
use crate::query::data_of;
use crate::text::{contains, ends_with, has_ending, has_part};
use crate::value::{Data, Value};

verus! {

/// The extension that the name of a card-definition file ends with.
pub const CARD_FILE_EXTENSION: &'static str = ".js";

/// The subtree of test cards, which a scan leaves out.
pub const TESTS_SUBTREE: &'static str = "cards/Tests/";

/// The subtree of example cards, which a scan leaves out.
pub const EXAMPLES_SUBTREE: &'static str = "cards/Examples/";

/// Whether a file is a card file: its name ends with the extension of a
/// card-definition file, and its path lies in neither excluded subtree.
pub open spec fn eligible(file_name: Seq<char>, path: Seq<char>) -> bool {
    &&& ends_with(file_name, CARD_FILE_EXTENSION@)
    &&& !contains(path, TESTS_SUBTREE@)
    &&& !contains(path, EXAMPLES_SUBTREE@)
}

/// Whether the file with this name, at this path, is a card file.
pub fn is_card_file(file_name: &str, path: &str) -> (b: bool)
    ensures
        b == eligible(file_name@, path@),
{
    has_ending(file_name, CARD_FILE_EXTENSION) && !has_part(path, TESTS_SUBTREE) && !has_part(
        path,
        EXAMPLES_SUBTREE,
    )
}

/// What a scan does when a file fails.
#[derive(Debug, Clone, Copy, PartialEq, Eq, Structural)]
pub enum Policy {
    /// The failure is noted and the scan goes on.
    Lenient,
    /// The failure is noted and the scan stops.
    Strict,
}

impl Default for Policy {
    /// A scan is lenient unless it is asked to be strict.
    fn default() -> (r: Policy)
        ensures
            r == Policy::Lenient,
    {
        Policy::Lenient
    }
}

/// Whether a scan goes on after a file.
#[derive(Debug, Clone, Copy, PartialEq, Eq, Structural)]
pub enum Verdict {
    Continue,
    Abort,
}

/// A file that gave no card, and why.
#[derive(Debug, PartialEq, Eq)]
pub struct Failure {
    pub path: String,
    pub error: ExtractionError,
}

/// A failure, as mathematical data.
pub ghost struct FailureData {
    pub path: Seq<char>,
    pub error: ExtractionError,
}

/// Whether a value is a card: a mapping whose field `name` is a string.
pub open spec fn named(card: Data) -> bool {
    card.text_field("name"@) is Some
}

/// Whether a value is a card: a mapping whose field `name` is a string.
pub fn has_name(card: &Value) -> (b: bool)
    ensures
        b == named(card@),
{
    card.get_str("name").is_some()
}

/// A file's outcome as the catalog takes it: a decoded value without a name
/// is no card, and counts as a record that could not be decoded.
pub open spec fn checked(outcome: Result<Data, ExtractionError>) -> Result<Data, ExtractionError> {
    match outcome {
        Ok(card) => if named(card) {
            Ok(card)
        } else {
            Err(ExtractionError::MalformedAfterNormalization)
        },
        Err(e) => Err(e),
    }
}

/// The data of a file's outcome.
pub open spec fn outcome_data(outcome: Result<Value, ExtractionError>) -> Result<
    Data,
    ExtractionError,
> {
    match outcome {
        Ok(card) => Ok(card@),
        Err(e) => Err(e),
    }
}

/// Whether a scan under `policy` goes on after a file that failed or not.
pub open spec fn verdict_on(failed: bool, policy: Policy) -> Verdict {
    if failed && policy == Policy::Strict {
        Verdict::Abort
    } else {
        Verdict::Continue
    }
}

/// A catalog, as mathematical data.
pub ghost struct CatalogData {
    pub cards: Seq<Data>,
    pub failures: Seq<FailureData>,
}

impl CatalogData {
    /// The catalog after the file at `path` gave `outcome`.
    pub open spec fn with(self, path: Seq<char>, outcome: Result<Data, ExtractionError>) -> CatalogData {
        match outcome {
            Ok(card) => CatalogData { cards: self.cards.push(card), failures: self.failures },
            Err(error) => CatalogData {
                cards: self.cards,
                failures: self.failures.push(FailureData { path, error }),
            },
        }
    }

    /// Whether every card has a name.
    pub open spec fn all_named(self) -> bool {
        forall|i: int| 0 <= i < self.cards.len() ==> named(#[trigger] self.cards[i])
    }
}

/// The data of each failure, in order.
pub open spec fn failure_data(failures: Seq<Failure>) -> Seq<FailureData> {
    failures.map_values(|f: Failure| FailureData { path: f.path@, error: f.error })
}

/// What a scan has gathered: the cards in the order of the files, and the
/// failures in the order in which they came. A catalog that starts empty
/// and grows by `record` holds named cards only.
#[derive(Debug, PartialEq, Eq)]
pub struct Catalog {
    cards: Vec<Value>,
    failures: Vec<Failure>,
}

impl View for Catalog {
    type V = CatalogData;

    closed spec fn view(&self) -> CatalogData {
        CatalogData { cards: data_of(self.cards@), failures: failure_data(self.failures@) }
    }
}

impl Catalog {
    /// A catalog with nothing in it.
    pub fn new() -> (r: Catalog)
        ensures
            r@.cards.len() == 0,
            r@.failures.len() == 0,
            r@.all_named(),
    {
        Catalog { cards: Vec::new(), failures: Vec::new() }
    }

    /// Takes the outcome of the file at `path`: a card joins the cards; a
    /// failure, or a decoded value without a name, joins the failures under
    /// the file's path. Only a failure under the strict policy stops the
    /// scan.
    pub fn record(
        &mut self,
        path: &str,
        outcome: Result<Value, ExtractionError>,
        policy: Policy,
    ) -> (v: Verdict)
        ensures
            final(self)@ == old(self)@.with(path@, checked(outcome_data(outcome))),
            v == verdict_on(checked(outcome_data(outcome)) is Err, policy),
            old(self)@.all_named() ==> final(self)@.all_named(),
    {
        let error: ExtractionError = match outcome {
            Ok(card) => {
                if has_name(&card) {
                    self.cards.push(card);
                    assert(self@.cards =~= old(self)@.cards.push(card@));
                    assert(self@.failures =~= old(self)@.failures);
                    return Verdict::Continue;
                }
                ExtractionError::MalformedAfterNormalization
            },
            Err(error) => error,
        };
        self.failures.push(Failure { path: path.to_owned(), error });
        assert(self@.failures =~= old(self)@.failures.push(FailureData { path: path@, error }));
        assert(self@.cards =~= old(self)@.cards);
        match policy {
            Policy::Strict => Verdict::Abort,
            Policy::Lenient => Verdict::Continue,
        }
    }

    /// The cards gathered so far, in the order of their files.
    pub fn cards(&self) -> (r: &Vec<Value>)
        ensures
            data_of(r@) == self@.cards,
    {
        &self.cards
    }

    /// The failures noted so far, in the order in which they came.
    pub fn failures(&self) -> (r: &Vec<Failure>)
        ensures
            failure_data(r@) == self@.failures,
    {
        &self.failures
    }

    /// Ends the scan: the cards and the failures.
    pub fn finish(self) -> (r: (Vec<Value>, Vec<Failure>))
        ensures
            data_of(r.0@) == self@.cards,
            failure_data(r.1@) == self@.failures,
    {
        (self.cards, self.failures)
    }
}

} // verus!
