//! Turning the text of one card-definition file into strict
//! data-interchange text.
//!
//! The work is a fixed chain of stages. Three of them are searches and
//! replacements by regular expressions, whose results the contracts name;
//! the others are stated character by character.

use vstd::prelude::*;
use crate::pattern::{compile, compiled, replace_all, replaced_all, split_pieces, splitn};
use crate::text::{
    chars_of, ends_with, find, first_occurrence, has_suffix, lemma_find_from, remove_all, slice,
    string_of, texts, trim, trimmed, without,
};

verus! {

/// Matches a line comment or a block comment.
pub const COMMENT_PATTERN: &'static str = r"(?sm)(//.*?$|/\*.*?\*/)";

/// Matches a line break, white space and a second line break: a blank line.
pub const BLANK_LINE_PATTERN: &'static str = r"\r?\n\s*?\r?\n\s*?";

/// Matches, within one line, leading text, a bare word, and `: ` with the
/// rest of the line.
pub const FIELD_PATTERN: &'static str = r"(?m)^(.*?)(\w+)(: .*?)$";

/// Puts the bare word of a matched line between double quotes.
pub const FIELD_REPLACEMENT: &'static str = "$1\"$2\"$3";

/// The text that introduces the exported object literal.
pub const EXPORT_MARKER: &'static str = "module.exports = ";

/// Why a file's text could not be turned into a record.
#[derive(Debug, Clone, Copy, PartialEq, Eq, Structural)]
pub enum ExtractionError {
    /// The text holds no export marker.
    NoExportFound,
    /// No blank line follows the exported literal.
    NoBlankLineFound,
    /// The record was produced, but a decoder rejected it.
    MalformedAfterNormalization,
}

/// Which of the extractor's patterns the engine rejected.
#[derive(Debug, Clone, Copy, PartialEq, Eq, Structural)]
pub enum PatternError {
    Comment,
    BlankLine,
    Field,
}

/// The first pattern, in the order comment, blank line, field, that the
/// engine rejects, if any.
pub open spec fn rejected_pattern() -> Option<PatternError> {
    if compiled(COMMENT_PATTERN@) is None {
        Some(PatternError::Comment)
    } else if compiled(BLANK_LINE_PATTERN@) is None {
        Some(PatternError::BlankLine)
    } else if compiled(FIELD_PATTERN@) is None {
        Some(PatternError::Field)
    } else {
        None
    }
}

/// `raw` with every comment removed.
pub open spec fn comments_stripped(raw: Seq<char>) -> Seq<char> {
    replaced_all(compiled(COMMENT_PATTERN@)->0, raw, Seq::empty())
}

/// What follows the first export marker in the trimmed text, with every
/// further marker cut out; `None` where the text holds no marker.
pub open spec fn export_body(cleaned: Seq<char>) -> Option<Seq<char>> {
    let text = trimmed(cleaned);
    match first_occurrence(text, EXPORT_MARKER@) {
        None => None,
        Some(at) => Some(without(text.skip(at + EXPORT_MARKER@.len()), EXPORT_MARKER@)),
    }
}

/// The pieces into which the first blank line cuts `body`: two where there
/// is a blank line, fewer where there is none.
pub open spec fn blank_line_split(body: Seq<char>) -> Seq<Seq<char>> {
    split_pieces(compiled(BLANK_LINE_PATTERN@)->0, body, 2)
}

/// The piece before the blank line, trimmed; `None` where the text was not
/// cut in two.
pub open spec fn leading_piece(pieces: Seq<Seq<char>>) -> Option<Seq<char>> {
    if pieces.len() < 2 {
        None
    } else {
        Some(trimmed(pieces[0]))
    }
}

/// The segment with its end closed: a final comma becomes a closing brace
/// on a line of its own, and the comma of a final `,\n}` is dropped.
pub open spec fn closed(segment: Seq<char>) -> Seq<char> {
    if ends_with(segment, seq![',']) {
        segment.drop_last() + seq!['\n', '}']
    } else if ends_with(segment, seq![',', '\n', '}']) {
        segment.take(segment.len() - 3) + seq!['\n', '}']
    } else {
        segment
    }
}

/// A segment that ends in a comma, or in a comma before a final closing
/// brace line, is closed to a text that ends in a closing brace on a line of
/// its own; no comma stands before that line break, unless a second comma
/// stood directly before the one that was removed.
pub proof fn lemma_closed_drops_trailing_comma(segment: Seq<char>)
    requires
        ends_with(segment, seq![',']) || ends_with(segment, seq![',', '\n', '}']),
    ensures
        ends_with(closed(segment), seq!['\n', '}']),
        closed(segment).len() + 1 == segment.len() || closed(segment).len() == segment.len() + 1,
        !ends_with(segment, seq![',', ',']) && !ends_with(segment, seq![',', ',', '\n', '}'])
            ==> !ends_with(closed(segment), seq![',', '\n', '}']),
{
    let tail = seq!['\n', '}'];
    let n = segment.len() as int;
    if ends_with(segment, seq![',']) {
        let body = segment.drop_last();
        assert(segment.skip(n - 1)[0] == ',');
        assert((body + tail).skip((body + tail).len() - 2) =~= tail);
        if ends_with(body + tail, seq![',', '\n', '}']) {
            assert((body + tail).skip((body + tail).len() - 3)[0] == ',');
            assert(segment.skip(n - 2) =~= seq![',', ',']);
        }
    } else {
        let body = segment.take(n - 3);
        assert((body + tail).skip((body + tail).len() - 2) =~= tail);
        assert(segment.skip(n - 3)[0] == ',');
        assert(segment.skip(n - 3)[1] == '\n');
        assert(segment.skip(n - 3)[2] == '}');
        if ends_with(body + tail, seq![',', '\n', '}']) {
            assert((body + tail).skip((body + tail).len() - 3)[0] == ',');
            assert(segment.skip(n - 4) =~= seq![',', ',', '\n', '}']);
        }
    }
}

/// `segment` with the bare key of each line between double quotes.
pub open spec fn keys_quoted(segment: Seq<char>) -> Seq<char> {
    replaced_all(compiled(FIELD_PATTERN@)->0, segment, FIELD_REPLACEMENT@)
}

/// The record for `raw`, or the stage that found no anchor.
pub open spec fn extracted(raw: Seq<char>) -> Result<Seq<char>, ExtractionError> {
    match export_body(comments_stripped(raw)) {
        None => Err(ExtractionError::NoExportFound),
        Some(body) => match leading_piece(blank_line_split(body)) {
            None => Err(ExtractionError::NoBlankLineFound),
            Some(segment) => Ok(keys_quoted(closed(segment))),
        },
    }
}

/// Extraction sees a text through its stripped form only: two texts that
/// are the same once their comments are stripped give the same record or
/// the same error. So a text whose comments are already stripped gives what
/// the unstripped text gives, wherever stripping it again changes nothing.
pub proof fn lemma_extracted_goes_by_stripped_text(a: Seq<char>, b: Seq<char>)
    ensures
        comments_stripped(a) == comments_stripped(b) ==> extracted(a) == extracted(b),
        comments_stripped(comments_stripped(a)) == comments_stripped(a) ==> extracted(
            comments_stripped(a),
        ) == extracted(a),
{
}

/// Trims `cleaned`, finds the first export marker, and returns what follows
/// it with every further marker cut out.
pub fn locate_export(cleaned: &str) -> (r: Result<String, ExtractionError>)
    ensures
        match r {
            Ok(body) => export_body(cleaned@) == Some(body@),
            Err(e) => export_body(cleaned@) is None && e == ExtractionError::NoExportFound,
        },
{
    let text: Vec<char> = trim(&chars_of(cleaned));
    let marker: Vec<char> = chars_of(EXPORT_MARKER);
    match find(&text, &marker) {
        None => Err(ExtractionError::NoExportFound),
        Some(at) => {
            proof {
                lemma_find_from(text@, marker@, 0);
                assert(text@.skip(at + marker@.len()) =~= text@.subrange(
                    at + marker@.len(),
                    text@.len() as int,
                ));
            }
            let rest: Vec<char> = slice(&text, at + marker.len(), text.len());
            Ok(string_of(&remove_all(&rest, &marker)))
        },
    }
}

/// Keeps, of the pieces into which a text was cut at its first blank line,
/// the first one, trimmed.
pub fn first_piece(pieces: &Vec<String>) -> (r: Result<String, ExtractionError>)
    ensures
        match r {
            Ok(segment) => leading_piece(texts(pieces@)) == Some(segment@),
            Err(e) => leading_piece(texts(pieces@)) is None && e
                == ExtractionError::NoBlankLineFound,
        },
{
    if pieces.len() < 2 {
        Err(ExtractionError::NoBlankLineFound)
    } else {
        Ok(string_of(&trim(&chars_of(pieces[0].as_str()))))
    }
}

/// Closes the end of `segment`: a final comma becomes a closing brace on a
/// line of its own, and the comma of a final `,\n}` is dropped.
pub fn close_record(segment: &str) -> (r: String)
    ensures
        r@ == closed(segment@),
{
    let text: Vec<char> = chars_of(segment);
    let n: usize = text.len();
    let mut comma: Vec<char> = Vec::new();
    comma.push(',');
    let mut tail: Vec<char> = Vec::new();
    tail.push(',');
    tail.push('\n');
    tail.push('}');
    assert(comma@ =~= seq![',']);
    assert(tail@ =~= seq![',', '\n', '}']);
    if has_suffix(&text, &comma) {
        let mut out: Vec<char> = slice(&text, 0, n - 1);
        out.push('\n');
        out.push('}');
        assert(out@ =~= text@.drop_last() + seq!['\n', '}']);
        string_of(&out)
    } else if has_suffix(&text, &tail) {
        let mut out: Vec<char> = slice(&text, 0, n - 3);
        out.push('\n');
        out.push('}');
        assert(out@ =~= text@.take(n - 3) + seq!['\n', '}']);
        string_of(&out)
    } else {
        string_of(&text)
    }
}

/// The compiled patterns of the extraction stages.
pub struct Extractor {
    comment: regex::Regex,
    blank_line: regex::Regex,
    field: regex::Regex,
}

impl Extractor {
    #[verifier::type_invariant]
    spec fn well_formed(self) -> bool {
        &&& compiled(COMMENT_PATTERN@) == Some(self.comment)
        &&& compiled(BLANK_LINE_PATTERN@) == Some(self.blank_line)
        &&& compiled(FIELD_PATTERN@) == Some(self.field)
    }

    /// Compiles the three patterns. Fails with the first pattern that the
    /// engine rejects.
    pub fn new() -> (r: Result<Extractor, PatternError>)
        ensures
            match r {
                Ok(_) => rejected_pattern() is None,
                Err(e) => rejected_pattern() == Some(e),
            },
    {
        let comment = match compile(COMMENT_PATTERN) {
            Ok(re) => re,
            Err(_) => {
                return Err(PatternError::Comment);
            },
        };
        let blank_line = match compile(BLANK_LINE_PATTERN) {
            Ok(re) => re,
            Err(_) => {
                return Err(PatternError::BlankLine);
            },
        };
        let field = match compile(FIELD_PATTERN) {
            Ok(re) => re,
            Err(_) => {
                return Err(PatternError::Field);
            },
        };
        Ok(Extractor { comment, blank_line, field })
    }

    /// Removes every line comment and block comment from `raw`.
    pub fn strip_comments(&self, raw: &str) -> (r: String)
        ensures
            r@ == comments_stripped(raw@),
    {
        proof {
            use_type_invariant(self);
        }
        let nothing: String = String::new();
        replace_all(&self.comment, raw, nothing.as_str())
    }

    /// Cuts `body` at its first blank line: two pieces where there is one.
    pub fn split_at_blank_line(&self, body: &str) -> (r: Vec<String>)
        ensures
            texts(r@) == blank_line_split(body@),
    {
        proof {
            use_type_invariant(self);
        }
        let pieces: Vec<String> = splitn(&self.blank_line, body, 2);
        assert(texts(pieces@) =~= blank_line_split(body@));
        pieces
    }

    /// Puts the bare key of each line of `segment` between double quotes.
    pub fn quote_keys(&self, segment: &str) -> (r: String)
        ensures
            r@ == keys_quoted(segment@),
    {
        proof {
            use_type_invariant(self);
        }
        replace_all(&self.field, segment, FIELD_REPLACEMENT)
    }

    /// Turns the text of a card-definition file into its record: comments
    /// stripped, the exported literal cut out up to the first blank line,
    /// its end closed and its keys quoted.
    pub fn extract(&self, raw: &str) -> (r: Result<String, ExtractionError>)
        ensures
            match r {
                Ok(record) => extracted(raw@) == Ok::<Seq<char>, ExtractionError>(record@),
                Err(e) => extracted(raw@) == Err::<Seq<char>, ExtractionError>(e),
            },
    {
        let cleaned: String = self.strip_comments(raw);
        let body: String = match locate_export(cleaned.as_str()) {
            Ok(body) => body,
            Err(e) => {
                return Err(e);
            },
        };
        let pieces: Vec<String> = self.split_at_blank_line(body.as_str());
        let segment: String = match first_piece(&pieces) {
            Ok(segment) => segment,
            Err(e) => {
                return Err(e);
            },
        };
        let closed_segment: String = close_record(segment.as_str());
        Ok(self.quote_keys(closed_segment.as_str()))
    }
}

} // verus!
