//! Blocklist documents: lines of UUID entries and manufacturer data entries, with comments
//! and blank lines between them.
//!
//! A document is split into lines at line feeds only. A line that is empty or starts with
//! `#` is passed over. Any other line is split into tokens at single spaces: one or two
//! tokens make a UUID entry, three a manufacturer data entry. No UUID may be entered twice.
//! Validation reports the first fault it meets, in line order, and nothing after it.

use crate::decimal::{append_decimal, decimal};
use crate::manufacturer::{
    is_valid_advertise_data_prefix, is_valid_company_identifier,
    valid_advertise_data_prefix_chars, valid_company_identifier_chars,
};
use crate::registry::{Exclusion, Registry};
use crate::text::{chars_of, spells, split, split_spans, Span};
use crate::uuid::{is_valid_uuid, lemma_uuid_key_injective, parse_uuid, uuid_key};
use vstd::prelude::*;
use vstd::string::{StrSliceExecFns, StringExecFns};

verus! {

/// What can be wrong with a line: its shape (the first three), the grammar of a token (the
/// next five, each with the token), or its place in the document (the last). Contracts
/// speak of faults; running code holds only their messages.
pub enum Fault {
    /// The line starts with a space.
    LeadingSpace,
    /// The line ends with a space.
    TrailingSpace,
    /// The line has four tokens or more.
    TooManyTokens,
    /// The first token of a line of one or two tokens is no valid UUID.
    InvalidUuid { token: Seq<char> },
    /// The second token of a line of two is neither `exclude-reads` nor `exclude-writes`.
    InvalidExclusion { token: Seq<char> },
    /// The first token of a line of three is not `manufacturer`.
    InvalidManufacturerToken { token: Seq<char> },
    /// The second token of a manufacturer data entry is no valid company identifier.
    InvalidCompanyIdentifier { token: Seq<char> },
    /// The third token of a manufacturer data entry is no valid advertise data prefix.
    InvalidAdvertiseDataPrefix { token: Seq<char> },
    /// The UUID of the line was entered by an earlier line.
    RepeatedUuid { uuid: Seq<char> },
}

/// The first fault of a document: the line it is on, counted from 1, and what it says.
#[derive(Debug, PartialEq, Eq)]
pub struct Diagnostic {
    pub line: usize,
    pub message: String,
}

impl Clone for Diagnostic {
    fn clone(&self) -> (copy: Self)
        ensures
            copy == *self,
    {
        Diagnostic { line: self.line, message: self.message.clone() }
    }
}

/// The lines of a document. A carriage return is a character of its line like any other.
pub open spec fn lines_of(document: Seq<char>) -> Seq<Seq<char>> {
    split(document, '\n')
}

/// The tokens of a line.
pub open spec fn tokens_of(line: Seq<char>) -> Seq<Seq<char>> {
    split(line, ' ')
}

/// A blank line or a comment: nothing on it is looked at.
pub open spec fn is_passed_over(line: Seq<char>) -> bool {
    line.len() == 0 || line[0] == '#'
}

/// The mode that the tokens of a UUID entry ask for, if they name one: `Exclude` where
/// there is no tag.
pub open spec fn exclusion_of(tokens: Seq<Seq<char>>) -> Option<Exclusion> {
    if tokens.len() == 1 {
        Some(Exclusion::Exclude)
    } else if tokens[1] == "exclude-reads"@ {
        Some(Exclusion::ExcludeReads)
    } else if tokens[1] == "exclude-writes"@ {
        Some(Exclusion::ExcludeWrites)
    } else {
        None
    }
}

/// What is wrong with a line of one or two tokens, read as a UUID entry.
pub open spec fn uuid_entry_fault(tokens: Seq<Seq<char>>) -> Option<Fault> {
    if !is_valid_uuid(tokens[0]) {
        Some(Fault::InvalidUuid { token: tokens[0] })
    } else if exclusion_of(tokens) is None {
        Some(Fault::InvalidExclusion { token: tokens[1] })
    } else {
        None
    }
}

/// What is wrong with a line of three tokens, read as a manufacturer data entry.
pub open spec fn manufacturer_entry_fault(tokens: Seq<Seq<char>>) -> Option<Fault> {
    if tokens[0] != "manufacturer"@ {
        Some(Fault::InvalidManufacturerToken { token: tokens[0] })
    } else if !is_valid_company_identifier(tokens[1]) {
        Some(Fault::InvalidCompanyIdentifier { token: tokens[1] })
    } else if !is_valid_advertise_data_prefix(tokens[2]) {
        Some(Fault::InvalidAdvertiseDataPrefix { token: tokens[2] })
    } else {
        None
    }
}

/// What is wrong with a line taken by itself, if anything: the first thing found when the
/// line is looked at from its shape to its tokens, one token after the other.
pub open spec fn line_fault(line: Seq<char>) -> Option<Fault> {
    let tokens = tokens_of(line);
    if is_passed_over(line) {
        None
    } else if line[0] == ' ' {
        Some(Fault::LeadingSpace)
    } else if line.last() == ' ' {
        Some(Fault::TrailingSpace)
    } else if tokens.len() <= 2 {
        uuid_entry_fault(tokens)
    } else if tokens.len() == 3 {
        manufacturer_entry_fault(tokens)
    } else {
        Some(Fault::TooManyTokens)
    }
}

/// The line enters a UUID: it is a UUID entry without a fault of its own. Comments, blank
/// lines, manufacturer data entries and faulty lines enter nothing.
pub open spec fn enters_uuid(line: Seq<char>) -> bool {
    !is_passed_over(line) && line_fault(line) is None && tokens_of(line).len() <= 2
}

/// The UUID that a line enters.
pub open spec fn entered_uuid(line: Seq<char>) -> Seq<char> {
    tokens_of(line)[0]
}

/// The mode under which a line enters its UUID.
pub open spec fn entered_mode(line: Seq<char>) -> Exclusion {
    exclusion_of(tokens_of(line))->0
}

/// Line `i` enters a UUID that an earlier line has entered, under whatever mode.
pub open spec fn repeats_uuid(lines: Seq<Seq<char>>, i: int) -> bool {
    &&& enters_uuid(lines[i])
    &&& exists|j: int|
        0 <= j < i && #[trigger] enters_uuid(lines[j]) && entered_uuid(lines[j])
            == entered_uuid(lines[i])
}

/// What is wrong with line `i` of a document, if anything: its own fault, or else that it
/// repeats a UUID.
pub open spec fn fault_at(lines: Seq<Seq<char>>, i: int) -> Option<Fault> {
    if line_fault(lines[i]) is Some {
        line_fault(lines[i])
    } else if repeats_uuid(lines, i) {
        Some(Fault::RepeatedUuid { uuid: entered_uuid(lines[i]) })
    } else {
        None
    }
}

/// Line `i` has a fault and no line before it has one.
pub open spec fn is_first_fault(lines: Seq<Seq<char>>, i: int) -> bool {
    &&& 0 <= i < lines.len()
    &&& fault_at(lines, i) is Some
    &&& forall|j: int| 0 <= j < i ==> (#[trigger] fault_at(lines, j)) is None
}

/// The first fault of a document, with the number of its line, counted from 1. A document
/// without a fault is valid.
pub open spec fn diagnosis(document: Seq<char>) -> Option<(nat, Fault)> {
    let lines = lines_of(document);
    if exists|i: int| is_first_fault(lines, i) {
        let i = choose|i: int| is_first_fault(lines, i);
        Some(((i + 1) as nat, fault_at(lines, i)->0))
    } else {
        None
    }
}

/// What a fault says, in words.
pub open spec fn fault_message(fault: Fault) -> Seq<char> {
    match fault {
        Fault::LeadingSpace => "Starts with extraneous space"@,
        Fault::TrailingSpace => "Ends with extraneous space"@,
        Fault::TooManyTokens => "Too many tokens"@,
        Fault::InvalidUuid { token } => "'"@ + token + "' is not a valid UUID"@,
        Fault::InvalidExclusion { token } => "'"@ + token
            + "' should be 'exclude-reads' or 'exclude-writes'"@,
        Fault::InvalidManufacturerToken { token } => "Invalid token '"@ + token
            + "' for manufacturer data"@,
        Fault::InvalidCompanyIdentifier { token } => "Invalid company identifier '"@ + token
            + "'"@,
        Fault::InvalidAdvertiseDataPrefix { token } => "Invalid advertise data prefix '"@
            + token + "'"@,
        Fault::RepeatedUuid { uuid } => "'"@ + uuid + "' appears multiple times"@,
    }
}

/// A message with the number of its line before it: `line`, the number, a colon, the
/// message.
pub open spec fn diagnostic_text(line: nat, message: Seq<char>) -> Seq<char> {
    "line "@ + decimal(line) + ": "@ + message
}

/// What validation answers for a document: nothing where it is valid, else the text of its
/// first fault.
pub open spec fn validation_outcome(document: Seq<char>) -> Option<Seq<char>> {
    match diagnosis(document) {
        Some((line, fault)) => Some(diagnostic_text(line, fault_message(fault))),
        None => None,
    }
}

/// `answer` is what validation owes for `document`.
pub open spec fn is_validation_of(document: Seq<char>, answer: Option<String>) -> bool {
    match validation_outcome(document) {
        Some(text) => answer is Some && answer->0@ == text,
        None => answer is None,
    }
}

/// What is wrong with a line, given the UUIDs entered before it by their values: its own
/// fault, or else that its UUID is among them.
spec fn line_verdict(line: Seq<char>, entered: Map<u128, Exclusion>) -> Option<Fault> {
    if line_fault(line) is Some {
        line_fault(line)
    } else if enters_uuid(line) && entered.contains_key(uuid_key(entered_uuid(line))) {
        Some(Fault::RepeatedUuid { uuid: entered_uuid(line) })
    } else {
        None
    }
}

/// What is entered once a line has been looked at: its UUID too, where the line enters one
/// and nothing is wrong with it.
spec fn entered_after(line: Seq<char>, entered: Map<u128, Exclusion>) -> Map<
    u128,
    Exclusion,
> {
    if enters_uuid(line) && line_verdict(line, entered) is None {
        entered.insert(uuid_key(entered_uuid(line)), entered_mode(line))
    } else {
        entered
    }
}

/// `entered` holds what the first `count` lines enter, each UUID by its value and under
/// the mode of its line, and nothing else.
spec fn holds_entries_of(
    entered: Map<u128, Exclusion>,
    lines: Seq<Seq<char>>,
    count: int,
) -> bool {
    &&& forall|j: int|
        0 <= j < count && #[trigger] enters_uuid(lines[j]) ==> {
            &&& entered.contains_key(uuid_key(entered_uuid(lines[j])))
            &&& entered[uuid_key(entered_uuid(lines[j]))] == entered_mode(lines[j])
        }
    &&& forall|key: u128| #[trigger]
        entered.contains_key(key) ==> exists|j: int|
            0 <= j < count && #[trigger] enters_uuid(lines[j]) && uuid_key(
                entered_uuid(lines[j]),
            ) == key
}

/// A document has at most one first fault.
pub proof fn lemma_first_fault_is_unique(lines: Seq<Seq<char>>, i: int, j: int)
    requires
        is_first_fault(lines, i),
        is_first_fault(lines, j),
    ensures
        i == j,
{
}

/// The line that is a first fault is the one that the diagnosis names.
pub proof fn lemma_diagnosis_at(document: Seq<char>, i: int)
    requires
        is_first_fault(lines_of(document), i),
    ensures
        diagnosis(document) == Some(((i + 1) as nat, fault_at(lines_of(document), i)->0)),
{
    let lines = lines_of(document);
    lemma_first_fault_is_unique(lines, choose|k: int| is_first_fault(lines, k), i);
}

/// Validation is a function of the document's text: two answers for the same text, from
/// two calls or from one, agree on whether there is a fault and on every character of its
/// text.
pub proof fn lemma_validation_is_repeatable(
    first_document: &str,
    second_document: &str,
    first_answer: Option<String>,
    second_answer: Option<String>,
)
    requires
        first_document@ == second_document@,
        is_validation_of(first_document@, first_answer),
        is_validation_of(second_document@, second_answer),
    ensures
        first_answer is Some <==> second_answer is Some,
        first_answer is Some ==> first_answer->0@ == second_answer->0@,
{
}

/// A document is valid exactly where no line has a fault of its own and no two lines enter
/// the same UUID.
pub proof fn lemma_valid_document(document: Seq<char>)
    ensures
        diagnosis(document) is None <==> {
            let lines = lines_of(document);
            &&& forall|i: int| 0 <= i < lines.len() ==> (#[trigger] line_fault(lines[i])) is None
            &&& forall|i: int, j: int|
                0 <= j < i < lines.len() && #[trigger] enters_uuid(lines[i])
                    && #[trigger] enters_uuid(lines[j]) ==> entered_uuid(lines[i])
                    != entered_uuid(lines[j])
        },
{
    let lines = lines_of(document);
    if diagnosis(document) is None {
        assert forall|i: int| 0 <= i < lines.len() implies (#[trigger] fault_at(lines, i))
            is None by {
            lemma_no_first_fault(lines, i);
        }
        assert forall|i: int| 0 <= i < lines.len() implies (#[trigger] line_fault(lines[i]))
            is None by {
            assert(fault_at(lines, i) is None);
        }
        assert forall|i: int, j: int|
            0 <= j < i < lines.len() && #[trigger] enters_uuid(lines[i])
                && #[trigger] enters_uuid(lines[j]) implies entered_uuid(lines[i])
                != entered_uuid(lines[j]) by {
            assert(fault_at(lines, i) is None);
        }
    }
}

/// Where no line is a first fault, no line up to `i` has a fault.
proof fn lemma_no_first_fault(lines: Seq<Seq<char>>, i: int)
    requires
        forall|k: int| !is_first_fault(lines, k),
        0 <= i < lines.len(),
    ensures
        forall|j: int| 0 <= j <= i ==> (#[trigger] fault_at(lines, j)) is None,
    decreases i,
{
    if i > 0 {
        lemma_no_first_fault(lines, i - 1);
    }
    assert(!is_first_fault(lines, i));
}

/// With the entries of the lines before it at hand, what is wrong with a line is what is
/// wrong with it in its document.
proof fn lemma_verdict_is_fault_at(
    lines: Seq<Seq<char>>,
    i: int,
    entered: Map<u128, Exclusion>,
)
    requires
        0 <= i < lines.len(),
        holds_entries_of(entered, lines, i),
    ensures
        line_verdict(lines[i], entered) == fault_at(lines, i),
{
    let line = lines[i];
    if line_fault(line) is None && enters_uuid(line) {
        let key = uuid_key(entered_uuid(line));
        if entered.contains_key(key) {
            let j = choose|j: int|
                0 <= j < i && #[trigger] enters_uuid(lines[j]) && uuid_key(
                    entered_uuid(lines[j]),
                ) == key;
            lemma_uuid_key_injective(entered_uuid(lines[j]), entered_uuid(line));
        }
    }
}

/// A message of fixed words around a token of the document.
fn token_message(blocklist: &str, token: Span, before: &str, after: &str) -> (message: String)
    requires
        token.fits(blocklist@.len()),
    ensures
        message@ == before@ + token.of(blocklist@) + after@,
{
    let mut message = String::from_str(before);
    message.append(blocklist.substring_char(token.start, token.end));
    message.append(after);
    message
}

/// Looks at one line of a document: says what is wrong with it, given the UUIDs entered so
/// far, and enters its UUID where nothing is. `chars` holds the characters of `blocklist`.
fn examine_line(
    blocklist: &str,
    chars: &[char],
    line: Span,
    registry: &mut Registry,
) -> (message: Option<String>)
    requires
        blocklist@ == chars@,
        line.fits(chars@.len()),
    ensures
        match line_verdict(line.of(chars@), old(registry)@) {
            Some(fault) => message is Some && message->0@ == fault_message(fault),
            None => message is None,
        },
        final(registry)@ == entered_after(line.of(chars@), old(registry)@),
{
    if line.len() == 0 || chars[line.start] == '#' {
        return None;
    }
    if chars[line.start] == ' ' {
        return Some(String::from_str("Starts with extraneous space"));
    }
    if chars[line.end - 1] == ' ' {
        return Some(String::from_str("Ends with extraneous space"));
    }
    let tokens = split_spans(chars, line, ' ');
    if tokens.len() <= 2 {
        let uuid = tokens[0];
        match parse_uuid(uuid.slice(chars)) {
            None => Some(token_message(blocklist, uuid, "'", "' is not a valid UUID")),
            Some(value) => {
                let mut mode = Exclusion::Exclude;
                if tokens.len() == 2 {
                    let tag = tokens[1];
                    if spells(tag.slice(chars), "exclude-reads") {
                        mode = Exclusion::ExcludeReads;
                    } else if spells(tag.slice(chars), "exclude-writes") {
                        mode = Exclusion::ExcludeWrites;
                    } else {
                        return Some(
                            token_message(
                                blocklist,
                                tag,
                                "'",
                                "' should be 'exclude-reads' or 'exclude-writes'",
                            ),
                        );
                    }
                }
                if registry.register(value, mode) {
                    None
                } else {
                    Some(token_message(blocklist, uuid, "'", "' appears multiple times"))
                }
            },
        }
    } else if tokens.len() == 3 {
        if !spells(tokens[0].slice(chars), "manufacturer") {
            Some(token_message(blocklist, tokens[0], "Invalid token '", "' for manufacturer data"))
        } else if !valid_company_identifier_chars(tokens[1].slice(chars)) {
            Some(token_message(blocklist, tokens[1], "Invalid company identifier '", "'"))
        } else if !valid_advertise_data_prefix_chars(tokens[2].slice(chars)) {
            Some(token_message(blocklist, tokens[2], "Invalid advertise data prefix '", "'"))
        } else {
            None
        }
    } else {
        Some(String::from_str("Too many tokens"))
    }
}

impl Diagnostic {
    /// The diagnostic in one line of text: `line`, the number of the line, a colon and the
    /// message.
    pub fn text(&self) -> (text: String)
        ensures
            text@ == diagnostic_text(self.line as nat, self.message@),
    {
        let mut text = String::from_str("line ");
        append_decimal(&mut text, self.line);
        text.append(": ");
        text.append(self.message.as_str());
        text
    }
}

/// Finds the first fault of a blocklist document, if it has one: the number of its line,
/// counted from 1, and its message. Lines after that one are not looked at.
pub fn diagnose_blocklist(blocklist: &str) -> (found: Option<Diagnostic>)
    ensures
        match diagnosis(blocklist@) {
            Some((line, fault)) => {
                &&& found is Some
                &&& found->0.line == line
                &&& found->0.message@ == fault_message(fault)
            },
            None => found is None,
        },
        found is Some ==> 1 <= found->0.line <= lines_of(blocklist@).len(),
{
    let chars = chars_of(blocklist);
    let whole = Span { start: 0, end: chars.len() };
    assert(whole.of(chars@) == blocklist@);
    let lines = split_spans(chars.as_slice(), whole, '\n');
    let ghost texts = lines_of(blocklist@);
    let mut registry = Registry::new();
    let mut i: usize = 0;
    while i < lines.len()
        invariant
            chars@ == blocklist@,
            texts == lines_of(blocklist@),
            lines@.len() == texts.len(),
            i <= lines@.len(),
            forall|k: int|
                0 <= k < lines@.len() ==> {
                    &&& (#[trigger] lines@[k]).fits(chars@.len())
                    &&& lines@[k].of(chars@) == texts[k]
                },
            forall|j: int| 0 <= j < i ==> (#[trigger] fault_at(texts, j)) is None,
            holds_entries_of(registry@, texts, i as int),
        decreases lines@.len() - i,
    {
        let line = lines[i];
        proof {
            lemma_verdict_is_fault_at(texts, i as int, registry@);
        }
        match examine_line(blocklist, chars.as_slice(), line, &mut registry) {
            Some(message) => {
                proof {
                    lemma_diagnosis_at(blocklist@, i as int);
                }
                return Some(Diagnostic { line: i + 1, message });
            },
            None => {},
        }
        i += 1;
    }
    assert(forall|k: int| !is_first_fault(texts, k));
    None
}

/// Validates a blocklist document: nothing where it is valid, else its first fault as one
/// line of text, such as `line 3: Too many tokens`.
pub fn validate_blocklist(blocklist: &str) -> (answer: Option<String>)
    ensures
        is_validation_of(blocklist@, answer),
        answer is None <==> diagnosis(blocklist@) is None,
{
    match diagnose_blocklist(blocklist) {
        Some(diagnostic) => Some(diagnostic.text()),
        None => None,
    }
}

} // verus!
