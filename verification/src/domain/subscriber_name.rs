//! Validated subscriber names.

use unicode_segmentation::UnicodeSegmentation;
use vstd::prelude::*;
use vstd::string::*;

verus! {

/// The number of extended grapheme clusters of a text, as Unicode Standard
/// Annex #29 divides it.
pub uninterp spec fn grapheme_count(text: Seq<char>) -> nat;

/// Whether a character has the Unicode property `White_Space`: the controls
/// from tab to carriage return, the space, the next-line control, the
/// no-break space, the Ogham space mark, the spaces from en quad to hair
/// space, the line and paragraph separators, the narrow no-break space, the
/// medium mathematical space and the ideographic space.
pub open spec fn is_white_space(c: char) -> bool {
    let code = c as u32;
    ||| 0x09 <= code <= 0x0d
    ||| code == 0x20
    ||| code == 0x85
    ||| code == 0xa0
    ||| code == 0x1680
    ||| 0x2000 <= code <= 0x200a
    ||| code == 0x2028
    ||| code == 0x2029
    ||| code == 0x202f
    ||| code == 0x205f
    ||| code == 0x3000
}

/// Whether a text holds nothing but white space. The empty text is blank.
pub open spec fn is_blank(text: Seq<char>) -> bool {
    forall|i: int| 0 <= i < text.len() ==> is_white_space(#[trigger] text[i])
}

/// Whether cutting a text down to the characters from `start` up to `end`
/// removes its leading and trailing white space and nothing else.
pub open spec fn trims_at(text: Seq<char>, start: int, end: int) -> bool {
    &&& 0 <= start <= end <= text.len()
    &&& forall|i: int| 0 <= i < start ==> is_white_space(#[trigger] text[i])
    &&& forall|i: int| end <= i < text.len() ==> is_white_space(#[trigger] text[i])
    &&& start < end ==> !is_white_space(text[start]) && !is_white_space(text[end - 1])
}

/// Whether `rest` is `text` without its leading and trailing white space.
pub open spec fn is_trim_of(rest: Seq<char>, text: Seq<char>) -> bool {
    exists|start: int, end: int| #[trigger]
        trims_at(text, start, end) && rest == text.subrange(start, end)
}

/// Trimming leaves nothing exactly of a blank text.
pub proof fn lemma_trim_of_blank(rest: Seq<char>, text: Seq<char>)
    requires
        is_trim_of(rest, text),
    ensures
        rest.len() == 0 <==> is_blank(text),
{
    let (start, end) = choose|start: int, end: int| #[trigger]
        trims_at(text, start, end) && rest == text.subrange(start, end);
    if rest.len() == 0 {
        assert(start == end);
    }
    if is_blank(text) && start < end {
        assert(is_white_space(text[start]));
    }
}

/// Calls `UnicodeSegmentation::graphemes` with `is_extended` set and counts
/// what the iterator yields. The count depends on the text alone; the
/// contract gives it the name [`grapheme_count`] and claims nothing else.
#[verifier::external_body]
fn count_graphemes(text: &str) -> (count: usize)
    ensures
        count == grapheme_count(text@),
{
    text.graphemes(true).count()
}

/// Calls `str::trim`, which returns the slice without leading and trailing
/// white space, where white space is what the Unicode property `White_Space`
/// says. The contract claims that and nothing else.
#[verifier::external_body]
fn trim(text: &str) -> (rest: &str)
    ensures
        is_trim_of(rest@, text@),
{
    text.trim()
}

/// The longest name accepted, in grapheme clusters.
pub const MAX_NAME_GRAPHEMES: usize = 256;

/// The characters that no name may hold.
pub open spec fn is_forbidden_character(c: char) -> bool {
    c == '/' || c == '(' || c == ')' || c == '"' || c == '<' || c == '>' || c == '\\' || c == '{'
        || c == '}'
}

/// Whether a text holds at least one forbidden character.
pub open spec fn has_forbidden_character(text: Seq<char>) -> bool {
    exists|i: int| 0 <= i < text.len() && is_forbidden_character(#[trigger] text[i])
}

/// Whether a text is a valid subscriber name, given how many grapheme clusters
/// it has.
pub open spec fn is_valid_name(text: Seq<char>, graphemes: nat) -> bool {
    &&& !is_blank(text)
    &&& graphemes <= MAX_NAME_GRAPHEMES
    &&& !has_forbidden_character(text)
}

/// The message that rejects a text as a name.
pub open spec fn rejection_message(text: Seq<char>) -> Seq<char> {
    text + " is not a valid subscriber name."@
}

/// The name of a subscriber: not blank, at most 256 grapheme clusters long and
/// free of the characters `/ ( ) " < > \ { }`.
#[derive(Debug, PartialEq, Eq)]
pub struct SubscriberName(String);

impl View for SubscriberName {
    type V = Seq<char>;

    closed spec fn view(&self) -> Seq<char> {
        self.0@
    }
}

fn is_forbidden(c: char) -> (forbidden: bool)
    ensures
        forbidden == is_forbidden_character(c),
{
    c == '/' || c == '(' || c == ')' || c == '"' || c == '<' || c == '>' || c == '\\' || c == '{'
        || c == '}'
}

/// Looks for a forbidden character in a text.
pub fn contains_forbidden_character(text: &str) -> (found: bool)
    ensures
        found == has_forbidden_character(text@),
{
    let mut found = false;
    for c in it: text.chars()
        invariant
            it.seq() == text@,
            found == exists|i: int|
                0 <= i < it.index() && is_forbidden_character(#[trigger] text@[i]),
    {
        if is_forbidden(c) {
            found = true;
        }
    }
    found
}

impl SubscriberName {
    /// The invariant of the type: the text is a valid name.
    pub closed spec fn wf(&self) -> bool {
        is_valid_name(self.0@, grapheme_count(self.0@))
    }

    /// Decides whether a text is a valid name, given the number of its
    /// grapheme clusters.
    pub fn accepts(text: &str, graphemes: usize) -> (valid: bool)
        ensures
            valid == is_valid_name(text@, graphemes as nat),
    {
        let rest = trim(text);
        proof {
            lemma_trim_of_blank(rest@, text@);
        }
        let is_empty_or_whitespace = rest.is_empty();
        let is_too_long = graphemes > MAX_NAME_GRAPHEMES;
        let contains_forbidden_characters = contains_forbidden_character(text);
        !(is_empty_or_whitespace || is_too_long || contains_forbidden_characters)
    }

    /// Accepts a text as a name, or rejects it with a message that quotes it.
    pub fn parse(input: String) -> (parsed: Result<SubscriberName, String>)
        ensures
            match parsed {
                Ok(name) => name@ == input@ && name.wf(),
                Err(message) => message@ == rejection_message(input@),
            },
            parsed is Ok <==> is_valid_name(input@, grapheme_count(input@)),
    {
        let graphemes = count_graphemes(input.as_str());
        if SubscriberName::accepts(input.as_str(), graphemes) {
            Ok(SubscriberName(input))
        } else {
            let mut message = input;
            message.append(" is not a valid subscriber name.");
            Err(message)
        }
    }

    /// The name's text.
    pub fn as_ref(&self) -> (text: &str)
        ensures
            text@ == self@,
    {
        self.0.as_str()
    }
}

} // verus!
