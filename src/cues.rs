//! Cues, annotation patterns, and the rewrite that strips annotations from cues.
use crate::error::DeccError;
use regex::Regex;
use vstd::prelude::*;
use vstd::string::*;

verus! {

#[verifier::external_type_specification]
#[verifier::external_body]
pub struct ExRegex(Regex);

#[verifier::external_type_specification]
#[verifier::external_body]
pub struct ExRegexError(regex::Error);

/// A point in time as hours, minutes, seconds and milliseconds.
#[derive(Debug, Clone, Copy, PartialEq, Eq, Structural)]
pub struct Time {
    pub hours: u8,
    pub minutes: u8,
    pub seconds: u8,
    pub milliseconds: u16,
}

impl Time {
    pub fn new(hours: u8, minutes: u8, seconds: u8, milliseconds: u16) -> (r: Time)
        ensures
            r == (Time { hours, minutes, seconds, milliseconds }),
    {
        Time { hours, minutes, seconds, milliseconds }
    }

    /// Builds a time from an `(hours, minutes, seconds, milliseconds)` tuple.
    pub fn from_parts(parts: (u8, u8, u8, u16)) -> (r: Time)
        ensures
            r == (Time { hours: parts.0, minutes: parts.1, seconds: parts.2, milliseconds: parts.3 }),
    {
        Time { hours: parts.0, minutes: parts.1, seconds: parts.2, milliseconds: parts.3 }
    }
}

/// One subtitle entry: its ordinal, when it shows and hides, and its text.
#[derive(Debug, PartialEq, Eq)]
pub struct Cue {
    pub num: usize,
    pub start: Time,
    pub end: Time,
    pub text: String,
}

/// A cue as a mathematical value.
pub struct CueView {
    pub num: usize,
    pub start: Time,
    pub end: Time,
    pub text: Seq<char>,
}

impl View for Cue {
    type V = CueView;

    open spec fn view(&self) -> CueView {
        CueView { num: self.num, start: self.start, end: self.end, text: self.text@ }
    }
}

impl Cue {
    pub fn new(num: usize, start: Time, end: Time, text: String) -> (r: Cue)
        ensures
            r@ == (CueView { num, start, end, text: text@ }),
    {
        Cue { num, start, end, text }
    }
}

/// The views of a sequence of cues.
pub open spec fn cues_view(cues: Seq<Cue>) -> Seq<CueView> {
    cues.map_values(|c: Cue| c@)
}

/// A compiled regular expression together with its source text.
pub struct Pattern {
    regex: Regex,
    source: String,
}

impl View for Pattern {
    type V = Seq<char>;

    closed spec fn view(&self) -> Seq<char> {
        self.source@
    }
}

/// Whether `source` is a regular expression that the engine accepts.
pub uninterp spec fn is_valid_pattern(source: Seq<char>) -> bool;

/// `text` with every non-overlapping, leftmost-first match of the pattern
/// written `pattern` replaced by nothing.
pub uninterp spec fn without_matches(pattern: Seq<char>, text: Seq<char>) -> Seq<char>;

/// Whether a character has the Unicode Alphabetic property.
pub uninterp spec fn is_alphabetic_char(c: char) -> bool;

/// Relies on `Regex::new`: compiles `source`, or reports why it is not a valid
/// regular expression; which of the two depends on `source` alone.
#[verifier::external_body]
fn compile_regex(source: &str) -> (r: Result<Pattern, regex::Error>)
    ensures
        r is Ok <==> is_valid_pattern(source@),
        r is Ok ==> r->Ok_0@ == source@,
{
    match Regex::new(source) {
        Ok(regex) => Ok(Pattern { regex, source: source.to_string() }),
        Err(e) => Err(e),
    }
}

/// Relies on `Regex::replace_all` with an empty replacement: removes every
/// non-overlapping match, leftmost first; the result depends on the pattern's
/// source and the text alone.
#[verifier::external_body]
fn remove_matches(pattern: &Pattern, text: &str) -> (r: String)
    ensures
        r@ == without_matches(pattern@, text@),
{
    pattern.regex.replace_all(text, "").into_owned()
}

/// Relies on `char::is_alphabetic`: the Unicode Alphabetic property.
#[verifier::external_body]
fn is_alphabetic(c: char) -> (r: bool)
    ensures
        r == is_alphabetic_char(c),
{
    c.is_alphabetic()
}

impl Pattern {
    /// Compiles an annotation pattern; `InvalidPattern` when `source` is not a
    /// valid regular expression.
    pub fn new(source: &str) -> (r: Result<Pattern, DeccError>)
        ensures
            r is Ok <==> is_valid_pattern(source@),
            r is Ok ==> r->Ok_0@ == source@,
            r is Err ==> r->Err_0 == DeccError::InvalidPattern,
    {
        match compile_regex(source) {
            Ok(p) => Ok(p),
            Err(_) => Err(DeccError::InvalidPattern),
        }
    }

    /// The pattern's source text.
    pub fn as_str(&self) -> (r: &str)
        ensures
            r@ == self@,
    {
        self.source.as_str()
    }
}

/// Whether a text holds at least one alphabetic character.
pub open spec fn has_alphabetic(text: Seq<char>) -> bool {
    exists|i: int| 0 <= i < text.len() && is_alphabetic_char(#[trigger] text[i])
}

/// Whether a cue whose text has been stripped of annotations is kept.
pub fn contains_alphabetic(text: &str) -> (r: bool)
    ensures
        r == has_alphabetic(text@),
{
    let n = text.unicode_len();
    let mut i: usize = 0;
    while i < n
        invariant
            n == text@.len(),
            i <= n,
            forall|j: int| 0 <= j < i ==> !is_alphabetic_char(#[trigger] text@[j]),
        decreases n - i,
    {
        if is_alphabetic(text.get_char(i)) {
            return true;
        }
        i = i + 1;
    }
    false
}

/// The cue sequence after rewriting: each cue's text stripped of the pattern's
/// matches, and only the cues whose stripped text holds a letter kept, in order.
pub open spec fn rewritten(cues: Seq<CueView>, pattern: Seq<char>) -> Seq<CueView>
    decreases cues.len(),
{
    if cues.len() == 0 {
        Seq::empty()
    } else {
        let kept = rewritten(cues.drop_last(), pattern);
        let c = cues.last();
        let text = without_matches(pattern, c.text);
        if has_alphabetic(text) {
            kept.push(CueView { text, ..c })
        } else {
            kept
        }
    }
}

/// Removes the pattern's matches from every cue's text, and drops the cues
/// that are left with no alphabetic character. Kept cues keep their ordinal,
/// their times and their order.
pub fn remove_pattern_from_subs(subs: Vec<Cue>, pattern: &Pattern) -> (r: Vec<Cue>)
    ensures
        cues_view(r@) == rewritten(cues_view(subs@), pattern@),
{
    let mut out: Vec<Cue> = Vec::new();
    let mut i: usize = 0;
    while i < subs.len()
        invariant
            i <= subs.len(),
            cues_view(out@) == rewritten(cues_view(subs@).take(i as int), pattern@),
        decreases subs.len() - i,
    {
        let c = &subs[i];
        let text = remove_matches(pattern, c.text.as_str());
        proof {
            let s = cues_view(subs@);
            assert(s.take(i as int + 1).drop_last() =~= s.take(i as int));
        }
        let ghost before = out@;
        if contains_alphabetic(text.as_str()) {
            out.push(Cue { num: c.num, start: c.start, end: c.end, text });
            proof {
                assert(cues_view(out@) =~= cues_view(before).push(out@.last()@));
            }
        }
        i = i + 1;
    }
    proof {
        assert(cues_view(subs@).take(subs.len() as int) =~= cues_view(subs@));
    }
    out
}

/// The positions, in the input, of the cues that a rewrite keeps.
pub open spec fn kept_positions(cues: Seq<CueView>, pattern: Seq<char>) -> Seq<int>
    decreases cues.len(),
{
    if cues.len() == 0 {
        Seq::empty()
    } else {
        let kept = kept_positions(cues.drop_last(), pattern);
        if has_alphabetic(without_matches(pattern, cues.last().text)) {
            kept.push(cues.len() - 1)
        } else {
            kept
        }
    }
}

/// Each output cue is the input cue at its kept position, with stripped text;
/// the kept positions rise strictly and are exactly those whose stripped text
/// holds a letter.
proof fn lemma_rewritten_origin(cues: Seq<CueView>, pattern: Seq<char>)
    ensures
        ({
            let out = rewritten(cues, pattern);
            let k = kept_positions(cues, pattern);
            &&& out.len() == k.len()
            &&& forall|j: int| 0 <= j < k.len() ==> 0 <= #[trigger] k[j] < cues.len()
            &&& forall|j1: int, j2: int|
                0 <= j1 < j2 < k.len() ==> #[trigger] k[j1] < #[trigger] k[j2]
            &&& forall|j: int|
                0 <= j < out.len() ==> #[trigger] out[j] == (CueView {
                    text: without_matches(pattern, cues[k[j]].text),
                    ..cues[k[j]]
                })
            &&& forall|i: int|
                0 <= i < cues.len() ==> (has_alphabetic(
                    without_matches(pattern, #[trigger] cues[i].text),
                ) <==> exists|j: int| 0 <= j < k.len() && k[j] == i)
        }),
    decreases cues.len(),
{
    if cues.len() > 0 {
        let init = cues.drop_last();
        lemma_rewritten_origin(init, pattern);
        let k0 = kept_positions(init, pattern);
        let k = kept_positions(cues, pattern);
        assert forall|i: int|
            0 <= i < cues.len() implies (has_alphabetic(
            without_matches(pattern, #[trigger] cues[i].text),
        ) <==> exists|j: int| 0 <= j < k.len() && k[j] == i) by {
            if i < cues.len() - 1 {
                assert(cues[i] == init[i]);
                if has_alphabetic(without_matches(pattern, cues[i].text)) {
                    let j = choose|j: int| 0 <= j < k0.len() && k0[j] == i;
                    assert(k[j] == i);
                }
                if exists|j: int| 0 <= j < k.len() && k[j] == i {
                    let j = choose|j: int| 0 <= j < k.len() && k[j] == i;
                    assert(j < k0.len());
                    assert(k0[j] == i);
                }
            } else {
                if exists|j: int| 0 <= j < k.len() && k[j] == i {
                    let j = choose|j: int| 0 <= j < k.len() && k[j] == i;
                    if j < k0.len() {
                        assert(k0[j] == k[j]);
                    }
                }
                if has_alphabetic(without_matches(pattern, cues[i].text)) {
                    assert(k[k.len() - 1] == i);
                }
            }
        }
    }
}

/// Rewriting keeps the relative order of the cues it retains: the output's
/// cues come from strictly increasing input positions, ordinals unchanged.
pub proof fn lemma_rewrite_keeps_order(cues: Seq<CueView>, pattern: Seq<char>)
    ensures
        ({
            let out = rewritten(cues, pattern);
            let k = kept_positions(cues, pattern);
            &&& out.len() == k.len()
            &&& forall|j: int| 0 <= j < k.len() ==> 0 <= #[trigger] k[j] < cues.len()
            &&& forall|j1: int, j2: int|
                0 <= j1 < j2 < k.len() ==> #[trigger] k[j1] < #[trigger] k[j2]
            &&& forall|j: int| 0 <= j < out.len() ==> #[trigger] out[j].num == cues[k[j]].num
        }),
{
    lemma_rewritten_origin(cues, pattern);
}

/// Every retained cue has the start and end time of the input cue it came from.
pub proof fn lemma_rewrite_keeps_times(cues: Seq<CueView>, pattern: Seq<char>)
    ensures
        ({
            let out = rewritten(cues, pattern);
            let k = kept_positions(cues, pattern);
            &&& out.len() == k.len()
            &&& forall|j: int|
                0 <= j < out.len() ==> #[trigger] out[j].start == cues[k[j]].start
                    && out[j].end == cues[k[j]].end
        }),
{
    lemma_rewritten_origin(cues, pattern);
}

/// A cue appears in the output exactly when its text, stripped of the
/// pattern's matches, holds an alphabetic character; it then carries that text.
pub proof fn lemma_rewrite_retention(cues: Seq<CueView>, pattern: Seq<char>)
    ensures
        ({
            let out = rewritten(cues, pattern);
            let k = kept_positions(cues, pattern);
            &&& out.len() == k.len()
            &&& forall|j: int|
                0 <= j < out.len() ==> #[trigger] out[j].text == without_matches(
                    pattern,
                    cues[k[j]].text,
                ) && has_alphabetic(out[j].text)
            &&& forall|i: int|
                0 <= i < cues.len() ==> (has_alphabetic(
                    without_matches(pattern, #[trigger] cues[i].text),
                ) <==> exists|j: int| 0 <= j < k.len() && k[j] == i)
        }),
{
    lemma_rewritten_origin(cues, pattern);
    let out = rewritten(cues, pattern);
    let k = kept_positions(cues, pattern);
    assert forall|j: int| 0 <= j < out.len() implies has_alphabetic(#[trigger] out[j].text) by {
        let i = k[j];
        assert(exists|jj: int| 0 <= jj < k.len() && k[jj] == i);
        assert(has_alphabetic(without_matches(pattern, cues[i].text)));
    }
}

/// Rewriting twice is rewriting once, wherever stripping the pattern's matches
/// from each cue's text leaves no match to strip.
pub proof fn lemma_rewrite_idempotent(cues: Seq<CueView>, pattern: Seq<char>)
    requires
        forall|i: int|
            0 <= i < cues.len() ==> without_matches(pattern, without_matches(pattern, #[trigger] cues[i].text))
                == without_matches(pattern, cues[i].text),
    ensures
        rewritten(rewritten(cues, pattern), pattern) == rewritten(cues, pattern),
    decreases cues.len(),
{
    if cues.len() > 0 {
        let init = cues.drop_last();
        assert forall|i: int|
            0 <= i < init.len() implies without_matches(pattern, without_matches(pattern, #[trigger] init[i].text))
            == without_matches(pattern, init[i].text) by {
            assert(init[i] == cues[i]);
        }
        lemma_rewrite_idempotent(init, pattern);
        let once = rewritten(init, pattern);
        let c = cues.last();
        let text = without_matches(pattern, c.text);
        assert(without_matches(pattern, text) == text) by {
            assert(cues[cues.len() - 1] == c);
        }
        if has_alphabetic(text) {
            let c1 = CueView { text, ..c };
            assert(once.push(c1).drop_last() =~= once);
            assert(rewritten(once.push(c1), pattern) == rewritten(once, pattern).push(c1));
        }
    }
}

} // verus!
