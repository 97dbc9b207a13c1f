//! The SubRip side of the pipeline: reading cues from text, writing them back,
//! and the whole transformation of a file's contents.
use crate::cues::{cues_view, remove_pattern_from_subs, rewritten, Cue, CueView, Pattern, Time};
use crate::encoding::{
    decoding, is_mismatch, label_view, read_file_with_encoding, requested_charset,
};
use crate::error::DeccError;
use srtlib::{ParsingError, Subtitle, Subtitles, Timestamp};
use vstd::prelude::*;

verus! {

#[verifier::external_type_specification]
#[verifier::external_body]
pub struct ExParsingError(ParsingError);

/// The pattern that matches `[...]` and `(...)` annotations, bodies taken
/// non-greedily and across line breaks.
pub const DEFAULT_PATTERN: &'static str = r"(?s)(\[.*?\]|\(.*?\))";

/// The cues that SubRip text holds, or nothing when it is not valid SubRip.
pub uninterp spec fn parsed_srt(text: Seq<char>) -> Option<Seq<CueView>>;

/// The SubRip text that writes out a sequence of cues.
pub uninterp spec fn rendered_srt(cues: Seq<CueView>) -> Seq<char>;

/// Relies on `Subtitles::parse_from_str`: parses SubRip text into its cues,
/// in file order, or fails; the outcome depends on the text alone.
#[verifier::external_body]
fn parse_srt(text: String) -> (r: Result<Vec<Cue>, ParsingError>)
    ensures
        r is Ok <==> parsed_srt(text@) is Some,
        r is Ok ==> cues_view(r->Ok_0@) == parsed_srt(text@)->0,
{
    match Subtitles::parse_from_str(text) {
        Ok(subs) => Ok(
            subs.into_iter().map(
                |s: Subtitle|
                    Cue::new(s.num, Time::from_parts(s.start_time.get()), Time::from_parts(s.end_time.get()), s.text),
            ).collect(),
        ),
        Err(e) => Err(e),
    }
}

/// Relies on `Subtitles`' `Display`: the SubRip text of the cues, blocks joined
/// by blank lines; it depends on the cues alone.
#[verifier::external_body]
fn render_srt(cues: &Vec<Cue>) -> (r: String)
    ensures
        r@ == rendered_srt(cues_view(cues@)),
{
    let t = |t: &Time| Timestamp::new(t.hours, t.minutes, t.seconds, t.milliseconds);
    let subs = cues.iter().map(|c| Subtitle::new(c.num, t(&c.start), t(&c.end), c.text.clone()));
    Subtitles::new_from_vec(subs.collect()).to_string()
}

/// Whether the decoder refuses the data in strict mode.
pub open spec fn strict_rejects(label: Option<Seq<char>>, bytes: Seq<u8>, force: bool) -> bool {
    !force && (is_mismatch(label, bytes) || decoding(requested_charset(label), bytes).1)
}

/// Whether a path's file name has the extension `srt`: it ends in `.srt`, and
/// that dot is not the first character of the file name.
pub open spec fn has_srt_extension(path: Seq<char>) -> bool {
    &&& path.len() >= 5
    &&& path.subrange(path.len() - 4, path.len() as int) == seq!['.', 's', 'r', 't']
    &&& path[path.len() - 5] != '/'
}

/// Accepts a path whose extension names SubRip; `UnsupportedFormat` otherwise.
pub fn check_format(path: &str) -> (r: Result<(), DeccError>)
    ensures
        r is Ok <==> has_srt_extension(path@),
        r is Err ==> r->Err_0 == DeccError::UnsupportedFormat,
{
    let n = path.unicode_len();
    if n >= 5 && path.get_char(n - 4) == '.' && path.get_char(n - 3) == 's' && path.get_char(n - 2)
        == 'r' && path.get_char(n - 1) == 't' && path.get_char(n - 5) != '/' {
        proof {
            assert(path@.subrange(n - 4, n as int) =~= seq!['.', 's', 'r', 't']);
        }
        Ok(())
    } else {
        proof {
            if has_srt_extension(path@) {
                let tail = path@.subrange(n - 4, n as int);
                assert(tail[0] == path@[n - 4]);
                assert(tail[1] == path@[n - 3]);
                assert(tail[2] == path@[n - 2]);
                assert(tail[3] == path@[n - 1]);
            }
        }
        Err(DeccError::UnsupportedFormat)
    }
}

/// Transforms the contents of a SubRip file: decodes them (see
/// `read_file_with_encoding`), parses the cues, strips the pattern's matches
/// and drops the cues left without letters, and writes the rest as SubRip text.
pub fn deccify_srt_contents(
    contents: &[u8],
    encoding: Option<&str>,
    force: bool,
    pattern: &Pattern,
) -> (r: Result<String, DeccError>)
    ensures
        ({
            let label = label_view(encoding);
            let text = decoding(requested_charset(label), contents@).0;
            &&& r is Ok <==> !strict_rejects(label, contents@, force) && parsed_srt(text) is Some
            &&& r is Ok ==> r->Ok_0@ == rendered_srt(rewritten(parsed_srt(text)->0, pattern@))
            &&& strict_rejects(label, contents@, force) ==> r is Err && if is_mismatch(
                label,
                contents@,
            ) {
                r->Err_0 is EncodingMismatch
            } else {
                r->Err_0 is MalformedInput
            }
            &&& !strict_rejects(label, contents@, force) && parsed_srt(text) is None ==> r
                == Err::<String, DeccError>(DeccError::ParseError)
        }),
{
    let text = read_file_with_encoding(contents, encoding, force)?;
    let cues = match parse_srt(text) {
        Ok(cues) => cues,
        Err(_) => return Err(DeccError::ParseError),
    };
    let kept = remove_pattern_from_subs(cues, pattern);
    Ok(render_srt(&kept))
}

/// What one run of the program is asked to do.
pub struct Options {
    /// Input file.
    pub input_file: String,
    /// Output file.
    pub output_file: String,
    /// Encoding to use.
    pub encoding: Option<String>,
    /// Force decoding even if the encoding is wrong or the data malformed.
    pub force: bool,
    /// The pattern whose matches are removed.
    pub pattern: Pattern,
}

} // verus!
