//! Choosing a character encoding for a subtitle file and decoding its bytes.
use crate::error::DeccError;
use encoding_rs::Encoding;
use vstd::prelude::*;

verus! {

#[verifier::external_type_specification]
#[verifier::external_body]
pub struct ExEncoding(Encoding);

/// A character encoding, known to the logic by its canonical name.
struct Charset {
    encoding: &'static Encoding,
    name: String,
}

impl View for Charset {
    type V = Seq<char>;

    closed spec fn view(&self) -> Seq<char> {
        self.name@
    }
}

/// The canonical name of the encoding that a WHATWG label denotes, if any.
pub uninterp spec fn label_charset(label: Seq<char>) -> Option<Seq<char>>;

/// The text that decoding `bytes` (with no byte-order mark handling) in the
/// named encoding gives, and whether malformed sequences were met.
pub uninterp spec fn decoded_without_bom(encoding: Seq<char>, bytes: Seq<u8>) -> (Seq<char>, bool);

pub open spec fn utf8_name() -> Seq<char> {
    seq!['U', 'T', 'F', '-', '8']
}

/// The encoding that a leading byte-order mark announces, with the mark's length.
pub open spec fn bom_charset(bytes: Seq<u8>) -> Option<(Seq<char>, nat)> {
    if bytes.len() >= 3 && bytes[0] == 0xEF && bytes[1] == 0xBB && bytes[2] == 0xBF {
        Some((utf8_name(), 3))
    } else if bytes.len() >= 2 && bytes[0] == 0xFF && bytes[1] == 0xFE {
        Some((seq!['U', 'T', 'F', '-', '1', '6', 'L', 'E'], 2))
    } else if bytes.len() >= 2 && bytes[0] == 0xFE && bytes[1] == 0xFF {
        Some((seq!['U', 'T', 'F', '-', '1', '6', 'B', 'E'], 2))
    } else {
        None
    }
}

/// The encoding asked for: the one a recognised label names, else UTF-8.
pub open spec fn requested_charset(label: Option<Seq<char>>) -> Seq<char> {
    match label {
        Some(l) => match label_charset(l) {
            Some(name) => name,
            None => utf8_name(),
        },
        None => utf8_name(),
    }
}

/// The encoding the decoder actually uses: a byte-order mark wins over the request.
pub open spec fn used_charset(requested: Seq<char>, bytes: Seq<u8>) -> Seq<char> {
    match bom_charset(bytes) {
        Some((name, _)) => name,
        None => requested,
    }
}

/// The bytes that remain once a leading byte-order mark is removed.
pub open spec fn without_bom(bytes: Seq<u8>) -> Seq<u8> {
    match bom_charset(bytes) {
        Some((_, n)) => bytes.skip(n as int),
        None => bytes,
    }
}

/// The text and malformed-input flag of decoding `bytes` under a request.
pub open spec fn decoding(requested: Seq<char>, bytes: Seq<u8>) -> (Seq<char>, bool) {
    decoded_without_bom(used_charset(requested, bytes), without_bom(bytes))
}

/// Whether a label was given and recognised, and the data announces another encoding.
pub open spec fn is_mismatch(label: Option<Seq<char>>, bytes: Seq<u8>) -> bool {
    &&& label is Some
    &&& label_charset(label->0) is Some
    &&& used_charset(requested_charset(label), bytes) != requested_charset(label)
}

/// Relies on `Encoding::for_label`: WHATWG label lookup, which depends on the label
/// alone and maps `utf-8` to UTF-8. The encoding's `name` is kept as its identity.
#[verifier::external_body]
fn charset_for_label(label: &str) -> (r: Option<Charset>)
    ensures
        r is Some <==> label_charset(label@) is Some,
        r is Some ==> r->0@ == label_charset(label@)->0,
        label@ == "utf-8"@ ==> r is Some && r->0@ == utf8_name(),
{
    match Encoding::for_label(label.as_bytes()) {
        Some(encoding) => Some(Charset { encoding, name: encoding.name().to_string() }),
        None => None,
    }
}

/// Relies on `Encoding::decode`: a UTF-8 or UTF-16 byte-order mark overrides the
/// requested encoding and is removed; the rest is decoded with malformed sequences
/// replaced, reporting the encoding used and whether any were met.
#[verifier::external_body]
fn decode_with(charset: &Charset, bytes: &[u8]) -> (r: (String, Charset, bool))
    ensures
        r.1@ == used_charset(charset@, bytes@),
        (r.0@, r.2) == decoded_without_bom(r.1@, without_bom(bytes@)),
{
    let (text, used, malformed) = charset.encoding.decode(bytes);
    (text.into_owned(), Charset { encoding: used, name: used.name().to_string() }, malformed)
}

/// The encoding asked for, resolved at run time: the one the label names, else UTF-8.
fn resolve_charset(label: Option<&str>) -> (r: Charset)
    ensures
        r@ == requested_charset(
            match label {
                Some(l) => Some(l@),
                None => None,
            },
        ),
{
    let found = match label {
        Some(l) => charset_for_label(l),
        None => None,
    };
    match found {
        Some(c) => c,
        None => {
            proof {
                reveal_strlit("utf-8");
            }
            let fallback = charset_for_label("utf-8");
            fallback.unwrap()
        },
    }
}

pub open spec fn label_view(label: Option<&str>) -> Option<Seq<char>> {
    match label {
        Some(l) => Some(l@),
        None => None,
    }
}

/// Decodes the contents of a subtitle file.
///
/// The encoding is the one `encoding` names when it is a recognised label, else
/// UTF-8; a byte-order mark in the data overrides it. Unless `force` is set, a
/// recognised label that the mark contradicts gives `EncodingMismatch`, and
/// malformed input gives `MalformedInput`; with `force` the decoded text, with
/// replacement characters, is returned in both cases.
pub fn read_file_with_encoding(contents: &[u8], encoding: Option<&str>, force: bool) -> (r: Result<
    String,
    DeccError,
>)
    ensures
        ({
            let label = label_view(encoding);
            let requested = requested_charset(label);
            let used = used_charset(requested, contents@);
            let (text, malformed) = decoding(requested, contents@);
            match r {
                Ok(s) => s@ == text && (force || (!is_mismatch(label, contents@) && !malformed)),
                Err(e) => !force && if is_mismatch(label, contents@) {
                    e matches DeccError::EncodingMismatch { requested: q, actual: a } && q@
                        == requested && a@ == used
                } else {
                    &&& malformed
                    &&& e matches DeccError::MalformedInput { encoding: n } && n@ == requested
                },
            }
        }),
{
    let gave_encoding = match encoding {
        Some(l) => charset_for_label(l).is_some(),
        None => false,
    };
    let requested = resolve_charset(encoding);
    let (text, used, malformed) = decode_with(&requested, contents);
    if !force {
        if gave_encoding && used.name != requested.name {
            return Err(DeccError::EncodingMismatch { requested: requested.name, actual: used.name });
        }
        if malformed {
            return Err(DeccError::MalformedInput { encoding: requested.name });
        }
    }
    Ok(text)
}

/// Decoding data that carries no byte-order mark gives the same result in auto
/// mode as under any label that denotes UTF-8, such as `utf-8`: the same
/// encoding is used, no mismatch arises, and the same text comes out.
pub proof fn lemma_utf8_label_agrees_with_auto(label: Seq<char>, bytes: Seq<u8>)
    requires
        label_charset(label) == Some(utf8_name()),
        bom_charset(bytes) is None,
    ensures
        requested_charset(Some(label)) == requested_charset(None),
        !is_mismatch(Some(label), bytes),
        !is_mismatch(None, bytes),
        decoding(requested_charset(Some(label)), bytes) == decoding(requested_charset(None), bytes),
{
}

/// Data that begins with the UTF-16 little-endian byte-order mark, decoded under
/// a label that denotes UTF-8, is a mismatch: strict mode reports it and
/// `force` lets the decoded text through.
pub proof fn lemma_utf16le_bom_contradicts_utf8_label(label: Seq<char>, bytes: Seq<u8>)
    requires
        label_charset(label) == Some(utf8_name()),
        bytes.len() >= 2,
        bytes[0] == 0xFF,
        bytes[1] == 0xFE,
    ensures
        is_mismatch(Some(label), bytes),
        used_charset(requested_charset(Some(label)), bytes) == seq!['U', 'T', 'F', '-', '1', '6', 'L', 'E'],
{
    assert(utf8_name().len() != seq!['U', 'T', 'F', '-', '1', '6', 'L', 'E'].len());
}

} // verus!
