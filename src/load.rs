//! Loading the text of each input.
use vstd::prelude::*;
use vstd::utf8::{decode_utf8, valid_utf8};
use crate::resolve::Source;

verus! {

/// The text that a lossy UTF-8 decode makes of `bytes`, with a replacement
/// character in place of each invalid sequence.
pub uninterp spec fn lossy_utf8(bytes: Seq<u8>) -> Seq<char>;

/// Relies on `std::str::from_utf8`: a text exactly when the bytes are valid
/// UTF-8, and then their decoding.
#[verifier::external_body]
fn strict_utf8(bytes: &[u8]) -> (r: Option<&str>)
    ensures
        r is Some <==> valid_utf8(bytes@),
        r matches Some(s) ==> s@ == decode_utf8(bytes@),
{
    std::str::from_utf8(bytes).ok()
}

/// Relies on `String::from_utf8_lossy`: the decoding of `bytes` with
/// invalid sequences replaced.
#[verifier::external_body]
fn lossy_decode(bytes: &[u8]) -> (r: String)
    ensures
        r@ == lossy_utf8(bytes@),
{
    String::from_utf8_lossy(bytes).into_owned()
}

/// The text of `bytes`: their strict UTF-8 decoding when they are valid
/// UTF-8, else their lossy decoding.
pub open spec fn decoded_text(bytes: Seq<u8>) -> Seq<char> {
    if valid_utf8(bytes) {
        decode_utf8(bytes)
    } else {
        lossy_utf8(bytes)
    }
}

/// `text` with one newline added when it is neither empty nor ends with one.
pub open spec fn normalized_stdin(text: Seq<char>) -> Seq<char> {
    if text.len() > 0 && text.last() != '\n' {
        text.push('\n')
    } else {
        text
    }
}

/// Normalized standard-input text is empty or ends with a newline, and
/// normalizing it again leaves it as it is: a final newline is never doubled.
pub proof fn lemma_normalized_stdin_stable(text: Seq<char>)
    ensures
        normalized_stdin(text).len() > 0 ==> normalized_stdin(text).last() == '\n',
        normalized_stdin(normalized_stdin(text)) == normalized_stdin(text),
{
}

/// The display label of a source: empty for standard input, else the path.
pub open spec fn label_of(source: Option<Seq<char>>) -> Seq<char> {
    match source {
        Some(p) => p,
        None => Seq::empty(),
    }
}

/// The loaded text of a source whose raw bytes are `bytes`: files verbatim,
/// standard input with its final newline made sure of.
pub open spec fn loaded_text(source: Option<Seq<char>>, bytes: Seq<u8>) -> Seq<char> {
    match source {
        Some(_) => decoded_text(bytes),
        None => normalized_stdin(decoded_text(bytes)),
    }
}

/// Decodes `bytes` as UTF-8 text, falling back to a lossy decode when they
/// are not valid UTF-8.
pub fn decode_text(bytes: &[u8]) -> (r: String)
    ensures
        r@ == decoded_text(bytes@),
{
    match strict_utf8(bytes) {
        Some(s) => s.to_owned(),
        None => lossy_decode(bytes),
    }
}

/// Makes sure that non-empty standard-input text ends with a newline,
/// adding exactly one when it does not.
pub fn normalize_stdin(text: String) -> (r: String)
    ensures
        r@ == normalized_stdin(text@),
{
    let n = text.as_str().unicode_len();
    if n > 0 && text.as_str().get_char(n - 1) != '\n' {
        let mut t = text;
        t.append("\n");
        proof {
            reveal_strlit("\n");
            assert(t@ =~= text@.push('\n'));
        }
        t
    } else {
        text
    }
}

/// One loaded input: the label shown in its header line and its text.
pub struct ResolvedInput {
    pub label: String,
    pub content: String,
}

impl View for ResolvedInput {
    type V = (Seq<char>, Seq<char>);

    open spec fn view(&self) -> (Seq<char>, Seq<char>) {
        (self.label@, self.content@)
    }
}

/// A named input could not be read: its label, and the cause as reported.
pub struct InputReadFailure {
    pub path: String,
    pub cause: String,
}

impl View for InputReadFailure {
    type V = (Seq<char>, Seq<char>);

    open spec fn view(&self) -> (Seq<char>, Seq<char>) {
        (self.path@, self.cause@)
    }
}

/// The view of what reading an input gave: its bytes, or the cause of
/// failure.
pub open spec fn fetched_view(f: Result<Vec<u8>, String>) -> Result<Seq<u8>, Seq<char>> {
    match f {
        Ok(b) => Ok(b@),
        Err(c) => Err(c@),
    }
}

/// What loading a source gives once reading it gave `fetched`.
pub open spec fn load_result(
    source: Option<Seq<char>>,
    fetched: Result<Seq<u8>, Seq<char>>,
) -> Result<(Seq<char>, Seq<char>), (Seq<char>, Seq<char>)> {
    match fetched {
        Ok(b) => Ok((label_of(source), loaded_text(source, b))),
        Err(c) => Err((label_of(source), c)),
    }
}

/// Loads one input from what reading it gave: its decoded text, normalized
/// when it is standard input; or, when the read failed, a failure that
/// names the input and the cause.
pub fn load_input(source: &Source, fetched: &Result<Vec<u8>, String>) -> (r: Result<
    ResolvedInput,
    InputReadFailure,
>)
    ensures
        match r {
            Ok(x) => load_result(source@, fetched_view(*fetched)) == Ok::<
                (Seq<char>, Seq<char>),
                (Seq<char>, Seq<char>),
            >(x@),
            Err(e) => load_result(source@, fetched_view(*fetched)) == Err::<
                (Seq<char>, Seq<char>),
                (Seq<char>, Seq<char>),
            >(e@),
        },
{
    let label = match source {
        Source::Stdin => String::new(),
        Source::File(p) => p.clone(),
    };
    match fetched {
        Ok(bytes) => {
            let text = decode_text(bytes.as_slice());
            let content = match source {
                Source::Stdin => normalize_stdin(text),
                Source::File(_) => text,
            };
            Ok(ResolvedInput { label, content })
        },
        Err(cause) => Err(InputReadFailure { path: label, cause: cause.clone() }),
    }
}

} // verus!
