//! What a finished command left behind.

use vstd::prelude::*;

verus! {

/// The output of a command and how it exited.
#[derive(Debug)]
pub struct CommandOutput {
    /// What it wrote to its standard output.
    pub stdout: Vec<u8>,
    /// What it wrote to its standard error.
    pub stderr: Vec<u8>,
    /// Whether it exited successfully.
    pub success: bool,
    /// Its exit code, if it was not ended by a signal.
    pub code: Option<i32>,
}

impl CommandOutput {
    /// The standard output as text.
    pub open spec fn out(&self) -> Seq<char> {
        utf8_lossy(self.stdout@)
    }

    /// The standard error as text.
    pub open spec fn err(&self) -> Seq<char> {
        utf8_lossy(self.stderr@)
    }
}

/// The text that `String::from_utf8_lossy` makes of bytes.
pub uninterp spec fn utf8_lossy(bytes: Seq<u8>) -> Seq<char>;

/// Calls `String::from_utf8_lossy`, whose result depends on the bytes alone. Valid UTF-8 is
/// decoded; how many replacement characters stand for an invalid sequence is not stated.
#[verifier::external_body]
pub(crate) fn lossy_text(bytes: &Vec<u8>) -> (s: String)
    ensures
        s@ == utf8_lossy(bytes@),
        vstd::utf8::valid_utf8(bytes@) ==> s@ == vstd::utf8::decode_utf8(bytes@),
{
    String::from_utf8_lossy(bytes).into_owned()
}

/// `String::push` appends one character.
pub assume_specification[ String::push ](s: &mut String, c: char)
    ensures
        final(s)@ == old(s)@.push(c),
;

/// A string of the given characters.
pub fn string_of(chars: &Vec<char>) -> (s: String)
    ensures
        s@ == chars@,
{
    let mut s: String = String::new();
    let mut i: usize = 0;
    while i < chars.len()
        invariant
            i <= chars@.len(),
            s@ == chars@.take(i as int),
        decreases chars@.len() - i,
    {
        s.push(chars[i]);
        i += 1;
        assert(chars@.take(i as int) =~= chars@.take(i - 1).push(chars@[i - 1]));
    }
    assert(chars@.take(chars@.len() as int) =~= chars@);
    s
}

/// Whether a result is the one that a model gives: the same value, or an error with the same text.
pub open spec fn agrees<T: View>(r: Result<T, String>, model: Result<T::V, Seq<char>>) -> bool {
    match (r, model) {
        (Ok(value), Ok(wanted)) => value@ == wanted,
        (Err(error), Err(text)) => error@ == text,
        _ => false,
    }
}

/// The contents of a list of strings.
pub open spec fn views(list: Seq<String>) -> Seq<Seq<char>> {
    list.map_values(|s: String| s@)
}

/// Each stream of the output has its own text.
pub proof fn law_each_stream_has_its_text(output: CommandOutput)
    ensures
        output.out() == utf8_lossy(output.stdout@),
        output.err() == utf8_lossy(output.stderr@),
{
}

/// The contents of a list of strings are those of its strings, all of them and in their order.
pub proof fn law_views_are_those_of_the_strings(list: Seq<String>)
    ensures
        views(list).len() == list.len(),
        forall|i: int| 0 <= i < list.len() ==> #[trigger] views(list)[i] == list[i]@,
{
}

/// A result agrees with a value only if it is that value, and with an error text only if it is an
/// error with that text.
pub proof fn law_agreement_is_exact<T: View>(
    r: Result<T, String>,
    value: T::V,
    text: Seq<char>,
)
    ensures
        agrees(r, Ok(value)) <==> r is Ok && r->Ok_0@ == value,
        agrees(r, Err(text)) <==> r is Err && r->Err_0@ == text,
{
}

} // verus!
