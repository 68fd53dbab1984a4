use vstd::prelude::*;

verus! {

/// The flat sign U+266D as its UTF-8 bytes read one by one as Windows-1252
/// characters, the form in which it reaches chord text from some sources.
pub open spec fn garbled_flat() -> Seq<char> {
    seq!['\u{e2}', '\u{2122}', '\u{ad}']
}

/// The sharp sign U+266F garbled in the same way.
pub open spec fn garbled_sharp() -> Seq<char> {
    seq!['\u{e2}', '\u{2122}', '\u{af}']
}

/// `s` with each occurrence of `from`, found from the left and without
/// overlap, replaced by `to`.
pub open spec fn replaced(s: Seq<char>, from: Seq<char>, to: Seq<char>) -> Seq<char>
    decreases s.len(),
{
    if s.len() == 0 || from.len() == 0 {
        s
    } else if from.len() <= s.len() && s.subrange(0, from.len() as int) == from {
        to + replaced(s.subrange(from.len() as int, s.len() as int), from, to)
    } else {
        seq![s[0]] + replaced(s.subrange(1, s.len() as int), from, to)
    }
}

/// Relies on str::replace: every match of the non-empty pattern `from`,
/// searched from the left without overlap, is replaced by `to`.
#[verifier::external_body]
fn replace_all(s: &str, from: &str, to: &str) -> (r: String)
    requires
        from@.len() > 0,
    ensures
        r@ == replaced(s@, from@, to@),
{
    s.replace(from, to)
}

/// Turns the garbled flat and sharp signs into the ASCII `b` and `#`.
pub fn accidental_to_ascii(input: String) -> (r: String)
    ensures
        r@ == replaced(replaced(input@, garbled_flat(), seq!['b']), garbled_sharp(), seq!['#']),
{
    proof {
        reveal_strlit("\u{e2}\u{2122}\u{ad}");
        reveal_strlit("\u{e2}\u{2122}\u{af}");
        reveal_strlit("b");
        reveal_strlit("#");
        assert("\u{e2}\u{2122}\u{ad}"@ =~= garbled_flat());
        assert("\u{e2}\u{2122}\u{af}"@ =~= garbled_sharp());
        assert("b"@ =~= seq!['b']);
        assert("#"@ =~= seq!['#']);
    }
    let flats_done = replace_all(input.as_str(), "\u{e2}\u{2122}\u{ad}", "b");
    replace_all(flats_done.as_str(), "\u{e2}\u{2122}\u{af}", "#")
}

} // verus!
