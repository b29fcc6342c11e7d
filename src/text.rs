use vstd::prelude::*;

verus! {

/// Unicode's White_Space property, which `char::is_whitespace` and the
/// trimming methods of `str` go by.
pub open spec fn is_white_space(c: char) -> bool {
    ||| '\u{9}' <= c <= '\u{d}'
    ||| c == ' '
    ||| c == '\u{85}'
    ||| c == '\u{a0}'
    ||| c == '\u{1680}'
    ||| '\u{2000}' <= c <= '\u{200a}'
    ||| c == '\u{2028}'
    ||| c == '\u{2029}'
    ||| c == '\u{202f}'
    ||| c == '\u{205f}'
    ||| c == '\u{3000}'
}

/// How many white-space characters `s` starts with.
pub open spec fn leading_white(s: Seq<char>) -> nat
    decreases s.len(),
{
    if s.len() > 0 && is_white_space(s[0]) {
        1 + leading_white(s.drop_first())
    } else {
        0
    }
}

/// How many white-space characters `s` ends with.
pub open spec fn trailing_white(s: Seq<char>) -> nat
    decreases s.len(),
{
    if s.len() > 0 && is_white_space(s.last()) {
        1 + trailing_white(s.drop_last())
    } else {
        0
    }
}

/// `s` without its leading white space.
pub open spec fn trim_start_spec(s: Seq<char>) -> Seq<char> {
    s.subrange(leading_white(s) as int, s.len() as int)
}

/// `s` without its leading and trailing white space.
pub open spec fn trim_spec(s: Seq<char>) -> Seq<char> {
    let t = trim_start_spec(s);
    t.subrange(0, t.len() - trailing_white(t))
}

/// Relies on `str::trim_start`: the string without the leading characters
/// that have the White_Space property.
#[verifier::external_body]
fn std_trim_start(s: &str) -> (r: String)
    ensures
        r@ == trim_start_spec(s@),
{
    s.trim_start().to_string()
}

/// Relies on `str::trim`: the string without the leading and trailing
/// characters that have the White_Space property.
#[verifier::external_body]
fn std_trim(s: &str) -> (r: String)
    ensures
        r@ == trim_spec(s@),
{
    s.trim().to_string()
}

/// `text` with its leading white space removed when it is the first child of
/// its container (`index == 0`), unchanged otherwise.
pub open spec fn trim_first_spec(index: int, text: Seq<char>) -> Seq<char> {
    if index == 0 {
        trim_start_spec(text)
    } else {
        text
    }
}

/// Only the first run of a container loses its leading white space, so that
/// the spacing between later runs is kept.
pub fn trim_first(index: usize, text: &str) -> (r: String)
    ensures
        r@ == trim_first_spec(index as int, text@),
{
    if index == 0 {
        std_trim_start(text)
    } else {
        text.to_owned()
    }
}

/// `text` without leading and trailing white space.
pub fn trim(text: &str) -> (r: String)
    ensures
        r@ == trim_spec(text@),
{
    std_trim(text)
}

/// The pieces joined, with one space between each two.
pub open spec fn join_spaced(s: Seq<Seq<char>>) -> Seq<char>
    decreases s.len(),
{
    if s.len() == 0 {
        Seq::empty()
    } else if s.len() == 1 {
        s[0]
    } else {
        join_spaced(s.drop_last()) + seq![' '] + s.last()
    }
}

/// Whether `name` is the given literal.
pub fn is_named(name: &String, lit: &str) -> (r: bool)
    ensures
        r == (name@ == lit@),
{
    let l = lit.to_owned();
    *name == l
}

/// The views of a sequence of strings.
pub open spec fn strings_view(s: Seq<String>) -> Seq<Seq<char>> {
    s.map_values(|t: String| t@)
}

/// Joins the pieces with one space between each two.
pub fn join_with_spaces(pieces: &Vec<String>) -> (r: String)
    ensures
        r@ == join_spaced(strings_view(pieces@)),
{
    let mut out = String::new();
    let mut i: usize = 0;
    while i < pieces.len()
        invariant
            i <= pieces.len(),
            out@ == join_spaced(strings_view(pieces@.subrange(0, i as int))),
        decreases pieces.len() - i,
    {
        proof {
            let s = strings_view(pieces@.subrange(0, i as int + 1));
            assert(s.drop_last() =~= strings_view(pieces@.subrange(0, i as int)));
            assert(s.last() == pieces@[i as int]@);
            reveal_strlit(" ");
            if i == 0 {
                assert(out@ + pieces@[0]@ =~= pieces@[0]@);
            }
        }
        if i > 0 {
            out.append(" ");
        }
        out.append(pieces[i].as_str());
        i = i + 1;
    }
    assert(pieces@.subrange(0, pieces.len() as int) =~= pieces@);
    out
}

} // verus!
