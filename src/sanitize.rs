use vstd::prelude::*;

verus! {

/// The kinds of markup token left in caption text.
#[derive(Clone, Copy, PartialEq, Eq, Structural, Debug)]
pub enum Markup {
    /// A backslash and one ASCII letter, as `\n`.
    Escape,
    /// A closing tag of one ASCII letter, as `</b>`.
    CloseTag,
    /// An opening tag of one ASCII letter, as `<b>`.
    OpenTag,
}

/// `c` is an ASCII letter.
pub open spec fn is_letter(c: char) -> bool {
    ('a' <= c <= 'z') || ('A' <= c <= 'Z')
}

/// The length of the token of `kind` that starts `s`, or 0.
pub open spec fn token_len(s: Seq<char>, kind: Markup) -> nat {
    match kind {
        Markup::Escape => if s.len() >= 2 && s[0] == '\\' && is_letter(s[1]) {
            2
        } else {
            0
        },
        Markup::CloseTag => if s.len() >= 4 && s[0] == '<' && s[1] == '/' && is_letter(s[2])
            && s[3] == '>' {
            4
        } else {
            0
        },
        Markup::OpenTag => if s.len() >= 3 && s[0] == '<' && is_letter(s[1]) && s[2] == '>' {
            3
        } else {
            0
        },
    }
}

/// `s` with every token of `kind` taken out, in one left-to-right sweep.
pub open spec fn strip(s: Seq<char>, kind: Markup) -> Seq<char>
    decreases s.len(),
{
    if s.len() == 0 {
        s
    } else if token_len(s, kind) > 0 {
        strip(s.skip(token_len(s, kind) as int), kind)
    } else {
        seq![s[0]] + strip(s.skip(1), kind)
    }
}

/// `s` without escapes, then without closing tags, then without opening tags.
pub open spec fn sanitize(s: Seq<char>) -> Seq<char> {
    strip(strip(strip(s, Markup::Escape), Markup::CloseTag), Markup::OpenTag)
}

fn is_letter_exec(c: char) -> (r: bool)
    ensures
        r == is_letter(c),
{
    ('a' <= c && c <= 'z') || ('A' <= c && c <= 'Z')
}

/// The length of the token of `kind` at index `i` of `s`, or 0.
fn token_len_at(s: &Vec<char>, i: usize, kind: Markup) -> (r: usize)
    requires
        i <= s.len(),
    ensures
        r == token_len(s@.skip(i as int), kind),
{
    let n = s.len() - i;
    match kind {
        Markup::Escape => if n >= 2 && s[i] == '\\' && is_letter_exec(s[i + 1]) {
            2
        } else {
            0
        },
        Markup::CloseTag => if n >= 4 && s[i] == '<' && s[i + 1] == '/' && is_letter_exec(
            s[i + 2],
        ) && s[i + 3] == '>' {
            4
        } else {
            0
        },
        Markup::OpenTag => if n >= 3 && s[i] == '<' && is_letter_exec(s[i + 1]) && s[i + 2]
            == '>' {
            3
        } else {
            0
        },
    }
}

/// The characters of `s` with every token of `kind` taken out.
pub fn strip_exec(s: &Vec<char>, kind: Markup) -> (r: Vec<char>)
    ensures
        r@ == strip(s@, kind),
{
    let mut r: Vec<char> = Vec::new();
    let mut i: usize = 0;
    assert(s@.skip(0) =~= s@);
    while i < s.len()
        invariant
            i <= s.len(),
            r@ + strip(s@.skip(i as int), kind) == strip(s@, kind),
        decreases s.len() - i,
    {
        let ghost rest = s@.skip(i as int);
        let n = token_len_at(s, i, kind);
        if n > 0 {
            assert(rest.skip(n as int) =~= s@.skip(i + n));
            i += n;
        } else {
            assert(rest.skip(1) =~= s@.skip(i + 1));
            assert(r@.push(s@[i as int]) + strip(s@.skip(i + 1), kind) =~= r@ + (seq![rest[0]]
                + strip(rest.skip(1), kind)));
            r.push(s[i]);
            i += 1;
        }
    }
    assert(r@ + strip(s@.skip(i as int), kind) =~= r@);
    r
}

/// The characters of `s` without markup tokens.
pub fn sanitize_exec(s: &Vec<char>) -> (r: Vec<char>)
    ensures
        r@ == sanitize(s@),
{
    let a = strip_exec(s, Markup::Escape);
    let b = strip_exec(&a, Markup::CloseTag);
    strip_exec(&b, Markup::OpenTag)
}

} // verus!
