use vstd::prelude::*;

use crate::lrc::{LineView, LrcLine};
use crate::timestamp::TimeStamp;

verus! {

/// The character of a decimal digit.
pub open spec fn digit_char(d: nat) -> char {
    seq!['0', '1', '2', '3', '4', '5', '6', '7', '8', '9'][d as int]
}

/// The decimal digits of `n`, without leading zeros.
pub open spec fn dec_str(n: nat) -> Seq<char>
    decreases n,
{
    if n < 10 {
        seq![digit_char(n)]
    } else {
        dec_str(n / 10).push(digit_char(n % 10))
    }
}

/// `s` zero-padded on the left to at least two characters.
pub open spec fn pad2(s: Seq<char>) -> Seq<char> {
    if s.len() < 2 {
        seq!['0'] + s
    } else {
        s
    }
}

/// `[MM:SS.ss]`: minutes padded to two digits, seconds padded to five characters with
/// two decimals.
pub open spec fn render_stamp(t: TimeStamp) -> Seq<char> {
    seq!['['] + pad2(dec_str(t.minutes as nat)) + seq![':'] + pad2(dec_str((t.centis / 100) as nat))
        + seq!['.', digit_char(((t.centis / 10) % 10) as nat), digit_char((t.centis % 10) as nat), ']']
}

/// One line of output: its time stamp, then its text.
pub open spec fn render_line(l: LineView) -> Seq<char> {
    render_stamp(l.timestamp) + l.content
}

/// The lines rendered one after another, joined by newlines.
pub open spec fn render_all(ls: Seq<LineView>) -> Seq<char>
    decreases ls.len(),
{
    if ls.len() == 0 {
        seq![]
    } else if ls.len() == 1 {
        render_line(ls[0])
    } else {
        render_all(ls.drop_last()) + seq!['\n'] + render_line(ls.last())
    }
}

fn digit_char_exec(d: u32) -> (c: char)
    requires
        d < 10,
    ensures
        c == digit_char(d as nat),
{
    match d {
        0 => '0',
        1 => '1',
        2 => '2',
        3 => '3',
        4 => '4',
        5 => '5',
        6 => '6',
        7 => '7',
        8 => '8',
        _ => '9',
    }
}

fn push_dec(out: &mut Vec<char>, n: u32)
    ensures
        final(out)@ == old(out)@ + dec_str(n as nat),
    decreases n,
{
    if n >= 10 {
        push_dec(out, n / 10);
    }
    out.push(digit_char_exec(n % 10));
    if n >= 10 {
        assert(old(out)@ + dec_str(n as nat) =~= old(out)@ + dec_str((n / 10) as nat) + seq![
            digit_char((n % 10) as nat),
        ]);
    } else {
        assert(old(out)@ + dec_str(n as nat) =~= old(out)@.push(digit_char((n % 10) as nat)));
    }
}

fn push_dec2(out: &mut Vec<char>, n: u32)
    ensures
        final(out)@ == old(out)@ + pad2(dec_str(n as nat)),
{
    if n < 10 {
        out.push('0');
    }
    push_dec(out, n);
    proof {
        if n < 10 {
            assert(old(out)@ + pad2(dec_str(n as nat)) =~= old(out)@.push('0') + dec_str(
                n as nat,
            ));
        } else {
            lemma_dec_str_len(n as nat);
        }
    }
}

proof fn lemma_dec_str_len(n: nat)
    ensures
        dec_str(n).len() >= 1,
        n >= 10 ==> dec_str(n).len() >= 2,
    decreases n,
{
    if n >= 10 {
        lemma_dec_str_len(n / 10);
    }
}

/// Appends the rendering of `l` to `out`.
fn push_line(out: &mut Vec<char>, l: &LrcLine)
    ensures
        final(out)@ == old(out)@ + render_line(l@),
{
    let t = l.timestamp;
    out.push('[');
    push_dec2(out, t.minutes as u32);
    out.push(':');
    push_dec2(out, t.centis / 100);
    out.push('.');
    out.push(digit_char_exec((t.centis / 10) % 10));
    out.push(digit_char_exec(t.centis % 10));
    out.push(']');
    let ghost mid = out@;
    let mut i: usize = 0;
    while i < l.content.len()
        invariant
            i <= l.content.len(),
            out@ == mid + l.content@.take(i as int),
        decreases l.content.len() - i,
    {
        out.push(l.content[i]);
        i += 1;
        assert(out@ =~= mid + l.content@.take(i as int));
    }
    assert(l.content@.take(i as int) =~= l.content@);
    assert(old(out)@ + render_line(l@) =~= mid + l.content@);
}

/// The lines rendered and joined by newlines.
pub fn render_lines(ls: &Vec<LrcLine>) -> (r: Vec<char>)
    ensures
        r@ == render_all(ls@.map_values(|l: LrcLine| l@)),
{
    let ghost vs = ls@.map_values(|l: LrcLine| l@);
    let mut out: Vec<char> = Vec::new();
    let mut i: usize = 0;
    assert(vs.take(0) =~= seq![]);
    while i < ls.len()
        invariant
            i <= ls.len(),
            vs == ls@.map_values(|l: LrcLine| l@),
            out@ == render_all(vs.take(i as int)),
        decreases ls.len() - i,
    {
        assert(vs.take(i + 1).drop_last() =~= vs.take(i as int));
        if i > 0 {
            out.push('\n');
        } else {
            assert(out@ =~= seq![]);
        }
        push_line(&mut out, &ls[i]);
        i += 1;
    }
    assert(vs.take(i as int) =~= vs);
    out
}

impl LrcLine {
    /// The line as `[MM:SS.ss]content`.
    pub fn return_lrc(&self) -> (r: String)
        ensures
            r@ == render_line(self@),
    {
        let mut out: Vec<char> = Vec::new();
        push_line(&mut out, self);
        assert(out@ =~= render_line(self@));
        crate::text::string_of(&out)
    }
}

} // verus!
