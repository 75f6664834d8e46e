use vstd::prelude::*;

use crate::text::{chars_of, contains, contains_exec, occurs_at, string_of};

verus! {

/// What kind of link a URL is.
#[derive(Clone, Copy, PartialEq, Eq, Structural, Debug)]
pub enum UrlStatus {
    Single,
    Playlist,
    Radio,
    /// Not a link.
    Unrecognized,
}

/// The class of `url`: a radio mix, a playlist, a single video, or no link at all,
/// the first that applies.
pub open spec fn url_status(url: Seq<char>) -> UrlStatus {
    if contains(url, "start_radio"@) {
        UrlStatus::Radio
    } else if contains(url, "list"@) {
        UrlStatus::Playlist
    } else if contains(url, "http"@) {
        UrlStatus::Single
    } else {
        UrlStatus::Unrecognized
    }
}

/// Whether `url` is a radio mix, a playlist, a single video or no link.
pub fn playlist_check(url: &str) -> (r: UrlStatus)
    ensures
        r == url_status(url@),
{
    let u = chars_of(url);
    if contains_exec(&u, &chars_of("start_radio")) {
        UrlStatus::Radio
    } else if contains_exec(&u, &chars_of("list")) {
        UrlStatus::Playlist
    } else if contains_exec(&u, &chars_of("http")) {
        UrlStatus::Single
    } else {
        UrlStatus::Unrecognized
    }
}

/// The part of `s` before the first occurrence of `pat` (all of `s` when there is
/// none): the first piece of `s` split at `pat`.
pub open spec fn before_first(s: Seq<char>, pat: Seq<char>) -> Seq<char>
    decreases s.len(),
{
    if s.len() == 0 || occurs_at(s, pat, 0) {
        seq![]
    } else {
        seq![s[0]] + before_first(s.skip(1), pat)
    }
}

/// The last piece of `s[start..]` split at `pat`, scanning from index `i` on, where
/// the current piece began at `start`.
pub open spec fn last_piece_from(s: Seq<char>, pat: Seq<char>, start: int, i: int) -> Seq<char>
    decreases s.len() - i,
{
    if i >= s.len() || pat.len() == 0 {
        s.subrange(start, s.len() as int)
    } else if occurs_at(s, pat, i) {
        last_piece_from(s, pat, i + pat.len(), i + pat.len())
    } else {
        last_piece_from(s, pat, start, i + 1)
    }
}

/// The last piece of `s` split at `pat`: what follows its last occurrence, or all of
/// `s` when there is none.
pub open spec fn last_piece(s: Seq<char>, pat: Seq<char>) -> Seq<char> {
    last_piece_from(s, pat, 0, 0)
}

fn before_first_exec(s: &Vec<char>, pat: &Vec<char>) -> (r: Vec<char>)
    ensures
        r@ == before_first(s@, pat@),
{
    let mut r: Vec<char> = Vec::new();
    let mut i: usize = 0;
    assert(s@.skip(0) =~= s@);
    while i < s.len()
        invariant
            i <= s.len(),
            r@ == s@.take(i as int),
            before_first(s@, pat@) == r@ + before_first(s@.skip(i as int), pat@),
        decreases s.len() - i,
    {
        let ghost rest = s@.skip(i as int);
        if pat.len() <= s.len() - i && crate::text::occurs_at_exec(s, pat, i) {
            assert(rest.subrange(0, pat.len() as int) =~= s@.subrange(i as int, i + pat.len()));
            assert(r@ + before_first(rest, pat@) =~= r@);
            return r;
        }
        assert(!occurs_at(rest, pat@, 0)) by {
            if occurs_at(rest, pat@, 0) {
                assert(rest.subrange(0, pat.len() as int) =~= s@.subrange(
                    i as int,
                    i + pat.len(),
                ));
            }
        }
        assert(rest.skip(1) =~= s@.skip(i + 1));
        assert(r@ + before_first(rest, pat@) =~= r@.push(s@[i as int]) + before_first(
            s@.skip(i + 1),
            pat@,
        ));
        r.push(s[i]);
        i += 1;
        assert(r@ =~= s@.take(i as int));
    }
    assert(r@ + before_first(s@.skip(i as int), pat@) =~= r@);
    r
}

fn last_piece_exec(s: &Vec<char>, pat: &Vec<char>) -> (r: Vec<char>)
    ensures
        r@ == last_piece(s@, pat@),
{
    let mut start: usize = 0;
    let mut i: usize = 0;
    if pat.len() > 0 {
        while i < s.len()
            invariant
                start <= i <= s.len(),
                pat.len() > 0,
                last_piece(s@, pat@) == last_piece_from(s@, pat@, start as int, i as int),
            decreases s.len() - i,
        {
            if pat.len() <= s.len() - i && crate::text::occurs_at_exec(s, pat, i) {
                i += pat.len();
                start = i;
            } else {
                i += 1;
            }
        }
    }
    let mut r: Vec<char> = Vec::new();
    let mut k: usize = start;
    while k < s.len()
        invariant
            start <= k <= s.len(),
            r@ == s@.subrange(start as int, k as int),
        decreases s.len() - k,
    {
        r.push(s[k]);
        k += 1;
        assert(r@ =~= s@.subrange(start as int, k as int));
    }
    r
}

/// `url` without its list part, when it is a radio mix inside a playlist.
pub open spec fn without_radio(url: Seq<char>) -> Seq<char> {
    if contains(url, "&start_radio=1"@) && contains(url, "&list="@) {
        before_first(url, "&list="@)
    } else {
        url
    }
}

/// Cuts the list part off a radio-mix link, so that it names one video.
pub fn remove_radio(url: &str) -> (r: String)
    ensures
        r@ == without_radio(url@),
{
    let u = chars_of(url);
    let list = chars_of("&list=");
    if contains_exec(&u, &chars_of("&start_radio=1")) && contains_exec(&u, &list) {
        string_of(&before_first_exec(&u, &list))
    } else {
        string_of(&u)
    }
}

/// The playlist page for the playlist that `url` names.
pub open spec fn fixed_playlist_url(url: Seq<char>) -> Seq<char> {
    if contains(url, "&list"@) {
        "https://www.youtube.com/playlist?list="@ + last_piece(
            before_first(url, "&index="@),
            "&list="@,
        )
    } else if contains(url, "?list="@) && contains(url, "youtu.be"@) {
        "https://www.youtube.com/playlist?list="@ + last_piece(url, "?list="@)
    } else {
        url
    }
}

fn playlist_url(id: &Vec<char>) -> (r: String)
    ensures
        r@ == "https://www.youtube.com/playlist?list="@ + id@,
{
    let mut out = chars_of("https://www.youtube.com/playlist?list=");
    let ghost head = out@;
    let mut i: usize = 0;
    while i < id.len()
        invariant
            i <= id.len(),
            out@ == head + id@.take(i as int),
        decreases id.len() - i,
    {
        out.push(id[i]);
        i += 1;
        assert(out@ =~= head + id@.take(i as int));
    }
    assert(id@.take(i as int) =~= id@);
    string_of(&out)
}

/// Turns a link into a video of a playlist into the link of the playlist itself.
pub fn playlist_fix_url(url: &str) -> (r: String)
    ensures
        r@ == fixed_playlist_url(url@),
{
    let u = chars_of(url);
    if contains_exec(&u, &chars_of("&list")) {
        let removed_index = before_first_exec(&u, &chars_of("&index="));
        let playlist_id = last_piece_exec(&removed_index, &chars_of("&list="));
        playlist_url(&playlist_id)
    } else if contains_exec(&u, &chars_of("?list=")) && contains_exec(&u, &chars_of("youtu.be")) {
        let playlist_id = last_piece_exec(&u, &chars_of("?list="));
        playlist_url(&playlist_id)
    } else {
        string_of(&u)
    }
}

} // verus!
