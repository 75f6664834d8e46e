use azulbox::url_checker::{playlist_check, playlist_fix_url, remove_radio, UrlStatus};

#[test]
fn url_kinds() {
    assert_eq!(playlist_check("https://www.youtube.com/watch?v=a&list=b&start_radio=1"), UrlStatus::Radio);
    assert_eq!(playlist_check("https://www.youtube.com/playlist?list=PL1"), UrlStatus::Playlist);
    assert_eq!(playlist_check("https://youtu.be/abc"), UrlStatus::Single);
    assert_eq!(playlist_check("not a link"), UrlStatus::Unrecognized);
}

#[test]
fn radio_part_is_cut() {
    assert_eq!(
        remove_radio("https://www.youtube.com/watch?v=abc&list=RDabc&start_radio=1"),
        "https://www.youtube.com/watch?v=abc"
    );
    assert_eq!(
        remove_radio("https://www.youtube.com/watch?v=abc&list=PL1"),
        "https://www.youtube.com/watch?v=abc&list=PL1"
    );
}

#[test]
fn playlist_links_are_normalised() {
    assert_eq!(
        playlist_fix_url("https://www.youtube.com/watch?v=abc&list=PL123&index=4"),
        "https://www.youtube.com/playlist?list=PL123"
    );
    assert_eq!(
        playlist_fix_url("https://youtu.be/abc?list=PL9"),
        "https://www.youtube.com/playlist?list=PL9"
    );
    assert_eq!(
        playlist_fix_url("https://www.youtube.com/watch?v=abc"),
        "https://www.youtube.com/watch?v=abc"
    );
}
