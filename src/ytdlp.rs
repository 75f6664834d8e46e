use vstd::prelude::*;

verus! {

/// One music download request and its options.
pub struct Music {
    pub link: String,
    pub directory: String,
    pub format: i8,
    pub lyrics: bool,
    pub frags: i8,
    pub lang_code: String,
    pub lyric_auto: bool,
    pub sim_rate: i8,
    pub musicbrainz: bool,
    pub lrclib: bool,
    pub cookies: Option<String>,
    pub use_cookies: bool,
    pub crop_cover: bool,
    pub use_playlist_cover: bool,
    pub sanatize_lyrics: bool,
}

impl Music {
    /// A request holding exactly the given options.
    pub fn new(
        link: String,
        directory: String,
        format: i8,
        lyrics: bool,
        frags: i8,
        lang_code: String,
        lyric_auto: bool,
        sim_rate: i8,
        musicbrainz: bool,
        lrclib: bool,
        cookies: Option<String>,
        use_cookies: bool,
        crop_cover: bool,
        use_playlist_cover: bool,
        sanatize_lyrics: bool,
    ) -> (r: Self)
        ensures
            r.link == link,
            r.directory == directory,
            r.format == format,
            r.lyrics == lyrics,
            r.frags == frags,
            r.lang_code == lang_code,
            r.lyric_auto == lyric_auto,
            r.sim_rate == sim_rate,
            r.musicbrainz == musicbrainz,
            r.lrclib == lrclib,
            r.cookies == cookies,
            r.use_cookies == use_cookies,
            r.crop_cover == crop_cover,
            r.use_playlist_cover == use_playlist_cover,
            r.sanatize_lyrics == sanatize_lyrics,
    {
        Self {
            link,
            directory,
            format,
            lyrics,
            frags,
            lang_code,
            lyric_auto,
            sim_rate,
            musicbrainz,
            lrclib,
            cookies,
            use_cookies,
            crop_cover,
            use_playlist_cover,
            sanatize_lyrics,
        }
    }
}

} // verus!
