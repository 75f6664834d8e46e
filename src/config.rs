use vstd::prelude::*;

use vstd::string::StringExecFns;

verus! {

/// The settings of the whole application.
#[derive(Debug)]
pub struct Config {
    pub universal: Universal,
    pub video_dl: VideoDl,
    pub music_dl: MusicDl,
}

/// Settings shared by every tool.
#[derive(Debug)]
pub struct Universal {
    pub language: Option<String>,
    pub use_cookies: Option<bool>,
    pub cookies: Option<String>,
    pub faq: Option<bool>,
}

/// Settings of the video downloader.
#[derive(Debug)]
pub struct VideoDl {
    pub format: Option<i8>,
    pub subtitle: Option<bool>,
    pub auto_gen_sub: Option<bool>,
    pub fragments: Option<i8>,
    pub resolution: Option<i32>,
    pub disable_radio: Option<bool>,
}

/// Settings of the music downloader.
#[derive(Debug)]
pub struct MusicDl {
    pub format: Option<i8>,
    pub lyrics: Option<bool>,
    pub auto_gen_sub: Option<bool>,
    pub liblrc: Option<bool>,
    pub kugou_lyrics: Option<bool>,
    pub musicbrainz: Option<bool>,
    pub threshold: Option<i8>,
    pub fragments: Option<i8>,
    pub crop_cover: Option<bool>,
    pub use_playlist_cover: Option<bool>,
    pub disable_radio: Option<bool>,
}

/// The interface language used when none is set.
fn default_language() -> (r: String)
    ensures
        r@ == "en"@,
{
    String::from_str("en")
}

/// `v` when it is set, else `d`.
pub open spec fn or_default<T>(v: Option<T>, d: T) -> Option<T> {
    if v is Some {
        v
    } else {
        Some(d)
    }
}

impl Config {
    /// Every field of `self` holds the default value of the application, `language`
    /// aside, which is `"en"`; `cookies` and `faq` are not set.
    pub open spec fn is_default(&self) -> bool {
        &&& self.universal.language is Some
        &&& self.universal.language->Some_0@ == "en"@
        &&& self.universal.use_cookies == Some(false)
        &&& self.universal.cookies is None
        &&& self.universal.faq is None
        &&& self.video_dl.format == Some(1i8)
        &&& self.video_dl.subtitle == Some(true)
        &&& self.video_dl.auto_gen_sub == Some(false)
        &&& self.video_dl.fragments == Some(1i8)
        &&& self.video_dl.resolution == Some(1080i32)
        &&& self.video_dl.disable_radio == Some(true)
        &&& self.music_dl.format == Some(1i8)
        &&& self.music_dl.lyrics == Some(true)
        &&& self.music_dl.auto_gen_sub == Some(false)
        &&& self.music_dl.liblrc == Some(false)
        &&& self.music_dl.kugou_lyrics == Some(false)
        &&& self.music_dl.musicbrainz == Some(false)
        &&& self.music_dl.threshold == Some(90i8)
        &&& self.music_dl.fragments == Some(1i8)
        &&& self.music_dl.crop_cover == Some(true)
        &&& self.music_dl.use_playlist_cover == Some(true)
        &&& self.music_dl.disable_radio == Some(true)
    }

    /// `self` is `old` with each unset field that has a default set to it; every
    /// other field is as it was.
    pub open spec fn repaired_from(&self, old: &Config) -> bool {
        &&& (old.universal.language is Some ==> self.universal.language == old.universal.language)
        &&& (old.universal.language is None ==> self.universal.language is Some
            && self.universal.language->Some_0@ == "en"@)
        &&& self.universal.use_cookies == or_default(old.universal.use_cookies, false)
        &&& self.universal.cookies == old.universal.cookies
        &&& self.universal.faq == old.universal.faq
        &&& self.video_dl.format == or_default(old.video_dl.format, 1i8)
        &&& self.video_dl.subtitle == or_default(old.video_dl.subtitle, true)
        &&& self.video_dl.auto_gen_sub == or_default(old.video_dl.auto_gen_sub, false)
        &&& self.video_dl.fragments == or_default(old.video_dl.fragments, 1i8)
        &&& self.video_dl.resolution == or_default(old.video_dl.resolution, 1080i32)
        &&& self.video_dl.disable_radio == or_default(old.video_dl.disable_radio, true)
        &&& self.music_dl.format == or_default(old.music_dl.format, 1i8)
        &&& self.music_dl.lyrics == or_default(old.music_dl.lyrics, true)
        &&& self.music_dl.auto_gen_sub == or_default(old.music_dl.auto_gen_sub, false)
        &&& self.music_dl.liblrc == or_default(old.music_dl.liblrc, false)
        &&& self.music_dl.kugou_lyrics == or_default(old.music_dl.kugou_lyrics, false)
        &&& self.music_dl.musicbrainz == or_default(old.music_dl.musicbrainz, false)
        &&& self.music_dl.threshold == or_default(old.music_dl.threshold, 90i8)
        &&& self.music_dl.fragments == or_default(old.music_dl.fragments, 1i8)
        &&& self.music_dl.crop_cover == or_default(old.music_dl.crop_cover, true)
        &&& self.music_dl.use_playlist_cover == or_default(old.music_dl.use_playlist_cover, true)
        &&& self.music_dl.disable_radio == or_default(old.music_dl.disable_radio, true)
    }

    /// Fills every unset field that has a default; leaves set fields alone.
    pub fn repair(&mut self)
        ensures
            final(self).repaired_from(old(self)),
    {
        self.universal.repair();
        self.video_dl.repair();
        self.music_dl.repair();
    }
}

/// `v` when it is set, else `d`.
fn fill<T: Copy>(v: Option<T>, d: T) -> (r: Option<T>)
    ensures
        r == or_default(v, d),
{
    match v {
        Some(x) => Some(x),
        None => Some(d),
    }
}

impl Universal {
    fn repair(&mut self)
        ensures
            old(self).language is Some ==> final(self).language == old(self).language,
            old(self).language is None ==> final(self).language is Some
                && final(self).language->Some_0@ == "en"@,
            final(self).use_cookies == or_default(old(self).use_cookies, false),
            final(self).cookies == old(self).cookies,
            final(self).faq == old(self).faq,
    {
        if self.language.is_none() {
            self.language = Some(default_language());
        }
        self.use_cookies = fill(self.use_cookies, false);
    }
}

impl VideoDl {
    fn repair(&mut self)
        ensures
            final(self).format == or_default(old(self).format, 1i8),
            final(self).subtitle == or_default(old(self).subtitle, true),
            final(self).auto_gen_sub == or_default(old(self).auto_gen_sub, false),
            final(self).fragments == or_default(old(self).fragments, 1i8),
            final(self).resolution == or_default(old(self).resolution, 1080i32),
            final(self).disable_radio == or_default(old(self).disable_radio, true),
    {
        self.format = fill(self.format, 1);
        self.disable_radio = fill(self.disable_radio, true);
        self.subtitle = fill(self.subtitle, true);
        self.auto_gen_sub = fill(self.auto_gen_sub, false);
        self.fragments = fill(self.fragments, 1);
        self.resolution = fill(self.resolution, 1080);
    }
}

impl MusicDl {
    fn repair(&mut self)
        ensures
            final(self).format == or_default(old(self).format, 1i8),
            final(self).lyrics == or_default(old(self).lyrics, true),
            final(self).auto_gen_sub == or_default(old(self).auto_gen_sub, false),
            final(self).liblrc == or_default(old(self).liblrc, false),
            final(self).kugou_lyrics == or_default(old(self).kugou_lyrics, false),
            final(self).musicbrainz == or_default(old(self).musicbrainz, false),
            final(self).threshold == or_default(old(self).threshold, 90i8),
            final(self).fragments == or_default(old(self).fragments, 1i8),
            final(self).crop_cover == or_default(old(self).crop_cover, true),
            final(self).use_playlist_cover == or_default(old(self).use_playlist_cover, true),
            final(self).disable_radio == or_default(old(self).disable_radio, true),
    {
        self.format = fill(self.format, 1);
        self.lyrics = fill(self.lyrics, true);
        self.auto_gen_sub = fill(self.auto_gen_sub, false);
        self.liblrc = fill(self.liblrc, false);
        self.kugou_lyrics = fill(self.kugou_lyrics, false);
        self.musicbrainz = fill(self.musicbrainz, false);
        self.threshold = fill(self.threshold, 90);
        self.fragments = fill(self.fragments, 1);
        self.crop_cover = fill(self.crop_cover, true);
        self.use_playlist_cover = fill(self.use_playlist_cover, true);
        self.disable_radio = fill(self.disable_radio, true);
    }
}

impl Default for Config {
    fn default() -> (r: Config)
        ensures
            r.is_default(),
    {
        Config {
            universal: Universal {
                language: Some(default_language()),
                use_cookies: Some(false),
                cookies: None,
                faq: None,
            },
            video_dl: VideoDl {
                format: Some(1),
                subtitle: Some(true),
                auto_gen_sub: Some(false),
                fragments: Some(1),
                resolution: Some(1080),
                disable_radio: Some(true),
            },
            music_dl: MusicDl {
                format: Some(1),
                lyrics: Some(true),
                auto_gen_sub: Some(false),
                liblrc: Some(false),
                kugou_lyrics: Some(false),
                musicbrainz: Some(false),
                threshold: Some(90),
                fragments: Some(1),
                crop_cover: Some(true),
                use_playlist_cover: Some(true),
                disable_radio: Some(true),
            },
        }
    }
}

} // verus!
