use azulbox::config::{Config, MusicDl, Universal, VideoDl};
use azulbox::ytdlp::Music;

#[test]
fn default_config_values() {
    let c = Config::default();
    assert_eq!(c.universal.language.as_deref(), Some("en"));
    assert_eq!(c.universal.use_cookies, Some(false));
    assert_eq!(c.video_dl.resolution, Some(1080));
    assert_eq!(c.music_dl.threshold, Some(90));
    assert_eq!(c.music_dl.liblrc, Some(false));
}

#[test]
fn repair_fills_only_missing_fields() {
    let mut c = Config {
        universal: Universal { language: None, use_cookies: Some(true), cookies: Some("c.txt".to_string()), faq: None },
        video_dl: VideoDl {
            format: None,
            subtitle: Some(false),
            auto_gen_sub: None,
            fragments: Some(4),
            resolution: None,
            disable_radio: None,
        },
        music_dl: MusicDl {
            format: Some(2),
            lyrics: None,
            auto_gen_sub: None,
            liblrc: Some(true),
            kugou_lyrics: None,
            musicbrainz: None,
            threshold: None,
            fragments: None,
            crop_cover: Some(false),
            use_playlist_cover: None,
            disable_radio: None,
        },
    };
    c.repair();
    assert_eq!(c.universal.language.as_deref(), Some("en"));
    assert_eq!(c.universal.use_cookies, Some(true));
    assert_eq!(c.universal.cookies.as_deref(), Some("c.txt"));
    assert_eq!(c.universal.faq, None);
    assert_eq!(c.video_dl.format, Some(1));
    assert_eq!(c.video_dl.subtitle, Some(false));
    assert_eq!(c.video_dl.fragments, Some(4));
    assert_eq!(c.video_dl.resolution, Some(1080));
    assert_eq!(c.music_dl.format, Some(2));
    assert_eq!(c.music_dl.lyrics, Some(true));
    assert_eq!(c.music_dl.liblrc, Some(true));
    assert_eq!(c.music_dl.threshold, Some(90));
    assert_eq!(c.music_dl.crop_cover, Some(false));
}

#[test]
fn music_request_keeps_its_options() {
    let m = Music::new(
        "https://youtu.be/x".to_string(),
        "/tmp".to_string(),
        2,
        true,
        3,
        "fr".to_string(),
        false,
        90,
        true,
        false,
        None,
        false,
        true,
        false,
        true,
    );
    assert_eq!(m.link, "https://youtu.be/x");
    assert_eq!(m.lang_code, "fr");
    assert_eq!(m.format, 2);
    assert_eq!(m.frags, 3);
    assert!(m.sanatize_lyrics);
}
