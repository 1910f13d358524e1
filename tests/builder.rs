use ytdl::download_builder::{
    clean_urls, format_selector, DownloadBuilder, DownloadQuality, DownloadType, ValidationError,
};

fn strings(v: &[&str]) -> Vec<String> {
    v.iter().map(|s| s.to_string()).collect()
}

#[test]
fn build_without_type_fails_first() {
    let mut dl = DownloadBuilder::new();
    dl.simulate(true).quality(DownloadQuality::P720).extension("mp4".to_string());
    dl.urls("https://example.com/watch?v=1").unwrap();
    assert_eq!(dl.build(), Err(ValidationError::MissingDownloadType));
    assert_eq!(DownloadBuilder::new().build(), Err(ValidationError::MissingDownloadType));
}

#[test]
fn build_without_urls_fails() {
    let mut dl = DownloadBuilder::new();
    dl.download_type(DownloadType::Audio);
    assert_eq!(dl.build(), Err(ValidationError::NoUrls));
}

#[test]
fn build_requires_quality_only_when_asked() {
    let mut dl = DownloadBuilder::new();
    dl.download_type(DownloadType::VideoOnly).require_quality(true);
    dl.urls("https://example.com/a").unwrap();
    assert_eq!(dl.build(), Err(ValidationError::MissingQuality));

    let mut dl = DownloadBuilder::new();
    dl.download_type(DownloadType::Audio).require_quality(true);
    dl.urls("https://example.com/a").unwrap();
    assert!(dl.build().is_ok());

    let mut dl = DownloadBuilder::new();
    dl.download_type(DownloadType::VideoOnly);
    dl.urls("https://example.com/a").unwrap();
    assert!(dl.build().is_ok());
}

#[test]
fn build_video_with_audio_720() {
    let mut dl = DownloadBuilder::new();
    dl.download_type(DownloadType::VideoWithAudio).quality(DownloadQuality::P720);
    dl.urls("https://example.com/a\nhttp://example.org/b").unwrap();
    let args = dl.build().unwrap();
    assert_eq!(
        args,
        strings(&[
            "--no-simulate",
            "--no-abort-on-error",
            "-o",
            "%(title)s.%(ext)s",
            "--print",
            "id,title,filesize_approx,duration_string",
            "--format",
            "bv*[height<=720]+ba/b[height<=720]",
            "https://example.com/a",
            "http://example.org/b",
        ])
    );
}

#[test]
fn format_derivation() {
    assert_eq!(
        format_selector(DownloadType::VideoWithAudio, Some(DownloadQuality::P720)),
        "bv*[height<=720]+ba/b[height<=720]"
    );
    assert_eq!(format_selector(DownloadType::VideoWithAudio, None), "bv*+ba/b");
    assert_eq!(
        format_selector(DownloadType::VideoOnly, Some(DownloadQuality::P1024)),
        "bv*[height<=1024]"
    );
    assert_eq!(format_selector(DownloadType::VideoOnly, None), "bv");
    assert_eq!(format_selector(DownloadType::Audio, None), "ba");
    assert_eq!(format_selector(DownloadType::Audio, Some(DownloadQuality::P2048)), "ba");
}

#[test]
fn audio_ignores_quality_in_build() {
    let mut dl = DownloadBuilder::new();
    dl.download_type(DownloadType::Audio).quality(DownloadQuality::P360);
    dl.urls("https://example.com/a").unwrap();
    let args = dl.build().unwrap();
    assert_eq!(args[7], "ba");
}

#[test]
fn print_fields_always_fixed() {
    let kinds = [DownloadType::VideoWithAudio, DownloadType::VideoOnly, DownloadType::Audio];
    for kind in kinds {
        for simulate in [false, true] {
            let mut dl = DownloadBuilder::new();
            dl.download_type(kind).simulate(simulate).extension("mkv".to_string());
            dl.urls("https://example.com/a").unwrap();
            let args = dl.build().unwrap();
            assert_eq!(args[4], "--print");
            assert_eq!(args[5], "id,title,filesize_approx,duration_string");
        }
    }
}

#[test]
fn build_is_deterministic() {
    let make = || {
        let mut dl = DownloadBuilder::new();
        dl.simulate(true)
            .download_type(DownloadType::VideoOnly)
            .quality(DownloadQuality::P480)
            .extension("webm".to_string());
        dl.urls("https://example.com/a\nhttps://example.com/b").unwrap();
        dl.build()
    };
    assert_eq!(make(), make());
}

#[test]
fn extension_flags_by_type() {
    let mut dl = DownloadBuilder::new();
    dl.download_type(DownloadType::Audio).extension("mp3".to_string()).simulate(true);
    dl.urls("https://example.com/a").unwrap();
    let args = dl.build().unwrap();
    assert_eq!(args[0], "--simulate");
    assert_eq!(&args[8..], &strings(&["-x", "--audio-format", "mp3", "https://example.com/a"])[..]);

    let mut dl = DownloadBuilder::new();
    dl.download_type(DownloadType::VideoWithAudio).extension("mkv".to_string());
    dl.urls("https://example.com/a").unwrap();
    let args = dl.build().unwrap();
    assert_eq!(&args[8..], &strings(&["--remux-video", "mkv", "https://example.com/a"])[..]);
}

#[test]
fn urls_empty_after_comments() {
    let mut dl = DownloadBuilder::new();
    assert_eq!(dl.urls("# Each url separated by a new line."), Err(ValidationError::NoUrls));
    assert_eq!(dl.urls(""), Err(ValidationError::NoUrls));
    dl.download_type(DownloadType::Audio);
    assert_eq!(dl.build(), Err(ValidationError::NoUrls));
}

#[test]
fn urls_malformed() {
    let mut dl = DownloadBuilder::new();
    assert_eq!(dl.urls("not a url"), Err(ValidationError::MalformedUrls));
    assert_eq!(
        dl.urls("https://example.com/a\nftp://example.com/b"),
        Err(ValidationError::MalformedUrls)
    );
    assert_eq!(dl.urls("https://example.com/a\n\nhttps://b.org"), Err(ValidationError::MalformedUrls));
}

#[test]
fn urls_with_comments_anywhere() {
    let mut dl = DownloadBuilder::new();
    let text = "# first\n  https://example.com/a  \n# middle\nhttp://example.org/b\n# last\n";
    assert_eq!(dl.urls(text), Ok(()));
    dl.download_type(DownloadType::VideoOnly);
    let args = dl.build().unwrap();
    assert_eq!(&args[8..], &strings(&["https://example.com/a", "http://example.org/b"])[..]);
}

#[test]
fn clean_urls_drops_comments_and_trims() {
    assert_eq!(clean_urls("# c\n a \n#d\nb\t\n"), "a\nb");
    assert_eq!(clean_urls("# only"), "");
    assert_eq!(clean_urls(""), "");
}

#[test]
fn accept_urls_uses_the_match_result() {
    let mut dl = DownloadBuilder::new();
    assert_eq!(dl.accept_urls("", true), Err(ValidationError::NoUrls));
    assert_eq!(dl.accept_urls("x y", false), Err(ValidationError::MalformedUrls));
    assert_eq!(dl.accept_urls("a\nb", true), Ok(()));
    dl.download_type(DownloadType::Audio);
    let args = dl.build().unwrap();
    assert_eq!(&args[8..], &strings(&["a", "b"])[..]);
}

#[test]
fn type_options_round_trip() {
    let options = DownloadType::options();
    assert_eq!(
        options,
        strings(&["video(s) with audio", "video(s) without audio", "audio(s) only"])
    );
    assert_eq!(DownloadType::from_option(&options[0]), Ok(DownloadType::VideoWithAudio));
    assert_eq!(DownloadType::from_option(&options[1]), Ok(DownloadType::VideoOnly));
    assert_eq!(DownloadType::from_option(&options[2]), Ok(DownloadType::Audio));
    assert_eq!(DownloadType::from_option(""), Err(ValidationError::MissingDownloadType));
    assert_eq!(DownloadType::from_option("video"), Err(ValidationError::MissingDownloadType));
}

#[test]
fn quality_options_round_trip() {
    let options = DownloadQuality::options();
    assert_eq!(options, strings(&["360p", "480p", "720p", "1024p", "2048p"]));
    let expected = [
        (DownloadQuality::P360, "360"),
        (DownloadQuality::P480, "480"),
        (DownloadQuality::P720, "720"),
        (DownloadQuality::P1024, "1024"),
        (DownloadQuality::P2048, "2048"),
    ];
    for (option, (quality, height)) in options.iter().zip(expected) {
        assert_eq!(DownloadQuality::from_option(option), Ok(quality));
        assert_eq!(quality.to_str(), height);
    }
    assert_eq!(DownloadQuality::from_option("1080p"), Err(ValidationError::MissingQuality));
}
