use livecap::account::{create_account, new_account};
use livecap::errors::AccountError;
use livecap::platform::PlatformType;
use livecap::strutil::{frac3, str_eq, u64_to_dec};
use livecap::transcode::{
    quoted_subtitle, subtitle_filter_arg, subtitle_output_name, transcode_outcome, wav_output_path,
    TranscodeEvent,
};

#[test]
fn platform_names_round_trip() {
    for p in [
        PlatformType::BiliBili,
        PlatformType::Douyin,
        PlatformType::Huya,
        PlatformType::Youtube,
    ] {
        assert_eq!(PlatformType::from_str(p.as_str()), Some(p));
    }
    assert_eq!(PlatformType::as_str(&PlatformType::BiliBili), "bilibili");
    assert_eq!(PlatformType::from_str("twitch"), None);
    assert_eq!(PlatformType::from_str(""), None);
}

#[test]
fn bilibili_account_is_parsed_from_cookies() {
    let cookies = "DedeUserID=12345; bili_jct=tok123; other=x";
    let row = create_account("bilibili", cookies, 0, String::from("ts")).unwrap();
    assert_eq!(row.platform, "bilibili");
    assert_eq!(row.uid, 12345);
    assert_eq!(row.csrf, "tok123");
    assert_eq!(row.cookies, cookies);
    assert_eq!(row.created_at, "ts");
    assert_eq!(row.name, "");
    assert_eq!(row.avatar, "");
}

#[test]
fn cookie_pairs_are_trimmed_and_the_first_match_wins() {
    let row = create_account(
        "huya",
        "x=1;  bili_jct=first  ; bili_jct=second",
        777,
        String::from("ts"),
    )
    .unwrap();
    assert_eq!(row.csrf, "first");
    // A non-BiliBili platform takes the caller-generated id.
    assert_eq!(row.uid, 777);
}

#[test]
fn douyin_needs_no_csrf_cookie() {
    let row = create_account("douyin", "whatever=1", 424242, String::from("ts")).unwrap();
    assert_eq!(row.csrf, "");
    assert_eq!(row.uid, 424242);
    assert_eq!(row.platform, "douyin");
}

#[test]
fn invalid_cookies_are_refused() {
    // No bili_jct pair at all.
    assert!(matches!(
        create_account("bilibili", "DedeUserID=1; a=b", 0, String::from("ts")),
        Err(AccountError::InvalidCookies)
    ));
    // No DedeUserID for a BiliBili account.
    assert!(matches!(
        create_account("bilibili", "bili_jct=tok", 0, String::from("ts")),
        Err(AccountError::InvalidCookies)
    ));
    // A non-numeric id.
    assert!(matches!(
        create_account("bilibili", "DedeUserID=12x; bili_jct=tok", 0, String::from("ts")),
        Err(AccountError::InvalidCookies)
    ));
    // An id too large for the id type.
    assert!(matches!(
        create_account(
            "bilibili",
            "DedeUserID=99999999999999999999999; bili_jct=tok",
            0,
            String::from("ts"),
        ),
        Err(AccountError::InvalidCookies)
    ));
    assert!(matches!(
        create_account("vimeo", "bili_jct=tok", 0, String::from("ts")),
        Err(AccountError::UnknownPlatform)
    ));
}

#[test]
fn generated_accounts_draw_id_and_timestamp() {
    // Exercises the clock and randomness wrappers end to end.
    let row = new_account("huya", "bili_jct=abc").unwrap();
    assert!((10000..=i32::MAX as u64).contains(&row.uid));
    assert_eq!(row.csrf, "abc");
    assert!(!row.created_at.is_empty());
}

#[test]
fn transcode_outcome_forwards_the_last_error_before_eof() {
    let events = vec![
        TranscodeEvent::Progress(String::from("00:01")),
        TranscodeEvent::Error(String::from("e1")),
        TranscodeEvent::Other,
        TranscodeEvent::Error(String::from("e2")),
        TranscodeEvent::LogEof,
        TranscodeEvent::Error(String::from("after")),
    ];
    assert_eq!(
        transcode_outcome(String::from("o.mp4"), &events).unwrap_err(),
        "e2"
    );

    let clean = vec![
        TranscodeEvent::Progress(String::from("00:01")),
        TranscodeEvent::Other,
        TranscodeEvent::LogEof,
    ];
    let ok = transcode_outcome(String::from("o.mp4"), &clean).unwrap();
    assert_eq!(ok.output_path, "o.mp4");
}

#[test]
fn subtitle_paths_are_escaped_and_quoted() {
    assert_eq!(subtitle_output_name("a.mp4"), "[subtitle]a.mp4");
    assert_eq!(quoted_subtitle("/a/b.srt", false), "'/a/b.srt'");
    assert_eq!(quoted_subtitle("C:\\x.srt", true), "'C\\:\\\\x.srt'");
    assert_eq!(
        subtitle_filter_arg("'/a/b.srt'", "FontSize=24"),
        "subtitles='/a/b.srt':force_style='FontSize=24'"
    );
}

#[test]
fn wav_paths_replace_the_extension_of_the_final_component() {
    assert_eq!(wav_output_path("dir/file.mp4"), "dir/file.wav");
    assert_eq!(wav_output_path("dir.x/file"), "dir.x/file.wav");
    assert_eq!(wav_output_path("a.b.c"), "a.b.wav");
    assert_eq!(wav_output_path("noext"), "noext.wav");
}

#[test]
fn decimal_renderings_are_exact() {
    assert_eq!(u64_to_dec(0), "0");
    assert_eq!(u64_to_dec(7), "7");
    assert_eq!(u64_to_dec(1234567890), "1234567890");
    assert_eq!(u64_to_dec(u64::MAX), "18446744073709551615");
    assert_eq!(frac3(0), "000");
    assert_eq!(frac3(7), "007");
    assert_eq!(frac3(42), "042");
    assert_eq!(frac3(999), "999");
    assert!(str_eq("abc", "abc"));
    assert!(!str_eq("abc", "abd"));
    assert!(!str_eq("abc", "ab"));
}
