use redtake::tts::{
    polly_audio, text_chunks, tiktok_audio, Service, SpeechError, SpeechRequest, Voices,
};

#[test]
fn voices_have_the_codes_of_their_services() {
    assert_eq!(Voices::DeDETiktokFemale.code(), "de_001");
    assert_eq!(Voices::EnUSTiktokFemale2.code(), "en_us_002");
    assert_eq!(Voices::EnUKTiktokMale2.code(), "en_uk_003");
    assert_eq!(Voices::EnUSPollyJoanna.code(), "Joanna");
    assert_eq!(Voices::EnWelshPollyGeraint.code(), "Geraint");
    assert_eq!(Voices::EnUSTiktokC3PO.code(), "en_us_c3po");
    assert_eq!(Voices::PtBRTiktokMale.code(), "br_005");
}

#[test]
fn voices_belong_to_one_of_two_services() {
    assert_eq!(Voices::EnUSTiktokFemale2.service(), Service::Tiktok);
    assert_eq!(Voices::JpJPTiktokMale.service(), Service::Tiktok);
    assert_eq!(Voices::EnAUPollyNicole.service(), Service::Polly);
    assert_eq!(Voices::EnUSPollySalli.service(), Service::Polly);
    assert_eq!(Voices::EnWelshPollyGeraint.service(), Service::Polly);
}

#[test]
fn text_is_cut_into_pieces_of_the_size() {
    assert_eq!(text_chunks("abcdef", 4), Some(vec!["abcd".to_owned(), "ef".to_owned()]));
    assert_eq!(text_chunks("abcdefgh", 4), Some(vec!["abcd".to_owned(), "efgh".to_owned()]));
    assert_eq!(text_chunks("abc", 4), Some(vec!["abc".to_owned()]));
    assert_eq!(text_chunks("abc", 1), Some(vec!["a".to_owned(), "b".to_owned(), "c".to_owned()]));
    assert_eq!(text_chunks("", 4), Some(vec![]));
}

#[test]
fn text_cannot_be_cut_inside_a_character_or_into_nothing() {
    assert_eq!(text_chunks("abc", 0), None);
    assert_eq!(text_chunks("a\u{e9}b", 2), None);
    assert_eq!(text_chunks("\u{e9}\u{e9}b", 2), Some(vec!["\u{e9}".to_owned(), "\u{e9}".to_owned(), "b".to_owned()]));
    assert_eq!(text_chunks("a\u{e9}", 3), Some(vec!["a\u{e9}".to_owned()]));
}

#[test]
fn a_short_text_is_one_request() {
    let requests = Voices::EnUSTiktokFemale2.requests("Hello there.", false).unwrap();
    assert_eq!(
        requests,
        vec![SpeechRequest {
            service: Service::Tiktok,
            proxy: false,
            voice: "en_us_002".to_owned(),
            text: "Hello there.".to_owned(),
        }]
    );
    let requests = Voices::EnUKPollyBrian.requests("", true).unwrap();
    assert_eq!(
        requests,
        vec![SpeechRequest {
            service: Service::Polly,
            proxy: true,
            voice: "Brian".to_owned(),
            text: String::new(),
        }]
    );
}

#[test]
fn a_long_text_is_cut_just_below_the_limit() {
    let text = "x".repeat(299);
    assert_eq!(Voices::EnUSTiktokFemale2.requests(&text, false).unwrap().len(), 1);
    let text = "x".repeat(300);
    let requests = Voices::EnUSTiktokFemale2.requests(&text, false).unwrap();
    assert_eq!(requests.iter().map(|r| r.text.len()).collect::<Vec<_>>(), vec![299, 1]);
    let text = "y".repeat(300);
    assert_eq!(Voices::EnUSPollyJoey.requests(&text, false).unwrap().len(), 1);
    let text = "y".repeat(1000);
    let requests = Voices::EnUSPollyJoey.requests(&text, true).unwrap();
    assert_eq!(requests.iter().map(|r| r.text.len()).collect::<Vec<_>>(), vec![499, 499, 2]);
    assert!(requests.iter().all(|r| r.voice == "Joey" && r.proxy && r.service == Service::Polly));
    let text = format!("{}\u{e9}", "x".repeat(298));
    assert_eq!(Voices::EnUSTiktokFemale2.requests(&text, false), None);
}

#[test]
fn requests_go_to_the_service_or_through_the_proxy() {
    let mut request = SpeechRequest {
        service: Service::Tiktok,
        proxy: false,
        voice: "en_us_002".to_owned(),
        text: "Hi".to_owned(),
    };
    assert_eq!(
        request.endpoint(),
        "https://api16-normal-useast5.us.tiktokv.com/media/api/text/speech/invoke/"
    );
    assert_eq!(request.origin(), None);
    assert_eq!(
        request.query(),
        vec![
            ("text_speaker".to_owned(), "en_us_002".to_owned()),
            ("req_text".to_owned(), "Hi".to_owned()),
            ("speaker_map_type".to_owned(), "0".to_owned()),
        ]
    );
    request.proxy = true;
    assert_eq!(
        request.endpoint(),
        "https://warp-co.rs/https://api16-normal-useast5.us.tiktokv.com/media/api/text/speech/invoke/"
    );
    assert_eq!(
        request.origin(),
        Some("https://api16-normal-useast5.us.tiktokv.com".to_owned())
    );
    request.service = Service::Polly;
    request.voice = "Amy".to_owned();
    assert_eq!(request.endpoint(), "https://warp-co.rs/https://streamlabs.com/polly/speak");
    assert_eq!(request.origin(), Some("https://streamlabs.com/polly/speak".to_owned()));
    assert_eq!(
        request.query(),
        vec![
            ("voice".to_owned(), "Amy".to_owned()),
            ("text".to_owned(), "Hi".to_owned()),
            ("service".to_owned(), "polly".to_owned()),
        ]
    );
    request.proxy = false;
    assert_eq!(request.endpoint(), "https://streamlabs.com/polly/speak");
    assert_eq!(request.origin(), None);
}

#[test]
fn audio_of_the_first_service_is_decoded() {
    assert_eq!(tiktok_audio("aGVsbG8=", "ok"), Ok(b"hello".to_vec()));
    assert_eq!(tiktok_audio("AAEC/w==", ""), Ok(vec![0, 1, 2, 255]));
    assert_eq!(
        tiktok_audio("", "Text too long"),
        Err(SpeechError::Refused { message: "Text too long".to_owned() })
    );
    assert_eq!(tiktok_audio("not base64!", "ok"), Err(SpeechError::Encoding));
}

#[test]
fn the_second_service_answers_with_an_address() {
    assert_eq!(
        polly_audio(None, true, "https://example.com/a.mp3"),
        Ok("https://example.com/a.mp3".to_owned())
    );
    assert_eq!(polly_audio(None, false, "https://example.com/a.mp3"), Err(SpeechError::Failed));
    assert_eq!(
        polly_audio(Some("Voice not found"), true, ""),
        Err(SpeechError::Refused { message: "Voice not found".to_owned() })
    );
}
