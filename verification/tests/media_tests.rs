//! Tests for the rendition tag: rendering, parsing, validation and the
//! version it requires.

use hls_m3u8::tags::ExtXMedia;
use hls_m3u8::types::Channels;
use hls_m3u8::types::InStreamId;
use hls_m3u8::types::MediaType;
use hls_m3u8::types::ProtocolVersion;

#[test]
fn test_display() {
    assert_eq!(
        ExtXMedia::builder()
            .media_type(MediaType::Audio)
            .group_id("audio")
            .language("eng")
            .name("English")
            .is_autoselect(true)
            .is_default(true)
            .uri("eng/prog_index.m3u8")
            .build()
            .unwrap()
            .render(),
        "#EXT-X-MEDIA:\
         TYPE=AUDIO,\
         URI=\"eng/prog_index.m3u8\",\
         GROUP-ID=\"audio\",\
         LANGUAGE=\"eng\",\
         NAME=\"English\",\
         DEFAULT=YES,\
         AUTOSELECT=YES"
            .to_string()
    );

    assert_eq!(
        ExtXMedia::builder()
            .media_type(MediaType::Audio)
            .group_id("audio")
            .language("fre")
            .name("Français")
            .is_autoselect(true)
            .is_default(false)
            .uri("fre/prog_index.m3u8")
            .build()
            .unwrap()
            .render(),
        "#EXT-X-MEDIA:\
         TYPE=AUDIO,\
         URI=\"fre/prog_index.m3u8\",\
         GROUP-ID=\"audio\",\
         LANGUAGE=\"fre\",\
         NAME=\"Français\",\
         AUTOSELECT=YES"
            .to_string()
    );

    assert_eq!(
        ExtXMedia::builder()
            .media_type(MediaType::Audio)
            .group_id("audio")
            .language("sp")
            .name("Espanol")
            .is_autoselect(true)
            .is_default(false)
            .uri("sp/prog_index.m3u8")
            .build()
            .unwrap()
            .render(),
        "#EXT-X-MEDIA:\
         TYPE=AUDIO,\
         URI=\"sp/prog_index.m3u8\",\
         GROUP-ID=\"audio\",\
         LANGUAGE=\"sp\",\
         NAME=\"Espanol\",\
         AUTOSELECT=YES"
            .to_string()
    );
    // ----
    assert_eq!(
        ExtXMedia::builder()
            .media_type(MediaType::Audio)
            .group_id("audio-lo")
            .language("eng")
            .name("English")
            .is_autoselect(true)
            .is_default(true)
            .uri("englo/prog_index.m3u8")
            .build()
            .unwrap()
            .render(),
        "#EXT-X-MEDIA:\
         TYPE=AUDIO,\
         URI=\"englo/prog_index.m3u8\",\
         GROUP-ID=\"audio-lo\",\
         LANGUAGE=\"eng\",\
         NAME=\"English\",\
         DEFAULT=YES,\
         AUTOSELECT=YES"
            .to_string()
    );

    assert_eq!(
        ExtXMedia::builder()
            .media_type(MediaType::Audio)
            .group_id("audio-lo")
            .language("fre")
            .name("Français")
            .is_autoselect(true)
            .is_default(false)
            .uri("frelo/prog_index.m3u8")
            .build()
            .unwrap()
            .render(),
        "#EXT-X-MEDIA:\
         TYPE=AUDIO,\
         URI=\"frelo/prog_index.m3u8\",\
         GROUP-ID=\"audio-lo\",\
         LANGUAGE=\"fre\",\
         NAME=\"Français\",\
         AUTOSELECT=YES"
            .to_string()
    );

    assert_eq!(
        ExtXMedia::builder()
            .media_type(MediaType::Audio)
            .group_id("audio-lo")
            .language("es")
            .name("Espanol")
            .is_autoselect(true)
            .is_default(false)
            .uri("splo/prog_index.m3u8")
            .build()
            .unwrap()
            .render(),
        "#EXT-X-MEDIA:\
         TYPE=AUDIO,\
         URI=\"splo/prog_index.m3u8\",\
         GROUP-ID=\"audio-lo\",\
         LANGUAGE=\"es\",\
         NAME=\"Espanol\",\
         AUTOSELECT=YES"
            .to_string()
    );

    assert_eq!(
        ExtXMedia::builder()
            .media_type(MediaType::Audio)
            .group_id("audio-hi")
            .language("eng")
            .name("English")
            .is_autoselect(true)
            .is_default(true)
            .uri("eng/prog_index.m3u8")
            .build()
            .unwrap()
            .render(),
        "#EXT-X-MEDIA:\
         TYPE=AUDIO,\
         URI=\"eng/prog_index.m3u8\",\
         GROUP-ID=\"audio-hi\",\
         LANGUAGE=\"eng\",\
         NAME=\"English\",\
         DEFAULT=YES,\
         AUTOSELECT=YES"
            .to_string()
    );

    assert_eq!(
        ExtXMedia::builder()
            .media_type(MediaType::Audio)
            .group_id("audio-hi")
            .language("fre")
            .name("Français")
            .is_autoselect(true)
            .is_default(false)
            .uri("fre/prog_index.m3u8")
            .build()
            .unwrap()
            .render(),
        "#EXT-X-MEDIA:\
         TYPE=AUDIO,\
         URI=\"fre/prog_index.m3u8\",\
         GROUP-ID=\"audio-hi\",\
         LANGUAGE=\"fre\",\
         NAME=\"Français\",\
         AUTOSELECT=YES"
            .to_string()
    );

    assert_eq!(
        ExtXMedia::builder()
            .media_type(MediaType::Audio)
            .group_id("audio-hi")
            .language("es")
            .name("Espanol")
            .is_autoselect(true)
            .is_default(false)
            .uri("sp/prog_index.m3u8")
            .build()
            .unwrap()
            .render(),
        "#EXT-X-MEDIA:\
         TYPE=AUDIO,\
         URI=\"sp/prog_index.m3u8\",\
         GROUP-ID=\"audio-hi\",\
         LANGUAGE=\"es\",\
         NAME=\"Espanol\",\
         AUTOSELECT=YES"
            .to_string()
    );

    assert_eq!(
        ExtXMedia::builder()
            .media_type(MediaType::Audio)
            .group_id("audio-aacl-312")
            .language("en")
            .name("English")
            .is_autoselect(true)
            .is_default(true)
            .channels(Channels::new(2))
            .build()
            .unwrap()
            .render(),
        "#EXT-X-MEDIA:\
         TYPE=AUDIO,\
         GROUP-ID=\"audio-aacl-312\",\
         LANGUAGE=\"en\",\
         NAME=\"English\",\
         DEFAULT=YES,\
         AUTOSELECT=YES,\
         CHANNELS=\"2\""
            .to_string()
    );

    assert_eq!(
        ExtXMedia::builder()
            .media_type(MediaType::Subtitles)
            .uri("french/ed.ttml")
            .group_id("subs")
            .language("fra")
            .assoc_language("fra")
            .name("French")
            .is_autoselect(true)
            .is_forced(true)
            .characteristics("public.accessibility.transcribes-spoken-dialog,public.accessibility.describes-music-and-sound")
            .build()
            .unwrap()
            .render(),
        "#EXT-X-MEDIA:\
        TYPE=SUBTITLES,\
        URI=\"french/ed.ttml\",\
        GROUP-ID=\"subs\",\
        LANGUAGE=\"fra\",\
        ASSOC-LANGUAGE=\"fra\",\
        NAME=\"French\",\
        AUTOSELECT=YES,\
        FORCED=YES,\
        CHARACTERISTICS=\"public.accessibility.transcribes-spoken-dialog,public.accessibility.describes-music-and-sound\"".to_string()
    );

    assert_eq!(
        ExtXMedia::builder()
            .media_type(MediaType::ClosedCaptions)
            .group_id("cc")
            .language("sp")
            .name("CC2")
            .instream_id(InStreamId::Cc2)
            .is_autoselect(true)
            .build()
            .unwrap()
            .render(),
        "#EXT-X-MEDIA:\
         TYPE=CLOSED-CAPTIONS,\
         GROUP-ID=\"cc\",\
         LANGUAGE=\"sp\",\
         NAME=\"CC2\",\
         AUTOSELECT=YES,\
         INSTREAM-ID=\"CC2\""
            .to_string()
    );

    // ----
    assert_eq!(
        ExtXMedia::new(MediaType::Audio, "foo", "bar").render(),
        "#EXT-X-MEDIA:TYPE=AUDIO,GROUP-ID=\"foo\",NAME=\"bar\"".to_string()
    )
}

#[test]
fn test_parser() {
    assert_eq!(
        ExtXMedia::builder()
            .media_type(MediaType::Audio)
            .group_id("audio")
            .language("eng")
            .name("English")
            .is_autoselect(true)
            .is_default(true)
            .uri("eng/prog_index.m3u8")
            .build()
            .unwrap(),
        "#EXT-X-MEDIA:\
         TYPE=AUDIO,\
         URI=\"eng/prog_index.m3u8\",\
         GROUP-ID=\"audio\",\
         LANGUAGE=\"eng\",\
         NAME=\"English\",\
         DEFAULT=YES,\
         AUTOSELECT=YES"
            .parse()
            .unwrap()
    );

    assert_eq!(
        ExtXMedia::builder()
            .media_type(MediaType::Audio)
            .group_id("audio")
            .language("fre")
            .name("Français")
            .is_autoselect(true)
            .is_default(false)
            .uri("fre/prog_index.m3u8")
            .build()
            .unwrap(),
        "#EXT-X-MEDIA:\
         TYPE=AUDIO,\
         URI=\"fre/prog_index.m3u8\",\
         GROUP-ID=\"audio\",\
         LANGUAGE=\"fre\",\
         NAME=\"Français\",\
         AUTOSELECT=YES"
            .parse()
            .unwrap()
    );

    assert_eq!(
        ExtXMedia::builder()
            .media_type(MediaType::Audio)
            .group_id("audio")
            .language("sp")
            .name("Espanol")
            .is_autoselect(true)
            .is_default(false)
            .uri("sp/prog_index.m3u8")
            .build()
            .unwrap(),
        "#EXT-X-MEDIA:\
         TYPE=AUDIO,\
         URI=\"sp/prog_index.m3u8\",\
         GROUP-ID=\"audio\",\
         LANGUAGE=\"sp\",\
         NAME=\"Espanol\",\
         AUTOSELECT=YES"
            .parse()
            .unwrap()
    );
    // ----
    assert_eq!(
        ExtXMedia::builder()
            .media_type(MediaType::Audio)
            .group_id("audio-lo")
            .language("eng")
            .name("English")
            .is_autoselect(true)
            .is_default(true)
            .uri("englo/prog_index.m3u8")
            .build()
            .unwrap(),
        "#EXT-X-MEDIA:\
         TYPE=AUDIO,\
         URI=\"englo/prog_index.m3u8\",\
         GROUP-ID=\"audio-lo\",\
         LANGUAGE=\"eng\",\
         NAME=\"English\",\
         DEFAULT=YES,\
         AUTOSELECT=YES"
            .parse()
            .unwrap()
    );

    assert_eq!(
        ExtXMedia::builder()
            .media_type(MediaType::Audio)
            .group_id("audio-lo")
            .language("fre")
            .name("Français")
            .is_autoselect(true)
            .is_default(false)
            .uri("frelo/prog_index.m3u8")
            .build()
            .unwrap(),
        "#EXT-X-MEDIA:\
         TYPE=AUDIO,\
         URI=\"frelo/prog_index.m3u8\",\
         GROUP-ID=\"audio-lo\",\
         LANGUAGE=\"fre\",\
         NAME=\"Français\",\
         AUTOSELECT=YES"
            .parse()
            .unwrap()
    );

    assert_eq!(
        ExtXMedia::builder()
            .media_type(MediaType::Audio)
            .group_id("audio-lo")
            .language("es")
            .name("Espanol")
            .is_autoselect(true)
            .is_default(false)
            .uri("splo/prog_index.m3u8")
            .build()
            .unwrap(),
        "#EXT-X-MEDIA:\
         TYPE=AUDIO,\
         URI=\"splo/prog_index.m3u8\",\
         GROUP-ID=\"audio-lo\",\
         LANGUAGE=\"es\",\
         NAME=\"Espanol\",\
         AUTOSELECT=YES"
            .parse()
            .unwrap()
    );

    assert_eq!(
        ExtXMedia::builder()
            .media_type(MediaType::Audio)
            .group_id("audio-hi")
            .language("eng")
            .name("English")
            .is_autoselect(true)
            .is_default(true)
            .uri("eng/prog_index.m3u8")
            .build()
            .unwrap(),
        "#EXT-X-MEDIA:\
         TYPE=AUDIO,\
         URI=\"eng/prog_index.m3u8\",\
         GROUP-ID=\"audio-hi\",\
         LANGUAGE=\"eng\",\
         NAME=\"English\",\
         DEFAULT=YES,\
         AUTOSELECT=YES"
            .parse()
            .unwrap()
    );

    assert_eq!(
        ExtXMedia::builder()
            .media_type(MediaType::Audio)
            .group_id("audio-hi")
            .language("fre")
            .name("Français")
            .is_autoselect(true)
            .is_default(false)
            .uri("fre/prog_index.m3u8")
            .build()
            .unwrap(),
        "#EXT-X-MEDIA:\
         TYPE=AUDIO,\
         URI=\"fre/prog_index.m3u8\",\
         GROUP-ID=\"audio-hi\",\
         LANGUAGE=\"fre\",\
         NAME=\"Français\",\
         AUTOSELECT=YES"
            .parse()
            .unwrap()
    );

    assert_eq!(
        ExtXMedia::builder()
            .media_type(MediaType::Audio)
            .group_id("audio-hi")
            .language("es")
            .name("Espanol")
            .is_autoselect(true)
            .is_default(false)
            .uri("sp/prog_index.m3u8")
            .build()
            .unwrap(),
        "#EXT-X-MEDIA:\
         TYPE=AUDIO,\
         URI=\"sp/prog_index.m3u8\",\
         GROUP-ID=\"audio-hi\",\
         LANGUAGE=\"es\",\
         NAME=\"Espanol\",\
         AUTOSELECT=YES"
            .parse()
            .unwrap()
    );

    assert_eq!(
        ExtXMedia::builder()
            .media_type(MediaType::Audio)
            .group_id("audio-aacl-312")
            .language("en")
            .name("English")
            .is_autoselect(true)
            .is_default(true)
            .channels(Channels::new(2))
            .build()
            .unwrap(),
        "#EXT-X-MEDIA:\
         TYPE=AUDIO,\
         GROUP-ID=\"audio-aacl-312\",\
         LANGUAGE=\"en\",\
         NAME=\"English\",\
         DEFAULT=YES,\
         AUTOSELECT=YES,\
         CHANNELS=\"2\""
            .parse()
            .unwrap()
    );

    assert_eq!(
        ExtXMedia::builder()
            .media_type(MediaType::Subtitles)
            .uri("french/ed.ttml")
            .group_id("subs")
            .language("fra")
            .assoc_language("fra")
            .name("French")
            .is_autoselect(true)
            .characteristics("public.accessibility.transcribes-spoken-dialog,public.accessibility.describes-music-and-sound")
            .build()
            .unwrap(),
        "#EXT-X-MEDIA:\
        URI=\"french/ed.ttml\",\
        TYPE=SUBTITLES,\
        GROUP-ID=\"subs\",\
        LANGUAGE=\"fra\",\
        ASSOC-LANGUAGE=\"fra\",\
        NAME=\"French\",\
        AUTOSELECT=YES,\
        FORCED=NO,\
        CHARACTERISTICS=\"public.accessibility.transcribes-spoken-dialog,public.accessibility.describes-music-and-sound\"".parse().unwrap()
    );

    assert_eq!(
        ExtXMedia::builder()
            .media_type(MediaType::ClosedCaptions)
            .group_id("cc")
            .language("sp")
            .name("CC2")
            .instream_id(InStreamId::Cc2)
            .is_autoselect(true)
            .build()
            .unwrap(),
        "#EXT-X-MEDIA:\
         TYPE=CLOSED-CAPTIONS,\
         GROUP-ID=\"cc\",\
         LANGUAGE=\"sp\",\
         NAME=\"CC2\",\
         AUTOSELECT=YES,\
         INSTREAM-ID=\"CC2\",\
         UNKNOWN=TAG"
            .parse()
            .unwrap()
    );
    // ----
    assert_eq!(
        ExtXMedia::new(MediaType::Audio, "foo", "bar"),
        "#EXT-X-MEDIA:TYPE=AUDIO,GROUP-ID=\"foo\",NAME=\"bar\""
            .parse()
            .unwrap()
    );
}

#[test]
fn test_parser_error() {
    assert!("".parse::<ExtXMedia>().is_err());
    assert!("garbage".parse::<ExtXMedia>().is_err());

    assert!(
        "#EXT-X-MEDIA:TYPE=CLOSED-CAPTIONS,URI=\"http://www.example.com\""
            .parse::<ExtXMedia>()
            .is_err()
    );
    assert!("#EXT-X-MEDIA:TYPE=AUDIO,INSTREAM-ID=CC1"
        .parse::<ExtXMedia>()
        .is_err());

    assert!("#EXT-X-MEDIA:TYPE=AUDIO,DEFAULT=YES,AUTOSELECT=NO"
        .parse::<ExtXMedia>()
        .is_err());

    assert!("#EXT-X-MEDIA:TYPE=AUDIO,FORCED=YES"
        .parse::<ExtXMedia>()
        .is_err());
}

#[test]
fn test_required_version() {
    assert_eq!(
        ExtXMedia::builder()
            .media_type(MediaType::ClosedCaptions)
            .group_id("audio")
            .name("English")
            .instream_id(InStreamId::Cc1)
            .build()
            .unwrap()
            .required_version(),
        ProtocolVersion::V1
    );
    assert_eq!(
        ExtXMedia::builder()
            .media_type(MediaType::ClosedCaptions)
            .group_id("audio")
            .name("English")
            .instream_id(InStreamId::Cc2)
            .build()
            .unwrap()
            .required_version(),
        ProtocolVersion::V1
    );
    assert_eq!(
        ExtXMedia::builder()
            .media_type(MediaType::ClosedCaptions)
            .group_id("audio")
            .name("English")
            .instream_id(InStreamId::Cc3)
            .build()
            .unwrap()
            .required_version(),
        ProtocolVersion::V1
    );
    assert_eq!(
        ExtXMedia::builder()
            .media_type(MediaType::ClosedCaptions)
            .group_id("audio")
            .name("English")
            .instream_id(InStreamId::Cc4)
            .build()
            .unwrap()
            .required_version(),
        ProtocolVersion::V1
    );
    assert_eq!(
        ExtXMedia::builder()
            .media_type(MediaType::ClosedCaptions)
            .group_id("audio")
            .name("English")
            .instream_id(InStreamId::Service(1))
            .build()
            .unwrap()
            .required_version(),
        ProtocolVersion::V7
    );

    assert_eq!(
        ExtXMedia::builder()
            .media_type(MediaType::Audio)
            .group_id("audio")
            .name("English")
            .build()
            .unwrap()
            .required_version(),
        ProtocolVersion::V1
    );
}
