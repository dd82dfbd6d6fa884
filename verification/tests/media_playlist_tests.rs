//! Tests for parsing, validating and rendering media playlists.

use hls_m3u8::types::Duration;
use hls_m3u8::types::EncryptionMethod;
use hls_m3u8::Error;
use hls_m3u8::MediaPlaylist;

#[test]
fn too_large_segment_duration_test() {
    let playlist = r#"
        #EXTM3U
        #EXT-X-TARGETDURATION:8
        #EXT-X-VERSION:3
        #EXTINF:9.009,
        http://media.example.com/first.ts
        #EXTINF:9.509,
        http://media.example.com/second.ts
        #EXTINF:3.003,
        http://media.example.com/third.ts
        #EXT-X-ENDLIST"#;

    // Error (allowable segment duration = target duration = 8)
    assert!(playlist.parse::<MediaPlaylist>().is_err());

    // Error (allowable segment duration = 9)
    assert!(MediaPlaylist::builder()
        .allowable_excess_duration(Duration::from_secs(1))
        .parse(playlist)
        .is_err());

    // Ok (allowable segment duration = 10)
    MediaPlaylist::builder()
        .allowable_excess_duration(Duration::from_secs(2))
        .parse(playlist)
        .unwrap();
}

#[test]
fn test_empty_playlist() {
    let playlist = "";
    assert!(playlist.parse::<MediaPlaylist>().is_err());
}

#[test]
fn test_basic_playlist_fields() {
    let playlist = "#EXTM3U\n\
                    #EXT-X-TARGETDURATION:10\n\
                    #EXT-X-MEDIA-SEQUENCE:7\n\
                    #EXT-X-PLAYLIST-TYPE:VOD\n\
                    #EXTINF:9.009,first title\n\
                    http://media.example.com/first.ts\n\
                    #EXTINF:3.5,\n\
                    http://media.example.com/second.ts\n\
                    #EXT-X-ENDLIST\n";
    let p: MediaPlaylist = playlist.parse().unwrap();
    assert_eq!(p.target_duration_tag().duration().as_secs(), 10);
    assert_eq!(p.media_sequence_tag().unwrap().number, 7);
    assert!(p.end_list_tag().is_some());
    assert_eq!(p.segments().len(), 2);
    assert_eq!(p.segments()[0].uri(), "http://media.example.com/first.ts");
    assert_eq!(
        p.segments()[0].inf_tag().title.as_deref(),
        Some("first title")
    );
    assert_eq!(p.segments()[0].inf_tag().duration.as_millis(), 9009);
    assert_eq!(p.segments()[1].inf_tag().duration.as_millis(), 3500);
    assert!(p.segments()[1].inf_tag().title.is_none());
}

#[test]
fn test_not_starting_with_marker() {
    // the first significant line must be the start-of-file marker
    let playlist = "#EXT-X-TARGETDURATION:10\n#EXTINF:9.0,\nfirst.ts\n";
    match playlist.parse::<MediaPlaylist>() {
        Err(Error::InvalidInput) => (),
        other => panic!("expected InvalidInput, got {:?}", other),
    }
    // and empty input fails the same way
    match "".parse::<MediaPlaylist>() {
        Err(Error::InvalidInput) => (),
        other => panic!("expected InvalidInput, got {:?}", other),
    }
}

#[test]
fn test_dangling_segment() {
    // a segment without its URI line is fatal
    let playlist = "#EXTM3U\n#EXT-X-TARGETDURATION:10\n#EXTINF:9.0,\n";
    match playlist.parse::<MediaPlaylist>() {
        Err(Error::InvalidInput) => (),
        other => panic!("expected InvalidInput, got {:?}", other),
    }
}

#[test]
fn test_key_propagation() {
    // a key with the same format supersedes; the first segment keeps the
    // first key, the second sees only the second key
    let playlist = "#EXTM3U\n\
                    #EXT-X-TARGETDURATION:10\n\
                    #EXT-X-KEY:METHOD=AES-128,URI=\"key1\",KEYFORMAT=\"identity\"\n\
                    #EXTINF:9.0,\n\
                    seg1.ts\n\
                    #EXT-X-KEY:METHOD=AES-128,URI=\"key2\",KEYFORMAT=\"identity\"\n\
                    #EXTINF:9.0,\n\
                    seg2.ts\n";
    let p: MediaPlaylist = playlist.parse().unwrap();
    assert_eq!(p.segments()[0].keys().len(), 1);
    assert_eq!(p.segments()[0].keys()[0].uri.as_deref(), Some("key1"));
    assert_eq!(p.segments()[1].keys().len(), 1);
    assert_eq!(p.segments()[1].keys()[0].uri.as_deref(), Some("key2"));

    // a key with a different format accumulates instead of replacing
    let playlist = "#EXTM3U\n\
                    #EXT-X-TARGETDURATION:10\n\
                    #EXT-X-KEY:METHOD=AES-128,URI=\"key1\",KEYFORMAT=\"identity\"\n\
                    #EXTINF:9.0,\n\
                    seg1.ts\n\
                    #EXT-X-KEY:METHOD=SAMPLE-AES,URI=\"key2\",KEYFORMAT=\"other\"\n\
                    #EXTINF:9.0,\n\
                    seg2.ts\n";
    let p: MediaPlaylist = playlist.parse().unwrap();
    assert_eq!(p.segments()[0].keys().len(), 1);
    assert_eq!(p.segments()[1].keys().len(), 2);
    assert_eq!(p.segments()[1].keys()[0].uri.as_deref(), Some("key1"));
    assert_eq!(p.segments()[1].keys()[0].method, EncryptionMethod::Aes128);
    assert_eq!(p.segments()[1].keys()[1].uri.as_deref(), Some("key2"));
    assert_eq!(p.segments()[1].keys()[1].method, EncryptionMethod::SampleAes);
}

#[test]
fn test_byte_range_continuation() {
    // an explicit start followed by an open-ended range on the same URI
    let good = "#EXTM3U\n\
                #EXT-X-TARGETDURATION:10\n\
                #EXTINF:9.0,\n\
                #EXT-X-BYTERANGE:1000@0\n\
                media.ts\n\
                #EXTINF:9.0,\n\
                #EXT-X-BYTERANGE:1000\n\
                media.ts\n";
    assert!(good.parse::<MediaPlaylist>().is_ok());

    // the same open-ended range on a different URI is rejected
    let different_uri = "#EXTM3U\n\
                         #EXT-X-TARGETDURATION:10\n\
                         #EXTINF:9.0,\n\
                         #EXT-X-BYTERANGE:1000@0\n\
                         media.ts\n\
                         #EXTINF:9.0,\n\
                         #EXT-X-BYTERANGE:1000\n\
                         other.ts\n";
    assert!(different_uri.parse::<MediaPlaylist>().is_err());

    // an open-ended range with no previous range at all is rejected
    let first = "#EXTM3U\n\
                 #EXT-X-TARGETDURATION:10\n\
                 #EXTINF:9.0,\n\
                 #EXT-X-BYTERANGE:1000\n\
                 media.ts\n";
    assert!(first.parse::<MediaPlaylist>().is_err());
}

#[test]
fn test_discontinuity_sequence_placement() {
    // rejected before any segment has been finished
    let before = "#EXTM3U\n\
                  #EXT-X-TARGETDURATION:10\n\
                  #EXT-X-DISCONTINUITY-SEQUENCE:3\n\
                  #EXTINF:9.0,\n\
                  seg.ts\n";
    assert!(before.parse::<MediaPlaylist>().is_err());

    // rejected after a discontinuity marker
    let after_marker = "#EXTM3U\n\
                        #EXT-X-TARGETDURATION:10\n\
                        #EXTINF:9.0,\n\
                        seg1.ts\n\
                        #EXT-X-DISCONTINUITY\n\
                        #EXTINF:9.0,\n\
                        seg2.ts\n\
                        #EXT-X-DISCONTINUITY-SEQUENCE:3\n\
                        #EXTINF:9.0,\n\
                        seg3.ts\n";
    assert!(after_marker.parse::<MediaPlaylist>().is_err());

    // accepted after a segment when no marker has been seen
    let good = "#EXTM3U\n\
                #EXT-X-TARGETDURATION:10\n\
                #EXTINF:9.0,\n\
                seg1.ts\n\
                #EXT-X-DISCONTINUITY-SEQUENCE:3\n\
                #EXTINF:9.0,\n\
                seg2.ts\n";
    let p: MediaPlaylist = good.parse().unwrap();
    assert_eq!(p.discontinuity_sequence_tag().unwrap().number, 3);
}

#[test]
fn test_unexpected_master_tag() {
    let playlist = "#EXTM3U\n\
                    #EXT-X-TARGETDURATION:10\n\
                    #EXT-X-MEDIA:TYPE=AUDIO,GROUP-ID=\"a\",NAME=\"b\"\n\
                    #EXTINF:9.0,\n\
                    seg.ts\n";
    match playlist.parse::<MediaPlaylist>() {
        Err(Error::UnexpectedTag(name)) => assert_eq!(name, "EXT-X-MEDIA"),
        other => panic!("expected UnexpectedTag, got {:?}", other),
    }
}

#[test]
fn test_missing_attribute_error() {
    // a key tag without METHOD names the missing attribute
    let playlist = "#EXTM3U\n\
                    #EXT-X-TARGETDURATION:10\n\
                    #EXT-X-KEY:URI=\"key\"\n\
                    #EXTINF:9.0,\n\
                    seg.ts\n";
    match playlist.parse::<MediaPlaylist>() {
        Err(Error::MissingAttribute(name)) => assert_eq!(name, "METHOD"),
        other => panic!("expected MissingAttribute, got {:?}", other),
    }
}

#[test]
fn test_malformed_duration() {
    let playlist = "#EXTM3U\n\
                    #EXT-X-TARGETDURATION:10\n\
                    #EXTINF:abc,\n\
                    seg.ts\n";
    match playlist.parse::<MediaPlaylist>() {
        Err(Error::InvalidInput) => (),
        other => panic!("expected InvalidInput, got {:?}", other),
    }
}

#[test]
fn test_version_aggregation() {
    // baseline features report the lowest version and omit the directive
    let baseline = "#EXTM3U\n\
                    #EXT-X-TARGETDURATION:10\n\
                    #EXTINF:9.0,\n\
                    seg.ts\n";
    let p: MediaPlaylist = baseline.parse().unwrap();
    assert_eq!(p.required_version().number(), 1);
    assert!(!p.render().contains("#EXT-X-VERSION"));

    // a byte range forces version 4 and the directive appears
    let ranged = "#EXTM3U\n\
                  #EXT-X-TARGETDURATION:10\n\
                  #EXTINF:9.0,\n\
                  #EXT-X-BYTERANGE:1000@0\n\
                  seg.ts\n";
    let p: MediaPlaylist = ranged.parse().unwrap();
    assert_eq!(p.required_version().number(), 4);
    assert!(p.render().contains("#EXT-X-VERSION:4\n"));

    // key format attributes force version 5
    let keyed = "#EXTM3U\n\
                 #EXT-X-TARGETDURATION:10\n\
                 #EXT-X-KEY:METHOD=AES-128,URI=\"key\",KEYFORMAT=\"identity\"\n\
                 #EXTINF:9.0,\n\
                 seg.ts\n";
    let p: MediaPlaylist = keyed.parse().unwrap();
    assert_eq!(p.required_version().number(), 5);
}

#[test]
fn test_render_canonical() {
    let playlist = "#EXTM3U\n\
                    #EXT-X-TARGETDURATION:8\n\
                    #EXTINF:9.009,\n\
                    http://media.example.com/first.ts\n\
                    #EXT-X-ENDLIST\n";
    let p: MediaPlaylist = hls_m3u8::MediaPlaylist::builder()
        .allowable_excess_duration(Duration::from_secs(2))
        .parse(playlist)
        .unwrap();
    assert_eq!(
        p.render(),
        "#EXTM3U\n\
         #EXT-X-TARGETDURATION:8\n\
         #EXTINF:9.009,\n\
         http://media.example.com/first.ts\n\
         #EXT-X-ENDLIST\n"
    );
}

#[test]
fn test_parse_render_roundtrip() {
    // a playlist using most features: rendering it and parsing the text
    // back, with the same tolerance, gives an equal playlist
    let playlist = "#EXTM3U\n\
                    #EXT-X-TARGETDURATION:10\n\
                    #EXT-X-MEDIA-SEQUENCE:3\n\
                    #EXT-X-PLAYLIST-TYPE:EVENT\n\
                    #EXT-X-INDEPENDENT-SEGMENTS\n\
                    #EXT-X-START:TIME-OFFSET=-1.5,PRECISE=YES\n\
                    #EXT-X-KEY:METHOD=AES-128,URI=\"key1\",IV=0x9c7db8778570d05c3177c349fd9236aa,KEYFORMAT=\"identity\"\n\
                    #EXT-X-MAP:URI=\"init.mp4\",BYTERANGE=\"1000@0\"\n\
                    #EXTINF:9.009,segment one\n\
                    #EXT-X-BYTERANGE:75232@0\n\
                    #EXT-X-PROGRAM-DATE-TIME:2010-02-19T14:54:23.031+08:00\n\
                    media.ts\n\
                    #EXT-X-DISCONTINUITY\n\
                    #EXT-X-KEY:METHOD=SAMPLE-AES,URI=\"key2\",KEYFORMAT=\"com.example\"\n\
                    #EXTINF:8.5,\n\
                    #EXT-X-BYTERANGE:82112\n\
                    media.ts\n\
                    #EXT-X-ENDLIST\n";
    let p: MediaPlaylist = playlist.parse().unwrap();
    let text = p.render();
    let q: MediaPlaylist = text.parse().unwrap();
    assert_eq!(p, q);
}

#[test]
fn test_unknown_tags_and_comments_ignored() {
    let playlist = "#EXTM3U\n\
                    # a comment line\n\
                    #EXT-X-TARGETDURATION:10\n\
                    #EXT-X-FUTURE-FEATURE:WHATEVER=1\n\
                    \n\
                    #EXTINF:9.0,\n\
                    seg.ts\n";
    let p: MediaPlaylist = playlist.parse().unwrap();
    assert_eq!(p.segments().len(), 1);
}

#[test]
fn test_duration_rounding_bound() {
    // 9.509 rounds to 10 seconds: fails at tolerance 1, passes at 2
    let playlist = "#EXTM3U\n\
                    #EXT-X-TARGETDURATION:8\n\
                    #EXTINF:9.509,\n\
                    seg.ts\n";
    assert!(playlist.parse::<MediaPlaylist>().is_err());
    assert!(MediaPlaylist::builder()
        .allowable_excess_duration(Duration::from_secs(1))
        .parse(playlist)
        .is_err());
    assert!(MediaPlaylist::builder()
        .allowable_excess_duration(Duration::from_secs(2))
        .parse(playlist)
        .is_ok());
    // 9.499 rounds down to 9 seconds: passes at tolerance 1
    let playlist = "#EXTM3U\n\
                    #EXT-X-TARGETDURATION:8\n\
                    #EXTINF:9.499,\n\
                    seg.ts\n";
    assert!(MediaPlaylist::builder()
        .allowable_excess_duration(Duration::from_secs(1))
        .parse(playlist)
        .is_ok());
}

#[test]
fn test_build_path_shares_validation() {
    // the construction path goes through the same gate: a missing target
    // duration is rejected
    assert!(MediaPlaylist::builder().build().is_err());
    let p = MediaPlaylist::builder()
        .target_duration_tag(hls_m3u8::tags::ExtXTargetDuration::new(
            Duration::from_secs(10),
        ))
        .build()
        .unwrap();
    assert_eq!(p.segments().len(), 0);
    assert_eq!(p.render(), "#EXTM3U\n#EXT-X-TARGETDURATION:10\n");
}
