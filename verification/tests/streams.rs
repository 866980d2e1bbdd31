use minha_princesa_animes::sources::stream::{extract_m3u8_from_query, parse_stream_from_html};
use minha_princesa_animes::sources::StreamKind;
use minha_princesa_animes::sushi::embed::parse_stream_from_embed;

#[test]
fn prefers_m3u8_over_mp4() {
    let html = r#"
            file: "https://cdn.example.com/video.mp4"
            <source src="https://cdn.example.com/master.m3u8">
        "#;
    let info = parse_stream_from_html(html).unwrap();
    assert!(info.url.contains(".m3u8"));
    assert_eq!(info.kind, StreamKind::Hls);
}

#[test]
fn extract_m3u8_param() {
    let url = "https://api.anivideo.net/videohls.php?d=https://cdn.example.com/stream/index.m3u8";
    let extracted = extract_m3u8_from_query(url).unwrap();
    assert!(extracted.contains(".m3u8"));
}

#[test]
fn prefers_direct_mp4_over_m3u8() {
    let html = r#"
            file: "https://cdn.example.com/video.mp4"
            <source src="https://cdn.example.com/master.m3u8">
        "#;
    let info = parse_stream_from_embed(html).unwrap();
    assert!(info.url.contains(".mp4"));
    assert_eq!(info.kind, StreamKind::Mp4);
}

#[test]
fn ignores_jwplayer_notice_txt() {
    let html = r#"
            https://ssl.p.jwpcdn.com/player/v/8.23.1/notice.txt
            file: "https://cdn.example.com/ep/master.m3u8"
        "#;
    let info = parse_stream_from_embed(html).unwrap();
    assert!(info.url.contains("master.m3u8"));
}

#[test]
fn txt_playlist_is_hls() {
    let html = r#"<source src="https://cdn.example.com/playlist.txt">"#;
    let info = parse_stream_from_embed(html).unwrap();
    assert_eq!(info.kind, StreamKind::Hls);
}

#[test]
fn embed_parser_finds_m3u8() {
    let html = r#"<source src="https://cdn.example.com/master.m3u8">"#;
    let info = parse_stream_from_embed(html).unwrap();
    assert!(info.url.contains(".m3u8"));
}
