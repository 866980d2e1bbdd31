use minha_princesa_animes::sources::animesdigital::embed::{is_video_player, stream_headers_for};
use minha_princesa_animes::sources::animesdigital::parser::{listing_page, ListAnimeResponse};
use minha_princesa_animes::sources::dooplay::blogger::{
    blogger_rpc_request, decode_double_escaped_url, decode_rpc_url, extract_blogger_token, extract_json_field,
    parse_rpc_video_urls, stream_from_rpc_response,
};
use minha_princesa_animes::sources::dooplay::embed::{
    best_listed_source, doramas_target, iframe_plan, page_stream, video_target, VideoTarget, VideoUrlField,
};
use minha_princesa_animes::sources::goyabu::embed::{
    extract_blogger_token as goyabu_token, stream_from_reply, AjaxData, AjaxResponse, PlayItem,
};
use minha_princesa_animes::sources::{SourceError, StreamKind};

const RPC: &str = r#"[["wrb.fr","WcwnYd","[[\"[\"https:\\/\\/a.googlevideo.com\\/v1.mp4\",22],[\"https:\\/\\/b.googlevideo.com\\/v2.mp4\",18]]]"]]"#;

#[test]
fn blogger_tokens_and_fields() {
    assert_eq!(extract_blogger_token("https://www.blogger.com/video.g?token=AD6v5dy&x=1").as_deref(), Some("AD6v5dy"));
    assert_eq!(extract_blogger_token("https://www.blogger.com/video.g"), None);
    let page = r#"{"FdrFJe":"-5543","cfb2h":"boq_bloggeruiserver_1"}"#;
    assert_eq!(extract_json_field(page, "FdrFJe").as_deref(), Some("-5543"));
    assert_eq!(extract_json_field(page, "cfb2h").as_deref(), Some("boq_bloggeruiserver_1"));
    assert_eq!(extract_json_field(page, "nope"), None);
}

#[test]
fn rpc_links_are_decoded_twice() {
    assert_eq!(decode_rpc_url(r"https:\\/\\/x.googlevideo.com\\/v?id\\u003d1").as_deref(), Some("https://x.googlevideo.com/v?id=1"));
    assert_eq!(decode_rpc_url("\"").as_deref(), None);
    assert_eq!(decode_double_escaped_url(r"https:\/\/x.com\/a").as_deref(), Some("https://x.com/a"));
    assert_eq!(
        parse_rpc_video_urls(RPC),
        vec!["https://a.googlevideo.com/v1.mp4".to_string(), "https://b.googlevideo.com/v2.mp4".to_string()]
    );
    assert!(parse_rpc_video_urls("nothing").is_empty());
}

#[test]
fn rpc_answers_give_a_stream() {
    assert!(matches!(stream_from_rpc_response(RPC), Err(SourceError::NoStream)));
    let with_link = format!("{RPC} https://x");
    let s = stream_from_rpc_response(&with_link).unwrap();
    assert_eq!(s.url, "https://a.googlevideo.com/v1.mp4");
    assert_eq!(s.kind, StreamKind::Mp4);
    let loose = stream_from_rpc_response(r#"see "https://c.googlevideo.com/videoplayback?id=9" now"#).unwrap();
    assert_eq!(loose.url, "https://c.googlevideo.com/videoplayback?id=9");
    assert_eq!(loose.kind, StreamKind::Mp4);
}

#[test]
fn rpc_request_is_built_from_the_page() {
    let (url, body) = blogger_rpc_request("TOK", "-55", "boq", 86_400 + 42);
    assert_eq!(
        url,
        "https://www.blogger.com/_/BloggerVideoPlayerUi/data/batchexecute?rpcids=WcwnYd&source-path=%2Fvideo.g&f.sid=-55&bl=boq&hl=en-US&_reqid=42&rt=c"
    );
    assert_eq!(
        body,
        "f.req=%5B%5B%5B%22WcwnYd%22%2C%22%5B%5C%22TOK%5C%22%2C%5C%22%5C%22%2C0%5D%22%2Cnull%2C%22generic%22%5D%5D%5D&"
    );
}

#[test]
fn player_targets() {
    assert!(matches!(video_target("https://www.blogger.com/video.g?token=x"), VideoTarget::Blogger(_)));
    assert!(matches!(video_target(" https://x/a.m3u8 "), VideoTarget::Stream(p) if p.url == "https://x/a.m3u8" && p.kind == StreamKind::Hls));
    assert!(matches!(video_target("https://x/page"), VideoTarget::NoStream));
    assert!(matches!(doramas_target(false, &VideoUrlField::Link("https://x/a.mp4".to_string())), VideoTarget::NoStream));
    let files = vec!["https://x/a.mp4".to_string(), "https://x/b.m3u8".to_string(), "https://x/c.txt".to_string()];
    assert!(matches!(doramas_target(true, &VideoUrlField::Files(files.clone())), VideoTarget::Stream(p) if p.url == "https://x/b.m3u8"));
    assert!(matches!(doramas_target(true, &VideoUrlField::Other), VideoTarget::NoStream));
    let best = best_listed_source(&files).unwrap();
    assert_eq!(best.url, "https://x/b.m3u8");
    assert!(best_listed_source(&vec!["https://x/page".to_string()]).is_none());
}

#[test]
fn iframe_plans() {
    let direct = iframe_plan(
        "https://api.anivideo.net/videohls.php?d=https%3A%2F%2Fcdn.x%2Fep.m3u8",
        "https://animesonlinecc.to/episodio/a/",
        "https://animesonlinecc.to",
    );
    let s = direct.direct.unwrap();
    assert_eq!(s.url, "https://cdn.x/ep.m3u8");
    assert_eq!(s.kind, StreamKind::Hls);
    assert_eq!(s.referer, "https://api.anivideo.net/videohls.php?d=https%3A%2F%2Fcdn.x%2Fep.m3u8");
    assert_eq!(s.origin, "https://api.anivideo.net");
    let b = iframe_plan("https://www.blogger.com/video.g?token=1", "e", "s");
    assert!(b.direct.is_none() && b.try_blogger && !b.try_doramas);
    let d = iframe_plan("https://serv01.meusdoramas.club/#/video/1/1/1/", "e", "s");
    assert!(d.try_doramas && !d.try_blogger);
    let p = page_stream(r#"<source src="https://cdn.x/v.mp4">"#, "https://m/e/1/", "https://m").unwrap();
    assert_eq!(p.referer, "https://m/e/1/");
    assert_eq!(p.origin, "https://m");
    assert!(matches!(page_stream("<p></p>", "e", "s"), Err(SourceError::NoStream)));
}

#[test]
fn goyabu_player_replies() {
    assert_eq!(goyabu_token(r#"{"blogger_token" : "tk1"}"#).unwrap(), "tk1");
    assert!(goyabu_token("none").is_err());
    let play = vec![
        PlayItem { size: Some(360), src: Some("https://g/360.mp4".to_string()) },
        PlayItem { size: Some(720), src: Some("https://g/720.mp4".to_string()) },
        PlayItem { size: None, src: Some("https://g/x.mp4".to_string()) },
    ];
    let ok = AjaxResponse { success: true, data: Some(AjaxData { message: None, play: Some(play) }) };
    let s = stream_from_reply(ok, "https://goyabu.io/71102".to_string()).unwrap();
    assert_eq!(s.url, "https://g/720.mp4");
    assert_eq!(s.kind, StreamKind::Mp4);
    assert_eq!(s.origin, "https://goyabu.io");
    let refused = AjaxResponse { success: false, data: Some(AjaxData { message: Some("bloqueado".to_string()), play: None }) };
    assert!(matches!(stream_from_reply(refused, String::new()), Err(SourceError::Parse(m)) if m == "bloqueado"));
    let silent = AjaxResponse { success: false, data: None };
    assert!(matches!(stream_from_reply(silent, String::new()), Err(SourceError::Parse(m)) if m == "Erro ao decodificar vídeo"));
    let empty = AjaxResponse { success: true, data: None };
    assert!(matches!(stream_from_reply(empty, String::new()), Err(SourceError::Parse(m)) if m == "Resposta vazia do player"));
    let no_play = AjaxResponse { success: true, data: Some(AjaxData { message: None, play: Some(vec![]) }) };
    assert!(matches!(stream_from_reply(no_play, String::new()), Err(SourceError::NoStream)));
}

#[test]
fn digital_players_and_listings() {
    assert!(is_video_player("https://api.anivideo.net/videohls.php?d=x"));
    assert!(!is_video_player("https://www.blogger.com/video.g"));
    let (r, o) = stream_headers_for("https://api.ANIVIDEO.net/p.php?d=x#frag", "https://animesdigital.org/video/a/1/");
    assert_eq!(r, "https://api.ANIVIDEO.net/p.php?d=x");
    assert_eq!(o, "https://anivideo.net");
    let (r2, o2) = stream_headers_for("https://other/p", "https://animesdigital.org/video/a/1/");
    assert_eq!(r2, "https://animesdigital.org/video/a/1/");
    assert_eq!(o2, "https://animesdigital.org");
    let resp = ListAnimeResponse {
        page: 1,
        total_page: 3,
        results: vec![
            r#"<div class="itemA"><a href="https://animesdigital.org/anime/a/x">"#.to_string(),
            r#"<span class="title_anime">X</span></a></div>"#.to_string(),
        ],
        code: None,
    };
    let p = listing_page(resp.clone(), 2, true).unwrap();
    assert_eq!(p.items.len(), 1);
    assert_eq!(p.items[0].title, "X");
    assert!(p.has_next);
    assert!(!listing_page(resp.clone(), 3, true).unwrap().has_next);
    let rejected = ListAnimeResponse { code: Some("no_verify_nonce".to_string()), ..resp };
    assert!(matches!(listing_page(rejected.clone(), 1, true), Err(SourceError::Parse(m)) if m == "Token do catálogo rejeitado"));
    assert!(listing_page(rejected, 1, false).is_ok());
}
