use m3u_parser::language::get_language_code;
use m3u_parser::parser::{is_remote_source, M3uParser, ParseError};

fn parsed(content: &str) -> M3uParser {
    let mut parser = M3uParser::new(None);
    assert_eq!(parser.parse_content(content, false, true), Ok(()));
    parser
}

#[test]
fn example_entry_fields() {
    let parser = parsed(
        "#EXTINF:-1 tvg-id=\"bbc\" group-title=\"News\",BBC One\nhttps://example.com/stream.m3u8",
    );
    assert_eq!(parser.streams_info.len(), 1);
    let info = &parser.streams_info[0];
    assert_eq!(info.title, "BBC One");
    assert_eq!(info.tvg.id, "bbc");
    assert_eq!(info.tvg.name, "");
    assert_eq!(info.category, "News");
    assert_eq!(info.url, "https://example.com/stream.m3u8");
    assert_eq!(info.status, "BAD");
    assert_eq!(info.logo, "");
    assert_eq!(info.country.code, "");
    assert_eq!(info.language.code, "");
}

#[test]
fn stream_reference_at_first_line_wins() {
    let parser = parsed(
        "#EXTM3U\n#EXTINF:-1,Sports\nacestream://abc123\nhttps://example.com/other.m3u8",
    );
    assert_eq!(parser.streams_info.len(), 1);
    assert_eq!(parser.streams_info[0].url, "acestream://abc123");
    assert_eq!(parser.streams_info[0].status, "GOOD");
    assert_eq!(parser.streams_info[0].title, "Sports");
}

#[test]
fn url_on_second_line_is_adopted() {
    let parser = parsed("#EXTINF:-1,Movies\nnot a reference\nhttp://example.org/live.ts");
    assert_eq!(parser.streams_info.len(), 1);
    assert_eq!(parser.streams_info[0].url, "http://example.org/live.ts");
    assert_eq!(parser.streams_info[0].status, "BAD");
}

#[test]
fn local_file_path_is_good() {
    let parser = parsed("#EXTINF:-1,Film\n/media/movies/film.mkv");
    assert_eq!(parser.streams_info.len(), 1);
    assert_eq!(parser.streams_info[0].url, "/media/movies/film.mkv");
    assert_eq!(parser.streams_info[0].status, "GOOD");
}

#[test]
fn no_reference_yields_no_record() {
    let parser = parsed("#EXTINF:-1,One\nnothing here\nnor here\n#EXTINF:-1,Two");
    assert_eq!(parser.streams_info.len(), 0);
}

#[test]
fn metadata_line_at_end_is_bounds_checked() {
    let parser = parsed("#EXTINF:-1,Only");
    assert_eq!(parser.streams_info.len(), 0);
}

#[test]
fn records_keep_document_order() {
    let parser = parsed(
        "#EXTM3U\n#EXTINF:-1,First\nhttp://a.example/1\n#EXTINF:-1,Second\nhttp://b.example/2\n#EXTINF:-1,Third\nacestream://x9",
    );
    let titles: Vec<&str> = parser.streams_info.iter().map(|i| i.title.as_str()).collect();
    assert_eq!(titles, vec!["First", "Second", "Third"]);
}

#[test]
fn blank_lines_and_whitespace_are_dropped() {
    let parser = parsed("\r\n   #EXTINF:-1 tvg-name=\" Spaced \" ,  Padded Title  \r\n\n\t http://example.com/x.m3u8 \r\n\n");
    assert_eq!(parser.streams_info.len(), 1);
    assert_eq!(parser.streams_info[0].title, "Padded Title");
    assert_eq!(parser.streams_info[0].tvg.name, "Spaced");
    assert_eq!(parser.streams_info[0].url, "http://example.com/x.m3u8");
}

#[test]
fn empty_document_is_refused() {
    let mut parser = M3uParser::new(None);
    assert_eq!(parser.parse_content(" \n\r\n\t", false, true), Err(ParseError::NoContent));
    assert_eq!(parser.streams_info.len(), 0);
}

#[test]
fn comma_inside_quoted_value_is_not_the_title() {
    let parser = parsed("#EXTINF:-1 tvg-name=\"A, B\" group-title=\"X,Y\",Real Title\nhttp://example.com/s");
    assert_eq!(parser.streams_info[0].title, "Real Title");
    assert_eq!(parser.streams_info[0].tvg.name, "A, B");
    assert_eq!(parser.streams_info[0].category, "X,Y");
}

#[test]
fn title_missing_when_line_ends_in_quote() {
    let parser = parsed("#EXTINF:-1 tvg-id=\"a,b\"\nhttp://example.com/s");
    assert_eq!(parser.streams_info[0].title, "");
}

#[test]
fn all_attributes_are_read() {
    let parser = parsed(
        "#EXTINF:-1 tvg-id=\"id1\" tvg-name=\"Name\" tvg-url=\"http://guide\" tvg-logo=\"http://logo.png\" tvg-country=\"US\" tvg-language=\"English\" group-title=\"Cat\",Title\nhttp://example.com/s",
    );
    let info = &parser.streams_info[0];
    assert_eq!(info.tvg.id, "id1");
    assert_eq!(info.tvg.name, "Name");
    assert_eq!(info.tvg.url, "http://guide");
    assert_eq!(info.logo, "http://logo.png");
    assert_eq!(info.country.code, "US");
    assert_eq!(info.country.name, "The United States Of America");
    assert_eq!(info.language.name, "English");
    assert_eq!(info.language.code, "EN");
    assert_eq!(info.category, "Cat");
}

#[test]
fn unknown_country_and_language_keep_raw_tokens() {
    let parser = parsed("#EXTINF:-1 tvg-country=\"ZZ\" tvg-language=\"Klingon\",T\nhttp://example.com/s");
    let info = &parser.streams_info[0];
    assert_eq!(info.country.code, "ZZ");
    assert_eq!(info.country.name, "");
    assert_eq!(info.language.name, "Klingon");
    assert_eq!(info.language.code, "");
}

#[test]
fn language_lookup_is_case_insensitive() {
    let parser = parsed("#EXTINF:-1 tvg-language=\"FRENCH\",T\nhttp://example.com/s");
    assert_eq!(parser.streams_info[0].language.code, "FR");
    assert_eq!(parser.streams_info[0].language.name, "FRENCH");
}

#[test]
fn language_table_lookups() {
    assert_eq!(get_language_code("english"), "EN");
    assert_eq!(get_language_code("zulu"), "ZU");
    assert_eq!(get_language_code("norwegian bokmål"), "NB");
    assert_eq!(get_language_code("English"), "");
    assert_eq!(get_language_code(""), "");
}

#[test]
fn remote_sources_are_urls() {
    assert!(is_remote_source("https://iptv-org.github.io/iptv/index.country.m3u"));
    assert!(!is_remote_source("playlists/local.m3u"));
}

#[test]
fn at_most_one_record_per_metadata_line() {
    let parser = parsed(
        "#EXTM3U\n#EXTINF:-1,A\nhttp://a.example/1\n#EXTINF:-1,B\n#EXTINF:-1,C\nhttp://c.example/3\nhttp://x.example/4",
    );
    assert_eq!(parser.streams_info.len(), 3);
    assert!(parser.streams_info.iter().all(|i| !i.url.is_empty()));
    assert_eq!(parser.streams_info[1].title, "B");
    assert_eq!(parser.streams_info[1].url, "http://c.example/3");
}
