use m3u_parser::parser::{ExportError, ExportFormat, M3uParser};
use m3u_parser::query::{get_key_value, resolve, Field, QueryError};

const DOC: &str = "#EXTM3U
#EXTINF:-1 tvg-id=\"n1\" group-title=\"News\",World News
http://example.com/news.m3u8
#EXTINF:-1 tvg-id=\"s1\" group-title=\"Sports\",Match Day
http://example.com/sport.ts
#EXTINF:-1 tvg-id=\"m1\" group-title=\"Movies\",Cinema
acestream://cinema42
#EXTINF:-1 tvg-id=\"n2\" group-title=\"News\",Local News
/srv/video/local.mp4";

fn parsed() -> M3uParser {
    let mut parser = M3uParser::new(None);
    assert_eq!(parser.parse_content(DOC, false, true), Ok(()));
    parser
}

fn titles(parser: &M3uParser) -> Vec<String> {
    parser.streams_info.iter().map(|i| i.title.clone()).collect()
}

#[test]
fn filter_removes_matches() {
    let mut parser = parsed();
    assert_eq!(parser.filter_by("title", vec!["News"], "_", false, false), Ok(()));
    assert_eq!(titles(&parser), vec!["Match Day", "Cinema"]);
}

#[test]
fn filter_retains_any_match() {
    let mut parser = parsed();
    assert_eq!(parser.filter_by("category", vec!["^Sports$", "Movies"], "_", true, false), Ok(()));
    assert_eq!(titles(&parser), vec!["Match Day", "Cinema"]);
}

#[test]
fn refiltering_never_restores_and_reset_does() {
    let mut parser = parsed();
    let before = titles(&parser);
    assert_eq!(parser.filter_by("title", vec!["News"], "_", false, false), Ok(()));
    assert_eq!(parser.filter_by("title", vec!["xyz"], "_", false, false), Ok(()));
    assert_eq!(titles(&parser), vec!["Match Day", "Cinema"]);
    assert_eq!(parser.filter_by("title", vec!["."], "_", true, false), Ok(()));
    assert_eq!(titles(&parser), vec!["Match Day", "Cinema"]);
    parser.reset_operations();
    assert_eq!(titles(&parser), before);
}

#[test]
fn nested_keys_resolve() {
    let mut parser = parsed();
    assert_eq!(parser.filter_by("tvg.id", vec!["^n"], ".", true, true), Ok(()));
    assert_eq!(titles(&parser), vec!["World News", "Local News"]);
    parser.reset_operations();
    assert_eq!(parser.filter_by("tvg-id", vec!["^n"], "-", true, true), Ok(()));
    assert_eq!(titles(&parser), vec!["World News", "Local News"]);
}

#[test]
fn query_errors_leave_records_unchanged() {
    let mut parser = parsed();
    let before = titles(&parser);
    assert_eq!(parser.filter_by("name", vec!["x"], "_", true, false), Err(QueryError::UnknownKey));
    assert_eq!(parser.filter_by("tvg", vec!["x"], "_", true, false), Err(QueryError::UnknownKey));
    assert_eq!(parser.filter_by("tvg.code", vec!["x"], ".", true, true), Err(QueryError::UnknownKey));
    assert_eq!(parser.filter_by("tvg.id.x", vec!["x"], ".", true, true), Err(QueryError::KeyFormat));
    assert_eq!(parser.filter_by("title", vec!["x"], ".", true, true), Err(QueryError::KeyFormat));
    assert_eq!(parser.filter_by("title", vec![], "_", true, false), Err(QueryError::NoPatterns));
    assert_eq!(parser.filter_by("title", vec!["("], "_", true, false), Err(QueryError::BadPattern));
    assert_eq!(parser.sort_by("nope", "_", true, false), Err(QueryError::UnknownKey));
    assert_eq!(titles(&parser), before);
}

#[test]
fn sort_up_then_down_reverses() {
    let mut parser = parsed();
    assert_eq!(parser.sort_by("title", "_", true, false), Ok(()));
    let up = titles(&parser);
    assert_eq!(up, vec!["Cinema", "Local News", "Match Day", "World News"]);
    assert_eq!(parser.sort_by("title", "_", false, false), Ok(()));
    let mut down = titles(&parser);
    down.reverse();
    assert_eq!(down, up);
}

#[test]
fn sort_is_stable_on_ties() {
    let mut parser = parsed();
    assert_eq!(parser.sort_by("category", "_", true, false), Ok(()));
    assert_eq!(titles(&parser), vec!["Cinema", "World News", "Local News", "Match Day"]);
    assert_eq!(parser.sort_by("category", "_", false, false), Ok(()));
    assert_eq!(titles(&parser), vec!["Match Day", "World News", "Local News", "Cinema"]);
}

#[test]
fn sort_by_status() {
    let mut parser = parsed();
    assert_eq!(parser.sort_by("status", "_", true, false), Ok(()));
    let statuses: Vec<String> = parser.streams_info.iter().map(|i| i.status.clone()).collect();
    assert_eq!(statuses, vec!["BAD", "BAD", "GOOD", "GOOD"]);
    assert_eq!(titles(&parser), vec!["World News", "Match Day", "Cinema", "Local News"]);
}

#[test]
fn queries_tolerate_empty_set() {
    let mut parser = M3uParser::new(None);
    assert_eq!(parser.sort_by("title", "_", true, false), Ok(()));
    assert_eq!(parser.filter_by("title", vec!["a"], "_", true, false), Ok(()));
    assert_eq!(parser.streams_info.len(), 0);
}

#[test]
fn extension_and_category_helpers() {
    let mut parser = parsed();
    assert_eq!(parser.remove_by_extension(vec!["m3u8", "mp4"]), Ok(()));
    assert_eq!(titles(&parser), vec!["Match Day", "Cinema"]);
    parser.reset_operations();
    assert_eq!(parser.retrieve_by_extension(vec!["ts$"]), Ok(()));
    assert_eq!(titles(&parser), vec!["Match Day"]);
    parser.reset_operations();
    assert_eq!(parser.remove_by_category(vec!["News"]), Ok(()));
    assert_eq!(titles(&parser), vec!["Match Day", "Cinema"]);
    parser.reset_operations();
    assert_eq!(parser.retrieve_by_category(vec!["News"]), Ok(()));
    assert_eq!(titles(&parser), vec!["World News", "Local News"]);
}

#[test]
fn random_stream_on_empty_set_is_none() {
    let mut parser = M3uParser::new(None);
    assert!(parser.get_random_stream(true).is_none());
    assert!(parser.get_random_stream(false).is_none());
}

#[test]
fn random_stream_comes_from_the_set() {
    let mut parser = parsed();
    let all = titles(&parser);
    let picked = parser.get_random_stream(true).map(|i| i.title.clone());
    assert!(all.contains(&picked.unwrap()));
    let mut after = titles(&parser);
    let mut sorted = all.clone();
    after.sort();
    sorted.sort();
    assert_eq!(after, sorted);
    let picked = parser.get_random_stream(false).map(|i| i.title.clone());
    assert!(all.contains(&picked.unwrap()));
}

#[test]
fn vector_copies_live_records() {
    let mut parser = parsed();
    assert_eq!(parser.filter_by("title", vec!["News"], "_", true, false), Ok(()));
    let v = parser.get_vector();
    assert_eq!(v.len(), 2);
    assert_eq!(v[0].title, "World News");
}

#[test]
fn probes_are_skipped_when_disabled() {
    let mut parser = parsed();
    assert!(parser.probe_targets().is_empty());
    parser.record_probe(0, true);
    assert_eq!(parser.streams_info[0].status, "BAD");
}

#[test]
fn probes_promote_bad_records() {
    let mut parser = M3uParser::new(None);
    assert_eq!(parser.parse_content(DOC, true, true), Ok(()));
    assert_eq!(parser.probe_targets(), vec![0, 1]);
    parser.record_probe(0, false);
    assert_eq!(parser.streams_info[0].status, "BAD");
    parser.record_probe(1, true);
    assert_eq!(parser.streams_info[1].status, "GOOD");
    assert_eq!(parser.probe_targets(), vec![0]);
    assert_eq!(parser.filter_by("title", vec!["Match"], "_", false, false), Ok(()));
    parser.reset_operations();
    assert_eq!(parser.streams_info[1].status, "GOOD");
}

#[test]
fn export_plans() {
    let parser = parsed();
    assert_eq!(parser.export_plan("out.m3u", "json"), Ok(("out.m3u".to_string(), ExportFormat::M3u)));
    assert_eq!(parser.export_plan("out", "json"), Ok(("out.json".to_string(), ExportFormat::Json)));
    assert_eq!(parser.export_plan("OUT.JSON", "m3u"), Err(ExportError::UnrecognisedFormat));
    assert_eq!(parser.export_plan("list.txt", "m3u"), Err(ExportError::UnrecognisedFormat));
    assert_eq!(parser.export_plan("hello", "m3u"), Ok(("hello.m3u".to_string(), ExportFormat::M3u)));
    let empty = M3uParser::new(None);
    assert_eq!(empty.export_plan("out.m3u", "m3u"), Err(ExportError::NoStreams));
}

#[test]
fn key_paths_name_fields() {
    assert_eq!(resolve("tvg.id", ".", true), Ok(Field::TvgId));
    assert_eq!(resolve("language|code", "|", true), Ok(Field::LanguageCode));
    assert_eq!(resolve("country.name", ".", true), Ok(Field::CountryName));
    assert_eq!(resolve("title", "", false), Ok(Field::Title));
    assert_eq!(resolve("title.", ".", true), Ok(Field::Title));
    assert_eq!(resolve("title.id", ".", true), Err(QueryError::UnknownKey));
    assert_eq!(resolve("tvg.id", "", true), Err(QueryError::KeyFormat));
    let parser = parsed();
    assert_eq!(get_key_value(&parser.streams_info[1], Field::TvgId), "s1");
    assert_eq!(get_key_value(&parser.streams_info[2], Field::Status), "GOOD");
}
