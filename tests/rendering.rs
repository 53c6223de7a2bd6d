use m3u_parser::parser::M3uParser;

#[test]
fn empty_set_renders_nothing() {
    let parser = M3uParser::new(None);
    assert_eq!(parser.get_m3u_content(), "");
}

#[test]
fn playlist_text_has_fixed_attribute_order() {
    let mut parser = M3uParser::new(None);
    let doc = "#EXTINF:-1 group-title=\"News\" tvg-language=\"English\" tvg-country=\"GB\" tvg-logo=\"http://l.png\" tvg-url=\"http://g\" tvg-name=\"BBC\" tvg-id=\"bbc\",BBC One\nhttp://example.com/bbc.m3u8\n#EXTINF:-1\nacestream://abc";
    assert_eq!(parser.parse_content(doc, false, true), Ok(()));
    assert_eq!(
        parser.get_m3u_content(),
        "#EXTM3U\n#EXTINF:-1 tvg-id=\"bbc\" tvg-name=\"BBC\" tvg-url=\"http://g\" tvg-logo=\"http://l.png\" tvg-country=\"GB\" tvg-language=\"English\" group-title=\"News\",BBC One\nhttp://example.com/bbc.m3u8\n#EXTINF:-1\nacestream://abc"
    );
}

#[test]
fn round_trip_keeps_fields() {
    let mut parser = M3uParser::new(None);
    let doc = "#EXTM3U\n#EXTINF:-1 tvg-id=\"a1\" tvg-name=\"Alpha\" tvg-logo=\"http://logo/a.png\" tvg-country=\"FR\" tvg-language=\"French\" group-title=\"Films\",Alpha TV\nhttp://example.com/a.m3u8\n#EXTINF:-1 group-title=\"Misc\",Beta\n/data/beta.mkv\n#EXTINF:-1,Gamma\nacestream://g4mma";
    assert_eq!(parser.parse_content(doc, false, true), Ok(()));
    let first = parser.get_vector();
    let text = parser.get_m3u_content();
    let mut again = M3uParser::new(None);
    assert_eq!(again.parse_content(&text, false, true), Ok(()));
    let second = again.get_vector();
    assert_eq!(first.len(), second.len());
    for (a, b) in first.iter().zip(second.iter()) {
        assert_eq!(a.title, b.title);
        assert_eq!(a.category, b.category);
        assert_eq!(a.tvg.id, b.tvg.id);
        assert_eq!(a.tvg.name, b.tvg.name);
        assert_eq!(a.tvg.url, b.tvg.url);
        assert_eq!(a.logo, b.logo);
        assert_eq!(a.country.code, b.country.code);
        assert_eq!(a.country.name, b.country.name);
        assert_eq!(a.language.name, b.language.name);
        assert_eq!(a.language.code, b.language.code);
        assert_eq!(a.url, b.url);
    }
    assert_eq!(second[0].country.name, "France");
    assert_eq!(second[0].language.code, "FR");
}
