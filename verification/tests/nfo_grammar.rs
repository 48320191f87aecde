use movie_rust::nfo::{first_tag_value, provider_ids_from_nfo_text, strip_xml_tags, uniqueid_provider_name};

fn regex_first_tag(xml: &str, name: &str) -> Option<String> {
    let pattern = format!(r"(?is)<{}\b[^>]*>(.*?)</{}>", regex::escape(name), regex::escape(name));
    let re = regex::Regex::new(&pattern).unwrap();
    let raw = re.captures(xml)?.get(1)?.as_str().to_string();
    let stripped = regex::Regex::new(r"(?is)<[^>]+>").unwrap().replace_all(&raw, "").to_string();
    let v = stripped.trim().to_string();
    if v.is_empty() { None } else { Some(v) }
}

fn regex_provider_attr(attrs: &str) -> Option<String> {
    let re = regex::Regex::new(r#"(?i)\b(?:type|provider)\s*=\s*["']([^"']+)["']"#).unwrap();
    re.captures(attrs)?.get(1).map(|m| m.as_str().to_string())
}

const SAMPLES: &[&str] = &[
    "<movie><title>Heat</title></movie>",
    "<TITLE lang=\"en\">Heat</Title>",
    "<titlex>No</titlex><title>Yes</title>",
    "<title>first</title><title>second</title>",
    "<title>\n multi\nline </title>",
    "<title><b>bold</b> text</title>",
    "<title>unclosed",
    "<title/>after</title>",
    "<title >spaced</title >",
    "<title>a</TITLE>",
    "<tit\u{212A}le>x</title>",
    "<titleé>x</titleé><title>y</title>",
    "<title_x>no</title_x>",
    "<title\t>tab</title>",
    "<<title>>x</title>",
    "<title>   </title><title>later</title>",
    "",
    "<imdbid>tt0113277</imdbid><tmdbid> 949 </tmdbid>",
    "<uniqueid type=\"imdb\">tt1</uniqueid>",
];

#[test]
fn tag_values_agree_with_the_pattern_reading() {
    for xml in SAMPLES {
        for name in ["title", "imdbid", "tmdbid", "uniqueid", "tit"] {
            assert_eq!(first_tag_value(xml, &[name]), regex_first_tag(xml, name), "xml {xml:?} name {name}");
        }
    }
}

#[test]
fn kelvin_sign_matches_k_in_a_tag_name() {
    assert_eq!(first_tag_value("<\u{212A}ey>v</key>", &["key"]), Some("v".to_string()));
    assert_eq!(first_tag_value("<title>later</title>", &["tmdbid", "title"]), Some("later".to_string()));
}

#[test]
fn attribute_values_agree_with_the_pattern_reading() {
    let attrs = [
        " type=\"imdb\"",
        " TYPE = 'tmdb' default=\"true\"",
        " provider=\"TheTVDB\"",
        " subtype=\"imdb\" type=\"tvdb\"",
        " type=\"\" provider=\"trakt\"",
        " type=\"imdb'",
        " type=imdb",
        " default=\"true\"",
        "type=\"a\"",
        "_type=\"a\" provider='b'",
        " type\u{a0}=\u{3000}\"x\"",
        " typé=\"x\"",
        " éprovider=\"x\" type=\"y\"",
        "",
    ];
    for a in attrs {
        let expected = regex_provider_attr(a).map(|raw| raw.trim().to_ascii_lowercase());
        let got = uniqueid_provider_name(a);
        match expected.as_deref() {
            None | Some("") => assert_eq!(got, None, "attrs {a:?}"),
            Some("imdb") => assert_eq!(got.as_deref(), Some("Imdb"), "attrs {a:?}"),
            Some("tmdb") | Some("themoviedb") => assert_eq!(got.as_deref(), Some("Tmdb"), "attrs {a:?}"),
            Some("tvdb") | Some("thetvdb") => assert_eq!(got.as_deref(), Some("Tvdb"), "attrs {a:?}"),
            Some("trakt") => assert_eq!(got.as_deref(), Some("Trakt"), "attrs {a:?}"),
            Some(other) => assert_eq!(got.as_deref(), Some(other), "attrs {a:?}"),
        }
    }
}

#[test]
fn uniqueid_elements_are_read_in_order() {
    let xml = "<uniqueid type=\"tmdb\" default=\"true\">603</uniqueid>\
               <UNIQUEID type='imdb'> tt0133093 </UNIQUEID>\
               <uniqueid type=\"tmdb\">999</uniqueid>";
    let ids = provider_ids_from_nfo_text(xml);
    assert_eq!(ids.get("Tmdb").as_deref(), Some("603"));
    assert_eq!(ids.get("Imdb").as_deref(), Some("tt0133093"));
}

#[test]
fn tags_are_stripped_from_text() {
    assert_eq!(strip_xml_tags("a<b>c</b><>d"), "ac<>d");
}
