use feedy::db::Database;
use feedy::opml::{export_opml, import_opml, opml_document, Outline};
use quick_xml::events::{BytesEnd, BytesStart, Event};
use quick_xml::reader::Reader;
use quick_xml::writer::Writer;
use quick_xml::XmlVersion;

/// The outlines of an OPML text, read with quick-xml's reader.
fn read_outlines(xml: &str) -> Vec<Outline> {
    let mut reader = Reader::from_str(xml);
    let mut out = Vec::new();
    loop {
        match reader.read_event().expect("xml") {
            Event::Eof => break,
            Event::Start(e) | Event::Empty(e) if e.name().as_ref() == "outline" => {
                let mut o = Outline { text: None, title: None, xml_url: None, html_url: None };
                for a in e.attributes() {
                    let a = a.expect("attribute");
                    let v = a.normalized_value(XmlVersion::Implicit1_0).expect("value").to_string();
                    match a.key.as_ref() {
                        "text" => o.text = Some(v),
                        "title" => o.title = Some(v),
                        "xmlUrl" => o.xml_url = Some(v),
                        "htmlUrl" => o.html_url = Some(v),
                        _ => {}
                    }
                }
                out.push(o);
            }
            _ => {}
        }
    }
    out
}

/// The serialized body of outlines, as the serializer writes it inside `<Opml>`.
fn write_body(outlines: &[Outline]) -> String {
    let mut w = Writer::new(Vec::new());
    w.write_event(Event::Start(BytesStart::new("Opml"))).unwrap();
    w.write_event(Event::Start(BytesStart::new("body"))).unwrap();
    for o in outlines {
        let mut e = BytesStart::new("outline");
        if let Some(t) = &o.text {
            e.push_attribute(("text", t.as_str()));
        }
        if let Some(t) = &o.title {
            e.push_attribute(("title", t.as_str()));
        }
        if let Some(u) = &o.xml_url {
            e.push_attribute(("xmlUrl", u.as_str()));
        }
        if let Some(u) = &o.html_url {
            e.push_attribute(("htmlUrl", u.as_str()));
        }
        w.write_event(Event::Empty(e)).unwrap();
    }
    w.write_event(Event::End(BytesEnd::new("body"))).unwrap();
    w.write_event(Event::End(BytesEnd::new("Opml"))).unwrap();
    String::from_utf8(w.into_inner()).unwrap()
}

#[test]
fn import_export_roundtrip() {
    let mut db = Database::new();

    let input = r#"<?xml version="1.0" encoding="UTF-8"?>
<opml version="2.0">
  <body>
    <outline text="Example" xmlUrl="https://example.com/feed.xml" htmlUrl="https://example.com" />
  </body>
</opml>"#;
    let imported = import_opml(&mut db, &read_outlines(input)).expect("import");
    assert_eq!(imported, 1);

    let outlines = export_opml(&db).expect("export");
    let out = opml_document(&write_body(&outlines));
    assert!(out.contains("https://example.com/feed.xml"));
}

#[test]
fn import_skips_outlines_without_valid_url() {
    let mut db = Database::new();
    let outlines = vec![
        Outline { text: Some("folder".to_string()), title: None, xml_url: None, html_url: None },
        Outline { text: None, title: None, xml_url: Some("ftp://x.example/feed".to_string()), html_url: None },
        Outline { text: Some("T".to_string()), title: Some("Title".to_string()), xml_url: Some("https://a.example/f".to_string()), html_url: None },
        Outline { text: None, title: None, xml_url: Some("https://b.example/f".to_string()), html_url: Some("https://b.example".to_string()) },
    ];
    assert_eq!(import_opml(&mut db, &outlines).unwrap(), 2);
    let feeds = db.all_feeds().unwrap();
    assert_eq!(feeds.len(), 2);
    assert_eq!(feeds[0].title, "Title");
    assert_eq!(feeds[1].title, "https://b.example/f");
    assert_eq!(feeds[1].site_url.as_deref(), Some("https://b.example"));
}

#[test]
fn export_outline_fields() {
    let mut db = Database::new();
    db.upsert_feed("Blog", Some("https://blog.example"), "https://blog.example/rss").unwrap();
    let os = export_opml(&db).unwrap();
    assert_eq!(os.len(), 1);
    assert_eq!(os[0].text.as_deref(), Some("Blog"));
    assert_eq!(os[0].title.as_deref(), Some("Blog"));
    assert_eq!(os[0].xml_url.as_deref(), Some("https://blog.example/rss"));
    assert_eq!(os[0].html_url.as_deref(), Some("https://blog.example"));
}

#[test]
fn opml_document_frames_the_body() {
    assert_eq!(
        opml_document("<Opml><body/></Opml>"),
        "<?xml version=\"1.0\" encoding=\"UTF-8\"?>\n<opml version=\"2.0\">\n<body/>\n</opml>\n"
    );
}
