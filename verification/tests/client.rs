use leannet::client::ClientKind;

fn all() -> Vec<(ClientKind, &'static str)> {
    vec![
        (ClientKind::Ream, "ream"),
        (ClientKind::Zeam, "zeam"),
        (ClientKind::Qlean, "qlean"),
        (ClientKind::Lantern, "lantern"),
        (ClientKind::Lighthouse, "lighthouse"),
        (ClientKind::Grandine, "grandine"),
        (ClientKind::Ethrex, "ethrex"),
    ]
}

#[test]
fn kinds_render_to_their_canonical_text() {
    for (kind, text) in all() {
        assert_eq!(kind.to_string(), text);
        assert_eq!(kind.as_str(), text);
    }
}

#[test]
fn kinds_parse_from_their_canonical_text() {
    for (kind, text) in all() {
        assert_eq!(ClientKind::parse(text), Some(kind));
        assert_eq!(ClientKind::parse(&kind.to_string()), Some(kind));
    }
}

#[test]
fn kinds_parse_in_any_case_of_letters() {
    assert_eq!(ClientKind::parse("REAM"), Some(ClientKind::Ream));
    assert_eq!(ClientKind::parse("Zeam"), Some(ClientKind::Zeam));
    assert_eq!(ClientKind::parse("qLeAn"), Some(ClientKind::Qlean));
    assert_eq!(ClientKind::parse("LightHouse"), Some(ClientKind::Lighthouse));
    for (kind, text) in all() {
        assert_eq!(ClientKind::parse(&text.to_uppercase()), Some(kind));
    }
}

#[test]
fn unknown_text_names_no_kind() {
    assert_eq!(ClientKind::parse(""), None);
    assert_eq!(ClientKind::parse("geth"), None);
    assert_eq!(ClientKind::parse("ream "), None);
    assert_eq!(ClientKind::parse(" ream"), None);
    assert_eq!(ClientKind::parse("reams"), None);
    assert_eq!(ClientKind::parse("rea"), None);
    assert_eq!(ClientKind::parse("r\u{00e9}am"), None);
    assert_eq!(ClientKind::parse("light_house"), None);
}
