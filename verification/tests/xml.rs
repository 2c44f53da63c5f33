use rusk::xml::{read_events, XmlEvent};

#[test]
fn events_of_a_small_document() {
    let events = read_events("<a k=\"v\"> hi &amp; bye <b/></a>");
    assert_eq!(events.len(), 4);
    assert!(matches!(&events[0], XmlEvent::Start(t) if t.name == "a"
        && t.attributes == vec![("k".to_string(), "v".to_string())]));
    assert!(matches!(&events[1], XmlEvent::Text(t) if t == "hi & bye"));
    assert!(matches!(&events[2], XmlEvent::Empty(t) if t.name == "b" && t.attributes.is_empty()));
    assert!(matches!(&events[3], XmlEvent::End(n) if n == "a"));
}

#[test]
fn events_stop_at_the_first_error() {
    let events = read_events("<a><!-- c --></b><d/>");
    assert_eq!(events.len(), 2);
    assert!(matches!(&events[1], XmlEvent::Other));
}
