use window_harness::document::{Attribute, Event, Name};
use window_harness::outline::{outline, read_outline};

fn start(name: &str) -> Event {
    Event::Start { name: Name::local(name), attributes: vec![] }
}

fn end(name: &str) -> Event {
    Event::End { name: Name::local(name) }
}

#[test]
fn the_outline_follows_the_nesting() {
    let lines = read_outline(b"<a><b>  hi  </b><c/></a>");
    assert_eq!(lines, vec!["+a", "    +b", "        |hi|", "    -b", "    +c", "    -c", "-a"]);
}

#[test]
fn white_space_between_elements_gives_no_line() {
    let lines = read_outline(b"<?xml version=\"1.0\"?>\n<!-- c -->\n<a>\n  <b/>\n</a>\n");
    assert_eq!(lines, vec!["+a", "    +b", "    -b", "-a"]);
}

#[test]
fn a_name_is_written_with_namespace_and_prefix() {
    let lines = read_outline(b"<x:a xmlns:x=\"urn:q\"><b xmlns=\"urn:d\"/></x:a>");
    assert_eq!(lines, vec!["+{urn:q}x:a", "    +{urn:d}b", "    -{urn:d}b", "-{urn:q}x:a"]);
}

#[test]
fn the_label_of_a_name() {
    assert_eq!(Name::local("rect").label(), "rect");
    let prefixed = Name { local: "rect".to_string(), prefix: Some("svg".to_string()), namespace: None };
    assert_eq!(prefixed.label(), "svg:rect");
    let spaced = Name { local: "rect".to_string(), prefix: None, namespace: Some("urn:s".to_string()) };
    assert_eq!(spaced.label(), "{urn:s}rect");
    let both = Name {
        local: "rect".to_string(),
        prefix: Some("svg".to_string()),
        namespace: Some("urn:s".to_string()),
    };
    assert_eq!(both.label(), "{urn:s}svg:rect");
}

#[test]
fn the_outline_ends_at_a_failure() {
    let events = vec![
        start("a"),
        Event::Text(" t ".to_string()),
        Event::Failure("2:1 Unexpected EOF".to_string()),
        start("b"),
        end("b"),
    ];
    assert_eq!(outline(&events), vec!["+a", "    |t|"]);
    let lines = read_outline(b"<a><b></a>");
    assert_eq!(lines, vec!["+a", "    +b"]);
}

#[test]
fn an_end_without_a_start_stays_at_the_margin() {
    let events = vec![end("a"), start("b"), end("b"), end("c"), Event::Text("x".to_string())];
    assert_eq!(outline(&events), vec!["-a", "+b", "-b", "-c", "|x|"]);
}

#[test]
fn attributes_and_other_events_give_no_line() {
    let events = vec![
        Event::Other,
        Event::Start {
            name: Name::local("window"),
            attributes: vec![Attribute { name: "title".to_string(), value: "t".to_string() }],
        },
        Event::Other,
        end("window"),
    ];
    assert_eq!(outline(&events), vec!["+window", "-window"]);
    assert_eq!(outline(&vec![]), Vec::<String>::new());
}
