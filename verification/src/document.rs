//! The events of an XML document, as plain values.

use vstd::prelude::*;
use vstd::string::*;
use xml::name::OwnedName;
use xml::reader::XmlEvent;

verus! {

/// The name of an element.
#[derive(Debug, PartialEq, Eq)]
pub struct Name {
    /// The name without its prefix: `rect` in `svg:rect`.
    pub local: String,
    /// The prefix: `svg` in `svg:rect`.
    pub prefix: Option<String>,
    /// The namespace that the prefix, or the lack of one, stands for.
    pub namespace: Option<String>,
}

/// What a [`Name`] stands for.
pub struct NameView {
    pub local: Seq<char>,
    pub prefix: Option<Seq<char>>,
    pub namespace: Option<Seq<char>>,
}

impl View for Name {
    type V = NameView;

    open spec fn view(&self) -> NameView {
        NameView {
            local: self.local@,
            prefix: match self.prefix {
                Some(p) => Some(p@),
                None => None,
            },
            namespace: match self.namespace {
                Some(n) => Some(n@),
                None => None,
            },
        }
    }
}

/// A name written out: the namespace in braces if there is one, the prefix
/// and a colon if there is one, then the local name.
pub open spec fn label_of(name: NameView) -> Seq<char> {
    let namespace = match name.namespace {
        Some(n) => seq!['{'] + n + seq!['}'],
        None => Seq::empty(),
    };
    let prefix = match name.prefix {
        Some(p) => p + seq![':'],
        None => Seq::empty(),
    };
    namespace + prefix + name.local
}

impl Name {
    /// A name without prefix and namespace.
    pub fn local(local: &str) -> (name: Name)
        ensures
            name@ == (NameView { local: local@, prefix: None, namespace: None }),
    {
        Name { local: local.to_owned(), prefix: None, namespace: None }
    }

    /// The name written out.
    pub fn label(&self) -> (label: String)
        ensures
            label@ == label_of(self@),
    {
        let mut label = String::new();
        proof {
            reveal_strlit("{");
            reveal_strlit("}");
            reveal_strlit(":");
        }
        if let Some(namespace) = &self.namespace {
            label.append("{");
            label.append(namespace.as_str());
            label.append("}");
        }
        if let Some(prefix) = &self.prefix {
            label.append(prefix.as_str());
            label.append(":");
        }
        label.append(self.local.as_str());
        assert(label@ =~= label_of(self@));
        label
    }
}

/// One attribute of an element: its local name and its value.
#[derive(Debug, PartialEq, Eq)]
pub struct Attribute {
    pub name: String,
    pub value: String,
}

/// What an [`Attribute`] stands for.
pub struct AttributeView {
    pub name: Seq<char>,
    pub value: Seq<char>,
}

impl View for Attribute {
    type V = AttributeView;

    open spec fn view(&self) -> AttributeView {
        AttributeView { name: self.name@, value: self.value@ }
    }
}

/// One step of reading a document.
#[derive(Debug, PartialEq, Eq)]
pub enum Event {
    /// An element opens.
    Start { name: Name, attributes: Vec<Attribute> },
    /// An element closes.
    End { name: Name },
    /// Character data between tags.
    Text(String),
    /// Anything else that is well formed: the declaration, a comment, a
    /// processing instruction, a CDATA section, white space between tags, the
    /// end of the document.
    Other,
    /// The document is malformed here. The text says where and why.
    Failure(String),
}

/// What an [`Event`] stands for.
pub enum EventView {
    Start { name: NameView, attributes: Seq<AttributeView> },
    End { name: NameView },
    Text(Seq<char>),
    Other,
    Failure(Seq<char>),
}

/// The attributes of a list, each by its view.
pub open spec fn attributes_view(attributes: Seq<Attribute>) -> Seq<AttributeView> {
    attributes.map_values(|a: Attribute| a@)
}

impl View for Event {
    type V = EventView;

    open spec fn view(&self) -> EventView {
        match *self {
            Event::Start { name, attributes } => EventView::Start {
                name: name@,
                attributes: attributes_view(attributes@),
            },
            Event::End { name } => EventView::End { name: name@ },
            Event::Text(text) => EventView::Text(text@),
            Event::Other => EventView::Other,
            Event::Failure(reason) => EventView::Failure(reason@),
        }
    }
}

/// The events of a list, each by its view.
pub open spec fn events_view(events: Seq<Event>) -> Seq<EventView> {
    events.map_values(|e: Event| e@)
}

/// The events that the XML reader yields for a document, in order, up to and
/// including the end of the document or the first failure.
pub uninterp spec fn xml_events(document: Seq<u8>) -> Seq<EventView>;

/// Runs `xml::EventReader` over the whole document and hands out each event as
/// a plain value. Nothing is proved of the reader: the contract only names what
/// it yields, which depends on the bytes alone.
#[verifier::external_body]
pub(crate) fn read_events(document: &[u8]) -> (events: Vec<Event>)
    ensures
        events_view(events@) == xml_events(document@),
{
    let name = |n: OwnedName| Name { local: n.local_name, prefix: n.prefix, namespace: n.namespace };
    xml::EventReader::new(document).into_iter().map(|event| match event {
        Ok(XmlEvent::StartElement { name: n, attributes, .. }) => Event::Start {
            name: name(n),
            attributes: attributes.into_iter().map(|a| Attribute { name: a.name.local_name, value: a.value }).collect(),
        },
        Ok(XmlEvent::EndElement { name: n }) => Event::End { name: name(n) },
        Ok(XmlEvent::Characters(text)) => Event::Text(text),
        Ok(_) => Event::Other,
        Err(error) => Event::Failure(error.to_string()),
    }).collect()
}

} // verus!
