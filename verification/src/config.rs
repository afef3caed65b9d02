//! From a document to the windows it describes.
//!
//! Every element whose local name is `window`, at any depth, describes one
//! window by its attributes. The windows come out in document order. Reading stops at the
//! first place where the document is malformed: the windows before it stand,
//! and the reader's complaint is handed out with them.

use vstd::prelude::*;
use crate::document::{Event, EventView, events_view, read_events, xml_events};
use crate::settings::{InvalidFlag, InvalidFlagView, WindowSettings, WindowSettingsView, settings_of};
use crate::text::same_text;

verus! {

/// The windows of a document, and why reading ended early if it did.
#[derive(Debug, PartialEq, Eq)]
pub struct Config {
    pub windows: Vec<WindowSettings>,
    pub failure: Option<String>,
}

/// What a [`Config`] stands for.
pub struct ConfigView {
    pub windows: Seq<WindowSettingsView>,
    pub failure: Option<Seq<char>>,
}

impl View for Config {
    type V = ConfigView;

    open spec fn view(&self) -> ConfigView {
        ConfigView {
            windows: self.windows@.map_values(|w: WindowSettings| w@),
            failure: match self.failure {
                Some(reason) => Some(reason@),
                None => None,
            },
        }
    }
}

/// `c` after one more event, where reading has not ended yet.
pub open spec fn after_event(c: ConfigView, event: EventView) -> Result<ConfigView, InvalidFlagView> {
    match event {
        EventView::Failure(reason) => Ok(ConfigView { failure: Some(reason), ..c }),
        EventView::Start { name, attributes } => if name.local == "window"@ {
            match settings_of(attributes) {
                Ok(w) => Ok(ConfigView { windows: c.windows.push(w), ..c }),
                Err(e) => Err(e),
            }
        } else {
            Ok(c)
        },
        _ => Ok(c),
    }
}

/// What a sequence of events describes. Events are taken in order; a flag
/// with a bad value in a `window` element ends it with that error, and
/// nothing after a failure of the reader counts.
pub open spec fn config_of(events: Seq<EventView>) -> Result<ConfigView, InvalidFlagView>
    decreases events.len(),
{
    if events.len() == 0 {
        Ok(ConfigView { windows: Seq::empty(), failure: None })
    } else {
        match config_of(events.drop_last()) {
            Err(e) => Err(e),
            Ok(c) => if c.failure is Some {
                Ok(c)
            } else {
                after_event(c, events.last())
            },
        }
    }
}

/// Whether reading has ended within these events: by a refused flag or by a
/// failure of the reader.
pub open spec fn ended(events: Seq<EventView>) -> bool {
    match config_of(events) {
        Err(_) => true,
        Ok(c) => c.failure is Some,
    }
}

/// Once reading has ended within the first `n` events, later events change
/// nothing.
pub proof fn lemma_nothing_after_the_end(events: Seq<EventView>, n: int)
    requires
        0 <= n <= events.len(),
        ended(events.take(n)),
    ensures
        config_of(events) == config_of(events.take(n)),
    decreases events.len() - n,
{
    if n < events.len() {
        assert(events.drop_last().take(n) =~= events.take(n));
        lemma_nothing_after_the_end(events.drop_last(), n);
    } else {
        assert(events.take(n) =~= events);
    }
}

/// The windows that a sequence of events describes.
pub fn config_from_events(events: &Vec<Event>) -> (result: Result<Config, InvalidFlag>)
    ensures
        match result {
            Ok(c) => config_of(events_view(events@)) == Ok::<ConfigView, InvalidFlagView>(c@),
            Err(e) => config_of(events_view(events@)) == Err::<ConfigView, InvalidFlagView>(e@),
        },
{
    let mut config = Config { windows: Vec::new(), failure: None };
    let mut i: usize = 0;
    assert(config@.windows =~= Seq::empty());
    while i < events.len()
        invariant
            i <= events.len(),
            config.failure is None,
            config_of(events_view(events@).take(i as int)) == Ok::<ConfigView, InvalidFlagView>(
                config@,
            ),
        decreases events.len() - i,
    {
        let ghost all = events_view(events@);
        let ghost before = config@;
        proof {
            assert(all.take(i + 1).drop_last() =~= all.take(i as int));
            assert(all.take(i + 1).last() == events@[i as int]@);
        }
        match &events[i] {
            Event::Failure(reason) => {
                config.failure = Some(reason.clone());
                proof {
                    lemma_nothing_after_the_end(all, i + 1);
                }
                return Ok(config);
            },
            Event::Start { name, attributes } => {
                if same_text(name.local.as_str(), "window") {
                    match WindowSettings::from_attributes(attributes) {
                        Ok(w) => {
                            config.windows.push(w);
                            assert(config@.windows =~= before.windows.push(w@));
                        },
                        Err(e) => {
                            proof {
                                lemma_nothing_after_the_end(all, i + 1);
                            }
                            return Err(e);
                        },
                    }
                }
            },
            _ => {},
        }
        i += 1;
    }
    proof {
        let all = events_view(events@);
        assert(all.take(i as int) =~= all);
    }
    Ok(config)
}

/// The windows that an XML document describes.
pub fn read_config(document: &[u8]) -> (result: Result<Config, InvalidFlag>)
    ensures
        match result {
            Ok(c) => config_of(xml_events(document@)) == Ok::<ConfigView, InvalidFlagView>(c@),
            Err(e) => config_of(xml_events(document@)) == Err::<ConfigView, InvalidFlagView>(e@),
        },
{
    let events = read_events(document);
    config_from_events(&events)
}

} // verus!
