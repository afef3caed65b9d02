//! The settings of one window, as the attributes of a `window` element give them.
//!
//! A setting that no attribute names is absent (`None`): whoever opens the
//! window keeps the windowing system's default for it.

use vstd::prelude::*;
use crate::document::{Attribute, AttributeView, attributes_view};
use crate::text::same_text;

verus! {

/// A setting of a window that is either on or off.
#[derive(Clone, Copy, Debug, PartialEq, Eq, Structural)]
pub enum Flag {
    Resizable,
    Maximized,
    Visible,
    Transparent,
    Decorations,
    AlwaysOnTop,
}

/// An on/off attribute whose value is neither `true` nor `false`.
#[derive(Debug, PartialEq, Eq)]
pub struct InvalidFlag {
    pub flag: Flag,
    pub value: String,
}

/// What an [`InvalidFlag`] stands for.
pub struct InvalidFlagView {
    pub flag: Flag,
    pub value: Seq<char>,
}

impl View for InvalidFlag {
    type V = InvalidFlagView;

    open spec fn view(&self) -> InvalidFlagView {
        InvalidFlagView { flag: self.flag, value: self.value@ }
    }
}

/// What a document says of one window.
///
/// `width` and `height` keep the attribute's text: it is a decimal number that
/// this library does not interpret. Where only one of the two is given, the
/// other counts as zero.
#[derive(Debug, PartialEq, Eq)]
pub struct WindowSettings {
    pub width: Option<String>,
    pub height: Option<String>,
    pub title: Option<String>,
    pub resizable: Option<bool>,
    pub maximized: Option<bool>,
    pub visible: Option<bool>,
    pub transparent: Option<bool>,
    pub decorations: Option<bool>,
    pub always_on_top: Option<bool>,
}

/// What a [`WindowSettings`] stands for.
pub struct WindowSettingsView {
    pub width: Option<Seq<char>>,
    pub height: Option<Seq<char>>,
    pub title: Option<Seq<char>>,
    pub resizable: Option<bool>,
    pub maximized: Option<bool>,
    pub visible: Option<bool>,
    pub transparent: Option<bool>,
    pub decorations: Option<bool>,
    pub always_on_top: Option<bool>,
}

/// The characters of an optional text.
pub open spec fn text_view(text: Option<String>) -> Option<Seq<char>> {
    match text {
        Some(t) => Some(t@),
        None => None,
    }
}

impl View for WindowSettings {
    type V = WindowSettingsView;

    open spec fn view(&self) -> WindowSettingsView {
        WindowSettingsView {
            width: text_view(self.width),
            height: text_view(self.height),
            title: text_view(self.title),
            resizable: self.resizable,
            maximized: self.maximized,
            visible: self.visible,
            transparent: self.transparent,
            decorations: self.decorations,
            always_on_top: self.always_on_top,
        }
    }
}

/// The settings of a window of which nothing is said.
pub open spec fn blank() -> WindowSettingsView {
    WindowSettingsView {
        width: None,
        height: None,
        title: None,
        resizable: None,
        maximized: None,
        visible: None,
        transparent: None,
        decorations: None,
        always_on_top: None,
    }
}

/// The flag that an attribute name stands for, if any.
pub open spec fn flag_of(name: Seq<char>) -> Option<Flag> {
    if name == "resizable"@ {
        Some(Flag::Resizable)
    } else if name == "maximized"@ {
        Some(Flag::Maximized)
    } else if name == "visible"@ {
        Some(Flag::Visible)
    } else if name == "transparent"@ {
        Some(Flag::Transparent)
    } else if name == "decorations"@ {
        Some(Flag::Decorations)
    } else if name == "always_on_top"@ {
        Some(Flag::AlwaysOnTop)
    } else {
        None
    }
}

/// The truth value that a text spells: `true`, `false`, and nothing else.
pub open spec fn truth_of(text: Seq<char>) -> Option<bool> {
    if text == "true"@ {
        Some(true)
    } else if text == "false"@ {
        Some(false)
    } else {
        None
    }
}

/// `w` with `flag` switched to `on`.
pub open spec fn with_flag(w: WindowSettingsView, flag: Flag, on: bool) -> WindowSettingsView {
    match flag {
        Flag::Resizable => WindowSettingsView { resizable: Some(on), ..w },
        Flag::Maximized => WindowSettingsView { maximized: Some(on), ..w },
        Flag::Visible => WindowSettingsView { visible: Some(on), ..w },
        Flag::Transparent => WindowSettingsView { transparent: Some(on), ..w },
        Flag::Decorations => WindowSettingsView { decorations: Some(on), ..w },
        Flag::AlwaysOnTop => WindowSettingsView { always_on_top: Some(on), ..w },
    }
}

/// `w` after one attribute: `width`, `height` and `title` take the value as it
/// stands, a flag takes the truth value that the text spells, and an attribute
/// of any other name changes nothing.
pub open spec fn with_attribute(w: WindowSettingsView, a: AttributeView) -> Result<
    WindowSettingsView,
    InvalidFlagView,
> {
    if a.name == "width"@ {
        Ok(WindowSettingsView { width: Some(a.value), ..w })
    } else if a.name == "height"@ {
        Ok(WindowSettingsView { height: Some(a.value), ..w })
    } else if a.name == "title"@ {
        Ok(WindowSettingsView { title: Some(a.value), ..w })
    } else {
        match flag_of(a.name) {
            None => Ok(w),
            Some(flag) => match truth_of(a.value) {
                Some(on) => Ok(with_flag(w, flag, on)),
                None => Err(InvalidFlagView { flag, value: a.value }),
            },
        }
    }
}

/// The settings that a list of attributes gives, taken in order from a blank
/// window; the first flag with a bad value ends it.
pub open spec fn settings_of(attributes: Seq<AttributeView>) -> Result<
    WindowSettingsView,
    InvalidFlagView,
>
    decreases attributes.len(),
{
    if attributes.len() == 0 {
        Ok(blank())
    } else {
        match settings_of(attributes.drop_last()) {
            Ok(w) => with_attribute(w, attributes.last()),
            Err(e) => Err(e),
        }
    }
}

/// The flag that `name` stands for, if any.
pub fn flag_named(name: &str) -> (flag: Option<Flag>)
    ensures
        flag == flag_of(name@),
{
    if same_text(name, "resizable") {
        Some(Flag::Resizable)
    } else if same_text(name, "maximized") {
        Some(Flag::Maximized)
    } else if same_text(name, "visible") {
        Some(Flag::Visible)
    } else if same_text(name, "transparent") {
        Some(Flag::Transparent)
    } else if same_text(name, "decorations") {
        Some(Flag::Decorations)
    } else if same_text(name, "always_on_top") {
        Some(Flag::AlwaysOnTop)
    } else {
        None
    }
}

/// Reads `true` or `false`; any other text is no truth value.
pub fn parse_flag(text: &str) -> (on: Option<bool>)
    ensures
        on == truth_of(text@),
{
    if same_text(text, "true") {
        Some(true)
    } else if same_text(text, "false") {
        Some(false)
    } else {
        None
    }
}

impl WindowSettings {
    /// The settings of a window of which nothing is said.
    pub fn new() -> (settings: WindowSettings)
        ensures
            settings@ == blank(),
    {
        WindowSettings {
            width: None,
            height: None,
            title: None,
            resizable: None,
            maximized: None,
            visible: None,
            transparent: None,
            decorations: None,
            always_on_top: None,
        }
    }

    /// Whether the document gives the window a size: it names `width`,
    /// `height` or both.
    pub fn has_dimensions(&self) -> (given: bool)
        ensures
            given == (self@.width is Some || self@.height is Some),
    {
        self.width.is_some() || self.height.is_some()
    }

    /// Switches `flag` to `on`.
    pub fn set_flag(&mut self, flag: Flag, on: bool)
        ensures
            final(self)@ == with_flag(old(self)@, flag, on),
    {
        match flag {
            Flag::Resizable => self.resizable = Some(on),
            Flag::Maximized => self.maximized = Some(on),
            Flag::Visible => self.visible = Some(on),
            Flag::Transparent => self.transparent = Some(on),
            Flag::Decorations => self.decorations = Some(on),
            Flag::AlwaysOnTop => self.always_on_top = Some(on),
        }
    }

    /// Takes one attribute into the settings. A flag whose value is neither
    /// `true` nor `false` is refused and leaves the settings as they were.
    pub fn set(&mut self, attribute: &Attribute) -> (result: Result<(), InvalidFlag>)
        ensures
            match result {
                Ok(_) => with_attribute(old(self)@, attribute@) == Ok::<
                    WindowSettingsView,
                    InvalidFlagView,
                >(final(self)@),
                Err(e) => with_attribute(old(self)@, attribute@) == Err::<
                    WindowSettingsView,
                    InvalidFlagView,
                >(e@) && final(self)@ == old(self)@,
            },
    {
        let name = attribute.name.as_str();
        if same_text(name, "width") {
            self.width = Some(attribute.value.clone());
            Ok(())
        } else if same_text(name, "height") {
            self.height = Some(attribute.value.clone());
            Ok(())
        } else if same_text(name, "title") {
            self.title = Some(attribute.value.clone());
            Ok(())
        } else {
            match flag_named(name) {
                None => Ok(()),
                Some(flag) => match parse_flag(attribute.value.as_str()) {
                    Some(on) => {
                        self.set_flag(flag, on);
                        Ok(())
                    },
                    None => Err(InvalidFlag { flag, value: attribute.value.clone() }),
                },
            }
        }
    }

    /// The settings that the attributes of one element give, taken in order.
    pub fn from_attributes(attributes: &Vec<Attribute>) -> (result: Result<
        WindowSettings,
        InvalidFlag,
    >)
        ensures
            match result {
                Ok(w) => settings_of(attributes_view(attributes@)) == Ok::<
                    WindowSettingsView,
                    InvalidFlagView,
                >(w@),
                Err(e) => settings_of(attributes_view(attributes@)) == Err::<
                    WindowSettingsView,
                    InvalidFlagView,
                >(e@),
            },
    {
        let mut settings = WindowSettings::new();
        let mut i: usize = 0;
        while i < attributes.len()
            invariant
                i <= attributes.len(),
                settings_of(attributes_view(attributes@).take(i as int)) == Ok::<
                    WindowSettingsView,
                    InvalidFlagView,
                >(settings@),
            decreases attributes.len() - i,
        {
            proof {
                let all = attributes_view(attributes@);
                assert(all.take(i + 1).drop_last() =~= all.take(i as int));
                assert(all.take(i + 1).last() == attributes@[i as int]@);
            }
            match settings.set(&attributes[i]) {
                Ok(_) => {},
                Err(e) => {
                    proof {
                        lemma_settings_error_stays(attributes_view(attributes@), i + 1);
                    }
                    return Err(e);
                },
            }
            i += 1;
        }
        proof {
            let all = attributes_view(attributes@);
            assert(all.take(i as int) =~= all);
        }
        Ok(settings)
    }
}

/// Once a prefix of the attributes is refused, the whole list is refused for
/// the same reason.
pub proof fn lemma_settings_error_stays(attributes: Seq<AttributeView>, n: int)
    requires
        0 <= n <= attributes.len(),
        settings_of(attributes.take(n)) is Err,
    ensures
        settings_of(attributes) == settings_of(attributes.take(n)),
    decreases attributes.len() - n,
{
    if n < attributes.len() {
        assert(attributes.drop_last().take(n) =~= attributes.take(n));
        lemma_settings_error_stays(attributes.drop_last(), n);
    } else {
        assert(attributes.take(n) =~= attributes);
    }
}

} // verus!
