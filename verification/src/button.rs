//! Buttons: builders for the buttons of a message, and the description of
//! the button that Discord is sent.

use vstd::prelude::*;

use crate::custom_id::{custom_id_for, custom_id_text, encoded_state};

verus! {

/// An emoji on a button or select menu option.
#[derive(Clone, Debug, PartialEq, Eq)]
pub enum Emoji {
    /// An emoji of a server, by id.
    Custom { animated: bool, id: u64, name: Option<String> },
    /// A Unicode emoji.
    Unicode { text: String },
}

/// An emoji as plain values.
pub enum EmojiView {
    Custom(bool, u64, Option<Seq<char>>),
    Unicode(Seq<char>),
}

impl View for Emoji {
    type V = EmojiView;

    open spec fn view(&self) -> EmojiView {
        match self {
            Emoji::Custom { animated, id, name } => EmojiView::Custom(
                *animated,
                *id,
                match name {
                    Some(n) => Some(n@),
                    None => None,
                },
            ),
            Emoji::Unicode { text } => EmojiView::Unicode(text@),
        }
    }
}

/// What a button shows: text, an emoji, or both.
#[derive(Clone, Debug, PartialEq, Eq)]
pub enum ButtonLabel {
    Text { text: String },
    Emoji { emoji: Emoji },
    EmojiWithText { emoji: Emoji, text: String },
}

/// A button label as plain values.
pub enum LabelView {
    Text(Seq<char>),
    Emoji(EmojiView),
    EmojiWithText(EmojiView, Seq<char>),
}

impl View for ButtonLabel {
    type V = LabelView;

    open spec fn view(&self) -> LabelView {
        match self {
            ButtonLabel::Text { text } => LabelView::Text(text@),
            ButtonLabel::Emoji { emoji } => LabelView::Emoji(emoji@),
            ButtonLabel::EmojiWithText { emoji, text } => LabelView::EmojiWithText(emoji@, text@),
        }
    }
}

impl ButtonLabel {
    /// A label of text.
    pub fn text(text: String) -> (r: ButtonLabel)
        ensures
            r@ == LabelView::Text(text@),
    {
        ButtonLabel::Text { text }
    }

    /// A label of an emoji.
    pub fn emoji(emoji: Emoji) -> (r: ButtonLabel)
        ensures
            r@ == LabelView::Emoji(emoji@),
    {
        ButtonLabel::Emoji { emoji }
    }

    /// A label of an emoji followed by text.
    pub fn emoji_with_text(emoji: Emoji, text: String) -> (r: ButtonLabel)
        ensures
            r@ == LabelView::EmojiWithText(emoji@, text@),
    {
        ButtonLabel::EmojiWithText { emoji, text }
    }
}

/// The color of a button that runs a handler.
#[derive(Clone, Copy, Debug, PartialEq, Eq)]
pub enum ButtonColor {
    Primary,
    Secondary,
    Success,
    Danger,
}

impl ButtonColor {
    /// The color a button has unless another is chosen.
    pub fn default_color() -> (r: ButtonColor)
        ensures
            r == ButtonColor::Primary,
    {
        ButtonColor::Primary
    }
}

/// The style of a button as Discord knows it.
#[derive(Clone, Copy, Debug, PartialEq, Eq)]
pub enum ButtonStyle {
    Primary,
    Secondary,
    Success,
    Danger,
    Link,
}

/// The style that a button of the given color is drawn in.
pub open spec fn color_style(color: ButtonColor) -> ButtonStyle {
    match color {
        ButtonColor::Primary => ButtonStyle::Primary,
        ButtonColor::Secondary => ButtonStyle::Secondary,
        ButtonColor::Success => ButtonStyle::Success,
        ButtonColor::Danger => ButtonStyle::Danger,
    }
}

/// A button as Discord is sent it.
#[derive(Clone, Debug, PartialEq, Eq)]
pub struct ButtonSpec {
    pub custom_id: Option<String>,
    pub url: Option<String>,
    pub style: ButtonStyle,
    pub label: Option<String>,
    pub emoji: Option<Emoji>,
    pub disabled: bool,
}

/// The text of a label, if it has text.
pub open spec fn label_text(label: LabelView) -> Option<Seq<char>> {
    match label {
        LabelView::Text(t) => Some(t),
        LabelView::Emoji(_) => None,
        LabelView::EmojiWithText(_, t) => Some(t),
    }
}

/// The emoji of a label, if it has one.
pub open spec fn label_emoji(label: LabelView) -> Option<EmojiView> {
    match label {
        LabelView::Text(_) => None,
        LabelView::Emoji(e) => Some(e),
        LabelView::EmojiWithText(e, _) => Some(e),
    }
}

/// The text and emoji that a label puts on a button.
fn label_parts(label: ButtonLabel) -> (r: (Option<String>, Option<Emoji>))
    ensures
        (match r.0 {
            Some(t) => Some(t@),
            None => None,
        }) == label_text(label@),
        (match r.1 {
            Some(e) => Some(e@),
            None => None,
        }) == label_emoji(label@),
{
    match label {
        ButtonLabel::Text { text } => (Some(text), None),
        ButtonLabel::Emoji { emoji } => (None, Some(emoji)),
        ButtonLabel::EmojiWithText { emoji, text } => (Some(text), Some(emoji)),
    }
}

/// A button that runs a handler when clicked.
#[derive(Clone, Debug, PartialEq, Eq)]
pub struct Button {
    label: ButtonLabel,
    color: ButtonColor,
    enabled: bool,
}

/// A button as plain values.
pub struct ButtonView {
    pub label: LabelView,
    pub color: ButtonColor,
    pub enabled: bool,
}

impl View for Button {
    type V = ButtonView;

    closed spec fn view(&self) -> ButtonView {
        ButtonView { label: self.label@, color: self.color, enabled: self.enabled }
    }
}

impl Button {
    /// An enabled primary button with text.
    pub fn text(text: String) -> (r: Button)
        ensures
            r@ == (ButtonView { label: LabelView::Text(text@), color: ButtonColor::Primary, enabled: true }),
    {
        Button { label: ButtonLabel::text(text), color: ButtonColor::default_color(), enabled: true }
    }

    /// An enabled primary button with an emoji.
    pub fn emoji(emoji: Emoji) -> (r: Button)
        ensures
            r@ == (ButtonView { label: LabelView::Emoji(emoji@), color: ButtonColor::Primary, enabled: true }),
    {
        Button { label: ButtonLabel::emoji(emoji), color: ButtonColor::default_color(), enabled: true }
    }

    /// An enabled primary button with an emoji and text.
    pub fn emoji_with_text(emoji: Emoji, text: String) -> (r: Button)
        ensures
            r@ == (ButtonView {
                label: LabelView::EmojiWithText(emoji@, text@),
                color: ButtonColor::Primary,
                enabled: true,
            }),
    {
        Button {
            label: ButtonLabel::emoji_with_text(emoji, text),
            color: ButtonColor::default_color(),
            enabled: true,
        }
    }

    /// This button in the given color.
    pub fn color(self, color: ButtonColor) -> (r: Button)
        ensures
            r@ == (ButtonView { color: color, ..self@ }),
    {
        Button { color, ..self }
    }

    /// This button in the secondary color.
    pub fn secondary(self) -> (r: Button)
        ensures
            r@ == (ButtonView { color: ButtonColor::Secondary, ..self@ }),
    {
        Button { color: ButtonColor::Secondary, ..self }
    }

    /// This button in the success color.
    pub fn success(self) -> (r: Button)
        ensures
            r@ == (ButtonView { color: ButtonColor::Success, ..self@ }),
    {
        Button { color: ButtonColor::Success, ..self }
    }

    /// This button in the danger color.
    pub fn danger(self) -> (r: Button)
        ensures
            r@ == (ButtonView { color: ButtonColor::Danger, ..self@ }),
    {
        Button { color: ButtonColor::Danger, ..self }
    }

    /// This button, enabled or not.
    pub fn enabled(self, enabled: bool) -> (r: Button)
        ensures
            r@ == (ButtonView { enabled: enabled, ..self@ }),
    {
        Button { enabled, ..self }
    }

    /// This button, disabled.
    pub fn disabled(self) -> (r: Button)
        ensures
            r@ == (ButtonView { enabled: false, ..self@ }),
    {
        Button { enabled: false, ..self }
    }

    /// The button as Discord is sent it, with the given custom id.
    fn create_with_custom_id(self, custom_id: String) -> (r: ButtonSpec)
        ensures
            r.custom_id == Some(custom_id),
            r.url is None,
            r.style == color_style(self@.color),
            (match r.label {
                Some(t) => Some(t@),
                None => None,
            }) == label_text(self@.label),
            (match r.emoji {
                Some(e) => Some(e@),
                None => None,
            }) == label_emoji(self@.label),
            r.disabled == !self@.enabled,
    {
        let style = match self.color {
            ButtonColor::Primary => ButtonStyle::Primary,
            ButtonColor::Secondary => ButtonStyle::Secondary,
            ButtonColor::Success => ButtonStyle::Success,
            ButtonColor::Danger => ButtonStyle::Danger,
        };
        let (label, emoji) = label_parts(self.label);
        ButtonSpec { custom_id: Some(custom_id), url: None, style, label, emoji, disabled: !self.enabled }
    }

    /// The button as Discord is sent it: clicking it runs the handler `id`
    /// with the serialized state `state`.
    pub fn create(self, id: u128, state: &[u8]) -> (r: ButtonSpec)
        requires
            state@.len() * 13 <= usize::MAX,
        ensures
            r.custom_id matches Some(c) && c@ == custom_id_text(id, encoded_state(state@)),
            r.url is None,
            r.style == color_style(self@.color),
            (match r.label {
                Some(t) => Some(t@),
                None => None,
            }) == label_text(self@.label),
            (match r.emoji {
                Some(e) => Some(e@),
                None => None,
            }) == label_emoji(self@.label),
            r.disabled == !self@.enabled,
    {
        self.create_with_custom_id(custom_id_for(id, state))
    }
}

/// A button that opens a link when clicked.
#[derive(Clone, Debug, PartialEq, Eq)]
pub struct LinkButton {
    label: ButtonLabel,
    url: String,
    enabled: bool,
}

/// A link button as plain values.
pub struct LinkButtonView {
    pub label: LabelView,
    pub url: Seq<char>,
    pub enabled: bool,
}

impl View for LinkButton {
    type V = LinkButtonView;

    closed spec fn view(&self) -> LinkButtonView {
        LinkButtonView { label: self.label@, url: self.url@, enabled: self.enabled }
    }
}

impl LinkButton {
    /// An enabled link button with text.
    pub fn text(text: String, url: String) -> (r: LinkButton)
        ensures
            r@ == (LinkButtonView { label: LabelView::Text(text@), url: url@, enabled: true }),
    {
        LinkButton { label: ButtonLabel::text(text), url, enabled: true }
    }

    /// An enabled link button with an emoji.
    pub fn emoji(emoji: Emoji, url: String) -> (r: LinkButton)
        ensures
            r@ == (LinkButtonView { label: LabelView::Emoji(emoji@), url: url@, enabled: true }),
    {
        LinkButton { label: ButtonLabel::emoji(emoji), url, enabled: true }
    }

    /// An enabled link button with an emoji and text.
    pub fn emoji_with_text(emoji: Emoji, text: String, url: String) -> (r: LinkButton)
        ensures
            r@ == (LinkButtonView { label: LabelView::EmojiWithText(emoji@, text@), url: url@, enabled: true }),
    {
        LinkButton { label: ButtonLabel::emoji_with_text(emoji, text), url, enabled: true }
    }

    /// This button, enabled or not.
    pub fn enabled(self, enabled: bool) -> (r: LinkButton)
        ensures
            r@ == (LinkButtonView { enabled: enabled, ..self@ }),
    {
        LinkButton { enabled, ..self }
    }

    /// This button, disabled.
    pub fn disabled(self) -> (r: LinkButton)
        ensures
            r@ == (LinkButtonView { enabled: false, ..self@ }),
    {
        LinkButton { enabled: false, ..self }
    }

    /// The button as Discord is sent it.
    pub fn create(self) -> (r: ButtonSpec)
        ensures
            r.custom_id is None,
            r.url matches Some(u) && u@ == self@.url,
            r.style == ButtonStyle::Link,
            (match r.label {
                Some(t) => Some(t@),
                None => None,
            }) == label_text(self@.label),
            (match r.emoji {
                Some(e) => Some(e@),
                None => None,
            }) == label_emoji(self@.label),
            r.disabled == !self@.enabled,
    {
        let (label, emoji) = label_parts(self.label);
        ButtonSpec {
            custom_id: None,
            url: Some(self.url),
            style: ButtonStyle::Link,
            label,
            emoji,
            disabled: !self.enabled,
        }
    }
}

} // verus!
