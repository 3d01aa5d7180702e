//! Select menus: builders for a menu of options, and the description of the
//! menu that Discord is sent.

use vstd::prelude::*;

use crate::button::{Emoji, EmojiView};
use crate::custom_id::{custom_id_for, custom_id_text, encoded_state};
use crate::text::{decimal_text, usize_to_string};

verus! {

/// An option of a select menu.
#[derive(Clone, Debug, PartialEq, Eq)]
pub struct SelectMenuOption {
    pub emoji: Option<Emoji>,
    pub label: String,
    pub description: String,
    pub default: bool,
}

/// The emoji of an option, as plain values.
pub open spec fn emoji_view(e: Option<Emoji>) -> Option<EmojiView> {
    match e {
        Some(e) => Some(e@),
        None => None,
    }
}

impl SelectMenuOption {
    /// An option with the given label, no description, no emoji, not selected.
    pub fn new(label: String) -> (r: SelectMenuOption)
        ensures
            r.label@ == label@,
            r.description@ == Seq::<char>::empty(),
            r.emoji is None,
            !r.default,
    {
        SelectMenuOption { label, description: String::new(), emoji: None, default: false }
    }

    /// An option with an emoji and the given label.
    pub fn with_emoji(emoji: Emoji, label: String) -> (r: SelectMenuOption)
        ensures
            r.label@ == label@,
            r.description@ == Seq::<char>::empty(),
            emoji_view(r.emoji) == Some(emoji@),
            !r.default,
    {
        SelectMenuOption::new(label).emoji(emoji)
    }

    /// This option with the given description.
    pub fn description(self, description: String) -> (r: SelectMenuOption)
        ensures
            r.description@ == description@,
            r.label == self.label,
            r.emoji == self.emoji,
            r.default == self.default,
    {
        SelectMenuOption { description, ..self }
    }

    /// This option with the given emoji.
    pub fn emoji(self, emoji: Emoji) -> (r: SelectMenuOption)
        ensures
            emoji_view(r.emoji) == Some(emoji@),
            r.label == self.label,
            r.description == self.description,
            r.default == self.default,
    {
        SelectMenuOption { emoji: Some(emoji), ..self }
    }

    /// This option, selected at first or not.
    pub fn default_if(self, default: bool) -> (r: SelectMenuOption)
        ensures
            r.default == default,
            r.label == self.label,
            r.description == self.description,
            r.emoji == self.emoji,
    {
        SelectMenuOption { default, ..self }
    }

    /// This option, selected at first.
    pub fn default_selection(self) -> (r: SelectMenuOption)
        ensures
            r.default,
            r.label == self.label,
            r.description == self.description,
            r.emoji == self.emoji,
    {
        self.default_if(true)
    }
}

/// A select menu of options.
#[derive(Clone, Debug, PartialEq, Eq)]
pub struct SelectMenu {
    pub options: Vec<SelectMenuOption>,
    pub placeholder: String,
    pub min_values: u64,
    pub max_values: u64,
    pub enabled: bool,
}

/// An option of a select menu as Discord is sent it.
#[derive(Clone, Debug, PartialEq, Eq)]
pub struct SelectOptionSpec {
    pub label: String,
    pub value: String,
    pub description: String,
    pub default_selection: bool,
    pub emoji: Option<Emoji>,
}

/// A select menu as Discord is sent it.
#[derive(Clone, Debug, PartialEq, Eq)]
pub struct SelectMenuSpec {
    pub custom_id: String,
    pub options: Vec<SelectOptionSpec>,
    pub placeholder: String,
    pub min_values: u64,
    pub max_values: u64,
    pub disabled: bool,
}

/// The option `o`, sent as the `i`-th of its menu: its value is its index.
pub open spec fn option_sent(o: SelectOptionSpec, i: int, option: SelectMenuOption) -> bool {
    &&& o.label@ == option.label@
    &&& o.value@ == decimal_text(i as nat)
    &&& o.description@ == option.description@
    &&& o.default_selection == option.default
    &&& emoji_view(o.emoji) == emoji_view(option.emoji)
}

impl SelectMenu {
    /// An enabled menu of the given options, with no placeholder, where one
    /// option is chosen.
    pub fn new(options: Vec<SelectMenuOption>) -> (r: SelectMenu)
        ensures
            r.options@ == options@,
            r.placeholder@ == Seq::<char>::empty(),
            r.min_values == 1,
            r.max_values == 1,
            r.enabled,
    {
        SelectMenu { options, placeholder: String::new(), min_values: 1, max_values: 1, enabled: true }
    }

    /// This menu with the given placeholder.
    pub fn placeholder(self, placeholder: String) -> (r: SelectMenu)
        ensures
            r == (SelectMenu { placeholder: placeholder, ..self }),
    {
        SelectMenu { placeholder, ..self }
    }

    /// This menu, where at least `min_values` options are chosen.
    pub fn min_values(self, min_values: u64) -> (r: SelectMenu)
        ensures
            r == (SelectMenu { min_values: min_values, ..self }),
    {
        SelectMenu { min_values, ..self }
    }

    /// This menu, where at most `max_values` options are chosen.
    pub fn max_values(self, max_values: u64) -> (r: SelectMenu)
        ensures
            r == (SelectMenu { max_values: max_values, ..self }),
    {
        SelectMenu { max_values, ..self }
    }

    /// This menu, enabled or not.
    pub fn enabled(self, enabled: bool) -> (r: SelectMenu)
        ensures
            r == (SelectMenu { enabled: enabled, ..self }),
    {
        SelectMenu { enabled, ..self }
    }

    /// This menu, disabled.
    pub fn disabled(self) -> (r: SelectMenu)
        ensures
            r == (SelectMenu { enabled: false, ..self }),
    {
        SelectMenu { enabled: false, ..self }
    }

    /// The menu as Discord is sent it, with the given custom id; each option's
    /// value is its index.
    fn create_with_custom_id(self, custom_id: String) -> (r: SelectMenuSpec)
        ensures
            r.custom_id == custom_id,
            r.options@.len() == self.options@.len(),
            forall|i: int| 0 <= i < r.options@.len() ==> option_sent(#[trigger] r.options@[i], i, self.options@[i]),
            r.placeholder == self.placeholder,
            r.min_values == self.min_values,
            r.max_values == self.max_values,
            r.disabled == !self.enabled,
    {
        let SelectMenu { options, placeholder, min_values, max_values, enabled } = self;
        let ghost original = options@;
        let count = options.len();
        let mut sent: Vec<SelectOptionSpec> = Vec::new();
        let mut rest = options;
        let mut i: usize = 0;
        while rest.len() > 0
            invariant
                original.len() == count,
                i == sent@.len(),
                i + rest@.len() == original.len(),
                forall|k: int| 0 <= k < rest@.len() ==> #[trigger] rest@[k] == original[k + i],
                forall|k: int| 0 <= k < i ==> option_sent(#[trigger] sent@[k], k, original[k]),
            decreases rest.len(),
        {
            let ghost old_rest = rest@;
            let option = rest.remove(0);
            assert(forall|k: int| 0 <= k < rest@.len() ==> rest@[k] == old_rest[k + 1]);
            assert(option == original[i as int]);
            let value = usize_to_string(i);
            sent.push(
                SelectOptionSpec {
                    label: option.label,
                    value,
                    description: option.description,
                    default_selection: option.default,
                    emoji: option.emoji,
                },
            );
            i += 1;
        }
        SelectMenuSpec {
            custom_id,
            options: sent,
            placeholder,
            min_values,
            max_values,
            disabled: !enabled,
        }
    }

    /// The menu as Discord is sent it: choosing runs the handler `id` with
    /// the serialized state `state`.
    pub fn create(self, id: u128, state: &[u8]) -> (r: SelectMenuSpec)
        requires
            state@.len() * 13 <= usize::MAX,
        ensures
            r.custom_id@ == custom_id_text(id, encoded_state(state@)),
            r.options@.len() == self.options@.len(),
            forall|i: int| 0 <= i < r.options@.len() ==> option_sent(#[trigger] r.options@[i], i, self.options@[i]),
            r.placeholder == self.placeholder,
            r.min_values == self.min_values,
            r.max_values == self.max_values,
            r.disabled == !self.enabled,
    {
        self.create_with_custom_id(custom_id_for(id, state))
    }
}

/// Why the values chosen in a single-choice menu could not be read.
#[derive(Clone, Copy, Debug, PartialEq, Eq)]
pub enum SelectError {
    /// The menu reported other than exactly one value.
    NotSingleValue,
}

/// The one value chosen in a single-choice menu.
pub fn single_value(values: &Vec<String>) -> (r: Result<&String, SelectError>)
    ensures
        match r {
            Ok(v) => values@.len() == 1 && *v == values@[0],
            Err(_) => values@.len() != 1,
        },
{
    if values.len() != 1 {
        Err(SelectError::NotSingleValue)
    } else {
        Ok(&values[0])
    }
}

} // verus!
