//! Modals: builders for a form of text inputs, and the description of the
//! modal that Discord is sent.

use vstd::prelude::*;

use crate::custom_id::{custom_id_for, custom_id_text, encoded_state};
use crate::text::{decimal_text, usize_to_string};

verus! {

/// Whether a text input takes one line or several.
#[derive(Clone, Copy, Debug, PartialEq, Eq)]
pub enum InputTextStyle {
    Short,
    Paragraph,
}

/// A text input of a modal.
#[derive(Clone, Debug, PartialEq, Eq)]
pub struct TextInput {
    pub style: InputTextStyle,
    pub label: String,
    pub min_length: Option<u64>,
    pub max_length: Option<u64>,
    pub required: bool,
    pub value: String,
    pub placeholder: String,
}

/// `input` is a required text input of the given style and label, without
/// bounds, value or placeholder.
pub open spec fn is_fresh_input(input: TextInput, style: InputTextStyle, label: String) -> bool {
    &&& input.style == style
    &&& input.label == label
    &&& input.min_length is None
    &&& input.max_length is None
    &&& input.required
    &&& input.value@ == Seq::<char>::empty()
    &&& input.placeholder@ == Seq::<char>::empty()
}

impl TextInput {
    /// A required text input of the given style and label, without bounds,
    /// value or placeholder.
    pub fn new(style: InputTextStyle, label: String) -> (r: TextInput)
        ensures
            is_fresh_input(r, style, label),
    {
        TextInput {
            style,
            label,
            min_length: None,
            max_length: None,
            required: true,
            value: String::new(),
            placeholder: String::new(),
        }
    }

    /// A one-line text input.
    pub fn short(label: String) -> (r: TextInput)
        ensures
            is_fresh_input(r, InputTextStyle::Short, label),
    {
        TextInput::new(InputTextStyle::Short, label)
    }

    /// A text input of several lines.
    pub fn paragraph(label: String) -> (r: TextInput)
        ensures
            is_fresh_input(r, InputTextStyle::Paragraph, label),
    {
        TextInput::new(InputTextStyle::Paragraph, label)
    }

    /// This input, with at least `length` characters.
    pub fn min_length(self, length: u64) -> (r: TextInput)
        ensures
            r == (TextInput { min_length: Some(length), ..self }),
    {
        TextInput { min_length: Some(length), ..self }
    }

    /// This input, with at most `length` characters.
    pub fn max_length(self, length: u64) -> (r: TextInput)
        ensures
            r == (TextInput { max_length: Some(length), ..self }),
    {
        TextInput { max_length: Some(length), ..self }
    }

    /// This input, required or not.
    pub fn required(self, required: bool) -> (r: TextInput)
        ensures
            r == (TextInput { required: required, ..self }),
    {
        TextInput { required, ..self }
    }

    /// This input, not required.
    pub fn optional(self) -> (r: TextInput)
        ensures
            r == (TextInput { required: false, ..self }),
    {
        TextInput { required: false, ..self }
    }

    /// This input, filled in with `value` at first.
    pub fn value(self, value: String) -> (r: TextInput)
        ensures
            r == (TextInput { value: value, ..self }),
    {
        TextInput { value, ..self }
    }

    /// This input, showing `placeholder` while empty.
    pub fn placeholder(self, placeholder: String) -> (r: TextInput)
        ensures
            r == (TextInput { placeholder: placeholder, ..self }),
    {
        TextInput { placeholder, ..self }
    }
}

/// A modal: a titled form of text inputs.
#[derive(Clone, Debug, PartialEq, Eq)]
pub struct Modal {
    pub title: String,
    pub text_inputs: Vec<TextInput>,
}

/// A text input as Discord is sent it, in a row of its own.
#[derive(Clone, Debug, PartialEq, Eq)]
pub struct TextInputSpec {
    pub custom_id: String,
    pub style: InputTextStyle,
    pub label: String,
    pub required: bool,
    pub value: String,
    pub placeholder: String,
    pub min_length: Option<u64>,
    pub max_length: Option<u64>,
}

/// A modal as Discord is sent it.
#[derive(Clone, Debug, PartialEq, Eq)]
pub struct ModalSpec {
    pub custom_id: String,
    pub title: String,
    pub rows: Vec<TextInputSpec>,
}

/// The input `t`, sent as the `i`-th row: its custom id is its index.
pub open spec fn input_sent(s: TextInputSpec, i: int, t: TextInput) -> bool {
    &&& s.custom_id@ == decimal_text(i as nat)
    &&& s.style == t.style
    &&& s.label == t.label
    &&& s.required == t.required
    &&& s.value == t.value
    &&& s.placeholder == t.placeholder
    &&& s.min_length == t.min_length
    &&& s.max_length == t.max_length
}

impl Modal {
    /// A modal with the given title and text inputs.
    pub fn new(title: String, text_inputs: Vec<TextInput>) -> (r: Modal)
        ensures
            r.title == title,
            r.text_inputs@ == text_inputs@,
    {
        Modal { title, text_inputs }
    }

    /// The modal as Discord is sent it to open it: submitting it runs the
    /// handler `id` with the serialized state `state`; each input is a row
    /// whose custom id is its index.
    pub fn open(self, id: u128, state: &[u8]) -> (r: ModalSpec)
        requires
            state@.len() * 13 <= usize::MAX,
        ensures
            r.custom_id@ == custom_id_text(id, encoded_state(state@)),
            r.title == self.title,
            r.rows@.len() == self.text_inputs@.len(),
            forall|i: int| 0 <= i < r.rows@.len() ==> input_sent(#[trigger] r.rows@[i], i, self.text_inputs@[i]),
    {
        let custom_id = custom_id_for(id, state);
        let Modal { title, text_inputs } = self;
        let ghost original = text_inputs@;
        let count = text_inputs.len();
        let mut rows: Vec<TextInputSpec> = Vec::new();
        let mut rest = text_inputs;
        let mut i: usize = 0;
        while rest.len() > 0
            invariant
                original.len() == count,
                i == rows@.len(),
                i + rest@.len() == original.len(),
                forall|k: int| 0 <= k < rest@.len() ==> #[trigger] rest@[k] == original[k + i],
                forall|k: int| 0 <= k < i ==> input_sent(#[trigger] rows@[k], k, original[k]),
            decreases rest.len(),
        {
            let ghost old_rest = rest@;
            let text_input = rest.remove(0);
            assert(forall|k: int| 0 <= k < rest@.len() ==> rest@[k] == old_rest[k + 1]);
            assert(text_input == original[i as int]);
            rows.push(
                TextInputSpec {
                    custom_id: usize_to_string(i),
                    style: text_input.style,
                    label: text_input.label,
                    required: text_input.required,
                    value: text_input.value,
                    placeholder: text_input.placeholder,
                    min_length: text_input.min_length,
                    max_length: text_input.max_length,
                },
            );
            i += 1;
        }
        ModalSpec { custom_id, title, rows }
    }
}

} // verus!
