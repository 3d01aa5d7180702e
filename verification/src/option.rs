//! The options of a slash command: their kinds, the values Discord sends for
//! them, how a value resolves to the type of an option, and the validation
//! that Discord is asked to do on its side.

use anyhow::Error as AnyhowError;
use serenity::builder::CreateInteractionResponseMessage;
use vstd::prelude::*;

use crate::text::{append_str, string_of};

verus! {

#[verifier::external_type_specification]
#[verifier::external_body]
pub struct ExCreateInteractionResponseMessage(CreateInteractionResponseMessage);

#[verifier::external_type_specification]
#[verifier::external_body]
pub struct ExAnyhowError(AnyhowError);

/// The kind of a command option, as Discord numbers it.
#[derive(Clone, Copy, Debug, PartialEq, Eq, Structural, Hash)]
pub enum OptionKind {
    SubCommand,
    SubCommandGroup,
    String,
    Integer,
    Boolean,
    User,
    Channel,
    Role,
    Mentionable,
    Number,
    Attachment,
    Unknown(u8),
}

/// The value of a command option as Discord sends it. A number is held as
/// the bits of its `f64`; ids are held as integers.
#[derive(Debug)]
pub enum OptionValue {
    /// The option being typed during autocompletion, with its kind and text.
    Autocomplete { kind: OptionKind, value: String },
    Boolean(bool),
    Integer(i64),
    Number(u64),
    String(String),
    SubCommand(Vec<OptionData>),
    SubCommandGroup(Vec<OptionData>),
    Attachment(u64),
    Channel(u64),
    Mentionable(u64),
    Role(u64),
    User(u64),
    Unknown(u8),
}

/// A named command option with its value.
#[derive(Debug)]
pub struct OptionData {
    pub name: String,
    pub value: OptionValue,
}

/// The kind of option that a value is for.
pub open spec fn value_kind(v: OptionValue) -> OptionKind {
    match v {
        OptionValue::Autocomplete { kind, .. } => kind,
        OptionValue::Boolean(_) => OptionKind::Boolean,
        OptionValue::Integer(_) => OptionKind::Integer,
        OptionValue::Number(_) => OptionKind::Number,
        OptionValue::String(_) => OptionKind::String,
        OptionValue::SubCommand(_) => OptionKind::SubCommand,
        OptionValue::SubCommandGroup(_) => OptionKind::SubCommandGroup,
        OptionValue::Attachment(_) => OptionKind::Attachment,
        OptionValue::Channel(_) => OptionKind::Channel,
        OptionValue::Mentionable(_) => OptionKind::Mentionable,
        OptionValue::Role(_) => OptionKind::Role,
        OptionValue::User(_) => OptionKind::User,
        OptionValue::Unknown(u) => OptionKind::Unknown(u),
    }
}

impl OptionValue {
    /// The kind of option that this value is for.
    pub fn kind(&self) -> (r: OptionKind)
        ensures
            r == value_kind(*self),
    {
        match self {
            OptionValue::Autocomplete { kind, .. } => *kind,
            OptionValue::Boolean(_) => OptionKind::Boolean,
            OptionValue::Integer(_) => OptionKind::Integer,
            OptionValue::Number(_) => OptionKind::Number,
            OptionValue::String(_) => OptionKind::String,
            OptionValue::SubCommand(_) => OptionKind::SubCommand,
            OptionValue::SubCommandGroup(_) => OptionKind::SubCommandGroup,
            OptionValue::Attachment(_) => OptionKind::Attachment,
            OptionValue::Channel(_) => OptionKind::Channel,
            OptionValue::Mentionable(_) => OptionKind::Mentionable,
            OptionValue::Role(_) => OptionKind::Role,
            OptionValue::User(_) => OptionKind::User,
            OptionValue::Unknown(u) => OptionKind::Unknown(*u),
        }
    }
}

/// The name of a kind, as its `Debug` form writes it.
pub open spec fn kind_name(k: OptionKind) -> Seq<char> {
    match k {
        OptionKind::SubCommand => "SubCommand"@,
        OptionKind::SubCommandGroup => "SubCommandGroup"@,
        OptionKind::String => "String"@,
        OptionKind::Integer => "Integer"@,
        OptionKind::Boolean => "Boolean"@,
        OptionKind::User => "User"@,
        OptionKind::Channel => "Channel"@,
        OptionKind::Role => "Role"@,
        OptionKind::Mentionable => "Mentionable"@,
        OptionKind::Number => "Number"@,
        OptionKind::Attachment => "Attachment"@,
        OptionKind::Unknown(u) => "Unknown("@ + crate::text::decimal_text(u as nat) + ")"@,
    }
}

/// Appends the name of the kind `k`.
fn append_kind_name(chars: &mut Vec<char>, k: OptionKind)
    ensures
        final(chars)@ == old(chars)@ + kind_name(k),
{
    match k {
        OptionKind::SubCommand => append_str(chars, "SubCommand"),
        OptionKind::SubCommandGroup => append_str(chars, "SubCommandGroup"),
        OptionKind::String => append_str(chars, "String"),
        OptionKind::Integer => append_str(chars, "Integer"),
        OptionKind::Boolean => append_str(chars, "Boolean"),
        OptionKind::User => append_str(chars, "User"),
        OptionKind::Channel => append_str(chars, "Channel"),
        OptionKind::Role => append_str(chars, "Role"),
        OptionKind::Mentionable => append_str(chars, "Mentionable"),
        OptionKind::Number => append_str(chars, "Number"),
        OptionKind::Attachment => append_str(chars, "Attachment"),
        OptionKind::Unknown(u) => {
            append_str(chars, "Unknown(");
            let text = crate::text::usize_to_string(u as usize);
            append_str(chars, text.as_str());
            append_str(chars, ")");
            assert(final(chars)@ =~= old(chars)@ + kind_name(k));
        },
    }
}

// ---------------------------------------------------------------------------
// Errors.

/// An error due to an unexpected value from the Discord API.
#[derive(Clone, Copy, Debug, PartialEq, Eq, Structural)]
pub enum DiscordError {
    /// A required option is missing.
    MissingRequiredOption,
    /// An option has a value of another kind than the option's.
    UnexpectedOptionType { expected: OptionKind, got: OptionKind },
    /// A string option's length in characters lies outside its bounds.
    StringLengthOutOfBounds { min: u16, max: u16, got: usize },
    /// An option that cannot be autocompleted is reported as focused.
    NotAutocompletable,
}

/// The message of a Discord error.
pub open spec fn discord_error_message(e: DiscordError) -> Seq<char> {
    match e {
        DiscordError::MissingRequiredOption => "command option should be required but is missing"@,
        DiscordError::UnexpectedOptionType { expected, got } => "command option should be "@ + kind_name(
            expected,
        ) + ", got "@ + kind_name(got),
        DiscordError::StringLengthOutOfBounds { min, max, got } => "command option should be between "@
            + crate::text::decimal_text(min as nat) + " and "@ + crate::text::decimal_text(max as nat)
            + " characters, got "@ + crate::text::decimal_text(got as nat),
        DiscordError::NotAutocompletable => "command option should not be autocompletable"@,
    }
}

impl DiscordError {
    /// The message of this error.
    pub fn message(&self) -> (r: String)
        ensures
            r@ == discord_error_message(*self),
    {
        let mut chars: Vec<char> = Vec::new();
        match self {
            DiscordError::MissingRequiredOption => {
                append_str(&mut chars, "command option should be required but is missing");
            },
            DiscordError::UnexpectedOptionType { expected, got } => {
                append_str(&mut chars, "command option should be ");
                append_kind_name(&mut chars, *expected);
                append_str(&mut chars, ", got ");
                append_kind_name(&mut chars, *got);
            },
            DiscordError::StringLengthOutOfBounds { min, max, got } => {
                append_str(&mut chars, "command option should be between ");
                let a = crate::text::usize_to_string(*min as usize);
                append_str(&mut chars, a.as_str());
                append_str(&mut chars, " and ");
                let b = crate::text::usize_to_string(*max as usize);
                append_str(&mut chars, b.as_str());
                append_str(&mut chars, " characters, got ");
                let c = crate::text::usize_to_string(*got);
                append_str(&mut chars, c.as_str());
            },
            DiscordError::NotAutocompletable => {
                append_str(&mut chars, "command option should not be autocompletable");
            },
        }
        string_of(chars.as_slice())
    }
}

/// The user entered an invalid value; the response that tells them what
/// they did wrong.
#[derive(Debug)]
pub struct UserError(pub Box<CreateInteractionResponseMessage>);

/// Why an interaction could not be handled.
#[derive(Debug)]
pub enum Error {
    User(UserError),
    Discord(DiscordError),
    /// An internal logic error, indicating a bug.
    Internal(AnyhowError),
}

/// The error for a value `data` where one for an option of kind `expected`
/// was due.
pub fn unexpected_type(expected: OptionKind, data: &OptionValue) -> (r: DiscordError)
    ensures
        r == (DiscordError::UnexpectedOptionType { expected, got: value_kind(*data) }),
{
    DiscordError::UnexpectedOptionType { expected, got: data.kind() }
}

// ---------------------------------------------------------------------------
// Resolving values.

/// What an option resolves to: a boolean, integer, number, string or id, or
/// nothing for an option that cannot be autocompleted.
#[derive(Clone, Copy, Debug, PartialEq, Eq, Structural)]
pub enum ValueType {
    Boolean,
    Integer,
    Number,
    String,
    Attachment,
    Channel,
    Role,
    User,
    Mentionable,
    NotAutocompletable,
}

/// A user or role.
#[derive(Clone, Copy, Debug, PartialEq, Eq, Structural, Hash)]
pub struct MentionableId {
    id: u64,
}

impl MentionableId {
    /// The id of the user or role.
    pub fn get(&self) -> (r: u64)
        ensures
            r == self.spec_id(),
    {
        self.id
    }

    /// The id of the user or role.
    pub closed spec fn spec_id(&self) -> u64 {
        self.id
    }
}

/// The user or role with the id `id`.
pub closed spec fn mentionable_of(id: u64) -> MentionableId {
    MentionableId { id }
}

/// The user or role with an id has that id.
pub proof fn lemma_mentionable_id(id: u64)
    ensures
        mentionable_of(id).spec_id() == id,
{
}

/// A resolved option value.
#[derive(Debug, PartialEq, Eq)]
pub enum Resolved {
    Boolean(bool),
    Integer(i64),
    /// The bits of an `f64`.
    Number(u64),
    String(String),
    Attachment(u64),
    Channel(u64),
    Role(u64),
    User(u64),
    Mentionable(MentionableId),
}

/// The kind of option that values of `ty` come from.
pub open spec fn type_kind(ty: ValueType) -> OptionKind {
    match ty {
        ValueType::Boolean => OptionKind::Boolean,
        ValueType::Integer => OptionKind::Integer,
        ValueType::Number => OptionKind::Number,
        ValueType::String => OptionKind::String,
        ValueType::Attachment => OptionKind::Attachment,
        ValueType::Channel => OptionKind::Channel,
        ValueType::Role => OptionKind::Role,
        ValueType::User => OptionKind::User,
        ValueType::Mentionable => OptionKind::Mentionable,
        ValueType::NotAutocompletable => OptionKind::Unknown(0),
    }
}

impl ValueType {
    /// The kind of option that values of this type come from.
    pub fn kind(&self) -> (r: OptionKind)
        requires
            *self != ValueType::NotAutocompletable,
        ensures
            r == type_kind(*self),
    {
        match self {
            ValueType::Boolean => OptionKind::Boolean,
            ValueType::Integer => OptionKind::Integer,
            ValueType::Number => OptionKind::Number,
            ValueType::String => OptionKind::String,
            ValueType::Attachment => OptionKind::Attachment,
            ValueType::Channel => OptionKind::Channel,
            ValueType::Role => OptionKind::Role,
            ValueType::User => OptionKind::User,
            ValueType::Mentionable => OptionKind::Mentionable,
            ValueType::NotAutocompletable => OptionKind::Unknown(0),
        }
    }
}

/// The value of type `ty` that `v` holds, if it holds one: the whole value
/// for the matching kind, nothing otherwise.
pub open spec fn resolve_spec(ty: ValueType, v: OptionValue) -> Option<Resolved> {
    match (ty, v) {
        (ValueType::Boolean, OptionValue::Boolean(b)) => Some(Resolved::Boolean(b)),
        (ValueType::Integer, OptionValue::Integer(i)) => Some(Resolved::Integer(i)),
        (ValueType::Number, OptionValue::Number(n)) => Some(Resolved::Number(n)),
        (ValueType::Attachment, OptionValue::Attachment(a)) => Some(Resolved::Attachment(a)),
        (ValueType::Channel, OptionValue::Channel(c)) => Some(Resolved::Channel(c)),
        (ValueType::Role, OptionValue::Role(r)) => Some(Resolved::Role(r)),
        (ValueType::User, OptionValue::User(u)) => Some(Resolved::User(u)),
        (ValueType::Mentionable, OptionValue::Mentionable(m)) => Some(
            Resolved::Mentionable(mentionable_of(m)),
        ),
        _ => None,
    }
}

/// The Discord error of a result, if it failed with one.
pub open spec fn discord_error_of<T>(r: Result<T, Error>) -> Option<DiscordError> {
    match r {
        Err(Error::Discord(e)) => Some(e),
        _ => None,
    }
}

/// The string that a result resolved to, if it resolved to one.
pub open spec fn resolved_text(r: Result<Resolved, Error>) -> Option<Seq<char>> {
    match r {
        Ok(Resolved::String(x)) => Some(x@),
        _ => None,
    }
}

/// The value is the empty string.
pub open spec fn is_taken_string(v: OptionValue) -> bool {
    v matches OptionValue::String(e) && e@.len() == 0
}

/// Resolves the present value `data` of an option to type `ty`. A string is
/// taken out of the value, which keeps an empty string.
pub fn resolve_required(ty: ValueType, data: &mut OptionValue) -> (r: Result<Resolved, Error>)
    ensures
        ty == ValueType::NotAutocompletable ==> discord_error_of(r) == Some(DiscordError::NotAutocompletable),
        ty == ValueType::String ==> match *old(data) {
            OptionValue::String(s) => resolved_text(r) == Some(s@) && is_taken_string(*final(data)),
            _ => discord_error_of(r) == Some(
                DiscordError::UnexpectedOptionType { expected: OptionKind::String, got: value_kind(*old(data)) },
            ) && *final(data) == *old(data),
        },
        ty != ValueType::NotAutocompletable && ty != ValueType::String ==> *final(data) == *old(data)
            && match resolve_spec(ty, *old(data)) {
            Some(x) => r == Ok::<Resolved, Error>(x),
            None => discord_error_of(r) == Some(
                DiscordError::UnexpectedOptionType { expected: type_kind(ty), got: value_kind(*old(data)) },
            ),
        },
{
    if let ValueType::NotAutocompletable = ty {
        return Err(Error::Discord(DiscordError::NotAutocompletable));
    }
    let kind = ty.kind();
    let found = match (ty, &*data) {
        (ValueType::Boolean, OptionValue::Boolean(b)) => Some(Resolved::Boolean(*b)),
        (ValueType::Integer, OptionValue::Integer(i)) => Some(Resolved::Integer(*i)),
        (ValueType::Number, OptionValue::Number(n)) => Some(Resolved::Number(*n)),
        (ValueType::Attachment, OptionValue::Attachment(a)) => Some(Resolved::Attachment(*a)),
        (ValueType::Channel, OptionValue::Channel(c)) => Some(Resolved::Channel(*c)),
        (ValueType::Role, OptionValue::Role(r)) => Some(Resolved::Role(*r)),
        (ValueType::User, OptionValue::User(u)) => Some(Resolved::User(*u)),
        (ValueType::Mentionable, OptionValue::Mentionable(m)) => Some(
            Resolved::Mentionable(MentionableId { id: *m }),
        ),
        _ => None,
    };
    if let Some(x) = found {
        return Ok(x);
    }
    if let ValueType::String = ty {
        if let OptionValue::String(s) = data {
            let mut taken = String::new();
            std::mem::swap(s, &mut taken);
            return Ok(Resolved::String(taken));
        }
    }
    Err(Error::Discord(unexpected_type(kind, data)))
}


/// Resolves a required option: fails where it is missing.
pub fn resolve(ty: ValueType, data: Option<&mut OptionValue>) -> (r: Result<Resolved, Error>)
    ensures
        data is None ==> discord_error_of(r) == Some(DiscordError::MissingRequiredOption),
        data matches Some(d) ==> ty != ValueType::NotAutocompletable && ty != ValueType::String ==> match resolve_spec(ty, *d) {
            Some(x) => r == Ok::<Resolved, Error>(x),
            None => discord_error_of(r) == Some(
                DiscordError::UnexpectedOptionType { expected: type_kind(ty), got: value_kind(*d) },
            ),
        },
        data matches Some(d) ==> ty == ValueType::NotAutocompletable ==> discord_error_of(r) == Some(
            DiscordError::NotAutocompletable,
        ),
        data matches Some(d) ==> ty == ValueType::String ==> match *d {
            OptionValue::String(s) => resolved_text(r) == Some(s@),
            _ => discord_error_of(r) == Some(
                DiscordError::UnexpectedOptionType { expected: OptionKind::String, got: value_kind(*d) },
            ),
        },
{
    match data {
        Some(d) => resolve_required(ty, d),
        None => Err(Error::Discord(DiscordError::MissingRequiredOption)),
    }
}


/// Resolves an optional option: nothing where it is missing.
pub fn resolve_optional(ty: ValueType, data: Option<&mut OptionValue>) -> (r: Result<Option<Resolved>, Error>)
    ensures
        data is None ==> r matches Ok(None),
        data matches Some(d) ==> ty != ValueType::NotAutocompletable && ty != ValueType::String ==> match resolve_spec(ty, *d) {
            Some(x) => r == Ok::<Option<Resolved>, Error>(Some(x)),
            None => discord_error_of(r) == Some(
                DiscordError::UnexpectedOptionType { expected: type_kind(ty), got: value_kind(*d) },
            ),
        },
        data matches Some(d) ==> ty == ValueType::NotAutocompletable ==> discord_error_of(r) == Some(
            DiscordError::NotAutocompletable,
        ),
        data matches Some(d) ==> ty == ValueType::String ==> match *d {
            OptionValue::String(s) => r matches Ok(Some(Resolved::String(x))) && x@ == s@,
            _ => discord_error_of(r) == Some(
                DiscordError::UnexpectedOptionType { expected: OptionKind::String, got: value_kind(*d) },
            ),
        },
{
    match data {
        Some(d) => match resolve_required(ty, d) {
            Ok(x) => Ok(Some(x)),
            Err(e) => Err(e),
        },
        None => Ok(None),
    }
}

/// A string whose length in characters lies between `MIN_LEN` and `MAX_LEN`.
#[derive(Debug)]
pub struct LenString<const MIN_LEN: u16, const MAX_LEN: u16> {
    value: String,
}

impl<const MIN_LEN: u16, const MAX_LEN: u16> View for LenString<MIN_LEN, MAX_LEN> {
    type V = Seq<char>;

    closed spec fn view(&self) -> Seq<char> {
        self.value@
    }
}

impl<const MIN_LEN: u16, const MAX_LEN: u16> LenString<MIN_LEN, MAX_LEN> {
    #[verifier::type_invariant]
    spec fn in_bounds(self) -> bool {
        MIN_LEN as nat <= self.value@.len() <= MAX_LEN as nat
    }

    /// The string, if its length in characters lies within the bounds.
    pub fn new(string: String) -> (r: Option<Self>)
        ensures
            match r {
                Some(x) => x@ == string@ && MIN_LEN as nat <= string@.len() <= MAX_LEN as nat,
                None => !(MIN_LEN as nat <= string@.len() <= MAX_LEN as nat),
            },
    {
        let len = string.as_str().unicode_len();
        if MIN_LEN as usize <= len && len <= MAX_LEN as usize {
            Some(LenString { value: string })
        } else {
            None
        }
    }

    /// The string.
    pub fn into_inner(self) -> (r: String)
        ensures
            r@ == self@,
            MIN_LEN as nat <= r@.len() <= MAX_LEN as nat,
    {
        proof {
            use_type_invariant(&self);
        }
        self.value
    }

    /// The string, borrowed.
    pub fn as_str(&self) -> (r: &str)
        ensures
            r@ == self@,
    {
        self.value.as_str()
    }
}

/// What resolving a bounded string gives for the string `s`.
pub open spec fn len_string_problem(min: u16, max: u16, s: Seq<char>) -> Option<DiscordError> {
    if min as nat <= s.len() <= max as nat {
        None
    } else {
        Some(DiscordError::StringLengthOutOfBounds { min, max, got: s.len() as usize })
    }
}

/// Resolves a present string option to a bounded string.
pub fn resolve_len_string<const MIN_LEN: u16, const MAX_LEN: u16>(data: &mut OptionValue) -> (r: Result<
    LenString<MIN_LEN, MAX_LEN>,
    Error,
>)
    ensures
        match *old(data) {
            OptionValue::String(s) => is_taken_string(*final(data)) && match len_string_problem(
                MIN_LEN,
                MAX_LEN,
                s@,
            ) {
                None => r matches Ok(x) && x@ == s@,
                Some(e) => discord_error_of(r) == Some(e),
            },
            _ => *final(data) == *old(data) && discord_error_of(r) == Some(
                DiscordError::UnexpectedOptionType { expected: OptionKind::String, got: value_kind(*old(data)) },
            ),
        },
{
    let string = match resolve_required(ValueType::String, data) {
        Ok(Resolved::String(s)) => s,
        Ok(_) => {
            return Err(Error::Discord(DiscordError::NotAutocompletable));
        },
        Err(e) => {
            return Err(e);
        },
    };
    let got = string.as_str().unicode_len();
    match LenString::<MIN_LEN, MAX_LEN>::new(string) {
        Some(x) => Ok(x),
        None => Err(Error::Discord(DiscordError::StringLengthOutOfBounds { min: MIN_LEN, max: MAX_LEN, got })),
    }
}

/// The unvalidated kinds that an autocompleted option is reported as while
/// it is not focused: strings, integers and numbers.
#[derive(Clone, Copy, Debug, PartialEq, Eq, Structural)]
pub enum Unvalidated {
    String,
    Integer,
    Number,
}

/// The value type of an unvalidated kind.
pub open spec fn unvalidated_type(u: Unvalidated) -> ValueType {
    match u {
        Unvalidated::String => ValueType::String,
        Unvalidated::Integer => ValueType::Integer,
        Unvalidated::Number => ValueType::Number,
    }
}

/// An autocompleted option during autocompletion.
#[derive(Debug)]
pub enum Autocompleted {
    /// Unfocused options are reported as unvalidated strings, integers or
    /// numbers.
    Unfocused(Option<Resolved>),
    /// The focused option is always reported as a string.
    Focused(String),
}

/// Resolves an autocompleted option whose unvalidated kind is `unvalidated`:
/// the text of the focused option, or the unvalidated value of another.
pub fn resolve_autocompleted(unvalidated: Unvalidated, data: Option<&mut OptionValue>) -> (r: Result<Autocompleted, Error>)
    ensures
        data is None ==> r matches Ok(Autocompleted::Unfocused(None)),
        data matches Some(d) ==> match *d {
            OptionValue::Autocomplete { kind, value } => if kind == type_kind(unvalidated_type(unvalidated)) {
                r matches Ok(Autocompleted::Focused(x)) && x@ == value@
            } else {
                discord_error_of(r) == Some(
                    DiscordError::UnexpectedOptionType { expected: type_kind(unvalidated_type(unvalidated)), got: kind },
                )
            },
            OptionValue::String(s) => if unvalidated == Unvalidated::String {
                r matches Ok(Autocompleted::Unfocused(Some(Resolved::String(x)))) && x@ == s@
            } else {
                discord_error_of(r) == Some(
                    DiscordError::UnexpectedOptionType { expected: type_kind(unvalidated_type(unvalidated)), got: OptionKind::String },
                )
            },
            _ => match resolve_spec(unvalidated_type(unvalidated), *d) {
                Some(x) => r == Ok::<Autocompleted, Error>(Autocompleted::Unfocused(Some(x))),
                None => discord_error_of(r) == Some(
                    DiscordError::UnexpectedOptionType { expected: type_kind(unvalidated_type(unvalidated)), got: value_kind(*d) },
                ),
            },
        },
{
    let ty = match unvalidated {
        Unvalidated::String => ValueType::String,
        Unvalidated::Integer => ValueType::Integer,
        Unvalidated::Number => ValueType::Number,
    };
    let d = match data {
        Some(d) => d,
        None => {
            return Ok(Autocompleted::Unfocused(None));
        },
    };
    let focused_kind = match &*d {
        OptionValue::Autocomplete { kind, .. } => Some(*kind),
        _ => None,
    };
    match focused_kind {
        None => match resolve_required(ty, d) {
            Ok(x) => Ok(Autocompleted::Unfocused(Some(x))),
            Err(e) => Err(e),
        },
        Some(kind) => {
            if kind == ty.kind() {
                match d {
                    OptionValue::Autocomplete { value, .. } => {
                        let mut taken = String::new();
                        std::mem::swap(value, &mut taken);
                        Ok(Autocompleted::Focused(taken))
                    },
                    _ => Ok(Autocompleted::Unfocused(None)),
                }
            } else {
                Err(Error::Discord(unexpected_type(ty.kind(), d)))
            }
        },
    }
}

// ---------------------------------------------------------------------------
// Creating options.

/// Bounds on the length of a string, in bytes.
#[derive(Clone, Copy, Debug, PartialEq, Eq, Structural)]
pub struct LengthBounds {
    pub min: u16,
    pub max: u16,
}

/// The shape of an option type: its kind, the bounds on the length of its
/// strings, and whether it is optional.
#[derive(Clone, Copy, Debug, PartialEq, Eq, Structural)]
pub struct OptionShape {
    pub kind: OptionKind,
    pub length: Option<LengthBounds>,
    pub optional: bool,
}

/// A command option as Discord is sent it, with the validation that
/// Discord does on its side.
#[derive(Clone, Debug, PartialEq, Eq)]
pub struct CreateOption {
    pub kind: OptionKind,
    pub name: String,
    pub description: String,
    pub required: bool,
    pub min_length: Option<u16>,
    pub max_length: Option<u16>,
}

/// The option `name` described by `description`, for a type of shape
/// `shape`: required unless the type is optional, with the length bounds of
/// the type.
pub fn create(shape: OptionShape, name: String, description: String) -> (r: CreateOption)
    ensures
        r.kind == shape.kind,
        r.name@ == name@,
        r.description@ == description@,
        r.required == !shape.optional,
        r.min_length == match shape.length {
            Some(b) => Some(b.min),
            None => None::<u16>,
        },
        r.max_length == match shape.length {
            Some(b) => Some(b.max),
            None => None::<u16>,
        },
{
    let (min_length, max_length) = match shape.length {
        Some(b) => (Some(b.min), Some(b.max)),
        None => (None, None),
    };
    CreateOption {
        kind: shape.kind,
        name,
        description,
        required: !shape.optional,
        min_length,
        max_length,
    }
}

} // verus!
