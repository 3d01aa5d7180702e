//! Resolving the options of a slash command interaction: finding each option
//! by name, descending into subcommands, the path of the command invoked,
//! and the conversion of integers and strings to the types of the options.

use std::num::TryFromIntError;

use anyhow::Error as AnyhowError;
use serenity::Error as SerenityError;
use vstd::prelude::*;

use crate::command::{CommandPath, PathView};
use crate::option::OptionKind;
use crate::text::str_eq;

verus! {

#[verifier::external_type_specification]
#[verifier::external_body]
pub struct ExSerenityError(SerenityError);

/// Why an option could not be resolved.
#[derive(Debug)]
pub enum ResolveError {
    Missing,
    Unresolvable,
    InvalidType,
    IntegerRangeError,
    NumberRangeError,
    StringLengthError,
    NoPartialMemberData,
    InvalidChoice,
    InvalidChannelType,
    TryFromIntError(TryFromIntError),
    Serenity(SerenityError),
    Other(AnyhowError),
}

/// The kind of failure of a resolve error, without its payload.
pub enum ResolveErrorKind {
    Missing,
    Unresolvable,
    InvalidType,
    IntegerRangeError,
    NumberRangeError,
    StringLengthError,
    NoPartialMemberData,
    InvalidChoice,
    InvalidChannelType,
    TryFromIntError,
    Serenity,
    Other,
}

/// The kind of failure of `e`.
pub open spec fn error_kind(e: ResolveError) -> ResolveErrorKind {
    match e {
        ResolveError::Missing => ResolveErrorKind::Missing,
        ResolveError::Unresolvable => ResolveErrorKind::Unresolvable,
        ResolveError::InvalidType => ResolveErrorKind::InvalidType,
        ResolveError::IntegerRangeError => ResolveErrorKind::IntegerRangeError,
        ResolveError::NumberRangeError => ResolveErrorKind::NumberRangeError,
        ResolveError::StringLengthError => ResolveErrorKind::StringLengthError,
        ResolveError::NoPartialMemberData => ResolveErrorKind::NoPartialMemberData,
        ResolveError::InvalidChoice => ResolveErrorKind::InvalidChoice,
        ResolveError::InvalidChannelType => ResolveErrorKind::InvalidChannelType,
        ResolveError::TryFromIntError(_) => ResolveErrorKind::TryFromIntError,
        ResolveError::Serenity(_) => ResolveErrorKind::Serenity,
        ResolveError::Other(_) => ResolveErrorKind::Other,
    }
}

/// An option of a command interaction: its name and kind, its own options
/// (for a subcommand or group), its resolved value, if Discord gave one, and
/// whether it is the option being typed during autocompletion.
#[derive(Debug)]
pub struct DataOption<R> {
    pub name: String,
    pub kind: OptionKind,
    pub options: Vec<DataOption<R>>,
    pub resolved: Option<R>,
    pub focused: bool,
}

/// What an option is resolved with: the option, if given, and the means to
/// reach Discord.
#[derive(Debug)]
pub struct ResolveContext<H, R> {
    pub option: Option<DataOption<R>>,
    pub http: H,
}

/// A resolved option value: a string, integer, boolean, user with the
/// member data of the guild, channel, role, number (the bits of its `f64`)
/// or attachment.
#[derive(Debug)]
pub enum ResolvedValue<U, M, Ro, Ch, At> {
    String(String),
    Integer(i64),
    Boolean(bool),
    User(U, Option<M>),
    Channel(Ch),
    Role(Ro),
    Number(u64),
    Attachment(At),
}

/// A user, with the member data of the guild if any, or a role.
#[derive(Debug)]
pub enum Mentionable<U, M, Ro> {
    User(U, Option<M>),
    Role(Ro),
}

/// A choice of a string option: the name shown and the value sent.
#[derive(Clone, Debug, PartialEq, Eq, Hash)]
pub struct Choice {
    pub name: String,
    pub value: String,
}

/// An option value whose option is autocompleted.
#[derive(Clone, Copy, Debug, PartialEq, Eq, Hash)]
pub struct Autocomplete<T>(pub T);

/// An option value with whether its option is the one being typed.
#[derive(Clone, Copy, Debug, PartialEq, Eq, Hash)]
pub struct Focusable<T> {
    pub has_focus: bool,
    pub current: T,
}

/// Whether the option is given and is the one being typed.
pub fn has_focus<R>(option: &Option<DataOption<R>>) -> (r: bool)
    ensures
        r == (option matches Some(o) && o.focused),
{
    match option {
        Some(o) => o.focused,
        None => false,
    }
}

/// The resolved value of an option that must be given.
pub fn resolve_option<R>(option: Option<DataOption<R>>) -> (r: Result<R, ResolveError>)
    ensures
        match option {
            None => r matches Err(e) && error_kind(e) == ResolveErrorKind::Missing,
            Some(o) => match o.resolved {
                Some(v) => r == Ok::<R, ResolveError>(v),
                None => r matches Err(e) && error_kind(e) == ResolveErrorKind::Unresolvable,
            },
        },
{
    match option {
        None => Err(ResolveError::Missing),
        Some(o) => match o.resolved {
            Some(v) => Ok(v),
            None => Err(ResolveError::Unresolvable),
        },
    }
}

// ---------------------------------------------------------------------------
// Finding options by name.

/// `o` is an option named `n`.
pub open spec fn named<R>(o: Option<DataOption<R>>, n: Seq<char>) -> bool {
    o matches Some(x) && x.name@ == n
}

/// The position of the first option in `pool` still there whose name is `n`.
pub open spec fn first_named<R>(pool: Seq<Option<DataOption<R>>>, n: Seq<char>, k: int) -> bool {
    &&& 0 <= k < pool.len()
    &&& named(pool[k], n)
    &&& forall|j: int| 0 <= j < k ==> !named(#[trigger] pool[j], n)
}

/// Some option in `pool` has the name `n`.
pub open spec fn has_named<R>(pool: Seq<Option<DataOption<R>>>, n: Seq<char>) -> bool {
    exists|k: int| 0 <= k < pool.len() && named(#[trigger] pool[k], n)
}

/// The options found for the names, in their order, each taking the first
/// option of its name that no earlier name took; and the options left.
pub open spec fn find_spec<R>(names: Seq<Seq<char>>, pool: Seq<Option<DataOption<R>>>) -> (
    Seq<Option<DataOption<R>>>,
    Seq<Option<DataOption<R>>>,
)
    decreases names.len(),
{
    if names.len() == 0 {
        (Seq::empty(), pool)
    } else {
        let (found, left) = find_spec(names.drop_last(), pool);
        let n = names.last();
        if has_named(left, n) {
            let k = first_pos(left, n);
            (found.push(left[k]), left.update(k, None))
        } else {
            (found.push(None), left)
        }
    }
}

/// The position of the first option in `pool` named `n`, where there is one.
pub open spec fn first_pos<R>(pool: Seq<Option<DataOption<R>>>, n: Seq<char>) -> int {
    choose|k: int| first_named(pool, n, k)
}

/// Where each option that `find_spec` finds for the names stood in the pool;
/// -1 for a name that found none.
pub open spec fn find_origins<R>(names: Seq<Seq<char>>, pool: Seq<Option<DataOption<R>>>) -> Seq<int>
    decreases names.len(),
{
    if names.len() == 0 {
        Seq::empty()
    } else {
        let left = find_spec(names.drop_last(), pool).1;
        let n = names.last();
        if has_named(left, n) {
            find_origins(names.drop_last(), pool).push(first_pos(left, n))
        } else {
            find_origins(names.drop_last(), pool).push(-1)
        }
    }
}

/// The text of the names.
pub open spec fn names_text(names: Seq<&str>) -> Seq<Seq<char>> {
    names.map_values(|n: &str| n@)
}

/// The options wrapped for finding.
pub open spec fn pool_of<R>(options: Seq<DataOption<R>>) -> Seq<Option<DataOption<R>>> {
    options.map_values(|o: DataOption<R>| Some(o))
}

/// The position of the first option in `pool` named `name`, if any.
fn find_named<R>(pool: &Vec<Option<DataOption<R>>>, name: &str) -> (r: Option<usize>)
    ensures
        match r {
            Some(k) => first_named(pool@, name@, k as int),
            None => !has_named(pool@, name@),
        },
{
    let mut k: usize = 0;
    while k < pool.len()
        invariant
            k <= pool@.len(),
            forall|j: int| 0 <= j < k ==> !named(#[trigger] pool@[j], name@),
        decreases pool@.len() - k,
    {
        let is_match = match &pool[k] {
            Some(o) => str_eq(o.name.as_str(), name),
            None => false,
        };
        if is_match {
            return Some(k);
        }
        k += 1;
    }
    None
}

/// For each name, in order, the first option of that name that no earlier
/// name took, if any.
pub fn find_options<R>(names: &Vec<&str>, options: Vec<DataOption<R>>) -> (r: Vec<Option<DataOption<R>>>)
    ensures
        r@ == find_spec(names_text(names@), pool_of(options@)).0,
{
    let ghost nt = names_text(names@);
    let ghost start = pool_of(options@);
    let mut pool: Vec<Option<DataOption<R>>> = Vec::new();
    let mut rest = options;
    let ghost n0 = rest@.len();
    while rest.len() > 0
        invariant
            n0 == start.len(),
            pool@.len() + rest@.len() == n0,
            pool@ == start.take(pool@.len() as int),
            pool_of(rest@) == start.skip(pool@.len() as int),
        decreases rest@.len(),
    {
        let ghost m: int = pool@.len() as int;
        let ghost before = pool_of(rest@);
        let o = rest.remove(0);
        assert(before[0] == Some(o));
        pool.push(Some(o));
        assert(pool@ =~= start.take(m + 1));
        assert(pool_of(rest@) =~= before.drop_first());
        assert(before.drop_first() =~= start.skip(m + 1));
    }
    assert(pool@ =~= start);
    let mut found: Vec<Option<DataOption<R>>> = Vec::new();
    let mut i: usize = 0;
    while i < names.len()
        invariant
            nt == names_text(names@),
            i <= names@.len(),
            (found@, pool@) == find_spec(nt.take(i as int), start),
        decreases names@.len() - i,
    {
        let name = names[i];
        let ghost pool_before = pool@;
        let ghost found_before = found@;
        assert(nt.take(i + 1).drop_last() =~= nt.take(i as int));
        assert(nt.take(i + 1).last() == name@);
        let hit = find_named(&pool, name);
        match hit {
            Some(k) => {
                assert(named(pool_before[k as int], name@));
                assert(has_named(pool_before, name@));
                proof {
                    let c = choose|c: int| first_named(pool_before, name@, c);
                    if c < k {
                        assert(!named(pool_before[c], name@));
                    }
                    if k < c {
                        assert(!named(pool_before[k as int], name@));
                    }
                }
                let taken = pool.remove(k);
                pool.insert(k, None);
                assert(pool@ =~= pool_before.update(k as int, None));
                found.push(taken);
            },
            None => {
                found.push(None);
            },
        }
        i += 1;
    }
    assert(nt.take(i as int) =~= nt);
    found
}

// ---------------------------------------------------------------------------
// Subcommands.

/// The options of the command invoked: those of a sole subcommand, or of
/// the sole subcommand of a sole group, or the options as given.
pub open spec fn command_options_spec<R>(options: Seq<DataOption<R>>) -> Seq<DataOption<R>> {
    if options.len() != 1 {
        options
    } else if options[0].kind == OptionKind::SubCommand || options[0].kind == OptionKind::SubCommandGroup {
        let group = options[0].options@;
        if group.len() != 1 {
            group
        } else if group[0].kind == OptionKind::SubCommand {
            group[0].options@
        } else {
            group
        }
    } else {
        options
    }
}

/// The options of the command invoked, descending into a sole subcommand or
/// group.
pub fn resolve_command_options<R>(options: Vec<DataOption<R>>) -> (r: Vec<DataOption<R>>)
    ensures
        r@ == command_options_spec(options@),
{
    let mut options = options;
    if options.len() != 1 {
        options
    } else if options[0].kind == OptionKind::SubCommand || options[0].kind == OptionKind::SubCommandGroup {
        let group = options.remove(0);
        let mut group_options = group.options;
        if group_options.len() != 1 {
            group_options
        } else if group_options[0].kind == OptionKind::SubCommand {
            group_options.remove(0).options
        } else {
            group_options
        }
    } else {
        options
    }
}

/// The path of the command invoked as `name` with the options `options`.
pub open spec fn resolve_path_spec<R>(name: Seq<char>, options: Seq<DataOption<R>>) -> PathView {
    if options.len() == 1 && (options[0].kind == OptionKind::SubCommand || options[0].kind
        == OptionKind::SubCommandGroup) {
        let group = options[0];
        if group.options@.len() == 1 && group.options@[0].kind == OptionKind::SubCommand {
            PathView::Grouped(name, group.name@, group.options@[0].name@)
        } else {
            PathView::Subcommand(name, group.name@)
        }
    } else {
        PathView::Command(name)
    }
}

impl CommandPath {
    /// The path of the command invoked as `name` with the options `options`.
    pub fn resolve<R>(name: &String, options: &Vec<DataOption<R>>) -> (r: CommandPath)
        ensures
            r@ == resolve_path_spec(name@, options@),
    {
        if options.len() == 1 && (options[0].kind == OptionKind::SubCommand || options[0].kind
            == OptionKind::SubCommandGroup) {
            let group = &options[0];
            if group.options.len() == 1 && group.options[0].kind == OptionKind::SubCommand {
                CommandPath::Grouped {
                    name: name.clone(),
                    group: group.name.clone(),
                    subcommand: group.options[0].name.clone(),
                }
            } else {
                CommandPath::Subcommand { name: name.clone(), subcommand: group.name.clone() }
            }
        } else {
            CommandPath::Command { name: name.clone() }
        }
    }
}

/// The path of a command and the options it is run with agree: a plain
/// command keeps all options; a subcommand (a sole subcommand or group option
/// whose options are not one subcommand) is named after that option and gets
/// all of its options, however many; a subcommand in a group is named after
/// the group and its sole subcommand and gets that subcommand's options.
pub proof fn lemma_path_and_options_agree<R>(name: Seq<char>, options: Seq<DataOption<R>>)
    ensures
        match resolve_path_spec(name, options) {
            PathView::Command(n) => n == name && command_options_spec(options) == options,
            PathView::Subcommand(n, s) => {
                &&& n == name
                &&& options.len() == 1
                &&& (options[0].kind == OptionKind::SubCommand || options[0].kind == OptionKind::SubCommandGroup)
                &&& s == options[0].name@
                &&& !(options[0].options@.len() == 1 && options[0].options@[0].kind == OptionKind::SubCommand)
                &&& command_options_spec(options) == options[0].options@
            },
            PathView::Grouped(n, g, s) => {
                &&& n == name
                &&& options.len() == 1
                &&& (options[0].kind == OptionKind::SubCommand || options[0].kind == OptionKind::SubCommandGroup)
                &&& g == options[0].name@
                &&& options[0].options@.len() == 1
                &&& options[0].options@[0].kind == OptionKind::SubCommand
                &&& s == options[0].options@[0].name@
                &&& command_options_spec(options) == options[0].options@[0].options@
            },
        },
{
}

/// A sole subcommand option whose own options are values, however many,
/// invokes that subcommand with exactly those options.
pub proof fn lemma_sole_subcommand<R>(name: Seq<char>, options: Seq<DataOption<R>>)
    requires
        options.len() == 1,
        options[0].kind == OptionKind::SubCommand,
        forall|i: int| 0 <= i < options[0].options@.len() ==> (#[trigger] options[0].options@[i]).kind
            != OptionKind::SubCommand,
    ensures
        resolve_path_spec(name, options) == PathView::Subcommand(name, options[0].name@),
        command_options_spec(options) == options[0].options@,
{
    if options[0].options@.len() == 1 {
        assert(options[0].options@[0].kind != OptionKind::SubCommand);
    }
}

/// Options that are not a sole subcommand or group invoke the command itself
/// with all of them.
pub proof fn lemma_plain_command<R>(name: Seq<char>, options: Seq<DataOption<R>>)
    requires
        !(options.len() == 1 && (options[0].kind == OptionKind::SubCommand || options[0].kind
            == OptionKind::SubCommandGroup)),
    ensures
        resolve_path_spec(name, options) == PathView::Command(name),
        command_options_spec(options) == options,
{
}

// ---------------------------------------------------------------------------
// Integers and bounded strings.

/// The smallest integer that Discord accepts.
pub const DISCORD_MIN_INTEGER: i64 = -9007199254740991;

/// The largest integer that Discord accepts.
pub const DISCORD_MAX_INTEGER: i64 = 9007199254740991;

/// The integer types that options resolve to, besides `i64` itself.
#[derive(Clone, Copy, Debug, PartialEq, Eq, Structural)]
pub enum IntegerType {
    I8,
    I16,
    I32,
    I128,
    Isize,
    U8,
    U16,
    U32,
    U64,
    U128,
    Usize,
}

/// The smallest value of an integer type.
pub open spec fn type_min(t: IntegerType) -> int {
    match t {
        IntegerType::I8 => i8::MIN as int,
        IntegerType::I16 => i16::MIN as int,
        IntegerType::I32 => i32::MIN as int,
        IntegerType::I128 => i128::MIN as int,
        IntegerType::Isize => isize::MIN as int,
        _ => 0,
    }
}

/// The largest value of an integer type.
pub open spec fn type_max(t: IntegerType) -> int {
    match t {
        IntegerType::I8 => i8::MAX as int,
        IntegerType::I16 => i16::MAX as int,
        IntegerType::I32 => i32::MAX as int,
        IntegerType::I128 => i128::MAX as int,
        IntegerType::Isize => isize::MAX as int,
        IntegerType::U8 => u8::MAX as int,
        IntegerType::U16 => u16::MAX as int,
        IntegerType::U32 => u32::MAX as int,
        IntegerType::U64 => u64::MAX as int,
        IntegerType::U128 => u128::MAX as int,
        IntegerType::Usize => usize::MAX as int,
    }
}

/// `x` as an `i64`, if it is one.
pub open spec fn as_i64(x: int) -> Option<int> {
    if i64::MIN <= x <= i64::MAX {
        Some(x)
    } else {
        None
    }
}

/// The bounds that an option of integer type `t` asks Discord to check: the
/// type's bounds that are `i64` values, clamped to what Discord accepts.
pub open spec fn integer_bounds_spec(t: IntegerType) -> (Option<int>, Option<int>) {
    (
        match as_i64(type_min(t)) {
            Some(m) => Some(if m < DISCORD_MIN_INTEGER { DISCORD_MIN_INTEGER as int } else { m }),
            None => None,
        },
        match as_i64(type_max(t)) {
            Some(m) => Some(if m > DISCORD_MAX_INTEGER { DISCORD_MAX_INTEGER as int } else { m }),
            None => None,
        },
    )
}

/// The least and greatest values that an option of integer type `t` asks
/// Discord to accept.
pub fn integer_bounds(t: IntegerType) -> (r: (Option<i64>, Option<i64>))
    ensures
        (
            match r.0 {
                Some(x) => Some(x as int),
                None => None,
            },
            match r.1 {
                Some(x) => Some(x as int),
                None => None,
            },
        ) == integer_bounds_spec(t),
{
    let min: Option<i64> = match t {
        IntegerType::I8 => Some(-128),
        IntegerType::I16 => Some(-32768),
        IntegerType::I32 => Some(-2147483648),
        IntegerType::I128 => None,
        IntegerType::Isize => Some(isize_min_as_i64()),
        _ => Some(0),
    };
    let max: Option<i64> = match t {
        IntegerType::I8 => Some(127),
        IntegerType::I16 => Some(32767),
        IntegerType::I32 => Some(2147483647),
        IntegerType::I128 => None,
        IntegerType::Isize => Some(isize_max_as_i64()),
        IntegerType::U8 => Some(255),
        IntegerType::U16 => Some(65535),
        IntegerType::U32 => Some(4294967295),
        IntegerType::U64 => None,
        IntegerType::U128 => None,
        IntegerType::Usize => usize_max_as_i64(),
    };
    let min = match min {
        Some(m) => Some(if m < DISCORD_MIN_INTEGER { DISCORD_MIN_INTEGER } else { m }),
        None => None,
    };
    let max = match max {
        Some(m) => Some(if m > DISCORD_MAX_INTEGER { DISCORD_MAX_INTEGER } else { m }),
        None => None,
    };
    (min, max)
}

/// `isize::MIN` as an `i64`.
fn isize_min_as_i64() -> (r: i64)
    ensures
        r == isize::MIN,
{
    let m = isize::MIN;
    assert(i64::MIN <= m);
    m as i64
}

/// `isize::MAX` as an `i64`.
fn isize_max_as_i64() -> (r: i64)
    ensures
        r == isize::MAX,
{
    let m = isize::MAX;
    assert(m <= i64::MAX);
    m as i64
}

/// `usize::MAX` as an `i64`, if it is one.
fn usize_max_as_i64() -> (r: Option<i64>)
    ensures
        r == match as_i64(usize::MAX as int) {
            Some(x) => Some(x as i64),
            None => None::<i64>,
        },
{
    let m = usize::MAX;
    if (m as u64) <= 9223372036854775807u64 {
        Some(m as i64)
    } else {
        None
    }
}

/// Whether a bounded string of length bounds `min` and `max`, in
/// characters, accepts `s`.
pub open spec fn string_in_bounds(min: Option<u16>, max: Option<u16>, s: Seq<char>) -> bool {
    &&& match min {
        Some(m) => s.len() >= m,
        None => true,
    }
    &&& match max {
        Some(m) => s.len() <= m,
        None => true,
    }
}

/// The string `value` as a bounded string of length bounds `min` and `max`,
/// in characters; fails where its length lies outside them.
pub fn bounded_string(min: Option<u16>, max: Option<u16>, value: String) -> (r: Result<String, ResolveError>)
    ensures
        string_in_bounds(min, max, value@) ==> (r matches Ok(s) && s@ == value@),
        !string_in_bounds(min, max, value@) ==> (r matches Err(e) && error_kind(e) == ResolveErrorKind::StringLengthError),
{
    let len = value.as_str().unicode_len();
    let min_ok = match min {
        Some(m) => len >= m as usize,
        None => true,
    };
    let max_ok = match max {
        Some(m) => len <= m as usize,
        None => true,
    };
    if min_ok && max_ok {
        Ok(value)
    } else {
        Err(ResolveError::StringLengthError)
    }
}


/// `value` as a value of integer type `t`: `TryFrom<i64>` of that type.
pub fn resolve_integer(t: IntegerType, value: i64) -> (r: Result<i128, ResolveError>)
    ensures
        type_min(t) <= value <= type_max(t) ==> r == Ok::<i128, ResolveError>(value as i128),
        !(type_min(t) <= value <= type_max(t)) ==> (r matches Err(e) && error_kind(e) == ResolveErrorKind::TryFromIntError),
{
    let converted: Result<i128, TryFromIntError> = match t {
        IntegerType::I8 => match i8::try_from(value) {
            Ok(x) => Ok(x as i128),
            Err(e) => Err(e),
        },
        IntegerType::I16 => match i16::try_from(value) {
            Ok(x) => Ok(x as i128),
            Err(e) => Err(e),
        },
        IntegerType::I32 => match i32::try_from(value) {
            Ok(x) => Ok(x as i128),
            Err(e) => Err(e),
        },
        IntegerType::I128 => Ok(value as i128),
        IntegerType::Isize => match isize::try_from(value) {
            Ok(x) => Ok(x as i128),
            Err(e) => Err(e),
        },
        IntegerType::U8 => match u8::try_from(value) {
            Ok(x) => Ok(x as i128),
            Err(e) => Err(e),
        },
        IntegerType::U16 => match u16::try_from(value) {
            Ok(x) => Ok(x as i128),
            Err(e) => Err(e),
        },
        IntegerType::U32 => match u32::try_from(value) {
            Ok(x) => Ok(x as i128),
            Err(e) => Err(e),
        },
        IntegerType::U64 => match u64::try_from(value) {
            Ok(x) => Ok(x as i128),
            Err(e) => Err(e),
        },
        IntegerType::U128 => match u128::try_from(value) {
            Ok(x) => Ok(x as i128),
            Err(e) => Err(e),
        },
        IntegerType::Usize => match usize::try_from(value) {
            Ok(x) => Ok(x as i128),
            Err(e) => Err(e),
        },
    };
    match converted {
        Ok(x) => Ok(x),
        Err(e) => Err(ResolveError::TryFromIntError(e)),
    }
}

/// `value` as a value of integer type `t` between `min` and `max`, as a
/// bounded integer of that type resolves it.
pub fn resolve_bounded_integer(t: IntegerType, min: i128, max: i128, value: i64) -> (r: Result<
    i128,
    ResolveError,
>)
    ensures
        !(type_min(t) <= value <= type_max(t)) ==> (r matches Err(e) && error_kind(e) == ResolveErrorKind::TryFromIntError),
        type_min(t) <= value <= type_max(t) && min <= value <= max ==> r == Ok::<i128, ResolveError>(value as i128),
        type_min(t) <= value <= type_max(t) && !(min <= value <= max) ==> (r matches Err(e) && error_kind(e)
            == ResolveErrorKind::IntegerRangeError),
{
    match resolve_integer(t, value) {
        Ok(x) => if min <= x && x <= max {
            Ok(x)
        } else {
            Err(ResolveError::IntegerRangeError)
        },
        Err(e) => Err(e),
    }
}


// ---------------------------------------------------------------------------
// Resolving values by type.

/// What the value of the given option resolves to, or why it does not.
pub open spec fn value_of<R>(option: Option<DataOption<R>>) -> Result<R, ResolveErrorKind> {
    match option {
        None => Err(ResolveErrorKind::Missing),
        Some(o) => match o.resolved {
            Some(v) => Ok(v),
            None => Err(ResolveErrorKind::Unresolvable),
        },
    }
}

/// The kind of error of a failed result, if it failed.
pub open spec fn failure<T>(r: Result<T, ResolveError>) -> Option<ResolveErrorKind> {
    match r {
        Ok(_) => None,
        Err(e) => Some(error_kind(e)),
    }
}

/// Resolves a string option.
pub fn resolve_string<U, M, Ro, Ch, At>(option: Option<DataOption<ResolvedValue<U, M, Ro, Ch, At>>>) -> (r: Result<
    String,
    ResolveError,
>)
    ensures
        match value_of(option) {
            Err(k) => failure(r) == Some(k),
            Ok(ResolvedValue::String(s)) => r matches Ok(x) && x == s,
            Ok(_) => failure(r) == Some(ResolveErrorKind::InvalidType),
        },
{
    match resolve_option(option) {
        Ok(ResolvedValue::String(s)) => Ok(s),
        Ok(_) => Err(ResolveError::InvalidType),
        Err(e) => Err(e),
    }
}

/// Resolves an `i64` option.
pub fn resolve_i64<U, M, Ro, Ch, At>(option: Option<DataOption<ResolvedValue<U, M, Ro, Ch, At>>>) -> (r: Result<
    i64,
    ResolveError,
>)
    ensures
        match value_of(option) {
            Err(k) => failure(r) == Some(k),
            Ok(ResolvedValue::Integer(i)) => r matches Ok(x) && x == i,
            Ok(_) => failure(r) == Some(ResolveErrorKind::InvalidType),
        },
{
    match resolve_option(option) {
        Ok(ResolvedValue::Integer(i)) => Ok(i),
        Ok(_) => Err(ResolveError::InvalidType),
        Err(e) => Err(e),
    }
}

/// Resolves a boolean option.
pub fn resolve_bool<U, M, Ro, Ch, At>(option: Option<DataOption<ResolvedValue<U, M, Ro, Ch, At>>>) -> (r: Result<
    bool,
    ResolveError,
>)
    ensures
        match value_of(option) {
            Err(k) => failure(r) == Some(k),
            Ok(ResolvedValue::Boolean(b)) => r matches Ok(x) && x == b,
            Ok(_) => failure(r) == Some(ResolveErrorKind::InvalidType),
        },
{
    match resolve_option(option) {
        Ok(ResolvedValue::Boolean(b)) => Ok(b),
        Ok(_) => Err(ResolveError::InvalidType),
        Err(e) => Err(e),
    }
}

/// Resolves a number option to the bits of its `f64`.
pub fn resolve_number<U, M, Ro, Ch, At>(option: Option<DataOption<ResolvedValue<U, M, Ro, Ch, At>>>) -> (r: Result<
    u64,
    ResolveError,
>)
    ensures
        match value_of(option) {
            Err(k) => failure(r) == Some(k),
            Ok(ResolvedValue::Number(n)) => r matches Ok(x) && x == n,
            Ok(_) => failure(r) == Some(ResolveErrorKind::InvalidType),
        },
{
    match resolve_option(option) {
        Ok(ResolvedValue::Number(n)) => Ok(n),
        Ok(_) => Err(ResolveError::InvalidType),
        Err(e) => Err(e),
    }
}

/// Resolves a channel option.
pub fn resolve_channel<U, M, Ro, Ch, At>(option: Option<DataOption<ResolvedValue<U, M, Ro, Ch, At>>>) -> (r: Result<
    Ch,
    ResolveError,
>)
    ensures
        match value_of(option) {
            Err(k) => failure(r) == Some(k),
            Ok(ResolvedValue::Channel(c)) => r matches Ok(x) && x == c,
            Ok(_) => failure(r) == Some(ResolveErrorKind::InvalidType),
        },
{
    match resolve_option(option) {
        Ok(ResolvedValue::Channel(c)) => Ok(c),
        Ok(_) => Err(ResolveError::InvalidType),
        Err(e) => Err(e),
    }
}

/// Resolves a role option.
pub fn resolve_role<U, M, Ro, Ch, At>(option: Option<DataOption<ResolvedValue<U, M, Ro, Ch, At>>>) -> (r: Result<
    Ro,
    ResolveError,
>)
    ensures
        match value_of(option) {
            Err(k) => failure(r) == Some(k),
            Ok(ResolvedValue::Role(x)) => r matches Ok(y) && y == x,
            Ok(_) => failure(r) == Some(ResolveErrorKind::InvalidType),
        },
{
    match resolve_option(option) {
        Ok(ResolvedValue::Role(x)) => Ok(x),
        Ok(_) => Err(ResolveError::InvalidType),
        Err(e) => Err(e),
    }
}

/// Resolves an attachment option.
pub fn resolve_attachment<U, M, Ro, Ch, At>(option: Option<DataOption<ResolvedValue<U, M, Ro, Ch, At>>>) -> (r: Result<
    At,
    ResolveError,
>)
    ensures
        match value_of(option) {
            Err(k) => failure(r) == Some(k),
            Ok(ResolvedValue::Attachment(a)) => r matches Ok(x) && x == a,
            Ok(_) => failure(r) == Some(ResolveErrorKind::InvalidType),
        },
{
    match resolve_option(option) {
        Ok(ResolvedValue::Attachment(a)) => Ok(a),
        Ok(_) => Err(ResolveError::InvalidType),
        Err(e) => Err(e),
    }
}

/// Resolves a user option.
pub fn resolve_user<U, M, Ro, Ch, At>(option: Option<DataOption<ResolvedValue<U, M, Ro, Ch, At>>>) -> (r: Result<
    U,
    ResolveError,
>)
    ensures
        match value_of(option) {
            Err(k) => failure(r) == Some(k),
            Ok(ResolvedValue::User(u, _)) => r matches Ok(x) && x == u,
            Ok(_) => failure(r) == Some(ResolveErrorKind::InvalidType),
        },
{
    match resolve_option(option) {
        Ok(ResolvedValue::User(u, _)) => Ok(u),
        Ok(_) => Err(ResolveError::InvalidType),
        Err(e) => Err(e),
    }
}

/// Resolves a user option to the member data of the guild.
pub fn resolve_partial_member<U, M, Ro, Ch, At>(option: Option<DataOption<ResolvedValue<U, M, Ro, Ch, At>>>) -> (r: Result<
    M,
    ResolveError,
>)
    ensures
        match value_of(option) {
            Err(k) => failure(r) == Some(k),
            Ok(ResolvedValue::User(_, Some(m))) => r matches Ok(x) && x == m,
            Ok(ResolvedValue::User(_, None)) => failure(r) == Some(ResolveErrorKind::NoPartialMemberData),
            Ok(_) => failure(r) == Some(ResolveErrorKind::InvalidType),
        },
{
    match resolve_option(option) {
        Ok(ResolvedValue::User(_, Some(m))) => Ok(m),
        Ok(ResolvedValue::User(_, None)) => Err(ResolveError::NoPartialMemberData),
        Ok(_) => Err(ResolveError::InvalidType),
        Err(e) => Err(e),
    }
}

/// Resolves a mentionable option: a user or a role.
pub fn resolve_mentionable<U, M, Ro, Ch, At>(option: Option<DataOption<ResolvedValue<U, M, Ro, Ch, At>>>) -> (r: Result<
    Mentionable<U, M, Ro>,
    ResolveError,
>)
    ensures
        match value_of(option) {
            Err(k) => failure(r) == Some(k),
            Ok(ResolvedValue::User(u, m)) => r matches Ok(Mentionable::User(x, y)) && x == u && y == m,
            Ok(ResolvedValue::Role(x)) => r matches Ok(Mentionable::Role(y)) && y == x,
            Ok(_) => failure(r) == Some(ResolveErrorKind::InvalidType),
        },
{
    match resolve_option(option) {
        Ok(ResolvedValue::User(u, m)) => Ok(Mentionable::User(u, m)),
        Ok(ResolvedValue::Role(x)) => Ok(Mentionable::Role(x)),
        Ok(_) => Err(ResolveError::InvalidType),
        Err(e) => Err(e),
    }
}


/// Where some option is named `n`, a first one is.
proof fn lemma_first_named_exists<R>(pool: Seq<Option<DataOption<R>>>, n: Seq<char>, k: int)
    requires
        0 <= k < pool.len(),
        named(pool[k], n),
    ensures
        exists|j: int| first_named(pool, n, j),
    decreases k,
{
    if exists|j: int| 0 <= j < k && named(#[trigger] pool[j], n) {
        let j = choose|j: int| 0 <= j < k && named(#[trigger] pool[j], n);
        lemma_first_named_exists(pool, n, j);
    } else {
        assert(first_named(pool, n, k));
    }
}

/// Finding options by name gives one result per name; each option found
/// carries the name it was found for and is the option at its origin in the
/// pool; no option of the pool is found twice; and the options left are those
/// of the pool, with each one found taken out.
pub proof fn lemma_found_options_named<R>(names: Seq<Seq<char>>, pool: Seq<Option<DataOption<R>>>)
    ensures
        find_spec(names, pool).0.len() == names.len(),
        find_spec(names, pool).1.len() == pool.len(),
        find_origins(names, pool).len() == names.len(),
        forall|i: int|
            0 <= i < names.len() ==> (#[trigger] find_spec(names, pool).0[i] matches Some(o) ==> o.name@ == names[i]),
        forall|i: int|
            0 <= i < names.len() ==> (#[trigger] find_spec(names, pool).0[i] is Some ==> {
                let k = find_origins(names, pool)[i];
                &&& 0 <= k < pool.len()
                &&& find_spec(names, pool).0[i] == pool[k]
                &&& find_spec(names, pool).1[k] is None
            }),
        forall|i: int|
            0 <= i < names.len() ==> (#[trigger] find_spec(names, pool).0[i] is None ==> find_origins(names, pool)[i]
                == -1),
        forall|i: int, j: int|
            0 <= i < j < names.len() && (#[trigger] find_spec(names, pool).0[i]) is Some && (
            #[trigger] find_spec(names, pool).0[j]) is Some ==> find_origins(names, pool)[i] != find_origins(
                names,
                pool,
            )[j],
        forall|k: int|
            0 <= k < pool.len() && (#[trigger] find_spec(names, pool).1[k]) is Some ==> find_spec(names, pool).1[k]
                == pool[k],
    decreases names.len(),
{
    if names.len() > 0 {
        let prev = names.drop_last();
        lemma_found_options_named(prev, pool);
        let (found, left) = find_spec(prev, pool);
        let origins = find_origins(prev, pool);
        let n = names.last();
        let (found2, left2) = find_spec(names, pool);
        let origins2 = find_origins(names, pool);
        if has_named(left, n) {
            let k0 = choose|k: int| 0 <= k < left.len() && named(#[trigger] left[k], n);
            lemma_first_named_exists(left, n, k0);
            let k = first_pos(left, n);
            assert(first_named(left, n, k));
            assert(named(left[k], n));
            assert(left[k] is Some);
            assert(left[k] == pool[k]);
            assert(found2 == found.push(left[k]));
            assert(left2 == left.update(k, None));
            assert(origins2 == origins.push(k));
            assert forall|i: int| 0 <= i < names.len() - 1 && (#[trigger] found2[i]) is Some implies origins2[i]
                != k by {
                assert(found2[i] == found[i]);
                assert(left[origins[i]] is None);
            }
        } else {
            assert(found2 == found.push(None));
            assert(left2 == left);
            assert(origins2 == origins.push(-1));
        }
        assert forall|i: int| 0 <= i < names.len() implies (#[trigger] found2[i] matches Some(o) ==> o.name@
            == names[i]) by {
            if i < names.len() - 1 {
                assert(found2[i] == found[i]);
                assert(prev[i] == names[i]);
            }
        }
        assert forall|i: int| 0 <= i < names.len() && #[trigger] found2[i] is Some implies {
            let k = origins2[i];
            &&& 0 <= k < pool.len()
            &&& found2[i] == pool[k]
            &&& left2[k] is None
        } by {
            if i < names.len() - 1 {
                assert(found2[i] == found[i]);
                assert(origins2[i] == origins[i]);
            }
        }
        assert forall|i: int| 0 <= i < names.len() && #[trigger] found2[i] is None implies origins2[i] == -1 by {
            if i < names.len() - 1 {
                assert(found2[i] == found[i]);
                assert(origins2[i] == origins[i]);
            }
        }
        assert forall|i: int, j: int|
            0 <= i < j < names.len() && (#[trigger] found2[i]) is Some && (#[trigger] found2[j]) is Some implies origins2[i]
                != origins2[j] by {
            assert(found2[i] == found[i]);
            assert(origins2[i] == origins[i]);
            if j < names.len() - 1 {
                assert(found2[j] == found[j]);
                assert(origins2[j] == origins[j]);
            }
        }
    }
}

} // verus!
