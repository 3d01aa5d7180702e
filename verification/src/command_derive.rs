//! What deriving a command decides: the command's name and description, the
//! names and descriptions of its options, and whether the variants of a
//! command enum form valid groups. The code that the derive emits is built
//! from this plan.

use vstd::prelude::*;

use crate::doc_comment::{
    doc_lines_view, parse, parse_spec, DocError, DocErrorView, NameDescription, NameDescriptionView,
};
use crate::text::starts_with;

verus! {

/// A field of a command struct or variant: an option of the command.
#[derive(Debug)]
pub struct CommandField {
    /// The field's name; none for the field of a tuple variant, which marks
    /// a command group.
    pub ident: Option<String>,
    /// The field's doc lines.
    pub doc: Vec<Option<String>>,
    /// Whether the option is autocompleted.
    pub autocomplete: bool,
}

/// A variant of a command enum.
#[derive(Debug)]
pub struct CommandVariant {
    pub ident: String,
    pub fields: Vec<CommandField>,
    pub doc: Vec<Option<String>>,
    /// The `end_group` marker, with the text of its identifier.
    pub end_group: Option<String>,
}

/// The options of a command: the variants of an enum, or the fields of a
/// struct.
#[derive(Debug)]
pub enum CommandData {
    Enum(Vec<CommandVariant>),
    Struct(Vec<CommandField>),
}

/// A type that derives a command.
#[derive(Debug)]
pub struct CommandInput {
    pub ident: String,
    pub doc: Vec<Option<String>>,
    pub data: CommandData,
    pub nsfw: bool,
}

/// Why a command cannot be derived.
#[derive(Debug)]
pub enum DeriveError {
    /// A doc comment could not be read.
    Doc(DocError),
    /// The variant at this position marks a group but has more than one field.
    InvalidCommandGroup { variant: usize },
    /// The variant at this position has an `end_group` where no group can end.
    InvalidEndGroup { variant: usize },
}

/// A derive error as plain values.
pub enum DeriveErrorView {
    Doc(DocErrorView),
    InvalidCommandGroup(int),
    InvalidEndGroup(int),
}

impl View for DeriveError {
    type V = DeriveErrorView;

    open spec fn view(&self) -> DeriveErrorView {
        match self {
            DeriveError::Doc(e) => DeriveErrorView::Doc(e@),
            DeriveError::InvalidCommandGroup { variant } => DeriveErrorView::InvalidCommandGroup(
                *variant as int,
            ),
            DeriveError::InvalidEndGroup { variant } => DeriveErrorView::InvalidEndGroup(*variant as int),
        }
    }
}

/// A command variant as plain values: its name, the names of its fields,
/// and its `end_group` marker.
pub struct VariantView {
    pub ident: Seq<char>,
    pub fields: Seq<Option<Seq<char>>>,
    pub end_group: Option<Seq<char>>,
}

/// The plain view of an optional string.
pub open spec fn opt_string(s: Option<String>) -> Option<Seq<char>> {
    match s {
        Some(t) => Some(t@),
        None => None,
    }
}

impl View for CommandVariant {
    type V = VariantView;

    open spec fn view(&self) -> VariantView {
        VariantView {
            ident: self.ident@,
            fields: self.fields@.map_values(|f: CommandField| opt_string(f.ident)),
            end_group: opt_string(self.end_group),
        }
    }
}

/// The variant marks a command group: its first field has no name.
pub open spec fn is_group_spec(v: VariantView) -> bool {
    v.fields.len() > 0 && v.fields[0] is None
}

/// The variant belongs to the group `group`: its name starts with the group's.
pub open spec fn in_group_spec(v: VariantView, group: Seq<char>) -> bool {
    group.is_prefix_of(v.ident)
}

/// What is wrong with the variant at position `i` on its own, if anything.
pub open spec fn variant_problem(v: VariantView, i: int) -> Option<DeriveErrorView> {
    if is_group_spec(v) {
        if v.fields.len() > 1 {
            Some(DeriveErrorView::InvalidCommandGroup(i))
        } else if v.end_group is Some {
            Some(DeriveErrorView::InvalidEndGroup(i))
        } else {
            None
        }
    } else {
        None
    }
}

/// Checks the variants from position `i` on, where `group` is the group
/// open before them.
pub open spec fn variants_check(vs: Seq<VariantView>, i: int, group: Option<Seq<char>>) -> Option<
    DeriveErrorView,
>
    decreases vs.len() - i,
{
    if i >= vs.len() {
        None
    } else {
        match variant_problem(vs[i], i) {
            Some(e) => Some(e),
            None => {
                if is_group_spec(vs[i]) {
                    variants_check(vs, i + 1, Some(vs[i].ident))
                } else {
                    let implicit_end = group matches Some(g) && !in_group_spec(vs[i], g);
                    if vs[i].end_group is Some {
                        if implicit_end {
                            Some(DeriveErrorView::InvalidEndGroup(i))
                        } else {
                            variants_check(vs, i + 1, None)
                        }
                    } else if implicit_end {
                        variants_check(vs, i + 1, None)
                    } else {
                        variants_check(vs, i + 1, group)
                    }
                }
            },
        }
    }
}

impl CommandVariant {
    /// Whether this variant is a command group marker.
    pub fn is_group(&self) -> (r: bool)
        ensures
            r == is_group_spec(self@),
    {
        self.fields.len() > 0 && self.fields[0].ident.is_none()
    }

    /// Whether this variant is in the given `group`.
    ///
    /// Returns `true` if the command is the group itself, which would require
    /// two variants with the same name.
    pub fn is_in_group(&self, group: &str) -> (r: bool)
        ensures
            r == in_group_spec(self@, group@),
    {
        starts_with(self.ident.as_str(), group)
    }

    /// Checks a group marker: it has one field and no `end_group`.
    pub fn validate(&self, position: usize) -> (r: Result<(), DeriveError>)
        ensures
            match variant_problem(self@, position as int) {
                Some(e) => r matches Err(x) && x@ == e,
                None => r is Ok,
            },
    {
        if self.is_group() {
            if self.fields.len() > 1 {
                return Err(DeriveError::InvalidCommandGroup { variant: position });
            }
            if self.end_group.is_some() {
                return Err(DeriveError::InvalidEndGroup { variant: position });
            }
        }
        Ok(())
    }
}

/// The plain views of the variants.
pub open spec fn variants_view(vs: Seq<CommandVariant>) -> Seq<VariantView> {
    vs.map_values(|v: CommandVariant| v@)
}

/// Checks the variants of a command enum in order: each group marker opens a
/// group, which a variant outside it or with `end_group` closes.
pub fn check_variants(variants: &Vec<CommandVariant>) -> (r: Result<(), DeriveError>)
    ensures
        match variants_check(variants_view(variants@), 0, None) {
            Some(e) => r matches Err(x) && x@ == e,
            None => r is Ok,
        },
{
    let ghost vs = variants_view(variants@);
    let ghost want = variants_check(vs, 0, None);
    let mut group: Option<&str> = None;
    let mut i: usize = 0;
    while i < variants.len()
        invariant
            vs == variants_view(variants@),
            want == variants_check(vs, 0, None),
            i <= variants@.len(),
            variants_check(
                vs,
                i as int,
                match group {
                    Some(g) => Some(g@),
                    None => None,
                },
            ) == want,
        decreases variants@.len() - i,
    {
        let v = &variants[i];
        assert(vs[i as int] == v@);
        match v.validate(i) {
            Ok(()) => {},
            Err(e) => {
                return Err(e);
            },
        }
        if v.is_group() {
            group = Some(v.ident.as_str());
        } else {
            let implicit_end = match group {
                Some(g) => !v.is_in_group(g),
                None => false,
            };
            if v.end_group.is_some() {
                if implicit_end {
                    return Err(DeriveError::InvalidEndGroup { variant: i });
                }
                group = None;
            } else if implicit_end {
                group = None;
            }
        }
        i += 1;
    }
    Ok(())
}

/// The plan for the code of a derived command: its name and description,
/// whether it is age-restricted, and, for a command struct, the name and
/// description of each option or why its doc comment cannot be read.
#[derive(Debug)]
pub struct CommandPlan {
    pub name_description: NameDescription,
    pub nsfw: bool,
    pub options: Vec<Result<NameDescription, DocError>>,
}

/// A parse result as plain values.
pub open spec fn parse_result_view(r: Result<NameDescription, DocError>) -> Result<
    NameDescriptionView,
    DocErrorView,
> {
    match r {
        Ok(v) => Ok(v@),
        Err(e) => Err(e@),
    }
}

/// The field's name, or the empty text for a field without one.
pub open spec fn field_name(f: CommandField) -> Seq<char> {
    match f.ident {
        Some(t) => t@,
        None => Seq::empty(),
    }
}

/// What the doc comment of an option says.
pub open spec fn option_spec(f: CommandField) -> Result<NameDescriptionView, DocErrorView> {
    parse_spec(doc_lines_view(f.doc@), field_name(f), None)
}

/// The name and description of the option `field`, from its doc comment.
pub fn plan_option(field: &CommandField) -> (r: Result<NameDescription, DocError>)
    requires
        field.ident is Some,
    ensures
        parse_result_view(r) == option_spec(*field),
{
    let ident = match &field.ident {
        Some(i) => i.as_str(),
        None => "",
    };
    let r = parse(&field.doc, ident, None);
    match r {
        Ok(v) => Ok(v),
        Err(e) => Err(e),
    }
}

/// Plans the code of the command `input`; fails where its doc comment cannot
/// be read or its variants do not form valid groups.
pub fn plan_command(input: &CommandInput) -> (r: Result<CommandPlan, DeriveError>)
    requires
        input.data matches CommandData::Struct(fs) ==> forall|i: int|
            0 <= i < fs@.len() ==> (#[trigger] fs@[i]).ident is Some,
    ensures
        match parse_spec(doc_lines_view(input.doc@), input.ident@, None) {
            Err(e) => r matches Err(x) && x@ == DeriveErrorView::Doc(e),
            Ok(nd) => match input.data {
                CommandData::Enum(vs) => match variants_check(variants_view(vs@), 0, None) {
                    Some(e) => r matches Err(x) && x@ == e,
                    None => r matches Ok(p) && p.name_description@ == nd && p.nsfw == input.nsfw
                        && p.options@.len() == 0,
                },
                CommandData::Struct(fs) => r matches Ok(p) && p.name_description@ == nd && p.nsfw
                    == input.nsfw && p.options@.len() == fs@.len() && forall|i: int|
                    0 <= i < fs@.len() ==> parse_result_view(#[trigger] p.options@[i]) == option_spec(
                        fs@[i],
                    ),
            },
        },
{
    let nd = match parse(&input.doc, input.ident.as_str(), None) {
        Ok(nd) => nd,
        Err(e) => {
            return Err(DeriveError::Doc(e));
        },
    };
    match &input.data {
        CommandData::Enum(variants) => {
            match check_variants(variants) {
                Ok(()) => {},
                Err(e) => {
                    return Err(e);
                },
            }
            Ok(CommandPlan { name_description: nd, nsfw: input.nsfw, options: Vec::new() })
        },
        CommandData::Struct(fields) => {
            let mut options: Vec<Result<NameDescription, DocError>> = Vec::new();
            let mut i: usize = 0;
            while i < fields.len()
                invariant
                    i <= fields@.len(),
                    options@.len() == i,
                    forall|k: int| 0 <= k < fields@.len() ==> (#[trigger] fields@[k]).ident is Some,
                    forall|k: int|
                        0 <= k < i ==> parse_result_view(#[trigger] options@[k]) == option_spec(
                            fields@[k],
                        ),
                decreases fields@.len() - i,
            {
                let o = plan_option(&fields[i]);
                options.push(o);
                i += 1;
            }
            Ok(CommandPlan { name_description: nd, nsfw: input.nsfw, options })
        },
    }
}

} // verus!
