//! What the `Command` derive reads of a struct: it generates a `build`
//! constructor taking every field, with the struct's generics repeated
//! without bounds after the type's name.

use vstd::prelude::*;
use vstd::string::*;

verus! {

/// A generic parameter as the derive reads it.
#[derive(Debug, Clone)]
pub enum GenericParamDecl {
    /// A type parameter, by its identifier.
    Type(String),
    /// A lifetime parameter, by its text (with the quote).
    Lifetime(String),
    /// A const parameter.
    Const,
}

/// What the derive reads of the item it is applied to.
#[derive(Debug, Clone)]
pub struct CommandStructDecl {
    /// Name of the item.
    pub name: String,
    /// Whether the item is a struct.
    pub is_struct: bool,
    /// Whether the item has a generics list in angle brackets.
    pub has_generics: bool,
    /// The generic parameters, in order.
    pub params: Vec<GenericParamDecl>,
    /// The names of the fields, in order; `None` for an unnamed field.
    pub fields: Vec<Option<String>>,
}

/// What the generated constructor is made of.
#[derive(Debug, Clone)]
pub struct BuildCommandPlan {
    /// Name of the struct.
    pub name: String,
    /// The generic parameters without their bounds, when the struct has a
    /// generics list.
    pub simple_params: Option<Vec<String>>,
    /// The names of the fields, in order.
    pub field_idents: Vec<String>,
}

/// The reasons for which the derive refuses an item.
#[derive(Debug, Clone, Copy, PartialEq, Eq)]
pub enum BuildCommandError {
    /// The item is not a struct.
    NotStruct,
    /// A const generic parameter.
    ConstParam,
    /// A field without a name.
    UnnamedField,
}

/// Do all fields have names?
pub open spec fn all_named(fields: Seq<Option<String>>) -> bool {
    forall|i: int| 0 <= i < fields.len() ==> fields[i] is Some
}

/// Is some parameter a const parameter?
pub open spec fn has_const(params: Seq<GenericParamDecl>) -> bool {
    exists|i: int| 0 <= i < params.len() && params[i] is Const
}

/// The text of a parameter without bounds.
pub open spec fn simple_param(p: GenericParamDecl) -> Seq<char> {
    match p {
        GenericParamDecl::Type(ident) => ident@,
        GenericParamDecl::Lifetime(lt) => lt@,
        GenericParamDecl::Const => Seq::empty(),
    }
}

/// Why the derive refuses an item, checked in the order the derive does.
pub open spec fn build_command_error(decl: CommandStructDecl) -> Option<BuildCommandError> {
    if !decl.is_struct {
        Some(BuildCommandError::NotStruct)
    } else if decl.has_generics && has_const(decl.params@) {
        Some(BuildCommandError::ConstParam)
    } else if !all_named(decl.fields@) {
        Some(BuildCommandError::UnnamedField)
    } else {
        None
    }
}

/// The plan is the one the derive makes of the item.
pub open spec fn plan_matches(decl: CommandStructDecl, plan: BuildCommandPlan) -> bool {
    &&& plan.name == decl.name
    &&& match plan.simple_params {
        None => !decl.has_generics,
        Some(ps) => {
            &&& decl.has_generics
            &&& ps@.len() == decl.params@.len()
            &&& forall|i: int| 0 <= i < ps@.len() ==> ps@[i]@ == simple_param(decl.params@[i])
        },
    }
    &&& plan.field_idents@.len() == decl.fields@.len()
    &&& forall|i: int|
        0 <= i < decl.fields@.len() ==> decl.fields@[i] == Some(plan.field_idents@[i])
}

impl BuildCommandError {
    /// The message with which the derive refuses the item.
    pub fn message(&self) -> (text: String)
        ensures
            text@ == match *self {
                BuildCommandError::NotStruct => "only works for stucts"@,
                BuildCommandError::ConstParam => "not implemented: not supported"@,
                BuildCommandError::UnnamedField => "failed to get identifier for a field"@,
            },
    {
        match self {
            BuildCommandError::NotStruct => String::from_str("only works for stucts"),
            BuildCommandError::ConstParam => String::from_str("not implemented: not supported"),
            BuildCommandError::UnnamedField => String::from_str(
                "failed to get identifier for a field",
            ),
        }
    }
}

/// Reads the item the derive is applied to: its name, its generic
/// parameters stripped of bounds and its field names; refuses a non-struct,
/// a const parameter and an unnamed field.
fn try_build_command_plan(decl: &CommandStructDecl) -> (res: Result<
    BuildCommandPlan,
    BuildCommandError,
>)
    ensures
        match build_command_error(*decl) {
            Some(e) => res == Err::<BuildCommandPlan, BuildCommandError>(e),
            None => res matches Ok(plan) && plan_matches(*decl, plan),
        },
{
    if !decl.is_struct {
        return Err(BuildCommandError::NotStruct);
    }
    let simple_params = if decl.has_generics {
        let mut ps: Vec<String> = Vec::new();
        let mut i: usize = 0;
        while i < decl.params.len()
            invariant
                i <= decl.params.len(),
                ps@.len() == i,
                forall|j: int| 0 <= j < i ==> ps@[j]@ == simple_param(decl.params@[j]),
                forall|j: int| 0 <= j < i ==> !(decl.params@[j] is Const),
                decl.is_struct,
                decl.has_generics,
            decreases decl.params.len() - i,
        {
            match &decl.params[i] {
                GenericParamDecl::Type(ident) => ps.push(ident.clone()),
                GenericParamDecl::Lifetime(lt) => ps.push(lt.clone()),
                GenericParamDecl::Const => {
                    assert(decl.params@[i as int] is Const);
                    return Err(BuildCommandError::ConstParam);
                },
            }
            i = i + 1;
        }
        assert(!has_const(decl.params@));
        Some(ps)
    } else {
        None
    };
    let mut idents: Vec<String> = Vec::new();
    let mut i: usize = 0;
    while i < decl.fields.len()
        invariant
            i <= decl.fields.len(),
            idents@.len() == i,
            forall|j: int| 0 <= j < i ==> decl.fields@[j] == Some(idents@[j]),
            decl.is_struct,
            !(decl.has_generics && has_const(decl.params@)),
            match simple_params {
                None => !decl.has_generics,
                Some(ps) => {
                    &&& decl.has_generics
                    &&& ps@.len() == decl.params@.len()
                    &&& forall|i: int|
                        0 <= i < ps@.len() ==> ps@[i]@ == simple_param(decl.params@[i])
                },
            },
        decreases decl.fields.len() - i,
    {
        match &decl.fields[i] {
            Some(ident) => idents.push(ident.clone()),
            None => {
                assert(!all_named(decl.fields@));
                return Err(BuildCommandError::UnnamedField);
            },
        }
        i = i + 1;
    }
    Ok(BuildCommandPlan { name: decl.name.clone(), simple_params, field_idents: idents })
}

/// Why the derive refuses an item, if it does. Callers test this before
/// `build_command_plan`.
pub fn build_command_refusal(decl: &CommandStructDecl) -> (res: Option<BuildCommandError>)
    ensures
        res == build_command_error(*decl),
{
    match try_build_command_plan(decl) {
        Ok(_) => None,
        Err(e) => Some(e),
    }
}

/// Reads an item that the derive accepts: its name, its generic
/// parameters without bounds when it has a generics list, and its field
/// names.
pub fn build_command_plan(decl: &CommandStructDecl) -> (plan: BuildCommandPlan)
    requires
        build_command_error(*decl) is None,
    ensures
        plan_matches(*decl, plan),
{
    match try_build_command_plan(decl) {
        Ok(plan) => plan,
        Err(_) => {
            assert(false);
            BuildCommandPlan { name: String::new(), simple_params: None, field_idents: Vec::new() }
        },
    }
}

} // verus!
