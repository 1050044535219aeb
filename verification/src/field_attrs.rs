//! How the `Storeable` derive reads the attributes of a struct's fields.
//!
//! An attribute is described by what the derive reads of it: whether it
//! parses as a meta item, the identifier of its path and the items of its
//! list, each item the identifier and token text of a path.

use vstd::prelude::*;
use vstd::string::*;

verus! {

/// An item nested in a list attribute.
#[derive(Debug, Clone)]
pub enum NestedItem {
    /// A path: its identifier, when it is a single one, and its token text.
    PathItem { ident: Option<String>, tokens: String },
    /// A literal or a nested list or name-value item.
    OtherItem,
}

/// What the derive reads of one attribute.
#[derive(Debug, Clone)]
pub enum AttrMeta {
    /// The attribute does not parse as a meta item.
    Unparsable,
    /// `#[path]`, with the path's identifier when it is a single one.
    Path(Option<String>),
    /// `#[path(items..)]`.
    List { ident: Option<String>, items: Vec<NestedItem> },
    /// `#[path = value]`.
    NameValue,
}

/// The meaning of an attribute for the derive.
#[derive(Debug, Clone)]
pub enum AttrType {
    /// `#[string]`: the field holds one string.
    Single,
    /// `#[composite(singular)]`: the field holds a list.
    List { singular: String },
    /// `#[line]`: the field holds the stored line.
    Content,
    /// `#[token(key)]`: the key of the field.
    Key(String),
    /// `#[title]`: the field is the title.
    Title,
    /// Any other attribute.
    Other,
}

/// A field holding one string.
#[derive(Debug, Clone)]
pub struct FieldSingle {
    /// Name of the field.
    pub ident: String,
    /// Token text of its key.
    pub key: String,
}

/// A field holding a list of strings.
#[derive(Debug, Clone)]
pub struct FieldList {
    /// Name of the field.
    pub ident: String,
    /// Token text of its key.
    pub key: String,
    /// Name of one element of the list.
    pub singular: String,
}

/// What kind of field the derive sees.
#[derive(Debug, Clone)]
pub enum FieldType {
    /// A string field, and whether it is the title.
    Single(FieldSingle, bool),
    /// A list field.
    List(FieldList),
    /// The field holding the stored line.
    Content(String),
    /// A field the derive ignores.
    Other,
}

/// A field declaration: its name, if it has one, and its attributes.
#[derive(Debug, Clone)]
pub struct FieldDecl {
    /// Name of the field.
    pub ident: Option<String>,
    /// Attributes of the field, in order.
    pub attrs: Vec<AttrMeta>,
}

/// The reasons for which the derive refuses a field.
#[derive(Debug, Clone)]
pub enum FieldError {
    /// The field has no name.
    MissingIdent,
    /// A `composite` attribute does not hold exactly one item.
    CompositeItemCount,
    /// The item of a `composite` attribute is not a single identifier.
    CompositeNotToken,
    /// A `token` attribute does not hold exactly one item.
    TokenItemCount,
    /// The item of a `token` attribute is not a path.
    TokenNotToken,
    /// The field has more than one `token` attribute.
    DuplicateToken,
    /// The field is marked both `string` and `composite`, or one twice.
    ConflictingType,
    /// `title` stands on a field not marked `string`.
    TitleNotString,
    /// The named field has no `token` attribute.
    MissingToken(String),
}

/// The message with which the derive refuses a field.
pub open spec fn field_error_text(err: FieldError) -> Seq<char> {
    match err {
        FieldError::MissingIdent => "Storeable should only be derived on structs with named fields"@,
        FieldError::CompositeItemCount => "composite field should only contain one item"@,
        FieldError::CompositeNotToken => "contents of composite should be a single token"@,
        FieldError::TokenItemCount => "token should contain a single value"@,
        FieldError::TokenNotToken => "contents of token should be a single token"@,
        FieldError::DuplicateToken => "a field may only have one token attribute"@,
        FieldError::ConflictingType => "field type may be either string or composite"@,
        FieldError::TitleNotString => "title may only be specified on a field marked as string"@,
        FieldError::MissingToken(ident) => "no token for field "@ + ident@,
    }
}

impl FieldError {
    /// The message with which the derive refuses the field.
    pub fn message(&self) -> (text: String)
        ensures
            text@ == field_error_text(*self),
    {
        match self {
            FieldError::MissingIdent => String::from_str(
                "Storeable should only be derived on structs with named fields",
            ),
            FieldError::CompositeItemCount => String::from_str(
                "composite field should only contain one item",
            ),
            FieldError::CompositeNotToken => String::from_str(
                "contents of composite should be a single token",
            ),
            FieldError::TokenItemCount => String::from_str("token should contain a single value"),
            FieldError::TokenNotToken => String::from_str(
                "contents of token should be a single token",
            ),
            FieldError::DuplicateToken => String::from_str(
                "a field may only have one token attribute",
            ),
            FieldError::ConflictingType => String::from_str(
                "field type may be either string or composite",
            ),
            FieldError::TitleNotString => String::from_str(
                "title may only be specified on a field marked as string",
            ),
            FieldError::MissingToken(ident) => {
                let mut text = String::from_str("no token for field ");
                text.append(ident.as_str());
                text
            },
        }
    }
}

/// The meaning of an attribute that is a single identifier: `line`,
/// `string` and `title` are understood, anything else is `Other`.
pub open spec fn path_meaning(id: Seq<char>) -> AttrType {
    if id == "line"@ {
        AttrType::Content
    } else if id == "string"@ {
        AttrType::Single
    } else if id == "title"@ {
        AttrType::Title
    } else {
        AttrType::Other
    }
}

/// The meaning of `#[composite(..)]`: one item, a single identifier, which
/// names one element of the list.
pub open spec fn composite_meaning(items: Seq<NestedItem>) -> Result<AttrType, FieldError> {
    if items.len() != 1 {
        Err(FieldError::CompositeItemCount)
    } else if let NestedItem::PathItem { ident: Some(s), tokens: _ } = items[0] {
        Ok(AttrType::List { singular: s })
    } else {
        Err(FieldError::CompositeNotToken)
    }
}

/// The meaning of `#[token(..)]`: one item, a path, whose tokens are the
/// key.
pub open spec fn token_meaning(items: Seq<NestedItem>) -> Result<AttrType, FieldError> {
    if items.len() != 1 {
        Err(FieldError::TokenItemCount)
    } else if let NestedItem::PathItem { ident: _, tokens } = items[0] {
        Ok(AttrType::Key(tokens))
    } else {
        Err(FieldError::TokenNotToken)
    }
}

/// What an attribute means, or why it is refused: a single identifier by
/// `path_meaning`, `composite(..)` and `token(..)` lists by their items,
/// everything else `Other`.
pub open spec fn attr_outcome(meta: AttrMeta) -> Result<AttrType, FieldError> {
    match meta {
        AttrMeta::Path(Some(id)) => Ok(path_meaning(id@)),
        AttrMeta::List { ident: Some(id), items } => if id@ == "composite"@ {
            composite_meaning(items@)
        } else if id@ == "token"@ {
            token_meaning(items@)
        } else {
            Ok(AttrType::Other)
        },
        _ => Ok(AttrType::Other),
    }
}

fn str_eq(a: &String, lit: &str) -> (res: bool)
    ensures
        res == (a@ == lit@),
{
    let b = String::from_str(lit);
    *a == b
}

/// Reads an attribute: `#[line]`, `#[string]`, `#[title]`,
/// `#[composite(singular)]` and `#[token(key)]` are understood, anything
/// else is `Other`; a `composite` or `token` list of the wrong shape is
/// refused.
fn try_parse_attr(meta: &AttrMeta) -> (res: Result<AttrType, FieldError>)
    ensures
        res == attr_outcome(*meta),
{
    match meta {
        AttrMeta::Path(Some(id)) => {
            if str_eq(id, "line") {
                Ok(AttrType::Content)
            } else if str_eq(id, "string") {
                Ok(AttrType::Single)
            } else if str_eq(id, "title") {
                Ok(AttrType::Title)
            } else {
                Ok(AttrType::Other)
            }
        },
        AttrMeta::List { ident: Some(id), items } => {
            if str_eq(id, "composite") {
                if items.len() != 1 {
                    Err(FieldError::CompositeItemCount)
                } else {
                    match &items[0] {
                        NestedItem::PathItem { ident: Some(s), tokens: _ } => Ok(
                            AttrType::List { singular: s.clone() },
                        ),
                        _ => Err(FieldError::CompositeNotToken),
                    }
                }
            } else if str_eq(id, "token") {
                if items.len() != 1 {
                    Err(FieldError::TokenItemCount)
                } else {
                    match &items[0] {
                        NestedItem::PathItem { ident: _, tokens } => Ok(
                            AttrType::Key(tokens.clone()),
                        ),
                        _ => Err(FieldError::TokenNotToken),
                    }
                }
            } else {
                Ok(AttrType::Other)
            }
        },
        _ => Ok(AttrType::Other),
    }
}

/// Why the derive refuses an attribute, if it does: a `composite` or
/// `token` list of the wrong shape. Callers test this before `parse_attr`.
pub fn attr_refusal(meta: &AttrMeta) -> (res: Option<FieldError>)
    ensures
        match attr_outcome(*meta) {
            Ok(_) => res is None,
            Err(e) => res == Some(e),
        },
{
    match try_parse_attr(meta) {
        Ok(_) => None,
        Err(e) => Some(e),
    }
}

/// Reads an attribute that the derive accepts: `#[line]`, `#[string]`,
/// `#[title]`, `#[composite(singular)]` and `#[token(key)]` have their
/// meanings, anything else is `Other`.
pub fn parse_attr(meta: &AttrMeta) -> (res: AttrType)
    requires
        attr_outcome(*meta) is Ok,
    ensures
        Ok::<AttrType, FieldError>(res) == attr_outcome(*meta),
{
    match try_parse_attr(meta) {
        Ok(t) => t,
        Err(_) => {
            assert(false);
            AttrType::Other
        },
    }
}

/// What the derive has gathered from the attributes of a field so far.
pub struct FieldScan {
    /// The kind of field: `Other`, `Content`, `Single` or `List`.
    pub kind: AttrType,
    /// The key from the `token` attribute.
    pub key: Option<String>,
    /// Whether a `title` attribute was seen.
    pub is_title: bool,
}

/// One attribute's effect on what has been gathered.
pub open spec fn scan_step(st: FieldScan, t: AttrType) -> Result<FieldScan, FieldError> {
    match t {
        AttrType::Content => Ok(FieldScan { kind: AttrType::Content, ..st }),
        AttrType::Key(k) => if st.key is None {
            Ok(FieldScan { key: Some(k), ..st })
        } else {
            Err(FieldError::DuplicateToken)
        },
        AttrType::Title => Ok(FieldScan { is_title: true, ..st }),
        AttrType::Single => if st.kind is Other {
            Ok(FieldScan { kind: AttrType::Single, ..st })
        } else {
            Err(FieldError::ConflictingType)
        },
        AttrType::List { singular } => if st.kind is Other {
            Ok(FieldScan { kind: AttrType::List { singular }, ..st })
        } else {
            Err(FieldError::ConflictingType)
        },
        AttrType::Other => Ok(st),
    }
}

/// What the attributes of a field give, read in order; the first refusal
/// stops the reading.
pub open spec fn scan_attrs(attrs: Seq<AttrMeta>) -> Result<FieldScan, FieldError>
    decreases attrs.len(),
{
    if attrs.len() == 0 {
        Ok(FieldScan { kind: AttrType::Other, key: None, is_title: false })
    } else {
        match scan_attrs(attrs.drop_last()) {
            Err(e) => Err(e),
            Ok(st) => match attr_outcome(attrs.last()) {
                Err(e) => Err(e),
                Ok(t) => scan_step(st, t),
            },
        }
    }
}

/// What kind of field a declaration is, or why the derive refuses it.
pub open spec fn field_outcome(field: FieldDecl) -> Result<FieldType, FieldError> {
    match field.ident {
        None => Err(FieldError::MissingIdent),
        Some(ident) => match scan_attrs(field.attrs@) {
            Err(e) => Err(e),
            Ok(st) => if !(st.kind is Single) && st.is_title {
                Err(FieldError::TitleNotString)
            } else {
                match st.kind {
                    AttrType::Other => Ok(FieldType::Other),
                    AttrType::Content => Ok(FieldType::Content(ident)),
                    AttrType::Single => match st.key {
                        None => Err(FieldError::MissingToken(ident)),
                        Some(key) => Ok(FieldType::Single(FieldSingle { ident, key }, st.is_title)),
                    },
                    AttrType::List { singular } => match st.key {
                        None => Err(FieldError::MissingToken(ident)),
                        Some(key) => Ok(FieldType::List(FieldList { ident, key, singular })),
                    },
                    _ => Ok(FieldType::Other),
                }
            },
        },
    }
}

/// Reads a field declaration: its name and the kind, key and title mark
/// that its attributes give it, or the reason the derive refuses it.
fn try_parse_field(field: &FieldDecl) -> (res: Result<FieldType, FieldError>)
    ensures
        res == field_outcome(*field),
{
    let ident = match &field.ident {
        None => {
            return Err(FieldError::MissingIdent);
        },
        Some(ident) => ident.clone(),
    };
    let mut kind = AttrType::Other;
    let mut key: Option<String> = None;
    let mut is_title = false;
    let mut i: usize = 0;
    while i < field.attrs.len()
        invariant
            i <= field.attrs.len(),
            scan_attrs(field.attrs@.subrange(0, i as int)) == Ok::<FieldScan, FieldError>(
                FieldScan { kind, key, is_title },
            ),
            kind is Other || kind is Content || kind is Single || kind is List,
            field.ident == Some(ident),
        decreases field.attrs.len() - i,
    {
        let ghost prefix = field.attrs@.subrange(0, i + 1);
        assert(prefix.drop_last() =~= field.attrs@.subrange(0, i as int));
        assert(prefix.last() == field.attrs@[i as int]);
        let t = try_parse_attr(&field.attrs[i]);
        match t {
            Err(e) => {
                assert(scan_attrs(prefix) == Err::<FieldScan, FieldError>(e));
                proof {
                    lemma_scan_stops(field.attrs@, i + 1);
                }
                return Err(e);
            },
            Ok(AttrType::Content) => {
                kind = AttrType::Content;
            },
            Ok(AttrType::Key(k)) => {
                if key.is_none() {
                    key = Some(k);
                } else {
                    assert(scan_attrs(prefix) == Err::<FieldScan, FieldError>(
                        FieldError::DuplicateToken,
                    ));
                    proof {
                        lemma_scan_stops(field.attrs@, i + 1);
                    }
                    return Err(FieldError::DuplicateToken);
                }
            },
            Ok(AttrType::Title) => {
                is_title = true;
            },
            Ok(AttrType::Single) => {
                if matches!(kind, AttrType::Other) {
                    kind = AttrType::Single;
                } else {
                    proof {
                        lemma_scan_stops(field.attrs@, i + 1);
                    }
                    return Err(FieldError::ConflictingType);
                }
            },
            Ok(AttrType::List { singular }) => {
                if matches!(kind, AttrType::Other) {
                    kind = AttrType::List { singular };
                } else {
                    proof {
                        lemma_scan_stops(field.attrs@, i + 1);
                    }
                    return Err(FieldError::ConflictingType);
                }
            },
            Ok(AttrType::Other) => {},
        }
        i = i + 1;
    }
    assert(field.attrs@.subrange(0, i as int) =~= field.attrs@);
    if !matches!(kind, AttrType::Single) && is_title {
        return Err(FieldError::TitleNotString);
    }
    match kind {
        AttrType::Content => Ok(FieldType::Content(ident)),
        AttrType::Single => match key {
            None => Err(FieldError::MissingToken(ident)),
            Some(key) => Ok(FieldType::Single(FieldSingle { ident, key }, is_title)),
        },
        AttrType::List { singular } => match key {
            None => Err(FieldError::MissingToken(ident)),
            Some(key) => Ok(FieldType::List(FieldList { ident, key, singular })),
        },
        _ => Ok(FieldType::Other),
    }
}

/// Once the reading of a prefix of the attributes is refused, so is the
/// reading of all of them.
proof fn lemma_scan_stops(attrs: Seq<AttrMeta>, n: int)
    requires
        0 < n <= attrs.len(),
        scan_attrs(attrs.subrange(0, n)) is Err,
    ensures
        scan_attrs(attrs) == scan_attrs(attrs.subrange(0, n)),
    decreases attrs.len() - n,
{
    if n == attrs.len() {
        assert(attrs.subrange(0, n) =~= attrs);
    } else {
        let next = attrs.subrange(0, n + 1);
        assert(next.drop_last() =~= attrs.subrange(0, n));
        lemma_scan_stops(attrs, n + 1);
    }
}

/// Why the derive refuses a field declaration, if it does. Callers test
/// this before `parse_field`.
pub fn field_refusal(field: &FieldDecl) -> (res: Option<FieldError>)
    ensures
        match field_outcome(*field) {
            Ok(_) => res is None,
            Err(e) => res == Some(e),
        },
{
    match try_parse_field(field) {
        Ok(_) => None,
        Err(e) => Some(e),
    }
}

/// Reads a field declaration that the derive accepts: its name and the
/// kind, key and title mark that its attributes give it.
pub fn parse_field(field: &FieldDecl) -> (res: FieldType)
    requires
        field_outcome(*field) is Ok,
    ensures
        Ok::<FieldType, FieldError>(res) == field_outcome(*field),
{
    match try_parse_field(field) {
        Ok(t) => t,
        Err(_) => {
            assert(false);
            FieldType::Other
        },
    }
}

impl FieldList {
    /// The name of the generated method that pushes one element:
    /// `push_` followed by the singular name.
    pub fn push_method_name(&self) -> (name: String)
        ensures
            name@ == "push_"@ + self.singular@,
    {
        let mut name = String::from_str("push_");
        name.append(self.singular.as_str());
        name
    }
}

} // verus!
