use bookmarks::build_command::{
    build_command_plan, build_command_refusal, BuildCommandError, CommandStructDecl,
    GenericParamDecl,
};
use bookmarks::field_attrs::{
    attr_refusal, field_refusal, parse_attr, parse_field, AttrMeta, AttrType, FieldDecl,
    FieldError, FieldList, FieldType, NestedItem,
};

fn path(id: &str) -> AttrMeta {
    AttrMeta::Path(Some(id.into()))
}

fn list(id: &str, items: Vec<NestedItem>) -> AttrMeta {
    AttrMeta::List { ident: Some(id.into()), items }
}

fn item(ident: Option<&str>, tokens: &str) -> NestedItem {
    NestedItem::PathItem { ident: ident.map(String::from), tokens: tokens.into() }
}

fn field(ident: Option<&str>, attrs: Vec<AttrMeta>) -> FieldDecl {
    FieldDecl { ident: ident.map(String::from), attrs }
}

#[test]
fn attrs_are_read() {
    assert!(matches!(parse_attr(&path("line")), AttrType::Content));
    assert!(matches!(parse_attr(&path("string")), AttrType::Single));
    assert!(matches!(parse_attr(&path("title")), AttrType::Title));
    assert!(matches!(parse_attr(&path("doc")), AttrType::Other));
    assert!(matches!(parse_attr(&AttrMeta::NameValue), AttrType::Other));
    assert!(matches!(parse_attr(&AttrMeta::Unparsable), AttrType::Other));
    match parse_attr(&list("composite", vec![item(Some("tag"), "tag")])) {
        AttrType::List { singular } => assert_eq!(singular, "tag"),
        other => panic!("unexpected {other:?}"),
    }
    match parse_attr(&list("token", vec![item(None, "Token :: Url")])) {
        AttrType::Key(k) => assert_eq!(k, "Token :: Url"),
        other => panic!("unexpected {other:?}"),
    }
}

#[test]
fn attr_errors() {
    assert!(matches!(attr_refusal(&list("composite", vec![])), Some(FieldError::CompositeItemCount)));
    assert!(matches!(
        attr_refusal(&list("composite", vec![item(None, "a::b")])),
        Some(FieldError::CompositeNotToken)
    ));
    assert!(matches!(
        attr_refusal(&list("token", vec![item(None, "a"), item(None, "b")])),
        Some(FieldError::TokenItemCount)
    ));
    assert!(matches!(
        attr_refusal(&list("token", vec![NestedItem::OtherItem])),
        Some(FieldError::TokenNotToken)
    ));
}

#[test]
fn fields_are_read() {
    match parse_field(&field(Some("url"), vec![path("string"), list("token", vec![item(None, "URL")]), path("title")])) {
        FieldType::Single(s, is_title) => {
            assert_eq!((s.ident.as_str(), s.key.as_str(), is_title), ("url", "URL", true));
        }
        other => panic!("unexpected {other:?}"),
    }
    match parse_field(&field(Some("tags"), vec![list("composite", vec![item(Some("tag"), "tag")]), list("token", vec![item(None, "TAG")])])) {
        FieldType::List(l) => {
            assert_eq!((l.ident.as_str(), l.key.as_str(), l.singular.as_str()), ("tags", "TAG", "tag"));
            assert_eq!(l.push_method_name(), "push_tag");
        }
        other => panic!("unexpected {other:?}"),
    }
    assert!(matches!(parse_field(&field(Some("line"), vec![path("line")])), FieldType::Content(ref n) if n == "line"));
    assert!(matches!(parse_field(&field(Some("other"), vec![])), FieldType::Other));
}

#[test]
fn field_errors() {
    assert!(matches!(field_refusal(&field(None, vec![])), Some(FieldError::MissingIdent)));
    assert!(matches!(
        field_refusal(&field(Some("a"), vec![list("token", vec![item(None, "A")]), list("token", vec![item(None, "B")])])),
        Some(FieldError::DuplicateToken)
    ));
    assert!(matches!(
        field_refusal(&field(Some("a"), vec![path("string"), path("string")])),
        Some(FieldError::ConflictingType)
    ));
    assert!(matches!(
        field_refusal(&field(Some("a"), vec![path("title")])),
        Some(FieldError::TitleNotString)
    ));
    match field_refusal(&field(Some("a"), vec![path("string")])) {
        Some(e) => {
            assert!(matches!(e, FieldError::MissingToken(ref n) if n == "a"));
            assert_eq!(e.message(), "no token for field a");
        }
        other => panic!("unexpected {other:?}"),
    }
}

#[test]
fn field_error_messages() {
    assert_eq!(FieldError::MissingIdent.message(), "Storeable should only be derived on structs with named fields");
    assert_eq!(FieldError::ConflictingType.message(), "field type may be either string or composite");
    assert_eq!(FieldError::TitleNotString.message(), "title may only be specified on a field marked as string");
}

#[test]
fn field_list_push_name() {
    let l = FieldList { ident: "identifiers".into(), key: "ID".into(), singular: "identifier".into() };
    assert_eq!(l.push_method_name(), "push_identifier");
}

fn decl(is_struct: bool, params: Option<Vec<GenericParamDecl>>, fields: Vec<Option<&str>>) -> CommandStructDecl {
    CommandStructDecl {
        name: "Cmd".into(),
        is_struct,
        has_generics: params.is_some(),
        params: params.unwrap_or_default(),
        fields: fields.into_iter().map(|f| f.map(String::from)).collect(),
    }
}

#[test]
fn build_command_plan_strips_bounds() {
    let d = decl(
        true,
        Some(vec![GenericParamDecl::Lifetime("'a".into()), GenericParamDecl::Type("T".into())]),
        vec![Some("store"), Some("count")],
    );
    let plan = build_command_plan(&d);
    assert_eq!(plan.name, "Cmd");
    assert_eq!(plan.simple_params, Some(vec![String::from("'a"), String::from("T")]));
    assert_eq!(plan.field_idents, vec![String::from("store"), String::from("count")]);
    let plain = build_command_plan(&decl(true, None, vec![]));
    assert_eq!(plain.simple_params, None);
}

#[test]
fn build_command_errors() {
    assert!(matches!(build_command_refusal(&decl(false, None, vec![])), Some(BuildCommandError::NotStruct)));
    assert!(matches!(
        build_command_refusal(&decl(true, Some(vec![GenericParamDecl::Const]), vec![])),
        Some(BuildCommandError::ConstParam)
    ));
    assert!(matches!(
        build_command_refusal(&decl(true, None, vec![Some("a"), None])),
        Some(BuildCommandError::UnnamedField)
    ));
    assert_eq!(BuildCommandError::NotStruct.message(), "only works for stucts");
    assert_eq!(BuildCommandError::ConstParam.message(), "not implemented: not supported");
    assert_eq!(BuildCommandError::UnnamedField.message(), "failed to get identifier for a field");
}

#[test]
fn accepted_items_have_no_refusal() {
    assert!(attr_refusal(&path("line")).is_none());
    assert!(field_refusal(&field(Some("url"), vec![path("string"), list("token", vec![item(None, "URL")])])).is_none());
    assert!(build_command_refusal(&decl(true, None, vec![Some("a")])).is_none());
}
