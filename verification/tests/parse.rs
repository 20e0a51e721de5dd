use oatbar::parse::{Align, AlignDirection, ParseError, Placeholder, PlaceholderExt};
use oatbar::vars::VarMap;

fn resolve(expr: &str, map: &VarMap) -> String {
    Placeholder::new(expr).unwrap().resolve(map).unwrap()
}

#[test]
fn test_max() {
    let mut map = VarMap::new();
    map.insert("a".into(), "hello world".into());
    assert_eq!("( hello world )", resolve("( ${a|max:20} )", &map));
    assert_eq!("( hello w... )", resolve("( ${a|max:10} )", &map));
}

#[test]
fn test_align() {
    let mut map = VarMap::new();
    map.insert("a".into(), "hello".into());
    assert_eq!("( hello )", resolve("( ${a|align:-<5} )", &map));
    assert_eq!("( -----hello )", resolve("( ${a|align:->10} )", &map));
    assert_eq!("( hello----- )", resolve("( ${a|align:-<10} )", &map));
    assert_eq!("( --hello-- )", resolve("( ${a|align:-^9} )", &map));
    assert_eq!("( --hello--- )", resolve("( ${a|align:-^10} )", &map));
}

#[test]
fn test_value() {
    let mut map = VarMap::new();
    map.insert("foo".into(), "hello".into());
    map.insert("bar".into(), "world".into());
    map.insert("baz".into(), "unuzed".into());
    let value = "<test> ${foo} $$ ${bar}, (${not_found}) ${not_found|def:default} </test>";
    let result = Placeholder::new(&value).unwrap().resolve(&map);
    assert!(result.is_ok());
    assert_eq!(result.unwrap(), "<test> hello $$ world, () default </test>");
}

fn align(arg: &str) -> Result<Align, ParseError> {
    let chars: Vec<char> = arg.chars().collect();
    Align::parse_range(&chars, 0, chars.len())
}

#[test]
fn align_filler_then_direction() {
    assert_eq!(align("<>5").unwrap(), Align { direction: AlignDirection::Right, space: Some('<'), width: 5 });
    assert_eq!(align("_^3").unwrap(), Align { direction: AlignDirection::Center, space: Some('_'), width: 3 });
}

#[test]
fn align_without_filler() {
    assert_eq!(align(">3").unwrap(), Align { direction: AlignDirection::Right, space: None, width: 3 });
    assert_eq!(align("<12").unwrap(), Align { direction: AlignDirection::Left, space: None, width: 12 });
}

#[test]
fn align_errors() {
    assert!(matches!(align("x"), Err(ParseError::BadAlignFormat(_))));
    assert!(matches!(align("_>x"), Err(ParseError::BadNumber(_))));
}

#[test]
fn align_with_a_direction_as_filler() {
    let mut map = VarMap::new();
    map.insert("a".into(), "ab".into());
    assert_eq!("<<<ab", resolve("${a|align:<>5}", &map));
}

#[test]
fn expression_error_names_the_expression() {
    let e = Placeholder::new("${a").unwrap_err();
    assert_eq!(e.expression, "${a");
}
