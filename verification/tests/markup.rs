use phosphorus::rtr::number::Number;
use phosphorus::rwl::ast::node::{AstHeader, AstHeaderItem, AstNode, AstValue, BlockType};
use phosphorus::rwl::ast::parser::{block_type, parse_source, theme_property_of, Parser};
use phosphorus::rwl::element::{
    frame_data, instance_header, is_size_applicable, Alignment, AnchorX, AnchorY, FrameData,
    FrameDirection, Header,
};
use phosphorus::rwl::error::{ErrPosition, Error};
use phosphorus::rwl::layout::{
    element_text, get_alignment, get_anchor, get_rounding, frame_size_rule, lines_of, numeric_setting,
    Rounding, SizeRule,
};
use phosphorus::rwl::value::{PropertyPath, ThemeProperty, Value};
use phosphorus::shared::area::{Area, Vec2};
use phosphorus::shared::color::Color;
use phosphorus::shared::theme::Theme;
use phosphorus::shared::token::TokenType;

fn n(x: f32) -> Number {
    Number { bits: x.to_bits() }
}

fn render(x: Number) -> String {
    format!("{}", f32::from_bits(x.bits))
}

fn show_value(v: &AstValue) -> String {
    match v {
        AstValue::Str(s) => format!("{:?}", s),
        AstValue::Num(x) => format!("{}", f32::from_bits(x.bits)),
        AstValue::Percentage(x) => format!("{}%", f32::from_bits(x.bits)),
        AstValue::Color(c) => format!("#{:02x}{:02x}{:02x}", c.r, c.g, c.b),
        AstValue::Property(PropertyPath::Theme(p)) => format!("theme:{:?}", p),
    }
}

fn show_header(h: &AstHeader) -> String {
    if h.attributes.is_empty() {
        return String::new();
    }
    let items: Vec<String> = h
        .attributes
        .iter()
        .map(|item| match item {
            AstHeaderItem::Pair(name, value) => format!("{}={}", name, show_value(value)),
            AstHeaderItem::Flag(name) => name.clone(),
        })
        .collect();
    format!("[{}]", items.join(","))
}

fn show(node: &AstNode) -> String {
    match node {
        AstNode::Empty => String::from("empty"),
        AstNode::Document(children) => {
            let inner: Vec<String> = children.iter().map(show).collect();
            format!("doc({})", inner.join(";"))
        }
        AstNode::Block(kind, header, children) => {
            let inner: Vec<String> = children.iter().map(show).collect();
            format!("{:?}{}{{{}}}", kind, show_header(header), inner.join(";"))
        }
        AstNode::Element(value, header) => format!("{}{}", show_value(value), show_header(header)),
    }
}

fn parsed(src: &str) -> String {
    show(&parse_source(src).unwrap())
}

fn header(pairs: Vec<(&str, Value)>, flags: Vec<&str>) -> Header {
    let mut h = Header::new();
    for (name, value) in pairs {
        h.insert(String::from(name), value);
    }
    for flag in flags {
        h.set_flag(flag, true);
    }
    h
}

fn text(s: &str) -> Value {
    Value::Str(String::from(s))
}

#[test]
fn document_without_statements() {
    assert_eq!(parsed(""), "doc()");
    assert_eq!(parsed(" \n "), "doc()");
}

#[test]
fn document_with_blocks_and_elements() {
    let src = "root [padding = 4, Vertical] {\n  frame { \"a\", 12 [size = 50%] },\n  button [color = #fff] { 'ok' [color = theme : accent] }\n}\n";
    assert_eq!(
        parsed(src),
        "doc(Root[padding=4,Vertical]{Frame{\"a\";12[size=50%]};Button[color=#ffffff]{\"ok\"[color=theme:Accent]}})"
    );
}

#[test]
fn block_kinds() {
    assert_eq!(parsed("section {}"), "doc(Section{})");
    assert_eq!(parsed("script {}"), "doc(Unknown(\"script\"){})");
    assert_eq!(parsed("other [] { }"), "doc(Unknown(\"other\"){})");
    assert!(matches!(block_type(String::from("root")), BlockType::Root));
    assert!(matches!(block_type(String::from("Root")), BlockType::Unknown(_)));
}

#[test]
fn several_statements_at_the_top() {
    assert_eq!(parsed("\"a\" 1 \n #abc frame{}"), "doc(\"a\";1;#aabbcc;Frame{})");
}

#[test]
fn values() {
    assert_eq!(parsed("\"a\\nb\""), "doc(\"a\\nb\")");
    assert_eq!(parsed("`x y`"), "doc(\"x y\")");
    assert_eq!(parsed("42"), "doc(42)");
    assert_eq!(parsed("42%"), "doc(42%)");
    assert_eq!(parsed("#A600FF"), "doc(#a600ff)");
    assert_eq!(parsed("1 [a = theme:back, b = theme : text]"), "doc(1[a=theme:Back,b=theme:Text])");
    assert_eq!(parsed("1 [a = theme\n:\nseco]"), "doc(1[a=theme:Seco])");
}

#[test]
fn headers() {
    assert_eq!(parsed("1 []"), "doc(1)");
    assert_eq!(parsed("1 [ a , b = 2 , c ]"), "doc(1[a,b=2,c])");
    assert_eq!(parsed("1 [a = 'x', a = 'y']"), "doc(1[a=\"x\",a=\"y\"])");
    assert_eq!(parsed("1[a,]"), "doc(1[a])");
}

#[test]
fn markup_errors() {
    assert!(matches!(parse_source("2147483648").unwrap_err(), Error::CouldntParseNum));
    assert!(matches!(parse_source("٣").unwrap_err(), Error::CouldntParseNum));
    assert!(matches!(parse_source("#ab").unwrap_err(), Error::InvalidHexLength));
    assert!(matches!(parse_source("#").unwrap_err(), Error::InvalidHexLength));
    match parse_source("#ggg").unwrap_err() {
        Error::UnexpectedToken { token, .. } => assert!(token.is_text("ggg")),
        other => panic!("{:?}", other),
    }
    assert!(matches!(parse_source("1 [2 = 3]").unwrap_err(), Error::InvalidAttributeKey));
    match parse_source("1 [2]").unwrap_err() {
        Error::UnexpectedToken { token, .. } => assert!(token.token_type == TokenType::CloseSquare),
        other => panic!("{:?}", other),
    }
    match parse_source("1 [c = theme:nope]").unwrap_err() {
        Error::UnknownProperty { source, property } => {
            assert_eq!(source, "theme");
            assert_eq!(property, "nope");
        }
        other => panic!("{:?}", other),
    }
    match parse_source("1 [c = other:back]").unwrap_err() {
        Error::UnknownPropertySource { source } => assert_eq!(source, "other"),
        other => panic!("{:?}", other),
    }
    match parse_source("frame { 1 2 }").unwrap_err() {
        Error::Expected { wanted, got, .. } => {
            assert_eq!(wanted.len(), 1);
            assert!(wanted[0] == TokenType::Comma);
            assert!(got.is_text("2"));
        }
        other => panic!("{:?}", other),
    }
    match parse_source("frame { 1").unwrap_err() {
        Error::Expected { wanted, got, .. } => {
            assert!(wanted[0] == TokenType::Comma);
            assert!(got.token_type == TokenType::EOF);
        }
        other => panic!("{:?}", other),
    }
    match parse_source("frame {").unwrap_err() {
        Error::Expected { wanted, .. } => assert!(wanted[0] == TokenType::CloseCurly),
        other => panic!("{:?}", other),
    }
    match parse_source("frame 1").unwrap_err() {
        Error::Expected { wanted, .. } => assert!(wanted[0] == TokenType::OpenCurly),
        other => panic!("{:?}", other),
    }
    match parse_source("1 [a b]").unwrap_err() {
        Error::Expected { wanted, got, .. } => {
            assert_eq!(wanted.len(), 2);
            assert!(wanted[0] == TokenType::Comma);
            assert!(wanted[1] == TokenType::CloseSquare);
            assert!(got.is_text("b"));
        }
        other => panic!("{:?}", other),
    }
    match parse_source("1 [a").unwrap_err() {
        Error::Expected { wanted, .. } => assert!(wanted[0] == TokenType::Comma),
        other => panic!("{:?}", other),
    }
    match parse_source("'open").unwrap_err() {
        Error::Expected { wanted, got, .. } => {
            assert!(wanted[0] == TokenType::Quote);
            assert!(got.token_type == TokenType::EOF);
        }
        other => panic!("{:?}", other),
    }
    match parse_source("1 [c = theme back]").unwrap_err() {
        Error::Expected { wanted, .. } => assert!(wanted[0] == TokenType::Colon),
        other => panic!("{:?}", other),
    }
    match parse_source("1 [c = theme: ,]").unwrap_err() {
        Error::ExpectedText { got, .. } => assert!(got.token_type == TokenType::Comma),
        other => panic!("{:?}", other),
    }
    match parse_source("}").unwrap_err() {
        Error::UnexpectedToken { token, .. } => assert!(token.token_type == TokenType::CloseCurly),
        other => panic!("{:?}", other),
    }
    match parse_source("x1").unwrap_err() {
        Error::UnexpectedToken { token, .. } => assert!(token.is_text("x1")),
        other => panic!("{:?}", other),
    }
}

#[test]
fn markup_error_messages() {
    let cases: Vec<(Error, &str)> = vec![
        (Error::Placeholder, "placeholder err :P"),
        (parse_source("}").unwrap_err(), "unexpected token '}'"),
        (parse_source("1 [a b]").unwrap_err(), "expected ',' or ']', got 'b'"),
        (parse_source("1 [c = theme: ,]").unwrap_err(), "expected text, got ,"),
        (parse_source("1 [c = theme: 1]").unwrap_err(), "unknown property '1' on theme"),
        (parse_source("theme:back").unwrap_err(), "expected '{', got ':'"),
        (Error::CouldntParseNum, "couldnt parse num"),
        (Error::InvalidAttributeKey, "attribute key must consist of letters or _"),
        (Error::InvalidHexLength, "hex values can only be 3 or 6 characters long"),
        (
            Error::UnknownPropertySource { source: String::from("s") },
            "unknown property source 's'",
        ),
        (
            Error::UnknownProperty { source: String::from("s"), property: String::from("p") },
            "unknown property 'p' on s",
        ),
        (
            Error::ValueTypeMismatch(ErrPosition, String::from("num"), String::from("str")),
            "expected num, got str",
        ),
        (Error::InvalidAnchor(ErrPosition, String::from("x")), "invalid anchor 'x'"),
        (Error::InvalidAlignment(ErrPosition, String::from("x")), "invalid alignment 'x'"),
        (Error::InvalidElemType(ErrPosition, String::from("color")), "cannot have color as element"),
    ];
    for (e, want) in cases {
        assert_eq!(e.message(), want);
    }
}

#[test]
fn reader_can_be_driven_by_hand() {
    let mut parser = Parser::new(phosphorus::rtr::ast::tokenise("frame {}"));
    let doc = parser.parse().unwrap();
    assert_eq!(show(&doc), "doc(Frame{})");
    assert!(parser.cursor.at_end());
}

#[test]
fn theme_properties() {
    assert_eq!(theme_property_of("back"), Some(ThemeProperty::Back));
    assert_eq!(theme_property_of("prim"), Some(ThemeProperty::Prim));
    assert_eq!(theme_property_of("seco"), Some(ThemeProperty::Seco));
    assert_eq!(theme_property_of("tert"), Some(ThemeProperty::Tert));
    assert_eq!(theme_property_of("text"), Some(ThemeProperty::Text));
    assert_eq!(theme_property_of("accent"), Some(ThemeProperty::Accent));
    assert_eq!(theme_property_of("Accent"), None);
}

#[test]
fn value_kinds_and_getters() {
    let theme = Theme::default();
    assert_eq!(text("a").get_type(), "str");
    assert_eq!(Value::Num(n(1.0)).get_type(), "num");
    assert_eq!(Value::Percentage(n(1.0)).get_type(), "percentage");
    assert_eq!(Value::Color(Color::rgb(1, 2, 3)).get_type(), "color");
    assert_eq!(Value::Property(PropertyPath::Theme(ThemeProperty::Back)).get_type(), "color");
    assert_eq!(text("a").get_str(), "a");
    assert_eq!(Value::Num(n(2.5)).get_num(), n(2.5));
    assert_eq!(Value::Percentage(n(50.0)).get_percentage(), n(50.0));
    assert_eq!(Value::Color(Color::rgb(1, 2, 3)).get_color(&theme), Color::rgb(1, 2, 3));
    let picks = [
        (ThemeProperty::Back, theme.background),
        (ThemeProperty::Prim, theme.primary),
        (ThemeProperty::Seco, theme.secondary),
        (ThemeProperty::Tert, theme.tertiary),
        (ThemeProperty::Text, theme.text),
        (ThemeProperty::Accent, theme.accent),
    ];
    for (p, want) in picks {
        assert_eq!(Value::Property(PropertyPath::Theme(p)).get_color(&theme), want);
    }
    assert_eq!(format!("{:?}", text("a").copy()), format!("{:?}", text("a")));
}

#[test]
fn default_theme() {
    let theme = Theme::default();
    assert_eq!(theme.background, Color::hex("#090a0b").unwrap());
    assert_eq!(theme.primary, Color::hex("#1a1d28").unwrap());
    assert_eq!(theme.secondary, Color::hex("#313f4e").unwrap());
    assert_eq!(theme.tertiary, Color::hex("#4f617d").unwrap());
    assert_eq!(theme.text, Color::hex("#b3cbf9").unwrap());
    assert_eq!(theme.accent, Color::hex("#a600ff").unwrap());
}

#[test]
fn header_pairs_and_flags() {
    let mut h = header(vec![("a", text("x")), ("b", Value::Num(n(1.0))), ("a", text("y"))], vec![]);
    assert_eq!(h.pairs.len(), 2);
    assert_eq!(h.get("a").unwrap().get_str(), "y");
    assert!(h.get("c").is_none());
    assert!(h.expect("c", "num").unwrap().is_none());
    assert_eq!(h.expect("b", "num").unwrap().unwrap().get_num(), n(1.0));
    match h.expect("a", "num") {
        Err(Error::ValueTypeMismatch(_, wanted, got)) => {
            assert_eq!(wanted, "num");
            assert_eq!(got, "str");
        }
        other => panic!("{:?}", other),
    }
    assert!(!h.has_flag("f"));
    h.set_flag("f", true);
    h.set_flag("g", true);
    h.set_flag("f", true);
    assert_eq!(h.flags, vec!["f", "g"]);
    h.set_flag("f", false);
    h.set_flag("x", false);
    assert_eq!(h.flags, vec!["g"]);
    h.flags.push(String::from("g"));
    h.set_flag("g", false);
    assert_eq!(h.flags.len(), 0);
}

#[test]
fn header_of_a_document_header() {
    let doc = parse_source("1 [a = 1, Flag, a = 2, b = 'x', Flag]").unwrap();
    let AstNode::Document(children) = doc else { panic!() };
    let AstNode::Element(value, ast_header) = &children[0] else { panic!() };
    assert_eq!(value.instance().get_num(), n(1.0));
    let h = instance_header(ast_header);
    assert_eq!(h.pairs.len(), 2);
    assert_eq!(h.pairs[0].name, "a");
    assert_eq!(h.get("a").unwrap().get_num(), n(2.0));
    assert_eq!(h.get("b").unwrap().get_str(), "x");
    assert_eq!(h.flags, vec!["Flag", "Flag"]);
}

#[test]
fn padding_and_margin() {
    let h = header(
        vec![
            ("padding", Value::Num(n(1.0))),
            ("padding_x", Value::Num(n(2.0))),
            ("padding_t", Value::Num(n(3.0))),
            ("padding_bottom", text("no")),
            ("margin_left", Value::Num(n(4.0))),
            ("margin_r", Value::Num(n(5.0))),
            ("margin_y", Value::Num(n(6.0))),
            ("margin_b", Value::Num(n(7.0))),
            ("marginx", Value::Num(n(8.0))),
        ],
        vec![],
    );
    assert_eq!(h.get_padding(), Area { a: Vec2(n(2.0), n(3.0)), b: Vec2(n(2.0), n(1.0)) });
    assert_eq!(h.get_margin(), Area { a: Vec2(n(4.0), n(6.0)), b: Vec2(n(5.0), n(7.0)) });
    let later = header(vec![("padding_x", Value::Num(n(2.0))), ("padding", Value::Num(n(1.0)))], vec![]);
    assert_eq!(later.get_padding(), Area { a: Vec2(n(1.0), n(1.0)), b: Vec2(n(1.0), n(1.0)) });
    assert_eq!(Header::new().get_margin(), Area { a: Vec2(n(0.0), n(0.0)), b: Vec2(n(0.0), n(0.0)) });
}

#[test]
fn area_sides_and_flip() {
    let area = Area { a: Vec2(n(1.0), n(-2.0)), b: Vec2(n(0.0), n(4.5)) };
    assert_eq!(area.left(), n(1.0));
    assert_eq!(area.top(), n(-2.0));
    assert_eq!(area.right(), n(0.0));
    assert_eq!(area.bottom(), n(4.5));
    assert_eq!(area.flip(), Area { a: Vec2(n(-1.0), n(2.0)), b: Vec2(n(-0.0), n(-4.5)) });
}

#[test]
fn anchors() {
    let cases = [
        ("tl", Some(AnchorX::Left), Some(AnchorY::Top)),
        ("t", None, Some(AnchorY::Top)),
        ("tr", Some(AnchorX::Right), Some(AnchorY::Top)),
        ("l", Some(AnchorX::Left), None),
        ("c", None, None),
        ("r", Some(AnchorX::Right), None),
        ("bl", Some(AnchorX::Left), Some(AnchorY::Bottom)),
        ("b", None, Some(AnchorY::Bottom)),
        ("br", Some(AnchorX::Right), Some(AnchorY::Bottom)),
        ("top left", Some(AnchorX::Left), Some(AnchorY::Top)),
        ("top", None, Some(AnchorY::Top)),
        ("top right", Some(AnchorX::Right), Some(AnchorY::Top)),
        ("left", Some(AnchorX::Left), None),
        ("center", Some(AnchorX::Right), None),
        ("right", Some(AnchorX::Right), None),
        ("bottom", None, Some(AnchorY::Bottom)),
        ("bottom right", Some(AnchorX::Right), Some(AnchorY::Bottom)),
    ];
    for (name, x, y) in cases {
        let h = header(vec![("anchor", text(name))], vec![]);
        assert_eq!(get_anchor(&h).unwrap(), (x, y), "{}", name);
    }
    for name in ["bottom left", "", "middle", "TL"] {
        let h = header(vec![("anchor", text(name))], vec![]);
        match get_anchor(&h) {
            Err(Error::InvalidAnchor(_, got)) => assert_eq!(got, name),
            other => panic!("{:?}", other),
        }
    }
    assert_eq!(get_anchor(&Header::new()).unwrap(), (None, None));
    let other = header(vec![("anchor", Value::Num(n(1.0))), ("x", text("zz"))], vec![]);
    assert_eq!(get_anchor(&other).unwrap(), (None, None));
}

#[test]
fn alignments() {
    let cases = [
        ("l", Alignment::Left),
        ("c", Alignment::Center),
        ("r", Alignment::Right),
        ("left", Alignment::Left),
        ("center", Alignment::Right),
        ("right", Alignment::Right),
    ];
    for (name, want) in cases {
        let h = header(vec![("alignment", text(name))], vec![]);
        assert_eq!(get_alignment(&h, Alignment::Center).unwrap(), want, "{}", name);
    }
    let h = header(vec![("alignment", text("tl"))], vec![]);
    match get_alignment(&h, Alignment::Center) {
        Err(Error::InvalidAlignment(_, got)) => assert_eq!(got, "tl"),
        other => panic!("{:?}", other),
    }
    assert_eq!(get_alignment(&Header::new(), Alignment::Right).unwrap(), Alignment::Right);
    assert_eq!(AnchorX::from(Alignment::Left), AnchorX::Left);
    assert_eq!(AnchorX::from(Alignment::Center), AnchorX::Center);
    assert_eq!(Alignment::from(AnchorX::Right), Alignment::Right);
}

#[test]
fn frame_flags() {
    let h = header(vec![], vec!["Vertical", "Flipped", "other"]);
    assert_eq!(frame_data(&h), FrameData { dir: FrameDirection::Vertical, flipped: true });
    let mut twice = header(vec![], vec!["Flipped", "Vertical", "Horizontal"]);
    twice.flags.push(String::from("Flipped"));
    assert_eq!(frame_data(&twice), FrameData { dir: FrameDirection::Horizontal, flipped: false });
    assert_eq!(frame_data(&Header::new()), FrameData { dir: FrameDirection::Horizontal, flipped: false });
}

#[test]
fn size_rules() {
    assert!(is_size_applicable("size", &FrameDirection::Vertical));
    assert!(is_size_applicable("width", &FrameDirection::Horizontal));
    assert!(!is_size_applicable("width", &FrameDirection::Vertical));
    assert!(is_size_applicable("height", &FrameDirection::Vertical));
    assert!(!is_size_applicable("height", &FrameDirection::Horizontal));
    assert!(!is_size_applicable("depth", &FrameDirection::Horizontal));
    let h = header(
        vec![("size", Value::Num(n(10.0))), ("height", text("x")), ("width", Value::Percentage(n(50.0)))],
        vec![],
    );
    assert_eq!(frame_size_rule(&h, &FrameDirection::Horizontal).unwrap(), SizeRule::Share(n(50.0)));
    match frame_size_rule(&h, &FrameDirection::Vertical) {
        Err(Error::ValueTypeMismatch(_, wanted, got)) => {
            assert_eq!(wanted, "'num' or 'percentage'");
            assert_eq!(got, "str");
        }
        other => panic!("{:?}", other),
    }
    assert_eq!(frame_size_rule(&Header::new(), &FrameDirection::Vertical).unwrap(), SizeRule::Rest);
    let color = header(vec![("size", Value::Color(Color::rgb(0, 0, 0)))], vec![]);
    match frame_size_rule(&color, &FrameDirection::Vertical) {
        Err(Error::ValueTypeMismatch(_, _, got)) => assert_eq!(got, "color"),
        other => panic!("{:?}", other),
    }
    let property = header(vec![("size", Value::Property(PropertyPath::Theme(ThemeProperty::Back)))], vec![]);
    match frame_size_rule(&property, &FrameDirection::Vertical) {
        Err(Error::ValueTypeMismatch(_, _, got)) => assert_eq!(got, "property"),
        other => panic!("{:?}", other),
    }
}

#[test]
fn settings_and_rounding() {
    let h = header(vec![("size", Value::Num(n(12.0))), ("spacing", text("x"))], vec![]);
    assert_eq!(numeric_setting(&h, "size", n(10.0)).unwrap(), n(12.0));
    assert_eq!(numeric_setting(&h, "line_height", n(1.0)).unwrap(), n(1.0));
    assert!(matches!(numeric_setting(&h, "spacing", n(1.0)), Err(Error::ValueTypeMismatch(..))));
    assert_eq!(get_rounding(&h).unwrap(), Rounding::default());
    assert_eq!(Rounding::default().tl, n(0.0));
    let r = header(vec![("rounding", Value::Num(n(4.0)))], vec![]);
    assert_eq!(get_rounding(&r).unwrap(), Rounding::uniform(n(4.0)));
    let bad = header(vec![("rounding", text("4"))], vec![]);
    assert!(matches!(get_rounding(&bad), Err(Error::ValueTypeMismatch(..))));
}

#[test]
fn element_texts_and_lines() {
    assert_eq!(element_text(&text("a\nb"), &render).unwrap(), "a\nb");
    assert_eq!(element_text(&Value::Num(n(1.5)), &render).unwrap(), "1.5");
    match element_text(&Value::Percentage(n(1.0)), &render) {
        Err(Error::InvalidElemType(_, name)) => assert_eq!(name, "percentage"),
        other => panic!("{:?}", other),
    }
    for s in ["", "a", "a\nb", "\n", "a\n", "\n\nb", "é\n\n"] {
        let want: Vec<String> = s.split('\n').map(|l| l.to_string()).collect();
        assert_eq!(lines_of(s), want, "{:?}", s);
    }
}
