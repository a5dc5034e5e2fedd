use alice::{parse, tokenize, Attribute, Token, WppItem};

const CHARACTER_FULL_VALID: &str = r#"
[Character("Nika Orchid")
{
    Nickname("Nika")
    Species("Human Cat")
    Age("19" + "19 years old")
    Features("Purple eyes" + "Black hair" + "Cat ears" + "Cat tail")
    Body("158cm tall" + "5 foot 2 inches tall" + "Small breasts")
    Mind("Shy" + "Reserved" + "Obedient" + "Dutiful" + "Hesitant" + "Insecure" + "Quiet" + "Stoic")
    Personality("Shy" + "Reserved" + "Obedient" + "Dutiful" + "Hesitant" + "Insecure" + "Quiet" + "Stoic")
    Loves("Pleasing her master" + "Being kind" + "Doing her duty" + "Head pats" + "Recognition" + "Being rewarded")
    Hates("Disappointing her master" + "Being unhelpful" + "Being away from master")
    Description("Nika calls you Master" + "Nika is very obedient" + "Nika wants to please you" + "Nika is very insecure about her body" + "Nika is shy" + "Nika is naive" + "Nika is loyal" + "Nika gets scared when people touch her")
}]
"#;

#[test]
fn tokenizes_punctuation_words_and_literals() {
    let tokens = tokenize("  [Char(\"a b\") { K(\"v\" + \"w\") }]  ");
    let kinds: Vec<String> = tokens
        .iter()
        .map(|t| match t {
            Token::LeftBracket => "[".to_string(),
            Token::RightBracket => "]".to_string(),
            Token::LeftParen => "(".to_string(),
            Token::RightParen => ")".to_string(),
            Token::LeftBrace => "{".to_string(),
            Token::RightBrace => "}".to_string(),
            Token::Plus => "+".to_string(),
            Token::Identifier(s) => format!("id:{}", s),
            Token::StringLiteral(s) => format!("str:{}", s),
        })
        .collect();
    assert_eq!(
        kinds,
        vec!["[", "id:Char", "(", "str:a b", ")", "{", "id:K", "(", "str:v", "+", "str:w", ")", "}", "]"]
    );
}

#[test]
fn unterminated_literal_runs_to_the_end_without_trailing_space() {
    let tokens = tokenize("\"abc  ");
    assert_eq!(tokens.len(), 1);
    assert!(matches!(&tokens[0], Token::StringLiteral(s) if s == "abc"));
    assert!(tokenize("   ").is_empty());
}

#[test]
fn parses_a_full_character() {
    let item = parse(CHARACTER_FULL_VALID).unwrap();
    assert_eq!(item.item_type(), "Character");
    assert_eq!(item.name(), "Nika Orchid");
    assert_eq!(item.attributes().len(), 10);
    assert_eq!(item.attributes()[0].name(), "Nickname");
    assert_eq!(item.attributes()[0].values(), &vec!["Nika".to_string()]);
    assert_eq!(item.attributes()[2].values(), &vec!["19".to_string(), "19 years old".to_string()]);
    assert_eq!(item.attributes()[9].values().len(), 8);
}

#[test]
fn parse_reports_malformed_entries() {
    assert_eq!(parse("").unwrap_err(), "Expected `[`");
    assert_eq!(parse("[(").unwrap_err(), "Expected w++ entry name");
    assert_eq!(parse("[A \"x\"").unwrap_err(), "Expected `(`");
    assert_eq!(parse("[A(B").unwrap_err(), "Expected string literal");
    assert_eq!(parse("[A(\"x\"{").unwrap_err(), "Expected `)`, while parsing character");
    assert_eq!(parse("[A(\"x\")]").unwrap_err(), "Expected `{`");
    assert_eq!(parse("[A(\"x\"){ K \"v\" }]").unwrap_err(), "Expected `(`");
    assert!(parse("[A(\"x\"){ K(\"v\" ] }]").is_err());
    assert!(parse("[A(\"x\"){ ( }]").is_err());
    assert!(parse("[A(\"x\"){ K(\"v\") }").is_err());
    assert!(parse("[A(\"x\"){ K(\"v\") ").is_err());
}

#[test]
fn format_writes_the_entry_back() {
    let mut item = WppItem::new("Character", "Nika");
    let mut a = Attribute::new("Age");
    a.add_value("19");
    a.add_value("19 years old");
    item.add_attribute(a);
    item.add_attribute(Attribute::new("Empty"));
    let text = alice::wpp::format::format(&item);
    assert_eq!(text, "[Character(\"Nika\")\n{\n    Age(\"19\" + \"19 years old\")\n    Empty()\n}]");
    assert_eq!(item.prompt(), text);
}

#[test]
fn format_then_parse_gives_the_entry() {
    let item = parse(CHARACTER_FULL_VALID).unwrap();
    let again = parse(&alice::wpp::format::format(&item)).unwrap();
    assert_eq!(again.item_type(), item.item_type());
    assert_eq!(again.name(), item.name());
    assert_eq!(again.attributes().len(), item.attributes().len());
    for (x, y) in again.attributes().iter().zip(item.attributes().iter()) {
        assert_eq!(x.name(), y.name());
        assert_eq!(x.values(), y.values());
    }
}
