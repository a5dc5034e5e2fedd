use vstd::prelude::*;
use vstd::string::StringExecFns;
use crate::wpp::item::{attribute_views, string_views, Attribute, WppItem};
use crate::wpp::tokenizer::{tokenize, token_views, tokens_of, Token, TokenView};

verus! {

/// The type and name in the header of an entry: `[`, a type, `(`, a name in
/// quotes, `)` and `{`.
pub open spec fn header_of(ts: Seq<TokenView>) -> Option<(Seq<char>, Seq<char>)> {
    if ts.len() >= 6 && ts[0] is LeftBracket && ts[1] is Identifier && ts[2] is LeftParen
        && ts[3] is StringLiteral && ts[4] is RightParen && ts[5] is LeftBrace {
        Some((ts[1]->Identifier_0, ts[3]->StringLiteral_0))
    } else {
        None
    }
}

/// The values of an attribute from position `i`, just after its `(`: string
/// literals joined by `+`, up to `)` or the end. Gives the values and the
/// position after them.
pub open spec fn values_from(ts: Seq<TokenView>, i: int) -> Option<(Seq<Seq<char>>, int)>
    decreases ts.len() - i,
{
    if i < 0 || i >= ts.len() {
        Some((Seq::empty(), ts.len() as int))
    } else {
        match ts[i] {
            TokenView::StringLiteral(v) => match values_from(ts, i + 1) {
                Some((vs, j)) => Some((seq![v] + vs, j)),
                None => None,
            },
            TokenView::Plus => values_from(ts, i + 1),
            TokenView::RightParen => Some((Seq::empty(), i + 1)),
            _ => None,
        }
    }
}

/// The attributes of an entry from position `i` up to `}` or the end. Gives
/// the attributes and the position after them.
pub open spec fn attributes_from(ts: Seq<TokenView>, i: int) -> Option<(Seq<(Seq<char>, Seq<Seq<char>>)>, int)>
    decreases ts.len() - i,
{
    if i < 0 || i >= ts.len() {
        Some((Seq::empty(), ts.len() as int))
    } else {
        match ts[i] {
            TokenView::Identifier(k) => {
                if i + 1 < ts.len() && ts[i + 1] is LeftParen {
                    match values_from(ts, i + 2) {
                        Some((vs, j)) => if i < j <= ts.len() {
                            match attributes_from(ts, j) {
                                Some((rest, l)) => Some((seq![(k, vs)] + rest, l)),
                                None => None,
                            }
                        } else {
                            None
                        },
                        None => None,
                    }
                } else {
                    None
                }
            },
            TokenView::RightBrace => Some((Seq::empty(), i + 1)),
            _ => None,
        }
    }
}

/// The entry that a token sequence describes: a header, its attributes, and `]`.
pub open spec fn entry_of(ts: Seq<TokenView>) -> Option<(Seq<char>, Seq<char>, Seq<(Seq<char>, Seq<Seq<char>>)>)> {
    match header_of(ts) {
        Some((t, n)) => match attributes_from(ts, 6) {
            Some((attrs, j)) => if 0 <= j < ts.len() && ts[j] is RightBracket {
                Some((t, n, attrs))
            } else {
                None
            },
            None => None,
        },
        None => None,
    }
}

proof fn lemma_values_from_bounds(ts: Seq<TokenView>, i: int)
    requires
        0 <= i <= ts.len(),
    ensures
        values_from(ts, i) matches Some((vs, j)) ==> i <= j <= ts.len(),
    decreases ts.len() - i,
{
    if i < ts.len() {
        lemma_values_from_bounds(ts, i + 1);
    }
}

/// How a token is described in an error message.
fn describe(ts: &Vec<Token>, i: usize) -> (r: String) {
    if i >= ts.len() {
        return String::from_str("None");
    }
    match &ts[i] {
        Token::LeftBracket => String::from_str("Some(LeftBracket)"),
        Token::RightBracket => String::from_str("Some(RightBracket)"),
        Token::LeftParen => String::from_str("Some(LeftParen)"),
        Token::RightParen => String::from_str("Some(RightParen)"),
        Token::LeftBrace => String::from_str("Some(LeftBrace)"),
        Token::RightBrace => String::from_str("Some(RightBrace)"),
        Token::Plus => String::from_str("Some(Plus)"),
        Token::Identifier(s) => String::from_str("Some(Identifier(\"").concat(s.as_str()).concat("\"))"),
        Token::StringLiteral(s) => String::from_str("Some(StringLiteral(\"").concat(s.as_str()).concat("\"))"),
    }
}

/// Parses the header of an entry, e.g. `[Character("Nika Orchid")` and `{`.
fn parse_header(ts: &Vec<Token>) -> (r: Result<(String, String), String>)
    ensures
        r matches Ok((t, n)) ==> header_of(token_views(ts@)) == Some((t@, n@)),
        r is Err ==> header_of(token_views(ts@)) is None,
{
    let ghost v = token_views(ts@);
    if ts.len() < 1 || !matches!(ts[0], Token::LeftBracket) {
        return Err(String::from_str("Expected `[`"));
    }
    let iden = match (if ts.len() >= 2 { Some(&ts[1]) } else { None }) {
        Some(Token::Identifier(iden)) => iden.clone(),
        _ => {
            return Err(String::from_str("Expected w++ entry name"));
        },
    };
    if ts.len() < 3 || !matches!(ts[2], Token::LeftParen) {
        return Err(String::from_str("Expected `(`"));
    }
    let name = match (if ts.len() >= 4 { Some(&ts[3]) } else { None }) {
        Some(Token::StringLiteral(name)) => name.clone(),
        _ => {
            return Err(String::from_str("Expected string literal"));
        },
    };
    if ts.len() < 5 || !matches!(ts[4], Token::RightParen) {
        return Err(String::from_str("Expected `)`, while parsing character"));
    }
    if ts.len() < 6 || !matches!(ts[5], Token::LeftBrace) {
        return Err(String::from_str("Expected `{`"));
    }
    Ok((iden, name))
}

/// Parses the values of an attribute from position `i`, just after its `(`:
/// `"value1" + "value2")`.
fn parse_attribute_values(ts: &Vec<Token>, i: usize) -> (r: Result<(Vec<String>, usize), String>)
    ensures
        r matches Ok((vs, j)) ==> values_from(token_views(ts@), i as int) == Some((string_views(vs@), j as int)),
        r is Err ==> values_from(token_views(ts@), i as int) is None,
{
    let ghost v = token_views(ts@);
    let mut values: Vec<String> = Vec::new();
    let mut k: usize = i;
    assert(string_views(values@) =~= Seq::<Seq<char>>::empty());
    assert(Seq::<Seq<char>>::empty() + Seq::<Seq<char>>::empty() =~= Seq::<Seq<char>>::empty());
    while k < ts.len()
        invariant
            i <= k,
            v == token_views(ts@),
            values_from(v, i as int) == match values_from(v, k as int) {
                Some((vs, j)) => Some((string_views(values@) + vs, j)),
                None => None,
            },
        decreases ts@.len() - k,
    {
        let ghost before = string_views(values@);
        match &ts[k] {
            Token::StringLiteral(value) => {
                values.push(value.clone());
                proof {
                    assert(string_views(values@) =~= before.push(value@));
                    match values_from(v, k + 1) {
                        Some((vs, j)) => {
                            assert(before + (seq![value@] + vs) =~= before.push(value@) + vs);
                        },
                        None => {},
                    }
                }
            },
            Token::Plus => {},
            Token::RightParen => {
                assert(string_views(values@) + Seq::<Seq<char>>::empty() =~= string_views(values@));
                return Ok((values, k + 1));
            },
            _ => {
                let mut message = String::from_str("Expected `)` got ");
                message.append(describe(ts, k).as_str());
                message.append(", while parsing attribute values");
                return Err(message);
            },
        }
        k = k + 1;
    }
    assert(string_views(values@) + Seq::<Seq<char>>::empty() =~= string_views(values@));
    Ok((values, ts.len()))
}

/// Parses the attributes of an entry from position `i` up to `}`.
fn parse_attributes(ts: &Vec<Token>, i: usize) -> (r: Result<(Vec<Attribute>, usize), String>)
    ensures
        r matches Ok((attrs, j)) ==> attributes_from(token_views(ts@), i as int) == Some((attribute_views(attrs@), j as int)),
        r is Err ==> attributes_from(token_views(ts@), i as int) is None,
{
    let ghost v = token_views(ts@);
    let mut attributes: Vec<Attribute> = Vec::new();
    let mut k: usize = i;
    assert(attribute_views(attributes@) =~= Seq::<(Seq<char>, Seq<Seq<char>>)>::empty());
    assert(Seq::<(Seq<char>, Seq<Seq<char>>)>::empty() + Seq::<(Seq<char>, Seq<Seq<char>>)>::empty() =~= Seq::<(Seq<char>, Seq<Seq<char>>)>::empty());
    while k < ts.len()
        invariant
            i <= k,
            v == token_views(ts@),
            attributes_from(v, i as int) == match attributes_from(v, k as int) {
                Some((rest, j)) => Some((attribute_views(attributes@) + rest, j)),
                None => None,
            },
        decreases ts@.len() - k,
    {
        let ghost before = attribute_views(attributes@);
        match &ts[k] {
            Token::Identifier(key) => {
                if k + 1 >= ts.len() || !matches!(ts[k + 1], Token::LeftParen) {
                    return Err(String::from_str("Expected `(`"));
                }
                let (values, j) = match parse_attribute_values(ts, k + 2) {
                    Ok(found) => found,
                    Err(e) => {
                        return Err(e);
                    },
                };
                proof {
                    lemma_values_from_bounds(v, k + 2);
                }
                let mut attribute = Attribute::new(key.as_str());
                let mut n: usize = 0;
                while n < values.len()
                    invariant
                        0 <= n <= values@.len(),
                        attribute@ == (key@, string_views(values@).take(n as int)),
                    decreases values@.len() - n,
                {
                    attribute.add_value(values[n].as_str());
                    assert(string_views(values@).take(n + 1) =~= string_views(values@).take(n as int).push(values@[n as int]@));
                    n = n + 1;
                }
                assert(string_views(values@).take(values@.len() as int) =~= string_views(values@));
                let ghost a = attribute@;
                attributes.push(attribute);
                proof {
                    assert(attribute_views(attributes@) =~= before.push(a));
                    match attributes_from(v, j as int) {
                        Some((rest, l)) => {
                            assert(before + (seq![a] + rest) =~= before.push(a) + rest);
                        },
                        None => {},
                    }
                }
                k = j;
            },
            Token::RightBrace => {
                assert(attribute_views(attributes@) + Seq::<(Seq<char>, Seq<Seq<char>>)>::empty() =~= attribute_views(attributes@));
                return Ok((attributes, k + 1));
            },
            _ => {
                let mut message = String::from_str("Expected `}` got ");
                message.append(describe(ts, k).as_str());
                message.append(", while parsing attribute");
                return Err(message);
            },
        }
    }
    assert(attribute_views(attributes@) + Seq::<(Seq<char>, Seq<Seq<char>>)>::empty() =~= attribute_views(attributes@));
    Ok((attributes, ts.len()))
}

/// Parses a whole W++ entry. It fails exactly when the tokens of `input` do
/// not describe an entry, and the message says what was expected.
pub fn parse(input: &str) -> (r: Result<WppItem, String>)
    ensures
        r matches Ok(item) ==> entry_of(tokens_of(input@)) == Some(item@),
        r is Err ==> entry_of(tokens_of(input@)) is None,
{
    let ts = tokenize(input);
    let (iden, name) = match parse_header(&ts) {
        Ok(found) => found,
        Err(e) => {
            return Err(e);
        },
    };
    let (attributes, j) = match parse_attributes(&ts, 6) {
        Ok(found) => found,
        Err(e) => {
            return Err(e);
        },
    };
    let item = WppItem::from_parts(iden, name, attributes);
    if j < ts.len() && matches!(ts[j], Token::RightBracket) {
        Ok(item)
    } else {
        let mut message = String::from_str("Expected `]` got ");
        message.append(describe(&ts, j).as_str());
        message.append(", while parsing character");
        Err(message)
    }
}

} // verus!
