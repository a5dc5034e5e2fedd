use vstd::prelude::*;
use vstd::string::StringExecFns;
use crate::text::{chars_of, string_of};

verus! {

/// Whether `c` has the Unicode `White_Space` property.
pub open spec fn white_space(c: char) -> bool {
    let u = c as u32;
    (0x09 <= u && u <= 0x0d) || u == 0x20 || u == 0x85 || u == 0xa0 || u == 0x1680 || (0x2000 <= u
        && u <= 0x200a) || u == 0x2028 || u == 0x2029 || u == 0x202f || u == 0x205f || u == 0x3000
}

/// Whether `c` is alphabetic or numeric in Unicode's sense.
pub uninterp spec fn alphanumeric(c: char) -> bool;

/// Relies on `char::is_whitespace`: true exactly for the characters with the
/// Unicode `White_Space` property.
pub assume_specification[ char::is_whitespace ](c: char) -> (r: bool)
    ensures
        r == white_space(c),
;

/// Relies on `char::is_alphanumeric`: its answer depends on the character
/// alone, and on ASCII characters it holds exactly for digits and letters.
pub assume_specification[ char::is_alphanumeric ](c: char) -> (r: bool)
    ensures
        r == alphanumeric(c),
        (c as u32) < 0x80 ==> (r <==> (('0' <= c && c <= '9') || ('A' <= c && c <= 'Z') || ('a' <= c
            && c <= 'z'))),
;

/// A lexical token of W++.
#[derive(Debug, Clone)]
pub enum Token {
    LeftBracket,
    RightBracket,
    LeftParen,
    RightParen,
    LeftBrace,
    RightBrace,
    Plus,
    Identifier(String),
    StringLiteral(String),
}

/// A token with its text as characters.
pub enum TokenView {
    LeftBracket,
    RightBracket,
    LeftParen,
    RightParen,
    LeftBrace,
    RightBrace,
    Plus,
    Identifier(Seq<char>),
    StringLiteral(Seq<char>),
}

impl View for Token {
    type V = TokenView;

    open spec fn view(&self) -> TokenView {
        match self {
            Token::LeftBracket => TokenView::LeftBracket,
            Token::RightBracket => TokenView::RightBracket,
            Token::LeftParen => TokenView::LeftParen,
            Token::RightParen => TokenView::RightParen,
            Token::LeftBrace => TokenView::LeftBrace,
            Token::RightBrace => TokenView::RightBrace,
            Token::Plus => TokenView::Plus,
            Token::Identifier(s) => TokenView::Identifier(s@),
            Token::StringLiteral(s) => TokenView::StringLiteral(s@),
        }
    }
}

/// The tokens of a sequence, as views.
pub open spec fn token_views(ts: Seq<Token>) -> Seq<TokenView> {
    ts.map_values(|t: Token| t@)
}

/// The one-character token `c` stands for, if any.
pub open spec fn punctuation(c: char) -> Option<TokenView> {
    if c == '[' {
        Some(TokenView::LeftBracket)
    } else if c == ']' {
        Some(TokenView::RightBracket)
    } else if c == '(' {
        Some(TokenView::LeftParen)
    } else if c == ')' {
        Some(TokenView::RightParen)
    } else if c == '{' {
        Some(TokenView::LeftBrace)
    } else if c == '}' {
        Some(TokenView::RightBrace)
    } else if c == '+' {
        Some(TokenView::Plus)
    } else {
        None
    }
}

/// The position of the first quote in `s` at or after `i`, or the length of `s`.
pub open spec fn quote_end(s: Seq<char>, i: int) -> int
    decreases s.len() - i,
{
    if i >= s.len() || i < 0 {
        s.len() as int
    } else if s[i] == '"' {
        i
    } else {
        quote_end(s, i + 1)
    }
}

/// The position of the first character in `s` at or after `i` that is not
/// alphanumeric, or the length of `s`.
pub open spec fn word_end(s: Seq<char>, i: int) -> int
    decreases s.len() - i,
{
    if i >= s.len() || i < 0 {
        s.len() as int
    } else if !alphanumeric(s[i]) {
        i
    } else {
        word_end(s, i + 1)
    }
}

/// The tokens of `s`. Whitespace separates tokens; a quote opens a string
/// literal that runs to the next quote or to the end; any other character
/// starts an identifier that takes in the alphanumeric characters after it.
pub open spec fn lex(s: Seq<char>) -> Seq<TokenView>
    decreases s.len(),
{
    if s.len() == 0 {
        Seq::empty()
    } else {
        let c = s[0];
        if white_space(c) {
            lex(s.drop_first())
        } else if punctuation(c) is Some {
            seq![punctuation(c)->0] + lex(s.drop_first())
        } else if c == '"' {
            let q = quote_end(s, 1);
            let next = if q < s.len() { q + 1 } else { q };
            if 1 <= q && next <= s.len() {
                seq![TokenView::StringLiteral(s.subrange(1, q))] + lex(s.subrange(next, s.len() as int))
            } else {
                Seq::empty()
            }
        } else {
            let w = word_end(s, 1);
            if 1 <= w <= s.len() {
                seq![TokenView::Identifier(s.subrange(0, w))] + lex(s.subrange(w, s.len() as int))
            } else {
                Seq::empty()
            }
        }
    }
}

/// The length of `s` once whitespace at its end is left out.
pub open spec fn trimmed_len(s: Seq<char>) -> int
    decreases s.len(),
{
    if s.len() == 0 {
        0
    } else if white_space(s.last()) {
        trimmed_len(s.drop_last())
    } else {
        s.len() as int
    }
}

/// The tokens of a W++ text, whitespace at either end left out.
pub open spec fn tokens_of(s: Seq<char>) -> Seq<TokenView> {
    lex(s.subrange(0, trimmed_len(s)))
}

proof fn lemma_quote_end_bounds(s: Seq<char>, i: int)
    requires
        0 <= i <= s.len(),
    ensures
        i <= quote_end(s, i) <= s.len(),
        quote_end(s, i) < s.len() ==> s[quote_end(s, i)] == '"',
        forall|k: int| i <= k < quote_end(s, i) ==> s[k] != '"',
    decreases s.len() - i,
{
    if i < s.len() && s[i] != '"' {
        lemma_quote_end_bounds(s, i + 1);
    }
}

proof fn lemma_word_end_bounds(s: Seq<char>, i: int)
    requires
        0 <= i <= s.len(),
    ensures
        i <= word_end(s, i) <= s.len(),
        forall|k: int| i <= k < word_end(s, i) ==> alphanumeric(s[k]),
    decreases s.len() - i,
{
    if i < s.len() && alphanumeric(s[i]) {
        lemma_word_end_bounds(s, i + 1);
    }
}

proof fn lemma_quote_end_shift(s: Seq<char>, a: int, i: int)
    requires
        0 <= a <= i <= s.len(),
    ensures
        quote_end(s.subrange(a, s.len() as int), i - a) == quote_end(s, i) - a,
    decreases s.len() - i,
{
    if i < s.len() && s[i] != '"' {
        lemma_quote_end_shift(s, a, i + 1);
    }
}

proof fn lemma_word_end_shift(s: Seq<char>, a: int, i: int)
    requires
        0 <= a <= i <= s.len(),
    ensures
        word_end(s.subrange(a, s.len() as int), i - a) == word_end(s, i) - a,
    decreases s.len() - i,
{
    if i < s.len() && alphanumeric(s[i]) {
        lemma_word_end_shift(s, a, i + 1);
    }
}

proof fn lemma_trimmed_len(s: Seq<char>)
    ensures
        0 <= trimmed_len(s) <= s.len(),
        trimmed_len(s) > 0 ==> !white_space(s[trimmed_len(s) - 1]),
        forall|k: int| trimmed_len(s) <= k < s.len() ==> white_space(s[k]),
    decreases s.len(),
{
    if s.len() > 0 && white_space(s.last()) {
        lemma_trimmed_len(s.drop_last());
        assert forall|k: int| trimmed_len(s) <= k < s.len() implies white_space(s[k]) by {
            if k < s.len() - 1 {
                assert(s.drop_last()[k] == s[k]);
            }
        }
    }
}

fn trimmed_end(t: &Vec<char>) -> (r: usize)
    ensures
        r == trimmed_len(t@),
{
    let mut end: usize = t.len();
    assert(t@.subrange(0, end as int) =~= t@);
    while end > 0 && t[end - 1].is_whitespace()
        invariant
            0 <= end <= t@.len(),
            trimmed_len(t@) == trimmed_len(t@.subrange(0, end as int)),
        decreases end,
    {
        proof {
            let s = t@.subrange(0, end as int);
            assert(s.drop_last() =~= t@.subrange(0, end - 1));
        }
        end = end - 1;
    }
    proof {
        let s = t@.subrange(0, end as int);
        if end == t@.len() {
            assert(s =~= t@);
        }
    }
    end
}

/// The tokens of a W++ text, in order.
pub fn tokenize(input: &str) -> (r: Vec<Token>)
    ensures
        token_views(r@) == tokens_of(input@),
{
    let all = chars_of(input);
    let len = trimmed_end(&all);
    let ghost s = all@.subrange(0, len as int);
    proof {
        lemma_trimmed_len(all@);
    }
    let mut tokens: Vec<Token> = Vec::new();
    let mut i: usize = 0;
    assert(s.subrange(0, s.len() as int) =~= s);
    assert(token_views(tokens@) =~= Seq::<TokenView>::empty());
    assert(Seq::<TokenView>::empty() + lex(s) =~= lex(s));
    while i < len
        invariant
            0 <= i <= len <= all@.len(),
            s == all@.subrange(0, len as int),
            lex(s) == token_views(tokens@) + lex(s.subrange(i as int, s.len() as int)),
        decreases len - i,
    {
        let ghost rest = s.subrange(i as int, s.len() as int);
        let ghost before = token_views(tokens@);
        let c = all[i];
        assert(rest[0] == c);
        if c.is_whitespace() {
            assert(rest.drop_first() =~= s.subrange(i + 1, s.len() as int));
            i = i + 1;
        } else if c == '[' || c == ']' || c == '(' || c == ')' || c == '{' || c == '}' || c == '+' {
            let tok = if c == '[' {
                Token::LeftBracket
            } else if c == ']' {
                Token::RightBracket
            } else if c == '(' {
                Token::LeftParen
            } else if c == ')' {
                Token::RightParen
            } else if c == '{' {
                Token::LeftBrace
            } else if c == '}' {
                Token::RightBrace
            } else {
                Token::Plus
            };
            tokens.push(tok);
            proof {
                assert(rest.drop_first() =~= s.subrange(i + 1, s.len() as int));
                assert(token_views(tokens@) =~= before.push(tok@));
                assert(before + lex(rest) =~= token_views(tokens@) + lex(s.subrange(i + 1, s.len() as int)));
            }
            i = i + 1;
        } else if c == '"' {
            let mut j: usize = i + 1;
            while j < len && all[j] != '"'
                invariant
                    i < j <= len <= all@.len(),
                    s == all@.subrange(0, len as int),
                    quote_end(s, i + 1) == quote_end(s, j as int),
                decreases len - j,
            {
                j = j + 1;
            }
            let literal = string_of(&slice(&all, i + 1, j));
            let next = if j < len { j + 1 } else { j };
            tokens.push(Token::StringLiteral(literal));
            proof {
                lemma_quote_end_shift(s, i as int, i + 1);
                lemma_quote_end_bounds(s, i + 1);
                assert(all@.subrange(i + 1, j as int) =~= s.subrange(i + 1, j as int));
                assert(literal@ == s.subrange(i + 1, j as int));
                assert(quote_end(s, j as int) == j as int);
                assert(rest.subrange(1, j - i) =~= s.subrange(i + 1, j as int));
                assert(rest.subrange(next - i, rest.len() as int) =~= s.subrange(next as int, s.len() as int));
                assert(token_views(tokens@) =~= before.push(TokenView::StringLiteral(s.subrange(i + 1, j as int))));
                assert(before + lex(rest) =~= token_views(tokens@) + lex(s.subrange(next as int, s.len() as int)));
            }
            i = next;
        } else {
            let mut j: usize = i + 1;
            while j < len && all[j].is_alphanumeric()
                invariant
                    i < j <= len <= all@.len(),
                    s == all@.subrange(0, len as int),
                    word_end(s, i + 1) == word_end(s, j as int),
                decreases len - j,
            {
                j = j + 1;
            }
            let word = string_of(&slice(&all, i, j));
            tokens.push(Token::Identifier(word));
            proof {
                lemma_word_end_shift(s, i as int, i + 1);
                lemma_word_end_bounds(s, i + 1);
                assert(all@.subrange(i as int, j as int) =~= s.subrange(i as int, j as int));
                assert(word@ == s.subrange(i as int, j as int));
                assert(word_end(s, j as int) == j as int);
                assert(rest.subrange(0, j - i) =~= s.subrange(i as int, j as int));
                assert(rest.subrange(j - i, rest.len() as int) =~= s.subrange(j as int, s.len() as int));
                assert(token_views(tokens@) =~= before.push(TokenView::Identifier(s.subrange(i as int, j as int))));
                assert(before + lex(rest) =~= token_views(tokens@) + lex(s.subrange(j as int, s.len() as int)));
            }
            i = j;
        }
    }
    proof {
        assert(s.subrange(len as int, s.len() as int) =~= Seq::<char>::empty());
        assert(token_views(tokens@) + Seq::<TokenView>::empty() =~= token_views(tokens@));
    }
    tokens
}

/// The characters of `t` from `from` up to `to`.
fn slice(t: &Vec<char>, from: usize, to: usize) -> (r: Vec<char>)
    requires
        from <= to <= t@.len(),
    ensures
        r@ == t@.subrange(from as int, to as int),
{
    let mut out: Vec<char> = Vec::new();
    let mut i: usize = from;
    while i < to
        invariant
            from <= i <= to <= t@.len(),
            out@ == t@.subrange(from as int, i as int),
        decreases to - i,
    {
        out.push(t[i]);
        assert(t@.subrange(from as int, i + 1) =~= t@.subrange(from as int, i as int).push(t@[i as int]));
        i = i + 1;
    }
    out
}

} // verus!
