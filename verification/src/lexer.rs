//! The lexer: from source text to tokens, one token per call.
//!
//! The first half of this file is the mathematical model, a handful of
//! functions on a sequence of characters and an index into it. The second
//! half is the cursor that walks a text and is proved to follow the model.

use crate::text::{eco_from_string, push_char, str_eq};
use crate::token::{Token, TokenKind, TokenView};
use vstd::prelude::*;
use vstd::std_specs::iter::IteratorSpec;

verus! {

broadcast use vstd::string::axiom_spec_iter, vstd::string::next_postcondition;

/// Space, tab, carriage return or line feed.
pub open spec fn space(c: char) -> bool {
    c == ' ' || c == '\t' || c == '\n' || c == '\r'
}

/// A character that may start a name: an ASCII letter or an underscore.
pub open spec fn name_start(c: char) -> bool {
    ('a' <= c <= 'z') || ('A' <= c <= 'Z') || c == '_'
}

/// A decimal digit.
pub open spec fn decimal(c: char) -> bool {
    '0' <= c <= '9'
}

/// A character that may continue a name: a letter, a digit or an underscore.
pub open spec fn name_part(c: char) -> bool {
    name_start(c) || decimal(c)
}

/// The value of a character as a digit: `0` to `9`, then the letters of
/// either case from ten upwards.
pub open spec fn digit_value(c: char) -> Option<int> {
    if '0' <= c <= '9' {
        Some(c as int - '0' as int)
    } else if 'a' <= c <= 'z' {
        Some(c as int - 'a' as int + 10)
    } else if 'A' <= c <= 'Z' {
        Some(c as int - 'A' as int + 10)
    } else {
        None
    }
}

/// The radixes in which digits are scanned.
pub open spec fn known_radix(radix: u32) -> bool {
    radix == 2 || radix == 8 || radix == 10 || radix == 16
}

/// Whether a character is a digit of the given radix.
pub open spec fn digit_in(c: char, radix: u32) -> bool {
    match digit_value(c) {
        Some(v) => v < radix,
        None => false,
    }
}

/// The classes of characters of which the lexer scans maximal runs.
pub enum CharClass {
    Space,
    NamePart,
    Digit { radix: u32 },
}

impl CharClass {
    pub open spec fn has(self, c: char) -> bool {
        match self {
            CharClass::Space => space(c),
            CharClass::NamePart => name_part(c),
            CharClass::Digit { radix } => digit_in(c, radix),
        }
    }
}

/// Where the maximal run of characters of one class that starts at `i`
/// ends: the index of the first character at or after `i` that is not of
/// the class, or the length of the text.
pub open spec fn run_end(s: Seq<char>, i: int, class: CharClass) -> int
    decreases s.len() - i,
{
    if 0 <= i < s.len() && class.has(s[i]) {
        run_end(s, i + 1, class)
    } else {
        i
    }
}

/// The reserved word that a text spells, if any.
pub open spec fn keyword(text: Seq<char>) -> Option<TokenKind> {
    if text == "fun"@ {
        Some(TokenKind::Fun)
    } else if text == "let"@ {
        Some(TokenKind::Let)
    } else if text == "struct"@ {
        Some(TokenKind::Struct)
    } else if text == "enum"@ {
        Some(TokenKind::Enum)
    } else if text == "return"@ {
        Some(TokenKind::Return)
    } else if text == "true"@ {
        Some(TokenKind::True)
    } else if text == "false"@ {
        Some(TokenKind::False)
    } else if text == "if"@ {
        Some(TokenKind::If)
    } else if text == "else"@ {
        Some(TokenKind::Else)
    } else {
        None
    }
}

/// The token that a whole name-shaped run makes: the reserved word that it
/// spells, or else a name with the run as its text.
pub open spec fn word(text: Seq<char>) -> TokenView {
    match keyword(text) {
        Some(kind) => TokenView::plain(kind),
        None => TokenView { kind: TokenKind::Name, text },
    }
}

/// The operator that two adjacent characters spell, if any.
pub open spec fn symbol_of_two(a: char, b: char) -> Option<TokenKind> {
    if a == '=' && b == '=' {
        Some(TokenKind::EqualEqual)
    } else if a == '!' && b == '=' {
        Some(TokenKind::NotEqual)
    } else if a == '<' && b == '=' {
        Some(TokenKind::LessEqual)
    } else if a == '>' && b == '=' {
        Some(TokenKind::GreaterEqual)
    } else if a == '&' && b == '&' {
        Some(TokenKind::AmperAmper)
    } else {
        None
    }
}

/// The bracket, operator or punctuation mark that one character spells,
/// or `Illegal` for a character that spells none.
pub open spec fn symbol_of_one(c: char) -> TokenKind {
    if c == '=' {
        TokenKind::Equal
    } else if c == ';' {
        TokenKind::SemiColon
    } else if c == '(' {
        TokenKind::LeftParen
    } else if c == ')' {
        TokenKind::RightParen
    } else if c == ',' {
        TokenKind::Comma
    } else if c == '+' {
        TokenKind::Plus
    } else if c == '{' {
        TokenKind::LeftBrace
    } else if c == '}' {
        TokenKind::RightBrace
    } else if c == '[' {
        TokenKind::LeftSquare
    } else if c == ']' {
        TokenKind::RightSquare
    } else if c == '-' {
        TokenKind::Minus
    } else if c == '*' {
        TokenKind::Star
    } else if c == '/' {
        TokenKind::Slash
    } else if c == '%' {
        TokenKind::Percent
    } else if c == '<' {
        TokenKind::Less
    } else if c == '>' {
        TokenKind::Greater
    } else if c == ':' {
        TokenKind::Colon
    } else if c == '!' {
        TokenKind::Bang
    } else if c == '.' {
        TokenKind::Dot
    } else {
        TokenKind::Illegal
    }
}

/// The character after position `i`, if there is one.
pub open spec fn char_at(s: Seq<char>, i: int) -> Option<char> {
    if 0 <= i < s.len() {
        Some(s[i])
    } else {
        None
    }
}

/// The bracket, operator, punctuation mark or `Illegal` that starts at
/// `i`, and where it ends. A two-character operator wins over its first
/// character alone.
pub open spec fn scan_symbol(s: Seq<char>, i: int) -> (TokenView, int)
    recommends
        0 <= i < s.len(),
{
    match char_at(s, i + 1) {
        Some(b) if symbol_of_two(s[i], b) is Some => (
            TokenView::plain(symbol_of_two(s[i], b).unwrap()),
            i + 2,
        ),
        _ => (TokenView::plain(symbol_of_one(s[i])), i + 1),
    }
}

/// The token that starts exactly at `i`, and where it ends. At the end of
/// the text this is `EndOfFile`, which ends where it starts.
pub open spec fn scan(s: Seq<char>, i: int) -> (TokenView, int)
    recommends
        0 <= i <= s.len(),
{
    if !(0 <= i < s.len()) {
        (TokenView::plain(TokenKind::EndOfFile), i)
    } else if name_start(s[i]) {
        let end = run_end(s, i, CharClass::NamePart);
        (word(s.subrange(i, end)), end)
    } else if decimal(s[i]) {
        let end = run_end(s, i, CharClass::Digit { radix: 10 });
        (TokenView { kind: TokenKind::Int, text: s.subrange(i, end) }, end)
    } else {
        scan_symbol(s, i)
    }
}

/// What one call of the token producer gives with the cursor at `i`: the
/// token after any white space, and where the cursor stands afterwards.
pub open spec fn next_token_at(s: Seq<char>, i: int) -> (TokenView, int)
    recommends
        0 <= i <= s.len(),
{
    scan(s, run_end(s, i, CharClass::Space))
}

/// The token that the call number `k` gives, counting from zero, when the
/// first call is made with the cursor at `i`.
pub open spec fn nth_token_at(s: Seq<char>, i: int, k: nat) -> TokenView
    decreases k,
{
    if k == 0 {
        next_token_at(s, i).0
    } else {
        nth_token_at(s, next_token_at(s, i).1, (k - 1) as nat)
    }
}

/// The tokens from position `i` to the end of the text, without the
/// closing `EndOfFile`.
pub open spec fn tokens_from(s: Seq<char>, i: int) -> Seq<TokenView>
    recommends
        0 <= i <= s.len(),
    decreases s.len() - i,
{
    let next = next_token_at(s, i);
    if 0 <= i <= s.len() && next.0.kind != TokenKind::EndOfFile {
        proof {
            lemma_next_token_bounds(s, i);
        }
        seq![next.0] + tokens_from(s, next.1)
    } else {
        Seq::empty()
    }
}

/// A run ends between its start and the end of the text; every character in
/// it is of the class, and the character after it, if any, is not. This is
/// maximal munch: no run stops while it could go on.
pub proof fn lemma_run_is_maximal(s: Seq<char>, i: int, class: CharClass)
    requires
        0 <= i <= s.len(),
    ensures
        i <= run_end(s, i, class) <= s.len(),
        forall|j: int| i <= j < run_end(s, i, class) ==> class.has(#[trigger] s[j]),
        run_end(s, i, class) < s.len() ==> !class.has(s[run_end(s, i, class)]),
    decreases s.len() - i,
{
    if i < s.len() && class.has(s[i]) {
        lemma_run_is_maximal(s, i + 1, class);
    }
}

/// One call moves the cursor forward and never past the end; it stands
/// still only to report `EndOfFile`, and it reports `EndOfFile` only when
/// nothing but white space is left.
pub proof fn lemma_next_token_bounds(s: Seq<char>, i: int)
    requires
        0 <= i <= s.len(),
    ensures
        i <= next_token_at(s, i).1 <= s.len(),
        next_token_at(s, i).0.kind == TokenKind::EndOfFile <==> run_end(s, i, CharClass::Space)
            == s.len(),
        next_token_at(s, i).0.kind == TokenKind::EndOfFile ==> next_token_at(s, i) == (
            TokenView::plain(TokenKind::EndOfFile),
            s.len() as int,
        ),
        next_token_at(s, i).0.kind != TokenKind::EndOfFile ==> i < next_token_at(s, i).1,
{
    let start = run_end(s, i, CharClass::Space);
    lemma_run_is_maximal(s, i, CharClass::Space);
    if start < s.len() {
        lemma_run_is_maximal(s, start, CharClass::NamePart);
        lemma_run_is_maximal(s, start, CharClass::Digit { radix: 10 });
        if name_start(s[start]) {
            let end = run_end(s, start, CharClass::NamePart);
            assert(end > start);
            lemma_keyword_is_reserved(s.subrange(start, end));
        }
    }
}

/// The reserved words are exactly the texts that `keyword` accepts: it
/// gives a kind if and only if that kind is a reserved word and the text is
/// its spelling.
pub proof fn lemma_keyword_is_reserved(text: Seq<char>)
    ensures
        forall|k: TokenKind|
            keyword(text) == Some(k) <==> k.is_keyword() && #[trigger] k.spelling() == text,
        word(text).kind != TokenKind::EndOfFile,
{
    reveal_strlit("fun");
    reveal_strlit("let");
    reveal_strlit("struct");
    reveal_strlit("enum");
    reveal_strlit("return");
    reveal_strlit("true");
    reveal_strlit("false");
    reveal_strlit("if");
    reveal_strlit("else");
    assert forall|k: TokenKind|
        keyword(text) == Some(k) <==> k.is_keyword() && #[trigger] k.spelling() == text by {
        if k.is_keyword() && k.spelling() == text {
            assert(text.len() == k.spelling().len());
            assert(text[0] == k.spelling()[0]);
            assert(text[1] == k.spelling()[1]);
        }
    }
}

/// Maximal munch for words and numbers: a token that starts with a name
/// character takes every name character that follows, and is classified
/// by the whole run only, as the reserved word that the run spells or else
/// as a name; a token that starts with a digit takes every digit that
/// follows. No such token is followed directly by a character that it
/// could have taken.
pub proof fn lemma_maximal_munch(s: Seq<char>, i: int)
    requires
        0 <= i < s.len(),
        name_start(s[i]) || decimal(s[i]),
    ensures
        i < scan(s, i).1 <= s.len(),
        name_start(s[i]) ==> {
            &&& scan(s, i).0 == word(s.subrange(i, scan(s, i).1))
            &&& forall|j: int| i <= j < scan(s, i).1 ==> name_part(#[trigger] s[j])
            &&& scan(s, i).1 < s.len() ==> !name_part(s[scan(s, i).1])
        },
        decimal(s[i]) ==> {
            &&& scan(s, i).0 == (TokenView {
                kind: TokenKind::Int,
                text: s.subrange(i, scan(s, i).1),
            })
            &&& forall|j: int| i <= j < scan(s, i).1 ==> decimal(#[trigger] s[j])
            &&& scan(s, i).1 < s.len() ==> !decimal(s[scan(s, i).1])
        },
{
    lemma_run_is_maximal(s, i, CharClass::NamePart);
    lemma_run_is_maximal(s, i, CharClass::Digit { radix: 10 });
    if decimal(s[i]) {
        let end = run_end(s, i, CharClass::Digit { radix: 10 });
        assert forall|j: int| i <= j < end implies decimal(#[trigger] s[j]) by {
            assert(CharClass::Digit { radix: 10 }.has(s[j]));
        }
        if end < s.len() {
            assert(!CharClass::Digit { radix: 10 }.has(s[end]));
        }
    } else {
        let end = run_end(s, i, CharClass::NamePart);
        assert forall|j: int| i <= j < end implies name_part(#[trigger] s[j]) by {
            assert(CharClass::NamePart.has(s[j]));
        }
    }
}

/// The token stream is finite and closed for good: the calls before the
/// end of `tokens_from` give its tokens, none of them `EndOfFile`, and
/// every later call gives `EndOfFile`.
pub proof fn lemma_end_of_file_forever(s: Seq<char>, i: int, k: nat)
    requires
        0 <= i <= s.len(),
    ensures
        tokens_from(s, i).len() <= s.len() - i,
        k < tokens_from(s, i).len() ==> nth_token_at(s, i, k) == tokens_from(s, i)[k as int]
            && nth_token_at(s, i, k).kind != TokenKind::EndOfFile,
        k >= tokens_from(s, i).len() ==> nth_token_at(s, i, k) == TokenView::plain(
            TokenKind::EndOfFile,
        ),
    decreases k, s.len() - i,
{
    lemma_next_token_bounds(s, i);
    let next = next_token_at(s, i);
    if next.0.kind != TokenKind::EndOfFile {
        lemma_end_of_file_forever(s, next.1, 0);
        if k > 0 {
            lemma_end_of_file_forever(s, next.1, (k - 1) as nat);
        }
    } else {
        assert(next.1 == s.len());
        if k > 0 {
            lemma_end_of_file_forever(s, next.1, (k - 1) as nat);
            lemma_next_token_bounds(s, next.1);
            assert(tokens_from(s, next.1).len() == 0);
        }
    }
}

/// The surface text of a scanned token is the exact source text that
/// produced it. This holds of every bracket, operator and punctuation
/// mark, of every reserved word, name and number; only `Illegal` stands
/// for text that it does not spell.
pub proof fn lemma_lexeme_is_source_text(s: Seq<char>, i: int)
    requires
        0 <= i < s.len(),
    ensures
        i < scan(s, i).1 <= s.len(),
        scan(s, i).0.kind != TokenKind::EndOfFile,
        scan(s, i).0.kind != TokenKind::Illegal ==> scan(s, i).0.lexeme() == s.subrange(
            i,
            scan(s, i).1,
        ),
        scan(s, i).0.kind != TokenKind::Illegal ==> scan(s, i).0.display() == "`"@ + s.subrange(
            i,
            scan(s, i).1,
        ) + "`"@,
{
    lemma_run_is_maximal(s, i, CharClass::NamePart);
    lemma_run_is_maximal(s, i, CharClass::Digit { radix: 10 });
    let (token, end) = scan(s, i);
    let text = s.subrange(i, end);
    if name_start(s[i]) {
        lemma_keyword_is_reserved(text);
    } else if decimal(s[i]) {
    } else {
        lemma_symbol_spellings();
        if token.kind != TokenKind::Illegal {
            assert(token.lexeme() =~= text);
        }
    }
}

/// Scanning the spelling of a bracket, operator or punctuation mark gives
/// back that token and consumes the whole spelling.
pub proof fn lemma_symbol_round_trip(kind: TokenKind)
    requires
        kind.is_symbol(),
    ensures
        scan(kind.spelling(), 0) == (TokenView::plain(kind), kind.spelling().len() as int),
        next_token_at(kind.spelling(), 0) == scan(kind.spelling(), 0),
{
    lemma_symbol_spellings();
}

/// The spellings of the brackets, operators and punctuation marks,
/// character by character.
proof fn lemma_symbol_spellings()
    ensures
        forall|k: TokenKind|
            k.is_symbol() ==> {
                let t = #[trigger] k.spelling();
                &&& 1 <= t.len() <= 2
                &&& t.len() == 1 ==> symbol_of_one(t[0]) == k && forall|b: char|
                    symbol_of_two(t[0], b) is Some ==> b == '=' || b == '&'
                &&& t.len() == 2 ==> symbol_of_two(t[0], t[1]) == Some(k)
                &&& !name_start(t[0]) && !decimal(t[0]) && !space(t[0])
            },
        forall|a: char, b: char| #[trigger]
            symbol_of_two(a, b) is Some ==> symbol_of_two(a, b).unwrap().spelling() =~= seq![a, b],
        forall|a: char|
            symbol_of_one(a) != TokenKind::Illegal ==> (#[trigger] symbol_of_one(a)).spelling()
                =~= seq![a],
{
    reveal_strlit("(");
    reveal_strlit(")");
    reveal_strlit("[");
    reveal_strlit("]");
    reveal_strlit("{");
    reveal_strlit("}");
    reveal_strlit("+");
    reveal_strlit("-");
    reveal_strlit("*");
    reveal_strlit("/");
    reveal_strlit("<");
    reveal_strlit(">");
    reveal_strlit("<=");
    reveal_strlit(">=");
    reveal_strlit("%");
    reveal_strlit(":");
    reveal_strlit(";");
    reveal_strlit(",");
    reveal_strlit("!");
    reveal_strlit("=");
    reveal_strlit("==");
    reveal_strlit("!=");
    reveal_strlit("&&");
    reveal_strlit(".");
}

/// How the tokens that are left unfold: either the next token is
/// `EndOfFile`, nothing is left and this stays so after any further call,
/// or the next token is the first of those left.
pub proof fn lemma_rest_unfolds(s: Seq<char>, i: int)
    requires
        0 <= i <= s.len(),
    ensures
        0 <= next_token_at(s, i).1 <= s.len(),
        next_token_at(s, i).0.kind == TokenKind::EndOfFile ==> {
            &&& tokens_from(s, i).len() == 0
            &&& tokens_from(s, next_token_at(s, i).1).len() == 0
            &&& next_token_at(s, next_token_at(s, i).1).0.kind == TokenKind::EndOfFile
        },
        next_token_at(s, i).0.kind != TokenKind::EndOfFile ==> tokens_from(s, i) == seq![
            next_token_at(s, i).0,
        ] + tokens_from(s, next_token_at(s, i).1),
        tokens_from(s, i).len() == 0 ==> next_token_at(s, i).0.kind == TokenKind::EndOfFile,
{
    lemma_next_token_bounds(s, i);
    lemma_next_token_bounds(s, next_token_at(s, i).1);
}

/// Whether a character may start a name.
pub fn is_name(ch: char) -> (b: bool)
    ensures
        b == name_start(ch),
{
    (ch >= 'a' && ch <= 'z') || (ch >= 'A' && ch <= 'Z') || ch == '_'
}

/// Whether a character is a decimal digit.
pub fn is_number(ch: char) -> (b: bool)
    ensures
        b == decimal(ch),
{
    ch >= '0' && ch <= '9'
}

/// Whether there is a character and it is white space.
pub fn is_whitespace(ch: Option<char>) -> (b: bool)
    ensures
        b == (ch is Some && space(ch.unwrap())),
{
    match ch {
        Some(c) => c == ' ' || c == '\t' || c == '\n' || c == '\r',
        None => false,
    }
}

/// Whether there is a character and it is a digit of the given radix.
pub fn is_digit_of_radix(c: Option<char>, radix: u32) -> (b: bool)
    requires
        known_radix(radix),
    ensures
        b == (c is Some && digit_in(c.unwrap(), radix)),
{
    match c {
        None => false,
        Some(c) => {
            if radix == 2 {
                c == '0' || c == '1'
            } else if radix == 8 {
                c >= '0' && c <= '7'
            } else if radix == 10 {
                c >= '0' && c <= '9'
            } else {
                (c >= '0' && c <= '9') || (c >= 'a' && c <= 'f') || (c >= 'A' && c <= 'F')
            }
        },
    }
}

/// The reserved word that a text spells, as a token; `None` for any other
/// text.
pub fn str_to_identifier(identifier: &str) -> (t: Option<Token>)
    ensures
        match keyword(identifier@) {
            Some(kind) => t is Some && t.unwrap()@ == TokenView::plain(kind),
            None => t is None,
        },
{
    if str_eq(identifier, "fun") {
        Some(Token::Fun)
    } else if str_eq(identifier, "let") {
        Some(Token::Let)
    } else if str_eq(identifier, "struct") {
        Some(Token::Struct)
    } else if str_eq(identifier, "enum") {
        Some(Token::Enum)
    } else if str_eq(identifier, "return") {
        Some(Token::Return)
    } else if str_eq(identifier, "true") {
        Some(Token::True)
    } else if str_eq(identifier, "false") {
        Some(Token::False)
    } else if str_eq(identifier, "if") {
        Some(Token::If)
    } else if str_eq(identifier, "else") {
        Some(Token::Else)
    } else {
        None
    }
}

/// The operator that two adjacent characters spell, if any.
fn two_char_symbol(a: char, b: char) -> (k: Option<TokenKind>)
    ensures
        k == symbol_of_two(a, b),
{
    if a == '=' && b == '=' {
        Some(TokenKind::EqualEqual)
    } else if a == '!' && b == '=' {
        Some(TokenKind::NotEqual)
    } else if a == '<' && b == '=' {
        Some(TokenKind::LessEqual)
    } else if a == '>' && b == '=' {
        Some(TokenKind::GreaterEqual)
    } else if a == '&' && b == '&' {
        Some(TokenKind::AmperAmper)
    } else {
        None
    }
}

/// A cursor over a source text, held as a sequence of Unicode scalar
/// values so that an index is a character position.
pub struct Lexer {
    input: Vec<char>,
    /// Index of the character under examination.
    pos: usize,
    /// Index of the character that is read next.
    read_pos: usize,
    /// The character under examination, `None` at the end of the input.
    ch: Option<char>,
}

/// The mathematical value of a lexer: the text and the three parts of the
/// cursor.
pub struct LexerView {
    pub input: Seq<char>,
    /// Index of the character under examination.
    pub pos: int,
    /// Index of the character that is read next.
    pub read_pos: int,
    /// The character under examination, `None` at the end of the input.
    pub ch: Option<char>,
}

impl LexerView {
    /// The lexer whose cursor stands at a position of a text: the
    /// lookahead index is one further, at the end of the text too, and
    /// the current character is the one at the position, if there is one.
    pub open spec fn at(input: Seq<char>, pos: int) -> LexerView {
        LexerView { input, pos, read_pos: pos + 1, ch: char_at(input, pos) }
    }

    /// The lexer at the start of a text.
    pub open spec fn start(input: Seq<char>) -> LexerView {
        LexerView::at(input, 0)
    }

    /// The cursor is consistent: the position is inside the text or at its
    /// end, the lookahead index is one further, and the current character
    /// is the one at the position. The text is short enough for the
    /// lookahead index to be a machine integer.
    pub open spec fn wf(self) -> bool {
        &&& 0 <= self.pos <= self.input.len() < usize::MAX
        &&& self == LexerView::at(self.input, self.pos)
    }

    /// The lexer after one move of the cursor: the position is the
    /// lookahead index that was, the lookahead index is one further, and
    /// the current character is the one at the new position, if there is
    /// one. This is so at and behind the end of the text as well.
    pub open spec fn stepped(self) -> LexerView {
        LexerView::at(self.input, self.read_pos)
    }

    /// The token that the next call gives.
    pub open spec fn next_token(self) -> TokenView {
        next_token_at(self.input, self.pos).0
    }

    /// The lexer after the next call.
    pub open spec fn advanced(self) -> LexerView {
        LexerView::at(self.input, next_token_at(self.input, self.pos).1)
    }

    /// The tokens that are left, without the closing `EndOfFile`.
    pub open spec fn rest(self) -> Seq<TokenView> {
        tokens_from(self.input, self.pos)
    }
}

impl View for Lexer {
    type V = LexerView;

    closed spec fn view(&self) -> LexerView {
        LexerView {
            input: self.input@,
            pos: self.pos as int,
            read_pos: self.read_pos as int,
            ch: self.ch,
        }
    }
}

impl Lexer {
    /// The cursor is consistent, as the view says.
    pub open spec fn wf(&self) -> bool {
        self@.wf()
    }

    /// A lexer at the start of the given text: the position is zero, the
    /// lookahead index is one, and the current character is the first of
    /// the text, or `None` for the empty text. The text must be shorter
    /// than `usize::MAX` characters, so that the lookahead index can pass
    /// its end.
    pub fn new(input: String) -> (lexer: Lexer)
        requires
            input@.len() < usize::MAX,
        ensures
            lexer.wf(),
            lexer@ == LexerView::start(input@),
    {
        let text = input.as_str();
        let mut chars: Vec<char> = Vec::new();
        let mut it = text.chars();
        loop
            invariant
                it.obeys_prophetic_iter_laws(),
                chars@ + it.remaining() == text@,
            ensures
                chars@ == text@,
            decreases text@.len() - chars@.len(),
        {
            match it.next() {
                Some(c) => {
                    chars.push(c);
                },
                None => {
                    assert(chars@ =~= text@);
                    break ;
                },
            }
        }
        let mut lexer = Lexer { input: chars, pos: 0, read_pos: 0, ch: None };
        // Initialize the read position for users of the lexer
        lexer.read_char();
        lexer
    }

    /// Produces the next token and moves the cursor behind it. At the end
    /// of the text the token is `EndOfFile` and the cursor stays; the
    /// result is never `None`.
    pub fn next_token(&mut self) -> (t: Option<Token>)
        requires
            old(self).wf(),
        ensures
            final(self).wf(),
            final(self)@ == old(self)@.advanced(),
            t is Some,
            t.unwrap()@ == old(self)@.next_token(),
    {
        let ghost s = self.input@;
        let ghost from = self.pos as int;
        while is_whitespace(self.ch)
            invariant
                self.wf(),
                self.input@ == s,
                0 <= from <= self.pos <= s.len(),
                run_end(s, self.pos as int, CharClass::Space) == run_end(
                    s,
                    from,
                    CharClass::Space,
                ),
            decreases s.len() - self.pos,
        {
            self.read_char();
        }

        if let Some(c) = self.ch {
            if is_name(c) {
                let name_token = self.lex_name();
                Some(name_token)
            } else if is_number(c) {
                let number_token = self.lex_number();
                Some(number_token)
            } else {
                Some(self.consume_symbol(c))
            }
        } else {
            // End of file reached
            Some(Token::EndOfFile)
        }
    }

    /// Produces every token that is left, closed by one `EndOfFile`.
    pub fn tokenize(&mut self) -> (tokens: Vec<Token>)
        requires
            old(self).wf(),
        ensures
            final(self).wf(),
            final(self)@.input == old(self)@.input,
            final(self)@.rest() == Seq::<TokenView>::empty(),
            token_views(tokens@) == old(self)@.rest().push(
                TokenView::plain(TokenKind::EndOfFile),
            ),
    {
        let mut tokens: Vec<Token> = Vec::new();
        let ghost s = self.input@;
        loop
            invariant_except_break
                token_views(tokens@) + tokens_from(s, self.pos as int) == tokens_from(
                    s,
                    old(self).pos as int,
                ),
            invariant
                self.wf(),
                self.input@ == s,
                s == old(self).input@,
            ensures
                self.wf(),
                self.input@ == s,
                tokens_from(s, self.pos as int) == Seq::<TokenView>::empty(),
                token_views(tokens@) == tokens_from(s, old(self).pos as int).push(
                    TokenView::plain(TokenKind::EndOfFile),
                ),
            decreases s.len() - self.pos,
        {
            let ghost before = self.pos as int;
            let ghost done = tokens@;
            proof {
                lemma_next_token_bounds(s, before);
            }
            let token = self.next_token().unwrap();
            let at_end = token.kind() == TokenKind::EndOfFile;
            tokens.push(token);
            proof {
                assert(token_views(tokens@) =~= token_views(done).push(token@));
                if at_end {
                    lemma_next_token_bounds(s, self.pos as int);
                    assert(tokens_from(s, before) =~= Seq::<TokenView>::empty());
                    assert(token_views(done) =~= tokens_from(s, old(self).pos as int));
                } else {
                    assert(token_views(tokens@) + tokens_from(s, self.pos as int) =~= token_views(
                        done,
                    ) + tokens_from(s, before));
                }
            }
            if at_end {
                break ;
            }
        }
        tokens
    }

    /// Moves the cursor by one character: the position becomes the
    /// lookahead index, the lookahead index grows by one, and the current
    /// character becomes the one at the new position, `None` at and behind
    /// the end of the text.
    fn read_char(&mut self)
        requires
            old(self).read_pos < usize::MAX,
        ensures
            final(self).input == old(self).input,
            final(self).pos == old(self).read_pos,
            final(self).read_pos == old(self).read_pos + 1,
            final(self).ch == char_at(old(self).input@, old(self).read_pos as int),
            final(self)@ == old(self)@.stepped(),
    {
        if self.read_pos >= self.input.len() {
            self.ch = None;
        } else {
            self.ch = Some(self.input[self.read_pos]);
        }

        self.pos = self.read_pos;
        self.read_pos += 1;
    }

    /// Scans the maximal name-shaped run at the cursor and classifies it
    /// only then: as the reserved word that the whole run spells, or as a
    /// name.
    fn lex_name(&mut self) -> (t: Token)
        requires
            old(self).wf(),
        ensures
            final(self).wf(),
            final(self).input@ == old(self).input@,
            final(self).pos == run_end(old(self).input@, old(self).pos as int, CharClass::NamePart),
            t@ == word(old(self).input@.subrange(old(self).pos as int, final(self).pos as int)),
    {
        let mut name = String::new();
        let ghost s = self.input@;
        let ghost from = self.pos as int;
        while self.is_continuous_name()
            invariant
                self.wf(),
                self.input@ == s,
                0 <= from <= self.pos <= s.len(),
                name@ == s.subrange(from, self.pos as int),
                run_end(s, self.pos as int, CharClass::NamePart) == run_end(
                    s,
                    from,
                    CharClass::NamePart,
                ),
            decreases s.len() - self.pos,
        {
            let c = self.ch.unwrap();
            push_char(&mut name, c);
            self.read_char();
            assert(name@ =~= s.subrange(from, self.pos as int));
        }

        if let Some(token) = str_to_identifier(name.as_str()) {
            token
        } else {
            Token::Name { name: eco_from_string(name) }
        }
    }

    /// Whether the current character may continue a name.
    fn is_continuous_name(&self) -> (b: bool)
        requires
            self.wf(),
        ensures
            b == (self.pos < self.input.len() && name_part(self.input@[self.pos as int])),
    {
        match self.ch {
            Some(c) => is_name(c) || is_number(c),
            None => false,
        }
    }

    /// Scans the maximal run of decimal digits at the cursor. A `.` after
    /// the run is not part of the number: it is the next token.
    fn lex_number(&mut self) -> (t: Token)
        requires
            old(self).wf(),
        ensures
            final(self).wf(),
            final(self).input@ == old(self).input@,
            final(self).pos == run_end(
                old(self).input@,
                old(self).pos as int,
                CharClass::Digit { radix: 10 },
            ),
            t@ == (TokenView {
                kind: TokenKind::Int,
                text: old(self).input@.subrange(old(self).pos as int, final(self).pos as int),
            }),
    {
        let value = self.radix_run(10);
        Token::Int { value: eco_from_string(value) }
    }

    /// Consumes the maximal run of digits of the given radix.
    fn radix_run(&mut self, radix: u32) -> (text: String)
        requires
            old(self).wf(),
            known_radix(radix),
        ensures
            final(self).wf(),
            final(self).input@ == old(self).input@,
            final(self).pos == run_end(
                old(self).input@,
                old(self).pos as int,
                CharClass::Digit { radix },
            ),
            text@ == old(self).input@.subrange(old(self).pos as int, final(self).pos as int),
    {
        let mut value_text = String::new();
        let ghost s = self.input@;
        let ghost from = self.pos as int;
        loop
            invariant
                self.wf(),
                known_radix(radix),
                self.input@ == s,
                0 <= from <= self.pos <= s.len(),
                value_text@ == s.subrange(from, self.pos as int),
                run_end(s, self.pos as int, CharClass::Digit { radix }) == run_end(
                    s,
                    from,
                    CharClass::Digit { radix },
                ),
            ensures
                self.wf(),
                self.input@ == s,
                value_text@ == s.subrange(from, self.pos as int),
                self.pos == run_end(s, from, CharClass::Digit { radix }),
            decreases s.len() - self.pos,
        {
            if let Some(c) = self.take_number(radix) {
                push_char(&mut value_text, c);
                assert(value_text@ =~= s.subrange(from, self.pos as int));
            } else {
                break ;
            }
        }
        value_text
    }

    /// Consumes the current character if it is a digit of the given radix.
    fn take_number(&mut self, radix: u32) -> (c: Option<char>)
        requires
            old(self).wf(),
            known_radix(radix),
        ensures
            final(self).wf(),
            final(self).input@ == old(self).input@,
            match c {
                Some(d) => {
                    &&& old(self).pos < old(self).input.len()
                    &&& d == old(self).input@[old(self).pos as int]
                    &&& digit_in(d, radix)
                    &&& final(self).pos == old(self).pos + 1
                },
                None => {
                    &&& final(self).pos == old(self).pos
                    &&& !(old(self).pos < old(self).input.len() && digit_in(
                        old(self).input@[old(self).pos as int],
                        radix,
                    ))
                },
            },
    {
        let take_char = is_digit_of_radix(self.ch, radix);

        if take_char {
            let number = Some(self.ch.unwrap());
            self.read_char();

            number
        } else {
            None
        }
    }

    /// Consumes the bracket, operator or punctuation mark at the cursor,
    /// trying the two-character operators first. A character that spells
    /// none is consumed all the same and reported as `Illegal`.
    fn consume_symbol(&mut self, c: char) -> (t: Token)
        requires
            old(self).wf(),
            old(self).ch == Some(c),
        ensures
            final(self).wf(),
            final(self).input@ == old(self).input@,
            (t@, final(self).pos as int) == scan_symbol(old(self).input@, old(self).pos as int),
    {
        if self.read_pos < self.input.len() {
            if let Some(kind) = two_char_symbol(c, self.input[self.read_pos]) {
                self.read_char();
                self.read_char();
                return Token::plain(kind);
            }
        }
        self.consume_single_char(c)
    }

    /// Consumes the current character and gives the token that it spells
    /// alone.
    fn consume_single_char(&mut self, c: char) -> (t: Token)
        requires
            old(self).wf(),
            old(self).ch == Some(c),
        ensures
            final(self).wf(),
            final(self).input@ == old(self).input@,
            final(self).pos == old(self).pos + 1,
            t@ == TokenView::plain(symbol_of_one(c)),
    {
        let token = if c == '=' {
            Token::Equal
        } else if c == ';' {
            Token::SemiColon
        } else if c == '(' {
            Token::LeftParen
        } else if c == ')' {
            Token::RightParen
        } else if c == ',' {
            Token::Comma
        } else if c == '+' {
            Token::Plus
        } else if c == '{' {
            Token::LeftBrace
        } else if c == '}' {
            Token::RightBrace
        } else if c == '[' {
            Token::LeftSquare
        } else if c == ']' {
            Token::RightSquare
        } else if c == '-' {
            Token::Minus
        } else if c == '*' {
            Token::Star
        } else if c == '/' {
            Token::Slash
        } else if c == '%' {
            Token::Percent
        } else if c == '<' {
            Token::Less
        } else if c == '>' {
            Token::Greater
        } else if c == ':' {
            Token::Colon
        } else if c == '!' {
            Token::Bang
        } else if c == '.' {
            Token::Dot
        } else {
            Token::Illegal
        };

        self.read_char();

        token
    }
}

/// The mathematical values of a sequence of tokens.
pub open spec fn token_views(tokens: Seq<Token>) -> Seq<TokenView> {
    Seq::new(tokens.len(), |i: int| tokens[i]@)
}


} // verus!
