//! Tokens, and the tokenizer that scans them off a text one at a time.
use crate::chars::{is_alphabetic_char, is_decimal_digit};
use crate::error::{ParseError, ParseErrorView};
use crate::lexeme::{
    after_lexeme, decimal_value, in_class, is_word, lemma_lexeme_shape, lemma_run_len_unique,
    lexeme, lexeme_len, starts_number,
};
use crate::std_specs::parse_i32;
use crate::utf8_cursor::{chars_from, lemma_chars_from_empty_iff_end, lemma_step_over_char};
use vstd::prelude::*;
use vstd::string::*;
use vstd::utf8::*;

verus! {

/// The two classes of tokens.
#[derive(Debug, Clone, Copy, PartialEq, Eq, Structural)]
pub enum TokenKind {
    /// A run of decimal digits.
    Number,
    /// A word: alphabetic characters, underscores and, after the first
    /// character, decimal digits.
    Identifier,
}

impl TokenKind {
    /// The name under which the class is reported.
    pub open spec fn spec_name(self) -> Seq<char> {
        match self {
            TokenKind::Number => "NUMBER"@,
            TokenKind::Identifier => "IDENTIFIER"@,
        }
    }

    /// The name under which the class is reported: `NUMBER` or
    /// `IDENTIFIER`.
    pub fn name(&self) -> (s: &'static str)
        ensures
            s@ == self.spec_name(),
    {
        match self {
            TokenKind::Number => "NUMBER",
            TokenKind::Identifier => "IDENTIFIER",
        }
    }
}

/// What a token carries: the number that its digits denote, or its text.
#[derive(Debug, PartialEq, Eq)]
pub enum TokenValue {
    Int(i32),
    Str(String),
}

impl Clone for TokenValue {
    fn clone(&self) -> (res: Self)
        ensures
            res == *self,
    {
        match self {
            TokenValue::Int(v) => TokenValue::Int(*v),
            TokenValue::Str(s) => TokenValue::Str(s.clone()),
        }
    }
}

/// The mathematical content of a [`TokenValue`].
pub enum TokenValueView {
    Int(i32),
    Str(Seq<char>),
}

impl TokenValueView {
    /// The class of tokens that carry this value.
    pub open spec fn kind(self) -> TokenKind {
        match self {
            TokenValueView::Int(_) => TokenKind::Number,
            TokenValueView::Str(_) => TokenKind::Identifier,
        }
    }

    /// What holds of every value that the tokenizer produces: a number is
    /// not negative, and a text is a word.
    pub open spec fn wf(self) -> bool {
        match self {
            TokenValueView::Int(v) => v >= 0,
            TokenValueView::Str(s) => is_word(s),
        }
    }
}

impl TokenValue {
    /// The class of tokens that carry this value.
    pub fn kind(&self) -> (k: TokenKind)
        ensures
            k == self@.kind(),
    {
        match self {
            TokenValue::Int(_) => TokenKind::Number,
            TokenValue::Str(_) => TokenKind::Identifier,
        }
    }
}

impl View for TokenValue {
    type V = TokenValueView;

    open spec fn view(&self) -> TokenValueView {
        match self {
            TokenValue::Int(v) => TokenValueView::Int(*v),
            TokenValue::Str(s) => TokenValueView::Str(s@),
        }
    }
}

/// The token at the head of `s`, as the tokenizer reports it: none where
/// no lexeme begins there, the number of a run of digits unless it is
/// beyond the range of `i32`, or the text of a word.
pub open spec fn scan(s: Seq<char>) -> Result<Option<TokenValueView>, ParseErrorView> {
    if lexeme_len(s) == 0 {
        Ok(None)
    } else if starts_number(s) {
        if decimal_value(lexeme(s)) <= i32::MAX {
            Ok(Some(TokenValueView::Int(decimal_value(lexeme(s)) as i32)))
        } else {
            Err(ParseErrorView::NumericOverflow)
        }
    } else {
        Ok(Some(TokenValueView::Str(lexeme(s))))
    }
}

/// The mathematical content of what the tokenizer returns.
pub open spec fn scanned_view(r: Result<Option<ParsedToken>, ParseError>) -> Result<
    Option<TokenValueView>,
    ParseErrorView,
> {
    match r {
        Ok(Some(token)) => Ok(Some(token.value@)),
        Ok(None) => Ok(None),
        Err(e) => Err(e@),
    }
}

/// The rule by which the scanner gathers a lexeme: whether it takes the
/// character `c` next. `numeric` is the class decided by the first
/// character, `at_start` says that nothing was gathered yet, and
/// `alphabetic` is what the standard library says of `c`. A number takes
/// decimal digits; a word takes alphabetic characters, underscores and,
/// anywhere but at its start, decimal digits.
pub open spec fn takes(numeric: bool, at_start: bool, c: char, alphabetic: bool) -> bool {
    if numeric {
        is_decimal_digit(c)
    } else {
        alphabetic || c == '_' || (!at_start && is_decimal_digit(c))
    }
}

/// At every place of a text the rule takes exactly the characters of the
/// class that the first character decides: a word is not at its start
/// where a digit stands, since a digit at the start decides for a number.
pub proof fn lemma_rule_takes_class(s: Seq<char>, i: int)
    requires
        0 <= i < s.len(),
    ensures
        takes(starts_number(s), i == 0, s[i], is_alphabetic_char(s[i])) == in_class(
            starts_number(s),
            s[i],
        ),
{
}

/// Decides whether the scanner takes `c` into the lexeme that it gathers,
/// as [`takes`] says.
pub fn extends_lexeme(numeric: bool, at_start: bool, c: char, alphabetic: bool) -> (take: bool)
    ensures
        take == takes(numeric, at_start, c, alphabetic),
{
    if numeric && c.is_digit(10) {
        true
    } else if !numeric && (alphabetic || c == '_' || (!at_start && c.is_digit(10))) {
        true
    } else {
        false
    }
}

/// A classified lexeme.
#[derive(Debug)]
pub struct ParsedToken {
    /// The class of the lexeme.
    pub token_type: TokenKind,
    /// What the lexeme stands for.
    pub value: TokenValue,
}

impl ParsedToken {
    /// The class recorded with the token is the class of its value, and
    /// the value is one that the tokenizer produces.
    pub open spec fn wf(&self) -> bool {
        self.token_type == self.value@.kind() && self.value@.wf()
    }
}

/// Scans a text from left to right, a token at each call.
pub struct Tokenizer {
    input: String,
    cursor: usize,
}

impl Tokenizer {
    /// The cursor is a byte offset into the text that falls between two
    /// characters, or at either end.
    #[verifier::type_invariant]
    closed spec fn inv(&self) -> bool {
        &&& self.cursor <= encode_utf8(self.input@).len()
        &&& is_char_boundary(encode_utf8(self.input@), self.cursor as int)
    }

    /// The text being scanned.
    pub closed spec fn text(&self) -> Seq<char> {
        self.input@
    }

    /// The part of the text that has not been scanned yet.
    pub closed spec fn remaining(&self) -> Seq<char> {
        chars_from(encode_utf8(self.input@), self.cursor as int)
    }

    /// A tokenizer over the empty text.
    pub fn new() -> (t: Self)
        ensures
            t.text() == Seq::<char>::empty(),
            t.remaining() == Seq::<char>::empty(),
    {
        let t = Self { input: String::new(), cursor: 0 };
        proof {
            assert(encode_utf8(t.input@).subrange(0, 0) =~= Seq::<u8>::empty());
        }
        t
    }

    /// Starts over on `input`: whatever was scanned before is forgotten.
    pub fn init(&mut self, input: &str)
        ensures
            final(self).text() == input@,
            final(self).remaining() == input@,
    {
        let text = input.to_owned();
        proof {
            let bytes = encode_utf8(input@);
            encode_utf8_valid_utf8(input@);
            encode_utf8_decode_utf8(input@);
            assert(bytes.subrange(0, bytes.len() as int) =~= bytes);
        }
        *self = Self { input: text, cursor: 0 };
    }

    /// Whether any of the text is left to scan.
    fn has_more(&self) -> (b: bool)
        ensures
            b == (self.remaining().len() > 0),
            encode_utf8(self.text()).len() <= usize::MAX,
    {
        proof {
            use_type_invariant(self);
            encode_utf8_valid_utf8(self.input@);
            lemma_chars_from_empty_iff_end(encode_utf8(self.input@), self.cursor as int);
        }
        self.cursor < self.input.as_str().as_bytes().len()
    }

    /// The character under the cursor.
    fn peek(&self) -> (c: char)
        requires
            self.remaining().len() > 0,
        ensures
            c == self.remaining()[0],
    {
        broadcast use vstd::string::group_string_axioms;
        proof {
            use_type_invariant(self);
            encode_utf8_valid_utf8(self.input@);
        }
        let (_, rest) = self.input.as_str().split_at(self.cursor);
        proof {
            encode_utf8_decode_utf8(rest@);
        }
        let mut chars = rest.chars();
        chars.next().unwrap()
    }

    /// Scans the next token off the text and moves past its lexeme. The
    /// class is decided by the first character that remains, and the
    /// lexeme is the longest run of that class. Returns no token where no
    /// lexeme begins, at the end of the text or before a character of
    /// neither class, and fails where a run of digits denotes a number
    /// beyond the range of `i32`.
    pub fn get_next(&mut self) -> (r: Result<Option<ParsedToken>, ParseError>)
        ensures
            final(self).text() == old(self).text(),
            final(self).remaining() == after_lexeme(old(self).remaining()),
            scanned_view(r) == scan(old(self).remaining()),
            r matches Ok(Some(token)) ==> token.wf(),
    {
        let ghost start = self.remaining();
        proof {
            lemma_lexeme_shape(start);
        }
        if !self.has_more() {
            proof {
                assert(after_lexeme(start) =~= start);
            }
            return Ok(None);
        }
        let mut string = String::new();
        let first_char = self.peek();

        let is_number = first_char.is_digit(10);
        let ghost mut taken: int = 0;

        proof {
            assert(start.skip(0) =~= start);
            assert(start.take(0) =~= string@);
        }
        while self.has_more()
            invariant
                self.text() == old(self).text(),
                start.len() > 0,
                is_number == starts_number(start),
                0 <= taken <= start.len(),
                self.remaining() == start.skip(taken),
                string@ == start.take(taken),
                forall|i: int| 0 <= i < taken ==> in_class(is_number, #[trigger] start[i]),
            ensures
                self.text() == old(self).text(),
                0 <= taken <= start.len(),
                self.remaining() == start.skip(taken),
                string@ == start.take(taken),
                forall|i: int| 0 <= i < taken ==> in_class(is_number, #[trigger] start[i]),
                taken < start.len() ==> !in_class(is_number, start[taken]),
            decreases start.len() - taken,
        {
            let c = self.peek();

            proof {
                lemma_rule_takes_class(start, taken);
            }
            if extends_lexeme(is_number, string.as_str().is_empty(), c, c.is_alphabetic()) {
                proof {
                    use_type_invariant(&*self);
                    encode_utf8_valid_utf8(self.input@);
                    lemma_step_over_char(encode_utf8(self.input@), self.cursor as int);
                    assert(start.skip(taken).drop_first() =~= start.skip(taken + 1));
                    assert(start.take(taken).push(c) =~= start.take(taken + 1));
                    taken = taken + 1;
                }
                string.push(c);
                self.cursor += c.len_utf8();
            } else {
                break ;
            }
        }

        proof {
            lemma_run_len_unique(start, is_number, taken);
        }
        if !string.as_str().is_empty() {
            let token = if is_number {
                match parse_i32(string.as_str()) {
                    Ok(value) => ParsedToken {
                        token_type: TokenKind::Number,
                        value: TokenValue::Int(value),
                    },
                    Err(_) => {
                        return Err(ParseError::NumericOverflow);
                    },
                }
            } else {
                ParsedToken { token_type: TokenKind::Identifier, value: TokenValue::Str(string) }
            };
            return Ok(Some(token));
        }
        Ok(None)
    }
}

} // verus!
