//! The tokenizer of the contract source language.

use crate::error::{LexicalError, LexicalErrorType};
use crate::location::Location;
use crate::parser::token::Tok;
use vstd::prelude::*;

verus! {

pub type Spanned = (Location, Tok, Location);

pub type LexResult = Result<Spanned, LexicalError>;

pub uninterp spec fn xid_start(c: char) -> bool;

pub uninterp spec fn xid_continue(c: char) -> bool;

/// Relies on unic_ucd_ident::is_xid_start: the Unicode XID_Start property,
/// a function of the character alone.
#[verifier::external_body]
fn unicode_xid_start(c: char) -> (r: bool)
    ensures
        r == xid_start(c),
{
    unic_ucd_ident::is_xid_start(c)
}

/// Relies on unic_ucd_ident::is_xid_continue: the Unicode XID_Continue
/// property, a function of the character alone.
#[verifier::external_body]
fn unicode_xid_continue(c: char) -> (r: bool)
    ensures
        r == xid_continue(c),
{
    unic_ucd_ident::is_xid_continue(c)
}

/// Characters of a string, in order.
fn str_chars(source: &str) -> (r: Vec<char>)
    ensures
        r@ == source@,
{
    let n = source.unicode_len();
    let mut chars: Vec<char> = Vec::new();
    let mut i: usize = 0;
    while i < n
        invariant
            i <= n,
            n == source@.len(),
            chars@.len() == i,
            forall|j: int| 0 <= j < i ==> chars@[j] == source@[j],
        decreases n - i,
    {
        chars.push(source.get_char(i));
        i = i + 1;
    }
    proof {
        assert(chars@ =~= source@);
    }
    chars
}

/// A string built back from characters.
fn chars_to_string(chars: &Vec<char>) -> (r: String)
    ensures
        r@ == chars@,
{
    let mut s = String::new();
    let mut i: usize = 0;
    while i < chars.len()
        invariant
            i <= chars@.len(),
            s@ =~= chars@.take(i as int),
        decreases chars@.len() - i,
    {
        push_char(&mut s, chars[i]);
        proof {
            assert(chars@.take(i + 1 as int) =~= chars@.take(i as int).push(chars@[i as int]));
        }
        i = i + 1;
    }
    proof {
        assert(chars@.take(chars@.len() as int) =~= chars@);
    }
    s
}

/// Relies on String::push: appends exactly the one character.
#[verifier::external_body]
pub(crate) fn push_char(s: &mut String, c: char)
    ensures
        final(s)@ == old(s)@.push(c),
{
    s.push(c);
}

/// The streaming tokenizer: a character buffer, a cursor, the current
/// character and its source position.
pub(crate) struct Lexer {
    pub(crate) chars: Vec<char>,
    pub(crate) pos: usize,
    pub(crate) location: Location,
    pub(crate) chr: Option<char>,
}

pub(crate) fn make_tokenizer(source: &str) -> (r: Lexer)
    ensures
        r.wf(),
{
    Lexer::new(str_chars(source))
}

/// Tokens a keyword string maps to; any other string is an identifier.
pub fn keyword_token(key_str: String) -> (r: Tok)
    ensures
        key_str@ == "uint256"@ ==> r == Tok::UInt256,
        key_str@ == "uint"@ ==> r == Tok::UInt256,
        key_str@ == "contract"@ ==> r == Tok::Contract,
        key_str@ == "function"@ ==> r == Tok::Function,
        key_str@ == "if"@ ==> r == Tok::If,
        key_str@ == "else"@ ==> r == Tok::Else,
        key_str@ == "for"@ ==> r == Tok::For,
        key_str@ == "returns"@ ==> r == Tok::Returns,
        key_str@ == "return"@ ==> r == Tok::Return,
        key_str@ == "private"@ ==> r == Tok::Private,
        (key_str@ != "uint256"@ && key_str@ != "uint"@ && key_str@ != "contract"@ && key_str@
            != "function"@ && key_str@ != "if"@ && key_str@ != "else"@ && key_str@ != "for"@
            && key_str@ != "returns"@ && key_str@ != "return"@ && key_str@ != "private"@) ==> r
            == (Tok::Identifier { name: key_str }),
{
    proof {
        reveal_strlit("uint256");
        reveal_strlit("uint");
        reveal_strlit("contract");
        reveal_strlit("function");
        reveal_strlit("if");
        reveal_strlit("else");
        reveal_strlit("for");
        reveal_strlit("returns");
        reveal_strlit("return");
        reveal_strlit("private");
        assert("uint256"@.len() == 7);
        assert("uint"@.len() == 4);
        assert("contract"@.len() == 8);
        assert("function"@.len() == 8);
        assert("if"@.len() == 2);
        assert("else"@.len() == 4);
        assert("for"@.len() == 3);
        assert("returns"@.len() == 7);
        assert("return"@.len() == 6);
        assert("private"@.len() == 7);
        assert("contract"@[0] == 'c' && "function"@[0] == 'f');
        assert("uint256"@[0] == 'u' && "returns"@[0] == 'r' && "private"@[0] == 'p');
        assert("uint"@[0] == 'u' && "else"@[0] == 'e');
    }
    if key_str == "uint256".to_owned() {
        Tok::UInt256
    } else if key_str == "uint".to_owned() {
        Tok::UInt256
    } else if key_str == "contract".to_owned() {
        Tok::Contract
    } else if key_str == "function".to_owned() {
        Tok::Function
    } else if key_str == "if".to_owned() {
        Tok::If
    } else if key_str == "else".to_owned() {
        Tok::Else
    } else if key_str == "for".to_owned() {
        Tok::For
    } else if key_str == "returns".to_owned() {
        Tok::Returns
    } else if key_str == "return".to_owned() {
        Tok::Return
    } else if key_str == "private".to_owned() {
        Tok::Private
    } else {
        Tok::Identifier { name: key_str }
    }
}

/// The token a lone mark denotes: consumed at once, never extended.
pub open spec fn single_mark_token(c: char) -> Option<Tok> {
    if c == ',' {
        Some(Tok::Comma)
    } else if c == '{' {
        Some(Tok::LBrace)
    } else if c == '}' {
        Some(Tok::RBrace)
    } else if c == '(' {
        Some(Tok::LPar)
    } else if c == ')' {
        Some(Tok::RPar)
    } else if c == ';' {
        Some(Tok::Semi)
    } else {
        None
    }
}

/// The token a one-character operator denotes.
pub open spec fn one_char_op_token(c: char) -> Option<Tok> {
    if c == '<' {
        Some(Tok::Lt)
    } else if c == '>' {
        Some(Tok::Gt)
    } else if c == '=' {
        Some(Tok::Assign)
    } else if c == '+' {
        Some(Tok::Plus)
    } else if c == '-' {
        Some(Tok::Minus)
    } else if c == '*' {
        Some(Tok::Mul)
    } else if c == '/' {
        Some(Tok::Div)
    } else if c == '%' {
        Some(Tok::Mod)
    } else if c == '&' {
        Some(Tok::BitAnd)
    } else if c == '|' {
        Some(Tok::BitOr)
    } else if c == '^' {
        Some(Tok::BitXor)
    } else {
        None
    }
}

/// The token a two-character operator denotes.
pub open spec fn two_char_op_token(c1: char, c2: char) -> Option<Tok> {
    if c1 == '<' && c2 == '<' {
        Some(Tok::LShift)
    } else if c1 == '>' && c2 == '>' {
        Some(Tok::RShift)
    } else if c1 == '=' && c2 == '=' {
        Some(Tok::Eq)
    } else if c1 == '<' && c2 == '=' {
        Some(Tok::Le)
    } else if c1 == '>' && c2 == '=' {
        Some(Tok::Ge)
    } else if c1 == '&' && c2 == '&' {
        Some(Tok::And)
    } else if c1 == '|' && c2 == '|' {
        Some(Tok::Or)
    } else {
        None
    }
}

/// How far a literal scan has read: the character in hand sits one before
/// the cursor, and a drained buffer means the whole text was read.
pub(crate) open spec fn scan_pos(lx: Lexer, from: int) -> int {
    if lx.chr is Some {
        lx.pos - 1
    } else {
        lx.chars@.len() as int
    }
}

/// The position of the next occurrence of the quote character at or after
/// `from`, or the end of the input.
pub open spec fn quote_end(chars: Seq<char>, from: int, q: char) -> int
    decreases chars.len() - from,
{
    if from < 0 || from >= chars.len() {
        chars.len() as int
    } else if chars[from] == q {
        from
    } else {
        quote_end(chars, from + 1, q)
    }
}

/// A decimal digit.
pub open spec fn is_digit(c: char) -> bool {
    '0' <= c && c <= '9'
}

/// Where a number literal's continuation ends, scanning from `from`: digits
/// continue it, and an underscore continues it only when a digit follows.
/// The flag is false when an underscore violation stops the literal.
pub open spec fn num_scan(chars: Seq<char>, from: int) -> (int, bool)
    decreases chars.len() - from,
{
    if from < 0 || from >= chars.len() {
        (chars.len() as int, true)
    } else if is_digit(chars[from]) {
        num_scan(chars, from + 1)
    } else if chars[from] == '_' {
        if from + 1 < chars.len() && is_digit(chars[from + 1]) {
            num_scan(chars, from + 2)
        } else {
            (from, false)
        }
    } else {
        (from, true)
    }
}

/// The digit characters within a window, in order, underscores dropped.
pub open spec fn digits_in(chars: Seq<char>, from: int, to: int) -> Seq<char>
    decreases to - from,
{
    if from < 0 || from >= to {
        Seq::empty()
    } else if is_digit(chars[from]) {
        seq![chars[from]] + digits_in(chars, from + 1, to)
    } else {
        digits_in(chars, from + 1, to)
    }
}

/// The decimal value of a digit string.
pub open spec fn dec_val(ds: Seq<char>) -> int
    decreases ds.len(),
{
    if ds.len() == 0 {
        0
    } else {
        dec_val(ds.drop_last()) * 10 + ((ds.last() as u32) - 48)
    }
}

/// Every character of a string is a digit.
pub open spec fn all_digits(ds: Seq<char>) -> bool {
    forall|k: int| 0 <= k < ds.len() ==> is_digit(#[trigger] ds[k])
}

proof fn lemma_dec_val_nonneg(ds: Seq<char>)
    requires
        all_digits(ds),
    ensures
        dec_val(ds) >= 0,
    decreases ds.len(),
{
    if ds.len() > 0 {
        assert(all_digits(ds.drop_last())) by {
            assert(forall|k: int|
                0 <= k < ds.drop_last().len() ==> is_digit(#[trigger] ds.drop_last()[k]));
        }
        lemma_dec_val_nonneg(ds.drop_last());
        assert(is_digit(ds.last()));
        assert((ds.last() as u32) >= 48);
    }
}

proof fn lemma_dec_val_prefix_le(ds: Seq<char>, rest: Seq<char>)
    requires
        all_digits(ds),
        all_digits(rest),
    ensures
        dec_val(ds) <= dec_val(ds + rest),
    decreases rest.len(),
{
    if rest.len() == 0 {
        assert(ds + rest =~= ds);
    } else {
        assert(all_digits(rest.drop_last())) by {
            assert(forall|k: int|
                0 <= k < rest.drop_last().len() ==> is_digit(#[trigger] rest.drop_last()[k]));
        }
        lemma_dec_val_prefix_le(ds, rest.drop_last());
        assert((ds + rest).drop_last() =~= ds + rest.drop_last());
        assert(all_digits(ds + rest.drop_last())) by {
            assert(forall|k: int|
                0 <= k < (ds + rest.drop_last()).len() ==> is_digit(
                    #[trigger] (ds + rest.drop_last())[k],
                ));
        }
        lemma_dec_val_nonneg(ds + rest.drop_last());
        assert((ds + rest).last() == rest.last());
        assert(is_digit(rest.last()));
        assert((rest.last() as u32) >= 48);
        assert(dec_val(ds + rest) == dec_val(ds + rest.drop_last()) * 10 + ((rest.last() as u32)
            - 48));
    }
}

proof fn lemma_digits_in_step(chars: Seq<char>, from: int, to: int)
    requires
        0 <= from <= to < chars.len(),
    ensures
        digits_in(chars, from, to + 1) =~= digits_in(chars, from, to) + (if is_digit(chars[to]) {
            seq![chars[to]]
        } else {
            Seq::<char>::empty()
        }),
    decreases to - from,
{
    if from < to {
        lemma_digits_in_step(chars, from + 1, to);
        if is_digit(chars[from]) {
            assert(digits_in(chars, from, to + 1) =~= seq![chars[from]] + (digits_in(
                chars,
                from + 1,
                to,
            ) + (if is_digit(chars[to]) {
                seq![chars[to]]
            } else {
                Seq::<char>::empty()
            })));
        }
    } else {
        assert(digits_in(chars, from, to) =~= Seq::<char>::empty());
        assert(digits_in(chars, from + 1, to + 1) =~= Seq::<char>::empty());
    }
}

proof fn lemma_digits_in_digits(chars: Seq<char>, from: int, to: int)
    ensures
        all_digits(digits_in(chars, from, to)),
    decreases to - from,
{
    if 0 <= from < to {
        lemma_digits_in_digits(chars, from + 1, to);
        if is_digit(chars[from]) {
            assert(forall|k: int|
                0 <= k < digits_in(chars, from, to).len() ==> is_digit(
                    #[trigger] digits_in(chars, from, to)[k],
                ));
        }
    }
}

proof fn lemma_digits_in_split(chars: Seq<char>, a: int, b: int, c: int)
    requires
        0 <= a <= b <= c,
    ensures
        digits_in(chars, a, c) =~= digits_in(chars, a, b) + digits_in(chars, b, c),
    decreases b - a,
{
    if a < b {
        lemma_digits_in_split(chars, a + 1, b, c);
    } else {
        assert(digits_in(chars, a, b) =~= Seq::<char>::empty());
    }
}

/// A scan never moves backwards and never leaves the buffer.
proof fn lemma_num_scan_bounds(chars: Seq<char>, q: int)
    requires
        0 <= q <= chars.len(),
    ensures
        q <= num_scan(chars, q).0 <= chars.len(),
    decreases chars.len() - q,
{
    if q < chars.len() {
        if is_digit(chars[q]) {
            lemma_num_scan_bounds(chars, q + 1);
        } else if chars[q] == '_' && q + 1 < chars.len() && is_digit(chars[q + 1]) {
            lemma_num_scan_bounds(chars, q + 2);
        }
    }
}

/// The digits up to `mid` are a prefix of the whole literal's digits, so an
/// overflow seen early is an overflow of the whole value.
proof fn lemma_split_value(chars: Seq<char>, from: int, mid: int, end: int, c: char)
    requires
        0 <= from <= mid <= end,
        is_digit(c),
    ensures
        dec_val(seq![c] + digits_in(chars, from, mid)) <= dec_val(
            seq![c] + digits_in(chars, from, end),
        ),
{
    lemma_digits_in_split(chars, from, mid, end);
    lemma_digits_in_digits(chars, from, mid);
    lemma_digits_in_digits(chars, mid, end);
    let pre = seq![c] + digits_in(chars, from, mid);
    assert(all_digits(pre)) by {
        assert(forall|k: int| 0 <= k < pre.len() ==> is_digit(#[trigger] pre[k]));
    }
    lemma_dec_val_prefix_le(pre, digits_in(chars, mid, end));
    assert(pre + digits_in(chars, mid, end) =~= seq![c] + digits_in(chars, from, end));
}

proof fn lemma_quote_end_found(chars: Seq<char>, from: int, p: int, q: char)
    requires
        0 <= from <= p <= chars.len(),
        forall|k: int| from <= k < p ==> chars[k] != q,
        p == chars.len() || chars[p] == q,
    ensures
        quote_end(chars, from, q) == p,
    decreases p - from,
{
    if from < p {
        lemma_quote_end_found(chars, from + 1, p, q);
    }
}

impl Lexer {
    /// The cursor stays inside the buffer, and the current character is the
    /// one just before the cursor.
    pub(crate) open spec fn wf(self) -> bool {
        &&& self.pos <= self.chars@.len()
        &&& self.chr is Some ==> (1 <= self.pos && self.chr->0 == self.chars@[self.pos - 1])
    }

    /// Work left: unread characters, plus one for a pending current character.
    pub(crate) open spec fn fuel(self) -> nat {
        ((self.chars@.len() - self.pos) * 2 + (if self.chr is Some {
            1int
        } else {
            0int
        })) as nat
    }

    fn new(input: Vec<char>) -> (r: Lexer)
        ensures
            r.wf(),
    {
        Lexer { chars: input, pos: 0, location: Location::new(0, 0), chr: None }
    }

    /// One token with its start and end positions; `Tok::EOF` at the end of
    /// the input.
    pub(crate) fn next_spanned(&mut self) -> (r: LexResult)
        requires
            old(self).wf(),
        ensures
            final(self).wf(),
            final(self).fuel() <= old(self).fuel(),
            r matches Ok(sp) && !(sp.1 is EOF) ==> final(self).fuel() < old(self).fuel(),
    {
        if self.chr.is_none() {
            self.next_char();
        }
        let start = self.location;
        let tok = match self.next_token() {
            Ok(t) => t,
            Err(e) => {
                return Err(e);
            },
        };
        let end = self.location;
        Ok((start, tok, end))
    }

    /// One token; `Tok::EOF` when no character is pending.
    pub(crate) fn next_token(&mut self) -> (r: Result<Tok, LexicalError>)
        requires
            old(self).wf(),
        ensures
            final(self).wf(),
            final(self).fuel() <= old(self).fuel(),
            r matches Ok(t) && !(t is EOF) ==> final(self).fuel() < old(self).fuel(),
    {
        if let Some(c) = self.chr {
            let token = if self.is_identifier_start(c) {
                match self.consume_identifier(c) {
                    Ok(t) => t,
                    Err(e) => {
                        return Err(e);
                    },
                }
            } else {
                match self.consume_special_character(c) {
                    Ok(t) => t,
                    Err(e) => {
                        return Err(e);
                    },
                }
            };
            self.skip_blank();
            Ok(token)
        } else {
            // End of file
            Ok(Tok::EOF)
        }
    }

    /// Pull the next character from the buffer, tracking line and column.
    pub(crate) fn next_char(&mut self)
        requires
            old(self).wf(),
        ensures
            final(self).wf(),
            final(self).fuel() <= old(self).fuel(),
            old(self).chr is Some || old(self).pos < old(self).chars@.len() ==> final(self).fuel()
                < old(self).fuel(),
            old(self).pos < old(self).chars@.len() ==> final(self).chr == Some(
                old(self).chars@[old(self).pos as int],
            ) && final(self).pos == old(self).pos + 1,
            old(self).pos >= old(self).chars@.len() ==> final(self).chr is None && final(self).pos
                == old(self).pos,
            final(self).chars == old(self).chars,
    {
        if self.pos < self.chars.len() {
            let c = self.chars[self.pos];
            self.chr = Some(c);
            self.pos = self.pos + 1;
            if c == '\n' {
                self.location.new_line();
            } else {
                self.location.go_right();
            }
        } else {
            self.chr = None;
        }
    }

    /// A character that may open an identifier: an underscore or a Unicode
    /// XID_Start character.
    fn is_identifier_start(&self, c: char) -> (r: bool)
        ensures
            r == (c == '_' || xid_start(c)),
    {
        c == '_' || unicode_xid_start(c)
    }

    /// Blank characters: space, newline and tab.
    pub(crate) fn is_blank(&self, c: char) -> (r: bool)
        ensures
            r == (c == ' ' || c == '\n' || c == '\t'),
    {
        c == ' ' || c == '\n' || c == '\t'
    }

    /// A character that may continue an identifier: an underscore, a digit
    /// or a Unicode XID_Continue character.
    fn is_identifier_continue(&self, c: char) -> (r: bool)
        ensures
            r == (c == '_' || ('0' <= c && c <= '9') || xid_continue(c)),
    {
        if c == '_' || ('0' <= c && c <= '9') {
            true
        } else {
            unicode_xid_continue(c)
        }
    }

    /// Advance over blanks, stopping at the first non-blank character.
    pub(crate) fn skip_blank(&mut self)
        requires
            old(self).wf(),
        ensures
            final(self).wf(),
            final(self).fuel() <= old(self).fuel(),
    {
        loop
            invariant
                self.wf(),
                self.fuel() <= old(self).fuel(),
            decreases self.fuel(),
        {
            if let Some(c) = self.chr {
                if self.is_blank(c) {
                    self.next_char();
                    continue ;
                }
            }
            break ;
        }
    }

    /// Consume an identifier or keyword starting with `c`.
    fn consume_identifier(&mut self, c: char) -> (r: Result<Tok, LexicalError>)
        requires
            old(self).wf(),
            old(self).chr is Some,
        ensures
            final(self).wf(),
            final(self).fuel() < old(self).fuel(),
    {
        let mut text: Vec<char> = Vec::new();
        text.push(c);
        self.next_char();
        loop
            invariant
                self.wf(),
                self.fuel() < old(self).fuel(),
            decreases self.fuel(),
        {
            if let Some(c2) = self.chr {
                if self.is_identifier_continue(c2) {
                    text.push(c2);
                    self.next_char();
                    continue ;
                }
            }
            break ;
        }
        Ok(keyword_token(chars_to_string(&text)))
    }

    /// Dispatch on a non-identifier character: a number, a quoted literal or
    /// an operator.
    fn consume_special_character(&mut self, c: char) -> (r: Result<Tok, LexicalError>)
        requires
            old(self).wf(),
            old(self).chr is Some,
        ensures
            final(self).wf(),
            final(self).fuel() <= old(self).fuel(),
            r is Ok ==> final(self).fuel() < old(self).fuel(),
    {
        if '0' <= c && c <= '9' {
            self.lex_number(c)
        } else if c == '"' || c == '\'' {
            self.lex_literal(c)
        } else {
            self.consume_multiple_special_character()
        }
    }

    /// Consume a one- or two-character operator or mark, with maximal munch:
    /// a longer operator wins where its prefix is also one.
    fn consume_multiple_special_character(&mut self) -> (r: Result<Tok, LexicalError>)
        requires
            old(self).wf(),
            old(self).chr is Some,
        ensures
            final(self).wf(),
            final(self).fuel() <= old(self).fuel(),
            r is Ok ==> final(self).fuel() < old(self).fuel(),
            ({
                let c = old(self).chr->0;
                let more = old(self).pos < old(self).chars@.len();
                &&& single_mark_token(c) matches Some(t) ==> r == Ok::<Tok, LexicalError>(t)
                &&& (single_mark_token(c) is None && one_char_op_token(c) is None) ==> r is Err
                &&& single_mark_token(c) is None ==> (one_char_op_token(c) matches Some(t1) ==> r
                    == (if more && two_char_op_token(c, old(self).chars@[old(self).pos as int])
                    is Some {
                    Ok::<Tok, LexicalError>(
                        two_char_op_token(c, old(self).chars@[old(self).pos as int])->0,
                    )
                } else {
                    Ok::<Tok, LexicalError>(t1)
                }))
            }),
    {
        let c = match self.chr {
            Some(c) => c,
            None => ' ',
        };
        // Marks that stand alone; consume and return at once.
        let single = match c {
            ',' => Some(Tok::Comma),
            '{' => Some(Tok::LBrace),
            '}' => Some(Tok::RBrace),
            '(' => Some(Tok::LPar),
            ')' => Some(Tok::RPar),
            ';' => Some(Tok::Semi),
            _ => None,
        };
        if let Some(t) = single {
            self.next_char();
            return Ok(t);
        }
        // Operators that may extend to two characters.
        let first = match c {
            '<' => Some(Tok::Lt),
            '>' => Some(Tok::Gt),
            '=' => Some(Tok::Assign),
            '+' => Some(Tok::Plus),
            '-' => Some(Tok::Minus),
            '*' => Some(Tok::Mul),
            '/' => Some(Tok::Div),
            '%' => Some(Tok::Mod),
            '&' => Some(Tok::BitAnd),
            '|' => Some(Tok::BitOr),
            '^' => Some(Tok::BitXor),
            _ => None,
        };
        let t1 = match first {
            Some(t) => t,
            None => {
                return self.check_token(None);
            },
        };
        self.next_char();
        let c2 = match self.chr {
            Some(c2) => c2,
            None => {
                return Ok(t1);
            },
        };
        let two = match (c, c2) {
            ('<', '<') => Some(Tok::LShift),
            ('>', '>') => Some(Tok::RShift),
            ('=', '=') => Some(Tok::Eq),
            ('<', '=') => Some(Tok::Le),
            ('>', '=') => Some(Tok::Ge),
            ('&', '&') => Some(Tok::And),
            ('|', '|') => Some(Tok::Or),
            _ => None,
        };
        match two {
            Some(t2) => {
                self.next_char();
                Ok(t2)
            },
            None => Ok(t1),
        }
    }

    /// The accumulated token, or a lexical error at the current position.
    fn check_token(&self, token: Option<Tok>) -> (r: Result<Tok, LexicalError>)
        ensures
            token is Some <==> r is Ok,
            r matches Ok(t) ==> Some(t) == token,
    {
        if let Some(t) = token {
            Ok(t)
        } else {
            let c = match self.chr {
                Some(c) => c,
                None => ' ',
            };
            Err(
                LexicalError {
                    error: LexicalErrorType::UnrecognizedToken(c),
                    location: self.location,
                },
            )
        }
    }

    /// Consume a decimal number; an underscore must sit between digits. The
    /// value must fit in 64 bits.
    fn lex_number(&mut self, c: char) -> (r: Result<Tok, LexicalError>)
        requires
            old(self).wf(),
            old(self).chr is Some,
            '0' <= c <= '9',
        ensures
            final(self).wf(),
            final(self).fuel() < old(self).fuel(),
            ({
                let scan = num_scan(old(self).chars@, old(self).pos as int);
                let ds = seq![c] + digits_in(old(self).chars@, old(self).pos as int, scan.0);
                &&& (r is Ok) == (scan.1 && dec_val(ds) <= u64::MAX)
                &&& r matches Ok(t) ==> t matches Tok::Num { number } && number as int == dec_val(
                    ds,
                )
            }),
    {
        let ghost chars = old(self).chars@;
        let ghost pos0 = old(self).pos as int;
        let ghost scan = num_scan(chars, pos0);
        let ghost total = seq![c] + digits_in(chars, pos0, scan.0);
        proof {
            lemma_digits_in_digits(chars, pos0, scan.0);
            assert(all_digits(seq![c]));
            assert(all_digits(total)) by {
                assert(forall|k: int| 0 <= k < total.len() ==> is_digit(#[trigger] total[k]));
            }
        }
        let mut number: u64 = (c as u32 as u64) - 48;
        self.next_char();
        proof {
            assert(seq![c].drop_last() =~= Seq::<char>::empty());
            assert(seq![c].last() == c);
            assert(dec_val(Seq::<char>::empty()) == 0);
            assert(dec_val(seq![c]) == (c as u32) - 48);
            assert(seq![c] + digits_in(chars, pos0, pos0) =~= seq![c]);
        }
        #[verifier::loop_isolation(false)]
        loop
            invariant
                self.wf(),
                self.fuel() < old(self).fuel(),
                self.chars == old(self).chars,
                pos0 <= scan_pos(*self, pos0) <= chars.len(),
                num_scan(chars, scan_pos(*self, pos0)) == scan,
                number as int == dec_val(
                    seq![c] + digits_in(chars, pos0, scan_pos(*self, pos0)),
                ),
            decreases self.fuel(),
        {
            let ghost p = scan_pos(*self, pos0);
            let ghost here = seq![c] + digits_in(chars, pos0, p);
            proof {
                lemma_digits_in_digits(chars, pos0, p);
                assert(all_digits(here)) by {
                    assert(forall|k: int| 0 <= k < here.len() ==> is_digit(#[trigger] here[k]));
                }
            }
            if let Some(c2) = self.chr {
                proof {
                    assert(chars[p] == c2);
                    if is_digit(c2) || c2 == '_' {
                        lemma_digits_in_step(chars, pos0, p);
                    }
                }
                if '0' <= c2 && c2 <= '9' {
                    proof {
                        assert(here.push(c2) =~= seq![c] + digits_in(chars, pos0, p + 1));
                        assert(here.push(c2).drop_last() =~= here);
                        assert(dec_val(here.push(c2)) == dec_val(here) * 10 + ((c2 as u32) - 48));
                    }
                    number = match self.push_digit(number, c2) {
                        Ok(n) => n,
                        Err(e) => {
                            proof {
                                assert(num_scan(chars, p + 1) == scan);
                                lemma_num_scan_bounds(chars, p + 1);
                                lemma_split_value(chars, pos0, p + 1, scan.0, c);
                            }
                            return Err(e);
                        },
                    };
                    self.next_char();
                    continue ;
                }
                if c2 == '_' {
                    self.next_char();
                    if let Some(c3) = self.chr {
                        if '0' <= c3 && c3 <= '9' {
                            proof {
                                assert(chars[p + 1] == c3);
                                lemma_digits_in_step(chars, pos0, p + 1);
                                assert(seq![c] + digits_in(chars, pos0, p + 1) =~= here);
                                assert(here.push(c3) =~= seq![c] + digits_in(chars, pos0, p + 2));
                                assert(here.push(c3).drop_last() =~= here);
                                assert(dec_val(here.push(c3)) == dec_val(here) * 10 + ((c3
                                    as u32) - 48));
                            }
                            number = match self.push_digit(number, c3) {
                                Ok(n) => n,
                                Err(e) => {
                                    proof {
                                        assert(num_scan(chars, p + 2) == scan);
                                        lemma_num_scan_bounds(chars, p + 2);
                                        lemma_split_value(chars, pos0, p + 2, scan.0, c);
                                    }
                                    return Err(e);
                                },
                            };
                            self.next_char();
                            continue ;
                        } else {
                            return Err(
                                LexicalError {
                                    error: LexicalErrorType::UnrecognizedToken(c3),
                                    location: self.location,
                                },
                            );
                        }
                    } else {
                        return Err(
                            LexicalError {
                                error: LexicalErrorType::UnrecognizedToken('_'),
                                location: self.location,
                            },
                        );
                    }
                }
            }
            break ;
        }
        Ok(Tok::Num { number })
    }

    /// Append one decimal digit to an accumulated value, rejecting overflow.
    fn push_digit(&self, number: u64, c: char) -> (r: Result<u64, LexicalError>)
        requires
            '0' <= c <= '9',
        ensures
            r matches Ok(n) ==> n == number * 10 + ((c as int) - 48),
            r is Ok <==> number * 10 + ((c as int) - 48) <= u64::MAX,
    {
        let d = (c as u32 as u64) - 48;
        if number > (u64::MAX - d) / 10 {
            proof {
                assert(number * 10 + d > u64::MAX) by (nonlinear_arith)
                    requires
                        number > (u64::MAX - d) / 10,
                        d <= 9,
                        number <= u64::MAX,
            ;
            }
            Err(
                LexicalError {
                    error: LexicalErrorType::OtherError("number literal overflows".to_owned()),
                    location: self.location,
                },
            )
        } else {
            proof {
                assert(number * 10 + d <= u64::MAX) by (nonlinear_arith)
                    requires
                        number <= (u64::MAX - d) / 10,
                        d <= 9,
            ;
            }
            Ok(number * 10 + d)
        }
    }

    /// Consume a quoted literal, up to the matching quote or the end of the
    /// input; the text between the quotes becomes the token, the quotes do
    /// not.
    fn lex_literal(&mut self, c: char) -> (r: Result<Tok, LexicalError>)
        requires
            old(self).wf(),
            old(self).chr is Some,
        ensures
            final(self).wf(),
            final(self).fuel() < old(self).fuel(),
            r is Ok,
            r matches Ok(t) ==> t matches Tok::Literal { literal } && literal@
                == old(self).chars@.subrange(
                old(self).pos as int,
                quote_end(old(self).chars@, old(self).pos as int, c),
            ),
    {
        let mut text: Vec<char> = Vec::new();
        let first = c;
        let ghost pos0 = old(self).pos as int;
        self.next_char();
        loop
            invariant
                self.wf(),
                self.fuel() < old(self).fuel(),
                self.chars == old(self).chars,
                0 <= pos0,
                pos0 <= scan_pos(*self, pos0) <= self.chars@.len(),
                text@ =~= self.chars@.subrange(pos0, scan_pos(*self, pos0)),
                forall|k: int| pos0 <= k < scan_pos(*self, pos0) ==> self.chars@[k] != first,
            ensures
                self.wf(),
                self.fuel() < old(self).fuel(),
                self.chars == old(self).chars,
                text@ =~= self.chars@.subrange(pos0, quote_end(self.chars@, pos0, first)),
            decreases self.fuel(),
        {
            if let Some(c2) = self.chr {
                if first == c2 {
                    proof {
                        lemma_quote_end_found(self.chars@, pos0, scan_pos(*self, pos0), first);
                    }
                    break ;
                }
                let ghost p = scan_pos(*self, pos0);
                proof {
                    assert(self.chars@[p] == c2);
                }
                text.push(c2);
                self.next_char();
                proof {
                    assert(self.chars@.subrange(pos0, p + 1) =~= self.chars@.subrange(
                        pos0,
                        p,
                    ).push(self.chars@[p]));
                    assert(text@ =~= self.chars@.subrange(pos0, p + 1));
                    assert(scan_pos(*self, pos0) == p + 1);
                }
            } else {
                proof {
                    lemma_quote_end_found(self.chars@, pos0, scan_pos(*self, pos0), first);
                }
                break ;
            }
        }
        Ok(Tok::Literal { literal: chars_to_string(&text) })
    }
}

/// The whole input as a token list, or the first lexical error.
pub(crate) fn tokenize(source: &str) -> (r: Result<Vec<Spanned>, LexicalError>) {
    let mut lexer = make_tokenizer(source);
    let mut toks: Vec<Spanned> = Vec::new();
    loop
        invariant
            lexer.wf(),
        decreases lexer.fuel(),
    {
        let sp = match lexer.next_spanned() {
            Ok(sp) => sp,
            Err(e) => {
                return Err(e);
            },
        };
        if let Tok::EOF = sp.1 {
            break ;
        }
        toks.push(sp);
    }
    Ok(toks)
}

} // verus!
