//! Single-line tokenizer for API declarations.
//!
//! A line is cut into whitespace-delimited identifier/number tokens and
//! single-character punctuation tokens.  The five characters `(`, `)`, `,`,
//! `*` and `;` always form one-character tokens of their own; any other run
//! of non-whitespace, non-special characters is a single identifier token.
//! The token stream supports one token of lookahead (`peek_token`) before
//! consumption (`next_token`).

use vstd::prelude::*;

verus! {

/// The ASCII whitespace characters skipped between tokens.
pub open spec fn is_space_char(c: char) -> bool {
    c == ' ' || c == '\t' || c == '\n' || c == '\r' || c as u32 == 0xC
}

/// The five punctuation characters that always form one-character tokens.
pub open spec fn is_special_char(c: char) -> bool {
    c == '(' || c == ')' || c == ',' || c == '*' || c == ';'
}

/// A character that continues an identifier/number token.
pub open spec fn is_ident_char(c: char) -> bool {
    !is_space_char(c) && !is_special_char(c)
}

/// Length of the identifier token starting at the head of `s`.
pub open spec fn ident_run(s: Seq<char>) -> int
    decreases s.len(),
{
    if s.len() == 0 || !is_ident_char(s[0]) {
        0
    } else {
        1 + ident_run(s.drop_first())
    }
}

pub proof fn lemma_ident_run_bounds(s: Seq<char>)
    ensures
        0 <= ident_run(s) <= s.len(),
    decreases s.len(),
{
    if s.len() > 0 && is_ident_char(s[0]) {
        lemma_ident_run_bounds(s.drop_first());
    }
}

/// `ident_run` is exactly the first position that ends the identifier.
pub proof fn lemma_ident_run_value(s: Seq<char>, k: int)
    requires
        0 <= k <= s.len(),
        forall|t: int| 0 <= t < k ==> is_ident_char(#[trigger] s[t]),
        k == s.len() || !is_ident_char(s[k]),
    ensures
        ident_run(s) == k,
    decreases k,
{
    if k > 0 {
        assert forall|t: int| 0 <= t < k - 1 implies is_ident_char(#[trigger] s.drop_first()[t]) by {
            assert(s.drop_first()[t] == s[t + 1]);
        }
        if k - 1 < s.drop_first().len() {
            assert(s.drop_first()[k - 1] == s[k]);
        }
        lemma_ident_run_value(s.drop_first(), k - 1);
    }
}

/// The token sequence of a line: whitespace is skipped, each special
/// character is its own token, and every other maximal run of characters is
/// one identifier token.
pub open spec fn lex(s: Seq<char>) -> Seq<Seq<char>>
    decreases s.len(),
    via lex_decreases
{
    if s.len() == 0 {
        Seq::empty()
    } else if is_space_char(s[0]) {
        lex(s.drop_first())
    } else if is_special_char(s[0]) {
        seq![seq![s[0]]] + lex(s.drop_first())
    } else {
        seq![s.take(ident_run(s))] + lex(s.skip(ident_run(s)))
    }
}

#[via_fn]
proof fn lex_decreases(s: Seq<char>) {
    if s.len() > 0 && !is_space_char(s[0]) && !is_special_char(s[0]) {
        lemma_ident_run_bounds(s.drop_first());
    }
}

pub fn is_space(c: char) -> (b: bool)
    ensures
        b == is_space_char(c),
{
    c == ' ' || c == '\t' || c == '\n' || c == '\r' || c as u32 == 0xC
}

fn is_special(c: char) -> (b: bool)
    ensures
        b == is_special_char(c),
{
    c == '(' || c == ')' || c == ',' || c == '*' || c == ';'
}

/// Cuts a line into its token sequence.
pub fn tokenize(line: &str) -> (tokens: Vec<String>)
    ensures
        tokens.deep_view() == lex(line@),
{
    let len = line.unicode_len();
    let mut tokens: Vec<String> = Vec::new();
    let mut i: usize = 0;
    proof {
        assert(line@.skip(0) =~= line@);
        assert(tokens.deep_view() + lex(line@) =~= lex(line@));
    }
    while i < len
        invariant
            i <= len,
            len == line@.len(),
            tokens.deep_view() + lex(line@.skip(i as int)) == lex(line@),
        decreases len - i,
    {
        let ghost rest = line@.skip(i as int);
        assert(rest[0] == line@[i as int]);
        let c = line.get_char(i);
        if is_space(c) {
            proof {
                assert(rest.drop_first() =~= line@.skip(i + 1));
            }
            i = i + 1;
        } else if is_special(c) {
            let tok = line.substring_char(i, i + 1);
            let tok = String::from_str(tok);
            proof {
                assert(tok@ =~= seq![rest[0]]);
                assert(rest.drop_first() =~= line@.skip(i + 1));
            }
            let ghost old_dv = tokens.deep_view();
            tokens.push(tok);
            proof {
                assert(tokens.deep_view() =~= old_dv.push(tok@));
                assert(old_dv.push(tok@) + lex(line@.skip(i + 1)) =~= old_dv + lex(
                    line@.skip(i as int),
                ));
            }
            i = i + 1;
        } else {
            let mut j: usize = i + 1;
            while j < len && !is_space(line.get_char(j)) && !is_special(line.get_char(j))
                invariant
                    i < j <= len,
                    len == line@.len(),
                    forall|t: int| i <= t < j ==> is_ident_char(#[trigger] line@[t]),
                decreases len - j,
            {
                j = j + 1;
            }
            proof {
                assert forall|t: int| 0 <= t < j - i implies is_ident_char(#[trigger] rest[t]) by {
                    assert(rest[t] == line@[i + t]);
                }
                if (j as int) < len as int {
                    assert(rest[j - i] == line@[j as int]);
                }
                lemma_ident_run_value(rest, j - i);
            }
            let tok = line.substring_char(i, j);
            let tok = String::from_str(tok);
            proof {
                assert(tok@ =~= rest.take(j - i));
                assert(rest.skip(j - i) =~= line@.skip(j as int));
            }
            let ghost old_dv = tokens.deep_view();
            tokens.push(tok);
            proof {
                assert(tokens.deep_view() =~= old_dv.push(tok@));
                assert(old_dv.push(tok@) + lex(line@.skip(j as int)) =~= old_dv + lex(
                    line@.skip(i as int),
                ));
            }
            i = j;
        }
    }
    proof {
        assert(line@.skip(len as int) =~= Seq::<char>::empty());
        assert(tokens.deep_view() + lex(line@.skip(len as int)) =~= tokens.deep_view());
    }
    tokens
}

/// A token that is one of the five special punctuation characters.
pub open spec fn is_special_token(t: Seq<char>) -> bool {
    t.len() == 1 && is_special_char(t[0])
}

/// Token stream over one line, with one token of lookahead.
pub struct TokenIterator {
    tokens: Vec<String>,
    pos: usize,
}

impl TokenIterator {
    pub closed spec fn wf(self) -> bool {
        self.pos <= self.tokens.len()
    }

    /// The tokens not yet consumed.
    pub closed spec fn remaining(self) -> Seq<Seq<char>> {
        self.tokens.deep_view().skip(self.pos as int)
    }

    pub fn new(line: &str) -> (it: TokenIterator)
        ensures
            it.wf(),
            it.remaining() == lex(line@),
    {
        let tokens = tokenize(line);
        proof {
            assert(tokens.deep_view().skip(0) =~= tokens.deep_view());
        }
        TokenIterator { tokens, pos: 0 }
    }

    /// Looks at the next token without consuming it.  Idempotent.
    pub fn peek_token(&self) -> (r: Option<&String>)
        requires
            self.wf(),
        ensures
            match r {
                Some(t) => self.remaining().len() > 0 && t@ == self.remaining()[0],
                None => self.remaining().len() == 0,
            },
    {
        if self.pos < self.tokens.len() {
            proof {
                assert(self.tokens.deep_view()[self.pos as int] == self.tokens[self.pos as int]@);
            }
            Some(&self.tokens[self.pos])
        } else {
            None
        }
    }

    /// Consumes and returns the next token, or `None` at the end of the line.
    pub fn next_token(&mut self) -> (r: Option<String>)
        requires
            old(self).wf(),
        ensures
            final(self).wf(),
            match r {
                Some(t) => {
                    &&& old(self).remaining().len() > 0
                    &&& t@ == old(self).remaining()[0]
                    &&& final(self).remaining() == old(self).remaining().drop_first()
                },
                None => {
                    &&& old(self).remaining().len() == 0
                    &&& *final(self) == *old(self)
                },
            },
    {
        if self.pos < self.tokens.len() {
            let t = self.tokens[self.pos].clone();
            proof {
                assert(self.tokens.deep_view()[self.pos as int] == self.tokens[self.pos as int]@);
            }
            self.pos = self.pos + 1;
            proof {
                assert(self.remaining() =~= old(self).remaining().drop_first());
            }
            Some(t)
        } else {
            None
        }
    }
}

/// True when the token reads exactly as the given literal.
pub fn token_is(t: &String, s: &str) -> (b: bool)
    ensures
        b == (t@ == s@),
{
    let other = String::from_str(s);
    t.eq(&other)
}

/// True when the two strings read the same.
pub fn str_eq(a: &str, b: &str) -> (r: bool)
    ensures
        r == (a@ == b@),
{
    let sa = String::from_str(a);
    let sb = String::from_str(b);
    sa.eq(&sb)
}

/// Why a declaration line or keyset section failed to parse.
#[derive(Debug, Clone, Copy, PartialEq, Eq, Structural)]
pub enum ParseErrorKind {
    /// A required token was absent at the end of the line.
    UnexpectedEnd,
    /// A token other than the required one was found.
    UnexpectedToken,
    /// A number was required but the token is not a valid one.
    BadNumber,
    /// A type name that the model does not know.
    UnknownType,
    /// An unknown function attribute.
    UnknownAttribute,
    /// A keyset argument names a keyset that was not parsed earlier.
    UnresolvedKeyset,
    /// A keyset field whose declared type is not the dynamic object type.
    BadKeysetField,
    /// A `void` argument appeared together with other arguments.
    VoidArgumentNotAlone,
    /// The declared return type cannot be a return type.
    BadReturnType,
}

/// A failure to parse one declaration line or one keyset section.
#[derive(Debug, Clone, Copy, PartialEq, Eq, Structural)]
pub struct ParseError {
    pub kind: ParseErrorKind,
}

/// A decimal digit.
pub open spec fn is_digit_char(c: char) -> bool {
    '0' as u32 <= c as u32 && c as u32 <= '9' as u32
}

pub open spec fn all_digits(s: Seq<char>) -> bool {
    forall|i: int| 0 <= i < s.len() ==> is_digit_char(#[trigger] s[i])
}

/// The value of a digit string, most significant digit first.
pub open spec fn digits_val(s: Seq<char>) -> int
    decreases s.len(),
{
    if s.len() == 0 {
        0
    } else {
        digits_val(s.drop_last()) * 10 + (s.last() as u32 - '0' as u32)
    }
}

proof fn lemma_digits_val_nonneg(s: Seq<char>)
    requires
        all_digits(s),
    ensures
        digits_val(s) >= 0,
    decreases s.len(),
{
    if s.len() > 0 {
        assert(all_digits(s.drop_last())) by {
            assert(forall|i: int|
                0 <= i < s.len() - 1 ==> #[trigger] s.drop_last()[i] == s[i]);
        }
        lemma_digits_val_nonneg(s.drop_last());
    }
}

/// The meaning of a signed decimal token, exactly as the standard decimal
/// string-to-integer reading: an optional single `+` or `-` sign, then one
/// or more digits, with the value required to fit in a 32-bit signed
/// integer.
pub open spec fn spec_parse_i32(s: Seq<char>) -> Option<i32> {
    if s.len() > 0 && (s[0] == '+' || s[0] == '-') {
        spec_parse_i32_digits(s.drop_first(), s[0] == '-')
    } else {
        spec_parse_i32_digits(s, false)
    }
}

pub open spec fn spec_parse_i32_digits(ds: Seq<char>, neg: bool) -> Option<i32> {
    if ds.len() == 0 || !all_digits(ds) {
        None
    } else {
        let v = if neg {
            -digits_val(ds)
        } else {
            digits_val(ds)
        };
        if i32::MIN <= v <= i32::MAX {
            Some(v as i32)
        } else {
            None
        }
    }
}

/// Reads a token as a 32-bit signed decimal number.
pub fn parse_i32(t: &String) -> (r: Option<i32>)
    ensures
        r == spec_parse_i32(t@),
{
    let s = t.as_str();
    let len = s.unicode_len();
    let mut idx: usize = 0;
    let mut neg = false;
    if len > 0 {
        let c0 = s.get_char(0);
        if c0 == '+' || c0 == '-' {
            idx = 1;
            neg = c0 == '-';
        }
    }
    let ghost ds = t@.skip(idx as int);
    proof {
        if idx == 1 {
            assert(t@.drop_first() =~= ds);
        } else {
            assert(t@.skip(0) =~= t@);
        }
        assert(spec_parse_i32(t@) == spec_parse_i32_digits(ds, neg));
    }
    if idx == len {
        return None;
    }
    // Accumulate saturating just above the largest magnitude that can fit,
    // so that overflow is detected exactly.
    let mut acc: u64 = 0;
    let mut k: usize = idx;
    while k < len
        invariant
            idx <= k <= len,
            len == t@.len(),
            t@ == s@,
            ds == t@.skip(idx as int),
            spec_parse_i32(t@) == spec_parse_i32_digits(ds, neg),
            acc <= 0x8000_0001,
            all_digits(t@.subrange(idx as int, k as int)),
            acc <= 0x8000_0000 ==> acc == digits_val(t@.subrange(idx as int, k as int)),
            acc == 0x8000_0001 ==> digits_val(t@.subrange(idx as int, k as int)) > 0x8000_0000,
        decreases len - k,
    {
        let ghost pre = t@.subrange(idx as int, k as int);
        let c = s.get_char(k);
        let cu = c as u32;
        if !(48 <= cu && cu <= 57) {
            proof {
                assert(ds[k - idx] == t@[k as int]);
                assert(!all_digits(ds));
            }
            return None;
        }
        let d: u64 = (cu - 48) as u64;
        proof {
            assert(t@.subrange(idx as int, k + 1).drop_last() =~= pre);
            assert(t@.subrange(idx as int, k + 1).last() == t@[k as int]);
            lemma_digits_val_nonneg(pre);
        }
        acc = acc * 10 + d;
        if acc > 0x8000_0000 {
            acc = 0x8000_0001;
        }
        k = k + 1;
    }
    proof {
        assert(t@.subrange(idx as int, len as int) =~= ds);
    }
    if neg {
        if acc <= 0x8000_0000 {
            let v: i64 = -(acc as i64);
            Some(v as i32)
        } else {
            None
        }
    } else {
        if acc <= 0x7fff_ffff {
            Some(acc as i32)
        } else {
            None
        }
    }
}

impl TokenIterator {
    /// Consumes the next token and requires it to read exactly as `token`.
    pub fn expect_next_token(&mut self, token: &str) -> (r: Result<(), ParseError>)
        requires
            old(self).wf(),
        ensures
            final(self).wf(),
            r is Ok <==> old(self).remaining().len() > 0 && old(self).remaining()[0] == token@,
            r is Ok ==> final(self).remaining() == old(self).remaining().drop_first(),
            r matches Err(e) ==> {
                if old(self).remaining().len() == 0 {
                    e.kind == ParseErrorKind::UnexpectedEnd && *final(self) == *old(self)
                } else {
                    e.kind == ParseErrorKind::UnexpectedToken && final(self).remaining() == old(
                        self,
                    ).remaining().drop_first()
                }
            },
    {
        match self.next_token() {
            None => Err(ParseError { kind: ParseErrorKind::UnexpectedEnd }),
            Some(t) => {
                if token_is(&t, token) {
                    Ok(())
                } else {
                    Err(ParseError { kind: ParseErrorKind::UnexpectedToken })
                }
            },
        }
    }

    /// Consumes the next token and requires it to be an identifier, that is,
    /// not one of the five punctuation tokens.
    pub fn next_identifier(&mut self) -> (r: Result<String, ParseError>)
        requires
            old(self).wf(),
        ensures
            final(self).wf(),
            r is Ok <==> old(self).remaining().len() > 0 && !is_special_token(
                old(self).remaining()[0],
            ),
            r matches Ok(t) ==> t@ == old(self).remaining()[0] && final(self).remaining() == old(self).remaining().drop_first(),
            r matches Err(e) ==> {
                if old(self).remaining().len() == 0 {
                    e.kind == ParseErrorKind::UnexpectedEnd && *final(self) == *old(self)
                } else {
                    e.kind == ParseErrorKind::UnexpectedToken && final(self).remaining() == old(
                        self,
                    ).remaining().drop_first()
                }
            },
    {
        match self.next_token() {
            None => Err(ParseError { kind: ParseErrorKind::UnexpectedEnd }),
            Some(t) => {
                let len = t.as_str().unicode_len();
                if len == 1 {
                    let c = t.as_str().get_char(0);
                    if is_special(c) {
                        return Err(ParseError { kind: ParseErrorKind::UnexpectedToken });
                    }
                }
                Ok(t)
            },
        }
    }

    /// Consumes the next token and reads it as a 32-bit signed decimal
    /// number.
    pub fn next_number(&mut self) -> (r: Result<i32, ParseError>)
        requires
            old(self).wf(),
        ensures
            final(self).wf(),
            r is Ok <==> old(self).remaining().len() > 0 && spec_parse_i32(
                old(self).remaining()[0],
            ) is Some,
            r matches Ok(v) ==> Some(v) == spec_parse_i32(old(self).remaining()[0]) && final(self).remaining() == old(self).remaining().drop_first(),
            r matches Err(e) ==> {
                if old(self).remaining().len() == 0 {
                    e.kind == ParseErrorKind::UnexpectedEnd && *final(self) == *old(self)
                } else {
                    e.kind == ParseErrorKind::BadNumber && final(self).remaining() == old(
                        self,
                    ).remaining().drop_first()
                }
            },
    {
        match self.next_token() {
            None => Err(ParseError { kind: ParseErrorKind::UnexpectedEnd }),
            Some(t) => match parse_i32(&t) {
                Some(v) => Ok(v),
                None => Err(ParseError { kind: ParseErrorKind::BadNumber }),
            },
        }
    }
}

/// The human-readable description of each parse failure.
pub open spec fn spec_describe_parse_error(e: ParseError) -> Seq<char> {
    match e.kind {
        ParseErrorKind::UnexpectedEnd => "unexpected end of line"@,
        ParseErrorKind::UnexpectedToken => "unexpected token"@,
        ParseErrorKind::BadNumber => "expected a number"@,
        ParseErrorKind::UnknownType => "unknown type"@,
        ParseErrorKind::UnknownAttribute => "unknown attribute"@,
        ParseErrorKind::UnresolvedKeyset => "unknown keyset type"@,
        ParseErrorKind::BadKeysetField => "expected the type of a keyset field to be an object"@,
        ParseErrorKind::VoidArgumentNotAlone => "a void argument must be the only argument"@,
        ParseErrorKind::BadReturnType => "unexpected return type"@,
    }
}

impl ParseError {
    /// A human-readable description of the failure.
    pub fn describe(&self) -> (r: String)
        ensures
            r@ == spec_describe_parse_error(*self),
    {
        match self.kind {
            ParseErrorKind::UnexpectedEnd => String::from_str("unexpected end of line"),
            ParseErrorKind::UnexpectedToken => String::from_str("unexpected token"),
            ParseErrorKind::BadNumber => String::from_str("expected a number"),
            ParseErrorKind::UnknownType => String::from_str("unknown type"),
            ParseErrorKind::UnknownAttribute => String::from_str("unknown attribute"),
            ParseErrorKind::UnresolvedKeyset => String::from_str("unknown keyset type"),
            ParseErrorKind::BadKeysetField => String::from_str(
                "expected the type of a keyset field to be an object",
            ),
            ParseErrorKind::VoidArgumentNotAlone => String::from_str(
                "a void argument must be the only argument",
            ),
            ParseErrorKind::BadReturnType => String::from_str("unexpected return type"),
        }
    }
}

} // verus!