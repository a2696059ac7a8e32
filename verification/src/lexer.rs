//! The lexer: a single left-to-right scan that turns one file's text into a
//! token sequence or one lexical diagnostic.
//!
//! The behaviour is pinned down by the recursive specification
//! [`spec_tokenize`]; the executable [`tokenize`] is proved to return exactly
//! what that specification says, for every input.

use vstd::prelude::*;

use crate::diagnostics::{CompileException, ExceptionModel};
use crate::token::{keyword_token, type_token, NumLit, NumModel, Token, TokenModel};
use vstd::string::*;

verus! {

/// Lowercase ASCII letter.
pub open spec fn is_lower(c: char) -> bool {
    'a' <= c && c <= 'z'
}

/// Uppercase ASCII letter.
pub open spec fn is_upper(c: char) -> bool {
    'A' <= c && c <= 'Z'
}

/// Decimal digit.
pub open spec fn is_digit(c: char) -> bool {
    '0' <= c && c <= '9'
}

/// A character that may continue an identifier, type name or annotation.
pub open spec fn is_ident_char(c: char) -> bool {
    is_lower(c) || is_upper(c) || is_digit(c) || c == '_'
}

/// Hexadecimal digit, either case.
pub open spec fn is_hex_digit(c: char) -> bool {
    is_digit(c) || ('a' <= c && c <= 'f') || ('A' <= c && c <= 'F')
}

/// Binary digit.
pub open spec fn is_bin_digit(c: char) -> bool {
    c == '0' || c == '1'
}

/// The numeric value of a digit character (decimal, hexadecimal or binary).
pub open spec fn digit_val(c: char) -> int {
    if is_digit(c) {
        c as int - 48
    } else if 'a' <= c && c <= 'f' {
        c as int - 87
    } else if 'A' <= c && c <= 'F' {
        c as int - 55
    } else {
        0
    }
}

/// The value of a digit run read most-significant-first in the given base.
pub open spec fn digits_value(ds: Seq<char>, base: int) -> int
    decreases ds.len(),
{
    if ds.len() == 0 {
        0
    } else {
        digits_value(ds.drop_last(), base) * base + digit_val(ds.last())
    }
}

/// The value a 64-bit register holds after accumulating a digit run:
/// the mathematical value reduced modulo 2^64.
pub open spec fn wrapped64(v: int) -> int {
    v % 0x10000000000000000
}

/// Two's-complement reinterpretation of a value in `[0, 2^64)` as a signed
/// 64-bit integer.
pub open spec fn as_i64(m: int) -> int {
    if m >= 0x8000000000000000 {
        m - 0x10000000000000000
    } else {
        m
    }
}

/// The signed value an integer literal with these digits produces.
pub open spec fn literal_int(ds: Seq<char>, base: int) -> int {
    as_i64(wrapped64(digits_value(ds, base)))
}

/// The digit values (each `0..=9`) of a run of decimal digit characters.
pub open spec fn frac_digits(ds: Seq<char>) -> Seq<u8> {
    ds.map_values(|c: char| (digit_val(c)) as u8)
}

/// The first index at or after `i` whose character fails `p` (the input's
/// length if every remaining character satisfies `p`).
pub open spec fn run_end(s: Seq<char>, i: int, p: spec_fn(char) -> bool) -> int
    decreases s.len() - i,
{
    if i < 0 || i >= s.len() {
        s.len() as int
    } else if p(s[i]) {
        run_end(s, i + 1, p)
    } else {
        i
    }
}

/// The predicate the identifier/type/annotation run obeys.
pub open spec fn pred_ident() -> spec_fn(char) -> bool {
    |c: char| is_ident_char(c)
}

/// The predicate a decimal digit run obeys.
pub open spec fn pred_digit() -> spec_fn(char) -> bool {
    |c: char| is_digit(c)
}

/// The predicate a hexadecimal digit run obeys.
pub open spec fn pred_hex() -> spec_fn(char) -> bool {
    |c: char| is_hex_digit(c)
}

/// The predicate a binary digit run obeys.
pub open spec fn pred_bin() -> spec_fn(char) -> bool {
    |c: char| is_bin_digit(c)
}

/// The predicate the inside of a line comment obeys.
pub open spec fn pred_not_newline() -> spec_fn(char) -> bool {
    |c: char| c != '\n'
}

/// `j`, forced into the range `[lo, hi]`. The lexer's scanning helpers
/// always return an index in that range already, so this changes nothing at
/// run time; it makes the bound structural, so that termination of [`lex`]
/// is evident.
pub open spec fn step_to(j: int, lo: int, hi: int) -> int {
    if j < lo {
        lo
    } else if j > hi {
        hi
    } else {
        j
    }
}

/// The (line, column) position after consuming one character at (line, col):
/// a newline starts the next line at column zero, any other character moves
/// one column to the right.
pub open spec fn advance(line: int, col: int, c: char) -> (int, int) {
    if c == '\n' {
        (line + 1, 0)
    } else {
        (line, col + 1)
    }
}

/// Scans the inside of a string literal opened by quote character `q`.
///
/// `i` points after the last consumed character, `(line, col)` is the
/// position there, `(sl, sc)` is the position of the opening quote and
/// `content` the characters decoded so far. Returns the decoded contents,
/// the index after the closing quote and the position there; or the
/// diagnostic the literal raises.
pub open spec fn scan_string(
    s: Seq<char>,
    i: int,
    q: char,
    line: int,
    col: int,
    sl: int,
    sc: int,
    content: Seq<char>,
) -> Result<(Seq<char>, int, int, int), ExceptionModel>
    decreases s.len() - i,
{
    if i < 0 || i >= s.len() {
        Err(ExceptionModel::UnfinishedString(sl, sc))
    } else if s[i] == q {
        Ok((content, i + 1, line, col + 1))
    } else if s[i] == '\\' {
        if i + 1 >= s.len() {
            Err(ExceptionModel::UnrecognizedEscape(line, col + 1))
        } else {
            let e = s[i + 1];
            let decoded = if e == 'n' {
                '\n'
            } else if e == 't' {
                '\t'
            } else {
                e
            };
            let (l2, c2) = advance(line, col + 1, e);
            scan_string(s, i + 2, q, l2, c2, sl, sc, content.push(decoded))
        }
    } else {
        let (l2, c2) = advance(line, col, s[i]);
        scan_string(s, i + 1, q, l2, c2, sl, sc, content.push(s[i]))
    }
}

/// Scans the inside of a block comment for the terminating `*/`.
///
/// Returns the index after the terminator and the position there, or `None`
/// when the input ends first.
pub open spec fn scan_block_comment(s: Seq<char>, i: int, line: int, col: int) -> Option<
    (int, int, int),
>
    decreases s.len() - i,
{
    if i < 0 || i >= s.len() {
        None
    } else if s[i] == '*' && i + 1 < s.len() && s[i + 1] == '/' {
        Some((i + 2, line, col + 2))
    } else {
        let (l2, c2) = advance(line, col, s[i]);
        scan_block_comment(s, i + 1, l2, c2)
    }
}

/// One scanning step's outcome: the remaining input starts at `i`, the
/// position there is `(line, col)`, and `acc` holds the models of the tokens
/// produced so far.
///
/// This is the whole lexical rule set of Fire: compound operators take the
/// longest match, `//` and `/* */` discard comments, words become keywords,
/// identifiers, type names or annotations, quotes open string literals with
/// `\n`, `\t` and `\\` escapes, and digit runs become integer or floating
/// literals in decimal, hexadecimal or binary.
pub open spec fn lex(
    s: Seq<char>,
    i: int,
    line: int,
    col: int,
    acc: Seq<TokenModel>,
) -> Result<Seq<TokenModel>, ExceptionModel>
    decreases s.len() - i,
{
    if i < 0 {
        Err(ExceptionModel::UnrecognizedToken(Seq::empty(), line, col))
    } else if i >= s.len() {
        Ok(acc)
    } else {
        let c = s[i];
        let two = i + 1 < s.len();
        if c == '+' {
            if two && s[i + 1] == '=' {
                lex(s, i + 2, line, col + 2, acc.push(TokenModel::PlusAssign))
            } else if two && s[i + 1] == '+' {
                lex(s, i + 2, line, col + 2, acc.push(TokenModel::Increment))
            } else {
                lex(s, i + 1, line, col + 1, acc.push(TokenModel::Plus))
            }
        } else if c == '-' {
            if two && s[i + 1] == '=' {
                lex(s, i + 2, line, col + 2, acc.push(TokenModel::MinusAssign))
            } else if two && s[i + 1] == '-' {
                lex(s, i + 2, line, col + 2, acc.push(TokenModel::Decrement))
            } else {
                lex(s, i + 1, line, col + 1, acc.push(TokenModel::Minus))
            }
        } else if c == '*' {
            if two && s[i + 1] == '=' {
                lex(s, i + 2, line, col + 2, acc.push(TokenModel::MultiplyAssign))
            } else {
                lex(s, i + 1, line, col + 1, acc.push(TokenModel::Multiply))
            }
        } else if c == '/' {
            if two && s[i + 1] == '=' {
                lex(s, i + 2, line, col + 2, acc.push(TokenModel::DivideAssign))
            } else if two && s[i + 1] == '/' {
                let j = run_end(s, i + 2, pred_not_newline());
                if j >= s.len() {
                    lex(s, step_to(j, i + 1, s.len() as int), line, col + (j - i), acc)
                } else {
                    lex(s, step_to(j + 1, i + 1, s.len() as int), line + 1, 0, acc)
                }
            } else if two && s[i + 1] == '*' {
                match scan_block_comment(s, i + 2, line, col + 2) {
                    Some((j, l2, c2)) => lex(s, step_to(j, i + 1, s.len() as int), l2, c2, acc),
                    None => Err(ExceptionModel::UnrecognizedToken("/*"@, line, col + 1)),
                }
            } else {
                lex(s, i + 1, line, col + 1, acc.push(TokenModel::Divide))
            }
        } else if c == '%' {
            if two && s[i + 1] == '=' {
                lex(s, i + 2, line, col + 2, acc.push(TokenModel::ModAssign))
            } else {
                lex(s, i + 1, line, col + 1, acc.push(TokenModel::Mod))
            }
        } else if c == '&' {
            if two && s[i + 1] == '&' {
                lex(s, i + 2, line, col + 2, acc.push(TokenModel::StrictAnd))
            } else {
                lex(s, i + 1, line, col + 1, acc.push(TokenModel::And))
            }
        } else if c == '|' {
            if two && s[i + 1] == '|' {
                lex(s, i + 2, line, col + 2, acc.push(TokenModel::StrictOr))
            } else {
                lex(s, i + 1, line, col + 1, acc.push(TokenModel::Or))
            }
        } else if c == '=' {
            if two && s[i + 1] == '=' {
                lex(s, i + 2, line, col + 2, acc.push(TokenModel::Equals))
            } else if two && s[i + 1] == '>' {
                lex(s, i + 2, line, col + 2, acc.push(TokenModel::FatArrow))
            } else {
                lex(s, i + 1, line, col + 1, acc.push(TokenModel::Assign))
            }
        } else if c == '>' {
            if two && s[i + 1] == '=' {
                lex(s, i + 2, line, col + 2, acc.push(TokenModel::GreaterEqual))
            } else {
                lex(s, i + 1, line, col + 1, acc.push(TokenModel::Greater))
            }
        } else if c == '<' {
            if two && s[i + 1] == '=' {
                lex(s, i + 2, line, col + 2, acc.push(TokenModel::LessEqual))
            } else {
                lex(s, i + 1, line, col + 1, acc.push(TokenModel::Less))
            }
        } else if c == ':' {
            if two && s[i + 1] == ':' {
                lex(s, i + 2, line, col + 2, acc.push(TokenModel::Accesser))
            } else {
                lex(s, i + 1, line, col + 1, acc.push(TokenModel::Colon))
            }
        } else if c == '!' {
            if two && s[i + 1] == '=' {
                lex(s, i + 2, line, col + 2, acc.push(TokenModel::NotEqual))
            } else {
                lex(s, i + 1, line, col + 1, acc.push(TokenModel::Not))
            }
        } else if c == '^' {
            lex(s, i + 1, line, col + 1, acc.push(TokenModel::Xor))
        } else if c == ',' {
            lex(s, i + 1, line, col + 1, acc.push(TokenModel::Comma))
        } else if c == '.' {
            lex(s, i + 1, line, col + 1, acc.push(TokenModel::Dot))
        } else if c == '(' {
            lex(s, i + 1, line, col + 1, acc.push(TokenModel::OpenParen))
        } else if c == ')' {
            lex(s, i + 1, line, col + 1, acc.push(TokenModel::CloseParen))
        } else if c == '[' {
            lex(s, i + 1, line, col + 1, acc.push(TokenModel::OpenBracket))
        } else if c == ']' {
            lex(s, i + 1, line, col + 1, acc.push(TokenModel::CloseBracket))
        } else if c == '{' {
            lex(s, i + 1, line, col + 1, acc.push(TokenModel::OpenBrace))
        } else if c == '}' {
            lex(s, i + 1, line, col + 1, acc.push(TokenModel::CloseBrace))
        } else if c == '\n' {
            lex(s, i + 1, line + 1, 0, acc)
        } else if c == ' ' {
            lex(s, i + 1, line, col + 1, acc)
        } else if is_lower(c) {
            let j = step_to(run_end(s, i + 1, pred_ident()), i + 1, s.len() as int);
            lex(s, j, line, col + (j - i), acc.push(keyword_token(s.subrange(i, j))))
        } else if is_upper(c) {
            let j = step_to(run_end(s, i + 1, pred_ident()), i + 1, s.len() as int);
            lex(s, j, line, col + (j - i), acc.push(type_token(s.subrange(i, j))))
        } else if c == '@' {
            let j = step_to(run_end(s, i + 1, pred_ident()), i + 1, s.len() as int);
            lex(s, j, line, col + (j - i), acc.push(TokenModel::Annotation(s.subrange(i + 1, j))))
        } else if c == '"' || c == '\'' {
            match scan_string(s, i + 1, c, line, col + 1, line, col + 1, Seq::empty()) {
                Ok((content, j, l2, c2)) => lex(
                    s,
                    step_to(j, i + 1, s.len() as int),
                    l2,
                    c2,
                    acc.push(TokenModel::StringLit(content)),
                ),
                Err(e) => Err(e),
            }
        } else if '1' <= c && c <= '9' {
            let j = step_to(run_end(s, i + 1, pred_digit()), i + 1, s.len() as int);
            let whole = literal_int(s.subrange(i, j), 10);
            if j < s.len() && s[j] == '.' {
                let fj = step_to(run_end(s, j + 1, pred_digit()), j + 1, s.len() as int);
                lex(
                    s,
                    fj,
                    line,
                    col + (fj - i),
                    acc.push(
                        TokenModel::Num(
                            NumModel { whole, frac: frac_digits(s.subrange(j + 1, fj)) },
                        ),
                    ),
                )
            } else if j < s.len() && s[j] == 'f' {
                lex(
                    s,
                    j + 1,
                    line,
                    col + (j + 1 - i),
                    acc.push(TokenModel::Num(NumModel { whole, frac: Seq::empty() })),
                )
            } else {
                lex(s, j, line, col + (j - i), acc.push(TokenModel::Int(whole)))
            }
        } else if c == '0' {
            if two && s[i + 1] == 'x' {
                let j = step_to(run_end(s, i + 2, pred_hex()), i + 2, s.len() as int);
                let v = literal_int(s.subrange(i + 2, j), 16);
                lex(s, j, line, col + (j - i), acc.push(TokenModel::Int(v)))
            } else if two && s[i + 1] == 'b' {
                let j = step_to(run_end(s, i + 2, pred_bin()), i + 2, s.len() as int);
                let v = literal_int(s.subrange(i + 2, j), 2);
                if j < s.len() && s[j] == 'f' {
                    lex(
                        s,
                        j + 1,
                        line,
                        col + (j + 1 - i),
                        acc.push(TokenModel::Num(NumModel { whole: v, frac: Seq::empty() })),
                    )
                } else {
                    lex(s, j, line, col + (j - i), acc.push(TokenModel::Int(v)))
                }
            } else if two && s[i + 1] == '.' {
                let fj = step_to(run_end(s, i + 2, pred_digit()), i + 2, s.len() as int);
                lex(
                    s,
                    fj,
                    line,
                    col + (fj - i),
                    acc.push(
                        TokenModel::Num(
                            NumModel { whole: 0, frac: frac_digits(s.subrange(i + 2, fj)) },
                        ),
                    ),
                )
            } else if two && s[i + 1] == 'f' {
                lex(
                    s,
                    i + 2,
                    line,
                    col + 2,
                    acc.push(TokenModel::Num(NumModel { whole: 0, frac: Seq::empty() })),
                )
            } else if two && is_digit(s[i + 1]) {
                lex(s, i + 1, line, col + 1, acc)
            } else {
                lex(s, i + 1, line, col + 1, acc.push(TokenModel::Int(0)))
            }
        } else {
            Err(ExceptionModel::UnrecognizedToken(Seq::empty().push(c), line, col + 1))
        }
    }
}

/// What lexing a whole text yields: the models of its tokens in order, or
/// the one diagnostic that stops the scan. Lines are counted from 1,
/// columns from 0, every consumed character advancing the column and every
/// newline starting the next line.
pub open spec fn spec_tokenize(s: Seq<char>) -> Result<Seq<TokenModel>, ExceptionModel> {
    lex(s, 0, 1, 0, Seq::empty())
}

/// Class codes naming the run predicates, for the shared run scanner.
pub const CLASS_IDENT: u8 = 1;

pub const CLASS_DIGIT: u8 = 2;

pub const CLASS_HEX: u8 = 3;

pub const CLASS_BIN: u8 = 4;

pub const CLASS_NOT_NEWLINE: u8 = 5;

/// The run predicate a class code names.
pub open spec fn class_pred(k: u8) -> spec_fn(char) -> bool {
    if k == CLASS_IDENT {
        pred_ident()
    } else if k == CLASS_DIGIT {
        pred_digit()
    } else if k == CLASS_HEX {
        pred_hex()
    } else if k == CLASS_BIN {
        pred_bin()
    } else {
        pred_not_newline()
    }
}

/// Decides the named class predicate on one character.
fn char_in_class(c: char, k: u8) -> (b: bool)
    ensures
        b == class_pred(k)(c),
{
    if k == CLASS_IDENT {
        ('a' <= c && c <= 'z') || ('A' <= c && c <= 'Z') || ('0' <= c && c <= '9') || c == '_'
    } else if k == CLASS_DIGIT {
        '0' <= c && c <= '9'
    } else if k == CLASS_HEX {
        ('0' <= c && c <= '9') || ('a' <= c && c <= 'f') || ('A' <= c && c <= 'F')
    } else if k == CLASS_BIN {
        c == '0' || c == '1'
    } else {
        c != '\n'
    }
}

/// A run that covers `[start, j)` and stops at `j` ends exactly at `j`.
pub proof fn lemma_run_end_eq(s: Seq<char>, start: int, j: int, p: spec_fn(char) -> bool)
    requires
        0 <= start <= j <= s.len(),
        forall|m: int| start <= m < j ==> p(s[m]),
        j == s.len() || !p(s[j]),
    ensures
        run_end(s, start, p) == j,
    decreases j - start,
{
    if start < j {
        assert(p(s[start]));
        lemma_run_end_eq(s, start + 1, j, p);
    }
}

/// Finds the end of the run of class `k` that begins at `start`.
fn scan_run(input: &str, n: usize, start: usize, k: u8) -> (j: usize)
    requires
        n == input@.len(),
        start <= n,
    ensures
        start <= j <= n,
        j as int == run_end(input@, start as int, class_pred(k)),
        forall|m: int| start <= m < j ==> class_pred(k)(input@[m]),
{
    let mut j: usize = start;
    while j < n && char_in_class(input.get_char(j), k)
        invariant
            n == input@.len(),
            start <= j <= n,
            forall|m: int| start <= m < j ==> class_pred(k)(input@[m]),
        decreases n - j,
    {
        j += 1;
    }
    proof {
        lemma_run_end_eq(input@, start as int, j as int, class_pred(k));
    }
    j
}

/// The numeric value of one digit character.
fn digit_val_x(c: char) -> (d: u64)
    requires
        is_hex_digit(c),
    ensures
        d as int == digit_val(c),
{
    if '0' <= c && c <= '9' {
        ((c as u32) - 48) as u64
    } else if 'a' <= c && c <= 'f' {
        ((c as u32) - 87) as u64
    } else {
        ((c as u32) - 55) as u64
    }
}

/// Accumulates the digit run `[start, end)` in the given base, exactly as a
/// 64-bit register does: modulo 2^64.
fn run_value(input: &str, n: usize, start: usize, end: usize, base: u64, k: u8) -> (v: u64)
    requires
        n == input@.len(),
        start <= end <= n,
        k == CLASS_DIGIT || k == CLASS_HEX || k == CLASS_BIN,
        forall|m: int| start <= m < end ==> class_pred(k)(input@[m]),
    ensures
        v as int == wrapped64(digits_value(input@.subrange(start as int, end as int), base as int)),
{
    let ghost s = input@;
    let mut acc: u64 = 0;
    let mut m: usize = start;
    proof {
        assert(s.subrange(start as int, start as int) =~= Seq::<char>::empty());
    }
    while m < end
        invariant
            n == input@.len(),
            s == input@,
            start <= m <= end <= n,
            k == CLASS_DIGIT || k == CLASS_HEX || k == CLASS_BIN,
            forall|m2: int| start <= m2 < end ==> class_pred(k)(s[m2]),
            acc as int == wrapped64(digits_value(s.subrange(start as int, m as int), base as int)),
        decreases end - m,
    {
        let c = input.get_char(m);
        proof {
            assert(class_pred(k)(s[m as int]));
            assert(is_hex_digit(c));
        }
        let d = digit_val_x(c);
        let ghost prefix = s.subrange(start as int, m as int);
        let ghost longer = s.subrange(start as int, m as int + 1);
        let ghost big = digits_value(prefix, base as int);
        let acc2 = acc.wrapping_mul(base);
        let acc3 = acc2.wrapping_add(d);
        proof {
            assert(longer.drop_last() =~= prefix);
            assert(longer.last() == s[m as int]);
            assert(digits_value(longer, base as int) == big * base + digit_val(s[m as int]));
            assert(acc2 as int == (acc as int * base as int) % 0x10000000000000000) by {
                assert(acc2 == vstd::wrapping::u64_specs::wrapping_mul(acc, base));
            };
            vstd::arithmetic::div_mod::lemma_mul_mod_noop_left(big, base as int, 0x10000000000000000);
            assert(acc2 as int == (big * base) % 0x10000000000000000);
            assert(acc3 as int == (acc2 as int + d as int) % 0x10000000000000000) by {
                if acc2 as int + d as int > u64::MAX as int {
                    vstd::arithmetic::div_mod::lemma_mod_multiples_vanish(
                        1,
                        acc2 as int + d as int - 0x10000000000000000,
                        0x10000000000000000,
                    );
                    vstd::arithmetic::div_mod::lemma_small_mod(
                        (acc2 as int + d as int - 0x10000000000000000) as nat,
                        0x10000000000000000 as nat,
                    );
                } else {
                    vstd::arithmetic::div_mod::lemma_small_mod(
                        (acc2 as int + d as int) as nat,
                        0x10000000000000000 as nat,
                    );
                }
            };
            vstd::arithmetic::div_mod::lemma_add_mod_noop(big * base, d as int, 0x10000000000000000);
            vstd::arithmetic::div_mod::lemma_small_mod(d as nat, 0x10000000000000000 as nat);
            assert(acc3 as int == (big * base + digit_val(s[m as int])) % 0x10000000000000000);
        }
        acc = acc3;
        m += 1;
    }
    proof {
        assert(s.subrange(start as int, m as int) == s.subrange(start as int, end as int));
    }
    acc
}

/// Reinterprets a 64-bit register's contents as a signed value, in two's
/// complement.
fn to_signed(v: u64) -> (r: i64)
    ensures
        r as int == as_i64(v as int),
{
    if v <= 0x7fffffffffffffff {
        v as i64
    } else {
        let hi = 0xffffffffffffffffu64 - v;
        -(hi as i64) - 1
    }
}

/// Collects the digit values of the decimal run `[start, end)`.
fn frac_vec(input: &str, n: usize, start: usize, end: usize) -> (v: Vec<u8>)
    requires
        n == input@.len(),
        start <= end <= n,
        forall|m: int| start <= m < end ==> class_pred(CLASS_DIGIT)(input@[m]),
    ensures
        v@ == frac_digits(input@.subrange(start as int, end as int)),
{
    let ghost s = input@;
    let mut v: Vec<u8> = Vec::new();
    let mut m: usize = start;
    proof {
        assert(v@ =~= frac_digits(s.subrange(start as int, start as int)));
    }
    while m < end
        invariant
            n == input@.len(),
            s == input@,
            start <= m <= end <= n,
            forall|m2: int| start <= m2 < end ==> class_pred(CLASS_DIGIT)(s[m2]),
            v@ == frac_digits(s.subrange(start as int, m as int)),
        decreases end - m,
    {
        let c = input.get_char(m);
        proof {
            assert(class_pred(CLASS_DIGIT)(s[m as int]));
            assert(is_digit(c));
        }
        let d = digit_val_x(c);
        v.push(d as u8);
        proof {
            assert(v@ =~= frac_digits(s.subrange(start as int, m as int + 1)));
        }
        m += 1;
    }
    proof {
        assert(s.subrange(start as int, m as int) == s.subrange(start as int, end as int));
    }
    v
}

/// Scans a string literal's inside, from just after the opening quote,
/// decoding escapes, exactly as [`scan_string`] describes.
fn scan_string_x(
    input: &str,
    n: usize,
    i: usize,
    q: char,
    line: usize,
    col: usize,
    sl: usize,
    sc: usize,
) -> (r: Result<(String, usize, usize, usize), CompileException>)
    requires
        n == input@.len(),
        n < usize::MAX,
        i <= n,
        col <= i,
        line <= 1 + i,
    ensures
        match r {
            Ok(done) => scan_string(
                input@,
                i as int,
                q,
                line as int,
                col as int,
                sl as int,
                sc as int,
                Seq::empty(),
            ) == Ok::<_, ExceptionModel>((done.0@, done.1 as int, done.2 as int, done.3 as int))
                && i <= done.1 <= n && done.3 <= done.1 && done.2 <= 1 + done.1,
            Err(e) => scan_string(
                input@,
                i as int,
                q,
                line as int,
                col as int,
                sl as int,
                sc as int,
                Seq::empty(),
            ) == Err::<(Seq<char>, int, int, int), _>(e@),
        },
{
    let ghost s = input@;
    let mut content = String::new();
    let mut cur: usize = i;
    let mut l: usize = line;
    let mut c: usize = col;
    loop
        invariant
            n == input@.len(),
            s == input@,
            n < usize::MAX,
            i <= cur <= n,
            c <= cur,
            l <= 1 + cur,
            scan_string(s, cur as int, q, l as int, c as int, sl as int, sc as int, content@)
                == scan_string(
                s,
                i as int,
                q,
                line as int,
                col as int,
                sl as int,
                sc as int,
                Seq::empty(),
            ),
        decreases n - cur,
    {
        if cur >= n {
            return Err(CompileException::UnfinishedString(sl, sc));
        }
        let ch = input.get_char(cur);
        if ch == q {
            return Ok((content, cur + 1, l, c + 1));
        }
        if ch == '\\' {
            if cur + 1 >= n {
                return Err(CompileException::UnrecognizedEscape(l, c + 1));
            }
            let e = input.get_char(cur + 1);
            let decoded = if e == 'n' {
                '\n'
            } else if e == 't' {
                '\t'
            } else {
                e
            };
            content.push(decoded);
            if e == '\n' {
                l += 1;
                c = 0;
            } else {
                c += 2;
            }
            cur += 2;
        } else {
            content.push(ch);
            if ch == '\n' {
                l += 1;
                c = 0;
            } else {
                c += 1;
            }
            cur += 1;
        }
    }
}

/// Scans a block comment's inside, from just after the opening `/*`, exactly
/// as [`scan_block_comment`] describes.
fn scan_block_x(input: &str, n: usize, i: usize, line: usize, col: usize) -> (r: Option<
    (usize, usize, usize),
>)
    requires
        n == input@.len(),
        n < usize::MAX,
        i <= n,
        col <= i,
        line <= 1 + i,
    ensures
        match r {
            Some(done) => scan_block_comment(input@, i as int, line as int, col as int) == Some(
                (done.0 as int, done.1 as int, done.2 as int),
            ) && i <= done.0 <= n && done.2 <= done.0 && done.1 <= 1 + done.0,
            None => scan_block_comment(input@, i as int, line as int, col as int) is None,
        },
{
    let ghost s = input@;
    let mut cur: usize = i;
    let mut l: usize = line;
    let mut c: usize = col;
    loop
        invariant
            n == input@.len(),
            s == input@,
            n < usize::MAX,
            i <= cur <= n,
            c <= cur,
            l <= 1 + cur,
            scan_block_comment(s, cur as int, l as int, c as int) == scan_block_comment(
                s,
                i as int,
                line as int,
                col as int,
            ),
        decreases n - cur,
    {
        if cur >= n {
            return None;
        }
        let ch = input.get_char(cur);
        if ch == '*' && cur + 1 < n && input.get_char(cur + 1) == '/' {
            return Some((cur + 2, l, c + 2));
        }
        if ch == '\n' {
            l += 1;
            c = 0;
        } else {
            c += 1;
        }
        cur += 1;
    }
}

/// The token a lowercase-leading word denotes, per [`keyword_token`].
fn keyword_of(w: String) -> (t: Token)
    ensures
        t@ == keyword_token(w@),
{
    if crate::strutil::string_eq_text(&w, "fn") {
        Token::FuncDef
    } else if crate::strutil::string_eq_text(&w, "pc") {
        Token::ProcDef
    } else if crate::strutil::string_eq_text(&w, "struct") {
        Token::StructDef
    } else if crate::strutil::string_eq_text(&w, "trait") {
        Token::TraitDef
    } else if crate::strutil::string_eq_text(&w, "enum") {
        Token::EnumDef
    } else if crate::strutil::string_eq_text(&w, "group") {
        Token::GroupDef
    } else if crate::strutil::string_eq_text(&w, "private") {
        Token::Private
    } else if crate::strutil::string_eq_text(&w, "let") {
        Token::Let
    } else if crate::strutil::string_eq_text(&w, "const") {
        Token::Const
    } else if crate::strutil::string_eq_text(&w, "self") {
        Token::SelfIdent
    } else if crate::strutil::string_eq_text(&w, "import") {
        Token::Import
    } else if crate::strutil::string_eq_text(&w, "impl") {
        Token::Implementation
    } else if crate::strutil::string_eq_text(&w, "in") {
        Token::In
    } else if crate::strutil::string_eq_text(&w, "for") {
        Token::For
    } else if crate::strutil::string_eq_text(&w, "while") {
        Token::While
    } else if crate::strutil::string_eq_text(&w, "if") {
        Token::If
    } else if crate::strutil::string_eq_text(&w, "else") {
        Token::Else
    } else {
        Token::Identifier(w)
    }
}

/// The token an uppercase-leading word denotes, per [`type_token`].
fn type_of(w: String) -> (t: Token)
    ensures
        t@ == type_token(w@),
{
    if crate::strutil::string_eq_text(&w, "Self") {
        Token::SelfType
    } else {
        Token::Type(w)
    }
}

/// The models of a token sequence, element by element.
pub open spec fn token_views(ts: Seq<Token>) -> Seq<TokenModel> {
    ts.map_values(|t: Token| t@)
}

/// Appending a token and then taking models is taking models and appending
/// the token's model.
pub broadcast proof fn lemma_token_views_push(ts: Seq<Token>, t: Token)
    ensures
        #[trigger] token_views(ts.push(t)) == token_views(ts).push(t@),
{
    assert(token_views(ts.push(t)) =~= token_views(ts).push(t@));
}

/// Appends one token, keeping track of the models of the whole sequence.
fn push_tok(out: &mut Vec<Token>, t: Token)
    ensures
        final(out)@ == old(out)@.push(t),
        token_views(final(out)@) == token_views(old(out)@).push(t@),
{
    let ghost before = out@;
    out.push(t);
    proof {
        lemma_token_views_push(before, t);
    }
}

/// Lexes one file's whole text: returns its ordered token sequence, or the
/// one diagnostic that stops the scan — exactly what [`spec_tokenize`] says
/// of the text, token for token.
///
/// The length bound only keeps the internal line counter inside a machine
/// word; any real text satisfies it.
#[verifier::rlimit(60)]
pub fn tokenize(input: &str) -> (r: Result<Vec<Token>, CompileException>)
    requires
        input@.len() < usize::MAX,
    ensures
        match r {
            Ok(toks) => spec_tokenize(input@) == Ok::<_, ExceptionModel>(token_views(toks@)),
            Err(e) => spec_tokenize(input@) == Err::<Seq<TokenModel>, _>(e@),
        },
{
    broadcast use lemma_token_views_push;

    let ghost s = input@;
    let n = input.unicode_len();
    let mut out: Vec<Token> = Vec::new();
    let mut i: usize = 0;
    let mut line: usize = 1;
    let mut col: usize = 0;
    proof {
        assert(token_views(out@) =~= Seq::<TokenModel>::empty());
    }
    while i < n
        invariant
            n == input@.len(),
            s == input@,
            n < usize::MAX,
            i <= n,
            col <= i,
            line <= 1 + i,
            lex(s, i as int, line as int, col as int, token_views(out@)) == spec_tokenize(s),
        decreases n - i,
    {
        let ghost i0 = i as int;
        let ghost l0 = line as int;
        let ghost c0 = col as int;
        let ghost acc0 = token_views(out@);
        let ghost pre = lex(s, i0, l0, c0, acc0);
        let c = input.get_char(i);
        if c == '+' {
            if i + 1 < n && input.get_char(i + 1) == '=' {
                push_tok(&mut out, Token::PlusAssign);
                i += 2;
                col += 2;
            } else if i + 1 < n && input.get_char(i + 1) == '+' {
                push_tok(&mut out, Token::Increment);
                i += 2;
                col += 2;
            } else {
                push_tok(&mut out, Token::Plus);
                i += 1;
                col += 1;
            }
            proof {
                assert(lex(s, i as int, line as int, col as int, token_views(out@)) == pre);
            }
        } else if c == '-' {
            if i + 1 < n && input.get_char(i + 1) == '=' {
                push_tok(&mut out, Token::MinusAssign);
                i += 2;
                col += 2;
            } else if i + 1 < n && input.get_char(i + 1) == '-' {
                push_tok(&mut out, Token::Decrement);
                i += 2;
                col += 2;
            } else {
                push_tok(&mut out, Token::Minus);
                i += 1;
                col += 1;
            }
            proof {
                assert(lex(s, i as int, line as int, col as int, token_views(out@)) == pre);
            }
        } else if c == '*' {
            if i + 1 < n && input.get_char(i + 1) == '=' {
                push_tok(&mut out, Token::MultiplyAssign);
                i += 2;
                col += 2;
            } else {
                push_tok(&mut out, Token::Multiply);
                i += 1;
                col += 1;
            }
            proof {
                assert(lex(s, i as int, line as int, col as int, token_views(out@)) == pre);
            }
        } else if c == '/' {
            if i + 1 < n && input.get_char(i + 1) == '=' {
                push_tok(&mut out, Token::DivideAssign);
                i += 2;
                col += 2;
            } else if i + 1 < n && input.get_char(i + 1) == '/' {
                let j = scan_run(input, n, i + 2, CLASS_NOT_NEWLINE);
                if j >= n {
                    let d = j - i;
                    col += d;
                    i = j;
                } else {
                    line += 1;
                    col = 0;
                    i = j + 1;
                }
            } else if i + 1 < n && input.get_char(i + 1) == '*' {
                match scan_block_x(input, n, i + 2, line, col + 2) {
                    Some(done) => {
                        i = done.0;
                        line = done.1;
                        col = done.2;
                    },
                    None => {
                        return Err(
                            CompileException::UnrecognizedToken(
                                String::from_str("/*"),
                                line,
                                col + 1,
                            ),
                        );
                    },
                }
            } else {
                push_tok(&mut out, Token::Divide);
                i += 1;
                col += 1;
            }
            proof {
                assert(lex(s, i as int, line as int, col as int, token_views(out@)) == pre);
            }
        } else if c == '%' {
            if i + 1 < n && input.get_char(i + 1) == '=' {
                push_tok(&mut out, Token::ModAssign);
                i += 2;
                col += 2;
            } else {
                push_tok(&mut out, Token::Mod);
                i += 1;
                col += 1;
            }
            proof {
                assert(lex(s, i as int, line as int, col as int, token_views(out@)) == pre);
            }
        } else if c == '&' {
            if i + 1 < n && input.get_char(i + 1) == '&' {
                push_tok(&mut out, Token::StrictAnd);
                i += 2;
                col += 2;
            } else {
                push_tok(&mut out, Token::And);
                i += 1;
                col += 1;
            }
            proof {
                assert(lex(s, i as int, line as int, col as int, token_views(out@)) == pre);
            }
        } else if c == '|' {
            if i + 1 < n && input.get_char(i + 1) == '|' {
                push_tok(&mut out, Token::StrictOr);
                i += 2;
                col += 2;
            } else {
                push_tok(&mut out, Token::Or);
                i += 1;
                col += 1;
            }
            proof {
                assert(lex(s, i as int, line as int, col as int, token_views(out@)) == pre);
            }
        } else if c == '=' {
            if i + 1 < n && input.get_char(i + 1) == '=' {
                push_tok(&mut out, Token::Equals);
                i += 2;
                col += 2;
            } else if i + 1 < n && input.get_char(i + 1) == '>' {
                push_tok(&mut out, Token::FatArrow);
                i += 2;
                col += 2;
            } else {
                push_tok(&mut out, Token::Assign);
                i += 1;
                col += 1;
            }
            proof {
                assert(lex(s, i as int, line as int, col as int, token_views(out@)) == pre);
            }
        } else if c == '>' {
            if i + 1 < n && input.get_char(i + 1) == '=' {
                push_tok(&mut out, Token::GreaterEqual);
                i += 2;
                col += 2;
            } else {
                push_tok(&mut out, Token::Greater);
                i += 1;
                col += 1;
            }
            proof {
                assert(lex(s, i as int, line as int, col as int, token_views(out@)) == pre);
            }
        } else if c == '<' {
            if i + 1 < n && input.get_char(i + 1) == '=' {
                push_tok(&mut out, Token::LessEqual);
                i += 2;
                col += 2;
            } else {
                push_tok(&mut out, Token::Less);
                i += 1;
                col += 1;
            }
            proof {
                assert(lex(s, i as int, line as int, col as int, token_views(out@)) == pre);
            }
        } else if c == ':' {
            if i + 1 < n && input.get_char(i + 1) == ':' {
                push_tok(&mut out, Token::Accesser);
                i += 2;
                col += 2;
            } else {
                push_tok(&mut out, Token::Colon);
                i += 1;
                col += 1;
            }
            proof {
                assert(lex(s, i as int, line as int, col as int, token_views(out@)) == pre);
            }
        } else if c == '!' {
            if i + 1 < n && input.get_char(i + 1) == '=' {
                push_tok(&mut out, Token::NotEqual);
                i += 2;
                col += 2;
            } else {
                push_tok(&mut out, Token::Not);
                i += 1;
                col += 1;
            }
            proof {
                assert(lex(s, i as int, line as int, col as int, token_views(out@)) == pre);
            }
        } else if c == '^' {
            push_tok(&mut out, Token::Xor);
            i += 1;
            col += 1;
            proof {
                assert(lex(s, i as int, line as int, col as int, token_views(out@)) == pre);
            }
        } else if c == ',' {
            push_tok(&mut out, Token::Comma);
            i += 1;
            col += 1;
            proof {
                assert(lex(s, i as int, line as int, col as int, token_views(out@)) == pre);
            }
        } else if c == '.' {
            push_tok(&mut out, Token::Dot);
            i += 1;
            col += 1;
            proof {
                assert(lex(s, i as int, line as int, col as int, token_views(out@)) == pre);
            }
        } else if c == '(' {
            push_tok(&mut out, Token::OpenParen);
            i += 1;
            col += 1;
            proof {
                assert(lex(s, i as int, line as int, col as int, token_views(out@)) == pre);
            }
        } else if c == ')' {
            push_tok(&mut out, Token::CloseParen);
            i += 1;
            col += 1;
            proof {
                assert(lex(s, i as int, line as int, col as int, token_views(out@)) == pre);
            }
        } else if c == '[' {
            push_tok(&mut out, Token::OpenBracket);
            i += 1;
            col += 1;
            proof {
                assert(lex(s, i as int, line as int, col as int, token_views(out@)) == pre);
            }
        } else if c == ']' {
            push_tok(&mut out, Token::CloseBracket);
            i += 1;
            col += 1;
            proof {
                assert(lex(s, i as int, line as int, col as int, token_views(out@)) == pre);
            }
        } else if c == '{' {
            push_tok(&mut out, Token::OpenBrace);
            i += 1;
            col += 1;
            proof {
                assert(lex(s, i as int, line as int, col as int, token_views(out@)) == pre);
            }
        } else if c == '}' {
            push_tok(&mut out, Token::CloseBrace);
            i += 1;
            col += 1;
            proof {
                assert(lex(s, i as int, line as int, col as int, token_views(out@)) == pre);
            }
        } else if c == '\n' {
            line += 1;
            col = 0;
            i += 1;
            proof {
                assert(lex(s, i as int, line as int, col as int, token_views(out@)) == pre);
            }
        } else if c == ' ' {
            col += 1;
            i += 1;
            proof {
                assert(lex(s, i as int, line as int, col as int, token_views(out@)) == pre);
            }
        } else if 'a' <= c && c <= 'z' {
            let j = scan_run(input, n, i + 1, CLASS_IDENT);
            let w = input.substring_char(i, j).to_owned();
            let t = keyword_of(w);
            push_tok(&mut out, t);
            let d = j - i;
            col += d;
            i = j;
            proof {
                assert(lex(s, i as int, line as int, col as int, token_views(out@)) == pre);
            }
        } else if 'A' <= c && c <= 'Z' {
            let j = scan_run(input, n, i + 1, CLASS_IDENT);
            let w = input.substring_char(i, j).to_owned();
            let t = type_of(w);
            push_tok(&mut out, t);
            let d = j - i;
            col += d;
            i = j;
            proof {
                assert(lex(s, i as int, line as int, col as int, token_views(out@)) == pre);
            }
        } else if c == '@' {
            let j = scan_run(input, n, i + 1, CLASS_IDENT);
            let w = input.substring_char(i + 1, j).to_owned();
            push_tok(&mut out, Token::Annotation(w));
            let d = j - i;
            col += d;
            i = j;
            proof {
                assert(lex(s, i as int, line as int, col as int, token_views(out@)) == pre);
            }
        } else if c == '"' || c == '\'' {
            match scan_string_x(input, n, i + 1, c, line, col + 1, line, col + 1) {
                Ok(done) => {
                    push_tok(&mut out, Token::StringLit(done.0));
                    i = done.1;
                    line = done.2;
                    col = done.3;
                },
                Err(e) => {
                    return Err(e);
                },
            }
            proof {
                assert(lex(s, i as int, line as int, col as int, token_views(out@)) == pre);
            }
        } else if '1' <= c && c <= '9' {
            let j = scan_run(input, n, i + 1, CLASS_DIGIT);
            proof {
                assert(class_pred(CLASS_DIGIT)(s[i as int]));
            }
            let v = to_signed(run_value(input, n, i, j, 10, CLASS_DIGIT));
            if j < n && input.get_char(j) == '.' {
                let fj = scan_run(input, n, j + 1, CLASS_DIGIT);
                let fr = frac_vec(input, n, j + 1, fj);
                push_tok(&mut out, Token::Num(NumLit { whole: v, frac: fr }));
                let d = fj - i;
                col += d;
                i = fj;
            } else if j < n && input.get_char(j) == 'f' {
                push_tok(&mut out, Token::Num(NumLit { whole: v, frac: Vec::new() }));
                let d = j + 1 - i;
                col += d;
                i = j + 1;
            } else {
                push_tok(&mut out, Token::Int(v));
                let d = j - i;
                col += d;
                i = j;
            }
            proof {
                assert(lex(s, i as int, line as int, col as int, token_views(out@)) == pre);
            }
        } else if c == '0' {
            if i + 1 < n && input.get_char(i + 1) == 'x' {
                let j = scan_run(input, n, i + 2, CLASS_HEX);
                let v = to_signed(run_value(input, n, i + 2, j, 16, CLASS_HEX));
                push_tok(&mut out, Token::Int(v));
                let d = j - i;
                col += d;
                i = j;
            } else if i + 1 < n && input.get_char(i + 1) == 'b' {
                let j = scan_run(input, n, i + 2, CLASS_BIN);
                let v = to_signed(run_value(input, n, i + 2, j, 2, CLASS_BIN));
                if j < n && input.get_char(j) == 'f' {
                    push_tok(&mut out, Token::Num(NumLit { whole: v, frac: Vec::new() }));
                    let d = j + 1 - i;
                    col += d;
                    i = j + 1;
                } else {
                    push_tok(&mut out, Token::Int(v));
                    let d = j - i;
                    col += d;
                    i = j;
                }
            } else if i + 1 < n && input.get_char(i + 1) == '.' {
                let fj = scan_run(input, n, i + 2, CLASS_DIGIT);
                let fr = frac_vec(input, n, i + 2, fj);
                push_tok(&mut out, Token::Num(NumLit { whole: 0, frac: fr }));
                let d = fj - i;
                col += d;
                i = fj;
            } else if i + 1 < n && input.get_char(i + 1) == 'f' {
                push_tok(&mut out, Token::Num(NumLit { whole: 0, frac: Vec::new() }));
                col += 2;
                i += 2;
            } else if i + 1 < n && char_in_class(input.get_char(i + 1), CLASS_DIGIT) {
                col += 1;
                i += 1;
            } else {
                push_tok(&mut out, Token::Int(0));
                col += 1;
                i += 1;
            }
        } else {
            let mut text = String::new();
            text.push(c);
            proof {
                assert(text@ =~= Seq::<char>::empty().push(c));
            }
            return Err(CompileException::UnrecognizedToken(text, line, col + 1));
        }
        proof {
            assert(lex(s, i as int, line as int, col as int, token_views(out@)) == pre);
        }
    }
    Ok(out)
}

} // verus!
