//! Laws of the front end: properties that hold of whole families of inputs,
//! stated and proved once and for all.

use vstd::prelude::*;

use crate::diagnostics::{CompileException, ExceptionModel};
use crate::lexer::{
    digits_value, is_digit, is_hex_digit, lemma_run_end_eq, lex, pred_digit, pred_hex,
    spec_tokenize, token_views, tokenize,
};
use crate::files::insert_all;
use crate::table::{ResourceModel, UncompiledResourceType};
use crate::token::{Token, TokenModel};

verus! {

/// Law: the lexer is a pure function of the input text. Any two results of
/// [`tokenize`] on the same text are the same token sequence, model for
/// model, or the same diagnostic.
pub proof fn tokenize_is_pure(
    input: &str,
    r1: Result<Vec<Token>, CompileException>,
    r2: Result<Vec<Token>, CompileException>,
)
    requires
        call_ensures(tokenize, (input,), r1),
        call_ensures(tokenize, (input,), r2),
    ensures
        match (r1, r2) {
            (Ok(a), Ok(b)) => token_views(a@) == token_views(b@),
            (Err(a), Err(b)) => a@ == b@,
            _ => false,
        },
{
}

/// The compound token two adjacent characters form, if they form one.
pub open spec fn compound_op(c1: char, c2: char) -> Option<TokenModel> {
    if c1 == '+' && c2 == '=' {
        Some(TokenModel::PlusAssign)
    } else if c1 == '+' && c2 == '+' {
        Some(TokenModel::Increment)
    } else if c1 == '-' && c2 == '=' {
        Some(TokenModel::MinusAssign)
    } else if c1 == '-' && c2 == '-' {
        Some(TokenModel::Decrement)
    } else if c1 == '*' && c2 == '=' {
        Some(TokenModel::MultiplyAssign)
    } else if c1 == '/' && c2 == '=' {
        Some(TokenModel::DivideAssign)
    } else if c1 == '%' && c2 == '=' {
        Some(TokenModel::ModAssign)
    } else if c1 == '&' && c2 == '&' {
        Some(TokenModel::StrictAnd)
    } else if c1 == '|' && c2 == '|' {
        Some(TokenModel::StrictOr)
    } else if c1 == '=' && c2 == '=' {
        Some(TokenModel::Equals)
    } else if c1 == '=' && c2 == '>' {
        Some(TokenModel::FatArrow)
    } else if c1 == '>' && c2 == '=' {
        Some(TokenModel::GreaterEqual)
    } else if c1 == '<' && c2 == '=' {
        Some(TokenModel::LessEqual)
    } else if c1 == ':' && c2 == ':' {
        Some(TokenModel::Accesser)
    } else if c1 == '!' && c2 == '=' {
        Some(TokenModel::NotEqual)
    } else {
        None
    }
}

/// Law: the lexer prefers the longest match. A text of exactly the two
/// characters of any compound operator lexes to that one compound token,
/// never to the two single-character tokens.
pub proof fn lexer_prefers_longest_match(c1: char, c2: char)
    requires
        compound_op(c1, c2) is Some,
    ensures
        spec_tokenize(seq![c1, c2]) == Ok::<Seq<TokenModel>, ExceptionModel>(
            seq![compound_op(c1, c2).unwrap()],
        ),
{
    let s = seq![c1, c2];
    let t = compound_op(c1, c2).unwrap();
    reveal_with_fuel(lex, 3);
    assert(s.len() == 2 && s[0] == c1 && s[1] == c2);
    assert(Seq::<TokenModel>::empty().push(t) =~= seq![t]);
    assert(spec_tokenize(s) == Ok::<Seq<TokenModel>, ExceptionModel>(seq![t]));
}

/// A sequence of digit characters has a non-negative value in any base from
/// one up.
pub proof fn lemma_digits_value_nonneg(ds: Seq<char>, base: int)
    requires
        base >= 1,
    ensures
        digits_value(ds, base) >= 0,
    decreases ds.len(),
{
    if ds.len() > 0 {
        lemma_digits_value_nonneg(ds.drop_last(), base);
        vstd::arithmetic::mul::lemma_mul_nonnegative(digits_value(ds.drop_last(), base), base);
    }
}

/// Law: a decimal integer literal with no leading zero lexes to one integer
/// token whose value is the mathematical value of its digits, whenever that
/// value fits a signed 64-bit word.
pub proof fn decimal_literal_value(s: Seq<char>)
    requires
        s.len() > 0,
        forall|k: int| 0 <= k < s.len() ==> is_digit(#[trigger] s[k]),
        s[0] != '0',
        digits_value(s, 10) <= i64::MAX,
    ensures
        spec_tokenize(s) == Ok::<Seq<TokenModel>, ExceptionModel>(
            seq![TokenModel::Int(digits_value(s, 10))],
        ),
{
    reveal_with_fuel(lex, 3);
    assert(forall|m: int| 1 <= m < s.len() ==> #[trigger] pred_digit()(s[m]));
    lemma_run_end_eq(s, 1, s.len() as int, pred_digit());
    lemma_digits_value_nonneg(s, 10);
    assert(s.subrange(0, s.len() as int) =~= s);
    vstd::arithmetic::div_mod::lemma_small_mod(
        digits_value(s, 10) as nat,
        0x10000000000000000 as nat,
    );
    assert(Seq::<TokenModel>::empty().push(TokenModel::Int(digits_value(s, 10))) =~= seq![
        TokenModel::Int(digits_value(s, 10)),
    ]);
    assert(spec_tokenize(s) == Ok::<Seq<TokenModel>, ExceptionModel>(
        seq![TokenModel::Int(digits_value(s, 10))],
    ));
}

/// Law: a hexadecimal literal `0x` followed by hex digits lexes to one
/// integer token holding the base-16 value of those digits, whenever that
/// value fits a signed 64-bit word.
pub proof fn hex_literal_value(s: Seq<char>)
    requires
        s.len() > 2,
        s[0] == '0',
        s[1] == 'x',
        forall|k: int| 2 <= k < s.len() ==> is_hex_digit(#[trigger] s[k]),
        digits_value(s.subrange(2, s.len() as int), 16) <= i64::MAX,
    ensures
        spec_tokenize(s) == Ok::<Seq<TokenModel>, ExceptionModel>(
            seq![TokenModel::Int(digits_value(s.subrange(2, s.len() as int), 16))],
        ),
{
    reveal_with_fuel(lex, 3);
    let ds = s.subrange(2, s.len() as int);
    assert(forall|m: int| 2 <= m < s.len() ==> #[trigger] pred_hex()(s[m]));
    lemma_run_end_eq(s, 2, s.len() as int, pred_hex());
    lemma_digits_value_nonneg(ds, 16);
    vstd::arithmetic::div_mod::lemma_small_mod(
        digits_value(ds, 16) as nat,
        0x10000000000000000 as nat,
    );
    assert(Seq::<TokenModel>::empty().push(TokenModel::Int(digits_value(ds, 16))) =~= seq![
        TokenModel::Int(digits_value(ds, 16)),
    ]);
    assert(spec_tokenize(s) == Ok::<Seq<TokenModel>, ExceptionModel>(
        seq![TokenModel::Int(digits_value(ds, 16))],
    ));
}

/// Law: a binary literal `0b` followed by binary digits lexes to one integer
/// token holding the base-2 value of those digits, whenever that value fits
/// a signed 64-bit word.
pub proof fn binary_literal_value(s: Seq<char>)
    requires
        s.len() > 2,
        s[0] == '0',
        s[1] == 'b',
        forall|k: int| 2 <= k < s.len() ==> crate::lexer::is_bin_digit(#[trigger] s[k]),
        digits_value(s.subrange(2, s.len() as int), 2) <= i64::MAX,
    ensures
        spec_tokenize(s) == Ok::<Seq<TokenModel>, ExceptionModel>(
            seq![TokenModel::Int(digits_value(s.subrange(2, s.len() as int), 2))],
        ),
{
    reveal_with_fuel(lex, 3);
    let ds = s.subrange(2, s.len() as int);
    assert(forall|m: int| 2 <= m < s.len() ==> #[trigger] crate::lexer::pred_bin()(s[m]));
    lemma_run_end_eq(s, 2, s.len() as int, crate::lexer::pred_bin());
    lemma_digits_value_nonneg(ds, 2);
    vstd::arithmetic::div_mod::lemma_small_mod(
        digits_value(ds, 2) as nat,
        0x10000000000000000 as nat,
    );
    assert(Seq::<TokenModel>::empty().push(TokenModel::Int(digits_value(ds, 2))) =~= seq![
        TokenModel::Int(digits_value(ds, 2)),
    ]);
    assert(spec_tokenize(s) == Ok::<Seq<TokenModel>, ExceptionModel>(
        seq![TokenModel::Int(digits_value(ds, 2))],
    ));
}

/// Law: two declarations of the same fully-qualified name collide. With the
/// location still free, structuring a header list that declares `name` twice
/// under `loc` fails at the second declaration with exactly the full path
/// `loc::name`, and the table it leaves behind holds the first declaration's
/// stub at that path.
pub proof fn duplicate_declaration_keeps_first(
    m: Map<Seq<Seq<char>>, ResourceModel>,
    loc: Seq<Seq<char>>,
    name: Seq<char>,
    k1: UncompiledResourceType,
    k2: UncompiledResourceType,
)
    requires
        !m.contains_key(loc.push(name)),
    ensures
        ({
            let outcome = insert_all(m, loc, seq![(name, k1), (name, k2)], 0);
            let full = loc.push(name);
            outcome matches Err(pm) && pm.0 == full && pm.1.contains_key(full) && pm.1[full]
                == ResourceModel { loc: full, resource_type: k1 }
        }),
{
    reveal_with_fuel(insert_all, 3);
    let hs = seq![(name, k1), (name, k2)];
    assert(hs[0] == (name, k1) && hs[1] == (name, k2) && hs.len() == 2);
}

} // verus!
