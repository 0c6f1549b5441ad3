//! The script language's front end: tokens, the lexer, and the syntax check
//! that stands between receiving script text and executing it. A script is a
//! sequence of statements separated by `;`: declarations (`let x = e`,
//! `var x = e`), `throw new Name(e)`, and expressions over unsigned integers,
//! single-quoted strings, variables, single-argument calls, `+`, `-`, `*`
//! and parentheses. The lexer and checker are verified against spec-level
//! mirrors of themselves; the checker carries explicit fuel, so deeply
//! nested scripts beyond the fuel bound are rejected at compile time.

use vstd::prelude::*;

use crate::util::{chars_eq_str, chars_of};

verus! {

/// One token, as executable data.
pub enum Tok {
    LParen,
    RParen,
    Semi,
    Assign,
    Plus,
    Minus,
    Star,
    Num(u64),
    Str(Vec<char>),
    Ident(Vec<char>),
    KwLet,
    KwVar,
    KwThrow,
    KwNew,
}

/// One token, as mathematical data.
pub enum TokM {
    LParen,
    RParen,
    Semi,
    Assign,
    Plus,
    Minus,
    Star,
    Num(u64),
    Str(Seq<char>),
    Ident(Seq<char>),
    KwLet,
    KwVar,
    KwThrow,
    KwNew,
}

impl View for Tok {
    type V = TokM;

    open spec fn view(&self) -> TokM {
        match self {
            Tok::LParen => TokM::LParen,
            Tok::RParen => TokM::RParen,
            Tok::Semi => TokM::Semi,
            Tok::Assign => TokM::Assign,
            Tok::Plus => TokM::Plus,
            Tok::Minus => TokM::Minus,
            Tok::Star => TokM::Star,
            Tok::Num(n) => TokM::Num(*n),
            Tok::Str(s) => TokM::Str(s@),
            Tok::Ident(s) => TokM::Ident(s@),
            Tok::KwLet => TokM::KwLet,
            Tok::KwVar => TokM::KwVar,
            Tok::KwThrow => TokM::KwThrow,
            Tok::KwNew => TokM::KwNew,
        }
    }
}

/// The token sequence a token vector stands for.
pub open spec fn toks_view(ts: Seq<Tok>) -> Seq<TokM> {
    ts.map(|k: int, t: Tok| t@)
}

/// Whitespace between tokens.
pub open spec fn is_space_char(c: char) -> bool {
    c == ' ' || c == '\n' || c == '\t' || c == '\r'
}

/// A decimal digit.
pub open spec fn is_digit_char(c: char) -> bool {
    ('0' as u32) <= (c as u32) && (c as u32) <= ('9' as u32)
}

/// A character that may begin an identifier.
pub open spec fn is_ident_start_char(c: char) -> bool {
    (('a' as u32) <= (c as u32) && (c as u32) <= ('z' as u32)) || (('A' as u32) <= (c as u32) && (
    c as u32) <= ('Z' as u32)) || c == '_'
}

/// A character that may continue an identifier.
pub open spec fn is_ident_cont_char(c: char) -> bool {
    is_ident_start_char(c) || is_digit_char(c)
}

/// The numeric value of a digit character.
pub open spec fn digit_val(c: char) -> int {
    (c as u32) - ('0' as u32)
}

/// The end of the run of digits that starts at `i`.
pub open spec fn num_end(s: Seq<char>, i: int) -> int
    decreases s.len() - i
    when 0 <= i <= s.len()
{
    if i == s.len() {
        i
    } else if !is_digit_char(s[i]) {
        i
    } else {
        num_end(s, i + 1)
    }
}

proof fn lemma_num_end(s: Seq<char>, i: int)
    requires
        0 <= i <= s.len(),
    ensures
        i <= num_end(s, i) <= s.len(),
    decreases s.len() - i,
{
    if i < s.len() && is_digit_char(s[i]) {
        lemma_num_end(s, i + 1);
    }
}

/// The end of the run of identifier characters that starts at `i`.
pub open spec fn ident_end(s: Seq<char>, i: int) -> int
    decreases s.len() - i
    when 0 <= i <= s.len()
{
    if i == s.len() {
        i
    } else if !is_ident_cont_char(s[i]) {
        i
    } else {
        ident_end(s, i + 1)
    }
}

proof fn lemma_ident_end(s: Seq<char>, i: int)
    requires
        0 <= i <= s.len(),
    ensures
        i <= ident_end(s, i) <= s.len(),
    decreases s.len() - i,
{
    if i < s.len() && is_ident_cont_char(s[i]) {
        lemma_ident_end(s, i + 1);
    }
}

/// The position of the closing quote at or after `i`, or `-1` when the
/// string literal never closes.
pub open spec fn str_end(s: Seq<char>, i: int) -> int
    decreases s.len() - i
    when 0 <= i <= s.len()
{
    if i == s.len() {
        -1
    } else if s[i] == '\'' {
        i
    } else {
        str_end(s, i + 1)
    }
}

proof fn lemma_str_end(s: Seq<char>, i: int)
    requires
        0 <= i <= s.len(),
    ensures
        str_end(s, i) == -1 || (i <= str_end(s, i) < s.len() && s[str_end(s, i)] == '\''),
    decreases s.len() - i,
{
    if i < s.len() && s[i] != '\'' {
        lemma_str_end(s, i + 1);
    }
}

/// The value of the digits in `s[i..j]` accumulated onto `acc`, or `None`
/// when it exceeds the largest representable number.
pub open spec fn num_acc(s: Seq<char>, i: int, j: int, acc: u64) -> Option<u64>
    decreases j - i
    when i <= j
{
    if i >= j {
        Some(acc)
    } else {
        let d = digit_val(s[i]);
        if acc > (u64::MAX - d) / 10 {
            None
        } else {
            num_acc(s, i + 1, j, (acc * 10 + d) as u64)
        }
    }
}

/// The token for one word: a keyword where the word is one, an identifier
/// otherwise.
pub open spec fn keyword_tok(name: Seq<char>) -> TokM {
    if name == "let"@ {
        TokM::KwLet
    } else if name == "var"@ {
        TokM::KwVar
    } else if name == "throw"@ {
        TokM::KwThrow
    } else if name == "new"@ {
        TokM::KwNew
    } else {
        TokM::Ident(name)
    }
}

/// Prepends a token to a lexing result.
pub open spec fn tok_cons(t: TokM, r: Result<Seq<TokM>, Seq<char>>) -> Result<
    Seq<TokM>,
    Seq<char>,
> {
    match r {
        Ok(ts) => Ok(seq![t] + ts),
        Err(e) => Err(e),
    }
}

/// The tokens of `s` from position `i` on, or the lexing error.
pub open spec fn spec_tokenize(s: Seq<char>, i: int) -> Result<Seq<TokM>, Seq<char>>
    decreases s.len() - i
    when 0 <= i <= s.len()
    via spec_tokenize_dec
{
    if i == s.len() {
        Ok(Seq::empty())
    } else {
        let c = s[i];
        if is_space_char(c) {
            spec_tokenize(s, i + 1)
        } else if c == '(' {
            tok_cons(TokM::LParen, spec_tokenize(s, i + 1))
        } else if c == ')' {
            tok_cons(TokM::RParen, spec_tokenize(s, i + 1))
        } else if c == ';' {
            tok_cons(TokM::Semi, spec_tokenize(s, i + 1))
        } else if c == '=' {
            tok_cons(TokM::Assign, spec_tokenize(s, i + 1))
        } else if c == '+' {
            tok_cons(TokM::Plus, spec_tokenize(s, i + 1))
        } else if c == '-' {
            tok_cons(TokM::Minus, spec_tokenize(s, i + 1))
        } else if c == '*' {
            tok_cons(TokM::Star, spec_tokenize(s, i + 1))
        } else if is_digit_char(c) {
            let j = num_end(s, i);
            match num_acc(s, i, j, 0) {
                Some(n) => tok_cons(TokM::Num(n), spec_tokenize(s, j)),
                None => Err("number too large"@),
            }
        } else if c == '\'' {
            let j = str_end(s, i + 1);
            if j < 0 {
                Err("unterminated string literal"@)
            } else {
                tok_cons(TokM::Str(s.subrange(i + 1, j)), spec_tokenize(s, j + 1))
            }
        } else if is_ident_start_char(c) {
            let j = ident_end(s, i + 1);
            tok_cons(keyword_tok(s.subrange(i, j)), spec_tokenize(s, j))
        } else {
            Err("unexpected character"@)
        }
    }
}

#[via_fn]
proof fn spec_tokenize_dec(s: Seq<char>, i: int) {
    if 0 <= i < s.len() {
        if is_digit_char(s[i]) {
            assert(num_end(s, i) == num_end(s, i + 1));
            lemma_num_end(s, i + 1);
        }
        if s[i] == '\'' {
            lemma_str_end(s, i + 1);
        }
        if is_ident_start_char(s[i]) {
            lemma_ident_end(s, i + 1);
        }
    }
}

proof fn lemma_lex_step(pre: Seq<TokM>, t: TokM, r: Result<Seq<TokM>, Seq<char>>)
    ensures
        lex_concat(pre, tok_cons(t, r)) == lex_concat(pre.push(t), r),
{
    match r {
        Ok(ts) => {
            assert(pre + (seq![t] + ts) =~= pre.push(t) + ts);
        },
        Err(_) => {},
    }
}

/// A lexing result with `pre` already emitted in front of it.
pub open spec fn lex_concat(pre: Seq<TokM>, r: Result<Seq<TokM>, Seq<char>>) -> Result<
    Seq<TokM>,
    Seq<char>,
> {
    match r {
        Ok(ts) => Ok(pre + ts),
        Err(e) => Err(e),
    }
}

proof fn lemma_toks_view_push(ts: Seq<Tok>, t: Tok)
    ensures
        toks_view(ts.push(t)) == toks_view(ts).push(t@),
{
    assert(toks_view(ts.push(t)) =~= toks_view(ts).push(t@));
}

/// Splits `s` into tokens, or reports the first lexing error.
#[verifier::loop_isolation(false)]
pub fn tokenize(s: &Vec<char>) -> (r: Result<Vec<Tok>, Vec<char>>)
    ensures
        match r {
            Ok(ts) => spec_tokenize(s@, 0) == Ok::<Seq<TokM>, Seq<char>>(toks_view(ts@)),
            Err(m) => spec_tokenize(s@, 0) == Err::<Seq<TokM>, Seq<char>>(m@),
        },
{
    let len = s.len();
    let mut out: Vec<Tok> = Vec::new();
    let mut i: usize = 0;
    proof {
        assert(toks_view(out@) =~= Seq::<TokM>::empty());
    }
    while i < len
        invariant
            len == s@.len(),
            i <= len,
            spec_tokenize(s@, 0) == lex_concat(toks_view(out@), spec_tokenize(s@, i as int)),
        decreases len - i,
    {
        let c = s[i];
        if c == ' ' || c == '\n' || c == '\t' || c == '\r' {
            i += 1;
        } else if c == '(' {
            proof {
                lemma_lex_step(toks_view(out@), TokM::LParen, spec_tokenize(s@, i + 1));
                lemma_toks_view_push(out@, Tok::LParen);
            }
            out.push(Tok::LParen);
            i += 1;
        } else if c == ')' {
            proof {
                lemma_lex_step(toks_view(out@), TokM::RParen, spec_tokenize(s@, i + 1));
                lemma_toks_view_push(out@, Tok::RParen);
            }
            out.push(Tok::RParen);
            i += 1;
        } else if c == ';' {
            proof {
                lemma_lex_step(toks_view(out@), TokM::Semi, spec_tokenize(s@, i + 1));
                lemma_toks_view_push(out@, Tok::Semi);
            }
            out.push(Tok::Semi);
            i += 1;
        } else if c == '=' {
            proof {
                lemma_lex_step(toks_view(out@), TokM::Assign, spec_tokenize(s@, i + 1));
                lemma_toks_view_push(out@, Tok::Assign);
            }
            out.push(Tok::Assign);
            i += 1;
        } else if c == '+' {
            proof {
                lemma_lex_step(toks_view(out@), TokM::Plus, spec_tokenize(s@, i + 1));
                lemma_toks_view_push(out@, Tok::Plus);
            }
            out.push(Tok::Plus);
            i += 1;
        } else if c == '-' {
            proof {
                lemma_lex_step(toks_view(out@), TokM::Minus, spec_tokenize(s@, i + 1));
                lemma_toks_view_push(out@, Tok::Minus);
            }
            out.push(Tok::Minus);
            i += 1;
        } else if c == '*' {
            proof {
                lemma_lex_step(toks_view(out@), TokM::Star, spec_tokenize(s@, i + 1));
                lemma_toks_view_push(out@, Tok::Star);
            }
            out.push(Tok::Star);
            i += 1;
        } else if ('0' as u32) <= (c as u32) && (c as u32) <= ('9' as u32) {
            let ghost start = i as int;
            let ghost e = num_end(s@, start);
            proof {
                lemma_num_end(s@, start);
            }
            let mut j: usize = i;
            let mut acc: u64 = 0;
            while j < len && ('0' as u32) <= (s[j] as u32) && (s[j] as u32) <= ('9' as u32)
                invariant
                    len == s@.len(),
                    start <= j <= len,
                    e == num_end(s@, start),
                    e == num_end(s@, j as int),
                    j <= e,
                    num_acc(s@, start, e, 0) == num_acc(s@, j as int, e, acc),
                    spec_tokenize(s@, 0) == lex_concat(
                        toks_view(out@),
                        spec_tokenize(s@, start),
                    ),
                decreases len - j,
            {
                let d: u64 = ((s[j] as u32) - ('0' as u32)) as u64;
                proof {
                    assert(num_end(s@, j as int) == num_end(s@, j + 1 as int));
                    lemma_num_end(s@, j + 1 as int);
                    assert(j < e);
                }
                if acc > (u64::MAX - d) / 10 {
                    proof {
                        assert(num_acc(s@, j as int, e, acc) is None);
                        assert(num_acc(s@, start, e, 0) is None);
                    }
                    return Err(chars_of("number too large"));
                }
                proof {
                    assert(acc * 10 + d <= u64::MAX) by {
                        assert(acc <= (u64::MAX - d) / 10);
                        assert(((u64::MAX - d) / 10) * 10 + d <= u64::MAX);
                    };
                }
                acc = acc * 10 + d;
                j += 1;
            }
            proof {
                assert(num_end(s@, j as int) == j);
                assert(j == e);
                assert(num_acc(s@, j as int, e, acc) == Some(acc));
                lemma_lex_step(toks_view(out@), TokM::Num(acc), spec_tokenize(s@, e));
                lemma_toks_view_push(out@, Tok::Num(acc));
            }
            out.push(Tok::Num(acc));
            i = j;
        } else if c == '\'' {
            let ghost qe = str_end(s@, i + 1);
            proof {
                lemma_str_end(s@, i + 1);
            }
            let mut k: usize = i + 1;
            let mut content: Vec<char> = Vec::new();
            proof {
                assert(content@ =~= s@.subrange(i + 1, k as int));
            }
            while k < len && s[k] != '\''
                invariant
                    len == s@.len(),
                    i + 1 <= k <= len,
                    qe == str_end(s@, i + 1),
                    qe == str_end(s@, k as int),
                    content@ == s@.subrange(i + 1, k as int),
                decreases len - k,
            {
                content.push(s[k]);
                proof {
                    assert(content@ =~= s@.subrange(i + 1, k + 1 as int));
                }
                k += 1;
            }
            if k == len {
                proof {
                    assert(str_end(s@, k as int) == -1);
                }
                return Err(chars_of("unterminated string literal"));
            }
            let tok = Tok::Str(content);
            proof {
                assert(str_end(s@, k as int) == k);
                assert(qe == k);
                lemma_lex_step(toks_view(out@), tok@, spec_tokenize(s@, k + 1));
                lemma_toks_view_push(out@, tok);
            }
            out.push(tok);
            i = k + 1;
        } else if (('a' as u32) <= (c as u32) && (c as u32) <= ('z' as u32)) || (('A' as u32) <= (
        c as u32) && (c as u32) <= ('Z' as u32)) || c == '_' {
            let ghost we = ident_end(s@, i + 1);
            proof {
                lemma_ident_end(s@, i + 1);
            }
            let mut name: Vec<char> = Vec::new();
            name.push(c);
            let mut j: usize = i + 1;
            proof {
                assert(name@ =~= s@.subrange(i as int, j as int));
            }
            while j < len && ((('a' as u32) <= (s[j] as u32) && (s[j] as u32) <= ('z' as u32)) || ((
            'A' as u32) <= (s[j] as u32) && (s[j] as u32) <= ('Z' as u32)) || s[j] == '_' || (('0'
                as u32) <= (s[j] as u32) && (s[j] as u32) <= ('9' as u32)))
                invariant
                    len == s@.len(),
                    i < j <= len,
                    we == ident_end(s@, i + 1),
                    we == ident_end(s@, j as int),
                    name@ == s@.subrange(i as int, j as int),
                decreases len - j,
            {
                name.push(s[j]);
                proof {
                    assert(name@ =~= s@.subrange(i as int, j + 1 as int));
                }
                j += 1;
            }
            proof {
                assert(ident_end(s@, j as int) == j);
                assert(we == j);
            }
            let tok: Tok = if chars_eq_str(&name, "let") {
                Tok::KwLet
            } else if chars_eq_str(&name, "var") {
                Tok::KwVar
            } else if chars_eq_str(&name, "throw") {
                Tok::KwThrow
            } else if chars_eq_str(&name, "new") {
                Tok::KwNew
            } else {
                Tok::Ident(name)
            };
            proof {
                assert(tok@ == keyword_tok(s@.subrange(i as int, j as int)));
                lemma_lex_step(toks_view(out@), tok@, spec_tokenize(s@, j as int));
                lemma_toks_view_push(out@, tok);
            }
            out.push(tok);
            i = j;
        } else {
            return Err(chars_of("unexpected character"));
        }
    }
    proof {
        assert(toks_view(out@) + Seq::<TokM>::empty() =~= toks_view(out@));
    }
    Ok(out)
}

/// Syntax of a factor: a number, a string, a variable, a call `name(e)`, or
/// a parenthesised expression; the result is the position after it.
pub open spec fn chk_factor(t: Seq<TokM>, i: int, fuel: nat) -> Result<int, Seq<char>>
    decreases fuel,
{
    if fuel == 0 {
        Err("script too deeply nested"@)
    } else if i < 0 || i >= t.len() {
        Err("unexpected end of script"@)
    } else {
        match t[i] {
            TokM::Num(_) => Ok(i + 1),
            TokM::Str(_) => Ok(i + 1),
            TokM::Ident(_) => if i + 1 < t.len() && t[i + 1] is LParen {
                match chk_expr(t, i + 2, (fuel - 1) as nat) {
                    Ok(j) => if 0 <= j < t.len() && t[j] is RParen {
                        Ok(j + 1)
                    } else {
                        Err("expected closing parenthesis"@)
                    },
                    Err(e) => Err(e),
                }
            } else {
                Ok(i + 1)
            },
            TokM::LParen => match chk_expr(t, i + 1, (fuel - 1) as nat) {
                Ok(j) => if 0 <= j < t.len() && t[j] is RParen {
                    Ok(j + 1)
                } else {
                    Err("expected closing parenthesis"@)
                },
                Err(e) => Err(e),
            },
            _ => Err("unexpected token"@),
        }
    }
}

/// Syntax of what may follow a factor inside a term: zero or more `* factor`.
pub open spec fn chk_term_more(t: Seq<TokM>, i: int, fuel: nat) -> Result<int, Seq<char>>
    decreases fuel,
{
    if fuel == 0 {
        Err("script too deeply nested"@)
    } else if 0 <= i < t.len() && t[i] is Star {
        match chk_factor(t, i + 1, (fuel - 1) as nat) {
            Ok(j) => chk_term_more(t, j, (fuel - 1) as nat),
            Err(e) => Err(e),
        }
    } else {
        Ok(i)
    }
}

/// Syntax of a term: factors joined by `*`.
pub open spec fn chk_term(t: Seq<TokM>, i: int, fuel: nat) -> Result<int, Seq<char>>
    decreases fuel,
{
    if fuel == 0 {
        Err("script too deeply nested"@)
    } else {
        match chk_factor(t, i, (fuel - 1) as nat) {
            Ok(j) => chk_term_more(t, j, (fuel - 1) as nat),
            Err(e) => Err(e),
        }
    }
}

/// Syntax of what may follow a term inside an expression: zero or more
/// `+ term` or `- term`.
pub open spec fn chk_expr_more(t: Seq<TokM>, i: int, fuel: nat) -> Result<int, Seq<char>>
    decreases fuel,
{
    if fuel == 0 {
        Err("script too deeply nested"@)
    } else if 0 <= i < t.len() && (t[i] is Plus || t[i] is Minus) {
        match chk_term(t, i + 1, (fuel - 1) as nat) {
            Ok(j) => chk_expr_more(t, j, (fuel - 1) as nat),
            Err(e) => Err(e),
        }
    } else {
        Ok(i)
    }
}

/// Syntax of an expression: terms joined by `+` and `-`.
pub open spec fn chk_expr(t: Seq<TokM>, i: int, fuel: nat) -> Result<int, Seq<char>>
    decreases fuel,
{
    if fuel == 0 {
        Err("script too deeply nested"@)
    } else {
        match chk_term(t, i, (fuel - 1) as nat) {
            Ok(j) => chk_expr_more(t, j, (fuel - 1) as nat),
            Err(e) => Err(e),
        }
    }
}

/// Syntax of one statement: a declaration, a `throw new Name(e)`, or an
/// expression.
pub open spec fn chk_stmt(t: Seq<TokM>, i: int, fuel: nat) -> Result<int, Seq<char>>
    decreases fuel,
{
    if fuel == 0 {
        Err("script too deeply nested"@)
    } else if i < 0 || i >= t.len() {
        Err("unexpected end of script"@)
    } else if t[i] is KwLet || t[i] is KwVar {
        if !(i + 1 < t.len() && t[i + 1] is Ident) {
            Err("expected name in declaration"@)
        } else if !(i + 2 < t.len() && t[i + 2] is Assign) {
            Err("expected = in declaration"@)
        } else {
            chk_expr(t, i + 3, (fuel - 1) as nat)
        }
    } else if t[i] is KwThrow {
        if !(i + 1 < t.len() && t[i + 1] is KwNew) {
            Err("expected new after throw"@)
        } else if !(i + 2 < t.len() && t[i + 2] is Ident) {
            Err("expected error name after new"@)
        } else if !(i + 3 < t.len() && t[i + 3] is LParen) {
            Err("expected ( after the error name"@)
        } else {
            match chk_expr(t, i + 4, (fuel - 1) as nat) {
                Ok(j) => if 0 <= j < t.len() && t[j] is RParen {
                    Ok(j + 1)
                } else {
                    Err("expected closing parenthesis"@)
                },
                Err(e) => Err(e),
            }
        }
    } else {
        chk_expr(t, i, (fuel - 1) as nat)
    }
}

/// Syntax of a whole script: statements separated by `;`.
pub open spec fn chk_program(t: Seq<TokM>, i: int, fuel: nat) -> Result<(), Seq<char>>
    decreases fuel,
{
    if fuel == 0 {
        Err("script too deeply nested"@)
    } else if i < 0 {
        Err("unexpected end of script"@)
    } else if i >= t.len() {
        Ok(())
    } else if t[i] is Semi {
        chk_program(t, i + 1, (fuel - 1) as nat)
    } else {
        match chk_stmt(t, i, (fuel - 1) as nat) {
            Ok(j) => if j >= t.len() {
                Ok(())
            } else if 0 <= j && t[j] is Semi {
                chk_program(t, j + 1, (fuel - 1) as nat)
            } else {
                Err("expected ; between statements"@)
            },
            Err(e) => Err(e),
        }
    }
}

/// An executable checker result against its mathematical mirror.
pub open spec fn pos_matches(r: Result<usize, Vec<char>>, m: Result<int, Seq<char>>) -> bool {
    match r {
        Ok(j) => m == Ok::<int, Seq<char>>(j as int),
        Err(e) => m == Err::<int, Seq<char>>(e@),
    }
}

/// An executable program-check result against its mathematical mirror.
pub open spec fn unit_matches(r: Result<(), Vec<char>>, m: Result<(), Seq<char>>) -> bool {
    match r {
        Ok(_) => m is Ok,
        Err(e) => m == Err::<(), Seq<char>>(e@),
    }
}

fn chk_factor_x(t: &Vec<Tok>, i: usize, fuel: usize) -> (r: Result<usize, Vec<char>>)
    ensures
        pos_matches(r, chk_factor(toks_view(t@), i as int, fuel as nat)),
    decreases fuel,
{
    if fuel == 0 {
        Err(chars_of("script too deeply nested"))
    } else if i >= t.len() {
        Err(chars_of("unexpected end of script"))
    } else {
        match &t[i] {
            Tok::Num(_) => Ok(i + 1),
            Tok::Str(_) => Ok(i + 1),
            Tok::Ident(_) => {
                if i + 1 < t.len() && matches!(&t[i + 1], Tok::LParen) {
                    match chk_expr_x(t, i + 2, fuel - 1) {
                        Ok(j) => {
                            if j < t.len() && matches!(&t[j], Tok::RParen) {
                                Ok(j + 1)
                            } else {
                                Err(chars_of("expected closing parenthesis"))
                            }
                        },
                        Err(e) => Err(e),
                    }
                } else {
                    Ok(i + 1)
                }
            },
            Tok::LParen => {
                match chk_expr_x(t, i + 1, fuel - 1) {
                    Ok(j) => {
                        if j < t.len() && matches!(&t[j], Tok::RParen) {
                            Ok(j + 1)
                        } else {
                            Err(chars_of("expected closing parenthesis"))
                        }
                    },
                    Err(e) => Err(e),
                }
            },
            _ => Err(chars_of("unexpected token")),
        }
    }
}

fn chk_term_more_x(t: &Vec<Tok>, i: usize, fuel: usize) -> (r: Result<usize, Vec<char>>)
    ensures
        pos_matches(r, chk_term_more(toks_view(t@), i as int, fuel as nat)),
    decreases fuel,
{
    if fuel == 0 {
        Err(chars_of("script too deeply nested"))
    } else if i < t.len() && matches!(&t[i], Tok::Star) {
        match chk_factor_x(t, i + 1, fuel - 1) {
            Ok(j) => chk_term_more_x(t, j, fuel - 1),
            Err(e) => Err(e),
        }
    } else {
        Ok(i)
    }
}

fn chk_term_x(t: &Vec<Tok>, i: usize, fuel: usize) -> (r: Result<usize, Vec<char>>)
    ensures
        pos_matches(r, chk_term(toks_view(t@), i as int, fuel as nat)),
    decreases fuel,
{
    if fuel == 0 {
        Err(chars_of("script too deeply nested"))
    } else {
        match chk_factor_x(t, i, fuel - 1) {
            Ok(j) => chk_term_more_x(t, j, fuel - 1),
            Err(e) => Err(e),
        }
    }
}

fn chk_expr_more_x(t: &Vec<Tok>, i: usize, fuel: usize) -> (r: Result<usize, Vec<char>>)
    ensures
        pos_matches(r, chk_expr_more(toks_view(t@), i as int, fuel as nat)),
    decreases fuel,
{
    if fuel == 0 {
        Err(chars_of("script too deeply nested"))
    } else if i < t.len() && (matches!(&t[i], Tok::Plus) || matches!(&t[i], Tok::Minus)) {
        match chk_term_x(t, i + 1, fuel - 1) {
            Ok(j) => chk_expr_more_x(t, j, fuel - 1),
            Err(e) => Err(e),
        }
    } else {
        Ok(i)
    }
}

fn chk_expr_x(t: &Vec<Tok>, i: usize, fuel: usize) -> (r: Result<usize, Vec<char>>)
    ensures
        pos_matches(r, chk_expr(toks_view(t@), i as int, fuel as nat)),
    decreases fuel,
{
    if fuel == 0 {
        Err(chars_of("script too deeply nested"))
    } else {
        match chk_term_x(t, i, fuel - 1) {
            Ok(j) => chk_expr_more_x(t, j, fuel - 1),
            Err(e) => Err(e),
        }
    }
}

fn chk_stmt_x(t: &Vec<Tok>, i: usize, fuel: usize) -> (r: Result<usize, Vec<char>>)
    ensures
        pos_matches(r, chk_stmt(toks_view(t@), i as int, fuel as nat)),
    decreases fuel,
{
    if fuel == 0 {
        Err(chars_of("script too deeply nested"))
    } else if i >= t.len() {
        Err(chars_of("unexpected end of script"))
    } else if matches!(&t[i], Tok::KwLet) || matches!(&t[i], Tok::KwVar) {
        if !(i + 1 < t.len() && matches!(&t[i + 1], Tok::Ident(_))) {
            Err(chars_of("expected name in declaration"))
        } else if !(i + 2 < t.len() && matches!(&t[i + 2], Tok::Assign)) {
            Err(chars_of("expected = in declaration"))
        } else {
            chk_expr_x(t, i + 3, fuel - 1)
        }
    } else if matches!(&t[i], Tok::KwThrow) {
        if !(i + 1 < t.len() && matches!(&t[i + 1], Tok::KwNew)) {
            Err(chars_of("expected new after throw"))
        } else if !(i + 2 < t.len() && matches!(&t[i + 2], Tok::Ident(_))) {
            Err(chars_of("expected error name after new"))
        } else if !(i + 3 < t.len() && matches!(&t[i + 3], Tok::LParen)) {
            Err(chars_of("expected ( after the error name"))
        } else {
            match chk_expr_x(t, i + 4, fuel - 1) {
                Ok(j) => {
                    if j < t.len() && matches!(&t[j], Tok::RParen) {
                        Ok(j + 1)
                    } else {
                        Err(chars_of("expected closing parenthesis"))
                    }
                },
                Err(e) => Err(e),
            }
        }
    } else {
        chk_expr_x(t, i, fuel - 1)
    }
}

/// Checks a whole token stream, mirroring `chk_program`.
pub fn chk_program_x(t: &Vec<Tok>, i: usize, fuel: usize) -> (r: Result<(), Vec<char>>)
    ensures
        unit_matches(r, chk_program(toks_view(t@), i as int, fuel as nat)),
    decreases fuel,
{
    if fuel == 0 {
        Err(chars_of("script too deeply nested"))
    } else if i >= t.len() {
        Ok(())
    } else if matches!(&t[i], Tok::Semi) {
        chk_program_x(t, i + 1, fuel - 1)
    } else {
        match chk_stmt_x(t, i, fuel - 1) {
            Ok(j) => {
                if j >= t.len() {
                    Ok(())
                } else if matches!(&t[j], Tok::Semi) {
                    chk_program_x(t, j + 1, fuel - 1)
                } else {
                    Err(chars_of("expected ; between statements"))
                }
            },
            Err(e) => Err(e),
        }
    }
}

} // verus!
