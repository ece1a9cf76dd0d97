//! Lexical ground work: comment stripping, whitespace tokenization, line
//! splitting, and numeric literal parsing (decimal and `0x`-prefixed hex).
//!
//! The specification side models a line as a `Seq<char>`. Tokens are the
//! maximal runs of non-whitespace characters of the text before the first
//! `#`; whitespace here is the ASCII kind (space, tab, newline, carriage
//! return, vertical tab, form feed).

use vstd::prelude::*;

use crate::error::AsmError;
use crate::error::ErrView;

verus! {

/// ASCII whitespace: what separates tokens.
pub open spec fn is_space(c: char) -> bool {
    c == ' ' || c == '\t' || c == '\n' || c == '\r' || c == '\u{b}' || c == '\u{c}'
}

fn is_space_char(c: char) -> (r: bool)
    ensures
        r == is_space(c),
{
    c == ' ' || c == '\t' || c == '\n' || c == '\r' || c == '\u{b}' || c == '\u{c}'
}

/// Position of the first occurrence of `c` in `s`, if any.
pub open spec fn spec_find(s: Seq<char>, c: char) -> Option<int>
    decreases s.len(),
{
    if s.len() == 0 {
        Option::<int>::None
    } else if s[0] == c {
        Some(0)
    } else {
        match spec_find(s.drop_first(), c) {
            Option::<int>::None => Option::<int>::None,
            Some(i) => Some(i + 1),
        }
    }
}

/// `spec_find` returns the least index holding `c`, or `None` when `c` does
/// not occur.
pub proof fn lemma_find_char(s: Seq<char>, c: char)
    ensures
        match spec_find(s, c) {
            Some(i) => 0 <= i < s.len() && s[i] == c && (forall|j: int| 0 <= j < i ==> s[j] != c),
            Option::<int>::None => forall|j: int| 0 <= j < s.len() ==> s[j] != c,
        },
    decreases s.len(),
{
    if s.len() > 0 && s[0] != c {
        let t = s.drop_first();
        lemma_find_char(t, c);
        match spec_find(t, c) {
            Some(i) => {
                assert(s[i + 1] == t[i]);
                assert(forall|j: int| 0 < j < i + 1 ==> s[j] == t[j - 1]);
            },
            Option::<int>::None => {
                assert(forall|j: int| 0 < j < s.len() ==> s[j] == t[j - 1]);
            },
        }
    }
}

/// The text before the first `#`: what a comment leaves of a line.
pub open spec fn before_hash(s: Seq<char>) -> Seq<char> {
    match spec_find(s, '#') {
        Option::<int>::None => s,
        Some(i) => s.take(i),
    }
}

/// Tokenizer state after reading `s`: the finished tokens and the token
/// still open at the end of the text.
pub open spec fn spec_scan(s: Seq<char>) -> (Seq<Seq<char>>, Seq<char>)
    decreases s.len(),
{
    if s.len() == 0 {
        (Seq::<Seq<char>>::empty(), Seq::<char>::empty())
    } else {
        let (toks, cur) = spec_scan(s.drop_last());
        let c = s.last();
        if is_space(c) {
            if cur.len() == 0 {
                (toks, Seq::<char>::empty())
            } else {
                (toks.push(cur), Seq::<char>::empty())
            }
        } else {
            (toks, cur.push(c))
        }
    }
}

/// The whitespace-separated tokens of `s`.
pub open spec fn spec_tokens(s: Seq<char>) -> Seq<Seq<char>> {
    let (toks, cur) = spec_scan(s);
    if cur.len() == 0 {
        toks
    } else {
        toks.push(cur)
    }
}

/// The tokens a source line yields once its comment is stripped.
pub open spec fn spec_line_tokens(line: Seq<char>) -> Seq<Seq<char>> {
    spec_tokens(before_hash(line))
}

/// A line of nothing but whitespace and an optional comment has no tokens.
pub proof fn lemma_tokens_all_space(s: Seq<char>)
    requires
        forall|i: int| 0 <= i < s.len() ==> is_space(s[i]),
    ensures
        spec_tokens(s) =~= Seq::<Seq<char>>::empty(),
        spec_scan(s).1 =~= Seq::<char>::empty(),
    decreases s.len(),
{
    if s.len() > 0 {
        lemma_tokens_all_space(s.drop_last());
    }
}

/// First occurrence of `c` in `s`, scanning left to right.
pub fn find_char(s: &str, c: char) -> (r: Option<usize>)
    ensures
        match r {
            Some(i) => spec_find(s@, c) == Some(i as int),
            Option::<usize>::None => spec_find(s@, c) is None,
        },
{
    proof {
        lemma_find_char(s@, c);
    }
    let n = s.unicode_len();
    let mut i: usize = 0;
    while i < n
        invariant
            0 <= i <= n,
            n == s@.len(),
            forall|j: int| 0 <= j < i ==> s@[j] != c,
            match spec_find(s@, c) {
                Some(k) => 0 <= k < s@.len() && s@[k] == c && (forall|j: int| 0 <= j < k ==> s@[j]
                    != c),
                Option::<int>::None => forall|j: int| 0 <= j < s@.len() ==> s@[j] != c,
            },
        decreases n - i,
    {
        if s.get_char(i) == c {
            return Some(i);
        }
        i += 1;
    }
    None
}

/// Character-wise equality of two string slices.
pub fn str_eq(a: &str, b: &str) -> (r: bool)
    ensures
        r == (a@ == b@),
{
    let n = a.unicode_len();
    if n != b.unicode_len() {
        return false;
    }
    let mut i: usize = 0;
    while i < n
        invariant
            0 <= i <= n,
            n == a@.len(),
            n == b@.len(),
            forall|j: int| 0 <= j < i ==> a@[j] == b@[j],
        decreases n - i,
    {
        if a.get_char(i) != b.get_char(i) {
            return false;
        }
        i += 1;
    }
    proof {
        assert(a@ =~= b@);
    }
    true
}

/// The tokens of one source line: the comment is stripped, the rest is
/// split on runs of whitespace.
pub fn line_tokens(line: &str) -> (toks: Vec<String>)
    ensures
        toks.deep_view() == spec_line_tokens(line@),
{
    let n = line.unicode_len();
    let end = match find_char(line, '#') {
        Some(i) => i,
        Option::<usize>::None => n,
    };
    let ghost bh = before_hash(line@);
    proof {
        lemma_find_char(line@, '#');
        assert(bh =~= line@.take(end as int));
    }
    let mut toks: Vec<String> = Vec::new();
    let mut cur: String = String::new();
    let mut i: usize = 0;
    while i < end
        invariant
            0 <= i <= end <= n,
            n == line@.len(),
            bh == line@.take(end as int),
            toks.deep_view() == spec_scan(bh.take(i as int)).0,
            cur@ == spec_scan(bh.take(i as int)).1,
        decreases end - i,
    {
        let c = line.get_char(i);
        let ghost pre = bh.take(i as int);
        proof {
            assert(bh.take(i + 1).drop_last() =~= pre);
            assert(bh.take(i + 1).last() == line@[i as int]);
        }
        if is_space_char(c) {
            if !cur.as_str().is_empty() {
                let ghost old_toks = toks.deep_view();
                toks.push(cur);
                cur = String::new();
                proof {
                    assert(toks.deep_view() =~= old_toks.push(spec_scan(pre).1));
                }
            }
        } else {
            let piece = line.substring_char(i, i + 1);
            proof {
                assert(piece@ =~= seq![line@[i as int]]);
            }
            cur.append(piece);
            proof {
                assert(cur@ =~= spec_scan(pre).1.push(line@[i as int]));
            }
        }
        i += 1;
    }
    proof {
        assert(bh.take(end as int) =~= bh);
    }
    if !cur.as_str().is_empty() {
        let ghost old_toks = toks.deep_view();
        toks.push(cur);
        proof {
            assert(toks.deep_view() =~= old_toks.push(spec_scan(bh).1));
        }
    }
    toks
}

/// Line splitter state after reading `s`: the finished lines and the line
/// still open at the end of the text.
pub open spec fn spec_line_scan(s: Seq<char>) -> (Seq<Seq<char>>, Seq<char>)
    decreases s.len(),
{
    if s.len() == 0 {
        (Seq::<Seq<char>>::empty(), Seq::<char>::empty())
    } else {
        let (done, cur) = spec_line_scan(s.drop_last());
        let c = s.last();
        if c == '\n' {
            (done.push(cur), Seq::<char>::empty())
        } else {
            (done, cur.push(c))
        }
    }
}

/// The lines of a source text: split on `\n`, with no empty line after a
/// trailing newline.
pub open spec fn spec_lines(s: Seq<char>) -> Seq<Seq<char>> {
    let (done, cur) = spec_line_scan(s);
    if cur.len() == 0 {
        done
    } else {
        done.push(cur)
    }
}

/// Splits a source text into lines.
pub fn split_lines(text: &str) -> (lines: Vec<String>)
    ensures
        lines.deep_view() == spec_lines(text@),
{
    let n = text.unicode_len();
    let mut lines: Vec<String> = Vec::new();
    let mut cur: String = String::new();
    let mut i: usize = 0;
    while i < n
        invariant
            0 <= i <= n,
            n == text@.len(),
            lines.deep_view() == spec_line_scan(text@.take(i as int)).0,
            cur@ == spec_line_scan(text@.take(i as int)).1,
        decreases n - i,
    {
        let c = text.get_char(i);
        let ghost pre = text@.take(i as int);
        proof {
            assert(text@.take(i + 1).drop_last() =~= pre);
            assert(text@.take(i + 1).last() == text@[i as int]);
        }
        if c == '\n' {
            let ghost old_lines = lines.deep_view();
            lines.push(cur);
            cur = String::new();
            proof {
                assert(lines.deep_view() =~= old_lines.push(spec_line_scan(pre).1));
            }
        } else {
            let piece = text.substring_char(i, i + 1);
            proof {
                assert(piece@ =~= seq![text@[i as int]]);
            }
            cur.append(piece);
            proof {
                assert(cur@ =~= spec_line_scan(pre).1.push(text@[i as int]));
            }
        }
        i += 1;
    }
    proof {
        assert(text@.take(n as int) =~= text@);
    }
    if !cur.as_str().is_empty() {
        let ghost old_lines = lines.deep_view();
        lines.push(cur);
        proof {
            assert(lines.deep_view() =~= old_lines.push(spec_line_scan(text@).1));
        }
    }
    lines
}

/// The token with every trailing comma removed: operand lists tolerate
/// trailing commas on register tokens.
pub open spec fn strip_commas(s: Seq<char>) -> Seq<char>
    decreases s.len(),
{
    if s.len() > 0 && s.last() == ',' {
        strip_commas(s.drop_last())
    } else {
        s
    }
}

/// Removes every trailing comma of a token.
pub fn strip_commas_str(tok: &str) -> (r: &str)
    ensures
        r@ == strip_commas(tok@),
{
    let n = tok.unicode_len();
    let mut e: usize = n;
    proof {
        assert(tok@.take(n as int) =~= tok@);
    }
    while e > 0 && tok.get_char(e - 1) == ','
        invariant
            0 <= e <= n,
            n == tok@.len(),
            strip_commas(tok@) == strip_commas(tok@.take(e as int)),
        decreases e,
    {
        proof {
            assert(tok@.take(e as int).last() == tok@[e - 1]);
            assert(tok@.take(e as int).drop_last() =~= tok@.take(e - 1));
        }
        e -= 1;
    }
    let r = tok.substring_char(0, e);
    proof {
        assert(r@ =~= tok@.take(e as int));
    }
    r
}

/// Whether every character of `s` is an ASCII decimal digit.
pub open spec fn all_dec_digits(s: Seq<char>) -> bool {
    forall|i: int| 0 <= i < s.len() ==> 0 <= #[trigger] spec_digit(s[i]) < 10
}

/// Tests whether a token is all ASCII decimal digits.
pub fn all_dec_digits_str(s: &str) -> (r: bool)
    ensures
        r == all_dec_digits(s@),
{
    let n = s.unicode_len();
    let mut i: usize = 0;
    while i < n
        invariant
            0 <= i <= n,
            n == s@.len(),
            forall|j: int| 0 <= j < i ==> 0 <= #[trigger] spec_digit(s@[j]) < 10,
        decreases n - i,
    {
        let u = s.get_char(i) as u32;
        if !(48 <= u && u <= 57) {
            proof {
                assert(!(0 <= spec_digit(s@[i as int]) < 10));
            }
            return false;
        }
        i += 1;
    }
    true
}

/// Tests whether a token announces hexadecimal.
pub fn has_hex_prefix_str(s: &str) -> (r: bool)
    ensures
        r == has_hex_prefix(s@),
{
    s.unicode_len() >= 2 && s.get_char(0) == '0' && s.get_char(1) == 'x'
}

/// Value of `c` as a digit, hex digits included; `-1` when `c` is no digit.
pub open spec fn spec_digit(c: char) -> int {
    let u = c as u32;
    if 48 <= u <= 57 {
        u - 48
    } else if 97 <= u <= 102 {
        u - 87
    } else if 65 <= u <= 70 {
        u - 55
    } else {
        -1
    }
}

/// A non-empty string of digits of the given radix.
pub open spec fn all_digits(s: Seq<char>, radix: int) -> bool {
    s.len() > 0 && forall|i: int| 0 <= i < s.len() ==> 0 <= #[trigger] spec_digit(s[i]) < radix
}

/// The value of a digit string read most-significant-first.
pub open spec fn digits_value(s: Seq<char>, radix: int) -> int
    decreases s.len(),
{
    if s.len() == 0 {
        0
    } else {
        digits_value(s.drop_last(), radix) * radix + spec_digit(s.last())
    }
}

pub proof fn lemma_digits_nonneg(s: Seq<char>, radix: int)
    requires
        2 <= radix,
        forall|i: int| 0 <= i < s.len() ==> 0 <= spec_digit(s[i]),
    ensures
        digits_value(s, radix) >= 0,
    decreases s.len(),
{
    if s.len() > 0 {
        lemma_digits_nonneg(s.drop_last(), radix);
        assert(digits_value(s.drop_last(), radix) * radix >= 0) by (nonlinear_arith)
            requires
                digits_value(s.drop_last(), radix) >= 0,
                radix >= 2,
        ;
    }
}

/// A prefix of a digit string is worth no more than the whole string.
pub proof fn lemma_digits_prefix_monotone(s: Seq<char>, radix: int, k: int)
    requires
        2 <= radix,
        forall|i: int| 0 <= i < s.len() ==> 0 <= spec_digit(s[i]),
        0 <= k <= s.len(),
    ensures
        digits_value(s.take(k), radix) <= digits_value(s, radix),
    decreases s.len(),
{
    if k == s.len() {
        assert(s.take(k) =~= s);
    } else {
        assert(s.drop_last().take(k) =~= s.take(k));
        lemma_digits_prefix_monotone(s.drop_last(), radix, k);
        lemma_digits_nonneg(s.drop_last(), radix);
        let v = digits_value(s.drop_last(), radix);
        assert(v * radix >= v) by (nonlinear_arith)
            requires
                v >= 0,
                radix >= 2,
        ;
    }
}

/// The parse of an unsigned literal: an optional `+`, then digits of the
/// radix, whose value must fit in 16 bits.
pub open spec fn spec_parse_unsigned(s: Seq<char>, radix: int) -> Option<u16> {
    let body = if s.len() > 0 && s[0] == '+' {
        s.drop_first()
    } else {
        s
    };
    if all_digits(body, radix) && digits_value(body, radix) <= 65535 {
        Some(digits_value(body, radix) as u16)
    } else {
        Option::<u16>::None
    }
}

/// The parse of a signed literal: an optional sign, then digits of the
/// radix, whose value must fit in a signed 16-bit word.
pub open spec fn spec_parse_signed(s: Seq<char>, radix: int) -> Option<i16> {
    let neg = s.len() > 0 && s[0] == '-';
    let body = if s.len() > 0 && (s[0] == '-' || s[0] == '+') {
        s.drop_first()
    } else {
        s
    };
    if all_digits(body, radix) {
        let v = digits_value(body, radix);
        if neg && v <= 32768 {
            Some((-v) as i16)
        } else if !neg && v <= 32767 {
            Some(v as i16)
        } else {
            Option::<i16>::None
        }
    } else {
        Option::<i16>::None
    }
}

/// Whether the literal announces hexadecimal.
pub open spec fn has_hex_prefix(s: Seq<char>) -> bool {
    s.len() >= 2 && s[0] == '0' && s[1] == 'x'
}

/// The literal with every leading `0x` removed.
pub open spec fn strip_hex(s: Seq<char>) -> Seq<char>
    decreases s.len(),
{
    if has_hex_prefix(s) {
        strip_hex(s.skip(2))
    } else {
        s
    }
}

/// The parse of an unsigned numeric token: hexadecimal after a `0x`
/// prefix, decimal otherwise.
pub open spec fn spec_parse_num_unsigned(s: Seq<char>) -> Option<u16> {
    if has_hex_prefix(s) {
        spec_parse_unsigned(strip_hex(s), 16)
    } else {
        spec_parse_unsigned(s, 10)
    }
}

/// The parse of a signed numeric token: hexadecimal after a `0x` prefix,
/// decimal otherwise.
pub open spec fn spec_parse_num(s: Seq<char>) -> Option<i16> {
    if has_hex_prefix(s) {
        spec_parse_signed(strip_hex(s), 16)
    } else {
        spec_parse_signed(s, 10)
    }
}

fn digit_val(c: char) -> (r: Option<u8>)
    ensures
        match r {
            Some(d) => spec_digit(c) == d as int,
            Option::<u8>::None => spec_digit(c) == -1,
        },
{
    let u = c as u32;
    if 48 <= u && u <= 57 {
        Some((u - 48) as u8)
    } else if 97 <= u && u <= 102 {
        Some((u - 87) as u8)
    } else if 65 <= u && u <= 70 {
        Some((u - 55) as u8)
    } else {
        None
    }
}

/// Reads the digits of `s` from `start` on, in the given radix, rejecting
/// any value above `cap`.
fn parse_digits(s: &str, start: usize, radix: u32, cap: u32) -> (r: Option<u32>)
    requires
        start <= s@.len(),
        radix == 10 || radix == 16,
        cap <= 65535,
    ensures
        match r {
            Some(v) => all_digits(s@.skip(start as int), radix as int) && v == digits_value(
                s@.skip(start as int),
                radix as int,
            ) && v <= cap,
            Option::<u32>::None => !(all_digits(s@.skip(start as int), radix as int)
                && digits_value(s@.skip(start as int), radix as int) <= cap),
        },
{
    let ghost body = s@.skip(start as int);
    let n = s.unicode_len();
    if start == n {
        return None;
    }
    let mut i: usize = start;
    let mut acc: u32 = 0;
    while i < n
        invariant
            start <= i <= n,
            n == s@.len(),
            start < n,
            radix == 10 || radix == 16,
            cap <= 65535,
            body == s@.skip(start as int),
            acc <= cap,
            acc == digits_value(s@.subrange(start as int, i as int), radix as int),
            forall|j: int| start <= j < i ==> 0 <= #[trigger] spec_digit(s@[j]) < radix,
        decreases n - i,
    {
        let c = s.get_char(i);
        let ghost pre = s@.subrange(start as int, i as int);
        proof {
            assert(s@.subrange(start as int, i + 1).drop_last() =~= pre);
            assert(s@.subrange(start as int, i + 1).last() == s@[i as int]);
            assert(body[i - start] == s@[i as int]);
        }
        let d = match digit_val(c) {
            Some(d) => d,
            Option::<u8>::None => {
                return None;
            },
        };
        if d as u32 >= radix {
            return None;
        }
        proof {
            assert(acc * radix <= 65535 * 16) by (nonlinear_arith)
                requires
                    acc <= 65535,
                    radix <= 16,
            ;
        }
        let acc2 = acc * radix + d as u32;
        if acc2 > cap {
            proof {
                if all_digits(body, radix as int) {
                    lemma_digits_nonneg(body, radix as int);
                    assert(body.take(i + 1 - start) =~= s@.subrange(start as int, i + 1));
                    lemma_digits_prefix_monotone(body, radix as int, i + 1 - start);
                }
            }
            return None;
        }
        acc = acc2;
        i += 1;
    }
    proof {
        assert(s@.subrange(start as int, n as int) =~= body);
    }
    Some(acc)
}

/// Parses an unsigned 16-bit numeric token, decimal or `0x`-prefixed hex.
pub fn parse_num_unsigned(expr: &str) -> (r: Result<u16, AsmError>)
    ensures
        match r {
            Ok(v) => spec_parse_num_unsigned(expr@) == Some(v),
            Err(e) => spec_parse_num_unsigned(expr@) is None && e@ == ErrView::BadNumber(expr@),
        },
{
    let n = expr.unicode_len();
    let mut i: usize = 0;
    let hex = n >= 2 && expr.get_char(0) == '0' && expr.get_char(1) == 'x';
    proof {
        assert(expr@.skip(0) =~= expr@);
    }
    while i < n && expr.get_char(i) == '0' && i + 1 < n && expr.get_char(i + 1) == 'x'
        invariant
            0 <= i <= n,
            n == expr@.len(),
            strip_hex(expr@) == strip_hex(expr@.skip(i as int)),
            i > 0 ==> has_hex_prefix(expr@),
        decreases n - i,
    {
        proof {
            assert(has_hex_prefix(expr@.skip(i as int)));
            assert(expr@.skip(i as int).skip(2) =~= expr@.skip(i + 2));
        }
        i += 2;
    }
    let ghost rest = expr@.skip(i as int);
    proof {
        if hex {
            assert(strip_hex(expr@) =~= rest);
        } else {
            assert(i == 0);
            assert(rest =~= expr@);
        }
    }
    let radix: u32 = if hex {
        16
    } else {
        10
    };
    let start = if i < n && expr.get_char(i) == '+' {
        i + 1
    } else {
        i
    };
    let ghost body = if rest.len() > 0 && rest[0] == '+' {
        rest.drop_first()
    } else {
        rest
    };
    proof {
        assert(expr@.skip(start as int) =~= body);
    }
    match parse_digits(expr, start, radix, 65535) {
        Some(v) => Ok(v as u16),
        Option::<u32>::None => Err(AsmError::BadNumber(expr.to_owned())),
    }
}

/// Parses a signed 16-bit numeric token, decimal or `0x`-prefixed hex.
pub fn parse_num(expr: &str) -> (r: Result<i16, AsmError>)
    ensures
        match r {
            Ok(v) => spec_parse_num(expr@) == Some(v),
            Err(e) => spec_parse_num(expr@) is None && e@ == ErrView::BadNumber(expr@),
        },
{
    let n = expr.unicode_len();
    let mut i: usize = 0;
    let hex = n >= 2 && expr.get_char(0) == '0' && expr.get_char(1) == 'x';
    proof {
        assert(expr@.skip(0) =~= expr@);
    }
    while i < n && expr.get_char(i) == '0' && i + 1 < n && expr.get_char(i + 1) == 'x'
        invariant
            0 <= i <= n,
            n == expr@.len(),
            strip_hex(expr@) == strip_hex(expr@.skip(i as int)),
            i > 0 ==> has_hex_prefix(expr@),
        decreases n - i,
    {
        proof {
            assert(has_hex_prefix(expr@.skip(i as int)));
            assert(expr@.skip(i as int).skip(2) =~= expr@.skip(i + 2));
        }
        i += 2;
    }
    let ghost rest = expr@.skip(i as int);
    proof {
        if hex {
            assert(strip_hex(expr@) =~= rest);
        } else {
            assert(i == 0);
            assert(rest =~= expr@);
        }
    }
    let radix: u32 = if hex {
        16
    } else {
        10
    };
    let mut neg = false;
    let start = if i < n && expr.get_char(i) == '-' {
        neg = true;
        i + 1
    } else if i < n && expr.get_char(i) == '+' {
        i + 1
    } else {
        i
    };
    let ghost body = if rest.len() > 0 && (rest[0] == '-' || rest[0] == '+') {
        rest.drop_first()
    } else {
        rest
    };
    proof {
        assert(expr@.skip(start as int) =~= body);
    }
    let cap: u32 = if neg {
        32768
    } else {
        32767
    };
    match parse_digits(expr, start, radix, cap) {
        Some(v) => {
            if neg {
                if v == 32768 {
                    Ok(i16::MIN)
                } else {
                    Ok(-(v as i16))
                }
            } else {
                Ok(v as i16)
            }
        },
        Option::<u32>::None => Err(AsmError::BadNumber(expr.to_owned())),
    }
}

} // verus!
