//! The grammar: an ordered-choice (PEG-style) recursive-descent parser over
//! an in-memory text buffer.
//!
//! Every executable rule is proved equal to a spec-level mirror of the
//! grammar (`spec_...` functions over `Seq<char>` and positions), so the
//! contracts pin down the parsed value, the consumed length, and — on
//! failure — the failure position and the expected-token description.
//! Each alternative fully backtracks on failure; a failed ordered choice
//! reports the failure that reached furthest (the earlier alternative on a
//! tie).
//!
//! Rules consume a prefix of the input: trailing content is left to the
//! caller, which receives the number of characters consumed.

use std::rc::Rc;
use vstd::prelude::*;
use vstd::string::StrSliceExecFns;
use vstd::string::StringExecFns;

use crate::ast::Annotation;
use crate::ast::AnnotationV;
use crate::ast::CommentDefinition;
use crate::ast::ContainerType;
use crate::ast::FieldDefinition;
use crate::ast::FieldQualifier;
use crate::ast::FieldV;
use crate::ast::FuncDefinition;
use crate::ast::FuncQualifier;
use crate::ast::FuncV;
use crate::ast::Ident;
use crate::ast::ParamDefinition;
use crate::ast::ParamQualifier;
use crate::ast::ParamV;
use crate::ast::ScalarType;
use crate::ast::TypeDeclaration;
use crate::ast::TypeNodeV;
use crate::ast::VariableType;
use crate::ast::Visibility;

verus! {

/// A parse failure: the position where parsing could not continue and a
/// description of what was expected there. Positions count characters.
#[derive(Debug)]
pub struct ParseError {
    pub offset: usize,
    pub expected: String,
}

/// The outcome of a grammar rule at the specification level: a value with
/// the position after it, or the failure position with the expectation.
pub enum Parsed<T> {
    Found(T, int),
    Missing(int, Seq<char>),
}

/// Whitespace as the grammar skips it: space, line feed, carriage return, tab.
pub open spec fn is_space_char(c: char) -> bool {
    c == ' ' || c == '\n' || c == '\r' || c == '\t'
}

/// A character that may begin an identifier.
pub open spec fn is_ident_start_char(c: char) -> bool {
    (97 <= c as u32 && c as u32 <= 122) || (65 <= c as u32 && c as u32 <= 90) || c == '_'
}

/// A character that may continue an identifier.
pub open spec fn is_ident_cont_char(c: char) -> bool {
    is_ident_start_char(c) || (48 <= c as u32 && c as u32 <= 57)
}

fn is_space(c: char) -> (b: bool)
    ensures
        b == is_space_char(c),
{
    c == ' ' || c == '\n' || c == '\r' || c == '\t'
}

fn is_ident_start(c: char) -> (b: bool)
    ensures
        b == is_ident_start_char(c),
{
    let u = c as u32;
    (97 <= u && u <= 122) || (65 <= u && u <= 90) || c == '_'
}

fn is_ident_cont(c: char) -> (b: bool)
    ensures
        b == is_ident_cont_char(c),
{
    let u = c as u32;
    (97 <= u && u <= 122) || (65 <= u && u <= 90) || (48 <= u && u <= 57) || c == '_'
}

/// Position after the run of whitespace that starts at `pos`.
pub open spec fn spec_ws(s: Seq<char>, pos: int) -> int
    decreases s.len() - pos,
{
    if pos < s.len() && is_space_char(s[pos]) {
        spec_ws(s, pos + 1)
    } else {
        pos
    }
}

pub proof fn lemma_ws_bounds(s: Seq<char>, pos: int)
    ensures
        pos <= spec_ws(s, pos),
        pos <= s.len() ==> spec_ws(s, pos) <= s.len(),
    decreases s.len() - pos,
{
    if pos < s.len() && is_space_char(s[pos]) {
        lemma_ws_bounds(s, pos + 1);
    }
}

fn ws(s: &str, pos: usize) -> (r: usize)
    requires
        pos <= s@.len(),
    ensures
        r == spec_ws(s@, pos as int),
        pos <= r <= s@.len(),
    decreases s@.len() - pos,
{
    if pos < s.unicode_len() && is_space(s.get_char(pos)) {
        ws(s, pos + 1)
    } else {
        pos
    }
}

/// The literal `k` occurs at `pos`.
pub open spec fn lit_matches(s: Seq<char>, pos: int, k: Seq<char>) -> bool {
    &&& pos + k.len() <= s.len()
    &&& s.subrange(pos, pos + k.len()) == k
}

fn match_lit(s: &str, pos: usize, k: &str) -> (b: bool)
    requires
        pos <= s@.len(),
    ensures
        b == lit_matches(s@, pos as int, k@),
{
    let n = s.unicode_len();
    let kl = k.unicode_len();
    if n - pos < kl {
        return false;
    }
    let mut i: usize = 0;
    while i < kl
        invariant
            pos + kl <= n,
            n == s@.len(),
            kl == k@.len(),
            i <= kl,
            forall|j: int| 0 <= j < i ==> s@[pos + j] == k@[j],
        decreases kl - i,
    {
        if s.get_char(pos + i) != k.get_char(i) {
            proof {
                if lit_matches(s@, pos as int, k@) {
                    assert(s@.subrange(pos as int, pos + k@.len())[i as int] == k@[i as int]);
                }
            }
            return false;
        }
        i += 1;
    }
    proof {
        assert(s@.subrange(pos as int, pos + k@.len()) =~= k@);
    }
    true
}

/// A keyword: the literal `k` at `pos`, not running on into an identifier.
pub open spec fn spec_keyword(s: Seq<char>, pos: int, k: Seq<char>) -> Option<int> {
    if lit_matches(s, pos, k) && (pos + k.len() == s.len() || !is_ident_cont_char(
        s[pos + k.len()],
    )) {
        Option::Some(pos + k.len())
    } else {
        Option::None
    }
}

fn kw_at(s: &str, pos: usize, k: &str) -> (r: Option<usize>)
    requires
        pos <= s@.len(),
    ensures
        r matches Some(e) ==> spec_keyword(s@, pos as int, k@) == Some(e as int) && pos <= e
            <= s@.len(),
        r is None ==> spec_keyword(s@, pos as int, k@) is None,
{
    let n = s.unicode_len();
    if match_lit(s, pos, k) {
        let e = pos + k.unicode_len();
        if e == n || !is_ident_cont(s.get_char(e)) {
            Some(e)
        } else {
            None
        }
    } else {
        None
    }
}

/// Position after the run of identifier-continuation characters at `pos`.
pub open spec fn spec_ident_end(s: Seq<char>, pos: int) -> int
    decreases s.len() - pos,
{
    if pos < s.len() && is_ident_cont_char(s[pos]) {
        spec_ident_end(s, pos + 1)
    } else {
        pos
    }
}

pub proof fn lemma_ident_end_bounds(s: Seq<char>, pos: int)
    ensures
        pos <= spec_ident_end(s, pos),
        pos <= s.len() ==> spec_ident_end(s, pos) <= s.len(),
    decreases s.len() - pos,
{
    if pos < s.len() && is_ident_cont_char(s[pos]) {
        lemma_ident_end_bounds(s, pos + 1);
    }
}

fn ident_end(s: &str, pos: usize) -> (r: usize)
    requires
        pos <= s@.len(),
    ensures
        r == spec_ident_end(s@, pos as int),
        pos <= r <= s@.len(),
    decreases s@.len() - pos,
{
    if pos < s.unicode_len() && is_ident_cont(s.get_char(pos)) {
        ident_end(s, pos + 1)
    } else {
        pos
    }
}

/// An identifier: a start character followed by the maximal run of
/// continuation characters. Failing that, a "Valid identifier" expectation
/// at `pos`.
pub open spec fn spec_ident(s: Seq<char>, pos: int) -> Parsed<Seq<char>> {
    if pos < s.len() && is_ident_start_char(s[pos]) {
        let end = spec_ident_end(s, pos + 1);
        Parsed::Found(s.subrange(pos, end), end)
    } else {
        Parsed::Missing(pos, "Valid identifier"@)
    }
}

fn ident_at(s: &str, pos: usize) -> (r: Result<(Ident, usize), ParseError>)
    requires
        pos <= s@.len(),
    ensures
        r matches Ok((id, e)) ==> spec_ident(s@, pos as int) == Parsed::Found(id@, e as int)
            && pos < e <= s@.len(),
        r matches Err(err) ==> spec_ident(s@, pos as int) == Parsed::<Seq<char>>::Missing(
            err.offset as int,
            err.expected@,
        ) && pos <= err.offset <= s@.len(),
{
    let n = s.unicode_len();
    if pos < n && is_ident_start(s.get_char(pos)) {
        let end = ident_end(s, pos + 1);
        let txt = s.substring_char(pos, end);
        Ok((Ident::new(String::from_str(txt)), end))
    } else {
        Err(ParseError { offset: pos, expected: String::from_str("Valid identifier") })
    }
}

/// Number of characters left after stripping trailing whitespace from `l`.
pub open spec fn trim_end_len(l: Seq<char>) -> int
    decreases l.len(),
{
    if l.len() > 0 && is_space_char(l[l.len() - 1]) {
        trim_end_len(l.drop_last())
    } else {
        l.len() as int
    }
}

pub proof fn lemma_trim_end_len_bounds(l: Seq<char>)
    ensures
        0 <= trim_end_len(l) <= l.len(),
    decreases l.len(),
{
    if l.len() > 0 && is_space_char(l[l.len() - 1]) {
        lemma_trim_end_len_bounds(l.drop_last());
    }
}

/// `l` with its trailing whitespace stripped.
pub open spec fn spec_trim_end(l: Seq<char>) -> Seq<char> {
    l.subrange(0, trim_end_len(l))
}

/// Largest `r` with `p <= r <= t` such that the characters of `[r, t)` are
/// all whitespace and `s[r - 1]` is not.
fn scan_trim_end(s: &str, p: usize, t: usize) -> (r: usize)
    requires
        p <= t <= s@.len(),
    ensures
        p <= r <= t,
        r - p == trim_end_len(s@.subrange(p as int, t as int)),
    decreases t - p,
{
    if t > p && is_space(s.get_char(t - 1)) {
        proof {
            assert(s@.subrange(p as int, t as int).drop_last() =~= s@.subrange(
                p as int,
                t - 1,
            ));
        }
        scan_trim_end(s, p, t - 1)
    } else {
        t
    }
}

/// The text of `[p, t)` with trailing whitespace stripped, as an owned,
/// shared string.
fn trimmed_text(s: &str, p: usize, t: usize) -> (r: Rc<String>)
    requires
        p <= t <= s@.len(),
    ensures
        r@ == spec_trim_end(s@.subrange(p as int, t as int)),
{
    let e = scan_trim_end(s, p, t);
    let txt = s.substring_char(p, e);
    proof {
        lemma_trim_end_len_bounds(s@.subrange(p as int, t as int));
        assert(s@.subrange(p as int, e as int) =~= s@.subrange(p as int, t as int).subrange(
            0,
            trim_end_len(s@.subrange(p as int, t as int)),
        ));
    }
    Rc::new(String::from_str(txt))
}

/// The views of a sequence of string slices.
pub open spec fn strs_view(vs: Seq<&str>) -> Seq<Seq<char>> {
    vs.map(|i: int, s: &str| s@)
}

/// The concatenation of a sequence of character sequences.
pub open spec fn concat_all(vs: Seq<Seq<char>>) -> Seq<char>
    decreases vs.len(),
{
    if vs.len() == 0 {
        Seq::empty()
    } else {
        concat_all(vs.drop_last()) + vs.last()
    }
}

/// The pieces concatenated, with the trailing whitespace of the whole
/// stripped.
#[allow(non_snake_case)]
pub fn VecToStringTrimmed(v: Vec<&str>) -> (r: String)
    ensures
        r@ == spec_trim_end(concat_all(strs_view(v@))),
{
    let mut acc = String::new();
    let mut i: usize = 0;
    while i < v.len()
        invariant
            i <= v@.len(),
            acc@ == concat_all(strs_view(v@.take(i as int))),
        decreases v@.len() - i,
    {
        acc.append(v[i]);
        proof {
            assert(strs_view(v@.take(i + 1)).drop_last() =~= strs_view(v@.take(i as int)));
            assert(strs_view(v@.take(i + 1)).last() == v@[i as int]@);
        }
        i += 1;
    }
    proof {
        assert(v@.take(v@.len() as int) =~= v@);
    }
    let n = acc.as_str().unicode_len();
    let t = scan_trim_end(acc.as_str(), 0, n);
    let out = String::from_str(acc.as_str().substring_char(0, t));
    proof {
        lemma_trim_end_len_bounds(acc@);
        assert(acc@.subrange(0, n as int) =~= acc@);
        assert(out@ =~= spec_trim_end(acc@));
    }
    out
}

/// End of a block-comment line's content: the next line break, the start of
/// the closing `*/`, or the end of input.
pub open spec fn spec_bc_content_end(s: Seq<char>, pos: int) -> int
    decreases s.len() - pos,
{
    if pos >= s.len() {
        pos
    } else if s[pos] == '\n' {
        pos
    } else if s[pos] == '*' && pos + 1 < s.len() && s[pos + 1] == '/' {
        pos
    } else {
        spec_bc_content_end(s, pos + 1)
    }
}

pub proof fn lemma_bc_content_end_bounds(s: Seq<char>, pos: int)
    ensures
        pos <= spec_bc_content_end(s, pos),
        pos <= s.len() ==> spec_bc_content_end(s, pos) <= s.len(),
    decreases s.len() - pos,
{
    if pos < s.len() && s[pos] != '\n' && !(s[pos] == '*' && pos + 1 < s.len() && s[pos + 1]
        == '/') {
        lemma_bc_content_end_bounds(s, pos + 1);
    }
}

fn bc_content_end(s: &str, pos: usize) -> (r: usize)
    requires
        pos <= s@.len(),
    ensures
        r == spec_bc_content_end(s@, pos as int),
        pos <= r <= s@.len(),
    decreases s@.len() - pos,
{
    let n = s.unicode_len();
    if pos >= n {
        pos
    } else if s.get_char(pos) == '\n' {
        pos
    } else if s.get_char(pos) == '*' && pos + 1 < n && s.get_char(pos + 1) == '/' {
        pos
    } else {
        bc_content_end(s, pos + 1)
    }
}

/// Start of a block-comment line's text: a run of whitespace followed by
/// `* ` is consumed and discarded if present, otherwise nothing is.
pub open spec fn spec_bc_line_start(s: Seq<char>, pos: int) -> int {
    let w = spec_ws(s, pos);
    if w + 2 <= s.len() && s[w] == '*' && s[w + 1] == ' ' {
        w + 2
    } else {
        pos
    }
}

fn bc_line_start(s: &str, pos: usize) -> (r: usize)
    requires
        pos <= s@.len(),
    ensures
        r == spec_bc_line_start(s@, pos as int),
        pos <= r <= s@.len(),
{
    let w = ws(s, pos);
    let n = s.unicode_len();
    if n - w >= 2 && s.get_char(w) == '*' && s.get_char(w + 1) == ' ' {
        w + 2
    } else {
        pos
    }
}

/// One line of a block comment: the optional `* ` prefix is discarded, the
/// content runs to the line break or the closing `*/`, and trailing
/// whitespace is stripped.
pub open spec fn spec_bc_line(s: Seq<char>, pos: int) -> (Seq<char>, int) {
    let p = spec_bc_line_start(s, pos);
    let e = spec_bc_content_end(s, p);
    (spec_trim_end(s.subrange(p, e)), e)
}

fn bc_line(s: &str, pos: usize) -> (r: (Rc<String>, usize))
    requires
        pos <= s@.len(),
    ensures
        r.0@ == spec_bc_line(s@, pos as int).0,
        r.1 == spec_bc_line(s@, pos as int).1,
        pos <= r.1 <= s@.len(),
{
    let p = bc_line_start(s, pos);
    let e = bc_content_end(s, p);
    (trimmed_text(s, p, e), e)
}

/// The lines of a block comment, separated by line breaks, in source order.
pub open spec fn spec_bc_lines(s: Seq<char>, pos: int) -> (Seq<Seq<char>>, int)
    decreases s.len() - pos,
    via spec_bc_lines_dec
{
    let (l, e) = spec_bc_line(s, pos);
    if e < s.len() && s[e] == '\n' {
        let (rest, e2) = spec_bc_lines(s, e + 1);
        (seq![l] + rest, e2)
    } else {
        (seq![l], e)
    }
}

#[via_fn]
proof fn spec_bc_lines_dec(s: Seq<char>, pos: int) {
    lemma_ws_bounds(s, pos);
    lemma_bc_content_end_bounds(s, spec_bc_line_start(s, pos));
    assert(spec_bc_line(s, pos).1 >= pos);
}

fn bc_lines(s: &str, pos: usize) -> (r: (Vec<Rc<String>>, usize))
    requires
        pos <= s@.len(),
    ensures
        crate::ast::lines_view(r.0@) == spec_bc_lines(s@, pos as int).0,
        r.1 == spec_bc_lines(s@, pos as int).1,
        pos <= r.1 <= s@.len(),
    decreases s@.len() - pos,
{
    let (l, e) = bc_line(s, pos);
    let n = s.unicode_len();
    if e < n && s.get_char(e) == '\n' {
        let (mut rest, e2) = bc_lines(s, e + 1);
        let ghost prev = rest@;
        rest.insert(0, l);
        proof {
            assert(crate::ast::lines_view(rest@) =~= seq![l@] + crate::ast::lines_view(prev));
        }
        (rest, e2)
    } else {
        let mut v: Vec<Rc<String>> = Vec::new();
        let ghost lv = l@;
        v.push(l);
        proof {
            assert(crate::ast::lines_view(v@) =~= seq![lv]);
        }
        (v, e)
    }
}

/// A block comment: `/**`, whitespace, the lines, then the closing `*/`.
pub open spec fn spec_block_comment(s: Seq<char>, pos: int) -> Parsed<Seq<Seq<char>>> {
    if lit_matches(s, pos, "/**"@) {
        let w = spec_ws(s, pos + 3);
        let (ls, e) = spec_bc_lines(s, w);
        let w2 = spec_ws(s, e);
        if lit_matches(s, w2, "*/"@) {
            Parsed::Found(ls, w2 + 2)
        } else {
            Parsed::Missing(w2, "*/"@)
        }
    } else {
        Parsed::Missing(pos, "/**"@)
    }
}

fn block_comment_at(s: &str, pos: usize) -> (r: Result<(Vec<Rc<String>>, usize), ParseError>)
    requires
        pos <= s@.len(),
    ensures
        r matches Ok((ls, e)) ==> spec_block_comment(s@, pos as int) == Parsed::Found(
            crate::ast::lines_view(ls@),
            e as int,
        ) && pos <= e <= s@.len(),
        r matches Err(err) ==> spec_block_comment(s@, pos as int) == Parsed::<
            Seq<Seq<char>>,
        >::Missing(err.offset as int, err.expected@) && pos <= err.offset <= s@.len(),
{
    proof {
        reveal_strlit("/**");
        reveal_strlit("*/");
    }
    let n = s.unicode_len();
    if match_lit(s, pos, "/**") {
        let w = ws(s, pos + 3);
        let (ls, e) = bc_lines(s, w);
        let w2 = ws(s, e);
        if match_lit(s, w2, "*/") {
            Ok((ls, w2 + 2))
        } else {
            Err(ParseError { offset: w2, expected: String::from_str("*/") })
        }
    } else {
        Err(ParseError { offset: pos, expected: String::from_str("/**") })
    }
}

/// End of a line comment's content: the next line break or the end of input.
pub open spec fn spec_lc_end(s: Seq<char>, pos: int) -> int
    decreases s.len() - pos,
{
    if pos < s.len() && s[pos] != '\n' {
        spec_lc_end(s, pos + 1)
    } else {
        pos
    }
}

pub proof fn lemma_lc_end_bounds(s: Seq<char>, pos: int)
    ensures
        pos <= spec_lc_end(s, pos),
        pos <= s.len() ==> spec_lc_end(s, pos) <= s.len(),
    decreases s.len() - pos,
{
    if pos < s.len() && s[pos] != '\n' {
        lemma_lc_end_bounds(s, pos + 1);
    }
}

fn lc_end(s: &str, pos: usize) -> (r: usize)
    requires
        pos <= s@.len(),
    ensures
        r == spec_lc_end(s@, pos as int),
        pos <= r <= s@.len(),
        r < s@.len() ==> s@[r as int] == '\n',
    decreases s@.len() - pos,
{
    if pos < s.unicode_len() && s.get_char(pos) != '\n' {
        lc_end(s, pos + 1)
    } else {
        pos
    }
}

/// One line comment: whitespace, `///`, at most one space stripped, the
/// content with trailing whitespace stripped, and the terminating line
/// break.
pub open spec fn spec_line_comment(s: Seq<char>, pos: int) -> Parsed<Seq<char>> {
    let w = spec_ws(s, pos);
    if lit_matches(s, w, "///"@) {
        let p = if w + 3 < s.len() && s[w + 3] == ' ' {
            w + 4
        } else {
            w + 3
        };
        let e = spec_lc_end(s, p);
        if e < s.len() && s[e] == '\n' {
            Parsed::Found(spec_trim_end(s.subrange(p, e)), e + 1)
        } else {
            Parsed::Missing(e, "line break"@)
        }
    } else {
        Parsed::Missing(w, "///"@)
    }
}

pub proof fn lemma_line_comment_advances(s: Seq<char>, pos: int)
    ensures
        spec_line_comment(s, pos) matches Parsed::Found(l, e) ==> pos < e <= s.len(),
{
    lemma_ws_bounds(s, pos);
    let w = spec_ws(s, pos);
    if lit_matches(s, w, "///"@) {
        let p = if w + 3 < s.len() && s[w + 3] == ' ' {
            w + 4
        } else {
            w + 3
        };
        lemma_lc_end_bounds(s, p);
    }
}

fn line_comment_at(s: &str, pos: usize) -> (r: Result<(Rc<String>, usize), ParseError>)
    requires
        pos <= s@.len(),
    ensures
        r matches Ok((l, e)) ==> spec_line_comment(s@, pos as int) == Parsed::Found(
            l@,
            e as int,
        ) && pos < e <= s@.len(),
        r matches Err(err) ==> spec_line_comment(s@, pos as int) == Parsed::<
            Seq<char>,
        >::Missing(err.offset as int, err.expected@) && pos <= err.offset <= s@.len(),
{
    proof {
        reveal_strlit("///");
    }
    let n = s.unicode_len();
    let w = ws(s, pos);
    if match_lit(s, w, "///") {
        let p = if w + 3 < n && s.get_char(w + 3) == ' ' {
            w + 4
        } else {
            w + 3
        };
        let e = lc_end(s, p);
        if e < n {
            let l = trimmed_text(s, p, e);
            Ok((l, e + 1))
        } else {
            Err(ParseError { offset: e, expected: String::from_str("line break") })
        }
    } else {
        Err(ParseError { offset: w, expected: String::from_str("///") })
    }
}

/// Zero or more further line comments after a first one.
pub open spec fn spec_lc_more(s: Seq<char>, pos: int) -> (Seq<Seq<char>>, int)
    decreases s.len() - pos,
    via spec_lc_more_dec
{
    match spec_line_comment(s, pos) {
        Parsed::Found(l, e) => {
            let (rest, e2) = spec_lc_more(s, e);
            (seq![l] + rest, e2)
        },
        Parsed::Missing(o, m) => (seq![], pos),
    }
}

#[via_fn]
proof fn spec_lc_more_dec(s: Seq<char>, pos: int) {
    lemma_line_comment_advances(s, pos);
}

fn lc_more(s: &str, pos: usize) -> (r: (Vec<Rc<String>>, usize))
    requires
        pos <= s@.len(),
    ensures
        crate::ast::lines_view(r.0@) == spec_lc_more(s@, pos as int).0,
        r.1 == spec_lc_more(s@, pos as int).1,
        pos <= r.1 <= s@.len(),
    decreases s@.len() - pos,
{
    match line_comment_at(s, pos) {
        Ok((l, e)) => {
            let (mut rest, e2) = lc_more(s, e);
            let ghost prev = rest@;
            rest.insert(0, l);
            proof {
                assert(crate::ast::lines_view(rest@) =~= seq![l@] + crate::ast::lines_view(
                    prev,
                ));
            }
            (rest, e2)
        },
        Err(_) => {
            let v: Vec<Rc<String>> = Vec::new();
            proof {
                assert(crate::ast::lines_view(v@) =~= Seq::<Seq<char>>::empty());
                assert(spec_lc_more(s@, pos as int).0 =~= Seq::<Seq<char>>::empty());
            }
            (v, pos)
        },
    }
}

/// Documentation comments: a block comment, or else one or more consecutive
/// line comments, each mapping to one entry.
pub open spec fn spec_comments(s: Seq<char>, pos: int) -> Parsed<Seq<Seq<char>>> {
    match spec_block_comment(s, pos) {
        Parsed::Found(ls, e) => Parsed::Found(ls, e),
        Parsed::Missing(o1, m1) => match spec_line_comment(s, pos) {
            Parsed::Found(l, e) => {
                let (rest, e2) = spec_lc_more(s, e);
                Parsed::Found(seq![l] + rest, e2)
            },
            Parsed::Missing(o2, m2) => if o2 > o1 {
                Parsed::Missing(o2, m2)
            } else {
                Parsed::Missing(o1, m1)
            },
        },
    }
}

fn comments_at(s: &str, pos: usize) -> (r: Result<(CommentDefinition, usize), ParseError>)
    requires
        pos <= s@.len(),
    ensures
        r matches Ok((c, e)) ==> spec_comments(s@, pos as int) == Parsed::Found(c@, e as int)
            && pos <= e <= s@.len(),
        r matches Err(err) ==> spec_comments(s@, pos as int) == Parsed::<
            Seq<Seq<char>>,
        >::Missing(err.offset as int, err.expected@) && pos <= err.offset <= s@.len(),
{
    match block_comment_at(s, pos) {
        Ok((ls, e)) => Ok((CommentDefinition { lines: ls }, e)),
        Err(e1) => match line_comment_at(s, pos) {
            Ok((l, e)) => {
                let (mut rest, e2) = lc_more(s, e);
                let ghost prev = rest@;
                rest.insert(0, l);
                proof {
                    assert(crate::ast::lines_view(rest@) =~= seq![l@]
                        + crate::ast::lines_view(prev));
                }
                Ok((CommentDefinition { lines: rest }, e2))
            },
            Err(e2) => Err(
                if e2.offset > e1.offset {
                    e2
                } else {
                    e1
                },
            ),
        },
    }
}

/// Documentation comments at the start of `input`: a block comment
/// (`/** ... */`) or one or more `///` line comments. Returns the comment
/// and the number of characters consumed.
pub fn comments(input: &str) -> (r: Result<(CommentDefinition, usize), ParseError>)
    ensures
        r matches Ok((c, e)) ==> spec_comments(input@, 0) == Parsed::Found(c@, e as int) && e
            <= input@.len(),
        r matches Err(err) ==> spec_comments(input@, 0) == Parsed::<Seq<Seq<char>>>::Missing(
            err.offset as int,
            err.expected@,
        ) && err.offset <= input@.len(),
{
    comments_at(input, 0)
}

/// Ordered choice: the first alternative that matched, else the failure
/// that reached furthest (the earlier one on a tie).
pub open spec fn pick<T>(a: Parsed<T>, b: Parsed<T>) -> Parsed<T> {
    match a {
        Parsed::Found(_, _) => a,
        Parsed::Missing(o1, _) => match b {
            Parsed::Found(_, _) => b,
            Parsed::Missing(o2, _) => if o2 > o1 {
                b
            } else {
                a
            },
        },
    }
}

/// `a@ == b@`, decided character by character.
fn str_eqs(a: &str, b: &str) -> (r: bool)
    ensures
        r == (a@ == b@),
{
    let r = a.unicode_len() == b.unicode_len() && match_lit(a, 0, b);
    proof {
        if a@.len() == b@.len() {
            assert(a@.subrange(0, b@.len() as int) =~= a@);
        }
    }
    r
}

/// End of an unparsed annotation argument: the next `)` or the end of input.
pub open spec fn spec_rp_end(s: Seq<char>, pos: int) -> int
    decreases s.len() - pos,
{
    if pos < s.len() && s[pos] != ')' {
        spec_rp_end(s, pos + 1)
    } else {
        pos
    }
}

pub proof fn lemma_rp_end_bounds(s: Seq<char>, pos: int)
    ensures
        pos <= spec_rp_end(s, pos),
        pos <= s.len() ==> spec_rp_end(s, pos) <= s.len(),
    decreases s.len() - pos,
{
    if pos < s.len() && s[pos] != ')' {
        lemma_rp_end_bounds(s, pos + 1);
    }
}

fn rp_end(s: &str, pos: usize) -> (r: usize)
    requires
        pos <= s@.len(),
    ensures
        r == spec_rp_end(s@, pos as int),
        pos <= r <= s@.len(),
        r < s@.len() ==> s@[r as int] == ')',
    decreases s@.len() - pos,
{
    if pos < s.unicode_len() && s.get_char(pos) != ')' {
        rp_end(s, pos + 1)
    } else {
        pos
    }
}

/// A parenthesized type-name argument: `(`, an identifier, `)`.
pub open spec fn spec_anno_type(s: Seq<char>, pos: int) -> Parsed<Seq<char>> {
    if pos < s.len() && s[pos] == '(' {
        let w = spec_ws(s, pos + 1);
        match spec_ident(s, w) {
            Parsed::Found(id, e) => {
                let w2 = spec_ws(s, e);
                if w2 < s.len() && s[w2] == ')' {
                    Parsed::Found(id, w2 + 1)
                } else {
                    Parsed::Missing(w2, ")"@)
                }
            },
            Parsed::Missing(o, m) => Parsed::Missing(o, m),
        }
    } else {
        Parsed::Missing(pos, "("@)
    }
}

fn anno_type_at(s: &str, pos: usize) -> (r: Result<(Ident, usize), ParseError>)
    requires
        pos <= s@.len(),
    ensures
        r matches Ok((id, e)) ==> spec_anno_type(s@, pos as int) == Parsed::Found(
            id@,
            e as int,
        ) && pos < e <= s@.len(),
        r matches Err(err) ==> spec_anno_type(s@, pos as int) == Parsed::<
            Seq<char>,
        >::Missing(err.offset as int, err.expected@) && pos <= err.offset <= s@.len(),
{
    let n = s.unicode_len();
    if pos < n && s.get_char(pos) == '(' {
        let w = ws(s, pos + 1);
        match ident_at(s, w) {
            Ok((id, e)) => {
                let w2 = ws(s, e);
                if w2 < n && s.get_char(w2) == ')' {
                    Ok((id, w2 + 1))
                } else {
                    Err(ParseError { offset: w2, expected: String::from_str(")") })
                }
            },
            Err(err) => Err(err),
        }
    } else {
        Err(ParseError { offset: pos, expected: String::from_str("(") })
    }
}

/// The `@replaceGlobal()` annotation: no argument.
pub open spec fn spec_anno_rg(s: Seq<char>, pos: int) -> Parsed<AnnotationV> {
    match spec_keyword(s, pos, "@replaceGlobal"@) {
        Option::Some(e) => {
            let w = spec_ws(s, e);
            if w < s.len() && s[w] == '(' {
                let w2 = spec_ws(s, w + 1);
                if w2 < s.len() && s[w2] == ')' {
                    Parsed::Found(AnnotationV::ReplaceGlobal, w2 + 1)
                } else {
                    Parsed::Missing(w2, ")"@)
                }
            } else {
                Parsed::Missing(w, "("@)
            }
        },
        Option::None => Parsed::Missing(pos, "@replaceGlobal"@),
    }
}

/// An annotation with a type-name argument, one of the three recognized
/// keywords.
pub open spec fn spec_anno_arg(s: Seq<char>, pos: int, k: Seq<char>) -> Parsed<Seq<char>> {
    match spec_keyword(s, pos, k) {
        Option::Some(e) => {
            let w = spec_ws(s, e);
            spec_anno_type(s, w)
        },
        Option::None => Parsed::Missing(pos, k),
    }
}

/// The lossless fallback: `@`, any identifier, and the raw argument text up
/// to the closing `)` preserved verbatim.
pub open spec fn spec_anno_unsup(s: Seq<char>, pos: int) -> Parsed<AnnotationV> {
    if pos < s.len() && s[pos] == '@' {
        match spec_ident(s, pos + 1) {
            Parsed::Found(id, e) => {
                let w = spec_ws(s, e);
                if w < s.len() && s[w] == '(' {
                    let rp = spec_rp_end(s, w + 1);
                    if rp < s.len() {
                        Parsed::Found(
                            AnnotationV::Unsupported(id, s.subrange(w + 1, rp)),
                            rp + 1,
                        )
                    } else {
                        Parsed::Missing(rp, ")"@)
                    }
                } else {
                    Parsed::Missing(w, "("@)
                }
            },
            Parsed::Missing(o, m) => Parsed::Missing(o, m),
        }
    } else {
        Parsed::Missing(pos, "@"@)
    }
}

/// Lift an argument-carrying alternative to an annotation value.
pub open spec fn lift_anno(
    r: Parsed<Seq<char>>,
    which: spec_fn(Seq<char>) -> AnnotationV,
) -> Parsed<AnnotationV> {
    match r {
        Parsed::Found(id, e) => Parsed::Found(which(id), e),
        Parsed::Missing(o, m) => Parsed::Missing(o, m),
    }
}

/// A modding annotation: the four recognized shapes tried in order, then
/// the lossless fallback.
pub open spec fn spec_annotation(s: Seq<char>, pos: int) -> Parsed<AnnotationV> {
    pick(
        pick(
            pick(
                pick(
                    spec_anno_rg(s, pos),
                    lift_anno(
                        spec_anno_arg(s, pos, "@replaceMethod"@),
                        |id: Seq<char>| AnnotationV::ReplaceMethod(id),
                    ),
                ),
                lift_anno(
                    spec_anno_arg(s, pos, "@addMethod"@),
                    |id: Seq<char>| AnnotationV::AddMethod(id),
                ),
            ),
            lift_anno(
                spec_anno_arg(s, pos, "@addField"@),
                |id: Seq<char>| AnnotationV::AddField(id),
            ),
        ),
        spec_anno_unsup(s, pos),
    )
}

fn anno_arg_at(s: &str, pos: usize, k: &str) -> (r: Result<(Ident, usize), ParseError>)
    requires
        pos <= s@.len(),
    ensures
        r matches Ok((id, e)) ==> spec_anno_arg(s@, pos as int, k@) == Parsed::Found(
            id@,
            e as int,
        ) && pos < e <= s@.len(),
        r matches Err(err) ==> spec_anno_arg(s@, pos as int, k@) == Parsed::<
            Seq<char>,
        >::Missing(err.offset as int, err.expected@) && pos <= err.offset <= s@.len(),
{
    match kw_at(s, pos, k) {
        Some(e) => {
            let w = ws(s, e);
            anno_type_at(s, w)
        },
        None => Err(ParseError { offset: pos, expected: String::from_str(k) }),
    }
}

fn annotation_at(s: &str, pos: usize) -> (r: Result<(Annotation, usize), ParseError>)
    requires
        pos <= s@.len(),
    ensures
        r matches Ok((a, e)) ==> spec_annotation(s@, pos as int) == Parsed::Found(
            a@,
            e as int,
        ) && pos < e <= s@.len(),
        r matches Err(err) ==> spec_annotation(s@, pos as int) == Parsed::<
            crate::ast::AnnotationV,
        >::Missing(err.offset as int, err.expected@) && pos <= err.offset <= s@.len(),
{
    let n = s.unicode_len();
    // `@replaceGlobal()`
    let err1: ParseError;
    match kw_at(s, pos, "@replaceGlobal") {
        Some(e) => {
            let w = ws(s, e);
            if w < n && s.get_char(w) == '(' {
                let w2 = ws(s, w + 1);
                if w2 < n && s.get_char(w2) == ')' {
                    return Ok((Annotation::ReplaceGlobal, w2 + 1));
                } else {
                    err1 = ParseError { offset: w2, expected: String::from_str(")") };
                }
            } else {
                err1 = ParseError { offset: w, expected: String::from_str("(") };
            }
        },
        None => {
            err1 = ParseError { offset: pos, expected: String::from_str("@replaceGlobal") };
        },
    }
    let mut best = err1;
    match anno_arg_at(s, pos, "@replaceMethod") {
        Ok((id, e)) => {
            return Ok((Annotation::ReplaceMethod(id), e));
        },
        Err(err) => {
            if err.offset > best.offset {
                best = err;
            }
        },
    }
    match anno_arg_at(s, pos, "@addMethod") {
        Ok((id, e)) => {
            return Ok((Annotation::AddMethod(id), e));
        },
        Err(err) => {
            if err.offset > best.offset {
                best = err;
            }
        },
    }
    match anno_arg_at(s, pos, "@addField") {
        Ok((id, e)) => {
            return Ok((Annotation::AddField(id), e));
        },
        Err(err) => {
            if err.offset > best.offset {
                best = err;
            }
        },
    }
    // the lossless fallback
    if pos < n && s.get_char(pos) == '@' {
        match ident_at(s, pos + 1) {
            Ok((id, e)) => {
                let w = ws(s, e);
                if w < n && s.get_char(w) == '(' {
                    let rp = rp_end(s, w + 1);
                    if rp < n {
                        let raw = Rc::new(String::from_str(s.substring_char(w + 1, rp)));
                        return Ok((Annotation::Unsupported(id, raw), rp + 1));
                    } else if rp > best.offset {
                        best = ParseError { offset: rp, expected: String::from_str(")") };
                    }
                } else if w > best.offset {
                    best = ParseError { offset: w, expected: String::from_str("(") };
                }
            },
            Err(err) => {
                if err.offset > best.offset {
                    best = err;
                }
            },
        }
    } else if pos > best.offset {
        best = ParseError { offset: pos, expected: String::from_str("@") };
    }
    Err(best)
}

pub proof fn lemma_annotation_advances(s: Seq<char>, pos: int)
    ensures
        spec_annotation(s, pos) matches Parsed::Found(a, e) ==> pos < e <= s.len(),
{
    match spec_keyword(s, pos, "@replaceGlobal"@) {
        Option::Some(e1) => {
            lemma_ws_bounds(s, e1);
            let w = spec_ws(s, e1);
            lemma_ws_bounds(s, w + 1);
        },
        Option::None => {},
    }
    lemma_anno_arg_advances(s, pos, "@replaceMethod"@);
    lemma_anno_arg_advances(s, pos, "@addMethod"@);
    lemma_anno_arg_advances(s, pos, "@addField"@);
    if pos < s.len() && s[pos] == '@' {
        lemma_ident_end_bounds(s, pos + 2);
        match spec_ident(s, pos + 1) {
            Parsed::Found(id, e) => {
                lemma_ws_bounds(s, e);
                let w = spec_ws(s, e);
                lemma_rp_end_bounds(s, w + 1);
            },
            Parsed::Missing(_, _) => {},
        }
    }
}

pub proof fn lemma_anno_arg_advances(s: Seq<char>, pos: int, k: Seq<char>)
    ensures
        spec_anno_arg(s, pos, k) matches Parsed::Found(id, e) ==> pos < e <= s.len(),
{
    match spec_keyword(s, pos, k) {
        Option::Some(e1) => {
            lemma_ws_bounds(s, e1);
            let w = spec_ws(s, e1);
            if w < s.len() && s[w] == '(' {
                lemma_ws_bounds(s, w + 1);
                let w2 = spec_ws(s, w + 1);
                lemma_ident_end_bounds(s, w2 + 1);
                match spec_ident(s, w2) {
                    Parsed::Found(id, e2) => {
                        lemma_ws_bounds(s, e2);
                    },
                    Parsed::Missing(_, _) => {},
                }
            }
        },
        Option::None => {},
    }
}

/// Zero or more space-separated annotations.
pub open spec fn spec_annos(s: Seq<char>, pos: int) -> (Seq<crate::ast::AnnotationV>, int)
    decreases s.len() - pos,
    via spec_annos_dec
{
    match spec_annotation(s, pos) {
        Parsed::Found(a, e) => {
            let (rest, e2) = spec_annos(s, spec_ws(s, e));
            if rest.len() == 0 {
                (seq![a], e)
            } else {
                (seq![a] + rest, e2)
            }
        },
        Parsed::Missing(_, _) => (seq![], pos),
    }
}

#[via_fn]
proof fn spec_annos_dec(s: Seq<char>, pos: int) {
    lemma_annotation_advances(s, pos);
    match spec_annotation(s, pos) {
        Parsed::Found(a, e) => {
            lemma_ws_bounds(s, e);
        },
        Parsed::Missing(_, _) => {},
    }
}

fn annos_at(s: &str, pos: usize) -> (r: (Vec<Annotation>, usize))
    requires
        pos <= s@.len(),
    ensures
        crate::ast::annos_view(r.0@) == spec_annos(s@, pos as int).0,
        r.1 == spec_annos(s@, pos as int).1,
        pos <= r.1 <= s@.len(),
    decreases s@.len() - pos,
{
    match annotation_at(s, pos) {
        Ok((a, e)) => {
            let w = ws(s, e);
            let (mut rest, e2) = annos_at(s, w);
            if rest.len() == 0 {
                let ghost av = a@;
                let mut v: Vec<Annotation> = Vec::new();
                v.push(a);
                proof {
                    assert(crate::ast::annos_view(v@) =~= seq![av]);
                    assert(crate::ast::annos_view(rest@) =~= Seq::<
                        crate::ast::AnnotationV,
                    >::empty());
                }
                (v, e)
            } else {
                let ghost prev = rest@;
                rest.insert(0, a);
                proof {
                    assert(crate::ast::annos_view(rest@) =~= seq![a@]
                        + crate::ast::annos_view(prev));
                    assert(crate::ast::annos_view(prev).len() != 0);
                }
                (rest, e2)
            }
        },
        Err(_) => {
            let v: Vec<Annotation> = Vec::new();
            proof {
                assert(crate::ast::annos_view(v@) =~= Seq::<crate::ast::AnnotationV>::empty());
            }
            (v, pos)
        },
    }
}

/// One alternative of a keyword choice: the tag `v` if keyword `k` is at
/// `pos`, else the next alternative `els`.
pub open spec fn kw_val<T>(s: Seq<char>, pos: int, k: Seq<char>, v: T, els: Parsed<T>) -> Parsed<
    T,
> {
    match spec_keyword(s, pos, k) {
        Option::Some(e) => Parsed::Found(v, e),
        Option::None => els,
    }
}

/// A visibility keyword: `public`, `protected` or `private`.
pub open spec fn spec_visibility(s: Seq<char>, pos: int) -> Parsed<Visibility> {
    kw_val(
        s,
        pos,
        "public"@,
        Visibility::Public,
        kw_val(
            s,
            pos,
            "protected"@,
            Visibility::Protected,
            kw_val(
                s,
                pos,
                "private"@,
                Visibility::Private,
                Parsed::Missing(pos, "visibility"@),
            ),
        ),
    )
}

fn visibility_at(s: &str, pos: usize) -> (r: Result<(Visibility, usize), ParseError>)
    requires
        pos <= s@.len(),
    ensures
        r matches Ok((v, e)) ==> spec_visibility(s@, pos as int) == Parsed::Found(v, e as int)
            && pos <= e <= s@.len(),
        r matches Err(err) ==> spec_visibility(s@, pos as int) == Parsed::<
            Visibility,
        >::Missing(err.offset as int, err.expected@) && pos <= err.offset <= s@.len(),
{
    if let Some(e) = kw_at(s, pos, "public") {
        return Ok((Visibility::Public, e));
    }
    if let Some(e) = kw_at(s, pos, "protected") {
        return Ok((Visibility::Protected, e));
    }
    if let Some(e) = kw_at(s, pos, "private") {
        return Ok((Visibility::Private, e));
    }
    Err(ParseError { offset: pos, expected: String::from_str("visibility") })
}

/// A field qualifier keyword. Both `native` and `persistent` map to the
/// `Native` tag, as the grammar has always done.
pub open spec fn spec_field_qual(s: Seq<char>, pos: int) -> Parsed<FieldQualifier> {
    kw_val(
        s,
        pos,
        "const"@,
        FieldQualifier::Const,
        kw_val(
            s,
            pos,
            "edit"@,
            FieldQualifier::Edit,
            kw_val(
                s,
                pos,
                "final"@,
                FieldQualifier::Final,
                kw_val(
                    s,
                    pos,
                    "native"@,
                    FieldQualifier::Native,
                    kw_val(
                        s,
                        pos,
                        "persistent"@,
                        FieldQualifier::Native,
                        kw_val(
                            s,
                            pos,
                            "static"@,
                            FieldQualifier::Static,
                            Parsed::Missing(pos, "field qualifier"@),
                        ),
                    ),
                ),
            ),
        ),
    )
}

pub proof fn lemma_field_qual_advances(s: Seq<char>, pos: int)
    ensures
        spec_field_qual(s, pos) matches Parsed::Found(q, e) ==> pos < e <= s.len(),
{
    reveal_strlit("const");
    reveal_strlit("edit");
    reveal_strlit("final");
    reveal_strlit("native");
    reveal_strlit("persistent");
    reveal_strlit("static");
}

fn field_qual_at(s: &str, pos: usize) -> (r: Result<(FieldQualifier, usize), ParseError>)
    requires
        pos <= s@.len(),
    ensures
        r matches Ok((q, e)) ==> spec_field_qual(s@, pos as int) == Parsed::Found(q, e as int)
            && pos < e <= s@.len(),
        r matches Err(err) ==> spec_field_qual(s@, pos as int) == Parsed::<
            FieldQualifier,
        >::Missing(err.offset as int, err.expected@) && pos <= err.offset <= s@.len(),
{
    proof {
        lemma_field_qual_advances(s@, pos as int);
    }
    if let Some(e) = kw_at(s, pos, "const") {
        return Ok((FieldQualifier::Const, e));
    }
    if let Some(e) = kw_at(s, pos, "edit") {
        return Ok((FieldQualifier::Edit, e));
    }
    if let Some(e) = kw_at(s, pos, "final") {
        return Ok((FieldQualifier::Final, e));
    }
    if let Some(e) = kw_at(s, pos, "native") {
        return Ok((FieldQualifier::Native, e));
    }
    if let Some(e) = kw_at(s, pos, "persistent") {
        return Ok((FieldQualifier::Native, e));
    }
    if let Some(e) = kw_at(s, pos, "static") {
        return Ok((FieldQualifier::Static, e));
    }
    Err(ParseError { offset: pos, expected: String::from_str("field qualifier") })
}

/// A function qualifier keyword.
pub open spec fn spec_func_qual(s: Seq<char>, pos: int) -> Parsed<FuncQualifier> {
    kw_val(
        s,
        pos,
        "abstract"@,
        FuncQualifier::Abstract,
        kw_val(
            s,
            pos,
            "cb"@,
            FuncQualifier::Callback,
            kw_val(
                s,
                pos,
                "const"@,
                FuncQualifier::Const,
                kw_val(
                    s,
                    pos,
                    "exec"@,
                    FuncQualifier::Exec,
                    kw_val(
                        s,
                        pos,
                        "final"@,
                        FuncQualifier::Final,
                        kw_val(
                            s,
                            pos,
                            "native"@,
                            FuncQualifier::Native,
                            kw_val(
                                s,
                                pos,
                                "static"@,
                                FuncQualifier::Static,
                                Parsed::Missing(pos, "function qualifier"@),
                            ),
                        ),
                    ),
                ),
            ),
        ),
    )
}

pub proof fn lemma_func_qual_advances(s: Seq<char>, pos: int)
    ensures
        spec_func_qual(s, pos) matches Parsed::Found(q, e) ==> pos < e <= s.len(),
{
    reveal_strlit("abstract");
    reveal_strlit("cb");
    reveal_strlit("const");
    reveal_strlit("exec");
    reveal_strlit("final");
    reveal_strlit("native");
    reveal_strlit("static");
}

fn func_qual_at(s: &str, pos: usize) -> (r: Result<(FuncQualifier, usize), ParseError>)
    requires
        pos <= s@.len(),
    ensures
        r matches Ok((q, e)) ==> spec_func_qual(s@, pos as int) == Parsed::Found(q, e as int)
            && pos < e <= s@.len(),
        r matches Err(err) ==> spec_func_qual(s@, pos as int) == Parsed::<
            FuncQualifier,
        >::Missing(err.offset as int, err.expected@) && pos <= err.offset <= s@.len(),
{
    proof {
        lemma_func_qual_advances(s@, pos as int);
    }
    if let Some(e) = kw_at(s, pos, "abstract") {
        return Ok((FuncQualifier::Abstract, e));
    }
    if let Some(e) = kw_at(s, pos, "cb") {
        return Ok((FuncQualifier::Callback, e));
    }
    if let Some(e) = kw_at(s, pos, "const") {
        return Ok((FuncQualifier::Const, e));
    }
    if let Some(e) = kw_at(s, pos, "exec") {
        return Ok((FuncQualifier::Exec, e));
    }
    if let Some(e) = kw_at(s, pos, "final") {
        return Ok((FuncQualifier::Final, e));
    }
    if let Some(e) = kw_at(s, pos, "native") {
        return Ok((FuncQualifier::Native, e));
    }
    if let Some(e) = kw_at(s, pos, "static") {
        return Ok((FuncQualifier::Static, e));
    }
    Err(ParseError { offset: pos, expected: String::from_str("function qualifier") })
}

/// A parameter qualifier keyword.
pub open spec fn spec_param_qual(s: Seq<char>, pos: int) -> Parsed<ParamQualifier> {
    kw_val(
        s,
        pos,
        "out"@,
        ParamQualifier::Out,
        kw_val(
            s,
            pos,
            "opt"@,
            ParamQualifier::Optional,
            Parsed::Missing(pos, "parameter qualifier"@),
        ),
    )
}

pub proof fn lemma_param_qual_advances(s: Seq<char>, pos: int)
    ensures
        spec_param_qual(s, pos) matches Parsed::Found(q, e) ==> pos < e <= s.len(),
{
    reveal_strlit("out");
    reveal_strlit("opt");
}

fn param_qual_at(s: &str, pos: usize) -> (r: Result<(ParamQualifier, usize), ParseError>)
    requires
        pos <= s@.len(),
    ensures
        r matches Ok((q, e)) ==> spec_param_qual(s@, pos as int) == Parsed::Found(q, e as int)
            && pos < e <= s@.len(),
        r matches Err(err) ==> spec_param_qual(s@, pos as int) == Parsed::<
            ParamQualifier,
        >::Missing(err.offset as int, err.expected@) && pos <= err.offset <= s@.len(),
{
    proof {
        lemma_param_qual_advances(s@, pos as int);
    }
    if let Some(e) = kw_at(s, pos, "out") {
        return Ok((ParamQualifier::Out, e));
    }
    if let Some(e) = kw_at(s, pos, "opt") {
        return Ok((ParamQualifier::Optional, e));
    }
    Err(ParseError { offset: pos, expected: String::from_str("parameter qualifier") })
}

/// Zero or more space-separated field qualifiers.
pub open spec fn spec_field_quals(s: Seq<char>, pos: int) -> (Seq<FieldQualifier>, int)
    decreases s.len() - pos,
    via spec_field_quals_dec
{
    match spec_field_qual(s, pos) {
        Parsed::Found(q, e) => {
            let (rest, e2) = spec_field_quals(s, spec_ws(s, e));
            if rest.len() == 0 {
                (seq![q], e)
            } else {
                (seq![q] + rest, e2)
            }
        },
        Parsed::Missing(_, _) => (seq![], pos),
    }
}

#[via_fn]
proof fn spec_field_quals_dec(s: Seq<char>, pos: int) {
    lemma_field_qual_advances(s, pos);
    match spec_field_qual(s, pos) {
        Parsed::Found(q, e) => {
            lemma_ws_bounds(s, e);
        },
        Parsed::Missing(_, _) => {},
    }
}

fn field_quals_at(s: &str, pos: usize) -> (r: (Vec<FieldQualifier>, usize))
    requires
        pos <= s@.len(),
    ensures
        r.0@ == spec_field_quals(s@, pos as int).0,
        r.1 == spec_field_quals(s@, pos as int).1,
        pos <= r.1 <= s@.len(),
    decreases s@.len() - pos,
{
    match field_qual_at(s, pos) {
        Ok((q, e)) => {
            let w = ws(s, e);
            let (mut rest, e2) = field_quals_at(s, w);
            if rest.len() == 0 {
                let mut v: Vec<FieldQualifier> = Vec::new();
                v.push(q);
                proof {
                    assert(v@ =~= seq![q]);
                }
                (v, e)
            } else {
                let ghost prev = rest@;
                rest.insert(0, q);
                proof {
                    assert(rest@ =~= seq![q] + prev);
                }
                (rest, e2)
            }
        },
        Err(_) => {
            let v: Vec<FieldQualifier> = Vec::new();
            proof {
                assert(v@ =~= Seq::<FieldQualifier>::empty());
                assert(spec_field_quals(s@, pos as int).0 =~= Seq::<FieldQualifier>::empty());
            }
            (v, pos)
        },
    }
}

/// Zero or more space-separated function qualifiers.
pub open spec fn spec_func_quals(s: Seq<char>, pos: int) -> (Seq<FuncQualifier>, int)
    decreases s.len() - pos,
    via spec_func_quals_dec
{
    match spec_func_qual(s, pos) {
        Parsed::Found(q, e) => {
            let (rest, e2) = spec_func_quals(s, spec_ws(s, e));
            if rest.len() == 0 {
                (seq![q], e)
            } else {
                (seq![q] + rest, e2)
            }
        },
        Parsed::Missing(_, _) => (seq![], pos),
    }
}

#[via_fn]
proof fn spec_func_quals_dec(s: Seq<char>, pos: int) {
    lemma_func_qual_advances(s, pos);
    match spec_func_qual(s, pos) {
        Parsed::Found(q, e) => {
            lemma_ws_bounds(s, e);
        },
        Parsed::Missing(_, _) => {},
    }
}

fn func_quals_at(s: &str, pos: usize) -> (r: (Vec<FuncQualifier>, usize))
    requires
        pos <= s@.len(),
    ensures
        r.0@ == spec_func_quals(s@, pos as int).0,
        r.1 == spec_func_quals(s@, pos as int).1,
        pos <= r.1 <= s@.len(),
    decreases s@.len() - pos,
{
    match func_qual_at(s, pos) {
        Ok((q, e)) => {
            let w = ws(s, e);
            let (mut rest, e2) = func_quals_at(s, w);
            if rest.len() == 0 {
                let mut v: Vec<FuncQualifier> = Vec::new();
                v.push(q);
                proof {
                    assert(v@ =~= seq![q]);
                }
                (v, e)
            } else {
                let ghost prev = rest@;
                rest.insert(0, q);
                proof {
                    assert(rest@ =~= seq![q] + prev);
                }
                (rest, e2)
            }
        },
        Err(_) => {
            let v: Vec<FuncQualifier> = Vec::new();
            proof {
                assert(v@ =~= Seq::<FuncQualifier>::empty());
                assert(spec_func_quals(s@, pos as int).0 =~= Seq::<FuncQualifier>::empty());
            }
            (v, pos)
        },
    }
}

/// Zero or more space-separated parameter qualifiers.
pub open spec fn spec_param_quals(s: Seq<char>, pos: int) -> (Seq<ParamQualifier>, int)
    decreases s.len() - pos,
    via spec_param_quals_dec
{
    match spec_param_qual(s, pos) {
        Parsed::Found(q, e) => {
            let (rest, e2) = spec_param_quals(s, spec_ws(s, e));
            if rest.len() == 0 {
                (seq![q], e)
            } else {
                (seq![q] + rest, e2)
            }
        },
        Parsed::Missing(_, _) => (seq![], pos),
    }
}

#[via_fn]
proof fn spec_param_quals_dec(s: Seq<char>, pos: int) {
    lemma_param_qual_advances(s, pos);
    match spec_param_qual(s, pos) {
        Parsed::Found(q, e) => {
            lemma_ws_bounds(s, e);
        },
        Parsed::Missing(_, _) => {},
    }
}

fn param_quals_at(s: &str, pos: usize) -> (r: (Vec<ParamQualifier>, usize))
    requires
        pos <= s@.len(),
    ensures
        r.0@ == spec_param_quals(s@, pos as int).0,
        r.1 == spec_param_quals(s@, pos as int).1,
        pos <= r.1 <= s@.len(),
    decreases s@.len() - pos,
{
    match param_qual_at(s, pos) {
        Ok((q, e)) => {
            let w = ws(s, e);
            let (mut rest, e2) = param_quals_at(s, w);
            if rest.len() == 0 {
                let mut v: Vec<ParamQualifier> = Vec::new();
                v.push(q);
                proof {
                    assert(v@ =~= seq![q]);
                }
                (v, e)
            } else {
                let ghost prev = rest@;
                rest.insert(0, q);
                proof {
                    assert(rest@ =~= seq![q] + prev);
                }
                (rest, e2)
            }
        },
        Err(_) => {
            let v: Vec<ParamQualifier> = Vec::new();
            proof {
                assert(v@ =~= Seq::<ParamQualifier>::empty());
                assert(spec_param_quals(s@, pos as int).0 =~= Seq::<ParamQualifier>::empty());
            }
            (v, pos)
        },
    }
}

/// One of the 13 scalar type keywords.
pub open spec fn spec_scalar(s: Seq<char>, pos: int) -> Parsed<ScalarType> {
    kw_val(
        s,
        pos,
        "Void"@,
        ScalarType::Void,
        kw_val(
            s,
            pos,
            "Variant"@,
            ScalarType::Variant,
            kw_val(
                s,
                pos,
                "Bool"@,
                ScalarType::Bool,
                kw_val(
                    s,
                    pos,
                    "Int32"@,
                    ScalarType::I32,
                    kw_val(
                        s,
                        pos,
                        "Int64"@,
                        ScalarType::I64,
                        kw_val(
                            s,
                            pos,
                            "Uint32"@,
                            ScalarType::U32,
                            kw_val(
                                s,
                                pos,
                                "Uint64"@,
                                ScalarType::U64,
                                kw_val(
                                    s,
                                    pos,
                                    "Float"@,
                                    ScalarType::F32,
                                    kw_val(
                                        s,
                                        pos,
                                        "Double"@,
                                        ScalarType::F64,
                                        kw_val(
                                            s,
                                            pos,
                                            "String"@,
                                            ScalarType::String,
                                            kw_val(
                                                s,
                                                pos,
                                                "CName"@,
                                                ScalarType::CName,
                                                kw_val(
                                                    s,
                                                    pos,
                                                    "ResRef"@,
                                                    ScalarType::Resource,
                                                    kw_val(
                                                        s,
                                                        pos,
                                                        "TweakDBID"@,
                                                        ScalarType::TweakDBID,
                                                        Parsed::Missing(
                                                            pos,
                                                            "scalar type"@,
                                                        ),
                                                    ),
                                                ),
                                            ),
                                        ),
                                    ),
                                ),
                            ),
                        ),
                    ),
                ),
            ),
        ),
    )
}

fn scalar_at(s: &str, pos: usize) -> (r: Result<(ScalarType, usize), ParseError>)
    requires
        pos <= s@.len(),
    ensures
        r matches Ok((v, e)) ==> spec_scalar(s@, pos as int) == Parsed::Found(v, e as int)
            && pos <= e <= s@.len(),
        r matches Err(err) ==> spec_scalar(s@, pos as int) == Parsed::<ScalarType>::Missing(
            err.offset as int,
            err.expected@,
        ) && pos <= err.offset <= s@.len(),
{
    if let Some(e) = kw_at(s, pos, "Void") {
        return Ok((ScalarType::Void, e));
    }
    if let Some(e) = kw_at(s, pos, "Variant") {
        return Ok((ScalarType::Variant, e));
    }
    if let Some(e) = kw_at(s, pos, "Bool") {
        return Ok((ScalarType::Bool, e));
    }
    if let Some(e) = kw_at(s, pos, "Int32") {
        return Ok((ScalarType::I32, e));
    }
    if let Some(e) = kw_at(s, pos, "Int64") {
        return Ok((ScalarType::I64, e));
    }
    if let Some(e) = kw_at(s, pos, "Uint32") {
        return Ok((ScalarType::U32, e));
    }
    if let Some(e) = kw_at(s, pos, "Uint64") {
        return Ok((ScalarType::U64, e));
    }
    if let Some(e) = kw_at(s, pos, "Float") {
        return Ok((ScalarType::F32, e));
    }
    if let Some(e) = kw_at(s, pos, "Double") {
        return Ok((ScalarType::F64, e));
    }
    if let Some(e) = kw_at(s, pos, "String") {
        return Ok((ScalarType::String, e));
    }
    if let Some(e) = kw_at(s, pos, "CName") {
        return Ok((ScalarType::CName, e));
    }
    if let Some(e) = kw_at(s, pos, "ResRef") {
        return Ok((ScalarType::Resource, e));
    }
    if let Some(e) = kw_at(s, pos, "TweakDBID") {
        return Ok((ScalarType::TweakDBID, e));
    }
    Err(ParseError { offset: pos, expected: String::from_str("scalar type") })
}

/// The identifiers reserved for container types.
pub open spec fn container_of(id: Seq<char>) -> Option<ContainerType> {
    if id == "array"@ {
        Option::Some(ContainerType::Array)
    } else if id == "ref"@ {
        Option::Some(ContainerType::Ref)
    } else if id == "wref"@ {
        Option::Some(ContainerType::WeakRef)
    } else if id == "script_ref"@ {
        Option::Some(ContainerType::ScriptRef)
    } else {
        Option::None
    }
}

/// A type expression, tried in order: a scalar keyword; a bare identifier
/// that is not a reserved container keyword, as a compound type; a container
/// keyword with its bracketed type argument.
pub open spec fn spec_type(s: Seq<char>, pos: int) -> Parsed<Seq<TypeNodeV>>
    decreases s.len() - pos, 1int,
    via spec_type_dec
{
    match spec_scalar(s, pos) {
        Parsed::Found(sc, e) => Parsed::Found(seq![TypeNodeV::Scalar(sc)], e),
        Parsed::Missing(_, _) => match spec_ident(s, pos) {
            Parsed::Missing(_, _) => Parsed::Missing(pos, "type"@),
            Parsed::Found(id, e) => match container_of(id) {
                Option::None => Parsed::Found(seq![TypeNodeV::Compound(id)], e),
                Option::Some(ck) => match spec_type_args(s, e) {
                    Parsed::Found(sub, e2) => Parsed::Found(
                        seq![TypeNodeV::Container(ck)] + sub,
                        e2,
                    ),
                    Parsed::Missing(o, m) => Parsed::Missing(o, m),
                },
            },
        },
    }
}

/// A bracketed type argument: `<`, a type, `>`.
pub open spec fn spec_type_args(s: Seq<char>, pos: int) -> Parsed<Seq<TypeNodeV>>
    decreases s.len() - pos, 0int,
    via spec_type_args_dec
{
    if pos < s.len() && s[pos] == '<' {
        let w = spec_ws(s, pos + 1);
        match spec_type(s, w) {
            Parsed::Found(t, e) => {
                let w2 = spec_ws(s, e);
                if w2 < s.len() && s[w2] == '>' {
                    Parsed::Found(t, w2 + 1)
                } else {
                    Parsed::Missing(w2, ">"@)
                }
            },
            Parsed::Missing(o, m) => Parsed::Missing(o, m),
        }
    } else {
        Parsed::Missing(pos, "<"@)
    }
}

#[via_fn]
proof fn spec_type_dec(s: Seq<char>, pos: int) {
    if pos < s.len() {
        lemma_ident_end_bounds(s, pos + 1);
    }
}

#[via_fn]
proof fn spec_type_args_dec(s: Seq<char>, pos: int) {
    if pos < s.len() {
        lemma_ws_bounds(s, pos + 1);
    }
}

fn type_at(s: &str, pos: usize) -> (r: Result<(TypeDeclaration, usize), ParseError>)
    requires
        pos <= s@.len(),
    ensures
        r matches Ok((t, e)) ==> spec_type(s@, pos as int) == Parsed::Found(t@, e as int)
            && crate::ast::wf_type_chain(t@) && pos <= e <= s@.len(),
        r matches Err(err) ==> spec_type(s@, pos as int) == Parsed::<
            Seq<TypeNodeV>,
        >::Missing(err.offset as int, err.expected@) && pos <= err.offset <= s@.len(),
    decreases s@.len() - pos, 1int,
{
    match scalar_at(s, pos) {
        Ok((sc, e)) => {
            let t = TypeDeclaration::leaf(VariableType::Scalar(sc));
            proof {
                assert(t@ =~= seq![TypeNodeV::Scalar(sc)]);
            }
            return Ok((t, e));
        },
        Err(_) => {},
    }
    let n = s.unicode_len();
    if pos < n && is_ident_start(s.get_char(pos)) {
        let end = ident_end(s, pos + 1);
        let txt = s.substring_char(pos, end);
        let ck: Option<ContainerType> = if str_eqs(txt, "array") {
            Some(ContainerType::Array)
        } else if str_eqs(txt, "ref") {
            Some(ContainerType::Ref)
        } else if str_eqs(txt, "wref") {
            Some(ContainerType::WeakRef)
        } else if str_eqs(txt, "script_ref") {
            Some(ContainerType::ScriptRef)
        } else {
            None
        };
        match ck {
            None => {
                let t = TypeDeclaration::leaf(
                    VariableType::Compound(Ident::new(String::from_str(txt))),
                );
                proof {
                    assert(t@ =~= seq![TypeNodeV::Compound(txt@)]);
                }
                Ok((t, end))
            },
            Some(k) => match type_args_at(s, end) {
                Ok((sub, e2)) => {
                    let ghost subv = sub@;
                    let t = TypeDeclaration::node(VariableType::Container(k), sub);
                    proof {
                        assert(t@ =~= seq![TypeNodeV::Container(k)] + subv);
                        assert forall|i: int| 0 <= i < t@.len() - 1 implies t@[i]
                            is Container by {
                            if i > 0 {
                                assert(t@[i] == subv[i - 1]);
                            }
                        }
                    }
                    Ok((t, e2))
                },
                Err(err) => Err(err),
            },
        }
    } else {
        Err(ParseError { offset: pos, expected: String::from_str("type") })
    }
}

fn type_args_at(s: &str, pos: usize) -> (r: Result<(TypeDeclaration, usize), ParseError>)
    requires
        pos <= s@.len(),
    ensures
        r matches Ok((t, e)) ==> spec_type_args(s@, pos as int) == Parsed::Found(t@, e as int)
            && crate::ast::wf_type_chain(t@) && pos <= e <= s@.len(),
        r matches Err(err) ==> spec_type_args(s@, pos as int) == Parsed::<
            Seq<TypeNodeV>,
        >::Missing(err.offset as int, err.expected@) && pos <= err.offset <= s@.len(),
    decreases s@.len() - pos, 0int,
{
    let n = s.unicode_len();
    if pos < n && s.get_char(pos) == '<' {
        let w = ws(s, pos + 1);
        match type_at(s, w) {
            Ok((t, e)) => {
                let w2 = ws(s, e);
                if w2 < n && s.get_char(w2) == '>' {
                    Ok((t, w2 + 1))
                } else {
                    Err(ParseError { offset: w2, expected: String::from_str(">") })
                }
            },
            Err(err) => Err(err),
        }
    } else {
        Err(ParseError { offset: pos, expected: String::from_str("<") })
    }
}

pub proof fn lemma_type_bounds(s: Seq<char>, pos: int)
    ensures
        spec_type(s, pos) matches Parsed::Found(t, e) ==> pos <= e <= s.len(),
    decreases s.len() - pos, 1int,
{
    if pos < s.len() {
        lemma_ident_end_bounds(s, pos + 1);
        match spec_ident(s, pos) {
            Parsed::Found(id, e) => {
                if container_of(id) is Some {
                    lemma_type_args_bounds(s, e);
                }
            },
            Parsed::Missing(_, _) => {},
        }
    }
}

pub proof fn lemma_type_args_bounds(s: Seq<char>, pos: int)
    ensures
        spec_type_args(s, pos) matches Parsed::Found(t, e) ==> pos <= e <= s.len(),
    decreases s.len() - pos, 0int,
{
    if pos < s.len() && s[pos] == '<' {
        lemma_ws_bounds(s, pos + 1);
        let w = spec_ws(s, pos + 1);
        lemma_type_bounds(s, w);
        match spec_type(s, w) {
            Parsed::Found(t, e) => {
                lemma_ws_bounds(s, e);
            },
            Parsed::Missing(_, _) => {},
        }
    }
}

/// A parameter declaration: qualifiers, name, `:`, type. No visibility and
/// no terminator; the enclosing list separates parameters by commas.
pub open spec fn spec_param(s: Seq<char>, pos: int) -> Parsed<ParamV> {
    let (quals, e1) = spec_param_quals(s, pos);
    let w1 = spec_ws(s, e1);
    match spec_ident(s, w1) {
        Parsed::Missing(o, m) => Parsed::Missing(o, m),
        Parsed::Found(nm, e2) => {
            let w2 = spec_ws(s, e2);
            if w2 < s.len() && s[w2] == ':' {
                let w3 = spec_ws(s, w2 + 1);
                match spec_type(s, w3) {
                    Parsed::Missing(o, m) => Parsed::Missing(o, m),
                    Parsed::Found(ty, e3) => Parsed::Found(
                        ParamV { qualifiers: quals, name: nm, type_: ty },
                        e3,
                    ),
                }
            } else {
                Parsed::Missing(w2, ":"@)
            }
        },
    }
}

pub proof fn lemma_param_quals_bounds(s: Seq<char>, pos: int)
    ensures
        pos <= spec_param_quals(s, pos).1,
        pos <= s.len() ==> spec_param_quals(s, pos).1 <= s.len(),
    decreases s.len() - pos,
{
    lemma_param_qual_advances(s, pos);
    match spec_param_qual(s, pos) {
        Parsed::Found(q, e) => {
            lemma_ws_bounds(s, e);
            lemma_param_quals_bounds(s, spec_ws(s, e));
        },
        Parsed::Missing(_, _) => {},
    }
}

pub proof fn lemma_param_advances(s: Seq<char>, pos: int)
    ensures
        spec_param(s, pos) matches Parsed::Found(p, e) ==> pos < e <= s.len(),
{
    lemma_param_quals_bounds(s, pos);
    let e1 = spec_param_quals(s, pos).1;
    lemma_ws_bounds(s, e1);
    let w1 = spec_ws(s, e1);
    lemma_ident_end_bounds(s, w1 + 1);
    match spec_ident(s, w1) {
        Parsed::Found(nm, e2) => {
            lemma_ws_bounds(s, e2);
            let w2 = spec_ws(s, e2);
            if w2 < s.len() && s[w2] == ':' {
                lemma_ws_bounds(s, w2 + 1);
                lemma_type_bounds(s, spec_ws(s, w2 + 1));
            }
        },
        Parsed::Missing(_, _) => {},
    }
}

fn param_at(s: &str, pos: usize) -> (r: Result<(ParamDefinition, usize), ParseError>)
    requires
        pos <= s@.len(),
    ensures
        r matches Ok((p, e)) ==> spec_param(s@, pos as int) == Parsed::Found(p@, e as int)
            && pos < e <= s@.len(),
        r matches Err(err) ==> spec_param(s@, pos as int) == Parsed::<ParamV>::Missing(
            err.offset as int,
            err.expected@,
        ) && pos <= err.offset <= s@.len(),
{
    let n = s.unicode_len();
    let (quals, e1) = param_quals_at(s, pos);
    let w1 = ws(s, e1);
    match ident_at(s, w1) {
        Err(err) => Err(err),
        Ok((nm, e2)) => {
            let w2 = ws(s, e2);
            if w2 < n && s.get_char(w2) == ':' {
                let w3 = ws(s, w2 + 1);
                match type_at(s, w3) {
                    Err(err) => Err(err),
                    Ok((ty, e3)) => Ok(
                        (ParamDefinition { qualifiers: quals, name: nm, type_: ty }, e3),
                    ),
                }
            } else {
                Err(ParseError { offset: w2, expected: String::from_str(":") })
            }
        },
    }
}

/// Zero or more further comma-separated parameters after a first one. A
/// comma not followed by a parameter is left unconsumed.
pub open spec fn spec_params_more(s: Seq<char>, pos: int) -> (Seq<ParamV>, int)
    decreases s.len() - pos,
    via spec_params_more_dec
{
    let w = spec_ws(s, pos);
    if w < s.len() && s[w] == ',' {
        let w2 = spec_ws(s, w + 1);
        match spec_param(s, w2) {
            Parsed::Missing(_, _) => (seq![], pos),
            Parsed::Found(p, e) => {
                let (rest, e2) = spec_params_more(s, e);
                (seq![p] + rest, e2)
            },
        }
    } else {
        (seq![], pos)
    }
}

#[via_fn]
proof fn spec_params_more_dec(s: Seq<char>, pos: int) {
    lemma_ws_bounds(s, pos);
    let w = spec_ws(s, pos);
    if w < s.len() && s[w] == ',' {
        lemma_ws_bounds(s, w + 1);
        lemma_param_advances(s, spec_ws(s, w + 1));
    }
}

/// A comma-separated parameter list, possibly empty.
pub open spec fn spec_params(s: Seq<char>, pos: int) -> (Seq<ParamV>, int) {
    match spec_param(s, pos) {
        Parsed::Missing(_, _) => (seq![], pos),
        Parsed::Found(p, e) => {
            let (rest, e2) = spec_params_more(s, e);
            (seq![p] + rest, e2)
        },
    }
}

fn params_more(s: &str, pos: usize) -> (r: (Vec<ParamDefinition>, usize))
    requires
        pos <= s@.len(),
    ensures
        crate::ast::params_view(r.0@) == spec_params_more(s@, pos as int).0,
        r.1 == spec_params_more(s@, pos as int).1,
        pos <= r.1 <= s@.len(),
    decreases s@.len() - pos,
{
    let n = s.unicode_len();
    let w = ws(s, pos);
    if w < n && s.get_char(w) == ',' {
        let w2 = ws(s, w + 1);
        match param_at(s, w2) {
            Err(_) => {
                let v: Vec<ParamDefinition> = Vec::new();
                proof {
                    assert(crate::ast::params_view(v@) =~= Seq::<ParamV>::empty());
                }
                (v, pos)
            },
            Ok((p, e)) => {
                let (mut rest, e2) = params_more(s, e);
                let ghost prev = rest@;
                rest.insert(0, p);
                proof {
                    assert(crate::ast::params_view(rest@) =~= seq![p@]
                        + crate::ast::params_view(prev));
                }
                (rest, e2)
            },
        }
    } else {
        let v: Vec<ParamDefinition> = Vec::new();
        proof {
            assert(crate::ast::params_view(v@) =~= Seq::<ParamV>::empty());
        }
        (v, pos)
    }
}

fn params_at(s: &str, pos: usize) -> (r: (Vec<ParamDefinition>, usize))
    requires
        pos <= s@.len(),
    ensures
        crate::ast::params_view(r.0@) == spec_params(s@, pos as int).0,
        r.1 == spec_params(s@, pos as int).1,
        pos <= r.1 <= s@.len(),
{
    match param_at(s, pos) {
        Err(_) => {
            let v: Vec<ParamDefinition> = Vec::new();
            proof {
                assert(crate::ast::params_view(v@) =~= Seq::<ParamV>::empty());
            }
            (v, pos)
        },
        Ok((p, e)) => {
            let (mut rest, e2) = params_more(s, e);
            let ghost prev = rest@;
            rest.insert(0, p);
            proof {
                assert(crate::ast::params_view(rest@) =~= seq![p@] + crate::ast::params_view(
                    prev,
                ));
            }
            (rest, e2)
        },
    }
}

/// The optional comment block before a declaration: the comment and the
/// position after it, or no comment and the position unchanged.
pub open spec fn spec_opt_comments(s: Seq<char>, pos: int) -> (Option<Seq<Seq<char>>>, int) {
    match spec_comments(s, pos) {
        Parsed::Found(c, e) => (Option::Some(c), e),
        Parsed::Missing(_, _) => (Option::None, pos),
    }
}

fn opt_comments_at(s: &str, pos: usize) -> (r: (Option<CommentDefinition>, usize))
    requires
        pos <= s@.len(),
    ensures
        crate::ast::opt_comment_view(r.0) == spec_opt_comments(s@, pos as int).0,
        r.1 == spec_opt_comments(s@, pos as int).1,
        pos <= r.1 <= s@.len(),
{
    match comments_at(s, pos) {
        Ok((c, e)) => (Some(c), e),
        Err(_) => (None, pos),
    }
}

/// A field declaration: optional comment, annotations, visibility, field
/// qualifiers, `let`, the name, `:`, the type, `;`.
pub open spec fn spec_field(s: Seq<char>, pos: int) -> Parsed<FieldV> {
    let (cm, e0) = spec_opt_comments(s, pos);
    let w1 = spec_ws(s, e0);
    let (annos, e1) = spec_annos(s, w1);
    let w2 = spec_ws(s, e1);
    match spec_visibility(s, w2) {
        Parsed::Missing(o, m) => Parsed::Missing(o, m),
        Parsed::Found(vis, e2) => {
            let w3 = spec_ws(s, e2);
            let (quals, e3) = spec_field_quals(s, w3);
            let w4 = spec_ws(s, e3);
            match spec_keyword(s, w4, "let"@) {
                Option::None => Parsed::Missing(w4, "let"@),
                Option::Some(e4) => {
                    let w5 = spec_ws(s, e4);
                    match spec_ident(s, w5) {
                        Parsed::Missing(o, m) => Parsed::Missing(o, m),
                        Parsed::Found(nm, e5) => {
                            let w6 = spec_ws(s, e5);
                            if w6 < s.len() && s[w6] == ':' {
                                let w7 = spec_ws(s, w6 + 1);
                                match spec_type(s, w7) {
                                    Parsed::Missing(o, m) => Parsed::Missing(o, m),
                                    Parsed::Found(ty, e6) => {
                                        let w8 = spec_ws(s, e6);
                                        if w8 < s.len() && s[w8] == ';' {
                                            Parsed::Found(
                                                FieldV {
                                                    comments: cm,
                                                    annotations: annos,
                                                    visibility: vis,
                                                    qualifiers: quals,
                                                    name: nm,
                                                    type_: ty,
                                                },
                                                w8 + 1,
                                            )
                                        } else {
                                            Parsed::Missing(w8, ";"@)
                                        }
                                    },
                                }
                            } else {
                                Parsed::Missing(w6, ":"@)
                            }
                        },
                    }
                },
            }
        },
    }
}

fn field_at(s: &str, pos: usize) -> (r: Result<(FieldDefinition, usize), ParseError>)
    requires
        pos <= s@.len(),
    ensures
        r matches Ok((f, e)) ==> spec_field(s@, pos as int) == Parsed::Found(f@, e as int)
            && pos <= e <= s@.len(),
        r matches Err(err) ==> spec_field(s@, pos as int) == Parsed::<FieldV>::Missing(
            err.offset as int,
            err.expected@,
        ) && pos <= err.offset <= s@.len(),
{
    let n = s.unicode_len();
    let (cm, e0) = opt_comments_at(s, pos);
    let w1 = ws(s, e0);
    let (annos, e1) = annos_at(s, w1);
    let w2 = ws(s, e1);
    match visibility_at(s, w2) {
        Err(err) => Err(err),
        Ok((vis, e2)) => {
            let w3 = ws(s, e2);
            let (quals, e3) = field_quals_at(s, w3);
            let w4 = ws(s, e3);
            match kw_at(s, w4, "let") {
                None => Err(ParseError { offset: w4, expected: String::from_str("let") }),
                Some(e4) => {
                    let w5 = ws(s, e4);
                    match ident_at(s, w5) {
                        Err(err) => Err(err),
                        Ok((nm, e5)) => {
                            let w6 = ws(s, e5);
                            if w6 < n && s.get_char(w6) == ':' {
                                let w7 = ws(s, w6 + 1);
                                match type_at(s, w7) {
                                    Err(err) => Err(err),
                                    Ok((ty, e6)) => {
                                        let w8 = ws(s, e6);
                                        if w8 < n && s.get_char(w8) == ';' {
                                            Ok(
                                                (
                                                    FieldDefinition {
                                                        comments: cm,
                                                        annotations: annos,
                                                        visibility: vis,
                                                        qualifiers: quals,
                                                        name: nm,
                                                        type_: ty,
                                                    },
                                                    w8 + 1,
                                                ),
                                            )
                                        } else {
                                            Err(
                                                ParseError {
                                                    offset: w8,
                                                    expected: String::from_str(";"),
                                                },
                                            )
                                        }
                                    },
                                }
                            } else {
                                Err(ParseError { offset: w6, expected: String::from_str(":") })
                            }
                        },
                    }
                },
            }
        },
    }
}

/// A function declaration: optional comment, annotations, visibility,
/// function qualifiers, `func`, the name, the parenthesized parameter list,
/// `->`, the return type.
pub open spec fn spec_func(s: Seq<char>, pos: int) -> Parsed<FuncV> {
    let (cm, e0) = spec_opt_comments(s, pos);
    let w1 = spec_ws(s, e0);
    let (annos, e1) = spec_annos(s, w1);
    let w2 = spec_ws(s, e1);
    match spec_visibility(s, w2) {
        Parsed::Missing(o, m) => Parsed::Missing(o, m),
        Parsed::Found(vis, e2) => {
            let w3 = spec_ws(s, e2);
            let (quals, e3) = spec_func_quals(s, w3);
            let w4 = spec_ws(s, e3);
            match spec_keyword(s, w4, "func"@) {
                Option::None => Parsed::Missing(w4, "func"@),
                Option::Some(e4) => {
                    let w5 = spec_ws(s, e4);
                    match spec_ident(s, w5) {
                        Parsed::Missing(o, m) => Parsed::Missing(o, m),
                        Parsed::Found(nm, e5) => {
                            let w6 = spec_ws(s, e5);
                            if w6 < s.len() && s[w6] == '(' {
                                let w7 = spec_ws(s, w6 + 1);
                                let (ps, e6) = spec_params(s, w7);
                                let w8 = spec_ws(s, e6);
                                if w8 < s.len() && s[w8] == ')' {
                                    let w9 = spec_ws(s, w8 + 1);
                                    if lit_matches(s, w9, "->"@) {
                                        let w10 = spec_ws(s, w9 + 2);
                                        match spec_type(s, w10) {
                                            Parsed::Missing(o, m) => Parsed::Missing(o, m),
                                            Parsed::Found(rt, e7) => Parsed::Found(
                                                FuncV {
                                                    comments: cm,
                                                    annotations: annos,
                                                    visibility: vis,
                                                    qualifiers: quals,
                                                    name: nm,
                                                    params: ps,
                                                    returns: rt,
                                                },
                                                e7,
                                            ),
                                        }
                                    } else {
                                        Parsed::Missing(w9, "->"@)
                                    }
                                } else {
                                    Parsed::Missing(w8, ")"@)
                                }
                            } else {
                                Parsed::Missing(w6, "("@)
                            }
                        },
                    }
                },
            }
        },
    }
}

fn func_at(s: &str, pos: usize) -> (r: Result<(FuncDefinition, usize), ParseError>)
    requires
        pos <= s@.len(),
    ensures
        r matches Ok((f, e)) ==> spec_func(s@, pos as int) == Parsed::Found(f@, e as int)
            && pos <= e <= s@.len(),
        r matches Err(err) ==> spec_func(s@, pos as int) == Parsed::<FuncV>::Missing(
            err.offset as int,
            err.expected@,
        ) && pos <= err.offset <= s@.len(),
{
    proof {
        reveal_strlit("->");
    }
    let n = s.unicode_len();
    let (cm, e0) = opt_comments_at(s, pos);
    let w1 = ws(s, e0);
    let (annos, e1) = annos_at(s, w1);
    let w2 = ws(s, e1);
    match visibility_at(s, w2) {
        Err(err) => Err(err),
        Ok((vis, e2)) => {
            let w3 = ws(s, e2);
            let (quals, e3) = func_quals_at(s, w3);
            let w4 = ws(s, e3);
            match kw_at(s, w4, "func") {
                None => Err(ParseError { offset: w4, expected: String::from_str("func") }),
                Some(e4) => {
                    let w5 = ws(s, e4);
                    match ident_at(s, w5) {
                        Err(err) => Err(err),
                        Ok((nm, e5)) => {
                            let w6 = ws(s, e5);
                            if w6 < n && s.get_char(w6) == '(' {
                                let w7 = ws(s, w6 + 1);
                                let (ps, e6) = params_at(s, w7);
                                let w8 = ws(s, e6);
                                if w8 < n && s.get_char(w8) == ')' {
                                    let w9 = ws(s, w8 + 1);
                                    if match_lit(s, w9, "->") {
                                        let w10 = ws(s, w9 + 2);
                                        match type_at(s, w10) {
                                            Err(err) => Err(err),
                                            Ok((rt, e7)) => Ok(
                                                (
                                                    FuncDefinition {
                                                        comments: cm,
                                                        annotations: annos,
                                                        visibility: vis,
                                                        qualifiers: quals,
                                                        name: nm,
                                                        params: ps,
                                                        returns: rt,
                                                    },
                                                    e7,
                                                ),
                                            ),
                                        }
                                    } else {
                                        Err(
                                            ParseError {
                                                offset: w9,
                                                expected: String::from_str("->"),
                                            },
                                        )
                                    }
                                } else {
                                    Err(
                                        ParseError {
                                            offset: w8,
                                            expected: String::from_str(")"),
                                        },
                                    )
                                }
                            } else {
                                Err(ParseError { offset: w6, expected: String::from_str("(") })
                            }
                        },
                    }
                },
            }
        },
    }
}

/// Position just past the `}` that closes a brace block whose opening `{`
/// stands before `pos`, with `depth` braces still open beyond the first;
/// `None` if the block never closes. Purely textual: braces inside string
/// literals count as structural.
pub open spec fn spec_block_end(s: Seq<char>, pos: int, depth: nat) -> Option<int>
    decreases s.len() - pos,
{
    if pos >= s.len() {
        Option::None
    } else if s[pos] == '}' {
        if depth == 0 {
            Option::Some(pos + 1)
        } else {
            spec_block_end(s, pos + 1, (depth - 1) as nat)
        }
    } else if s[pos] == '{' {
        spec_block_end(s, pos + 1, depth + 1)
    } else {
        spec_block_end(s, pos + 1, depth)
    }
}

fn block_end(s: &str, pos: usize, depth: usize) -> (r: Option<usize>)
    requires
        pos <= s@.len(),
    ensures
        r matches Some(e) ==> spec_block_end(s@, pos as int, depth as nat) == Some(e as int)
            && pos < e <= s@.len(),
        r is None ==> spec_block_end(s@, pos as int, depth as nat) is None,
    decreases s@.len() - pos,
{
    let n = s.unicode_len();
    if pos >= n {
        None
    } else if s.get_char(pos) == '}' {
        if depth == 0 {
            Some(pos + 1)
        } else {
            block_end(s, pos + 1, depth - 1)
        }
    } else if s.get_char(pos) == '{' {
        if depth == usize::MAX {
            // more open braces than the input could ever close again
            proof {
                lemma_block_end_deep_none(s@, pos + 1, (depth as nat) + 1);
            }
            None
        } else {
            block_end(s, pos + 1, depth + 1)
        }
    } else {
        block_end(s, pos + 1, depth)
    }
}

/// A block at depth `d` needs more than `s.len() - pos` characters to close
/// once `d` reaches the remaining length, so such a block never closes.
pub proof fn lemma_block_end_deep_none(s: Seq<char>, pos: int, depth: nat)
    requires
        depth >= s.len() - pos,
    ensures
        spec_block_end(s, pos, depth) is None,
    decreases s.len() - pos,
{
    if pos < s.len() {
        if s[pos] == '}' {
            if depth > 0 {
                lemma_block_end_deep_none(s, pos + 1, (depth - 1) as nat);
            }
        } else if s[pos] == '{' {
            lemma_block_end_deep_none(s, pos + 1, depth + 1);
        } else {
            lemma_block_end_deep_none(s, pos + 1, depth);
        }
    }
}

/// A brace block at the start of `input`: the opening `{`, everything inside
/// it with nested blocks balanced, and the matching `}`. Returns the number
/// of characters consumed, without interpreting the contents.
pub fn scope_block(input: &str) -> (r: Result<usize, ParseError>)
    ensures
        r matches Ok(e) ==> input@.len() > 0 && input@[0] == '{' && spec_block_end(input@, 1, 0)
            == Some(e as int) && 0 < e <= input@.len(),
        r matches Err(err) ==> err.offset <= input@.len() && (input@.len() == 0 || input@[0]
            != '{' || spec_block_end(input@, 1, 0) is None),
{
    let n = input.unicode_len();
    if n > 0 && input.get_char(0) == '{' {
        match block_end(input, 1, 0) {
            Some(e) => Ok(e),
            None => Err(ParseError { offset: n, expected: String::from_str("}") }),
        }
    } else {
        Err(ParseError { offset: 0, expected: String::from_str("{") })
    }
}

/// A scalar type keyword at the start of `input`.
pub fn scalar_type(input: &str) -> (r: Result<(ScalarType, usize), ParseError>)
    ensures
        r matches Ok((v, e)) ==> spec_scalar(input@, 0) == Parsed::Found(v, e as int) && e
            <= input@.len(),
        r matches Err(err) ==> spec_scalar(input@, 0) == Parsed::<ScalarType>::Missing(
            err.offset as int,
            err.expected@,
        ) && err.offset <= input@.len(),
{
    scalar_at(input, 0)
}

/// A bracketed type argument (`<`, a type, `>`) at the start of `input`.
pub fn type_args(input: &str) -> (r: Result<(TypeDeclaration, usize), ParseError>)
    ensures
        r matches Ok((t, e)) ==> spec_type_args(input@, 0) == Parsed::Found(t@, e as int)
            && crate::ast::wf_type_chain(t@) && e <= input@.len(),
        r matches Err(err) ==> spec_type_args(input@, 0) == Parsed::<
            Seq<TypeNodeV>,
        >::Missing(err.offset as int, err.expected@) && err.offset <= input@.len(),
{
    type_args_at(input, 0)
}

/// A type expression at the start of `input`. Trailing content is not
/// consumed: the returned count says how far the type reached.
pub fn type_(input: &str) -> (r: Result<(TypeDeclaration, usize), ParseError>)
    ensures
        r matches Ok((t, e)) ==> spec_type(input@, 0) == Parsed::Found(t@, e as int)
            && crate::ast::wf_type_chain(t@) && e <= input@.len(),
        r matches Err(err) ==> spec_type(input@, 0) == Parsed::<Seq<TypeNodeV>>::Missing(
            err.offset as int,
            err.expected@,
        ) && err.offset <= input@.len(),
{
    type_at(input, 0)
}

/// `type_`, under the name the tracing entry point had.
pub fn type_traced(input: &str) -> (r: Result<(TypeDeclaration, usize), ParseError>)
    ensures
        r matches Ok((t, e)) ==> spec_type(input@, 0) == Parsed::Found(t@, e as int)
            && crate::ast::wf_type_chain(t@) && e <= input@.len(),
        r matches Err(err) ==> spec_type(input@, 0) == Parsed::<Seq<TypeNodeV>>::Missing(
            err.offset as int,
            err.expected@,
        ) && err.offset <= input@.len(),
{
    type_at(input, 0)
}

/// A field declaration at the start of `input`.
pub fn field(input: &str) -> (r: Result<(FieldDefinition, usize), ParseError>)
    ensures
        r matches Ok((f, e)) ==> spec_field(input@, 0) == Parsed::Found(f@, e as int) && e
            <= input@.len(),
        r matches Err(err) ==> spec_field(input@, 0) == Parsed::<FieldV>::Missing(
            err.offset as int,
            err.expected@,
        ) && err.offset <= input@.len(),
{
    field_at(input, 0)
}

/// `field`, under the name the tracing entry point had.
pub fn field_traced(input: &str) -> (r: Result<(FieldDefinition, usize), ParseError>)
    ensures
        r matches Ok((f, e)) ==> spec_field(input@, 0) == Parsed::Found(f@, e as int) && e
            <= input@.len(),
        r matches Err(err) ==> spec_field(input@, 0) == Parsed::<FieldV>::Missing(
            err.offset as int,
            err.expected@,
        ) && err.offset <= input@.len(),
{
    field_at(input, 0)
}

/// A parameter declaration at the start of `input`.
pub fn param(input: &str) -> (r: Result<(ParamDefinition, usize), ParseError>)
    ensures
        r matches Ok((p, e)) ==> spec_param(input@, 0) == Parsed::Found(p@, e as int) && e
            <= input@.len(),
        r matches Err(err) ==> spec_param(input@, 0) == Parsed::<ParamV>::Missing(
            err.offset as int,
            err.expected@,
        ) && err.offset <= input@.len(),
{
    param_at(input, 0)
}

/// A function declaration at the start of `input`.
pub fn func(input: &str) -> (r: Result<(FuncDefinition, usize), ParseError>)
    ensures
        r matches Ok((f, e)) ==> spec_func(input@, 0) == Parsed::Found(f@, e as int) && e
            <= input@.len(),
        r matches Err(err) ==> spec_func(input@, 0) == Parsed::<FuncV>::Missing(
            err.offset as int,
            err.expected@,
        ) && err.offset <= input@.len(),
{
    func_at(input, 0)
}

/// The identifier pattern: a start character, then only continuation
/// characters.
pub open spec fn is_ident_seq(s: Seq<char>) -> bool {
    &&& s.len() > 0
    &&& is_ident_start_char(s[0])
    &&& forall|i: int| 1 <= i < s.len() ==> is_ident_cont_char(s[i])
}

proof fn lemma_ident_end_all(s: Seq<char>, pos: int)
    requires
        0 <= pos <= s.len(),
        forall|i: int| pos <= i < s.len() ==> is_ident_cont_char(s[i]),
    ensures
        spec_ident_end(s, pos) == s.len(),
    decreases s.len() - pos,
{
    if pos < s.len() {
        lemma_ident_end_all(s, pos + 1);
    }
}

/// Law: any string matching the identifier pattern parses as an identifier,
/// in full and returned unchanged.
pub proof fn lemma_ident_roundtrip(s: Seq<char>)
    requires
        is_ident_seq(s),
    ensures
        spec_ident(s, 0) == Parsed::<Seq<char>>::Found(s, s.len() as int),
{
    lemma_ident_end_all(s, 1);
    assert(s.subrange(0, s.len() as int) =~= s);
}

/// Law: a keyword is never read out of the front of a longer identifier.
/// With an identifier-continuation character right after the keyword's
/// characters, the keyword rule fails.
pub proof fn lemma_keyword_boundary(s: Seq<char>, pos: int, k: Seq<char>)
    requires
        pos + k.len() < s.len(),
        is_ident_cont_char(s[pos + k.len()]),
    ensures
        spec_keyword(s, pos, k) is None,
{
}

/// The field-qualifier vocabulary.
pub open spec fn is_field_qual_kw(k: Seq<char>) -> bool {
    ||| k == "const"@
    ||| k == "edit"@
    ||| k == "final"@
    ||| k == "native"@
    ||| k == "persistent"@
    ||| k == "static"@
}

/// The tag each field-qualifier keyword parses to. Both `native` and
/// `persistent` give `Native`.
pub open spec fn field_qual_tag(k: Seq<char>) -> FieldQualifier {
    if k == "const"@ {
        FieldQualifier::Const
    } else if k == "edit"@ {
        FieldQualifier::Edit
    } else if k == "final"@ {
        FieldQualifier::Final
    } else if k == "native"@ {
        FieldQualifier::Native
    } else if k == "persistent"@ {
        FieldQualifier::Native
    } else {
        FieldQualifier::Static
    }
}

/// The tags of a keyword sequence, in order.
pub open spec fn tags_of(ks: Seq<Seq<char>>) -> Seq<FieldQualifier> {
    ks.map(|i: int, k: Seq<char>| field_qual_tag(k))
}

/// A keyword sequence joined by single spaces.
pub open spec fn joined(ks: Seq<Seq<char>>) -> Seq<char>
    decreases ks.len(),
{
    if ks.len() == 0 {
        Seq::empty()
    } else if ks.len() == 1 {
        ks[0]
    } else {
        ks[0] + seq![' '] + joined(ks.drop_first())
    }
}

proof fn lemma_field_qual_at_token(s: Seq<char>, pos: int, k: Seq<char>)
    requires
        is_field_qual_kw(k),
        0 <= pos,
        pos + k.len() <= s.len(),
        s.subrange(pos, pos + k.len()) == k,
        pos + k.len() == s.len() || !is_ident_cont_char(s[pos + k.len()]),
    ensures
        spec_field_qual(s, pos) == Parsed::<FieldQualifier>::Found(
            field_qual_tag(k),
            pos + k.len(),
        ),
{
    reveal_strlit("const");
    reveal_strlit("edit");
    reveal_strlit("final");
    reveal_strlit("native");
    reveal_strlit("persistent");
    reveal_strlit("static");
    assert(s.subrange(pos, pos + k.len())[0] == s[pos]);
}

proof fn lemma_field_quals_tokens_at(s: Seq<char>, pos: int, ks: Seq<Seq<char>>)
    requires
        forall|i: int| 0 <= i < ks.len() ==> is_field_qual_kw(ks[i]),
        0 <= pos <= s.len(),
        s.subrange(pos, s.len() as int) == joined(ks),
    ensures
        spec_field_quals(s, pos) == (tags_of(ks), s.len() as int),
    decreases ks.len(),
{
    reveal_strlit("const");
    reveal_strlit("edit");
    reveal_strlit("final");
    reveal_strlit("native");
    reveal_strlit("persistent");
    reveal_strlit("static");
    if ks.len() == 0 {
        assert(pos == s.len());
        assert(spec_field_qual(s, pos) is Missing);
        assert(tags_of(ks) =~= Seq::<FieldQualifier>::empty());
    } else {
        let k0 = ks[0];
        assert(is_field_qual_kw(k0));
        let e = pos + k0.len();
        if ks.len() == 1 {
            assert(s.subrange(pos, s.len() as int) == k0);
            assert(e == s.len()) by {
                assert(s.subrange(pos, s.len() as int).len() == k0.len());
            }
            assert(s.subrange(pos, e) == k0);
            lemma_field_qual_at_token(s, pos, k0);
            // nothing follows the last token, so the list ends at `e`
            assert(spec_ws(s, e) == e);
            assert(spec_field_qual(s, e) is Missing);
            assert(spec_field_quals(s, e) == (Seq::<FieldQualifier>::empty(), e));
            assert(tags_of(ks) =~= seq![field_qual_tag(k0)]);
        } else {
            let rest = ks.drop_first();
            let tail = joined(rest);
            assert(s.subrange(pos, s.len() as int) == k0 + seq![' '] + tail);
            assert(s.len() - pos == k0.len() + 1 + tail.len());
            assert forall|j: int| 0 <= j < k0.len() implies s[pos + j] == k0[j] by {
                assert(s.subrange(pos, s.len() as int)[j] == k0[j]);
            }
            assert(s.subrange(pos, e) =~= k0);
            assert(s[e] == ' ') by {
                assert(s.subrange(pos, s.len() as int)[k0.len() as int] == ' ');
            }
            lemma_field_qual_at_token(s, pos, k0);
            // a single space separates the tokens: the next token begins
            // with a keyword's first character, which is not whitespace
            assert(rest[0].len() > 0);
            assert(s[e + 1] == rest[0][0]) by {
                assert(s.subrange(pos, s.len() as int)[k0.len() as int + 1] == (k0 + seq![' ']
                    + tail)[k0.len() as int + 1]);
                assert(tail[0] == rest[0][0]) by {
                    assert(joined(rest)[0] == rest[0][0]);
                }
            }
            assert(!is_space_char(s[e + 1]));
            assert(spec_ws(s, e) == spec_ws(s, e + 1));
            assert(spec_ws(s, e + 1) == e + 1);
            assert(s.subrange(e + 1, s.len() as int) =~= tail) by {
                assert forall|j: int| 0 <= j < tail.len() implies s[e + 1 + j] == tail[j] by {
                    assert(s.subrange(pos, s.len() as int)[k0.len() as int + 1 + j] == (k0 + seq![' ']
                        + tail)[k0.len() as int + 1 + j]);
                }
            }
            lemma_field_quals_tokens_at(s, e + 1, rest);
            assert(tags_of(rest).len() > 0);
            assert(tags_of(ks) =~= seq![field_qual_tag(k0)] + tags_of(rest));
        }
    }
}

/// Law (qualifier order independence): a space-separated list of
/// field-qualifier keywords parses to exactly the tags of its keywords, in
/// the order written and consuming the whole list. Two orders of the same
/// keywords therefore parse to the same qualifier multiset.
pub proof fn lemma_field_qualifier_tokens(ks: Seq<Seq<char>>)
    requires
        forall|i: int| 0 <= i < ks.len() ==> is_field_qual_kw(ks[i]),
    ensures
        spec_field_quals(joined(ks), 0) == (tags_of(ks), joined(ks).len() as int),
{
    let s = joined(ks);
    assert(s.subrange(0, s.len() as int) =~= s);
    lemma_field_quals_tokens_at(s, 0, ks);
}

/// Law (qualifier order independence, stated on the tags): two keyword
/// sequences with the same multiset of keywords parse to the same multiset
/// of qualifier tags.
pub proof fn lemma_field_qualifier_order(ks1: Seq<Seq<char>>, ks2: Seq<Seq<char>>)
    requires
        ks1.to_multiset() == ks2.to_multiset(),
    ensures
        tags_of(ks1).to_multiset() == tags_of(ks2).to_multiset(),
    decreases ks1.len(),
{
    broadcast use vstd::seq_lib::group_to_multiset_ensures;
    broadcast use vstd::multiset::group_multiset_axioms;

    if ks1.len() == 0 {
        assert(ks1.to_multiset().len() == 0);
        assert(ks2.to_multiset().len() == ks2.len());
        assert(tags_of(ks1) =~= tags_of(ks2));
    } else {
        let k = ks1[0];
        let t = field_qual_tag(k);
        assert(ks1.contains(k));
        assert(ks1.to_multiset().count(k) > 0);
        assert(ks2.to_multiset().count(k) > 0);
        assert(ks2.contains(k));
        let j = choose|j: int| 0 <= j < ks2.len() && ks2[j] == k;
        let ks1r = ks1.remove(0);
        let ks2r = ks2.remove(j);
        assert(ks1r.to_multiset() =~= ks2r.to_multiset());
        lemma_field_qualifier_order(ks1r, ks2r);
        assert(tags_of(ks1r) =~= tags_of(ks1).remove(0));
        assert(tags_of(ks2r) =~= tags_of(ks2).remove(j));
        assert(tags_of(ks1)[0] == t);
        assert(tags_of(ks2)[j] == t);
        assert(tags_of(ks1).remove(0).to_multiset() =~= tags_of(ks1).to_multiset().remove(t));
        assert(tags_of(ks2).remove(j).to_multiset() =~= tags_of(ks2).to_multiset().remove(t));
        assert(tags_of(ks1).contains(t));
        assert(tags_of(ks2).contains(t));
        let m1 = tags_of(ks1).to_multiset();
        let m2 = tags_of(ks2).to_multiset();
        assert(m1.remove(t) =~= m2.remove(t));
        assert(m1.count(t) > 0);
        assert(m2.count(t) > 0);
        assert forall|x: FieldQualifier| m1.count(x) == m2.count(x) by {
            assert(m1.remove(t).count(x) == m2.remove(t).count(x));
        }
        assert(m1 =~= m2);
    }
}

} // verus!
