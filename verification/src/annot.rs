//! Parser for the per-case annotation grammar.
//!
//! An annotation is the textual content of one case's attribute:
//! `assignment (, assignment)*` with an optional trailing comma, where
//! `assignment := identifier = expression`. An expression extends to the
//! next comma outside parentheses, brackets and braces, with surrounding
//! whitespace trimmed; it must be non-empty and balanced. Input that does
//! not match this grammar is a malformed annotation, reported with the
//! character position of the offending token.

use vstd::prelude::*;

verus! {

/// One `key = expression` pair, in the order it was written.
#[derive(Debug)]
pub struct Assignment {
    pub key: String,
    pub value: String,
}

/// Grammar violation in an annotation; `pos` is the character position of
/// the offending token.
#[derive(Debug)]
pub enum ParseError {
    MalformedAnnotation { pos: usize },
}

/// The key/value character sequences of a list of assignments.
pub open spec fn assigns_view(v: Seq<Assignment>) -> Seq<(Seq<char>, Seq<char>)> {
    v.map_values(|a: Assignment| (a.key@, a.value@))
}

pub open spec fn is_space(c: char) -> bool {
    c == ' ' || c == '\t' || c == '\n' || c == '\r'
}

pub open spec fn is_ident_start(c: char) -> bool {
    ('a' <= c && c <= 'z') || ('A' <= c && c <= 'Z') || c == '_'
}

pub open spec fn is_ident_char(c: char) -> bool {
    is_ident_start(c) || ('0' <= c && c <= '9')
}

pub open spec fn opens_group(c: char) -> bool {
    c == '(' || c == '[' || c == '{'
}

pub open spec fn closes_group(c: char) -> bool {
    c == ')' || c == ']' || c == '}'
}

/// First position at or after `i` holding a non-whitespace character.
pub open spec fn spec_skip_spaces(s: Seq<char>, i: int) -> int
    decreases s.len() - i,
        when 0 <= i <= s.len()
{
    if i < s.len() && is_space(s[i]) {
        spec_skip_spaces(s, i + 1)
    } else {
        i
    }
}

pub proof fn lemma_skip_spaces(s: Seq<char>, i: int)
    requires
        0 <= i <= s.len(),
    ensures
        i <= spec_skip_spaces(s, i) <= s.len(),
        spec_skip_spaces(s, i) < s.len() ==> !is_space(s[spec_skip_spaces(s, i)]),
        forall|k: int| i <= k < spec_skip_spaces(s, i) ==> is_space(s[k]),
    decreases s.len() - i,
{
    if i < s.len() && is_space(s[i]) {
        lemma_skip_spaces(s, i + 1);
    }
}

/// First position at or after `i` holding a non-identifier character.
pub open spec fn spec_scan_ident(s: Seq<char>, i: int) -> int
    decreases s.len() - i,
        when 0 <= i <= s.len()
{
    if i < s.len() && is_ident_char(s[i]) {
        spec_scan_ident(s, i + 1)
    } else {
        i
    }
}

pub proof fn lemma_scan_ident(s: Seq<char>, i: int)
    requires
        0 <= i <= s.len(),
    ensures
        i <= spec_scan_ident(s, i) <= s.len(),
    decreases s.len() - i,
{
    if i < s.len() && is_ident_char(s[i]) {
        lemma_scan_ident(s, i + 1);
    }
}

/// Scans an expression from `i` with `depth` open groups: the end is the
/// first comma outside any group, or the end of the input. `None` means
/// the groups are unbalanced before that point.
pub open spec fn spec_scan_expr(s: Seq<char>, i: int, depth: int) -> Option<int>
    decreases s.len() - i,
        when 0 <= i <= s.len() && 0 <= depth
{
    if i >= s.len() {
        if depth == 0 {
            Some(i)
        } else {
            None
        }
    } else if depth == 0 && s[i] == ',' {
        Some(i)
    } else if opens_group(s[i]) {
        spec_scan_expr(s, i + 1, depth + 1)
    } else if closes_group(s[i]) {
        if depth > 0 {
            spec_scan_expr(s, i + 1, depth - 1)
        } else {
            None
        }
    } else {
        spec_scan_expr(s, i + 1, depth)
    }
}

pub proof fn lemma_scan_expr(s: Seq<char>, i: int, depth: int)
    requires
        0 <= i <= s.len(),
        0 <= depth,
    ensures
        match spec_scan_expr(s, i, depth) {
            Some(e) => i <= e <= s.len() && (e == s.len() || s[e] == ','),
            None => true,
        },
    decreases s.len() - i,
{
    if i >= s.len() {
    } else if depth == 0 && s[i] == ',' {
    } else if opens_group(s[i]) {
        lemma_scan_expr(s, i + 1, depth + 1);
    } else if closes_group(s[i]) {
        if depth > 0 {
            lemma_scan_expr(s, i + 1, depth - 1);
        }
    } else {
        lemma_scan_expr(s, i + 1, depth);
    }
}

/// Position after dropping trailing whitespace from `s[start..e]`.
pub open spec fn spec_rtrim(s: Seq<char>, start: int, e: int) -> int
    decreases e - start,
        when 0 <= start <= e <= s.len()
{
    if e > start && is_space(s[e - 1]) {
        spec_rtrim(s, start, e - 1)
    } else {
        e
    }
}

pub proof fn lemma_rtrim(s: Seq<char>, start: int, e: int)
    requires
        0 <= start <= e <= s.len(),
    ensures
        start <= spec_rtrim(s, start, e) <= e,
    decreases e - start,
{
    if e > start && is_space(s[e - 1]) {
        lemma_rtrim(s, start, e - 1);
    }
}

/// Parses one `identifier = expression` assignment beginning at `i`
/// (leading whitespace allowed); yields the key, the trimmed expression,
/// and the position just after the expression (a comma or the end).
pub open spec fn spec_parse_assignment(s: Seq<char>, i: int) -> Option<((Seq<char>, Seq<char>), int)> {
    let j = spec_skip_spaces(s, i);
    if j < s.len() && is_ident_start(s[j]) {
        let k = spec_scan_ident(s, j + 1);
        let m = spec_skip_spaces(s, k);
        if m < s.len() && s[m] == '=' {
            match spec_scan_expr(s, m + 1, 0) {
                Some(e) => {
                    let vs = spec_skip_spaces(s, m + 1);
                    let ve = spec_rtrim(s, vs, e);
                    if vs < ve {
                        Some(((s.subrange(j, k), s.subrange(vs, ve)), e))
                    } else {
                        None
                    }
                },
                None => None,
            }
        } else {
            None
        }
    } else {
        None
    }
}

pub proof fn lemma_parse_assignment(s: Seq<char>, i: int)
    requires
        0 <= i <= s.len(),
    ensures
        match spec_parse_assignment(s, i) {
            Some((a, e)) => i < e <= s.len() && (e == s.len() || s[e] == ','),
            None => true,
        },
{
    lemma_skip_spaces(s, i);
    let j = spec_skip_spaces(s, i);
    if j < s.len() && is_ident_start(s[j]) {
        lemma_scan_ident(s, j + 1);
        let k = spec_scan_ident(s, j + 1);
        lemma_skip_spaces(s, k);
        let m = spec_skip_spaces(s, k);
        if m < s.len() && s[m] == '=' {
            lemma_scan_expr(s, m + 1, 0);
        }
    }
}

/// Parses `assignment (, assignment)*` with an optional trailing comma,
/// starting at `i`; at least one assignment is required.
pub open spec fn spec_parse_list(s: Seq<char>, i: int) -> Option<Seq<(Seq<char>, Seq<char>)>>
    decreases s.len() - i,
        when 0 <= i <= s.len()
{
    match spec_parse_assignment(s, i) {
        None => None,
        Some((a, e)) => {
            if !(i < e <= s.len()) {
                None
            } else {
                let m = spec_skip_spaces(s, e);
                if m >= s.len() {
                    Some(seq![a])
                } else if s[m] == ',' {
                    let j2 = spec_skip_spaces(s, m + 1);
                    if j2 >= s.len() {
                        Some(seq![a])
                    } else {
                        proof {
                            lemma_skip_spaces(s, e);
                        }
                        match spec_parse_list(s, m + 1) {
                            None => None,
                            Some(rest) => Some(seq![a] + rest),
                        }
                    }
                } else {
                    None
                }
            }
        },
    }
}

/// The whole annotation text, parsed from its first character.
pub open spec fn spec_parse_annotation(s: Seq<char>) -> Option<Seq<(Seq<char>, Seq<char>)>> {
    spec_parse_list(s, 0)
}

/// Where a failing assignment parse points: the character position of
/// the offending token. Meaningful when `spec_parse_assignment` is
/// `None`; where an identifier is missing it is that position, where
/// `=` is missing it is the position after the key, where the
/// expression is unbalanced it is the expression's start, and where the
/// expression is empty it is the position where one was expected.
pub open spec fn spec_assignment_error_pos(s: Seq<char>, i: int) -> int {
    let j = spec_skip_spaces(s, i);
    if j < s.len() && is_ident_start(s[j]) {
        let k = spec_scan_ident(s, j + 1);
        let m = spec_skip_spaces(s, k);
        if m < s.len() && s[m] == '=' {
            match spec_scan_expr(s, m + 1, 0) {
                Some(e) => {
                    let vs = spec_skip_spaces(s, m + 1);
                    let ve = spec_rtrim(s, vs, e);
                    if vs < ve {
                        i
                    } else {
                        vs
                    }
                },
                None => m + 1,
            }
        } else {
            m
        }
    } else {
        j
    }
}

/// Where a failing list parse points; meaningful when `spec_parse_list`
/// is `None`. A failing assignment keeps its own position; a token
/// other than a comma after an assignment is the offending token.
pub open spec fn spec_list_error_pos(s: Seq<char>, i: int) -> int
    decreases s.len() - i,
        when 0 <= i <= s.len()
{
    match spec_parse_assignment(s, i) {
        None => spec_assignment_error_pos(s, i),
        Some((a, e)) => {
            if !(i < e <= s.len()) {
                i
            } else {
                let m = spec_skip_spaces(s, e);
                if m >= s.len() {
                    i
                } else if s[m] == ',' {
                    let j2 = spec_skip_spaces(s, m + 1);
                    if j2 >= s.len() {
                        i
                    } else {
                        proof {
                            lemma_skip_spaces(s, e);
                        }
                        spec_list_error_pos(s, m + 1)
                    }
                } else {
                    m
                }
            }
        },
    }
}

/// Where a malformed annotation's diagnostic points, for the whole text.
pub open spec fn spec_annotation_error_pos(s: Seq<char>) -> int {
    spec_list_error_pos(s, 0)
}

fn skip_spaces(s: &str, i: usize) -> (r: usize)
    requires
        i <= s@.len(),
    ensures
        r == spec_skip_spaces(s@, i as int),
        i <= r <= s@.len(),
    decreases s@.len() - i,
{
    let n = s.unicode_len();
    if i < n {
        let c = s.get_char(i);
        if c == ' ' || c == '\t' || c == '\n' || c == '\r' {
            return skip_spaces(s, i + 1);
        }
    }
    i
}

fn scan_ident(s: &str, i: usize) -> (r: usize)
    requires
        i <= s@.len(),
    ensures
        r == spec_scan_ident(s@, i as int),
        i <= r <= s@.len(),
    decreases s@.len() - i,
{
    let n = s.unicode_len();
    if i < n {
        let c = s.get_char(i);
        if ('a' <= c && c <= 'z') || ('A' <= c && c <= 'Z') || c == '_' || ('0' <= c && c <= '9') {
            return scan_ident(s, i + 1);
        }
    }
    i
}

fn scan_expr(s: &str, i: usize, depth: usize) -> (r: Option<usize>)
    requires
        i <= s@.len(),
        depth <= i,
    ensures
        match r {
            Some(e) => spec_scan_expr(s@, i as int, depth as int) == Some(e as int) && i <= e
                <= s@.len(),
            None => spec_scan_expr(s@, i as int, depth as int) is None,
        },
    decreases s@.len() - i,
{
    let n = s.unicode_len();
    if i >= n {
        if depth == 0 {
            Some(i)
        } else {
            None
        }
    } else {
        let c = s.get_char(i);
        if depth == 0 && c == ',' {
            Some(i)
        } else if c == '(' || c == '[' || c == '{' {
            scan_expr(s, i + 1, depth + 1)
        } else if c == ')' || c == ']' || c == '}' {
            if depth > 0 {
                scan_expr(s, i + 1, depth - 1)
            } else {
                None
            }
        } else {
            scan_expr(s, i + 1, depth)
        }
    }
}

fn rtrim(s: &str, start: usize, e: usize) -> (r: usize)
    requires
        start <= e,
        e <= s@.len(),
    ensures
        r == spec_rtrim(s@, start as int, e as int),
        start <= r <= e,
    decreases e - start,
{
    if e > start {
        let c = s.get_char(e - 1);
        if c == ' ' || c == '\t' || c == '\n' || c == '\r' {
            return rtrim(s, start, e - 1);
        }
    }
    e
}

fn parse_assignment(s: &str, i: usize) -> (r: Result<(Assignment, usize), ParseError>)
    requires
        i <= s@.len(),
    ensures
        match r {
            Ok((a, e)) => spec_parse_assignment(s@, i as int) == Some(
                ((a.key@, a.value@), e as int),
            ) && i < e <= s@.len(),
            Err(pe) => spec_parse_assignment(s@, i as int) is None && (match pe {
                ParseError::MalformedAnnotation { pos } => pos
                    == spec_assignment_error_pos(s@, i as int) && pos <= s@.len(),
            }),
        },
{
    let n = s.unicode_len();
    let j = skip_spaces(s, i);
    if !(j < n) {
        return Err(ParseError::MalformedAnnotation { pos: j });
    }
    let c = s.get_char(j);
    if !(('a' <= c && c <= 'z') || ('A' <= c && c <= 'Z') || c == '_') {
        return Err(ParseError::MalformedAnnotation { pos: j });
    }
    let k = scan_ident(s, j + 1);
    let m = skip_spaces(s, k);
    if !(m < n && s.get_char(m) == '=') {
        return Err(ParseError::MalformedAnnotation { pos: m });
    }
    match scan_expr(s, m + 1, 0) {
        None => Err(ParseError::MalformedAnnotation { pos: m + 1 }),
        Some(e) => {
            let vs = skip_spaces(s, m + 1);
            proof {
                lemma_skip_spaces(s@, m + 1);
                lemma_scan_expr(s@, m + 1, 0);
                if vs > e {
                    assert(is_space(s@[e as int]));
                }
            }
            let ve = rtrim(s, vs, e);
            if vs < ve {
                let key = String::from_str(s.substring_char(j, k));
                let value = String::from_str(s.substring_char(vs, ve));
                Ok((Assignment { key, value }, e))
            } else {
                Err(ParseError::MalformedAnnotation { pos: vs })
            }
        },
    }
}

fn parse_list(s: &str, i: usize) -> (r: Result<Vec<Assignment>, ParseError>)
    requires
        i <= s@.len(),
    ensures
        match r {
            Ok(v) => spec_parse_list(s@, i as int) == Some(assigns_view(v@)) && v@.len() >= 1,
            Err(pe) => spec_parse_list(s@, i as int) is None && (match pe {
                ParseError::MalformedAnnotation { pos } => pos == spec_list_error_pos(
                    s@,
                    i as int,
                ) && pos <= s@.len(),
            }),
        },
    decreases s@.len() - i,
{
    let n = s.unicode_len();
    let (a, e) = match parse_assignment(s, i) {
        Ok(ae) => ae,
        Err(pe) => {
            return Err(pe);
        },
    };
    let m = skip_spaces(s, e);
    if m >= n {
        let mut v: Vec<Assignment> = Vec::new();
        let ghost a0 = a;
        v.push(a);
        proof {
            assert(assigns_view(v@) =~= seq![(a0.key@, a0.value@)]);
        }
        Ok(v)
    } else if s.get_char(m) == ',' {
        let j2 = skip_spaces(s, m + 1);
        if j2 >= n {
            let mut v: Vec<Assignment> = Vec::new();
            let ghost a0 = a;
            v.push(a);
            proof {
                assert(assigns_view(v@) =~= seq![(a0.key@, a0.value@)]);
            }
            Ok(v)
        } else {
            match parse_list(s, m + 1) {
                Err(pe) => Err(pe),
                Ok(mut rest) => {
                    let ghost a0 = a;
                    let ghost rest0 = rest@;
                    rest.insert(0, a);
                    proof {
                        assert(rest@ =~= seq![a0] + rest0);
                        assert(assigns_view(rest@) =~= seq![(a0.key@, a0.value@)] + assigns_view(
                            rest0,
                        ));
                    }
                    Ok(rest)
                },
            }
        }
    } else {
        Err(ParseError::MalformedAnnotation { pos: m })
    }
}

/// Parses the textual content of one case's attribute into its ordered
/// assignments. Succeeds exactly when the text matches the annotation
/// grammar; the error carries exactly the character position of the
/// offending token, `spec_annotation_error_pos`.
pub fn parse_annotation(src: &str) -> (r: Result<Vec<Assignment>, ParseError>)
    ensures
        match r {
            Ok(v) => spec_parse_annotation(src@) == Some(assigns_view(v@)) && v@.len() >= 1,
            Err(pe) => spec_parse_annotation(src@) is None && (match pe {
                ParseError::MalformedAnnotation { pos } => pos == spec_annotation_error_pos(src@)
                    && pos <= src@.len(),
            }),
        },
{
    parse_list(src, 0)
}

} // verus!
