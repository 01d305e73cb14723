//! Response-rule resolution for an error taxonomy.
//!
//! Every case ends up with exactly one rule, a pair of expression texts
//! `(status, hidden)`. A key set twice in one annotation keeps its later
//! value. A key left unset falls back per key: `code` to
//! `INTERNAL_SERVER_ERROR`, `hidden` to `false` — but a case with no
//! annotation at all gets the single atomic default
//! `{INTERNAL_SERVER_ERROR, true}`. A case name declared twice keeps the
//! later declaration's rule (last write wins).

use vstd::prelude::*;

use crate::annot::Assignment;
use crate::annot::ParseError;
use crate::annot::assigns_view;
use crate::annot::parse_annotation;
use crate::annot::spec_parse_annotation;
use crate::diag::GenError;

verus! {

/// One case of the taxonomy as declared: its name and the raw text of its
/// annotation, or `None` when the case carries no annotation.
pub struct CaseDecl {
    pub name: String,
    pub annot: Option<String>,
}

/// The resolved rule of one case, still as expression text.
pub struct RuleExpr {
    pub status: String,
    pub hidden: String,
}

/// A case name bound to its resolved rule.
pub struct NamedRule {
    pub name: String,
    pub rule: RuleExpr,
}

/// The value of `key` among `assigns`, later assignments winning.
pub open spec fn spec_lookup(assigns: Seq<(Seq<char>, Seq<char>)>, key: Seq<char>) -> Option<
    Seq<char>,
>
    decreases assigns.len(),
{
    if assigns.len() == 0 {
        None
    } else if assigns.last().0 == key {
        Some(assigns.last().1)
    } else {
        spec_lookup(assigns.drop_last(), key)
    }
}

/// The status expression of a case: the `code` key if set, else the
/// per-key default; the whole-rule default when no annotation is present.
pub open spec fn resolved_status_expr(annot: Option<Seq<(Seq<char>, Seq<char>)>>) -> Seq<char> {
    match annot {
        None => "INTERNAL_SERVER_ERROR"@,
        Some(a) => match spec_lookup(a, "code"@) {
            Some(v) => v,
            None => "INTERNAL_SERVER_ERROR"@,
        },
    }
}

/// The hidden expression of a case: the `hidden` key if set, else `false`
/// for an annotated case and `true` for an unannotated one.
pub open spec fn resolved_hidden_expr(annot: Option<Seq<(Seq<char>, Seq<char>)>>) -> Seq<char> {
    match annot {
        None => "true"@,
        Some(a) => match spec_lookup(a, "hidden"@) {
            Some(v) => v,
            None => "false"@,
        },
    }
}

/// Unrecognized keys are preserved but ignored: appending an assignment
/// whose key is neither `code` nor `hidden` changes no resolved rule.
pub proof fn lemma_unknown_keys_ignored(
    assigns: Seq<(Seq<char>, Seq<char>)>,
    extra: (Seq<char>, Seq<char>),
)
    requires
        extra.0 != "code"@,
        extra.0 != "hidden"@,
    ensures
        resolved_status_expr(Some(assigns.push(extra))) == resolved_status_expr(Some(assigns)),
        resolved_hidden_expr(Some(assigns.push(extra))) == resolved_hidden_expr(Some(assigns)),
{
    assert(assigns.push(extra).drop_last() =~= assigns);
}

fn lookup_prefix(assigns: &Vec<Assignment>, key: &String, n: usize) -> (r: Option<String>)
    requires
        n <= assigns@.len(),
    ensures
        match r {
            Some(v) => spec_lookup(assigns_view(assigns@).take(n as int), key@) == Some(v@),
            None => spec_lookup(assigns_view(assigns@).take(n as int), key@) is None,
        },
    decreases n,
{
    if n == 0 {
        None
    } else {
        let a = &assigns[n - 1];
        proof {
            let vw = assigns_view(assigns@);
            assert(vw.take(n as int).last() == vw[n - 1]);
            assert(vw.take(n as int).drop_last() =~= vw.take(n - 1));
        }
        if a.key == *key {
            Some(a.value.clone())
        } else {
            lookup_prefix(assigns, key, n - 1)
        }
    }
}

/// The value of `key` among the parsed assignments, later ones winning.
pub fn lookup_assign(assigns: &Vec<Assignment>, key: &String) -> (r: Option<String>)
    ensures
        match r {
            Some(v) => spec_lookup(assigns_view(assigns@), key@) == Some(v@),
            None => spec_lookup(assigns_view(assigns@), key@) is None,
        },
{
    let n = assigns.len();
    proof {
        assert(assigns_view(assigns@).take(n as int) =~= assigns_view(assigns@));
    }
    lookup_prefix(assigns, key, n)
}

/// The parsed assignments of a case, `None` when it has no annotation.
pub open spec fn opt_assigns_view(o: Option<Vec<Assignment>>) -> Option<
    Seq<(Seq<char>, Seq<char>)>,
> {
    match o {
        None => None,
        Some(v) => Some(assigns_view(v@)),
    }
}

/// Resolves one case's parsed annotation into its rule expressions,
/// filling unset keys with their defaults.
pub fn resolve_exprs(annot: &Option<Vec<Assignment>>) -> (r: RuleExpr)
    ensures
        r.status@ == resolved_status_expr(opt_assigns_view(*annot)),
        r.hidden@ == resolved_hidden_expr(opt_assigns_view(*annot)),
{
    match annot {
        None => RuleExpr {
            status: String::from_str("INTERNAL_SERVER_ERROR"),
            hidden: String::from_str("true"),
        },
        Some(v) => {
            let code_key = String::from_str("code");
            let hidden_key = String::from_str("hidden");
            let status = match lookup_assign(v, &code_key) {
                Some(x) => x,
                None => String::from_str("INTERNAL_SERVER_ERROR"),
            };
            let hidden = match lookup_assign(v, &hidden_key) {
                Some(x) => x,
                None => String::from_str("false"),
            };
            RuleExpr { status, hidden }
        },
    }
}

/// The annotation text of a case, as character sequences.
pub open spec fn case_annot_view(c: CaseDecl) -> Option<Seq<char>> {
    match c.annot {
        None => None,
        Some(t) => Some(t@),
    }
}

/// Parsing outcome of a case's annotation: `None` means malformed; the
/// inner option distinguishes an absent annotation from a parsed one.
pub open spec fn spec_case_parsed(annot: Option<Seq<char>>) -> Option<
    Option<Seq<(Seq<char>, Seq<char>)>>,
> {
    match annot {
        None => Some(None),
        Some(text) => match spec_parse_annotation(text) {
            None => None,
            Some(a) => Some(Some(a)),
        },
    }
}

/// Whether the case's annotation (if any) matches the grammar.
pub open spec fn spec_case_ok(c: CaseDecl) -> bool {
    spec_case_parsed(case_annot_view(c)) is Some
}

/// The rule expressions a well-formed case resolves to.
pub open spec fn spec_case_rule_exprs(c: CaseDecl) -> (Seq<char>, Seq<char>) {
    match spec_case_parsed(case_annot_view(c)) {
        Some(pa) => (resolved_status_expr(pa), resolved_hidden_expr(pa)),
        None => (Seq::empty(), Seq::empty()),
    }
}

/// The `(name, (status, hidden))` triples of a rule list.
pub open spec fn rules_view(v: Seq<NamedRule>) -> Seq<(Seq<char>, (Seq<char>, Seq<char>))> {
    v.map_values(|nr: NamedRule| (nr.name@, (nr.rule.status@, nr.rule.hidden@)))
}

/// Binds `name` to `rule`: replaces the rule of an already-present name
/// in place, appends a new name at the end.
pub open spec fn spec_upsert(
    t: Seq<(Seq<char>, (Seq<char>, Seq<char>))>,
    name: Seq<char>,
    rule: (Seq<char>, Seq<char>),
) -> Seq<(Seq<char>, (Seq<char>, Seq<char>))>
    decreases t.len(),
{
    if t.len() == 0 {
        seq![(name, rule)]
    } else if t.first().0 == name {
        seq![(name, rule)] + t.drop_first()
    } else {
        seq![t.first()] + spec_upsert(t.drop_first(), name, rule)
    }
}

proof fn lemma_upsert_found(
    t: Seq<(Seq<char>, (Seq<char>, Seq<char>))>,
    name: Seq<char>,
    rule: (Seq<char>, Seq<char>),
    idx: int,
)
    requires
        0 <= idx < t.len(),
        t[idx].0 == name,
        forall|k: int| 0 <= k < idx ==> t[k].0 != name,
    ensures
        spec_upsert(t, name, rule) == t.update(idx, (name, rule)),
    decreases idx,
{
    if idx == 0 {
        assert(seq![(name, rule)] + t.drop_first() =~= t.update(0, (name, rule)));
    } else {
        assert(t[0].0 != name);
        assert(t.drop_first()[idx - 1] == t[idx]);
        assert forall|k: int| 0 <= k < idx - 1 implies t.drop_first()[k].0 != name by {
            assert(t.drop_first()[k] == t[k + 1]);
        }
        lemma_upsert_found(t.drop_first(), name, rule, idx - 1);
        assert(seq![t.first()] + t.drop_first().update(idx - 1, (name, rule)) =~= t.update(
            idx,
            (name, rule),
        ));
    }
}

proof fn lemma_upsert_missing(
    t: Seq<(Seq<char>, (Seq<char>, Seq<char>))>,
    name: Seq<char>,
    rule: (Seq<char>, Seq<char>),
)
    requires
        forall|k: int| 0 <= k < t.len() ==> t[k].0 != name,
    ensures
        spec_upsert(t, name, rule) == t.push((name, rule)),
    decreases t.len(),
{
    if t.len() == 0 {
        assert(seq![(name, rule)] =~= t.push((name, rule)));
    } else {
        assert(t[0].0 != name);
        assert forall|k: int| 0 <= k < t.drop_first().len() implies t.drop_first()[k].0 != name by {
            assert(t.drop_first()[k] == t[k + 1]);
        }
        lemma_upsert_missing(t.drop_first(), name, rule);
        assert(seq![t.first()] + t.drop_first().push((name, rule)) =~= t.push((name, rule)));
    }
}

fn find_name(table: &Vec<NamedRule>, name: &String, i: usize) -> (r: Option<usize>)
    requires
        i <= table@.len(),
    ensures
        match r {
            Some(idx) => i <= idx < table@.len() && rules_view(table@)[idx as int].0 == name@
                && (forall|k: int| i <= k < idx ==> rules_view(table@)[k].0 != name@),
            None => forall|k: int| i <= k < table@.len() ==> rules_view(table@)[k].0 != name@,
        },
    decreases table@.len() - i,
{
    if i >= table.len() {
        None
    } else {
        let entry = &table[i];
        proof {
            assert(rules_view(table@)[i as int] == (table@[i as int].name@, (
                table@[i as int].rule.status@,
                table@[i as int].rule.hidden@,
            )));
        }
        if entry.name == *name {
            Some(i)
        } else {
            find_name(table, name, i + 1)
        }
    }
}

/// Binds `name` to `rule` in the table, replacing in place or appending.
pub fn upsert(table: &mut Vec<NamedRule>, name: String, rule: RuleExpr)
    ensures
        rules_view(final(table)@) == spec_upsert(
            rules_view(old(table)@),
            name@,
            (rule.status@, rule.hidden@),
        ),
{
    let ghost orig = rules_view(table@);
    let ghost nv = name@;
    let ghost rv = (rule.status@, rule.hidden@);
    let found = find_name(table, &name, 0);
    match found {
        Some(idx) => {
            proof {
                lemma_upsert_found(orig, nv, rv, idx as int);
            }
            table.set(idx, NamedRule { name, rule });
            proof {
                assert(rules_view(table@) =~= orig.update(idx as int, (nv, rv)));
            }
        },
        None => {
            table.push(NamedRule { name, rule });
            proof {
                lemma_upsert_missing(orig, nv, rv);
                assert(rules_view(table@) =~= orig.push((nv, rv)));
            }
        },
    }
}

/// The resolved table of a whole taxonomy, built case by case in
/// declaration order; a repeated case name keeps the later rule.
pub open spec fn spec_build_rules(cases: Seq<CaseDecl>) -> Seq<
    (Seq<char>, (Seq<char>, Seq<char>)),
>
    decreases cases.len(),
{
    if cases.len() == 0 {
        Seq::empty()
    } else {
        spec_upsert(
            spec_build_rules(cases.drop_last()),
            cases.last().name@,
            spec_case_rule_exprs(cases.last()),
        )
    }
}

/// The rule bound to `name` in a built table, earlier entries winning
/// (a built table binds each name once, at its first occurrence).
pub open spec fn spec_rules_first(
    rs: Seq<(Seq<char>, (Seq<char>, Seq<char>))>,
    name: Seq<char>,
) -> Option<(Seq<char>, Seq<char>)>
    decreases rs.len(),
{
    if rs.len() == 0 {
        None
    } else if rs.first().0 == name {
        Some(rs.first().1)
    } else {
        spec_rules_first(rs.drop_first(), name)
    }
}

/// The declarative mapping of spec rule resolution: the rule of the last
/// declared case with `name`, or nothing when no case carries that name.
pub open spec fn spec_cases_rule(cases: Seq<CaseDecl>, name: Seq<char>) -> Option<
    (Seq<char>, Seq<char>),
>
    decreases cases.len(),
{
    if cases.len() == 0 {
        None
    } else if cases.last().name@ == name {
        Some(spec_case_rule_exprs(cases.last()))
    } else {
        spec_cases_rule(cases.drop_last(), name)
    }
}

proof fn lemma_upsert_lookup(
    t: Seq<(Seq<char>, (Seq<char>, Seq<char>))>,
    n: Seq<char>,
    r: (Seq<char>, Seq<char>),
    m: Seq<char>,
)
    ensures
        spec_rules_first(spec_upsert(t, n, r), m) == if m == n {
            Some(r)
        } else {
            spec_rules_first(t, m)
        },
    decreases t.len(),
{
    if t.len() == 0 {
        let u = seq![(n, r)];
        assert(spec_upsert(t, n, r) == u);
        assert(u.first() == (n, r));
        assert(u.drop_first() =~= Seq::<(Seq<char>, (Seq<char>, Seq<char>))>::empty());
        if m != n {
            assert(spec_rules_first(u, m) == spec_rules_first(u.drop_first(), m));
            assert(spec_rules_first(u.drop_first(), m) is None);
        }
    } else if t.first().0 == n {
        let u = seq![(n, r)] + t.drop_first();
        assert(spec_upsert(t, n, r) == u);
        assert(u.first() == (n, r));
        assert(u.drop_first() =~= t.drop_first());
        if m != n {
            assert(spec_rules_first(u, m) == spec_rules_first(t.drop_first(), m));
            assert(spec_rules_first(t, m) == spec_rules_first(t.drop_first(), m));
        }
    } else {
        let u = seq![t.first()] + spec_upsert(t.drop_first(), n, r);
        assert(spec_upsert(t, n, r) == u);
        assert(u.first() == t.first());
        assert(u.drop_first() =~= spec_upsert(t.drop_first(), n, r));
        lemma_upsert_lookup(t.drop_first(), n, r, m);
        if m == t.first().0 {
            assert(spec_rules_first(u, m) == Some(t.first().1));
            assert(spec_rules_first(t, m) == Some(t.first().1));
        } else {
            assert(spec_rules_first(u, m) == spec_rules_first(spec_upsert(t.drop_first(), n, r), m));
            assert(spec_rules_first(t, m) == spec_rules_first(t.drop_first(), m));
        }
    }
}

/// What the built table binds a name to is exactly the declarative
/// mapping: the resolved rule of the last declared case with that name.
pub proof fn lemma_build_rules_lookup(cases: Seq<CaseDecl>, name: Seq<char>)
    ensures
        spec_rules_first(spec_build_rules(cases), name) == spec_cases_rule(cases, name),
    decreases cases.len(),
{
    if cases.len() > 0 {
        lemma_upsert_lookup(
            spec_build_rules(cases.drop_last()),
            cases.last().name@,
            spec_case_rule_exprs(cases.last()),
            name,
        );
        lemma_build_rules_lookup(cases.drop_last(), name);
    }
}

/// The index of the first case whose annotation is malformed, if any.
pub open spec fn spec_first_bad(cases: Seq<CaseDecl>) -> Option<int>
    decreases cases.len(),
{
    if cases.len() == 0 {
        None
    } else if !spec_case_ok(cases.first()) {
        Some(0)
    } else {
        match spec_first_bad(cases.drop_first()) {
            None => None,
            Some(j) => Some(j + 1),
        }
    }
}

proof fn lemma_first_bad_at(cases: Seq<CaseDecl>, i: int)
    requires
        0 <= i < cases.len(),
        forall|k: int| 0 <= k < i ==> spec_case_ok(#[trigger] cases[k]),
        !spec_case_ok(cases[i]),
    ensures
        spec_first_bad(cases) == Some(i),
    decreases i,
{
    if i == 0 {
    } else {
        assert(spec_case_ok(cases[0]));
        assert(cases.drop_first()[i - 1] == cases[i]);
        assert forall|k: int| 0 <= k < i - 1 implies spec_case_ok(
            #[trigger] cases.drop_first()[k],
        ) by {
            assert(cases.drop_first()[k] == cases[k + 1]);
        }
        lemma_first_bad_at(cases.drop_first(), i - 1);
    }
}

proof fn lemma_first_bad_none(cases: Seq<CaseDecl>)
    requires
        forall|k: int| 0 <= k < cases.len() ==> spec_case_ok(#[trigger] cases[k]),
    ensures
        spec_first_bad(cases) is None,
    decreases cases.len(),
{
    if cases.len() == 0 {
    } else {
        assert(spec_case_ok(cases[0]));
        assert forall|k: int| 0 <= k < cases.drop_first().len() implies spec_case_ok(
            #[trigger] cases.drop_first()[k],
        ) by {
            assert(cases.drop_first()[k] == cases[k + 1]);
        }
        lemma_first_bad_none(cases.drop_first());
    }
}

/// Builds the resolved rule table of a taxonomy: parses every case's
/// annotation and fills defaults. Fails on the first malformed
/// annotation, naming the case and the character position of the
/// offending token within its annotation text.
pub fn build_rules(cases: &Vec<CaseDecl>) -> (r: Result<Vec<NamedRule>, GenError>)
    ensures
        match r {
            Ok(t) => spec_first_bad(cases@) is None && rules_view(t@) == spec_build_rules(cases@),
            Err(e) => match e {
                GenError::MalformedAnnotation { case, pos } => spec_first_bad(cases@) == Some(
                    case as int,
                ) && case < cases@.len() && (match cases@[case as int].annot {
                    Some(t) => pos == crate::annot::spec_annotation_error_pos(t@) && pos
                        <= t@.len(),
                    None => false,
                }),
                _ => false,
            },
        },
{
    let mut out: Vec<NamedRule> = Vec::new();
    let mut i: usize = 0;
    while i < cases.len()
        invariant
            i <= cases@.len(),
            forall|k: int| 0 <= k < i ==> spec_case_ok(#[trigger] cases@[k]),
            rules_view(out@) == spec_build_rules(cases@.take(i as int)),
        decreases cases@.len() - i,
    {
        let c = &cases[i];
        let parsed: Option<Vec<Assignment>> = match &c.annot {
            None => None,
            Some(text) => {
                match parse_annotation(text.as_str()) {
                    Ok(v) => Some(v),
                    Err(ParseError::MalformedAnnotation { pos }) => {
                        proof {
                            lemma_first_bad_at(cases@, i as int);
                        }
                        return Err(GenError::MalformedAnnotation { case: i, pos });
                    },
                }
            },
        };
        let rule = resolve_exprs(&parsed);
        let name = c.name.clone();
        proof {
            assert(spec_case_ok(cases@[i as int]));
            assert(spec_case_rule_exprs(cases@[i as int]) == (rule.status@, rule.hidden@));
        }
        upsert(&mut out, name, rule);
        proof {
            assert(cases@.take(i + 1).drop_last() =~= cases@.take(i as int));
            assert(cases@.take(i + 1).last() == cases@[i as int]);
        }
        i += 1;
    }
    proof {
        lemma_first_bad_none(cases@);
        assert(cases@.take(cases@.len() as int) =~= cases@);
    }
    Ok(out)
}

} // verus!
