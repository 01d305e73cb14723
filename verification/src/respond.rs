//! The runtime side of the generated capability: evaluated rules and
//! `to_response`.
//!
//! The status-code namespace of the HTTP collaborator is modelled as the
//! numeric codes its symbolic constants stand for; a rule whose
//! expressions lie outside that namespace (or whose hidden expression is
//! not a boolean literal) cannot be carried into a runtime table.

use vstd::prelude::*;

use crate::generic_message;
use crate::rules::NamedRule;
use crate::rules::rules_view;

verus! {

/// A rule with both expressions evaluated: the numeric status code and
/// the visibility flag.
#[derive(PartialEq, Eq, Structural, Clone, Copy, Debug)]
pub struct ResolvedRule {
    pub status: u16,
    pub hidden: bool,
}

/// One case's entry in a runtime response table.
pub struct TableEntry {
    pub name: String,
    pub rule: ResolvedRule,
}

/// A runtime response table: each case name bound to its evaluated rule.
pub struct ResponseTable {
    pub entries: Vec<TableEntry>,
}

/// The numeric code a symbolic status-constant name stands for, for the
/// constants this library knows.
pub open spec fn spec_status_of(name: Seq<char>) -> Option<u16> {
    if name == "OK"@ {
        Some(200u16)
    } else if name == "CREATED"@ {
        Some(201u16)
    } else if name == "BAD_REQUEST"@ {
        Some(400u16)
    } else if name == "UNAUTHORIZED"@ {
        Some(401u16)
    } else if name == "FORBIDDEN"@ {
        Some(403u16)
    } else if name == "NOT_FOUND"@ {
        Some(404u16)
    } else if name == "CONFLICT"@ {
        Some(409u16)
    } else if name == "UNPROCESSABLE_ENTITY"@ {
        Some(422u16)
    } else if name == "INTERNAL_SERVER_ERROR"@ {
        Some(500u16)
    } else {
        None
    }
}

/// The boolean a literal `true`/`false` expression stands for.
pub open spec fn spec_bool_of(name: Seq<char>) -> Option<bool> {
    if name == "true"@ {
        Some(true)
    } else if name == "false"@ {
        Some(false)
    } else {
        None
    }
}

/// Evaluates a status expression to its numeric code.
pub fn eval_status(name: &String) -> (r: Option<u16>)
    ensures
        r == spec_status_of(name@),
{
    if *name == String::from_str("OK") {
        Some(200)
    } else if *name == String::from_str("CREATED") {
        Some(201)
    } else if *name == String::from_str("BAD_REQUEST") {
        Some(400)
    } else if *name == String::from_str("UNAUTHORIZED") {
        Some(401)
    } else if *name == String::from_str("FORBIDDEN") {
        Some(403)
    } else if *name == String::from_str("NOT_FOUND") {
        Some(404)
    } else if *name == String::from_str("CONFLICT") {
        Some(409)
    } else if *name == String::from_str("UNPROCESSABLE_ENTITY") {
        Some(422)
    } else if *name == String::from_str("INTERNAL_SERVER_ERROR") {
        Some(500)
    } else {
        None
    }
}

/// Evaluates a hidden expression to its boolean.
pub fn eval_bool(name: &String) -> (r: Option<bool>)
    ensures
        r == spec_bool_of(name@),
{
    if *name == String::from_str("true") {
        Some(true)
    } else if *name == String::from_str("false") {
        Some(false)
    } else {
        None
    }
}

/// Both expressions of a rule evaluated, when both lie in the namespace.
pub open spec fn spec_eval_rule(status: Seq<char>, hidden: Seq<char>) -> Option<ResolvedRule> {
    match (spec_status_of(status), spec_bool_of(hidden)) {
        (Some(s), Some(h)) => Some(ResolvedRule { status: s, hidden: h }),
        _ => None,
    }
}

/// The `(name, rule)` pairs of a runtime table.
pub open spec fn table_view(v: Seq<TableEntry>) -> Seq<(Seq<char>, ResolvedRule)> {
    v.map_values(|e: TableEntry| (e.name@, e.rule))
}

/// The evaluated table of a resolved rule list, when every rule's
/// expressions evaluate.
pub open spec fn spec_eval_table(rs: Seq<(Seq<char>, (Seq<char>, Seq<char>))>) -> Option<
    Seq<(Seq<char>, ResolvedRule)>,
>
    decreases rs.len(),
{
    if rs.len() == 0 {
        Some(Seq::empty())
    } else {
        match (spec_eval_table(rs.drop_last()), spec_eval_rule(rs.last().1.0, rs.last().1.1)) {
            (Some(t), Some(r)) => Some(t.push((rs.last().0, r))),
            _ => None,
        }
    }
}

proof fn lemma_eval_table_bad(rs: Seq<(Seq<char>, (Seq<char>, Seq<char>))>, i: int)
    requires
        0 <= i < rs.len(),
        spec_eval_rule(rs[i].1.0, rs[i].1.1) is None,
    ensures
        spec_eval_table(rs) is None,
    decreases rs.len(),
{
    if i < rs.len() - 1 {
        assert(rs.drop_last()[i] == rs[i]);
        lemma_eval_table_bad(rs.drop_last(), i);
    }
}

/// Evaluates a resolved rule list into a runtime table; `None` when some
/// rule's expressions lie outside the namespace this library knows.
pub fn eval_table(rules: &Vec<NamedRule>) -> (r: Option<ResponseTable>)
    ensures
        match r {
            Some(t) => spec_eval_table(rules_view(rules@)) == Some(table_view(t.entries@)),
            None => spec_eval_table(rules_view(rules@)) is None,
        },
{
    let mut entries: Vec<TableEntry> = Vec::new();
    let mut i: usize = 0;
    while i < rules.len()
        invariant
            i <= rules@.len(),
            spec_eval_table(rules_view(rules@).take(i as int)) == Some(table_view(entries@)),
        decreases rules@.len() - i,
    {
        let nr = &rules[i];
        proof {
            assert(rules_view(rules@)[i as int] == (nr.name@, (nr.rule.status@, nr.rule.hidden@)));
            assert(rules_view(rules@).take(i + 1).drop_last() =~= rules_view(rules@).take(i as int));
            assert(rules_view(rules@).take(i + 1).last() == rules_view(rules@)[i as int]);
        }
        let status = match eval_status(&nr.rule.status) {
            Some(s) => s,
            None => {
                proof {
                    lemma_eval_table_bad(rules_view(rules@), i as int);
                }
                return None;
            },
        };
        let hidden = match eval_bool(&nr.rule.hidden) {
            Some(h) => h,
            None => {
                proof {
                    lemma_eval_table_bad(rules_view(rules@), i as int);
                }
                return None;
            },
        };
        let ghost before = table_view(entries@);
        entries.push(TableEntry { name: nr.name.clone(), rule: ResolvedRule { status, hidden } });
        proof {
            assert(table_view(entries@) =~= before.push((nr.name@, ResolvedRule { status, hidden })));
        }
        i += 1;
    }
    proof {
        assert(rules_view(rules@).take(rules@.len() as int) =~= rules_view(rules@));
    }
    Some(ResponseTable { entries })
}

/// The rule bound to `name` in a table: the first matching entry, as in
/// the emitted match arms (a built table binds each name once).
pub open spec fn spec_table_rule(t: Seq<(Seq<char>, ResolvedRule)>, name: Seq<char>) -> Option<
    ResolvedRule,
>
    decreases t.len(),
{
    if t.len() == 0 {
        None
    } else if t.first().0 == name {
        Some(t.first().1)
    } else {
        spec_table_rule(t.drop_first(), name)
    }
}

/// What one rule makes of a case's description: the rule's status, and
/// either the description or the fixed generic text when hidden.
pub open spec fn spec_apply_rule(rule: ResolvedRule, desc: Seq<char>) -> (u16, Seq<char>) {
    (rule.status, if rule.hidden {
        generic_message()
    } else {
        desc
    })
}

/// The response of a case against a table: its rule applied, or the
/// defensive default `(500, generic)` for a case the table does not know.
pub open spec fn spec_to_response(
    t: Seq<(Seq<char>, ResolvedRule)>,
    name: Seq<char>,
    desc: Seq<char>,
) -> (u16, Seq<char>) {
    match spec_table_rule(t, name) {
        Some(rule) => spec_apply_rule(rule, desc),
        None => (500u16, generic_message()),
    }
}

fn rule_from(entries: &Vec<TableEntry>, name: &String, i: usize) -> (r: Option<ResolvedRule>)
    requires
        i <= entries@.len(),
    ensures
        r == spec_table_rule(table_view(entries@).skip(i as int), name@),
    decreases entries@.len() - i,
{
    if i >= entries.len() {
        None
    } else {
        let e = &entries[i];
        proof {
            let vw = table_view(entries@);
            assert(vw[i as int] == (entries@[i as int].name@, entries@[i as int].rule));
            assert(vw.skip(i as int).first() == vw[i as int]);
            assert(vw.skip(i as int).drop_first() =~= vw.skip(i + 1));
        }
        if e.name == *name {
            Some(e.rule)
        } else {
            rule_from(entries, name, i + 1)
        }
    }
}

impl ResponseTable {
    /// The rule bound to a case name, if the table knows the case.
    pub fn rule_of(&self, name: &String) -> (r: Option<ResolvedRule>)
        ensures
            r == spec_table_rule(table_view(self.entries@), name@),
    {
        proof {
            assert(table_view(self.entries@).skip(0) =~= table_view(self.entries@));
        }
        rule_from(&self.entries, name, 0)
    }

    /// The `(status, message)` pair of an error case: its rule's status,
    /// and its description unless the rule hides it. A case the table
    /// does not know falls back to `(500, generic)`; the conversion is
    /// total over all cases.
    pub fn to_response(&self, name: &String, description: &String) -> (r: (u16, String))
        ensures
            (r.0, r.1@) == spec_to_response(table_view(self.entries@), name@, description@),
    {
        match self.rule_of(name) {
            Some(rule) => {
                if rule.hidden {
                    (rule.status, crate::generic_message_text())
                } else {
                    (rule.status, description.clone())
                }
            },
            None => (500, crate::generic_message_text()),
        }
    }
}

/// An annotated case with explicit `code = C` and `hidden = false`
/// resolves to the visible rule `{C, false}`, and its response shows the
/// case's own description: `(C, description)`.
pub proof fn lemma_explicit_visible_case(
    assigns: Seq<(Seq<char>, Seq<char>)>,
    code: Seq<char>,
    status: u16,
    desc: Seq<char>,
)
    requires
        crate::rules::spec_lookup(assigns, "code"@) == Some(code),
        crate::rules::spec_lookup(assigns, "hidden"@) == Some("false"@),
        spec_status_of(code) == Some(status),
    ensures
        spec_eval_rule(
            crate::rules::resolved_status_expr(Some(assigns)),
            crate::rules::resolved_hidden_expr(Some(assigns)),
        ) == Some(ResolvedRule { status, hidden: false }),
        spec_apply_rule(ResolvedRule { status, hidden: false }, desc) == (status, desc),
{
    reveal_strlit("true");
    reveal_strlit("false");
    assert("true"@.len() == 4 && "false"@.len() == 5);
}

/// An annotated case with explicit `hidden = true` resolves to a hidden
/// rule, and its response shows the fixed generic message whatever the
/// description says: `(code, generic)`.
pub proof fn lemma_hidden_case(assigns: Seq<(Seq<char>, Seq<char>)>, status: u16, desc: Seq<char>)
    requires
        crate::rules::spec_lookup(assigns, "hidden"@) == Some("true"@),
        spec_status_of(crate::rules::resolved_status_expr(Some(assigns))) == Some(status),
    ensures
        spec_eval_rule(
            crate::rules::resolved_status_expr(Some(assigns)),
            crate::rules::resolved_hidden_expr(Some(assigns)),
        ) == Some(ResolvedRule { status, hidden: true }),
        spec_apply_rule(ResolvedRule { status, hidden: true }, desc) == (status, generic_message()),
{
}

/// A case with no annotation resolves to the atomic default
/// `{INTERNAL_SERVER_ERROR, hidden}` and responds `(500, generic)`.
pub proof fn lemma_unannotated_case(desc: Seq<char>)
    ensures
        spec_eval_rule(
            crate::rules::resolved_status_expr(None),
            crate::rules::resolved_hidden_expr(None),
        ) == Some(ResolvedRule { status: 500u16, hidden: true }),
        spec_apply_rule(ResolvedRule { status: 500u16, hidden: true }, desc) == (
            500u16,
            generic_message(),
        ),
{
    lemma_status_names();
}

proof fn lemma_eval_table_pointwise(
    rs: Seq<(Seq<char>, (Seq<char>, Seq<char>))>,
    t: Seq<(Seq<char>, ResolvedRule)>,
)
    requires
        spec_eval_table(rs) == Some(t),
    ensures
        t.len() == rs.len(),
        forall|i: int|
            0 <= i < rs.len() ==> (#[trigger] t[i]).0 == rs[i].0 && spec_eval_rule(
                rs[i].1.0,
                rs[i].1.1,
            ) == Some(t[i].1),
    decreases rs.len(),
{
    if rs.len() > 0 {
        match spec_eval_table(rs.drop_last()) {
            Some(pt) => {
                lemma_eval_table_pointwise(rs.drop_last(), pt);
                assert forall|i: int| 0 <= i < rs.len() implies (#[trigger] t[i]).0 == rs[i].0
                    && spec_eval_rule(rs[i].1.0, rs[i].1.1) == Some(t[i].1) by {
                    if i < rs.len() - 1 {
                        assert(t[i] == pt[i]);
                        assert(rs.drop_last()[i] == rs[i]);
                    }
                }
            },
            None => {
                assert(false);
            },
        }
    }
}

proof fn lemma_rule_transfer_from(
    rs: Seq<(Seq<char>, (Seq<char>, Seq<char>))>,
    t: Seq<(Seq<char>, ResolvedRule)>,
    name: Seq<char>,
    i: int,
)
    requires
        t.len() == rs.len(),
        forall|k: int|
            0 <= k < rs.len() ==> (#[trigger] t[k]).0 == rs[k].0 && spec_eval_rule(
                rs[k].1.0,
                rs[k].1.1,
            ) == Some(t[k].1),
        0 <= i <= rs.len(),
    ensures
        spec_table_rule(t.skip(i), name) == (match crate::rules::spec_rules_first(
            rs.skip(i),
            name,
        ) {
            Some(r) => spec_eval_rule(r.0, r.1),
            None => None,
        }),
    decreases rs.len() - i,
{
    if i == rs.len() {
    } else {
        assert(t.skip(i).first() == t[i]);
        assert(rs.skip(i).first() == rs[i]);
        assert(t.skip(i).drop_first() =~= t.skip(i + 1));
        assert(rs.skip(i).drop_first() =~= rs.skip(i + 1));
        if rs[i].0 != name {
            lemma_rule_transfer_from(rs, t, name, i + 1);
        }
    }
}

/// An evaluated table answers lookups exactly as the rule list it was
/// evaluated from: the first entry with the name, with its expressions
/// evaluated.
pub proof fn lemma_eval_table_lookup(
    rs: Seq<(Seq<char>, (Seq<char>, Seq<char>))>,
    t: Seq<(Seq<char>, ResolvedRule)>,
    name: Seq<char>,
)
    requires
        spec_eval_table(rs) == Some(t),
    ensures
        spec_table_rule(t, name) == (match crate::rules::spec_rules_first(rs, name) {
            Some(r) => spec_eval_rule(r.0, r.1),
            None => None,
        }),
{
    lemma_eval_table_pointwise(rs, t);
    lemma_rule_transfer_from(rs, t, name, 0);
    assert(t.skip(0) =~= t);
    assert(rs.skip(0) =~= rs);
}

/// End to end for a visible case: when the declarations resolve `name`
/// to an explicit code with `hidden = false`, the runtime table built
/// and evaluated from them responds with that code and the case's own
/// description.
pub proof fn lemma_response_shows_visible_description(
    cases: Seq<crate::rules::CaseDecl>,
    t: Seq<(Seq<char>, ResolvedRule)>,
    name: Seq<char>,
    code: Seq<char>,
    status: u16,
    desc: Seq<char>,
)
    requires
        spec_eval_table(crate::rules::spec_build_rules(cases)) == Some(t),
        crate::rules::spec_cases_rule(cases, name) == Some((code, "false"@)),
        spec_status_of(code) == Some(status),
    ensures
        spec_to_response(t, name, desc) == (status, desc),
{
    crate::rules::lemma_build_rules_lookup(cases, name);
    lemma_eval_table_lookup(crate::rules::spec_build_rules(cases), t, name);
    reveal_strlit("true");
    reveal_strlit("false");
    assert("true"@.len() == 4 && "false"@.len() == 5);
}

/// End to end for a hidden case: whatever the description says, the
/// response replaces it with the fixed generic message.
pub proof fn lemma_response_masks_hidden_description(
    cases: Seq<crate::rules::CaseDecl>,
    t: Seq<(Seq<char>, ResolvedRule)>,
    name: Seq<char>,
    code: Seq<char>,
    status: u16,
    desc: Seq<char>,
)
    requires
        spec_eval_table(crate::rules::spec_build_rules(cases)) == Some(t),
        crate::rules::spec_cases_rule(cases, name) == Some((code, "true"@)),
        spec_status_of(code) == Some(status),
    ensures
        spec_to_response(t, name, desc) == (status, generic_message()),
{
    crate::rules::lemma_build_rules_lookup(cases, name);
    lemma_eval_table_lookup(crate::rules::spec_build_rules(cases), t, name);
}

/// End to end for an unannotated case: the atomic default rule makes the
/// response `(500, generic)`.
pub proof fn lemma_response_for_unannotated_case(
    cases: Seq<crate::rules::CaseDecl>,
    t: Seq<(Seq<char>, ResolvedRule)>,
    name: Seq<char>,
    desc: Seq<char>,
)
    requires
        spec_eval_table(crate::rules::spec_build_rules(cases)) == Some(t),
        crate::rules::spec_cases_rule(cases, name) == Some(("INTERNAL_SERVER_ERROR"@, "true"@)),
    ensures
        spec_to_response(t, name, desc) == (500u16, generic_message()),
{
    lemma_status_names();
    lemma_response_masks_hidden_description(cases, t, name, "INTERNAL_SERVER_ERROR"@, 500u16, desc);
}

/// A case the declarations never named still gets a response: the
/// defensive default `(500, generic)`. Together with the lemmas above,
/// `to_response` is total over all cases.
pub proof fn lemma_response_for_unknown_case(
    cases: Seq<crate::rules::CaseDecl>,
    t: Seq<(Seq<char>, ResolvedRule)>,
    name: Seq<char>,
    desc: Seq<char>,
)
    requires
        spec_eval_table(crate::rules::spec_build_rules(cases)) == Some(t),
        crate::rules::spec_cases_rule(cases, name) is None,
    ensures
        spec_to_response(t, name, desc) == (500u16, generic_message()),
{
    crate::rules::lemma_build_rules_lookup(cases, name);
    lemma_eval_table_lookup(crate::rules::spec_build_rules(cases), t, name);
}

/// The numeric codes of the two status constants the defaults and the
/// taxonomy scenarios rely on.
pub proof fn lemma_status_names()
    ensures
        spec_status_of("INTERNAL_SERVER_ERROR"@) == Some(500u16),
        spec_status_of("BAD_REQUEST"@) == Some(400u16),
        spec_bool_of("true"@) == Some(true),
        spec_bool_of("false"@) == Some(false),
{
    reveal_strlit("OK");
    reveal_strlit("CREATED");
    reveal_strlit("BAD_REQUEST");
    reveal_strlit("UNAUTHORIZED");
    reveal_strlit("FORBIDDEN");
    reveal_strlit("NOT_FOUND");
    reveal_strlit("CONFLICT");
    reveal_strlit("UNPROCESSABLE_ENTITY");
    reveal_strlit("INTERNAL_SERVER_ERROR");
    reveal_strlit("true");
    reveal_strlit("false");
    assert("OK"@.len() == 2);
    assert("CREATED"@.len() == 7);
    assert("BAD_REQUEST"@.len() == 11);
    assert("UNAUTHORIZED"@.len() == 12);
    assert("FORBIDDEN"@.len() == 9);
    assert("NOT_FOUND"@.len() == 9);
    assert("CONFLICT"@.len() == 8);
    assert("UNPROCESSABLE_ENTITY"@.len() == 20);
    assert("INTERNAL_SERVER_ERROR"@.len() == 21);
    assert("BAD_REQUEST"@[0] == 'B' && "UNAUTHORIZED"@[0] == 'U');
    assert("FORBIDDEN"@[0] == 'F' && "NOT_FOUND"@[0] == 'N');
    assert("true"@.len() == 4 && "false"@.len() == 5);
}

} // verus!
