//! The generation pass: emitted source text for the response capability
//! and the handler envelope.
//!
//! Both transforms are pure functions of the declarations they receive:
//! the emitted text is pinned, character for character, by the spec
//! functions below, so re-running a pass on unchanged declarations
//! produces byte-identical output.

use vstd::prelude::*;

use crate::diag::GenError;
use crate::rules::CaseDecl;
use crate::rules::NamedRule;
use crate::rules::build_rules;
use crate::rules::rules_view;
use crate::rules::spec_build_rules;
use crate::rules::spec_first_bad;

verus! {

/// An error taxonomy as declared: the type's name and its cases.
pub struct EnumDecl {
    pub name: String,
    pub cases: Vec<CaseDecl>,
}

/// What the derive-style transform was applied to.
pub enum DeriveTarget {
    Enum(EnumDecl),
    Other,
}

/// One match arm of the emitted capability implementation.
pub open spec fn spec_arm_text(name: Seq<char>, status: Seq<char>, hidden: Seq<char>) -> Seq<
    char,
> {
    "            Self::"@ + name + " { .. } => {\n                let status = ::axum::http::StatusCode::"@
        + status + ";\n                if "@ + hidden
        + " {\n                    (status, \"An unknown error occurred.\".to_string())\n                } else {\n                    (status, self.to_string())\n                }\n            },\n"@
}

/// The arms of all resolved rules, in table order.
pub open spec fn spec_arms_text(rs: Seq<(Seq<char>, (Seq<char>, Seq<char>))>) -> Seq<char>
    decreases rs.len(),
{
    if rs.len() == 0 {
        Seq::<char>::empty()
    } else {
        spec_arms_text(rs.drop_last()) + spec_arm_text(
            rs.last().0,
            rs.last().1.0,
            rs.last().1.1,
        )
    }
}

/// The whole emitted capability for one taxonomy: the `to_response`
/// method over the resolved rules, and an `IntoResponse` impl that
/// delegates to it.
pub open spec fn spec_impl_text(name: Seq<char>, rs: Seq<(Seq<char>, (Seq<char>, Seq<char>))>) -> Seq<
    char,
> {
    "impl "@ + name
        + " {\n    fn to_response(self) -> (::axum::http::StatusCode, String) {\n        match self {\n"@
        + spec_arms_text(rs)
        + "            #[allow(unreachable_patterns)]\n            _ => {\n                let status = ::axum::http::StatusCode::INTERNAL_SERVER_ERROR;\n                (status, \"An unknown error occurred.\".to_string())\n            },\n        }\n    }\n}\n\nimpl ::axum::response::IntoResponse for "@
        + name
        + " {\n    fn into_response(self) -> ::axum::response::Response {\n        self.to_response().into_response()\n    }\n}\n"@
}

/// The emitted text of a whole well-formed taxonomy.
pub open spec fn spec_derive_text(name: Seq<char>, cases: Seq<CaseDecl>) -> Seq<char> {
    spec_impl_text(name, spec_build_rules(cases))
}

fn append_arm(out: &mut String, nr: &NamedRule)
    ensures
        final(out)@ == old(out)@ + spec_arm_text(nr.name@, nr.rule.status@, nr.rule.hidden@),
{
    out.append("            Self::");
    out.append(nr.name.as_str());
    out.append(" { .. } => {\n                let status = ::axum::http::StatusCode::");
    out.append(nr.rule.status.as_str());
    out.append(";\n                if ");
    out.append(nr.rule.hidden.as_str());
    out.append(
        " {\n                    (status, \"An unknown error occurred.\".to_string())\n                } else {\n                    (status, self.to_string())\n                }\n            },\n",
    );
    proof {
        assert(out@ =~= old(out)@ + spec_arm_text(nr.name@, nr.rule.status@, nr.rule.hidden@));
    }
}

/// Emits the response capability for an error taxonomy: a
/// `to_response(self) -> (status, message)` method with one match arm
/// per resolved case rule, in declaration order, and a defensive
/// default arm, plus an `IntoResponse` impl delegating to it. Fails
/// with `MissingEnumTarget` on a non-taxonomy target and with
/// `MalformedAnnotation` on the first case whose annotation violates
/// the grammar, pointing at the offending token; nothing is emitted
/// then.
pub fn derive_into_response(target: &DeriveTarget) -> (r: Result<String, GenError>)
    ensures
        match r {
            Ok(out) => match target {
                DeriveTarget::Enum(d) => spec_first_bad(d.cases@) is None && out@
                    == spec_derive_text(d.name@, d.cases@),
                DeriveTarget::Other => false,
            },
            Err(e) => match e {
                GenError::MissingEnumTarget => target is Other,
                GenError::MalformedAnnotation { case, pos } => match target {
                    DeriveTarget::Enum(d) => spec_first_bad(d.cases@) == Some(case as int) && case
                        < d.cases@.len() && (match d.cases@[case as int].annot {
                        Some(t) => pos == crate::annot::spec_annotation_error_pos(t@) && pos
                            <= t@.len(),
                        None => false,
                    }),
                    DeriveTarget::Other => false,
                },
                _ => false,
            },
        },
{
    let d = match target {
        DeriveTarget::Other => {
            return Err(GenError::MissingEnumTarget);
        },
        DeriveTarget::Enum(d) => d,
    };
    let rules = match build_rules(&d.cases) {
        Ok(t) => t,
        Err(e) => {
            return Err(e);
        },
    };
    let mut out = String::new();
    out.append("impl ");
    out.append(d.name.as_str());
    out.append(
        " {\n    fn to_response(self) -> (::axum::http::StatusCode, String) {\n        match self {\n",
    );
    let ghost head = out@;
    proof {
        assert(spec_arms_text(rules_view(rules@).take(0)) == Seq::<char>::empty());
        assert(out@ =~= head + spec_arms_text(rules_view(rules@).take(0)));
    }
    let mut i: usize = 0;
    while i < rules.len()
        invariant
            i <= rules@.len(),
            out@ == head + spec_arms_text(rules_view(rules@).take(i as int)),
        decreases rules@.len() - i,
    {
        let nr = &rules[i];
        proof {
            assert(rules_view(rules@)[i as int] == (nr.name@, (nr.rule.status@, nr.rule.hidden@)));
            assert(rules_view(rules@).take(i + 1).drop_last() =~= rules_view(rules@).take(i as int));
            assert(rules_view(rules@).take(i + 1).last() == rules_view(rules@)[i as int]);
        }
        append_arm(&mut out, nr);
        proof {
            assert(out@ =~= head + spec_arms_text(rules_view(rules@).take(i + 1)));
        }
        i += 1;
    }
    proof {
        assert(rules_view(rules@).take(rules@.len() as int) =~= rules_view(rules@));
    }
    out.append(
        "            #[allow(unreachable_patterns)]\n            _ => {\n                let status = ::axum::http::StatusCode::INTERNAL_SERVER_ERROR;\n                (status, \"An unknown error occurred.\".to_string())\n            },\n        }\n    }\n}\n\nimpl ::axum::response::IntoResponse for ",
    );
    out.append(d.name.as_str());
    out.append(
        " {\n    fn into_response(self) -> ::axum::response::Response {\n        self.to_response().into_response()\n    }\n}\n",
    );
    proof {
        assert(out@ =~= spec_derive_text(d.name@, d.cases@));
    }
    Ok(out)
}

/// One parameter of a handler declaration.
pub enum ParamDecl {
    /// A simple typed binding, `name: Type`.
    Binding { name: String, ty: String },
    /// An irrefutable pattern with a type, such as `(a, b): (u32, u32)`.
    Pattern { pat: String, ty: String },
    /// A `self` receiver.
    Receiver,
}

/// A request-handler declaration: visibility text (emitted verbatim,
/// with its trailing space when present), name, parameters, declared
/// outcome type, and the original body block text.
pub struct HandlerSpec {
    pub vis: String,
    pub name: String,
    pub params: Vec<ParamDecl>,
    pub output: String,
    pub body: String,
}

/// The parameter list text of one parameter.
pub open spec fn spec_param_text(p: ParamDecl) -> Seq<char> {
    match p {
        ParamDecl::Binding { name, ty } => name@ + ": "@ + ty@,
        ParamDecl::Pattern { pat, ty } => pat@ + ": "@ + ty@,
        ParamDecl::Receiver => "self"@,
    }
}

/// The argument text of one parameter in the forwarding call.
pub open spec fn spec_arg_text(p: ParamDecl) -> Seq<char> {
    match p {
        ParamDecl::Binding { name, ty } => name@,
        ParamDecl::Pattern { pat, ty } => pat@,
        ParamDecl::Receiver => "self"@,
    }
}

pub open spec fn params_view(ps: Seq<ParamDecl>) -> Seq<Seq<char>> {
    ps.map_values(|p: ParamDecl| spec_param_text(p))
}

pub open spec fn args_view(ps: Seq<ParamDecl>) -> Seq<Seq<char>> {
    ps.map_values(|p: ParamDecl| spec_arg_text(p))
}

/// Pieces joined by `", "`.
pub open spec fn spec_join(items: Seq<Seq<char>>) -> Seq<char>
    decreases items.len(),
{
    if items.len() == 0 {
        Seq::<char>::empty()
    } else if items.len() == 1 {
        items[0]
    } else {
        spec_join(items.drop_last()) + ", "@ + items.last()
    }
}

/// The index of the first parameter that is not a simple typed binding.
pub open spec fn spec_first_unsupported(ps: Seq<ParamDecl>) -> Option<int>
    decreases ps.len(),
{
    if ps.len() == 0 {
        None
    } else if !(ps.first() is Binding) {
        Some(0)
    } else {
        match spec_first_unsupported(ps.drop_first()) {
            None => None,
            Some(j) => Some(j + 1),
        }
    }
}

proof fn lemma_first_unsupported_at(ps: Seq<ParamDecl>, i: int)
    requires
        0 <= i < ps.len(),
        forall|k: int| 0 <= k < i ==> #[trigger] ps[k] is Binding,
        !(ps[i] is Binding),
    ensures
        spec_first_unsupported(ps) == Some(i),
    decreases i,
{
    if i == 0 {
    } else {
        assert(ps[0] is Binding);
        assert(ps.drop_first()[i - 1] == ps[i]);
        assert forall|k: int| 0 <= k < i - 1 implies #[trigger] ps.drop_first()[k] is Binding by {
            assert(ps.drop_first()[k] == ps[k + 1]);
        }
        lemma_first_unsupported_at(ps.drop_first(), i - 1);
    }
}

proof fn lemma_first_unsupported_none(ps: Seq<ParamDecl>)
    requires
        forall|k: int| 0 <= k < ps.len() ==> #[trigger] ps[k] is Binding,
    ensures
        spec_first_unsupported(ps) is None,
    decreases ps.len(),
{
    if ps.len() == 0 {
    } else {
        assert(ps[0] is Binding);
        assert forall|k: int| 0 <= k < ps.drop_first().len() implies #[trigger] ps.drop_first()[k] is Binding by {
            assert(ps.drop_first()[k] == ps[k + 1]);
        }
        lemma_first_unsupported_none(ps.drop_first());
    }
}

fn param_piece(p: &ParamDecl) -> (r: String)
    ensures
        r@ == spec_param_text(*p),
{
    match p {
        ParamDecl::Binding { name, ty } => {
            let mut s = name.clone();
            s.append(": ");
            s.append(ty.as_str());
            proof {
                assert(s@ =~= spec_param_text(*p));
            }
            s
        },
        ParamDecl::Pattern { pat, ty } => {
            let mut s = pat.clone();
            s.append(": ");
            s.append(ty.as_str());
            proof {
                assert(s@ =~= spec_param_text(*p));
            }
            s
        },
        ParamDecl::Receiver => String::from_str("self"),
    }
}

fn arg_piece(p: &ParamDecl) -> (r: String)
    ensures
        r@ == spec_arg_text(*p),
{
    match p {
        ParamDecl::Binding { name, ty } => name.clone(),
        ParamDecl::Pattern { pat, ty } => pat.clone(),
        ParamDecl::Receiver => String::from_str("self"),
    }
}

fn params_text(ps: &Vec<ParamDecl>) -> (r: String)
    ensures
        r@ == spec_join(params_view(ps@)),
{
    let mut out = String::new();
    let mut i: usize = 0;
    while i < ps.len()
        invariant
            i <= ps@.len(),
            out@ == spec_join(params_view(ps@).take(i as int)),
        decreases ps@.len() - i,
    {
        if i > 0 {
            out.append(", ");
        }
        let piece = param_piece(&ps[i]);
        out.append(piece.as_str());
        proof {
            let vw = params_view(ps@);
            assert(vw[i as int] == spec_param_text(ps@[i as int]));
            assert(vw.take(i + 1).drop_last() =~= vw.take(i as int));
            assert(vw.take(i + 1).last() == vw[i as int]);
            assert(out@ =~= spec_join(vw.take(i + 1)));
        }
        i += 1;
    }
    proof {
        assert(params_view(ps@).take(ps@.len() as int) =~= params_view(ps@));
    }
    out
}

fn args_text(ps: &Vec<ParamDecl>) -> (r: String)
    ensures
        r@ == spec_join(args_view(ps@)),
{
    let mut out = String::new();
    let mut i: usize = 0;
    while i < ps.len()
        invariant
            i <= ps@.len(),
            out@ == spec_join(args_view(ps@).take(i as int)),
        decreases ps@.len() - i,
    {
        if i > 0 {
            out.append(", ");
        }
        let piece = arg_piece(&ps[i]);
        out.append(piece.as_str());
        proof {
            let vw = args_view(ps@);
            assert(vw[i as int] == spec_arg_text(ps@[i as int]));
            assert(vw.take(i + 1).drop_last() =~= vw.take(i as int));
            assert(vw.take(i + 1).last() == vw[i as int]);
            assert(out@ =~= spec_join(vw.take(i + 1)));
        }
        i += 1;
    }
    proof {
        assert(args_view(ps@).take(ps@.len() as int) =~= args_view(ps@));
    }
    out
}

/// The whole emitted text of one transformed handler: the original
/// declaration renamed to `<name>_orig`, then a replacement under the
/// original name whose body forwards to the original and wraps the
/// awaited outcome in the uniform envelope. On failure the replacement
/// obtains `(status, message)` from the error value's `to_response`
/// capability, so a hidden case's real description never reaches the
/// body.
pub open spec fn spec_handler_text(h: HandlerSpec) -> Seq<char> {
    h.vis@ + "async fn "@ + h.name@ + "_orig("@ + spec_join(params_view(h.params@)) + ") -> "@
        + h.output@ + " "@ + h.body@ + "\n\n"@ + h.vis@ + "async fn "@ + h.name@ + "("@
        + spec_join(params_view(h.params@))
        + ") -> impl ::axum::response::IntoResponse {\n    let result = ("@ + h.name@ + "_orig)("@
        + spec_join(args_view(h.params@)) + ").await;\n"@
        + "    match result {\n        Ok(data) => {\n            (::axum::http::StatusCode::OK, ::axum::Json(serde_json::json!({\n                \"data\": data\n            })))\n        },\n        Err(e) => {\n            let (status, msg) = e.to_response();\n            (status, ::axum::Json(serde_json::json!({\n                \"error\": msg\n            })))\n        }\n    }\n}\n"@
}

/// Rewrites one handler declaration: keeps the original body under
/// `<name>_orig` and synthesizes a replacement with the same parameter
/// list that wraps the outcome in the uniform envelope, taking the
/// failure message from the error's `to_response` capability. Fails
/// with `UnsupportedParameterPattern` at the first parameter that is
/// not a simple typed binding.
pub fn handler(h: &HandlerSpec) -> (r: Result<String, GenError>)
    ensures
        match r {
            Ok(out) => spec_first_unsupported(h.params@) is None && out@ == spec_handler_text(*h),
            Err(e) => match e {
                GenError::UnsupportedParameterPattern { index } => spec_first_unsupported(
                    h.params@,
                ) == Some(index as int) && index < h.params@.len(),
                _ => false,
            },
        },
{
    let mut i: usize = 0;
    while i < h.params.len()
        invariant
            i <= h.params@.len(),
            forall|k: int| 0 <= k < i ==> #[trigger] h.params@[k] is Binding,
        decreases h.params@.len() - i,
    {
        let p = &h.params[i];
        match p {
            ParamDecl::Binding { .. } => {},
            _ => {
                proof {
                    lemma_first_unsupported_at(h.params@, i as int);
                }
                return Err(GenError::UnsupportedParameterPattern { index: i });
            },
        }
        i += 1;
    }
    proof {
        lemma_first_unsupported_none(h.params@);
    }
    let params = params_text(&h.params);
    let args = args_text(&h.params);
    let mut out = String::new();
    out.append(h.vis.as_str());
    out.append("async fn ");
    out.append(h.name.as_str());
    out.append("_orig(");
    out.append(params.as_str());
    out.append(") -> ");
    out.append(h.output.as_str());
    out.append(" ");
    out.append(h.body.as_str());
    out.append("\n\n");
    out.append(h.vis.as_str());
    out.append("async fn ");
    out.append(h.name.as_str());
    out.append("(");
    out.append(params.as_str());
    out.append(") -> impl ::axum::response::IntoResponse {\n    let result = (");
    out.append(h.name.as_str());
    out.append("_orig)(");
    out.append(args.as_str());
    out.append(").await;\n");
    out.append(
        "    match result {\n        Ok(data) => {\n            (::axum::http::StatusCode::OK, ::axum::Json(serde_json::json!({\n                \"data\": data\n            })))\n        },\n        Err(e) => {\n            let (status, msg) = e.to_response();\n            (status, ::axum::Json(serde_json::json!({\n                \"error\": msg\n            })))\n        }\n    }\n}\n",
    );
    proof {
        assert(out@ =~= spec_handler_text(*h));
    }
    Ok(out)
}

/// The generation pass is deterministic: equal declarations produce
/// equal (byte-identical) emitted text, however often the pass is run.
pub proof fn lemma_generation_deterministic(
    a: EnumDecl,
    b: EnumDecl,
    ha: HandlerSpec,
    hb: HandlerSpec,
)
    requires
        a.name@ == b.name@,
        a.cases@ == b.cases@,
        ha == hb,
    ensures
        spec_derive_text(a.name@, a.cases@) == spec_derive_text(b.name@, b.cases@),
        spec_handler_text(ha) == spec_handler_text(hb),
{
}

} // verus!
