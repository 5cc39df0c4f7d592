//! Rendering: how a template text is rendered, and how every text inside a
//! value, or inside each entry of a section, is replaced by what renders
//! from it.
use vstd::prelude::*;

use crate::text::{concat3, contains, contains_text, ends_with, owned, starts_with, trim, trim_text};
use crate::helper::outcome;
use crate::value::{map_insert, map_remove, view_entries, view_values, JVal, JsonMap, Value};

verus! {

/// What a rendered text is read as.
#[derive(Debug, PartialEq, Eq)]
pub enum RenderKind {
    /// A number.
    Num,
    /// A boolean.
    Bool,
    /// An object.
    Obj,
    /// An array.
    Arr,
    /// Any JSON value.
    Json,
    /// The text itself.
    Text,
}

/// The template to render and what its output is read as.
#[derive(Debug)]
pub struct RenderPlan {
    pub kind: RenderKind,
    pub template: String,
}

/// The plan for a text: a text that is a single `{{ ... }}` expression
/// whose trimmed inside holds no other braces pair, and that starts with
/// `num `, `bool `, `obj `, `arr ` or `json `, is read as that kind; for
/// the last three the inside is first turned into a text with the `str`
/// helper. Any other text renders to a text.
pub open spec fn plan_of(t: Seq<char>) -> (RenderKind, Seq<char>) {
    if "{{"@.is_prefix_of(t) && "}}"@.is_suffix_of(t) {
        let inner = trim_text(t.subrange(2, t.len() - 2));
        if !contains_text(inner, "{{"@) && !contains_text(inner, "}}"@) {
            if "num "@.is_prefix_of(inner) {
                (RenderKind::Num, t)
            } else if "bool "@.is_prefix_of(inner) {
                (RenderKind::Bool, t)
            } else if "obj "@.is_prefix_of(inner) {
                (RenderKind::Obj, "{{str ("@ + inner + ") }}"@)
            } else if "arr "@.is_prefix_of(inner) {
                (RenderKind::Arr, "{{str ("@ + inner + ") }}"@)
            } else if "json "@.is_prefix_of(inner) {
                (RenderKind::Json, "{{str ("@ + inner + ") }}"@)
            } else {
                (RenderKind::Text, t)
            }
        } else {
            (RenderKind::Text, t)
        }
    } else {
        (RenderKind::Text, t)
    }
}

/// The plan for rendering `text`.
pub fn render_plan(text: &str) -> (r: RenderPlan)
    ensures
        (r.kind, r.template@) == plan_of(text@),
{
    proof {
        reveal_strlit("{{");
        reveal_strlit("}}");
    }
    if starts_with(text, "{{") && ends_with(text, "}}") {
        let n = crate::text::chars_of(text).len();
        proof {
            let t = text@;
            assert("{{"@.len() == 2 && "{{"@[0] == '{' && "{{"@[1] == '{');
            assert("}}"@.len() == 2 && "}}"@[0] == '}' && "}}"@[1] == '}');
            assert(t.subrange(0, 2) == "{{"@);
            assert(t.subrange(0, 2)[0] == t[0] && t.subrange(0, 2)[1] == t[1]);
            assert(t.subrange(t.len() - 2, t.len() as int) == "}}"@);
            assert(t.subrange(t.len() - 2, t.len() as int)[0] == t[t.len() - 2]);
            assert(t.subrange(t.len() - 2, t.len() as int)[1] == t[t.len() - 1]);
            assert(t[0] == '{' && t[1] == '{');
            assert(t[t.len() - 1] == '}' && t[t.len() - 2] == '}');
            assert(n >= 4);
        }
        let inner = trim(vstd::string::StrSliceExecFns::substring_char(text, 2, n - 2));
        let inner = inner.as_str();
        if !contains(inner, "{{") && !contains(inner, "}}") {
            if starts_with(inner, "num ") {
                return RenderPlan { kind: RenderKind::Num, template: owned(text) };
            } else if starts_with(inner, "bool ") {
                return RenderPlan { kind: RenderKind::Bool, template: owned(text) };
            } else if starts_with(inner, "obj ") {
                return RenderPlan { kind: RenderKind::Obj, template: concat3("{{str (", inner, ") }}") };
            } else if starts_with(inner, "arr ") {
                return RenderPlan { kind: RenderKind::Arr, template: concat3("{{str (", inner, ") }}") };
            } else if starts_with(inner, "json ") {
                return RenderPlan { kind: RenderKind::Json, template: concat3("{{str (", inner, ") }}") };
            }
        }
    }
    RenderPlan { kind: RenderKind::Text, template: owned(text) }
}

/// The message of a rendered text that does not read as its kind.
pub open spec fn invalid_arg_message(k: RenderKind) -> Seq<char> {
    match k {
        RenderKind::Num => "invalid arg of num"@,
        RenderKind::Bool => "invalid arg of bool"@,
        RenderKind::Obj => "invalid arg of obj"@,
        RenderKind::Arr => "invalid arg of arr"@,
        RenderKind::Json => "invalid arg of json"@,
        RenderKind::Text => Seq::empty(),
    }
}

impl RenderKind {
    /// The message of a rendered text that does not read as this kind.
    pub fn invalid_arg(&self) -> (r: String)
        ensures
            r@ == invalid_arg_message(*self),
    {
        match self {
            RenderKind::Num => owned("invalid arg of num"),
            RenderKind::Bool => owned("invalid arg of bool"),
            RenderKind::Obj => owned("invalid arg of obj"),
            RenderKind::Arr => owned("invalid arg of arr"),
            RenderKind::Json => owned("invalid arg of json"),
            RenderKind::Text => String::new(),
        }
    }
}


/// The error of an outcome, if any.
pub open spec fn error_of(r: Result<Value, String>) -> Option<String> {
    match r {
        Ok(_) => None,
        Err(e) => Some(e),
    }
}

/// What the text `out` that a template rendered to gives as a value of
/// kind `k`, with `parse` reading JSON text: the result `r` is one that
/// they allow. A text kind gives the text itself; any other kind reads the
/// text as JSON, which must be of that kind.
pub open spec fn read_outcome<P: Fn(&String) -> Option<Value>>(
    k: RenderKind,
    out: String,
    parse: P,
    r: Result<Value, String>,
) -> bool {
    if k == RenderKind::Text {
        outcome(r) == Ok::<JVal, Seq<char>>(JVal::Str(out@))
    } else {
        exists|o: Option<Value>|
            #[trigger] parse.ensures((&out,), o) && match o {
                Some(v) => if k == RenderKind::Json || (k == RenderKind::Num && v is Number) || (k
                    == RenderKind::Bool && v is Bool) || (k == RenderKind::Obj && v is Object) || (k
                    == RenderKind::Arr && v is Array) {
                    outcome(r) == Ok::<JVal, Seq<char>>(v@)
                } else {
                    outcome(r) == Err::<JVal, Seq<char>>(invalid_arg_message(k))
                },
                None => outcome(r) == Err::<JVal, Seq<char>>(invalid_arg_message(k)),
            }
    }
}

/// Reads the text `out` that a template rendered to as a value of kind
/// `kind`; see `read_outcome`.
pub fn read_rendered<P: Fn(&String) -> Option<Value>>(kind: &RenderKind, out: String, parse: &P) -> (r: Result<
    Value,
    String,
>)
    requires
        forall|t: &String| parse.requires((t,)),
    ensures
        read_outcome(*kind, out, *parse, r),
{
    if let RenderKind::Text = kind {
        return Ok(Value::String(out));
    }
    let o = parse(&out);
    let ghost og = o;
    let res: Result<Value, String> = match o {
        Some(v) => {
            let fits = match (kind, &v) {
                (RenderKind::Json, _) => true,
                (RenderKind::Num, Value::Number(_)) => true,
                (RenderKind::Bool, Value::Bool(_)) => true,
                (RenderKind::Obj, Value::Object(_)) => true,
                (RenderKind::Arr, Value::Array(_)) => true,
                _ => false,
            };
            if fits {
                Ok(v)
            } else {
                Err(kind.invalid_arg())
            }
        },
        None => Err(kind.invalid_arg()),
    };
    assert(parse.ensures((&out,), og));
    res
}

/// What rendering `text` in context `ctx` gives, with `render` rendering a
/// template in a context and `parse` reading JSON text: the template of the
/// text's plan is rendered, and what it rendered to is read as the plan's
/// kind; a failed rendering gives its error.
pub open spec fn text_outcome<H: Fn(&JsonMap, &String) -> Result<String, String>, P: Fn(&String) -> Option<Value>>(
    render: H,
    parse: P,
    ctx: JsonMap,
    text: Seq<char>,
    r: Result<Value, String>,
) -> bool {
    exists|t: String, o: Result<String, String>|
        t@ == plan_of(text).1 && #[trigger] render.ensures((&ctx, &t), o) && match o {
            Ok(out) => read_outcome(plan_of(text).0, out, parse, r),
            Err(e) => outcome(r) == Err::<JVal, Seq<char>>(e@),
        }
}

/// Renders `text` in context `ctx`; see `text_outcome`.
pub fn render_text<H: Fn(&JsonMap, &String) -> Result<String, String>, P: Fn(&String) -> Option<Value>>(
    render: &H,
    parse: &P,
    ctx: &JsonMap,
    text: &String,
) -> (r: Result<Value, String>)
    requires
        forall|c: &JsonMap, t: &String| render.requires((c, t)),
        forall|t: &String| parse.requires((t,)),
    ensures
        text_outcome(*render, *parse, *ctx, text@, r),
{
    let plan = render_plan(text.as_str());
    let o = render(ctx, &plan.template);
    let ghost og = o;
    let ghost tg = plan.template;
    let res: Result<Value, String> = match o {
        Ok(out) => read_rendered(&plan.kind, out, parse),
        Err(e) => Err(e),
    };
    assert(render.ensures((ctx, &tg), og));
    res
}

/// Whether rendering every text of `old`, depth first and in order, with
/// `f` in context `ctx`, can give `new` with outcome `out`. A text is
/// replaced by what `f` renders from it; the first text `f` fails on is
/// kept as it was, as is everything after it, and its error is the outcome.
pub open spec fn rendered<F: Fn(&JsonMap, &String) -> Result<Value, String>>(
    f: F,
    ctx: JsonMap,
    old: Value,
    new: Value,
    err: Option<String>,
) -> bool
    decreases old,
{
    match old {
        Value::String(s) => match err {
            None => f.ensures((&ctx, &s), Ok::<Value, String>(new)),
            Some(e) => f.ensures((&ctx, &s), Err::<Value, String>(e)) && new@ == old@,
        },
        Value::Array(a) => new is Array && rendered_values(f, ctx, a@, new->Array_0@, err),
        Value::Object(m) => new is Object && rendered_entries(
            f,
            ctx,
            m.entries@,
            new->Object_0.entries@,
            err,
        ),
        _ => new@ == old@ && err is None,
    }
}

/// The same for a list of values, rendered in order.
pub open spec fn rendered_values<F: Fn(&JsonMap, &String) -> Result<Value, String>>(
    f: F,
    ctx: JsonMap,
    olds: Seq<Value>,
    news: Seq<Value>,
    err: Option<String>,
) -> bool
    decreases olds,
{
    if olds.len() == 0 {
        news.len() == 0 && err is None
    } else {
        news.len() > 0 && ((rendered(f, ctx, olds[0], news[0], None) && rendered_values(
            f,
            ctx,
            olds.skip(1),
            news.skip(1),
            err,
        )) || (err is Some && rendered(f, ctx, olds[0], news[0], err) && view_values(news.skip(1))
            == view_values(olds.skip(1))))
    }
}

/// The same for the entries of an object, rendered in order; keys are kept.
pub open spec fn rendered_entries<F: Fn(&JsonMap, &String) -> Result<Value, String>>(
    f: F,
    ctx: JsonMap,
    olds: Seq<(String, Value)>,
    news: Seq<(String, Value)>,
    err: Option<String>,
) -> bool
    decreases olds,
{
    if olds.len() == 0 {
        news.len() == 0 && err is None
    } else {
        news.len() > 0 && news[0].0@ == olds[0].0@ && ((rendered(
            f,
            ctx,
            olds[0].1,
            news[0].1,
            None,
        ) && rendered_entries(f, ctx, olds.skip(1), news.skip(1), err)) || (err is Some
            && rendered(f, ctx, olds[0].1, news[0].1, err) && view_entries(news.skip(1))
            == view_entries(olds.skip(1))))
    }
}

proof fn lemma_values_prefix<F: Fn(&JsonMap, &String) -> Result<Value, String>>(
    f: F,
    ctx: JsonMap,
    olds: Seq<Value>,
    news: Seq<Value>,
    i: int,
    err: Option<String>,
)
    requires
        0 <= i <= olds.len(),
        news.len() >= i,
        forall|j: int| 0 <= j < i ==> rendered(f, ctx, #[trigger] olds[j], news[j], None),
        rendered_values(f, ctx, olds.skip(i), news.skip(i), err),
    ensures
        rendered_values(f, ctx, olds, news, err),
    decreases i,
{
    if i > 0 {
        assert(olds.skip(1).skip(i - 1) == olds.skip(i));
        assert(news.skip(1).skip(i - 1) == news.skip(i));
        assert forall|j: int| 0 <= j < i - 1 implies rendered(f, ctx, #[trigger] olds.skip(1)[j], news.skip(1)[j], None) by {
            assert(olds.skip(1)[j] == olds[j + 1]);
            assert(news.skip(1)[j] == news[j + 1]);
        }
        lemma_values_prefix(f, ctx, olds.skip(1), news.skip(1), i - 1, err);
        assert(rendered(f, ctx, olds[0], news[0], None));
    } else {
        assert(olds.skip(0) == olds);
        assert(news.skip(0) == news);
    }
}

proof fn lemma_entries_prefix<F: Fn(&JsonMap, &String) -> Result<Value, String>>(
    f: F,
    ctx: JsonMap,
    olds: Seq<(String, Value)>,
    news: Seq<(String, Value)>,
    i: int,
    err: Option<String>,
)
    requires
        0 <= i <= olds.len(),
        news.len() >= i,
        forall|j: int|
            0 <= j < i ==> #[trigger] news[j].0@ == olds[j].0@ && rendered(f, ctx, olds[j].1, news[j].1, None),
        rendered_entries(f, ctx, olds.skip(i), news.skip(i), err),
    ensures
        rendered_entries(f, ctx, olds, news, err),
    decreases i,
{
    if i > 0 {
        assert(olds.skip(1).skip(i - 1) == olds.skip(i));
        assert(news.skip(1).skip(i - 1) == news.skip(i));
        assert forall|j: int| 0 <= j < i - 1 implies #[trigger] news.skip(1)[j].0@ == olds.skip(1)[j].0@
            && rendered(f, ctx, olds.skip(1)[j].1, news.skip(1)[j].1, None) by {
            assert(olds.skip(1)[j] == olds[j + 1]);
            assert(news.skip(1)[j] == news[j + 1]);
        }
        lemma_entries_prefix(f, ctx, olds.skip(1), news.skip(1), i - 1, err);
        assert(news[0].0@ == olds[0].0@);
    } else {
        assert(olds.skip(0) == olds);
        assert(news.skip(0) == news);
    }
}

/// Rendering the entries of an object keeps their keys, in order.
pub proof fn law_render_keeps_keys<F: Fn(&JsonMap, &String) -> Result<Value, String>>(
    f: F,
    ctx: JsonMap,
    olds: Seq<(String, Value)>,
    news: Seq<(String, Value)>,
    err: Option<String>,
)
    requires
        rendered_entries(f, ctx, olds, news, err),
    ensures
        news.len() == olds.len(),
        forall|i: int| 0 <= i < olds.len() ==> #[trigger] news[i].0@ == olds[i].0@,
    decreases olds.len(),
{
    if olds.len() > 0 {
        if rendered(f, ctx, olds[0].1, news[0].1, None) && rendered_entries(f, ctx, olds.skip(1), news.skip(1), err) {
            law_render_keeps_keys(f, ctx, olds.skip(1), news.skip(1), err);
            assert forall|i: int| 0 <= i < olds.len() implies #[trigger] news[i].0@ == olds[i].0@ by {
                if i > 0 {
                    assert(news.skip(1)[i - 1] == news[i]);
                    assert(olds.skip(1)[i - 1] == olds[i]);
                }
            }
        } else {
            crate::value::lemma_view_entries(news.skip(1));
            crate::value::lemma_view_entries(olds.skip(1));
            assert forall|i: int| 0 <= i < olds.len() implies #[trigger] news[i].0@ == olds[i].0@ by {
                if i > 0 {
                    assert(news.skip(1)[i - 1] == news[i]);
                    assert(olds.skip(1)[i - 1] == olds[i]);
                    assert(view_entries(news.skip(1))[i - 1] == view_entries(olds.skip(1))[i - 1]);
                }
            }
        }
    }
}

/// Rendering the elements of an array keeps their number.
pub proof fn law_render_keeps_length<F: Fn(&JsonMap, &String) -> Result<Value, String>>(
    f: F,
    ctx: JsonMap,
    olds: Seq<Value>,
    news: Seq<Value>,
    err: Option<String>,
)
    requires
        rendered_values(f, ctx, olds, news, err),
    ensures
        news.len() == olds.len(),
    decreases olds.len(),
{
    if olds.len() > 0 {
        if rendered(f, ctx, olds[0], news[0], None) && rendered_values(f, ctx, olds.skip(1), news.skip(1), err) {
            law_render_keeps_length(f, ctx, olds.skip(1), news.skip(1), err);
        } else {
            crate::value::lemma_view_values(news.skip(1));
            crate::value::lemma_view_values(olds.skip(1));
        }
    }
}

/// Whether a value holds no text anywhere.
pub open spec fn textless(v: Value) -> bool
    decreases v,
{
    match v {
        Value::String(_) => false,
        Value::Array(a) => textless_values(a@),
        Value::Object(m) => textless_entries(m.entries@),
        _ => true,
    }
}

/// Whether no value of a sequence holds a text.
pub open spec fn textless_values(s: Seq<Value>) -> bool
    decreases s,
{
    if s.len() == 0 {
        true
    } else {
        textless(s[0]) && textless_values(s.skip(1))
    }
}

/// Whether no value of a sequence of entries holds a text.
pub open spec fn textless_entries(s: Seq<(String, Value)>) -> bool
    decreases s,
{
    if s.len() == 0 {
        true
    } else {
        textless(s[0].1) && textless_entries(s.skip(1))
    }
}

/// Rendering a value that holds no text gives it back unchanged, and
/// never fails.
pub proof fn law_textless_unchanged<F: Fn(&JsonMap, &String) -> Result<Value, String>>(
    f: F,
    ctx: JsonMap,
    old: Value,
    new: Value,
    err: Option<String>,
)
    requires
        textless(old),
        rendered(f, ctx, old, new, err),
    ensures
        new@ == old@,
        err is None,
    decreases old,
{
    match old {
        Value::Array(a) => {
            let news = new->Array_0@;
            lemma_textless_values(f, ctx, a@, news, err);
            crate::value::lemma_view_values(a@);
            crate::value::lemma_view_values(news);
            assert forall|i: int| 0 <= i < a@.len() implies view_values(news)[i] == view_values(a@)[i] by {
                assert(news[i]@ == a@[i]@);
            }
            assert(view_values(news) =~= view_values(a@));
        },
        Value::Object(m) => {
            let news = new->Object_0.entries@;
            lemma_textless_entries(f, ctx, m.entries@, news, err);
            crate::value::lemma_view_entries(m.entries@);
            crate::value::lemma_view_entries(news);
            assert forall|i: int| 0 <= i < m.entries@.len() implies view_entries(news)[i] == view_entries(
                m.entries@,
            )[i] by {
                assert(news[i].0@ == m.entries@[i].0@ && news[i].1@ == m.entries@[i].1@);
            }
            assert(view_entries(news) =~= view_entries(m.entries@));
        },
        _ => {},
    }
}

proof fn lemma_textless_values<F: Fn(&JsonMap, &String) -> Result<Value, String>>(
    f: F,
    ctx: JsonMap,
    olds: Seq<Value>,
    news: Seq<Value>,
    err: Option<String>,
)
    requires
        textless_values(olds),
        rendered_values(f, ctx, olds, news, err),
    ensures
        news.len() == olds.len(),
        err is None,
        forall|i: int| 0 <= i < olds.len() ==> #[trigger] news[i]@ == olds[i]@,
    decreases olds,
{
    if olds.len() > 0 {
        if rendered(f, ctx, olds[0], news[0], None) && rendered_values(f, ctx, olds.skip(1), news.skip(1), err) {
            law_textless_unchanged(f, ctx, olds[0], news[0], None);
            lemma_textless_values(f, ctx, olds.skip(1), news.skip(1), err);
            assert forall|i: int| 0 <= i < olds.len() implies #[trigger] news[i]@ == olds[i]@ by {
                if i > 0 {
                    assert(news.skip(1)[i - 1] == news[i]);
                    assert(olds.skip(1)[i - 1] == olds[i]);
                }
            }
        } else {
            law_textless_unchanged(f, ctx, olds[0], news[0], err);
        }
    }
}

proof fn lemma_textless_entries<F: Fn(&JsonMap, &String) -> Result<Value, String>>(
    f: F,
    ctx: JsonMap,
    olds: Seq<(String, Value)>,
    news: Seq<(String, Value)>,
    err: Option<String>,
)
    requires
        textless_entries(olds),
        rendered_entries(f, ctx, olds, news, err),
    ensures
        news.len() == olds.len(),
        err is None,
        forall|i: int| 0 <= i < olds.len() ==> #[trigger] news[i].0@ == olds[i].0@ && news[i].1@ == olds[i].1@,
    decreases olds,
{
    if olds.len() > 0 {
        if rendered(f, ctx, olds[0].1, news[0].1, None) && rendered_entries(f, ctx, olds.skip(1), news.skip(1), err) {
            law_textless_unchanged(f, ctx, olds[0].1, news[0].1, None);
            lemma_textless_entries(f, ctx, olds.skip(1), news.skip(1), err);
            assert forall|i: int| 0 <= i < olds.len() implies #[trigger] news[i].0@ == olds[i].0@ && news[i].1@
                == olds[i].1@ by {
                if i > 0 {
                    assert(news.skip(1)[i - 1] == news[i]);
                    assert(olds.skip(1)[i - 1] == olds[i]);
                }
            }
        } else {
            law_textless_unchanged(f, ctx, olds[0].1, news[0].1, err);
        }
    }
}

/// Renders every text of `value` with `f` in context `ctx`, depth first
/// and in order, stopping at the first failure: see `rendered`.
pub fn render_value<F: Fn(&JsonMap, &String) -> Result<Value, String>>(
    f: &F,
    ctx: &JsonMap,
    value: &Value,
) -> (r: (Value, Option<String>))
    requires
        forall|c: &JsonMap, s: &String| f.requires((c, s)),
    ensures
        rendered(*f, *ctx, *value, r.0, r.1),
    decreases value,
{
    match value {
        Value::String(s) => {
            match f(ctx, s) {
                Ok(v) => (v, None),
                Err(e) => (Value::String(s.clone()), Some(e)),
            }
        },
        Value::Array(a) => {
            let ghost olds = a@;
            let mut out: Vec<Value> = Vec::new();
            let n = a.len();
            let mut i: usize = 0;
            while i < n
                invariant
                    forall|c: &JsonMap, s: &String| f.requires((c, s)),
                    *value == Value::Array(*a),
                    olds == a@,
                    n == olds.len(),
                    i <= n,
                    out@.len() == i,
                    forall|j: int| 0 <= j < i ==> rendered(*f, *ctx, #[trigger] olds[j], out@[j], None),
                decreases n - i,
            {
                proof {
                    vstd::std_specs::vec::axiom_vec_index_decreases(*a, i as int);
                    assert(decreases_to!(*value => value->Array_0));
                }
                let (y, o) = render_value(f, ctx, &a[i]);
                let ghost pre_push = out@;
                out.push(y);
                match o {
                    Some(e) => {
                        let ghost before = out@;
                        let mut j = i + 1;
                        while j < n
                            invariant
                                *value == Value::Array(*a),
                                olds == a@,
                                n == olds.len(),
                                i < j <= n,
                                out@.len() == j,
                                out@.take(i + 1) == before,
                                view_values(out@.skip(i + 1)) == view_values(olds.subrange(i + 1, j as int)),
                            decreases n - j,
                        {
                            let c = a[j].deep_clone();
                            let ghost prev = out@;
                            out.push(c);
                            proof {
                                assert(out@.take(i + 1) == prev.take(i + 1));
                                assert(out@.skip(i + 1) == prev.skip(i + 1).push(c));
                                assert(out@.skip(i + 1).drop_last() == prev.skip(i + 1));
                                assert(olds.subrange(i + 1, j + 1) == olds.subrange(i + 1, j as int).push(olds[j as int]));
                                assert(olds.subrange(i + 1, j + 1).drop_last() == olds.subrange(i + 1, j as int));
                            }
                            j = j + 1;
                        }
                        proof {
                            assert(olds.subrange(i + 1, n as int) == olds.skip(i + 1));
                            assert(out@.skip(i as int).skip(1) == out@.skip(i + 1));
                            assert(olds.skip(i as int).skip(1) == olds.skip(i + 1));
                            assert(olds.skip(i as int)[0] == olds[i as int]);
                            assert(out@.skip(i as int)[0] == out@[i as int]);
                            assert(out@[i as int] == before[i as int]);
                            assert(rendered_values(*f, *ctx, olds.skip(i as int), out@.skip(i as int), Some(e)));
                            assert forall|k: int| 0 <= k < i implies rendered(*f, *ctx, #[trigger] olds[k], out@[k], None) by {
                                assert(out@[k] == out@.take(i + 1)[k]);
                                assert(before[k] == out@[k]);
                            }
                            lemma_values_prefix(*f, *ctx, olds, out@, i as int, Some(e));
                        }
                        return (Value::Array(out), Some(e));
                    },
                    None => {
                        proof {
                            assert(rendered(*f, *ctx, a@[i as int], y, o));
                            assert(rendered(*f, *ctx, a@[i as int], y, None));
                            assert forall|j: int| 0 <= j < i + 1 implies rendered(*f, *ctx, #[trigger] olds[j], out@[j], None) by {
                                if j < i {
                                    assert(out@[j] == pre_push[j]);
                                } else {
                                    assert(out@[j] == y);
                                }
                            }
                        }
                    },
                }
                i = i + 1;
            }
            proof {
                assert(olds.skip(n as int).len() == 0);
                assert(out@.skip(n as int).len() == 0);
                lemma_values_prefix(*f, *ctx, olds, out@, n as int, None);
            }
            (Value::Array(out), None)
        },
        Value::Object(m) => {
            let ghost olds = m.entries@;
            let mut out: Vec<(String, Value)> = Vec::new();
            let n = m.entries.len();
            let mut i: usize = 0;
            while i < n
                invariant
                    forall|c: &JsonMap, s: &String| f.requires((c, s)),
                    *value == Value::Object(*m),
                    olds == m.entries@,
                    n == olds.len(),
                    i <= n,
                    out@.len() == i,
                    forall|j: int|
                        0 <= j < i ==> #[trigger] out@[j].0@ == olds[j].0@ && rendered(*f, *ctx, olds[j].1, out@[j].1, None),
                decreases n - i,
            {
                proof {
                    vstd::std_specs::vec::axiom_vec_index_decreases(m.entries, i as int);
                    assert(decreases_to!(*value => value->Object_0));
                    assert(decreases_to!(value->Object_0 => value->Object_0.entries));
                    assert(decreases_to!(*value => olds[i as int]));
                    assert(decreases_to!(*value => olds[i as int].1));
                }
                let (y, o) = render_value(f, ctx, &m.entries[i].1);
                let ghost pre_push = out@;
                let key = m.entries[i].0.clone();
                assert(key@ == olds[i as int].0@);
                out.push((key, y));
                match o {
                    Some(e) => {
                        let ghost before = out@;
                        let mut j = i + 1;
                        while j < n
                            invariant
                                *value == Value::Object(*m),
                                olds == m.entries@,
                                n == olds.len(),
                                i < j <= n,
                                out@.len() == j,
                                out@.take(i + 1) == before,
                                view_entries(out@.skip(i + 1)) == view_entries(olds.subrange(i + 1, j as int)),
                            decreases n - j,
                        {
                            let c = (m.entries[j].0.clone(), m.entries[j].1.deep_clone());
                            let ghost prev = out@;
                            out.push(c);
                            proof {
                                assert(out@.take(i + 1) == prev.take(i + 1));
                                assert(out@.skip(i + 1) == prev.skip(i + 1).push(c));
                                assert(out@.skip(i + 1).drop_last() == prev.skip(i + 1));
                                assert(olds.subrange(i + 1, j + 1) == olds.subrange(i + 1, j as int).push(olds[j as int]));
                                assert(olds.subrange(i + 1, j + 1).drop_last() == olds.subrange(i + 1, j as int));
                            }
                            j = j + 1;
                        }
                        proof {
                            assert(olds.subrange(i + 1, n as int) == olds.skip(i + 1));
                            assert(out@.skip(i as int).skip(1) == out@.skip(i + 1));
                            assert(olds.skip(i as int).skip(1) == olds.skip(i + 1));
                            assert(olds.skip(i as int)[0] == olds[i as int]);
                            assert(out@.skip(i as int)[0] == out@[i as int]);
                            assert(out@[i as int] == before[i as int]);
                            assert(rendered_entries(*f, *ctx, olds.skip(i as int), out@.skip(i as int), Some(e)));
                            assert forall|k: int| 0 <= k < i implies #[trigger] out@[k].0@ == olds[k].0@
                                && rendered(*f, *ctx, olds[k].1, out@[k].1, None) by {
                                assert(out@[k] == out@.take(i + 1)[k]);
                                assert(before[k] == out@[k]);
                            }
                            lemma_entries_prefix(*f, *ctx, olds, out@, i as int, Some(e));
                        }
                        return (Value::Object(JsonMap { entries: out }), Some(e));
                    },
                    None => {
                        proof {
                            assert forall|j: int| 0 <= j < i + 1 implies #[trigger] out@[j].0@ == olds[j].0@
                                && rendered(*f, *ctx, olds[j].1, out@[j].1, None) by {
                                if j < i {
                                    assert(out@[j] == pre_push[j]);
                                    assert(pre_push[j].0@ == olds[j].0@ && rendered(*f, *ctx, olds[j].1, pre_push[j].1, None));
                                } else {
                                    assert(out@[j].1 == y);
                                    assert(rendered(*f, *ctx, olds[j].1, y, None));
                                }
                            }
                        }
                    },
                }
                i = i + 1;
            }
            proof {
                assert(olds.skip(n as int).len() == 0);
                assert(out@.skip(n as int).len() == 0);
                lemma_entries_prefix(*f, *ctx, olds, out@, n as int, None);
            }
            (Value::Object(JsonMap { entries: out }), None)
        },
        Value::Null => (Value::Null, None),
        Value::Bool(b) => (Value::Bool(*b), None),
        Value::Number(x) => (Value::Number(x.copy()), None),
    }
}


/// Whether rendering the entries `olds` of a section one after the other,
/// each in the context left by the ones before, can give the entries
/// `news` and the error `err`. The context starts as `cview`; an entry that
/// renders is stored in it under its key; one that fails is removed from
/// it where `discard` holds, and otherwise ends the rendering with its error.
pub open spec fn assigned<F: Fn(&JsonMap, &String) -> Result<Value, String>>(
    f: F,
    cview: Seq<(Seq<char>, JVal)>,
    olds: Seq<(String, Value)>,
    news: Seq<(String, Value)>,
    discard: bool,
    err: Option<String>,
) -> bool
    decreases olds.len(),
{
    if olds.len() == 0 {
        news.len() == 0 && err is None
    } else {
        let k = olds[0].0@;
        news.len() > 0 && news[0].0@ == k && exists|c: JsonMap|
            #[trigger] c@ == cview && ((rendered(f, c, olds[0].1, news[0].1, None) && assigned(
                f,
                map_insert(cview, k, news[0].1@),
                olds.skip(1),
                news.skip(1),
                discard,
                err,
            )) || (discard && (exists|e: String|
                #[trigger] rendered(f, c, olds[0].1, news[0].1, Some(e))) && assigned(
                f,
                map_remove(cview, k),
                olds.skip(1),
                news.skip(1),
                discard,
                err,
            )) || (!discard && err is Some && rendered(f, c, olds[0].1, news[0].1, err)))
    }
}

/// Rendering a section where failed entries are discarded never fails.
pub proof fn law_discard_never_fails<F: Fn(&JsonMap, &String) -> Result<Value, String>>(
    f: F,
    cview: Seq<(Seq<char>, JVal)>,
    olds: Seq<(String, Value)>,
    news: Seq<(String, Value)>,
    e: String,
)
    ensures
        !assigned(f, cview, olds, news, true, Some(e)),
    decreases olds.len(),
{
    if olds.len() > 0 && news.len() > 0 {
        let k = olds[0].0@;
        law_discard_never_fails(f, map_insert(cview, k, news[0].1@), olds.skip(1), news.skip(1), e);
        law_discard_never_fails(f, map_remove(cview, k), olds.skip(1), news.skip(1), e);
    }
}

/// Where assigning a section gives no error, every entry keeps its key,
/// in order.
pub proof fn law_assign_keeps_keys<F: Fn(&JsonMap, &String) -> Result<Value, String>>(
    f: F,
    cview: Seq<(Seq<char>, JVal)>,
    olds: Seq<(String, Value)>,
    news: Seq<(String, Value)>,
    discard: bool,
)
    requires
        assigned(f, cview, olds, news, discard, None),
    ensures
        news.len() == olds.len(),
        forall|i: int| 0 <= i < olds.len() ==> #[trigger] news[i].0@ == olds[i].0@,
    decreases olds.len(),
{
    if olds.len() > 0 {
        let k = olds[0].0@;
        let c = choose|c: JsonMap|
            #[trigger] c@ == cview && ((rendered(f, c, olds[0].1, news[0].1, None) && assigned(
                f,
                map_insert(cview, k, news[0].1@),
                olds.skip(1),
                news.skip(1),
                discard,
                None,
            )) || (discard && (exists|e: String|
                #[trigger] rendered(f, c, olds[0].1, news[0].1, Some(e))) && assigned(
                f,
                map_remove(cview, k),
                olds.skip(1),
                news.skip(1),
                discard,
                None,
            )) || (!discard && None::<String> is Some && rendered(f, c, olds[0].1, news[0].1, None)));
        if rendered(f, c, olds[0].1, news[0].1, None) && assigned(
            f,
            map_insert(cview, k, news[0].1@),
            olds.skip(1),
            news.skip(1),
            discard,
            None,
        ) {
            law_assign_keeps_keys(f, map_insert(cview, k, news[0].1@), olds.skip(1), news.skip(1), discard);
        } else {
            law_assign_keeps_keys(f, map_remove(cview, k), olds.skip(1), news.skip(1), discard);
        }
        assert forall|i: int| 0 <= i < olds.len() implies #[trigger] news[i].0@ == olds[i].0@ by {
            if i > 0 {
                assert(news.skip(1)[i - 1] == news[i]);
                assert(olds.skip(1)[i - 1] == olds[i]);
            }
        }
    }
}

/// One step of `assigned`, as recorded while rendering.
pub open spec fn assign_step<F: Fn(&JsonMap, &String) -> Result<Value, String>>(
    f: F,
    cv: Seq<(Seq<char>, JVal)>,
    cv_next: Seq<(Seq<char>, JVal)>,
    c: JsonMap,
    old: (String, Value),
    new: (String, Value),
    e: Option<String>,
    discard: bool,
) -> bool {
    &&& c@ == cv
    &&& new.0@ == old.0@
    &&& rendered(f, c, old.1, new.1, e)
    &&& e is None ==> cv_next == map_insert(cv, old.0@, new.1@)
    &&& e is Some ==> discard && cv_next == map_remove(cv, old.0@)
}

proof fn lemma_assigned_prefix<F: Fn(&JsonMap, &String) -> Result<Value, String>>(
    f: F,
    cvs: Seq<Seq<(Seq<char>, JVal)>>,
    cs: Seq<JsonMap>,
    errs: Seq<Option<String>>,
    olds: Seq<(String, Value)>,
    news: Seq<(String, Value)>,
    discard: bool,
    err: Option<String>,
    i: int,
)
    requires
        0 <= i <= olds.len(),
        news.len() >= i,
        cvs.len() > i,
        cs.len() >= i,
        errs.len() >= i,
        forall|j: int|
            0 <= j < i ==> #[trigger] assign_step(f, cvs[j], cvs[j + 1], cs[j], olds[j], news[j], errs[j], discard),
        assigned(f, cvs[i], olds.skip(i), news.skip(i), discard, err),
    ensures
        assigned(f, cvs[0], olds, news, discard, err),
    decreases i,
{
    if i > 0 {
        assert(olds.skip(1).skip(i - 1) == olds.skip(i));
        assert(news.skip(1).skip(i - 1) == news.skip(i));
        assert forall|j: int| 0 <= j < i - 1 implies #[trigger] assign_step(
            f,
            cvs.skip(1)[j],
            cvs.skip(1)[j + 1],
            cs.skip(1)[j],
            olds.skip(1)[j],
            news.skip(1)[j],
            errs.skip(1)[j],
            discard,
        ) by {
            let jj = j + 1;
            assert(assign_step(f, cvs[jj], cvs[jj + 1], cs[jj], olds[jj], news[jj], errs[jj], discard));
            assert(cvs.skip(1)[j + 1] == cvs[jj + 1]);
        }
        assert(cvs.skip(1)[i - 1] == cvs[i]);
        lemma_assigned_prefix(
            f,
            cvs.skip(1),
            cs.skip(1),
            errs.skip(1),
            olds.skip(1),
            news.skip(1),
            discard,
            err,
            i - 1,
        );
        assert(assign_step(f, cvs[0], cvs[1], cs[0], olds[0], news[0], errs[0], discard));
        let c = cs[0];
        assert(c@ == cvs[0]);
        if errs[0] is Some {
            assert(rendered(f, c, olds[0].1, news[0].1, Some(errs[0]->Some_0)));
        }
    } else {
        assert(olds.skip(0) == olds);
        assert(news.skip(0) == news);
    }
}

/// Renders the entries of `assign_raw` one after the other, each in the
/// context `ctx` extended by the entries rendered before it: see
/// `assigned`. Gives the rendered entries, or the first error where
/// `discard_on_err` does not hold.
pub fn assign_by_render<F: Fn(&JsonMap, &String) -> Result<Value, String>>(
    f: &F,
    ctx: &JsonMap,
    assign_raw: &JsonMap,
    discard_on_err: bool,
) -> (r: Result<JsonMap, String>)
    requires
        forall|c: &JsonMap, s: &String| f.requires((c, s)),
    ensures
        r is Ok ==> assigned(*f, ctx@, assign_raw.entries@, r->Ok_0.entries@, discard_on_err, None),
        r is Err ==> exists|news: Seq<(String, Value)>|
            #[trigger] assigned(*f, ctx@, assign_raw.entries@, news, discard_on_err, Some(r->Err_0)),
        discard_on_err ==> r is Ok,
{
    let ghost olds = assign_raw.entries@;
    let mut cur = ctx.deep_clone();
    let mut out: Vec<(String, Value)> = Vec::new();
    let ghost mut cvs: Seq<Seq<(Seq<char>, JVal)>> = seq![ctx@];
    let ghost mut cs: Seq<JsonMap> = Seq::empty();
    let ghost mut errs: Seq<Option<String>> = Seq::empty();
    let n = assign_raw.entries.len();
    let mut i: usize = 0;
    while i < n
        invariant
            forall|c: &JsonMap, s: &String| f.requires((c, s)),
            i <= n,
            n == olds.len(),
            olds == assign_raw.entries@,
            cvs.len() == i + 1,
            cs.len() == i,
            errs.len() == i,
            out@.len() == i,
            cvs[0] == ctx@,
            cvs[i as int] == cur@,
            forall|j: int|
                0 <= j < i ==> #[trigger] assign_step(*f, cvs[j], cvs[j + 1], cs[j], olds[j], out@[j], errs[j], discard_on_err),
        decreases n - i,
    {
        let k = &assign_raw.entries[i].0;
        let (v, e) = render_value(f, &cur, &assign_raw.entries[i].1);
        let ghost c_i = cur;
        let ghost out_before = out@;
        let ghost cvs_before = cvs;
        match e {
            None => {
                cur.insert(k.clone(), v.deep_clone());
                out.push((k.clone(), v));
                proof {
                    cvs = cvs.push(cur@);
                    cs = cs.push(c_i);
                    errs = errs.push(None);
                }
            },
            Some(err) => {
                if discard_on_err {
                    cur.remove(k.as_str());
                    out.push((k.clone(), v));
                    proof {
                        cvs = cvs.push(cur@);
                        cs = cs.push(c_i);
                        errs = errs.push(Some(err));
                    }
                } else {
                    out.push((k.clone(), v));
                    proof {
                        let sk = olds.skip(i as int);
                        let sn = out@.skip(i as int);
                        assert(sk[0] == olds[i as int]);
                        assert(sn[0] == out@[i as int]);
                        assert(assigned(*f, cvs[i as int], sk, sn, discard_on_err, Some(err)));
                        assert forall|j: int| 0 <= j < i implies #[trigger] assign_step(*f, cvs[j], cvs[j + 1], cs[j], olds[j], out@[j], errs[j], discard_on_err) by {
                            assert(out@[j] == out_before[j]);
                        }
                        lemma_assigned_prefix(*f, cvs, cs, errs, olds, out@, discard_on_err, Some(err), i as int);
                    }
                    let ghost e0 = err;
                    let res: Result<JsonMap, String> = Err(err);
                    assert(res->Err_0 == e0);
                    return res;
                }
            },
        }
        proof {
            assert(assign_step(*f, cvs[i as int], cvs[i + 1], cs[i as int], olds[i as int], out@[i as int], errs[i as int], discard_on_err));
            assert forall|j: int| 0 <= j < i + 1 implies #[trigger] assign_step(*f, cvs[j], cvs[j + 1], cs[j], olds[j], out@[j], errs[j], discard_on_err) by {
                if j < i {
                    assert(out@[j] == out_before[j]);
                    assert(cvs[j] == cvs_before[j] && cvs[j + 1] == cvs_before[j + 1]);
                }
            }
        }
        i = i + 1;
    }
    proof {
        assert(olds.skip(n as int).len() == 0);
        assert(out@.skip(n as int).len() == 0);
        lemma_assigned_prefix(*f, cvs, cs, errs, olds, out@, discard_on_err, None, n as int);
    }
    Ok(JsonMap { entries: out })
}

} // verus!
