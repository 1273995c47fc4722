use vstd::prelude::*;

verus! {

use crate::value::{JsonValue, JsonView, jv_view};
use crate::definition::Definition;

// Where the library leans on outside crates: reading the payload text,
// and executing a template under the engine.  The payload reader and the
// whole engine call each carry a named result, since both are functions of
// their arguments alone; the engine is assembled from one small trusted
// item per engine call, each registering a verified helper of the library.

#[verifier::external_type_specification]
#[verifier::external_body]
pub struct ExOutsideJson(serde_json::Value);

/// The shape of an outside JSON tree, as this library's own value model.
pub uninterp spec fn json_model_of(v: serde_json::Value) -> JsonView;

/// Relies on serde_json::Value: one arm per variant, moving each variant's
/// content into this library's value model.  A number is carried as the
/// decimal rendering serde_json gives it.
#[verifier::external_body]
fn value_from_outside(v: &serde_json::Value) -> (r: JsonValue)
    ensures
        jv_view(r) == json_model_of(*v),
{
    match v {
        serde_json::Value::Null => JsonValue::Null,
        serde_json::Value::Bool(b) => JsonValue::Bool(*b),
        serde_json::Value::Number(n) => JsonValue::Number(n.to_string()),
        serde_json::Value::String(s) => JsonValue::Str(s.clone()),
        serde_json::Value::Array(a) => JsonValue::Array(a.iter().map(value_from_outside).collect()),
        serde_json::Value::Object(m) => JsonValue::Object(
            m.iter().map(|(k, x)| (k.clone(), value_from_outside(x))).collect(),
        ),
    }
}

/// What parsing a payload text yields: its JSON tree in this library's
/// value model, or nothing when the text is not well-formed JSON.
pub uninterp spec fn parsed_payload_of(s: Seq<char>) -> Option<JsonView>;

/// Relies on serde_json::from_str: parses the payload text, whose result
/// depends on the text alone; the tree is then carried over value by value.
#[verifier::external_body]
pub fn parse_payload(s: &str) -> (r: Option<JsonValue>)
    ensures
        match r {
            Some(v) => parsed_payload_of(s@) == Some(jv_view(v)),
            None => parsed_payload_of(s@) is None,
        },
{
    match serde_json::from_str::<serde_json::Value>(s) {
        Ok(v) => Some(value_from_outside(&v)),
        Err(_) => None,
    }
}

#[verifier::external_type_specification]
#[verifier::external_body]
pub struct ExEngineValue(minijinja::Value);

#[verifier::external_type_specification]
#[verifier::external_body]
pub struct ExEngineEnvironment<'a>(minijinja::Environment<'a>);

#[verifier::external_type_specification]
#[verifier::external_body]
pub struct ExEngineError(minijinja::Error);

/// Carries an engine value over into the library's value model through its
/// JSON text form.  Relies on serde_json::to_string over minijinja::Value:
/// the text depends on the value alone (engine maps keep insertion order).
#[verifier::external_body]
fn value_from_engine(v: &minijinja::Value) -> (r: Option<JsonValue>) {
    let text = serde_json::to_string(v).ok()?;
    match serde_json::from_str::<serde_json::Value>(&text) {
        Ok(sv) => Some(value_from_outside(&sv)),
        Err(_) => None,
    }
}

/// Carries a library value back into the engine.  Relies on
/// serde_json::from_str and minijinja::Value::from_serialize, fed the
/// library's own JSON rendering of the value.
#[verifier::external_body]
fn value_to_engine(v: &JsonValue) -> (r: minijinja::Value) {
    let text = crate::value::to_json_compact(v);
    match serde_json::from_str::<serde_json::Value>(&text) {
        Ok(sv) => minijinja::Value::from_serialize(&sv),
        Err(_) => minijinja::Value::UNDEFINED,
    }
}

/// Relies on minijinja::Error::new: the error a helper reports for an
/// operand of the wrong kind.
#[verifier::external_body]
fn engine_error() -> (r: minijinja::Error) {
    minijinja::Error::new(minijinja::ErrorKind::InvalidOperation, "wrong operand kind")
}

/// Relies on minijinja::Environment::new.
#[verifier::external_body]
fn env_new() -> (r: minijinja::Environment<'static>) {
    minijinja::Environment::new()
}

/// Relies on Environment::set_auto_escape_callback: every template escapes
/// for HTML, whatever its name.
#[verifier::external_body]
fn env_force_html_escape(env: &mut minijinja::Environment<'static>) {
    env.set_auto_escape_callback(|_| minijinja::AutoEscape::Html);
}

/// Relies on Environment::add_template_owned: registers one template
/// source under its identifier.
#[verifier::external_body]
fn env_add_template(env: &mut minijinja::Environment<'static>, name: &str, source: &str) -> (r:
    bool) {
    env.add_template_owned(name.to_string(), source.to_string()).is_ok()
}

/// Relies on Environment::add_filter: the translation helper, backed by
/// the library's verified t.
#[verifier::external_body]
fn env_add_filter_t(env: &mut minijinja::Environment<'static>, translation: &Vec<(String, String)>) {
    let tr = translation.clone();
    env.add_filter("t", move |value: String, variables: Option<minijinja::Value>| -> String {
        let vars = variables.and_then(|v| value_from_engine(&v));
        crate::engine::t(&value, vars.as_ref(), &tr)
    });
}

/// Relies on Environment::add_filter: splitting, backed by the library's
/// verified split.
#[verifier::external_body]
fn env_add_filter_split(env: &mut minijinja::Environment<'static>) {
    env.add_filter(
        "split",
        |v: minijinja::Value, sep: String| -> Result<Vec<String>, minijinja::Error> {
            value_from_engine(&v).and_then(|x| crate::engine::split(&x, &sep)).ok_or_else(
                engine_error,
            )
        },
    );
}

/// Relies on Environment::add_filter: prepending, backed by the library's
/// verified prepend.
#[verifier::external_body]
fn env_add_filter_prepend(env: &mut minijinja::Environment<'static>) {
    env.add_filter(
        "prepend",
        |v: minijinja::Value, lead: String| -> Result<minijinja::Value, minijinja::Error> {
            value_from_engine(&v).and_then(|x| crate::engine::prepend(&x, &lead)).map(
                |r| value_to_engine(&r),
            ).ok_or_else(engine_error)
        },
    );
}

/// Relies on Environment::add_filter: appending, backed by the library's
/// verified append.
#[verifier::external_body]
fn env_add_filter_append(env: &mut minijinja::Environment<'static>) {
    env.add_filter(
        "append",
        |v: minijinja::Value, t2: minijinja::Value| -> Result<minijinja::Value, minijinja::Error> {
            match (value_from_engine(&v), value_from_engine(&t2)) {
                (Some(a), Some(b)) => crate::engine::append(&a, &b).map(
                    |r| value_to_engine(&r),
                ).ok_or_else(engine_error),
                _ => Err(engine_error()),
            }
        },
    );
}

/// Relies on Environment::add_filter: identifier cleaning, backed by the
/// library's verified clean_id.
#[verifier::external_body]
fn env_add_filter_clean_id(env: &mut minijinja::Environment<'static>) {
    env.add_filter("clean_id", |value: String| -> String { crate::engine::clean_id(&value) });
}

/// Relies on Environment::add_filter: attribute setting, backed by the
/// library's verified set_attribute.
#[verifier::external_body]
fn env_add_filter_set_attribute(env: &mut minijinja::Environment<'static>) {
    env.add_filter(
        "set_attribute",
        |v: minijinja::Value, name: String, nv: Option<minijinja::Value>| -> minijinja::Value {
            let nv = nv.and_then(|x| value_from_engine(&x));
            match value_from_engine(&v) {
                Some(x) => value_to_engine(&crate::engine::set_attribute(&x, &name, nv.as_ref())),
                None => v,
            }
        },
    );
}

/// Relies on Environment::add_filter: the attribute predicate, backed by
/// the library's verified has_attribute.
#[verifier::external_body]
fn env_add_filter_has_attribute(env: &mut minijinja::Environment<'static>) {
    env.add_filter("has_attribute", |v: minijinja::Value, name: String| -> bool {
        value_from_engine(&v).map(|x| crate::engine::has_attribute(&x, &name)).unwrap_or(false)
    });
}

/// Relies on Environment::add_filter: class adding, backed by the
/// library's verified add_class.
#[verifier::external_body]
fn env_add_filter_add_class(env: &mut minijinja::Environment<'static>) {
    env.add_filter("add_class", |v: minijinja::Value, class: minijinja::Value| -> minijinja::Value {
        match (value_from_engine(&v), value_from_engine(&class)) {
            (Some(x), Some(c)) => value_to_engine(&crate::engine::add_class(&x, &c)),
            _ => v,
        }
    });
}

/// Relies on Environment::add_filter: the class predicate, backed by the
/// library's verified has_class.
#[verifier::external_body]
fn env_add_filter_has_class(env: &mut minijinja::Environment<'static>) {
    env.add_filter("has_class", |v: minijinja::Value, class: String| -> bool {
        value_from_engine(&v).map(|x| crate::engine::has_class(&x, &class)).unwrap_or(false)
    });
}

/// Relies on Environment::add_filter: class removal, backed by the
/// library's verified remove_class.
#[verifier::external_body]
fn env_add_filter_remove_class(env: &mut minijinja::Environment<'static>) {
    env.add_filter("remove_class", |v: minijinja::Value, class: String| -> minijinja::Value {
        match value_from_engine(&v) {
            Some(x) => value_to_engine(&crate::engine::remove_class(&x, &class)),
            None => v,
        }
    });
}

/// Relies on Environment::add_filter: attribute removal, backed by the
/// library's verified remove_attribute.
#[verifier::external_body]
fn env_add_filter_remove_attribute(env: &mut minijinja::Environment<'static>) {
    env.add_filter("remove_attribute", |v: minijinja::Value, name: String| -> minijinja::Value {
        match value_from_engine(&v) {
            Some(x) => value_to_engine(&crate::engine::remove_attribute(&x, &name)),
            None => v,
        }
    });
}

/// Relies on Environment::add_filter: merging, backed by the library's
/// verified merge; a non-map operand keeps the first operand unchanged.
#[verifier::external_body]
fn env_add_filter_merge(env: &mut minijinja::Environment<'static>) {
    env.add_filter("merge", |v: minijinja::Value, other: minijinja::Value| -> minijinja::Value {
        match (value_from_engine(&v), value_from_engine(&other)) {
            (Some(a), Some(b)) => match crate::engine::merge(&a, &b) {
                Some(at) => minijinja::Value::from_safe_string(at.to_html_string()),
                None => v,
            },
            _ => v,
        }
    });
}

/// Relies on Environment::add_function: attribute construction, backed by
/// the library's verified create_attribute.
#[verifier::external_body]
fn env_add_create_attribute(env: &mut minijinja::Environment<'static>) {
    env.add_function("create_attribute", |value: Option<minijinja::Value>| -> minijinja::Value {
        let v = value.and_then(|x| value_from_engine(&x));
        minijinja::Value::from_safe_string(
            crate::engine::create_attribute(v.as_ref()).to_html_string(),
        )
    });
}

/// Relies on Environment::add_global: the random token, which is the
/// library's deterministic placeholder.
#[verifier::external_body]
fn env_add_random(env: &mut minijinja::Environment<'static>) {
    env.add_global("random", minijinja::Value::from(crate::engine::generate_random_string()));
}

/// Relies on Environment::set_formatter: interpolated values go through
/// the library's verified formatting policy; anything else through the
/// engine's escaping formatter.
#[verifier::external_body]
fn env_set_value_formatter(env: &mut minijinja::Environment<'static>, def: &Definition) {
    let fdef = def.clone();
    env.set_formatter(move |out, state, value| {
        let k = value.kind();
        if k == minijinja::value::ValueKind::Map || k == minijinja::value::ValueKind::Seq {
            if let Some(v) = value_from_engine(value) {
                return out.write_str(&crate::renderer::format_value(&v, &fdef)).map_err(minijinja::Error::from);
            }
        } else if let Some(t) = value.as_str() {
            if crate::engine::looks_like_attribute_text(t) {
                return out.write_str(t).map_err(minijinja::Error::from);
            }
        }
        minijinja::escape_formatter(out, state, value)
    });
}

/// Installs the engine helpers that read or build text.
#[verifier::external_body]
fn env_install_text_helpers(
    env: &mut minijinja::Environment<'static>,
    translation: &Vec<(String, String)>,
) {
    env_add_filter_t(env, translation);
    env_add_filter_split(env);
    env_add_filter_prepend(env);
    env_add_filter_append(env);
    env_add_filter_clean_id(env);
    env_add_random(env);
}

/// Installs the engine helpers that manipulate attributes.
#[verifier::external_body]
fn env_install_attribute_helpers(env: &mut minijinja::Environment<'static>) {
    env_add_filter_set_attribute(env);
    env_add_filter_has_attribute(env);
    env_add_filter_add_class(env);
    env_add_filter_has_class(env);
    env_add_filter_remove_class(env);
    env_add_filter_remove_attribute(env);
    env_add_filter_merge(env);
    env_add_create_attribute(env);
}

/// Relies on Environment::get_template and Template::render: one template
/// executed over the parsed JSON context.
#[verifier::external_body]
fn env_render(env: &minijinja::Environment<'static>, name: &str, ctx_json: &str) -> (r: Option<
    String,
>) {
    let ctx: serde_json::Value = serde_json::from_str(ctx_json).ok()?;
    match env.get_template(name) {
        Ok(t) => t.render(minijinja::Value::from_serialize(&ctx)).ok(),
        Err(_) => None,
    }
}

/// What executing a template source over a JSON context yields under the
/// full engine: the design system's templates loaded, every helper of the
/// library registered, and the value formatter wired to the library's
/// formatting policy; or nothing when the source does not compile, the
/// context text is not JSON, or the engine fails.  The result depends on
/// the four arguments alone: every helper is a verified function of its
/// inputs, the random token is the deterministic placeholder, and the
/// engine itself draws on no clock, randomness or seeded hashing.
pub uninterp spec fn template_output_full_of(
    source: Seq<char>,
    ctx: Seq<char>,
    tr: Seq<(Seq<char>, Seq<char>)>,
    def: Definition,
) -> Option<Seq<char>>;

/// The whole engine call: one environment built from the helpers above,
/// the definition's template sources, and the given inline source, then
/// one render over the context.
#[verifier::external_body]
pub fn jinja_render_full(
    source: &str,
    ctx_json: &str,
    translation: &Vec<(String, String)>,
    def: &Definition,
) -> (r: Option<String>)
    ensures
        match r {
            Some(s) => template_output_full_of(
                source@,
                ctx_json@,
                crate::assoc::kvs_view(translation@),
                *def,
            ) == Some(s@),
            None => template_output_full_of(
                source@,
                ctx_json@,
                crate::assoc::kvs_view(translation@),
                *def,
            ) is None,
        },
{
    let mut env = env_new();
    env_force_html_escape(&mut env);
    for (n, s) in def.templates.iter() {
        let _ = env_add_template(&mut env, n, s);
    }
    env_install_text_helpers(&mut env, translation);
    env_install_attribute_helpers(&mut env);
    env_set_value_formatter(&mut env, def);
    if !env_add_template(&mut env, "inline", source) {
        return None;
    }
    env_render(&env, "inline", ctx_json)
}

} // verus!
