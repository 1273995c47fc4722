//! A declarative renderer: a JSON payload describing components, HTML
//! elements and inline templates becomes HTML output with its stylesheet
//! and script manifests.  One render runs two passes over the payload: a
//! bubbling pass that gathers attached head markup, library assets, CSS
//! variables and translations from any depth, and a walk that resolves
//! each object node into an element, a component or an inline template and
//! renders it.  Every part of that pipeline carries a contract; the two
//! outside calls it rests on, JSON parsing and template execution, stand
//! behind trusted items whose results are named.
#![verifier::loop_isolation(false)]
use vstd::prelude::*;

pub mod assoc;
pub mod attribute;
pub mod attrparse;
pub mod bubbable;
pub mod definition;
pub mod describer;
pub mod engine;
pub mod laws;
pub mod outside;
pub mod renderable;
pub mod renderer;
pub mod scoped;
pub mod strutil;
pub mod value;

verus! {

use crate::value::{JsonValue, jv_view};
use crate::definition::{Definition, config, spec_config};
use crate::renderer::{Renderer, spec_render_wrap, spec_to_output_string, spec_to_output};
use crate::outside::{parse_payload, parsed_payload_of};

/// Why a render refused to run: the only hard failure is a payload that is
/// not well-formed JSON.
#[derive(Debug)]
pub enum RenderError {
    InvalidPayload,
}

impl RenderError {
    /// A short description of the failure.
    pub fn message(&self) -> (r: String)
        ensures
            r@ == "invalid payload JSON"@,
    {
        "invalid payload JSON".to_owned()
    }
}

/// Renders a payload value against the given design system definition and
/// serializes the output in the chosen format.
pub fn render_value_with_definition(json: &JsonValue, output: &str, def: &Definition) -> (r:
    String)
    ensures
        r@ == spec_to_output_string(spec_render_wrap(jv_view(*json), *def), output@),
{
    let mut renderer = Renderer::new();
    renderer.render(json, def);
    renderer.to_output_string(output)
}

/// Renders a JSON payload text in the chosen output format against a given
/// design system definition.  Only a payload that fails to parse is an
/// error; every failure inside one node degrades to an inline marker.
pub fn render_with_definition(payload: &str, output: &str, def: &Definition) -> (r: Result<
    String,
    RenderError,
>)
    ensures
        match parsed_payload_of(payload@) {
            Some(v) => r is Ok && r->Ok_0@ == spec_to_output_string(
                spec_render_wrap(v, *def),
                output@,
            ),
            None => r is Err,
        },
{
    match parse_payload(payload) {
        Some(json) => Ok(render_value_with_definition(&json, output, def)),
        None => Err(RenderError::InvalidPayload),
    }
}

/// Renders a JSON payload text with the built-in design system definition:
/// the output is exactly one render of the parsed payload under a
/// definition carrying the built-in tables (spec_config pins every field's
/// view; the render depends on the definition through those views alone).
pub fn render(payload: &str, output: &str) -> (r: Result<String, RenderError>)
    ensures
        match parsed_payload_of(payload@) {
            Some(v) => r is Ok && (exists|d: Definition|
                #[trigger] spec_config(d) && r->Ok_0@ == spec_to_output_string(
                    spec_render_wrap(v, d),
                    output@,
                )),
            None => r is Err,
        },
{
    let def = config();
    let r = render_with_definition(payload, output, &def);
    proof {
        if parsed_payload_of(payload@) is Some {
            let v = parsed_payload_of(payload@)->Some_0;
            assert(spec_config(def) && r->Ok_0@ == spec_to_output_string(
                spec_render_wrap(v, def),
                output@,
            ));
        }
    }
    r
}

/// Renders a JSON payload text into the structured JSON output format,
/// with the built-in design system definition.
pub fn render_string(payload: String) -> (r: Result<String, RenderError>)
    ensures
        match parsed_payload_of(payload@) {
            Some(v) => r is Ok && (exists|d: Definition|
                #[trigger] spec_config(d) && r->Ok_0@ == spec_to_output_string(
                    spec_render_wrap(v, d),
                    "json"@,
                )),
            None => r is Err,
        },
{
    render(payload.as_str(), "json")
}

/// Renders a payload value into the structured output value with the
/// built-in design system definition.
pub fn render_obj(json: &JsonValue) -> (r: JsonValue)
    ensures
        exists|d: Definition|
            #[trigger] spec_config(d) && jv_view(r) == spec_to_output(
                spec_render_wrap(jv_view(*json), d),
            ),
{
    let def = config();
    let r = render_obj_with_definition(json, &def);
    proof {
        assert(spec_config(def) && jv_view(r) == spec_to_output(
            spec_render_wrap(jv_view(*json), def),
        ));
    }
    r
}

/// Renders a payload value into the structured output value against a
/// given definition, with the exact contract.
pub fn render_obj_with_definition(json: &JsonValue, def: &Definition) -> (r: JsonValue)
    ensures
        jv_view(r) == spec_to_output(spec_render_wrap(jv_view(*json), *def)),
{
    let mut renderer = Renderer::new();
    renderer.render(json, def);
    renderer.to_output()
}

} // verus!
