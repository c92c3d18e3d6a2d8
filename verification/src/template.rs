//! Filling the editor templates with strfmt.
use vstd::prelude::*;

verus! {

/// The (name, value) pairs of template variables, as text.
pub open spec fn pair_seqs(vars: Seq<(String, String)>) -> Seq<(Seq<char>, Seq<char>)> {
    vars.map_values(|p: (String, String)| (p.0@, p.1@))
}

/// What strfmt's `strfmt(template, vars)` gives for the variables taken as a
/// map (a later pair of the same name wins): the filled text, or `None` when
/// strfmt reports an error.
pub uninterp spec fn strfmt_text(template: Seq<char>, vars: Seq<(Seq<char>, Seq<char>)>) -> Option<
    Seq<char>,
>;

/// Whether a filled template is what strfmt gives.
pub open spec fn filled_is(r: Option<String>, expected: Option<Seq<char>>) -> bool {
    match r {
        Some(t) => expected == Some(t@),
        None => expected is None,
    }
}

/// A piece of a template: text, or a `{name}` placeholder.
pub enum TemplatePart {
    Text(Seq<char>),
    Var(Seq<char>),
}

/// How a part is written in a template.
pub open spec fn part_text(p: TemplatePart) -> Seq<char> {
    match p {
        TemplatePart::Text(s) => s,
        TemplatePart::Var(name) => seq!['{'] + name + seq!['}'],
    }
}

/// The template that the parts make, in order.
pub open spec fn render(parts: Seq<TemplatePart>) -> Seq<char>
    decreases parts.len(),
{
    if parts.len() == 0 {
        Seq::empty()
    } else {
        render(parts.drop_last()) + part_text(parts.last())
    }
}

/// Whether strfmt reads each part as it is meant: text without braces, and
/// placeholders whose non-empty name holds no brace and no colon (which
/// would start a format specification).
pub open spec fn plain_parts(parts: Seq<TemplatePart>) -> bool {
    forall|i: int|
        0 <= i < parts.len() ==> match #[trigger] parts[i] {
            TemplatePart::Text(s) => !s.contains('{') && !s.contains('}'),
            TemplatePart::Var(name) => name.len() > 0 && !name.contains('{') && !name.contains('}')
                && !name.contains(':'),
        }
}

/// The variables as a map from name to value: a later pair of the same
/// name wins.
pub open spec fn var_map(vars: Seq<(Seq<char>, Seq<char>)>) -> Map<Seq<char>, Seq<char>>
    decreases vars.len(),
{
    if vars.len() == 0 {
        Map::empty()
    } else {
        var_map(vars.drop_last()).insert(vars.last().0, vars.last().1)
    }
}

/// The parts filled in: each text as it is, each placeholder by the value
/// of its variable; `None` when a placeholder names no variable.
pub open spec fn fill_parts(parts: Seq<TemplatePart>, vars: Map<Seq<char>, Seq<char>>) -> Option<
    Seq<char>,
>
    decreases parts.len(),
{
    if parts.len() == 0 {
        Some(Seq::empty())
    } else {
        match fill_parts(parts.drop_last(), vars) {
            None => None,
            Some(before) => match parts.last() {
                TemplatePart::Text(s) => Some(before + s),
                TemplatePart::Var(name) => if vars.contains_key(name) {
                    Some(before + vars[name])
                } else {
                    None
                },
            },
        }
    }
}

/// Calls strfmt's `strfmt` with the pairs collected into a `HashMap`.
/// Trusted: the result is what `strfmt_text` names for the template and the
/// pairs, strfmt's error left out; and for a template made of plain parts
/// it is those parts filled in, as strfmt's source (`strfmt_map`, and
/// `Formatter::str` without a format specification) writes them.
#[verifier::external_body]
fn call_strfmt(template: &str, vars: &Vec<(String, String)>) -> (r: Option<String>)
    ensures
        filled_is(r, strfmt_text(template@, pair_seqs(vars@))),
        forall|parts: Seq<TemplatePart>|
            plain_parts(parts) && #[trigger] render(parts) == template@ ==> filled_is(
                r,
                fill_parts(parts, var_map(pair_seqs(vars@))),
            ),
{
    let map: std::collections::HashMap<String, String> = vars.iter().cloned().collect();
    strfmt::strfmt(template, &map).ok()
}

/// Fills a template's `{name}` placeholders with the given variables.
pub fn fill_template(template: &str, vars: &Vec<(String, String)>) -> (r: Option<String>)
    ensures
        filled_is(r, strfmt_text(template@, pair_seqs(vars@))),
        forall|parts: Seq<TemplatePart>|
            plain_parts(parts) && #[trigger] render(parts) == template@ ==> filled_is(
                r,
                fill_parts(parts, var_map(pair_seqs(vars@))),
            ),
{
    call_strfmt(template, vars)
}

} // verus!
