//! Tools whose input is constrained by a grammar.
use vstd::prelude::*;
use crate::dict;
use crate::dict::Dict;
use crate::json::{Json, JsonView};
use crate::text;
use crate::text::{same_text, trim};
use crate::types::{Tool, ToolView};
use crate::views;
use crate::views::opt_str;

verus! {

/// A text that is there and not blank.
pub open spec fn not_blank(o: Option<Seq<char>>) -> bool {
    o is Some && text::trimmed(o->0).len() > 0
}

fn is_not_blank(o: Option<&str>) -> (r: bool)
    ensures
        r == not_blank(views::opt(o)),
{
    match o {
        Some(s) => {
            let t: String = trim(s);
            !t.as_str().is_empty()
        },
        None => false,
    }
}

/// The notation and the definition of a tool's grammar: the `lark` variant
/// before the `regex` one.
pub open spec fn grammar_of(tool: ToolView) -> Option<(Seq<char>, Seq<char>)> {
    match tool.constrained_sampling {
        Some(config) => if config.sampling_type == "grammar"@ {
            match config.variants {
                Some(v) => if not_blank(v.openai_lark) {
                    Some(("lark"@, v.openai_lark->0))
                } else if not_blank(v.openai_regex) {
                    Some(("regex"@, v.openai_regex->0))
                } else {
                    None
                },
                None => None,
            }
        } else {
            None
        },
        None => None,
    }
}

/// The grammar of a tool.
pub fn resolve_grammar_sampling(tool: &Tool) -> (r: Option<(String, String)>)
    ensures
        match r {
            Some(g) => grammar_of(tool@) == Some((g.0@, g.1@)),
            None => grammar_of(tool@) is None,
        },
{
    match &tool.constrained_sampling {
        Some(config) => {
            if !same_text(config.sampling_type.as_str(), "grammar") {
                return None;
            }
            match &config.variants {
                Some(v) => {
                    let lark: Option<&str> = opt_str(&v.openai_lark);
                    let regex: Option<&str> = opt_str(&v.openai_regex);
                    if is_not_blank(lark) {
                        Some(("lark".to_owned(), lark.unwrap().to_owned()))
                    } else if is_not_blank(regex) {
                        Some(("regex".to_owned(), regex.unwrap().to_owned()))
                    } else {
                        None
                    }
                },
                None => None,
            }
        },
        None => None,
    }
}

/// The one required property of an object schema, where it has exactly one
/// and that is a string.
pub open spec fn input_property(schema: JsonView) -> Option<Seq<char>> {
    match (schema.field_text("type"@), schema.field_items("required"@)) {
        (Some(t), Some(required)) => if t == "object"@ && required.len() == 1 {
            match required[0].text() {
                Some(property) => match schema.get2("properties"@, property) {
                    Some(p) => if p.field_text("type"@) == Some("string"@) {
                        Some(property)
                    } else {
                        None
                    },
                    None => None,
                },
                None => None,
            }
        } else {
            None
        },
        _ => None,
    }
}

/// The property of a tool that takes the text that its grammar describes.
pub fn infer_grammar_input_property(tool: &Tool) -> (r: Option<String>)
    ensures
        views::opt(r) == input_property(tool.parameters@),
{
    let schema: &Json = &tool.parameters;
    match (schema.field_str("type"), schema.field_array("required")) {
        (Some(t), Some(required)) => {
            if !same_text(t, "object") || required.len() != 1 {
                return None;
            }
            assert(views::all(required@)[0] == required@[0]@);
            match required[0].as_str() {
                Some(property) => match schema.get2("properties", property) {
                    Some(p) => match p.field_str("type") {
                        Some(kind) => if same_text(kind, "string") {
                            Some(property.to_owned())
                        } else {
                            None
                        },
                        None => None,
                    },
                    None => None,
                },
                None => None,
            }
        },
        _ => None,
    }
}

/// What is said of a tool whose grammar comes in no notation that is taken.
pub open spec fn no_grammar_error(name: Seq<char>) -> Seq<char> {
    "Tool \""@ + name
        + "\" cannot use grammar constrained sampling: no supported grammar variant was provided."@
}

/// What is said of a tool whose schema has no input property.
pub open spec fn no_property_error(name: Seq<char>) -> Seq<char> {
    "Tool \""@ + name
        + "\" cannot use grammar constrained sampling: requires an object schema with exactly one required string property."@
}

/// The input property of every tool with a grammar, or what is wrong with the
/// first tool that cannot have one.
pub open spec fn grammar_properties(tools: Seq<ToolView>) -> Result<
    Map<Seq<char>, Seq<char>>,
    Seq<char>,
>
    decreases tools.len(),
{
    if tools.len() == 0 {
        Ok(Map::empty())
    } else {
        match grammar_properties(tools.drop_last()) {
            Err(e) => Err(e),
            Ok(m) => {
                let tool = tools.last();
                if tool.constrained_sampling is None {
                    Ok(m)
                } else if grammar_of(tool) is None {
                    Err(no_grammar_error(tool.name))
                } else {
                    match input_property(tool.parameters) {
                        Some(p) => Ok(m.insert(tool.name, p)),
                        None => Err(no_property_error(tool.name)),
                    }
                }
            },
        }
    }
}

proof fn lemma_error_stays(tools: Seq<ToolView>, n: int)
    requires
        0 <= n <= tools.len(),
        grammar_properties(tools.take(n)) is Err,
    ensures
        grammar_properties(tools) == grammar_properties(tools.take(n)),
    decreases tools.len() - n,
{
    if n < tools.len() {
        views::lemma_take_step(tools, n);
        lemma_error_stays(tools, n + 1);
    } else {
        views::lemma_take_all(tools);
    }
}

/// Maps every tool with a grammar to its input property.
pub fn create_grammar_tool_input_properties(tools: &Vec<Tool>) -> (r: Result<Dict<String>, String>)
    ensures
        match r {
            Ok(d) => grammar_properties(views::all(tools@)) == Ok::<
                Map<Seq<char>, Seq<char>>,
                Seq<char>,
            >(dict::texts(d@)),
            Err(e) => grammar_properties(views::all(tools@)) == Err::<
                Map<Seq<char>, Seq<char>>,
                Seq<char>,
            >(e@),
        },
{
    let ghost all = views::all(tools@);
    let mut out: Dict<String> = Dict::new();
    let mut i: usize = 0;
    proof {
        views::lemma_take_all(all);
        assert(dict::texts(out@) =~= Map::empty());
    }
    while i < tools.len()
        invariant
            i <= tools@.len(),
            all == views::all(tools@),
            grammar_properties(all.take(i as int)) == Ok::<Map<Seq<char>, Seq<char>>, Seq<char>>(
                dict::texts(out@),
            ),
        decreases tools@.len() - i,
    {
        let tool: &Tool = &tools[i];
        proof {
            views::lemma_take_step(all, i as int);
        }
        if tool.constrained_sampling.is_some() {
            if resolve_grammar_sampling(tool).is_none() {
                let mut e: String = "Tool \"".to_owned();
                e.append(tool.name.as_str());
                e.append(
                    "\" cannot use grammar constrained sampling: no supported grammar variant was provided.",
                );
                proof {
                    lemma_error_stays(all, i + 1);
                }
                return Err(e);
            }
            match infer_grammar_input_property(tool) {
                Some(p) => {
                    let ghost before = out@;
                    out.insert(tool.name.as_str(), p);
                    assert(dict::texts(out@) =~= dict::texts(before).insert(tool.name@, p@));
                },
                None => {
                    let mut e: String = "Tool \"".to_owned();
                    e.append(tool.name.as_str());
                    e.append(
                        "\" cannot use grammar constrained sampling: requires an object schema with exactly one required string property.",
                    );
                    proof {
                        lemma_error_stays(all, i + 1);
                    }
                    return Err(e);
                },
            }
        }
        i = i + 1;
    }
    proof {
        views::lemma_take_all(all);
    }
    Ok(out)
}

/// A tool that is constrained by a grammar has the definition that it was given: in the one
/// notation where that is not blank, else in the other; a tool that is not so constrained, or
/// that has only blank definitions, has no grammar.
pub proof fn law_grammar_is_the_one_given(tool: ToolView)
    ensures
        match grammar_of(tool) {
            Some((notation, definition)) => {
                &&& tool.constrained_sampling is Some
                &&& tool.constrained_sampling->0.sampling_type == "grammar"@
                &&& tool.constrained_sampling->0.variants is Some
                &&& text::trimmed(definition).len() > 0
                &&& {
                    let v = tool.constrained_sampling->0.variants->0;
                    ||| notation == "lark"@ && v.openai_lark == Some(definition)
                    ||| notation == "regex"@ && v.openai_regex == Some(definition) && (
                    v.openai_lark is Some ==> text::trimmed(v.openai_lark->0).len() == 0)
                }
            },
            None => tool.constrained_sampling is None || tool.constrained_sampling->0.sampling_type
                != "grammar"@ || tool.constrained_sampling->0.variants is None || {
                let v = tool.constrained_sampling->0.variants->0;
                &&& v.openai_lark is Some ==> text::trimmed(v.openai_lark->0).len() == 0
                &&& v.openai_regex is Some ==> text::trimmed(v.openai_regex->0).len() == 0
            },
        },
{
}

/// The input of a tool is the only field that its schema asks for, and that field is a text.
pub proof fn law_input_is_the_only_text_asked_for(schema: JsonView, property: Seq<char>)
    ensures
        input_property(schema) == Some(property) <==> {
            &&& schema.field_text("type"@) == Some("object"@)
            &&& schema.field_items("required"@) == Some(seq![JsonView::Str(property)])
            &&& schema.get2("properties"@, property) is Some
            &&& schema.get2("properties"@, property)->0.field_text("type"@) == Some("string"@)
        },
{
    if let Some(required) = schema.field_items("required"@) {
        if required.len() == 1 && required[0].text() == Some(property) {
            assert(required =~= seq![JsonView::Str(property)]);
        }
        assert(seq![JsonView::Str(property)][0].text() == Some(property));
    }
}

/// One more tool leaves what was found of the others; its input is found under its name where it
/// has a grammar, and only a tool with a grammar that cannot be used makes all fail, by name.
pub proof fn law_next_tool_is_taken_in(tools: Seq<ToolView>, tool: ToolView)
    requires
        grammar_properties(tools) is Ok,
    ensures
        ({
            let before = grammar_properties(tools)->Ok_0;
            match grammar_properties(tools.push(tool)) {
                Ok(m) => {
                    &&& forall|name: Seq<char>|
                        name != tool.name ==> (#[trigger] m.contains_key(name)
                            <==> before.contains_key(name)) && (m.contains_key(name) ==> m[name]
                            == before[name])
                    &&& tool.constrained_sampling is Some ==> m.contains_key(tool.name)
                        && input_property(tool.parameters) == Some(m[tool.name])
                    &&& tool.constrained_sampling is None ==> m == before
                },
                Err(e) => tool.constrained_sampling is Some && text::begins(
                    e,
                    "Tool \""@ + tool.name,
                ) && (grammar_of(tool) is None || input_property(tool.parameters) is None),
            }
        }),
{
    let all = tools.push(tool);
    assert(all.drop_last() =~= tools);
    assert(all.last() == tool);
    let head = "Tool \""@ + tool.name;
    assert(no_grammar_error(tool.name).take(head.len() as int) =~= head);
    assert(no_property_error(tool.name).take(head.len() as int) =~= head);
}

/// What is wrong with a tool stays wrong, whichever tools follow.
pub proof fn law_first_wrong_tool_counts(tools: Seq<ToolView>, more: Seq<ToolView>)
    requires
        grammar_properties(tools) is Err,
    ensures
        grammar_properties(tools + more) == grammar_properties(tools),
{
    assert((tools + more).take(tools.len() as int) =~= tools);
    lemma_error_stays(tools + more, tools.len() as int);
}

} // verus!
