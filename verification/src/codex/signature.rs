//! The signature that ties a text block to the message id that the service
//! gave it.
use vstd::prelude::*;
use crate::json::{Json, JsonView};
use crate::json_text;
use crate::json_text::parse_json;
use crate::text;
use crate::text::{same_text, starts_with};
use crate::views;
use crate::views::opt_owned;

verus! {

/// The signature of message `id` in phase `phase`.
pub open spec fn signature_text(id: Seq<char>, phase: Option<Seq<char>>) -> Seq<char> {
    match phase {
        Some(p) => "{\"v\":1,\"id\":\""@ + id + "\",\"phase\":\""@ + p + "\"}"@,
        None => "{\"v\":1,\"id\":\""@ + id + "\"}"@,
    }
}

/// Writes the signature of a message.
pub fn encode_text_signature_v1(id: &str, phase: Option<&str>) -> (r: String)
    ensures
        r@ == signature_text(id@, views::opt(phase)),
{
    let mut out: String = "{\"v\":1,\"id\":\"".to_owned();
    out.append(id);
    if let Some(p) = phase {
        out.append("\",\"phase\":\"");
        out.append(p);
    }
    out.append("\"}");
    out
}

/// Whether a phase is one that a signature may carry.
pub open spec fn is_known_phase(phase: Seq<char>) -> bool {
    phase == "commentary"@ || phase == "final_answer"@
}

/// What a signature says, given what reading it as JSON came to: the message
/// id, and its phase where that is known. A signature of another shape is the
/// id itself.
pub open spec fn signature_parts(sig: Seq<char>, json: Result<JsonView, Seq<char>>) -> (
    Seq<char>,
    Option<Seq<char>>,
) {
    let v = json->Ok_0;
    if text::begins(sig, "{"@) && json is Ok && (match v.get("v"@) {
        Some(n) => n.signed() == Some(1i64),
        None => false,
    }) && v.field_text("id"@) is Some {
        let phase = v.field_text("phase"@);
        (
            v.field_text("id"@)->0,
            match phase {
                Some(p) => if is_known_phase(p) {
                    phase
                } else {
                    None
                },
                None => None,
            },
        )
    } else {
        (sig, None)
    }
}

/// Reads a signature that `parsed` is the JSON reading of.
pub fn signature_from_json(sig: &str, parsed: &Result<Json, String>) -> (r: (
    String,
    Option<String>,
))
    ensures
        (r.0@, views::opt(r.1)) == signature_parts(
            sig@,
            match parsed {
                Ok(v) => Ok(v@),
                Err(e) => Err(e@),
            },
        ),
{
    if starts_with(sig, "{") {
        if let Ok(v) = parsed {
            let version: Option<i64> = match v.get("v") {
                Some(n) => n.as_i64(),
                None => None,
            };
            if let Some(1) = version {
                if let Some(id) = v.field_str("id") {
                    let phase: Option<&str> = match v.field_str("phase") {
                        Some(p) => if same_text(p, "commentary") || same_text(p, "final_answer") {
                            Some(p)
                        } else {
                            None
                        },
                        None => None,
                    };
                    return (id.to_owned(), opt_owned(phase));
                }
            }
        }
    }
    (sig.to_owned(), None)
}

/// Reads a signature.
pub fn parse_text_signature(signature: Option<&str>) -> (r: Option<(String, Option<String>)>)
    ensures
        match (r, signature) {
            (Some(p), Some(sig)) => (p.0@, views::opt(p.1)) == signature_parts(
                sig@,
                json_text::json_of_text(sig@),
            ),
            (None, None) => true,
            _ => false,
        },
        forall|id: Seq<char>, phase: Option<Seq<char>>|
            signature is Some && signature->0@ == #[trigger] signature_text(id, phase)
                && json_text::is_plain(id) && (phase matches Some(p) ==> is_known_phase(p)) ==> (
            r matches Some(p) && p.0@ == id && views::opt(p.1) == phase),
{
    match signature {
        Some(sig) => {
            let parsed: Result<Json, String> = parse_json(sig);
            proof {
                assert forall|id: Seq<char>, phase: Option<Seq<char>>|
                    sig@ == #[trigger] signature_text(id, phase) && json_text::is_plain(id) && (
                    phase matches Some(p) ==> is_known_phase(p)) implies signature_parts(
                    sig@,
                    json_text::json_of_text(sig@),
                ) == (id, phase) by {
                    lemma_signature_is_flat(id, phase);
                    lemma_flat_signature_parts(id, phase, sig@);
                }
            }
            Some(signature_from_json(sig, &parsed))
        },
        None => None,
    }
}

/// The fields of a signature.
spec fn signature_fields(id: Seq<char>, phase: Option<Seq<char>>) -> Seq<
    (Seq<char>, json_text::FlatView),
> {
    let base = seq![
        ("v"@, json_text::FlatView::Unsigned(1)),
        ("id"@, json_text::FlatView::Text(id)),
    ];
    match phase {
        Some(p) => base.push(("phase"@, json_text::FlatView::Text(p))),
        None => base,
    }
}

proof fn lemma_signature_is_flat(id: Seq<char>, phase: Option<Seq<char>>)
    requires
        json_text::is_plain(id),
        phase matches Some(p) ==> is_known_phase(p),
    ensures
        json_text::is_plain_flat(signature_fields(id, phase)),
        json_text::flat_text(signature_fields(id, phase)) == signature_text(id, phase),
{
    reveal_strlit("v");
    reveal_strlit("id");
    reveal_strlit("phase");
    reveal_strlit("commentary");
    reveal_strlit("final_answer");
    reveal_strlit("{\"v\":1,\"id\":\"");
    reveal_strlit("\",\"phase\":\"");
    reveal_strlit("\"}");
    reveal_with_fuel(json_text::flat_fields_text, 4);
    reveal_with_fuel(text::decimal_text, 2);
    let fields = signature_fields(id, phase);
    let base = seq![
        ("v"@, json_text::FlatView::Unsigned(1)),
        ("id"@, json_text::FlatView::Text(id)),
    ];
    assert(base.drop_last() =~= seq![("v"@, json_text::FlatView::Unsigned(1))]);
    assert(text::decimal_text(1) =~= seq!['1']);
    if phase is Some {
        assert(fields.drop_last() =~= base);
    }
    assert(json_text::flat_text(fields) =~= signature_text(id, phase));
}

proof fn lemma_flat_signature_parts(id: Seq<char>, phase: Option<Seq<char>>, sig: Seq<char>)
    requires
        phase matches Some(p) ==> is_known_phase(p),
        sig == signature_text(id, phase),
    ensures
        signature_parts(sig, Ok(json_text::flat_object(signature_fields(id, phase)))) == (id, phase),
{
    reveal_strlit("v");
    reveal_strlit("id");
    reveal_strlit("phase");
    reveal_strlit("{");
    reveal_strlit("{\"v\":1,\"id\":\"");
    reveal_with_fuel(json_text::flat_object, 4);
    let fields = signature_fields(id, phase);
    let base = seq![
        ("v"@, json_text::FlatView::Unsigned(1)),
        ("id"@, json_text::FlatView::Text(id)),
    ];
    assert(base.drop_last() =~= seq![("v"@, json_text::FlatView::Unsigned(1))]);
    assert(base.drop_last().drop_last() =~= Seq::empty());
    if phase is Some {
        assert(fields.drop_last() =~= base);
    }
    assert("v"@ != "id"@ && "v"@ != "phase"@ && "id"@ != "phase"@) by {
        assert("v"@[0] != "id"@[0]);
        assert("v"@.len() != "phase"@.len());
        assert("id"@.len() != "phase"@.len());
    }
    assert(sig.take(1) =~= "{"@);
}

/// A versioned signature says which message it is of, and its phase where that is one of the two
/// that are known.
pub proof fn law_signature_is_read(sig: Seq<char>, v: JsonView, id: Seq<char>)
    requires
        text::begins(sig, "{"@),
        v.field_unsigned("v"@) == Some(1u64),
        v.field_text("id"@) == Some(id),
    ensures
        signature_parts(sig, Ok(v)) == (
            id,
            if v.field_text("phase"@) == Some("commentary"@) || v.field_text("phase"@) == Some(
                "final_answer"@,
            ) {
                v.field_text("phase"@)
            } else {
                None
            },
        ),
{
}

/// A signature that is no JSON object, that cannot be read, or that says no id or another
/// version, is an id itself.
pub proof fn law_other_signature_is_an_id(sig: Seq<char>, read: Result<JsonView, Seq<char>>)
    requires
        !text::begins(sig, "{"@) || read is Err || read->Ok_0.get("v"@) is None
            || read->Ok_0.field_text("id"@) is None || (read->Ok_0.field_unsigned("v"@) is Some
            && read->Ok_0.field_unsigned("v"@) != Some(1u64)),
    ensures
        signature_parts(sig, read) == (sig, None::<Seq<char>>),
{
}

/// A signature that was written is read as what it was written of.
pub proof fn law_written_signature_is_read(id: Seq<char>, phase: Option<Seq<char>>)
    requires
        json_text::is_plain(id),
        phase is None || phase == Some("commentary"@) || phase == Some("final_answer"@),
    ensures
        exists|fields: Seq<(Seq<char>, json_text::FlatView)>|
            json_text::is_plain_flat(fields) && #[trigger] json_text::flat_text(fields)
                == signature_text(id, phase) && signature_parts(
                signature_text(id, phase),
                Ok(json_text::flat_object(fields)),
            ) == (id, phase),
{
    lemma_signature_is_flat(id, phase);
    lemma_flat_signature_parts(id, phase, signature_text(id, phase));
    assert(json_text::flat_text(signature_fields(id, phase)) == signature_text(id, phase));
}

} // verus!
