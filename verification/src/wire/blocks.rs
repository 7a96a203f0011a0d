//! Parts of requests that several services share.
use vstd::prelude::*;
use crate::json;
use crate::json::{clone_json, Json, JsonView, Number, NumberView};
use crate::text;
use crate::text::{concat3, concat, split_at_char, starts_with};
use crate::types::{ImageContent, Tool, ToolView};
use crate::views;

verus! {

broadcast use crate::views::group_views;

/// A text part.
pub open spec fn text_part(text: Seq<char>) -> JsonView {
    JsonView::object().with("type"@, json::jtext("text"@)).with("text"@, json::jtext(text))
}

/// A text part.
pub fn text_part_json(text: &str) -> (r: Json)
    ensures
        r@ == text_part(text@),
{
    Json::object().with("type", Json::text("text")).with("text", Json::text(text))
}

/// A number with a fraction.
pub open spec fn decimal_number(text: Seq<char>) -> JsonView {
    JsonView::Number(NumberView::Decimal(text))
}

/// A number with a fraction.
pub fn decimal_json(text: &str) -> (r: Json)
    ensures
        r@ == decimal_number(text@),
{
    Json::Number(Number::Decimal(text.to_owned()))
}

/// The type of an image: the one given, else what its data says, else PNG.
pub open spec fn image_type(data: Seq<char>, mime_type: Option<Seq<char>>) -> Seq<char> {
    match mime_type {
        Some(m) => m,
        None => if text::begins(data, "data:image/png"@) {
            "image/png"@
        } else if text::begins(data, "data:image/jpeg"@) {
            "image/jpeg"@
        } else {
            "image/png"@
        },
    }
}

/// The type of an image.
pub fn image_media_type(image: &ImageContent) -> (r: String)
    ensures
        r@ == image_type(image.data@, views::opt(image.mime_type)),
{
    match &image.mime_type {
        Some(m) => m.clone(),
        None => if starts_with(image.data.as_str(), "data:image/png") {
            "image/png".to_owned()
        } else if starts_with(image.data.as_str(), "data:image/jpeg") {
            "image/jpeg".to_owned()
        } else {
            "image/png".to_owned()
        },
    }
}

/// The bytes of an image in base64: what follows the first comma of a data address,
/// up to the next one.
pub open spec fn image_payload(data: Seq<char>) -> Seq<char> {
    let parts = text::split(data, ',');
    if text::begins(data, "data:"@) && parts.len() > 1 {
        parts[1]
    } else {
        data
    }
}

/// The bytes of an image in base64.
pub fn image_base64(data: &str) -> (r: String)
    ensures
        r@ == image_payload(data@),
{
    if starts_with(data, "data:") {
        let parts: Vec<String> = split_at_char(data, ',');
        assert(views::all(parts@) == text::split(data@, ','));
        if parts.len() > 1 {
            assert(views::all(parts@)[1] == parts@[1]@);
            return parts[1].clone();
        }
    }
    data.to_owned()
}

/// An image as a data address.
pub open spec fn image_address(data: Seq<char>, mime_type: Option<Seq<char>>) -> Seq<char> {
    if text::begins(data, "data:"@) {
        data
    } else {
        "data:"@ + image_type(data, mime_type) + ";base64,"@ + data
    }
}

/// An image as a data address.
pub fn image_url(image: &ImageContent) -> (r: String)
    ensures
        r@ == image_address(image.data@, views::opt(image.mime_type)),
{
    if starts_with(image.data.as_str(), "data:") {
        image.data.clone()
    } else {
        let mut url: String = concat3("data:", image_media_type(image).as_str(), ";base64,");
        url.append(image.data.as_str());
        url
    }
}

/// The address of a path under a base.
pub open spec fn endpoint(base: Seq<char>, path: Seq<char>) -> Seq<char> {
    text::trim_end_char(base, '/') + path
}

/// The address of a path under a base.
pub fn endpoint_url(base: &str, path: &str) -> (r: String)
    ensures
        r@ == endpoint(base@, path@),
{
    concat(text::trim_end_of(base, '/').as_str(), path)
}

/// A copy of the schema of a tool.
pub fn tool_schema(tool: &Tool) -> (r: Json)
    ensures
        r@ == tool@.parameters,
{
    clone_json(&tool.parameters)
}

/// What a tool says of itself; nothing where it does not.
pub open spec fn tool_description(tool: ToolView) -> Seq<char> {
    views::or(tool.description, Seq::empty())
}

/// What a tool says of itself.
pub fn tool_description_text(tool: &Tool) -> (r: String)
    ensures
        r@ == tool_description(tool@),
{
    match &tool.description {
        Some(d) => d.clone(),
        None => String::new(),
    }
}

/// What is said of arguments that are no object.
pub const ARGUMENTS_NO_OBJECT: &'static str = "tool arguments must be a JSON object";

/// Whether arguments can be those of a tool: whatever the tool, they are an object.
pub fn validate_tool_arguments(tool: &Tool, arguments: &Json) -> (r: Result<(), String>)
    ensures
        (r is Ok) == (arguments@ is Object),
        r is Err ==> r->Err_0@ == ARGUMENTS_NO_OBJECT@,
{
    if arguments.is_object() {
        Ok(())
    } else {
        Err(ARGUMENTS_NO_OBJECT.to_owned())
    }
}

/// An image is of the type that was given, or else of the one that its data address names; data
/// that names none is taken for PNG.
pub proof fn law_image_has_a_type(data: Seq<char>, given: Seq<char>)
    ensures
        image_type(data, Some(given)) == given,
        text::begins(data, "data:image/jpeg"@) ==> image_type(data, None) == "image/jpeg"@,
        !text::begins(data, "data:image/jpeg"@) ==> image_type(data, None) == "image/png"@,
{
    reveal_strlit("data:image/png");
    reveal_strlit("data:image/jpeg");
    let a = "data:image/png"@;
    let b = "data:image/jpeg"@;
    if text::begins(data, a) && text::begins(data, b) {
        assert(data.take(a.len() as int)[11] == a[11]);
        assert(data.take(b.len() as int)[11] == b[11]);
        assert(a[11] == 'p' && b[11] == 'j');
    }
}

/// Plain base64 is sent as it is, and a data address gives the base64 behind its comma.
pub proof fn law_payload_is_behind_the_comma(head: Seq<char>, payload: Seq<char>)
    requires
        !head.contains(','),
        !payload.contains(','),
    ensures
        text::begins(head, "data:"@) ==> image_payload(head + seq![','] + payload) == payload,
        !text::begins(payload, "data:"@) ==> image_payload(payload) == payload,
{
    reveal_strlit("data:");
    let all = head + seq![','] + payload;
    text::law_text_is_parted_at_the_first(head, ',', payload);
    text::law_text_is_parted_at_the_first(payload, ',', Seq::empty());
    if text::begins(head, "data:"@) {
        assert(all.take(5) =~= head.take(5));
    }
}

/// An image is a data address: its own, or one that says its type and holds its base64.
pub proof fn law_image_address_holds_the_image(data: Seq<char>, given: Option<Seq<char>>)
    ensures
        text::begins(image_address(data, given), "data:"@),
        text::begins(data, "data:"@) ==> image_address(data, given) == data,
        !text::begins(data, "data:"@) ==> {
            &&& text::ends(image_address(data, given), ";base64,"@ + data)
            &&& text::begins(image_address(data, given), "data:"@ + image_type(data, given))
        },
        !text::begins(data, "data:"@) && !data.contains(',') && !image_type(data, given).contains(
            ',',
        ) ==> image_payload(image_address(data, given)) == data,
{
    let all = image_address(data, given);
    let kind = image_type(data, given);
    if !text::begins(data, "data:"@) {
        let front = "data:"@ + kind;
        let back = ";base64,"@ + data;
        assert(all =~= front + back);
        assert(all.take(front.len() as int) =~= front);
        assert(all.take("data:"@.len() as int) =~= "data:"@);
        assert(all.skip(all.len() - back.len()) =~= back);
        if !data.contains(',') && !kind.contains(',') {
            reveal_strlit("data:");
            reveal_strlit(";base64,");
            reveal_strlit(";base64");
            let head = front + ";base64"@;
            assert(all =~= head + seq![','] + data);
            assert forall|i: int| 0 <= i < head.len() implies head[i] != ',' by {
                if 5 <= i < front.len() {
                    assert(head[i] == kind[i - 5]);
                    assert(kind.contains(kind[i - 5]));
                }
            }
            assert(head.take(5) =~= "data:"@);
            law_payload_is_behind_the_comma(head, data);
        }
    }
}

/// Slashes at the end of a base make no difference to the address of a path, which ends with
/// the path and begins with the base.
pub proof fn law_endpoint_is_under_its_base(base: Seq<char>, path: Seq<char>)
    ensures
        endpoint(base + seq!['/'], path) == endpoint(base, path),
        base.len() == 0 || base.last() != '/' ==> endpoint(base, path) == base + path,
{
    assert((base + seq!['/']).drop_last() =~= base);
    text::law_end_is_trimmed(base, '/');
    if base.len() == 0 || base.last() != '/' {
        let t = text::trim_end_char(base, '/');
        if t.len() < base.len() {
            assert(base[base.len() - 1] == '/');
        }
        assert(t =~= base);
    }
}

} // verus!
