//! The page that a browser is sent to with the code of a sign-in.
use vstd::prelude::*;
use vstd::utf8::*;
use crate::dict;
use crate::dict::Dict;
use crate::oauth::urlcode;
use crate::oauth::urlcode::{get_parameter, parse_query};
use crate::text;
use crate::text::{chars_of, concat3, decimal, same_text, split_once_at, text_range};
use crate::utf8;
use crate::utf8::text_from_bytes;
use crate::views;

verus! {

broadcast use crate::views::group_views;

/// Whether an empty line starts at a place.
pub open spec fn empty_line_at(buf: Seq<u8>, i: int) -> bool {
    0 <= i && i + 4 <= buf.len() && buf[i] == 13 && buf[i + 1] == 10 && buf[i + 2] == 13 && buf[i
        + 3] == 10
}

/// Whether the head of a request is there, with the empty line behind it.
pub fn head_is_complete(buf: &[u8]) -> (r: bool)
    ensures
        r == exists|i: int| #[trigger] empty_line_at(buf@, i),
{
    let mut i: usize = 0;
    while i < buf.len()
        invariant
            i <= buf@.len(),
            forall|j: int| 0 <= j < i ==> !#[trigger] empty_line_at(buf@, j),
        decreases buf@.len() - i,
    {
        if buf.len() - i >= 4 && buf[i] == 13 && buf[i + 1] == 10 && buf[i + 2] == 13 && buf[i + 3]
            == 10 {
            assert(empty_line_at(buf@, i as int));
            return true;
        }
        i = i + 1;
    }
    false
}

/// How many characters at the start are no space.
pub open spec fn word_len(s: Seq<char>) -> nat
    decreases s.len(),
{
    if s.len() == 0 || text::is_space(s[0]) {
        0
    } else {
        1 + word_len(s.skip(1))
    }
}

/// The first word of a text.
pub open spec fn first_word(s: Seq<char>) -> Seq<char> {
    let t = text::trim_start(s);
    t.take(word_len(t) as int)
}

/// What follows the first word of a text.
pub open spec fn after_first_word(s: Seq<char>) -> Seq<char> {
    let t = text::trim_start(s);
    t.skip(word_len(t) as int)
}

/// The first line of a text.
pub open spec fn first_line(s: Seq<char>) -> Seq<char> {
    match text::split_once(s, '\n') {
        Some((line, _)) => line,
        None => s,
    }
}

/// What a request asks for: the second word of its first line.
pub open spec fn target_of(head: Seq<char>) -> Seq<char> {
    first_word(after_first_word(first_line(head)))
}

/// Where the space at a place of a text ends.
fn skip_spaces(x: &Vec<char>, from: usize) -> (r: usize)
    requires
        from <= x@.len(),
    ensures
        from <= r <= x@.len(),
        x@.skip(r as int) == text::trim_start(x@.skip(from as int)),
{
    let mut i: usize = from;
    while i < x.len() && x[i].is_whitespace()
        invariant
            from <= i <= x@.len(),
            text::trim_start(x@.skip(i as int)) == text::trim_start(x@.skip(from as int)),
        decreases x@.len() - i,
    {
        assert(x@.skip(i as int)[0] == x@[i as int]);
        assert(x@.skip(i as int).skip(1) =~= x@.skip(i + 1));
        i = i + 1;
    }
    if i < x.len() {
        assert(x@.skip(i as int)[0] == x@[i as int]);
    }
    i
}

/// Where the word at a place of a text ends.
fn skip_word(x: &Vec<char>, from: usize) -> (r: usize)
    requires
        from <= x@.len(),
    ensures
        from <= r <= x@.len(),
        r - from == word_len(x@.skip(from as int)),
{
    let mut i: usize = from;
    while i < x.len() && !x[i].is_whitespace()
        invariant
            from <= i <= x@.len(),
            word_len(x@.skip(from as int)) == i - from + word_len(x@.skip(i as int)),
        decreases x@.len() - i,
    {
        assert(x@.skip(i as int)[0] == x@[i as int]);
        assert(x@.skip(i as int).skip(1) =~= x@.skip(i + 1));
        i = i + 1;
    }
    if i < x.len() {
        assert(x@.skip(i as int)[0] == x@[i as int]);
    }
    i
}

/// What a request asks for.
pub fn request_target(head: &str) -> (r: String)
    ensures
        r@ == target_of(head@),
{
    let line: String = match split_once_at(head, '\n') {
        Some((l, _)) => l,
        None => head.to_owned(),
    };
    let x: Vec<char> = chars_of(line.as_str());
    assert(x@.skip(0) =~= x@);
    let a: usize = skip_spaces(&x, 0);
    let b: usize = skip_word(&x, a);
    let c: usize = skip_spaces(&x, b);
    let d: usize = skip_word(&x, c);
    assert(x@.skip(a as int).skip(b - a) =~= x@.skip(b as int));
    let r: String = text_range(&x, c, d);
    assert(r@ =~= x@.skip(c as int).take(d - c));
    r
}

/// A page that says something.
pub open spec fn page(status: Seq<char>, message: Seq<char>) -> Seq<char> {
    "<!DOCTYPE html><html lang=\"en\"><head><meta charset=\"utf-8\"><title>"@ + status
        + "</title></head><body style=\"font-family:system-ui;margin:2rem\"><h1>"@ + status
        + "</h1><p>"@ + message + "</p></body></html>"@
}

/// A page that says something.
pub fn oauth_page_html(status: &str, message: &str) -> (r: String)
    ensures
        r@ == page(status@, message@),
{
    let mut out: String = concat3(
        "<!DOCTYPE html><html lang=\"en\"><head><meta charset=\"utf-8\"><title>",
        status,
        "</title></head><body style=\"font-family:system-ui;margin:2rem\"><h1>",
    );
    out.append(status);
    out.append("</h1><p>");
    out.append(message);
    out.append("</p></body></html>");
    out
}

/// The head of an answer with a page.
pub open spec fn html_head(status: u16, reason: Seq<char>, body: Seq<char>) -> Seq<char> {
    "HTTP/1.1 "@ + text::decimal_text(status as nat) + " "@ + reason
        + "\r\nContent-Type: text/html; charset=utf-8\r\nContent-Length: "@ + text::decimal_text(
        encode_utf8(body).len(),
    ) + "\r\nConnection: close\r\n\r\n"@
}

/// The head of an answer with a page.
pub fn html_response_head(status: u16, reason: &str, body: &str) -> (r: String)
    ensures
        r@ == html_head(status, reason@, body@),
{
    let mut out: String = concat3("HTTP/1.1 ", decimal(status as u64).as_str(), " ");
    out.append(reason);
    out.append("\r\nContent-Type: text/html; charset=utf-8\r\nContent-Length: ");
    let n: u64 = body.as_bytes().len() as u64;
    out.append(decimal(n).as_str());
    out.append("\r\nConnection: close\r\n\r\n");
    out
}

/// An answer to a browser. The one that brings the code ends the wait for it.
pub struct CallbackAnswer {
    pub status: u16,
    pub reason: String,
    pub page: String,
    pub code: Option<String>,
}

#[verifier::ext_equal]
pub struct CallbackAnswerView {
    pub status: u16,
    pub reason: Seq<char>,
    pub page: Seq<char>,
    pub code: Option<Seq<char>>,
}

impl View for CallbackAnswer {
    type V = CallbackAnswerView;

    open spec fn view(&self) -> CallbackAnswerView {
        CallbackAnswerView {
            status: self.status,
            reason: self.reason@,
            page: self.page@,
            code: views::opt(self.code),
        }
    }
}

/// The answer to a request for a path with parameters: another path is not found,
/// another state and a missing code are refused, and the code is taken.
pub open spec fn answer_to(
    asked: Seq<char>,
    params: Map<Seq<char>, Seq<char>>,
    path: Seq<char>,
    state: Seq<char>,
) -> CallbackAnswerView {
    if asked != path {
        CallbackAnswerView {
            status: 404,
            reason: "Not Found"@,
            page: page(
                "Callback route not found."@,
                "Open the exact URL shown in the login prompt."@,
            ),
            code: None,
        }
    } else if urlcode::parameter(params, "state"@) != Some(state) {
        CallbackAnswerView {
            status: 400,
            reason: "Bad Request"@,
            page: page(
                "State mismatch."@,
                "The OAuth state did not match; please retry the login."@,
            ),
            code: None,
        }
    } else {
        match urlcode::parameter(params, "code"@) {
            None => CallbackAnswerView {
                status: 400,
                reason: "Bad Request"@,
                page: page(
                    "Missing authorization code."@,
                    "No authorization code was provided."@,
                ),
                code: None,
            },
            Some(code) => CallbackAnswerView {
                status: 200,
                reason: "OK"@,
                page: page(
                    "Authentication completed."@,
                    "You can close this window and return to the terminal."@,
                ),
                code: Some(code),
            },
        }
    }
}

fn answer(status: u16, reason: &str, title: &str, message: &str, code: Option<String>) -> (r:
    CallbackAnswer)
    ensures
        r@ == (CallbackAnswerView {
            status,
            reason: reason@,
            page: page(title@, message@),
            code: views::opt(code),
        }),
{
    CallbackAnswer {
        status,
        reason: reason.to_owned(),
        page: oauth_page_html(title, message),
        code,
    }
}

/// Answers a request for a path with parameters.
pub fn answer_parameters(asked: &str, params: &Dict<String>, path: &str, state: &str) -> (r:
    CallbackAnswer)
    ensures
        r@ == answer_to(asked@, dict::texts(params@), path@, state@),
{
    if !same_text(asked, path) {
        return answer(
            404,
            "Not Found",
            "Callback route not found.",
            "Open the exact URL shown in the login prompt.",
            None,
        );
    }
    let same_state: bool = match params.get_text("state") {
        Some(s) => same_text(s, state),
        None => false,
    };
    if !same_state {
        return answer(
            400,
            "Bad Request",
            "State mismatch.",
            "The OAuth state did not match; please retry the login.",
            None,
        );
    }
    match get_parameter(params, "code") {
        None => answer(
            400,
            "Bad Request",
            "Missing authorization code.",
            "No authorization code was provided.",
            None,
        ),
        Some(code) => answer(
            200,
            "OK",
            "Authentication completed.",
            "You can close this window and return to the terminal.",
            Some(code),
        ),
    }
}

/// The path and the parameters that a request asks for.
pub open spec fn asked_for(target: Seq<char>) -> (Seq<char>, Map<Seq<char>, Seq<char>>) {
    match text::split_once(target, '?') {
        Some((p, q)) => (p, urlcode::query_parameters(q)),
        None => (target, Map::empty()),
    }
}

/// Answers a request, given the text of its head.
pub fn answer_head(head: &str, path: &str, state: &str) -> (r: CallbackAnswer)
    ensures
        ({
            let (asked, params) = asked_for(target_of(head@));
            r@ == answer_to(asked, params, path@, state@)
        }),
{
    let target: String = request_target(head);
    match split_once_at(target.as_str(), '?') {
        Some((p, q)) => {
            let params: Dict<String> = parse_query(q.as_str());
            answer_parameters(p.as_str(), &params, path, state)
        },
        None => {
            let params: Dict<String> = Dict::new();
            assert(dict::texts(params@) =~= Map::<Seq<char>, Seq<char>>::empty());
            answer_parameters(target.as_str(), &params, path, state)
        },
    }
}

/// Answers a request, given its bytes.
pub fn answer_request(bytes: &[u8], path: &str, state: &str) -> (r: CallbackAnswer)
    ensures
        ({
            let (asked, params) = asked_for(target_of(utf8::lossy_text(bytes@)));
            r@ == answer_to(asked, params, path@, state@)
        }),
{
    let head: String = text_from_bytes(bytes);
    answer_head(head.as_str(), path, state)
}

/// A code is taken only from a request for the page itself that brings the state of
/// the sign-in.
pub proof fn law_code_needs_the_state(
    asked: Seq<char>,
    params: Map<Seq<char>, Seq<char>>,
    path: Seq<char>,
    state: Seq<char>,
)
    ensures
        answer_to(asked, params, path, state).code is Some <==> asked == path
            && urlcode::parameter(params, "state"@) == Some(state) && urlcode::parameter(
            params,
            "code"@,
        ) is Some,
        answer_to(asked, params, path, state).code is Some ==> answer_to(
            asked,
            params,
            path,
            state,
        ).status == 200,
{
}

proof fn lemma_word(word: Seq<char>, rest: Seq<char>)
    requires
        forall|i: int| 0 <= i < word.len() ==> !text::is_space(#[trigger] word[i]),
        rest.len() > 0 ==> text::is_space(rest[0]),
    ensures
        word_len(word + rest) == word.len(),
    decreases word.len(),
{
    let s = word + rest;
    if word.len() == 0 {
        assert(s =~= rest);
    } else {
        let less = word.skip(1);
        assert forall|i: int| 0 <= i < less.len() implies !text::is_space(#[trigger] less[i]) by {
            assert(less[i] == word[i + 1]);
        }
        lemma_word(less, rest);
        assert(s.skip(1) =~= less + rest);
        assert(s[0] == word[0]);
    }
}

/// A request asks for what stands behind its method: a line `method target rest`, whatever comes
/// behind it.
pub proof fn law_target_is_the_second_word(
    method: Seq<char>,
    target: Seq<char>,
    rest: Seq<char>,
    others: Seq<char>,
)
    requires
        method.len() > 0,
        target.len() > 0,
        forall|i: int| 0 <= i < method.len() ==> !text::is_space(#[trigger] method[i]),
        forall|i: int| 0 <= i < target.len() ==> !text::is_space(#[trigger] target[i]),
        !rest.contains('\n'),
    ensures
        target_of(
            method + seq![' '] + target + seq![' '] + rest + seq!['\n'] + others,
        ) == target,
{
    let tail = seq![' '] + rest;
    let line = method + (seq![' '] + (target + tail));
    let head = method + seq![' '] + target + seq![' '] + rest + seq!['\n'] + others;
    assert(head =~= line + seq!['\n'] + others);
    assert(!line.contains('\n')) by {
        if line.contains('\n') {
            let x = choose|x: int| 0 <= x < line.len() && line[x] == '\n';
            let (m, t) = (method.len() as int, target.len() as int);
            if x < m {
                assert(method[x] == '\n');
            } else if m < x && x < m + 1 + t {
                assert(target[x - m - 1] == '\n');
            } else if x > m + 1 + t {
                assert(rest[x - m - t - 2] == '\n');
            }
        }
    }
    text::law_text_is_parted_at_the_first(line, '\n', others);
    assert(!text::is_space(method[0]));
    assert(line[0] == method[0]);
    assert(text::trim_start(line) == line);
    lemma_word(method, seq![' '] + (target + tail));
    let after = seq![' '] + (target + tail);
    assert(line.skip(method.len() as int) =~= after);
    assert(after.drop_first() =~= target + tail);
    assert(after.skip(1) =~= target + tail);
    assert(!text::is_space(target[0]));
    assert((target + tail)[0] == target[0]);
    reveal_with_fuel(text::trim_start, 3);
    assert(text::trim_start(after) == target + tail);
    lemma_word(target, tail);
    assert((target + tail).take(target.len() as int) =~= target);
}

/// What a request brings is read behind the first `?`, the code that is taken is the one that it
/// brings, and whatever is not taken is answered as a failure.
pub proof fn law_callback_takes_the_code_that_it_brings(
    path: Seq<char>,
    query: Seq<char>,
    params: Map<Seq<char>, Seq<char>>,
    asked: Seq<char>,
    state: Seq<char>,
)
    requires
        !path.contains('?'),
    ensures
        asked_for(path + seq!['?'] + query) == (path, urlcode::query_parameters(query)),
        asked_for(path).0 == path,
        params.contains_key("code"@) && params.contains_key("state"@) && params["state"@] == state
            ==> answer_to(path, params, path, state).code == Some(params["code"@]),
        asked != path ==> answer_to(asked, params, path, state).status == 404,
        !params.contains_key("state"@) || params["state"@] != state || !params.contains_key(
            "code"@,
        ) ==> answer_to(path, params, path, state).status == 400,
{
    text::law_text_is_parted_at_the_first(path, '?', query);
}

/// The head of an answer says how long the page is that follows, and ends with an empty line.
pub proof fn law_answer_says_how_long_it_is(status: u16, reason: Seq<char>, body: Seq<char>)
    ensures
        text::ends(
            html_head(status, reason, body),
            "Content-Length: "@ + text::decimal_text(encode_utf8(body).len())
                + "\r\nConnection: close\r\n\r\n"@,
        ),
        text::begins(
            html_head(status, reason, body),
            "HTTP/1.1 "@ + text::decimal_text(status as nat) + " "@ + reason,
        ),
{
    reveal_strlit("\r\nContent-Type: text/html; charset=utf-8\r\nContent-Length: ");
    reveal_strlit("Content-Length: ");
    let long = "\r\nContent-Type: text/html; charset=utf-8\r\nContent-Length: "@;
    let short = "Content-Length: "@;
    assert(long.skip(long.len() - short.len()) =~= short);
    let h = html_head(status, reason, body);
    let first = "HTTP/1.1 "@ + text::decimal_text(status as nat) + " "@ + reason;
    let end = text::decimal_text(encode_utf8(body).len()) + "\r\nConnection: close\r\n\r\n"@;
    assert(long =~= long.take(long.len() - short.len()) + short);
    assert(h =~= first + long.take(long.len() - short.len()) + (short + end));
    assert(h.skip(h.len() - (short + end).len()) =~= short + end);
    assert("Content-Length: "@ + text::decimal_text(encode_utf8(body).len())
        + "\r\nConnection: close\r\n\r\n"@ =~= short + end);
    assert(h.take(first.len() as int) =~= first);
}

/// A page says its status twice, as its title and as its heading, and its message behind that.
pub proof fn law_page_says_its_message(status: Seq<char>, message: Seq<char>)
    ensures
        text::holds(page(status, message), "<title>"@ + status + "</title>"@),
        text::holds(page(status, message), "<h1>"@ + status + "</h1><p>"@ + message + "</p>"@),
{
    reveal_strlit(
        "<!DOCTYPE html><html lang=\"en\"><head><meta charset=\"utf-8\"><title>",
    );
    reveal_strlit(
        "</title></head><body style=\"font-family:system-ui;margin:2rem\"><h1>",
    );
    reveal_strlit("</h1><p>");
    reveal_strlit("</p></body></html>");
    reveal_strlit("<title>");
    reveal_strlit("</title>");
    reveal_strlit("<h1>");
    reveal_strlit("</p>");
    let all = page(status, message);
    let a = "<!DOCTYPE html><html lang=\"en\"><head><meta charset=\"utf-8\"><title>"@;
    let b = "</title></head><body style=\"font-family:system-ui;margin:2rem\"><h1>"@;
    let title = "<title>"@ + status + "</title>"@;
    let heading = "<h1>"@ + status + "</h1><p>"@ + message + "</p>"@;
    let i = a.len() - 7;
    let j = a.len() + status.len() + b.len() - 4;
    assert(all.subrange(i, i + title.len()) =~= title);
    assert(text::stands_at(all, title, i));
    assert(all.subrange(j, j + heading.len()) =~= heading);
    assert(text::stands_at(all, heading, j));
}

} // verus!
