//! The loopback page that receives the OAuth redirect: what each request is
//! answered with.

use vstd::prelude::*;
use vstd::utf8::encode_utf8;
use crate::text::{
    cat, chars_of, decimal, fmt_decimal, is_ws, lemma_words_lead, lemma_words_skip_ws, split_once,
    split_once_exec, split_words, starts_with, starts_with_exec, string_of, words,
};

verus! {

broadcast use vstd::string::group_string_axioms;

/// The page that ends the sign-in.
pub open spec fn callback_body() -> Seq<char> {
    "<html><head><meta charset=\"utf-8\"></head><body style=\"font-family:sans-serif;text-align:center;padding-top:80px\"><h2>认证完成</h2><p>可以关闭此页面返回应用</p></body></html>"@
}

/// The page that resends the URL fragment as a query to `/callback`.
pub open spec fn redirect_body() -> Seq<char> {
    "<html><body><script>var h=window.location.hash.slice(1);window.location.replace('/callback?'+h);</script></body></html>"@
}

/// An HTTP 200 response carrying an HTML body, whose `Content-Length` is the
/// body's length in UTF-8 bytes (as `str::len` gives it, a `usize`).
pub open spec fn html_response(body: Seq<char>) -> Seq<char> {
    "HTTP/1.1 200 OK\r\nContent-Type: text/html; charset=utf-8\r\nContent-Length: "@ + decimal(
        (encode_utf8(body).len() as usize) as nat,
    ) + "\r\nConnection: close\r\n\r\n"@ + body
}

/// The answer to one request.
pub struct OAuthReply {
    /// The query handed to the front end, for a request to `/callback`.
    pub emit: Option<String>,
    /// What is written back.
    pub response: String,
    /// Whether the server stops after this request.
    pub stop: bool,
}

/// The path of a request line: its second field, or `/`.
pub open spec fn request_path(request_line: Seq<char>) -> Seq<char> {
    if words(request_line).len() >= 2 {
        words(request_line)[1]
    } else {
        "/"@
    }
}

/// The query of a path: the text after the first `?`, or empty.
pub open spec fn query_of(path: Seq<char>) -> Seq<char> {
    match split_once(path, '?') {
        Some((_, q)) => q,
        None => seq![],
    }
}

/// The answer to a request line: for a path starting with `/callback`, the
/// query to hand on, the closing page, and stop; otherwise nothing to hand
/// on, the page that resends the fragment, and keep serving.
pub open spec fn oauth_answer(request_line: Seq<char>) -> (Option<Seq<char>>, Seq<char>, bool) {
    let path = request_path(request_line);
    if starts_with(path, "/callback"@) {
        (Some(query_of(path)), html_response(callback_body()), true)
    } else {
        (None, html_response(redirect_body()), false)
    }
}

fn html_response_exec(body: &str) -> (res: String)
    ensures
        res@ == html_response(body@),
{
    let n = body.len();
    let digits = string_of(&fmt_decimal(n as u128));
    cat(
        &cat(
            &cat(
                "HTTP/1.1 200 OK\r\nContent-Type: text/html; charset=utf-8\r\nContent-Length: ",
                &digits,
            ),
            "\r\nConnection: close\r\n\r\n",
        ),
        body,
    )
}

/// Answers one request of the OAuth loopback server: a request to
/// `/callback...` hands its query to the front end, gets the closing page and
/// stops the server; any other request gets the page that resends the URL
/// fragment as a query.
pub fn oauth_reply(request_line: &str) -> (res: OAuthReply)
    ensures
        (res.emit.deep_view(), res.response@, res.stop) == oauth_answer(request_line@),
{
    let parts = split_words(&chars_of(request_line));
    let path = if parts.len() >= 2 {
        parts[1].clone()
    } else {
        chars_of("/")
    };
    assert(path@ == request_path(request_line@));
    if starts_with_exec(&path, &chars_of("/callback")) {
        let query = match split_once_exec(&path, '?') {
            Some((_, q)) => string_of(&q),
            None => String::new(),
        };
        let response = html_response_exec(
            "<html><head><meta charset=\"utf-8\"></head><body style=\"font-family:sans-serif;text-align:center;padding-top:80px\"><h2>认证完成</h2><p>可以关闭此页面返回应用</p></body></html>",
        );
        OAuthReply { emit: Some(query), response, stop: true }
    } else {
        let response = html_response_exec(
            "<html><body><script>var h=window.location.hash.slice(1);window.location.replace('/callback?'+h);</script></body></html>",
        );
        OAuthReply { emit: None, response, stop: false }
    }
}


/// A request `<method> <path> HTTP/1.1` is answered by its path: a path
/// starting with `/callback` hands on the text after its first `?` (or
/// nothing), gets the closing page and stops the server; any other path gets
/// the page that resends the fragment to `/callback?`, and the server keeps
/// serving.
pub proof fn law_request_answer(method: Seq<char>, path: Seq<char>)
    requires
        method.len() > 0,
        path.len() > 0,
        forall|k: int| 0 <= k < method.len() ==> !is_ws(#[trigger] method[k]),
        forall|k: int| 0 <= k < path.len() ==> !is_ws(#[trigger] path[k]),
    ensures
        request_path(method + " "@ + path + " HTTP/1.1\r\n"@) == path,
        oauth_answer(method + " "@ + path + " HTTP/1.1\r\n"@) == (if starts_with(path, "/callback"@) {
            (Some(query_of(path)), html_response(callback_body()), true)
        } else {
            (None, html_response(redirect_body()), false)
        }),
{
    reveal_strlit(" ");
    reveal_strlit(" HTTP/1.1\r\n");
    let tail = " HTTP/1.1\r\n"@;
    let line = method + " "@ + path + tail;
    assert(is_ws(tail[0]));
    lemma_words_lead(path, tail);
    lemma_words_skip_ws(' ', path + tail);
    assert(" "@ + path + tail =~= seq![' '] + (path + tail));
    assert(line =~= method + (" "@ + path + tail));
    assert(is_ws((" "@ + path + tail)[0]));
    lemma_words_lead(method, " "@ + path + tail);
    assert(words(line) =~= seq![method] + (seq![path] + words(tail)));
}

} // verus!
