//! The requests sent to the remote market API: their URLs, headers and the
//! `POST /books` body.
use vstd::prelude::*;
use crate::types::BookTokenParam;

verus! {

/// The browser user agent the API is addressed with.
pub open spec fn user_agent() -> Seq<char> {
    "Mozilla/5.0 (Macintosh; Intel Mac OS X 10_15_7) AppleWebKit/537.36 (KHTML, like Gecko) Chrome/126.0.0.0 Safari/537.36"@
}

/// The headers of `POST /books` for base URL `base`, in order.
pub open spec fn books_header_list(base: Seq<char>) -> Seq<(Seq<char>, Seq<char>)> {
    seq![
        ("User-Agent"@, user_agent()),
        ("Accept"@, "application/json, text/plain, */*"@),
        ("Accept-Language"@, "en-US,en;q=0.9"@),
        ("Origin"@, base),
        ("Referer"@, base + "/"@),
    ]
}

/// The URL of `POST /books`.
pub fn books_url(base: &String) -> (r: String)
    ensures
        r@ == base@ + "/books"@,
{
    base.clone().concat("/books")
}

/// The URL of `GET /book` for one token.
pub fn book_url(base: &String, token_id: &String) -> (r: String)
    ensures
        r@ == base@ + "/book?token_id="@ + token_id@,
{
    base.clone().concat("/book?token_id=").concat(token_id.as_str())
}

/// The body of `POST /books`: one `{token_id}` per token, in order,
/// duplicates kept.
pub fn books_body(tokens: &Vec<String>) -> (r: Vec<BookTokenParam>)
    ensures
        r@.len() == tokens@.len(),
        forall|i: int| 0 <= i < tokens@.len() ==> (#[trigger] r@[i]).token_id == tokens@[i],
{
    let mut out: Vec<BookTokenParam> = Vec::new();
    let mut i: usize = 0;
    while i < tokens.len()
        invariant
            i <= tokens@.len(),
            out@.len() == i,
            forall|j: int| 0 <= j < i ==> (#[trigger] out@[j]).token_id == tokens@[j],
        decreases tokens@.len() - i,
    {
        out.push(BookTokenParam { token_id: tokens[i].clone() });
        i = i + 1;
    }
    out
}

fn header(name: &str, value: String) -> (r: (String, String))
    ensures
        r.0@ == name@,
        r.1@ == value@,
{
    (String::from_str(name), value)
}

/// The headers of `POST /books`: a browser's user agent and accept headers,
/// and the base URL as origin and referer.
pub fn books_headers(base: &String) -> (r: Vec<(String, String)>)
    ensures
        r@.len() == 5,
        forall|i: int| 0 <= i < 5 ==> (#[trigger] r@[i]).0@ == books_header_list(base@)[i].0 && r@[i].1@
            == books_header_list(base@)[i].1,
{
    let mut out: Vec<(String, String)> = Vec::new();
    out.push(header("User-Agent", String::from_str(
        "Mozilla/5.0 (Macintosh; Intel Mac OS X 10_15_7) AppleWebKit/537.36 (KHTML, like Gecko) Chrome/126.0.0.0 Safari/537.36",
    )));
    out.push(header("Accept", String::from_str("application/json, text/plain, */*")));
    out.push(header("Accept-Language", String::from_str("en-US,en;q=0.9")));
    out.push(header("Origin", base.clone()));
    out.push(header("Referer", base.clone().concat("/")));
    out
}

} // verus!
