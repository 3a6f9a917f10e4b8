//! The preview server's requests, responses and URLs.
use vstd::prelude::*;
use crate::text::{chars_of, owned, push_all, push_str, string_of};

verus! {

/// The content type served for a file extension.
pub open spec fn content_type_text(extension: Option<Seq<char>>) -> Seq<char> {
    match extension {
        Some(e) => if e == "html"@ {
            "text/html; charset=utf-8"@
        } else if e == "css"@ {
            "text/css; charset=utf-8"@
        } else if e == "js"@ {
            "text/javascript; charset=utf-8"@
        } else if e == "json"@ {
            "application/json; charset=utf-8"@
        } else if e == "png"@ {
            "image/png"@
        } else if e == "jpg"@ || e == "jpeg"@ {
            "image/jpeg"@
        } else if e == "svg"@ {
            "image/svg+xml"@
        } else {
            "application/octet-stream"@
        },
        None => "application/octet-stream"@,
    }
}

pub fn content_type(extension: Option<&str>) -> (r: &'static str)
    ensures
        r@ == content_type_text(match extension {
            Some(e) => Some(e@),
            None => None,
        }),
{
    match extension {
        Some(e) => {
            let is = |w: &str| -> (b: bool)
                ensures
                    b == (e@ == w@),
                { crate::text::same_text(e, w) };
            if is("html") {
                "text/html; charset=utf-8"
            } else if is("css") {
                "text/css; charset=utf-8"
            } else if is("js") {
                "text/javascript; charset=utf-8"
            } else if is("json") {
                "application/json; charset=utf-8"
            } else if is("png") {
                "image/png"
            } else if is("jpg") || is("jpeg") {
                "image/jpeg"
            } else if is("svg") {
                "image/svg+xml"
            } else {
                "application/octet-stream"
            }
        },
        None => "application/octet-stream",
    }
}

/// The file an HTTP request asks for: the target of its request line,
/// without leading slashes; `index.html` for the root.
pub open spec fn requested_path(request: Seq<char>) -> Seq<char> {
    let ls = crate::text::lines(request);
    let target = if ls.len() > 0 && crate::text::words(ls[0]).len() > 1 {
        crate::text::words(ls[0])[1]
    } else {
        "/"@
    };
    let p = crate::text::trim_set_start(target, seq!['/']);
    if p.len() == 0 {
        "index.html"@
    } else {
        p
    }
}

pub fn request_path(request: &str) -> (r: String)
    ensures
        r@ == requested_path(request@),
{
    let ls = crate::text::lines_of(&chars_of(request));
    let target = if ls.len() > 0 {
        let ws = crate::text::words_of(&ls[0]);
        if ws.len() > 1 {
            let t = crate::text::slice_chars(&ws[1], 0, ws[1].len());
            assert(t@ =~= ws@[1]@);
            t
        } else {
            chars_of("/")
        }
    } else {
        chars_of("/")
    };
    let slash = vec!['/'];
    assert(slash@ =~= seq!['/']);
    let p = crate::text::trim_set_start_exec(&target, &slash);
    if p.len() == 0 {
        owned("index.html")
    } else {
        string_of(&p)
    }
}

/// The URL a file is previewed at.
/// Whether a path, relative to the workspace, climbs out of it: one of its
/// `/`-separated components is `..`.
pub open spec fn climbs_out(relative: Seq<char>) -> bool {
    exists|i: int|
        0 <= i < crate::text::split_on(relative, '/').len() && #[trigger] crate::text::split_on(
            relative,
            '/',
        )[i] == ".."@
}

/// The workspace-relative path that a preview request names: leading `/` and
/// `\\` removed; refused when it climbs out of the workspace.
pub fn preview_relative_path(path: &str) -> (r: Result<String, String>)
    ensures
        ({
            let relative = crate::text::trim_set_start(path@, seq!['/', '\\']);
            match r {
                Ok(s) => !climbs_out(relative) && s@ == relative,
                Err(m) => climbs_out(relative) && m@ == "preview path is outside workspace"@,
            }
        }),
{
    let seps = vec!['/', '\\'];
    assert(seps@ =~= seq!['/', '\\']);
    let rel = crate::text::trim_set_start_exec(&chars_of(path), &seps);
    let parts = crate::text::split_on_exec(&rel, '/');
    let mut i: usize = 0;
    while i < parts.len()
        invariant
            i <= parts@.len(),
            rel@ == crate::text::trim_set_start(path@, seq!['/', '\\']),
            crate::text::views(parts@) == crate::text::split_on(rel@, '/'),
            forall|k: int| 0 <= k < i ==> crate::text::split_on(rel@, '/')[k] != ".."@,
        decreases parts.len() - i,
    {
        assert(crate::text::views(parts@)[i as int] == parts@[i as int]@);
        if crate::text::eq_str(&parts[i], "..") {
            assert(crate::text::split_on(rel@, '/')[i as int] == ".."@);
            assert(climbs_out(rel@));
            return Err(owned("preview path is outside workspace"));
        }
        i = i + 1;
    }
    Ok(string_of(&rel))
}

pub open spec fn preview_url_text(port: u16, path: Seq<char>) -> Seq<char> {
    "http://127.0.0.1:"@ + crate::text::decimal(port as nat) + "/"@ + crate::text::replace_char(
        crate::text::trim_set_start(path, seq!['/', '\\']),
        '\\',
        '/',
    )
}

pub fn preview_url(port: u16, path: &str) -> (r: String)
    ensures
        r@ == preview_url_text(port, path@),
{
    let mut out = chars_of("http://127.0.0.1:");
    push_all(&mut out, &crate::text::usize_to_chars(port as usize));
    push_str(&mut out, "/");
    let seps = vec!['/', '\\'];
    assert(seps@ =~= seq!['/', '\\']);
    let rel = crate::text::trim_set_start_exec(&chars_of(path), &seps);
    push_all(&mut out, &crate::text::replace_char_exec(&rel, '\\', '/'));
    string_of(&out)
}

/// The head of a successful response.
pub open spec fn ok_head(content_type: Seq<char>, length: usize) -> Seq<char> {
    "HTTP/1.1 200 OK\r\nContent-Type: "@ + content_type + "\r\nContent-Length: "@
        + crate::text::decimal(length as nat) + "\r\n\r\n"@
}

pub fn ok_response_head(content_type: &str, length: usize) -> (r: String)
    ensures
        r@ == ok_head(content_type@, length),
{
    let mut out = chars_of("HTTP/1.1 200 OK\r\nContent-Type: ");
    push_str(&mut out, content_type);
    push_str(&mut out, "\r\nContent-Length: ");
    push_all(&mut out, &crate::text::usize_to_chars(length));
    push_str(&mut out, "\r\n\r\n");
    string_of(&out)
}

pub open spec fn not_found_text() -> Seq<char> {
    "HTTP/1.1 404 Not Found\r\nContent-Length: 9\r\n\r\nNot found"@
}

/// The whole response for a missing file.
pub fn not_found_response() -> (r: &'static str)
    ensures
        r@ == not_found_text(),
{
    "HTTP/1.1 404 Not Found\r\nContent-Length: 9\r\n\r\nNot found"
}

} // verus!
