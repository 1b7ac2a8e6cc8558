//! The decisions of the `coviz quick` viewer's small web server: which
//! file a request asks for, and the response head.

use vstd::prelude::*;

use crate::text::{chars_of, decimal, decimal_text, push_char};

verus! {

/// The files that the viewer's server hands out.
#[derive(Debug, Clone, Copy, PartialEq, Eq, Structural)]
pub enum QuickAsset {
    Index,
    GraphJson,
    GraphDot,
    GraphSvg,
}

/// The characters that Rust's `char::is_whitespace` accepts (Unicode
/// White_Space).
pub open spec fn is_space(c: char) -> bool {
    let u = c as u32;
    (9 <= u <= 13) || u == 32 || u == 0x85 || u == 0xA0 || u == 0x1680 || (0x2000 <= u <= 0x200A)
        || u == 0x2028 || u == 0x2029 || u == 0x202F || u == 0x205F || u == 0x3000
}

/// The first line of a text: up to the first `\n`, without a `\r` just
/// before it; the whole text where there is no `\n`.
pub open spec fn first_line(s: Seq<char>) -> Seq<char> {
    let k = first_index_of(s, '\n');
    if k < 0 {
        s
    } else if k > 0 && s[k - 1] == '\r' {
        s.subrange(0, k - 1)
    } else {
        s.subrange(0, k)
    }
}

/// Index of the first `c` in `s`, or -1.
pub open spec fn first_index_of(s: Seq<char>, c: char) -> int
    decreases s.len(),
{
    if s.len() == 0 {
        -1
    } else if s[0] == c {
        0
    } else {
        let k = first_index_of(s.drop_first(), c);
        if k < 0 {
            -1
        } else {
            k + 1
        }
    }
}

/// The whitespace-separated words of a text.
pub open spec fn words(s: Seq<char>) -> Seq<Seq<char>>
    decreases s.len(),
{
    if s.len() == 0 {
        seq![]
    } else {
        let w = words(s.drop_last());
        let c = s.last();
        if is_space(c) {
            w
        } else if s.len() >= 2 && !is_space(s[s.len() - 2]) && w.len() > 0 {
            w.drop_last().push(w.last().push(c))
        } else {
            w.push(seq![c])
        }
    }
}

/// The path that a request asks for: the second word of its first line
/// (`/` without one), up to any `?`.
pub open spec fn request_path(request: Seq<char>) -> Seq<char> {
    let ws = words(first_line(request));
    let target = if ws.len() >= 2 {
        ws[1]
    } else {
        seq!['/']
    };
    let q = first_index_of(target, '?');
    if q < 0 {
        target
    } else {
        target.subrange(0, q)
    }
}

/// The asset at a request path, if any.
pub open spec fn asset_at(path: Seq<char>) -> Option<QuickAsset> {
    if path == "/"@ || path == "/index.html"@ {
        Some(QuickAsset::Index)
    } else if path == "/graph.json"@ {
        Some(QuickAsset::GraphJson)
    } else if path == "/graph.dot"@ {
        Some(QuickAsset::GraphDot)
    } else if path == "/graph.svg"@ {
        Some(QuickAsset::GraphSvg)
    } else {
        None
    }
}

/// The head of an HTTP response.
pub open spec fn response_head(status: Seq<char>, content_type: Seq<char>, length: nat) -> Seq<char> {
    "HTTP/1.1 "@ + status + "\r\nContent-Type: "@ + content_type + "\r\nContent-Length: "@ + decimal(
        length,
    ) + "\r\nConnection: close\r\n\r\n"@
}

fn is_space_char(c: char) -> (r: bool)
    ensures
        r == is_space(c),
{
    let u = c as u32;
    (9 <= u && u <= 13) || u == 32 || u == 0x85 || u == 0xA0 || u == 0x1680 || (0x2000 <= u && u
        <= 0x200A) || u == 0x2028 || u == 0x2029 || u == 0x202F || u == 0x205F || u == 0x3000
}

fn first_index_in(s: &Vec<char>, c: char) -> (r: Option<usize>)
    ensures
        match r {
            Some(i) => first_index_of(s@, c) == i && i < s@.len(),
            None => first_index_of(s@, c) == -1,
        },
{
    let mut i: usize = 0;
    assert(s@.skip(0) =~= s@);
    while i < s.len()
        invariant
            i <= s@.len(),
            first_index_of(s@, c) == if first_index_of(s@.skip(i as int), c) < 0 {
                -1
            } else {
                first_index_of(s@.skip(i as int), c) + i
            },
        decreases s.len() - i,
    {
        assert(s@.skip(i as int)[0] == s@[i as int]);
        if s[i] == c {
            return Some(i);
        }
        assert(s@.skip(i as int).drop_first() =~= s@.skip(i + 1));
        i = i + 1;
    }
    None
}

fn prefix_of(s: &Vec<char>, n: usize) -> (r: Vec<char>)
    requires
        n <= s@.len(),
    ensures
        r@ == s@.subrange(0, n as int),
{
    let mut r: Vec<char> = Vec::new();
    let mut i: usize = 0;
    while i < n
        invariant
            n <= s@.len(),
            i <= n,
            r@ == s@.subrange(0, i as int),
        decreases n - i,
    {
        r.push(s[i]);
        i = i + 1;
        assert(r@ =~= s@.subrange(0, i as int));
    }
    r
}

fn equals_literal(s: &Vec<char>, lit: &str) -> (r: bool)
    ensures
        r == (s@ == lit@),
{
    let l = chars_of(lit);
    if s.len() != l.len() {
        return false;
    }
    let mut i: usize = 0;
    while i < l.len()
        invariant
            s@.len() == l@.len(),
            l@ == lit@,
            i <= l@.len(),
            forall|j: int| 0 <= j < i ==> s@[j] == l@[j],
        decreases l.len() - i,
    {
        if s[i] != l[i] {
            return false;
        }
        i = i + 1;
    }
    assert(s@ =~= lit@);
    true
}

/// The path that a request asks for.
pub fn request_path_of(request: &str) -> (r: Vec<char>)
    ensures
        r@ == request_path(request@),
{
    let chars = chars_of(request);
    let line = match first_index_in(&chars, '\n') {
        None => chars,
        Some(k) => if k > 0 && chars[k - 1] == '\r' {
            prefix_of(&chars, k - 1)
        } else {
            prefix_of(&chars, k)
        },
    };
    assert(line@ == first_line(request@));
    let mut count: usize = 0;
    let mut second: Vec<char> = Vec::new();
    let mut i: usize = 0;
    while i < line.len()
        invariant
            i <= line@.len(),
            count == words(line@.subrange(0, i as int)).len(),
            count >= 2 ==> second@ == words(line@.subrange(0, i as int))[1],
            count < 2 ==> second@.len() == 0,
        decreases line.len() - i,
    {
        let c = line[i];
        let ghost pre = line@.subrange(0, i as int);
        let ghost next = line@.subrange(0, i + 1);
        assert(next.drop_last() =~= pre);
        assert(next.last() == c);
        proof {
            lemma_words_len(pre);
        }
        if !is_space_char(c) {
            let starts = i == 0 || is_space_char(line[i - 1]);
            if starts {
                count = count + 1;
            } else {
                assert(next[next.len() - 2] == line@[i - 1]);
            }
            if count == 2 {
                second.push(c);
            }
        }
        proof {
            if i > 0 {
                assert(next[next.len() - 2] == line@[i - 1]);
            }
        }
        i = i + 1;
    }
    assert(line@.subrange(0, i as int) =~= line@);
    let target = if count >= 2 {
        second
    } else {
        let mut slash: Vec<char> = Vec::new();
        slash.push('/');
        assert(slash@ =~= seq!['/']);
        slash
    };
    match first_index_in(&target, '?') {
        None => target,
        Some(q) => prefix_of(&target, q),
    }
}

/// A non-empty text ending in a non-space has words, and one more than the
/// text before its last word.
pub proof fn lemma_words_len(s: Seq<char>)
    ensures
        s.len() > 0 && !is_space(s.last()) ==> words(s).len() > 0,
        words(s).len() <= s.len(),
    decreases s.len(),
{
    if s.len() > 0 {
        lemma_words_len(s.drop_last());
    }
}

/// The asset that a request asks for, if any.
pub fn route_request(request: &str) -> (r: Option<QuickAsset>)
    ensures
        r == asset_at(request_path(request@)),
{
    let path = request_path_of(request);
    if equals_literal(&path, "/") || equals_literal(&path, "/index.html") {
        Some(QuickAsset::Index)
    } else if equals_literal(&path, "/graph.json") {
        Some(QuickAsset::GraphJson)
    } else if equals_literal(&path, "/graph.dot") {
        Some(QuickAsset::GraphDot)
    } else if equals_literal(&path, "/graph.svg") {
        Some(QuickAsset::GraphSvg)
    } else {
        None
    }
}

impl QuickAsset {
    /// The name of the asset's file in the viewer's workspace.
    pub open spec fn file_name_of(self) -> Seq<char> {
        match self {
            QuickAsset::Index => "index.html"@,
            QuickAsset::GraphJson => "graph.json"@,
            QuickAsset::GraphDot => "graph.dot"@,
            QuickAsset::GraphSvg => "graph.svg"@,
        }
    }

    /// The name of the asset's file in the viewer's workspace.
    pub fn file_name(self) -> (r: &'static str)
        ensures
            r@ == self.file_name_of(),
    {
        match self {
            QuickAsset::Index => "index.html",
            QuickAsset::GraphJson => "graph.json",
            QuickAsset::GraphDot => "graph.dot",
            QuickAsset::GraphSvg => "graph.svg",
        }
    }

    /// The content type that the asset is served with.
    pub open spec fn content_type_of(self) -> Seq<char> {
        match self {
            QuickAsset::Index => "text/html; charset=utf-8"@,
            QuickAsset::GraphJson => "application/json; charset=utf-8"@,
            QuickAsset::GraphDot => "text/vnd.graphviz; charset=utf-8"@,
            QuickAsset::GraphSvg => "image/svg+xml; charset=utf-8"@,
        }
    }

    /// The content type that the asset is served with.
    pub fn content_type(self) -> (r: &'static str)
        ensures
            r@ == self.content_type_of(),
    {
        match self {
            QuickAsset::Index => "text/html; charset=utf-8",
            QuickAsset::GraphJson => "application/json; charset=utf-8",
            QuickAsset::GraphDot => "text/vnd.graphviz; charset=utf-8",
            QuickAsset::GraphSvg => "image/svg+xml; charset=utf-8",
        }
    }

    /// The body answered, with `404 Not Found`, where the asset's file
    /// cannot be read; `None` where that failure ends the server.
    pub fn missing_body(self) -> (r: Option<&'static str>)
        ensures
            match self {
                QuickAsset::GraphSvg => r matches Some(b) && b@ == "graph.svg not found\n"@,
                _ => r is None,
            },
    {
        match self {
            QuickAsset::GraphSvg => Some("graph.svg not found\n"),
            _ => None,
        }
    }
}

/// How the viewer's server answers a request.
#[derive(Debug, Clone, Copy, PartialEq, Eq)]
pub enum QuickReply {
    /// `200 OK`, with the asset's file as the body.
    File(QuickAsset),
    /// `404 Not Found`, with this plain-text body.
    NotFound(&'static str),
}

/// The reply to a request for `asset` (`None`: nothing is served at the
/// path), where `readable` says whether the asset's file could be read;
/// `None` where the failed read ends the server.
pub fn quick_reply(asset: Option<QuickAsset>, readable: bool) -> (r: Option<QuickReply>)
    ensures
        match asset {
            None => r matches Some(QuickReply::NotFound(b)) && b@ == "not found\n"@,
            Some(a) => if readable {
                r == Some(QuickReply::File(a))
            } else {
                match a {
                    QuickAsset::GraphSvg => r matches Some(QuickReply::NotFound(b)) && b@ == "graph.svg not found\n"@,
                    _ => r is None,
                }
            },
        },
{
    match asset {
        None => Some(QuickReply::NotFound("not found\n")),
        Some(a) => if readable {
            Some(QuickReply::File(a))
        } else {
            match a.missing_body() {
                Some(b) => Some(QuickReply::NotFound(b)),
                None => None,
            }
        },
    }
}

impl QuickReply {
    /// The status of the reply.
    pub fn status(self) -> (r: &'static str)
        ensures
            r@ == match self {
                QuickReply::File(_) => "200 OK"@,
                QuickReply::NotFound(_) => "404 Not Found"@,
            },
    {
        match self {
            QuickReply::File(_) => "200 OK",
            QuickReply::NotFound(_) => "404 Not Found",
        }
    }

    /// The content type of the reply: the asset's, or plain text.
    pub fn content_type(self) -> (r: &'static str)
        ensures
            match self {
                QuickReply::File(a) => r@ == a.content_type_of(),
                QuickReply::NotFound(_) => r@ == "text/plain; charset=utf-8"@,
            },
    {
        match self {
            QuickReply::File(a) => a.content_type(),
            QuickReply::NotFound(_) => "text/plain; charset=utf-8",
        }
    }
}

/// The head of an HTTP response with the given status, content type and
/// body length.
pub fn http_response_head(status: &str, content_type: &str, length: usize) -> (r: String)
    ensures
        r@ == response_head(status@, content_type@, length as nat),
{
    let mut r = String::new();
    r.append("HTTP/1.1 ");
    r.append(status);
    r.append("\r\nContent-Type: ");
    r.append(content_type);
    r.append("\r\nContent-Length: ");
    let digits = decimal_text(length as u128);
    r.append(digits.as_str());
    r.append("\r\nConnection: close\r\n\r\n");
    r
}

/// The name of the viewer's temporary workspace directory:
/// `coviz-<milliseconds>-<process id>`.
pub fn quick_workspace_name(millis: u128, pid: u32) -> (r: String)
    ensures
        r@ == "coviz-"@ + decimal(millis as nat) + seq!['-'] + decimal(pid as nat),
{
    let mut r = String::new();
    r.append("coviz-");
    let m = decimal_text(millis);
    r.append(m.as_str());
    push_char(&mut r, '-');
    let p = decimal_text(pid as u128);
    r.append(p.as_str());
    r
}

/// The viewer's server reads no file but its four: a request is answered
/// from `index.html`, `graph.json`, `graph.dot` or `graph.svg` of the
/// workspace, each for its own path (`/` and `/index.html` for the first),
/// and every other path, whatever it holds, has no asset (and is answered
/// `404 Not Found` with `not found`, as `quick_reply` says).
pub proof fn law_quick_requests(request: Seq<char>)
    ensures
        asset_at(request_path(request)) matches Some(a) ==> a.file_name_of() == "index.html"@ || a.file_name_of()
            == "graph.json"@ || a.file_name_of() == "graph.dot"@ || a.file_name_of() == "graph.svg"@,
        asset_at(request_path(request)) == Some(QuickAsset::Index) <==> (request_path(request) == "/"@
            || request_path(request) == "/index.html"@),
        asset_at(request_path(request)) == Some(QuickAsset::GraphJson) <==> request_path(request) == "/graph.json"@,
        asset_at(request_path(request)) == Some(QuickAsset::GraphDot) <==> request_path(request) == "/graph.dot"@,
        asset_at(request_path(request)) == Some(QuickAsset::GraphSvg) <==> request_path(request) == "/graph.svg"@,
        asset_at(request_path(request)) is None <==> !(request_path(request) == "/"@ || request_path(request)
            == "/index.html"@ || request_path(request) == "/graph.json"@ || request_path(request) == "/graph.dot"@
            || request_path(request) == "/graph.svg"@),
{
    reveal_strlit("/");
    reveal_strlit("/index.html");
    reveal_strlit("/graph.json");
    reveal_strlit("/graph.dot");
    reveal_strlit("/graph.svg");
    assert("/graph.json"@[1] != "/index.html"@[1]);
    assert("/graph.svg"@[7] != "/graph.dot"@[7]);
    assert("/graph.svg"@[1] != "/index.html"@[1]);
    assert("/graph.dot"@[1] != "/index.html"@[1]);
}

} // verus!
