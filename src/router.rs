//! Dispatch of inbound request paths, and where static assets are looked up.
use vstd::prelude::*;

verus! {

/// Where a request goes.
#[derive(Clone, Copy, Debug, PartialEq, Eq, Structural)]
pub enum Route {
    /// The health check: answered with a fixed acknowledgment.
    Echo,
    /// The API: handled by the generation pipeline.
    Api,
    /// Anything else: served from the static asset directory.
    Static,
}

/// Whether a `.` segment (the current directory) starts at `i`.
pub open spec fn is_dot_segment(path: Seq<char>, i: int) -> bool {
    path[i] == '.' && (i + 1 == path.len() || path[i + 1] == '/')
}

/// Where the first real segment of `path` from `i` on begins: slashes and
/// `.` segments are passed over, as path components do.
pub open spec fn segment_start(path: Seq<char>, i: int) -> int
    decreases path.len() - i,
{
    if i < 0 || i >= path.len() {
        i
    } else if path[i] == '/' || is_dot_segment(path, i) {
        segment_start(path, i + 1)
    } else {
        i
    }
}

/// The position of the first slash of `path` from `i` on, or the length of
/// `path`.
pub open spec fn next_slash(path: Seq<char>, i: int) -> int
    decreases path.len() - i,
{
    if i >= path.len() || path[i] == '/' {
        i
    } else {
        next_slash(path, i + 1)
    }
}

/// The first segment of a path: what stands between the leading slashes
/// (and `.` segments) and the next slash.
pub open spec fn first_segment(path: Seq<char>) -> Seq<char> {
    let start = segment_start(path, 0);
    path.subrange(start, next_slash(path, start))
}

/// The route that serves `path`.
pub open spec fn route_of(path: Seq<char>) -> Route {
    let seg = first_segment(path);
    if seg == seq!['e', 'c', 'h', 'o'] {
        Route::Echo
    } else if seg == seq!['v', '1'] {
        Route::Api
    } else {
        Route::Static
    }
}

/// Whether `path` holds exactly `word` between `from` and `to`.
fn segment_is(path: &str, from: usize, to: usize, word: &str) -> (r: bool)
    requires
        from <= to <= path@.len(),
    ensures
        r == (path@.subrange(from as int, to as int) == word@),
{
    let n = word.unicode_len();
    if to - from != n {
        return false;
    }
    let mut i: usize = 0;
    while i < n
        invariant
            from <= to <= path@.len(),
            to - from == n,
            n == word@.len(),
            i <= n,
            forall|j: int| 0 <= j < i ==> path@[from + j] == word@[j],
        decreases n - i,
    {
        if path.get_char(from + i) != word.get_char(i) {
            assert(path@.subrange(from as int, to as int)[i as int] != word@[i as int]);
            return false;
        }
        i = i + 1;
    }
    assert(path@.subrange(from as int, to as int) =~= word@);
    true
}

/// Routes a request path by its first segment: `echo` is the health check,
/// `v1` the API, anything else a static asset.
pub fn route(path: &str) -> (r: Route)
    ensures
        r == route_of(path@),
{
    let len = path.unicode_len();
    let mut start: usize = 0;
    loop
        invariant
            start <= len == path@.len(),
            segment_start(path@, start as int) == segment_start(path@, 0),
        ensures
            start <= len,
            start == segment_start(path@, 0),
        decreases len - start,
    {
        if start >= len {
            break;
        }
        let c = path.get_char(start);
        let skip = c == '/' || (c == '.' && (start + 1 == len || path.get_char(start + 1) == '/'));
        if !skip {
            break;
        }
        start = start + 1;
    }
    let mut end: usize = start;
    while end < len && path.get_char(end) != '/'
        invariant
            start <= end <= len == path@.len(),
            next_slash(path@, end as int) == next_slash(path@, start as int),
        decreases len - end,
    {
        end = end + 1;
    }
    assert(end == next_slash(path@, start as int));
    proof {
        reveal_strlit("echo");
        reveal_strlit("v1");
        assert("echo"@ =~= seq!['e', 'c', 'h', 'o']);
        assert("v1"@ =~= seq!['v', '1']);
    }
    if segment_is(path, start, end, "echo") {
        Route::Echo
    } else if segment_is(path, start, end, "v1") {
        Route::Api
    } else {
        Route::Static
    }
}

/// The asset that a static path names: the index page for the root.
pub open spec fn asset_path(path: Seq<char>) -> Seq<char> {
    if path == seq!['/'] {
        "/index.html"@
    } else {
        path
    }
}

/// A name for the media type that mime_guess assigns to a path.
pub uninterp spec fn guessed_content_type(path: Seq<char>) -> Seq<char>;

/// Relies on mime_guess::from_path and MimeGuess::first_or_text_plain: the
/// media type is looked up from the path's extension in a fixed table, with
/// text/plain when the extension is missing or unknown.
#[verifier::external_body]
fn content_type_of(path: &str) -> (r: String)
    ensures
        r@ == guessed_content_type(path@),
{
    mime_guess::from_path(path).first_or_text_plain().to_string()
}

/// How to serve a static asset: the file to read with its media type, and
/// the page to send with `text/html` when that file cannot be read.
#[derive(Debug)]
pub struct StaticPlan {
    pub file: String,
    pub content_type: String,
    pub not_found_file: String,
}

/// Plans serving the static asset at `path` from the directory `root`.
pub fn plan_static(path: &str, root: &str) -> (r: StaticPlan)
    ensures
        r.file@ == root@ + "/"@ + asset_path(path@),
        r.content_type@ == guessed_content_type(asset_path(path@)),
        r.not_found_file@ == root@ + "/404.html"@,
{
    proof {
        reveal_strlit("/");
    }
    let is_root = path.unicode_len() == 1 && path.get_char(0) == '/';
    let asset: &str = if is_root {
        assert(path@ =~= seq!['/']);
        "/index.html"
    } else {
        assert(path@ != seq!['/']) by {
            if path@ == seq!['/'] {
                assert(path@[0] == '/');
            }
        }
        path
    };
    let mut file = String::from_str(root);
    file.append("/");
    file.append(asset);
    let content_type = content_type_of(asset);
    let mut not_found_file = String::from_str(root);
    not_found_file.append("/404.html");
    StaticPlan { file, content_type, not_found_file }
}

/// What to send for a static asset.
#[derive(Debug)]
pub struct StaticReply {
    pub status: u16,
    pub content_type: String,
    pub body: Vec<u8>,
}

/// The reply for a static asset, given what reading the planned file gave
/// and, when that failed, what reading the not-found page gave: the file
/// with its media type and status 200, or else status 404 with the
/// not-found page (empty when it could not be read either) as `text/html`.
pub fn static_reply(plan: StaticPlan, file: Option<Vec<u8>>, not_found_page: Option<Vec<u8>>) -> (r:
    StaticReply)
    ensures
        match file {
            Some(content) => r.status == 200 && r.content_type@ == plan.content_type@ && r.body@
                == content@,
            None => r.status == 404 && r.content_type@ == "text/html"@ && r.body@ == match not_found_page {
                Some(page) => page@,
                None => Seq::<u8>::empty(),
            },
        },
{
    match file {
        Some(content) => StaticReply { status: 200, content_type: plan.content_type, body: content },
        None => {
            let body = match not_found_page {
                Some(page) => page,
                None => Vec::new(),
            };
            StaticReply { status: 404, content_type: String::from_str("text/html"), body }
        },
    }
}

} // verus!
