//! Answers of the server that previews a rendered site.

use vstd::prelude::*;

use crate::path;
use crate::text;

verus! {

/// The file that stands for a directory.
pub const INDEX_HTML: &'static str = "index.html";

/// The path of a request, without what is asked of it.
pub open spec fn raw_path(url: Seq<char>) -> Seq<char> {
    url.take(text::first_index(url, '?'))
}

/// The components of a request's path, seen from the site.
pub open spec fn request_parts(url: Seq<char>) -> Seq<Seq<char>> {
    path::components_of(text::without_leading(raw_path(url), '/'))
}

/// Whether a component is a step up.
pub open spec fn is_step_up(part: Seq<char>) -> bool {
    part == ".."@
}

/// The names among components.
pub open spec fn names_in(parts: Seq<Seq<char>>) -> Seq<Seq<char>>
    decreases parts.len(),
{
    if parts.len() == 0 {
        Seq::empty()
    } else {
        let before = names_in(parts.drop_last());
        if path::is_name(parts.last()) {
            before.push(parts.last())
        } else {
            before
        }
    }
}

/// The path at the end of names, seen from a directory.
pub open spec fn descended(dir: Seq<char>, names: Seq<Seq<char>>) -> Seq<char>
    decreases names.len(),
{
    if names.len() == 0 {
        dir
    } else {
        path::path_joined(descended(dir, names.drop_last()), names.last())
    }
}

/// Whether a request asks for a path that steps up.
pub open spec fn steps_up(url: Seq<char>) -> bool {
    exists|i: int| 0 <= i < request_parts(url).len() && is_step_up(#[trigger] request_parts(url)[i])
}

/// The path of the site that a request names.
pub open spec fn named_path(output: Seq<char>, url: Seq<char>) -> Seq<char> {
    descended(output, names_in(request_parts(url)))
}

/// Whether a request asks for a directory: it names nothing, or ends with a slash.
pub open spec fn asks_for_directory(url: Seq<char>) -> bool {
    text::has_suffix(raw_path(url), "/"@) || names_in(request_parts(url)).len() == 0
}

/// The file to send, given whether the named path is a directory, and whether it would have an index
/// as one.
pub open spec fn sent_file(
    output: Seq<char>,
    url: Seq<char>,
    is_dir: bool,
    has_index: bool,
) -> Option<Seq<char>> {
    let named = named_path(output, url);
    if steps_up(url) {
        None
    } else if asks_for_directory(url) || is_dir || (path::extension_of(named) is None && has_index) {
        Some(path::path_joined(named, INDEX_HTML@))
    } else {
        Some(named)
    }
}

/// What has to be looked up to answer a request.
#[derive(Debug, Clone, PartialEq, Eq)]
pub struct RequestProbe {
    /// Is this a directory?
    pub named: String,
    /// Is this a file?
    pub index: String,
}

/// What a request names.
struct Request {
    named: String,
    directory: bool,
}

fn read_request(output_path: &str, url: &str) -> (out: Option<Request>)
    ensures
        match out {
            None => steps_up(url@),
            Some(request) => {
                &&& !steps_up(url@)
                &&& request.named@ == named_path(output_path@, url@)
                &&& request.directory == asks_for_directory(url@)
            },
        },
{
    let chars = text::chars_of(url);
    let end = text::find_char(&chars, 0, '?');
    assert(chars@.skip(0) =~= chars@);
    let raw = text::substring(&chars, 0, end);
    assert(url@.subrange(0, end as int) =~= raw_path(url@));
    let rel = text::trim_leading(raw.as_str(), '/');
    let parts = path::components(rel.as_str());
    let ghost wanted = request_parts(url@);
    let mut named = output_path.to_owned();
    let mut any = false;
    let mut i: usize = 0;
    assert(wanted.take(0) =~= Seq::empty());
    while i < parts.len()
        invariant
            i <= parts@.len(),
            wanted == request_parts(url@),
            text::views(parts@) =~= wanted,
            named@ == descended(output_path@, names_in(wanted.take(i as int))),
            any == (names_in(wanted.take(i as int)).len() > 0),
            forall|k: int| 0 <= k < i ==> !is_step_up(#[trigger] wanted[k]),
        decreases parts.len() - i,
    {
        let part = parts[i].as_str();
        let ghost before = names_in(wanted.take(i as int));
        proof {
            assert(part@ == text::views(parts@)[i as int]);
            assert(wanted.take(i + 1).drop_last() =~= wanted.take(i as int));
            assert(wanted.take(i + 1).last() == part@);
            reveal_strlit("..");
            assert(".."@ =~= seq!['.', '.']);
        }
        if text::text_eq(part, "..") {
            assert(is_step_up(wanted[i as int]));
            return None;
        }
        if path::name_component(part) {
            assert(before.push(part@).drop_last() =~= before);
            named = path::join(named.as_str(), part);
            any = true;
        }
        i += 1;
    }
    assert(wanted.take(i as int) =~= wanted);
    Some(Request { named, directory: text::ends_with(raw.as_str(), "/") || !any })
}

/// What has to be looked up to answer a request; nothing where it steps up.
pub fn request_probe(output_path: &str, url: &str) -> (out: Option<RequestProbe>)
    ensures
        match out {
            None => steps_up(url@),
            Some(probe) => {
                &&& !steps_up(url@)
                &&& probe.named@ == named_path(output_path@, url@)
                &&& probe.index@ == path::path_joined(named_path(output_path@, url@), INDEX_HTML@)
            },
        },
{
    match read_request(output_path, url) {
        Some(request) => {
            let index = path::join(request.named.as_str(), INDEX_HTML);
            Some(RequestProbe { named: request.named, index })
        },
        None => None,
    }
}

/// The file to send for a request, given whether the named path is a directory, and whether it would
/// have an index as one.
pub fn resolve_request_path(output_path: &str, url: &str, is_dir: bool, has_index: bool) -> (out:
    Option<String>)
    ensures
        text::optional(out) == sent_file(output_path@, url@, is_dir, has_index),
{
    let request = match read_request(output_path, url) {
        Some(request) => request,
        None => return None,
    };
    let index = request.directory || is_dir || (path::extension(request.named.as_str()).is_none()
        && has_index);
    if index {
        Some(path::join(request.named.as_str(), INDEX_HTML))
    } else {
        Some(request.named)
    }
}

/// The type of a file by its extension.
pub open spec fn type_by_extension(extension: Option<Seq<char>>) -> Option<Seq<char>> {
    match extension {
        None => None,
        Some(ext) => if ext == "css"@ {
            Some("text/css; charset=utf-8"@)
        } else if ext == "gif"@ {
            Some("image/gif"@)
        } else if ext == "htm"@ || ext == "html"@ {
            Some("text/html; charset=utf-8"@)
        } else if ext == "ico"@ {
            Some("image/x-icon"@)
        } else if ext == "jpeg"@ || ext == "jpg"@ {
            Some("image/jpeg"@)
        } else if ext == "js"@ || ext == "mjs"@ {
            Some("application/javascript; charset=utf-8"@)
        } else if ext == "json"@ {
            Some("application/json; charset=utf-8"@)
        } else if ext == "png"@ {
            Some("image/png"@)
        } else if ext == "svg"@ {
            Some("image/svg+xml"@)
        } else if ext == "txt"@ {
            Some("text/plain; charset=utf-8"@)
        } else if ext == "webp"@ {
            Some("image/webp"@)
        } else if ext == "xml"@ {
            Some("application/xml; charset=utf-8"@)
        } else {
            None
        },
    }
}

/// The type of a file.
pub fn content_type(file: &str) -> (out: Option<&'static str>)
    ensures
        match out {
            Some(name) => type_by_extension(path::extension_of(file@)) == Some(name@),
            None => type_by_extension(path::extension_of(file@)) is None,
        },
{
    let found = match path::extension(file) {
        Some(found) => found,
        None => return None,
    };
    let ext = found.as_str();
    if text::text_eq(ext, "css") {
        Some("text/css; charset=utf-8")
    } else if text::text_eq(ext, "gif") {
        Some("image/gif")
    } else if text::text_eq(ext, "htm") || text::text_eq(ext, "html") {
        Some("text/html; charset=utf-8")
    } else if text::text_eq(ext, "ico") {
        Some("image/x-icon")
    } else if text::text_eq(ext, "jpeg") || text::text_eq(ext, "jpg") {
        Some("image/jpeg")
    } else if text::text_eq(ext, "js") || text::text_eq(ext, "mjs") {
        Some("application/javascript; charset=utf-8")
    } else if text::text_eq(ext, "json") {
        Some("application/json; charset=utf-8")
    } else if text::text_eq(ext, "png") {
        Some("image/png")
    } else if text::text_eq(ext, "svg") {
        Some("image/svg+xml")
    } else if text::text_eq(ext, "txt") {
        Some("text/plain; charset=utf-8")
    } else if text::text_eq(ext, "webp") {
        Some("image/webp")
    } else if text::text_eq(ext, "xml") {
        Some("application/xml; charset=utf-8")
    } else {
        None
    }
}

/// How a request is made.
#[derive(Debug, Clone, Copy, PartialEq, Eq, Structural)]
pub enum RequestMethod {
    Get,
    Head,
    Other,
}

/// How a request is answered.
#[derive(Debug, Clone, PartialEq, Eq)]
pub enum Reply {
    /// With a status, and nothing else.
    Status(u16),
    /// With a file.
    File { path: String, content_type: Option<&'static str> },
}

/// Answers a request, given the file to send, if there is one, and whether that is a file.
pub fn handle_request(method: RequestMethod, file: Option<String>, is_file: bool) -> (out: Reply)
    ensures
        match (method, file) {
            (RequestMethod::Other, _) => out == Reply::Status(405),
            (_, None) => out == Reply::Status(400),
            (_, Some(file)) => if is_file {
                &&& out matches Reply::File { path, content_type }
                &&& path == file
                &&& match content_type {
                    Some(name) => type_by_extension(path::extension_of(file@)) == Some(name@),
                    None => type_by_extension(path::extension_of(file@)) is None,
                }
            } else {
                out == Reply::Status(404)
            },
        },
{
    match method {
        RequestMethod::Get | RequestMethod::Head => {},
        RequestMethod::Other => return Reply::Status(405),
    }
    let file = match file {
        Some(file) => file,
        None => return Reply::Status(400),
    };
    if !is_file {
        return Reply::Status(404);
    }
    let content_type = content_type(file.as_str());
    Reply::File { path: file, content_type }
}

/// The message for a site that was not rendered.
pub open spec fn missing_message(output: Seq<char>) -> Seq<char> {
    text::glued(
        seq![
            "preview output directory `"@,
            output,
            "` is missing; run `build-eips build` for this profile first"@,
        ],
    )
}

/// Whether there is a site to preview.
pub fn serve(output_path: &str, is_dir: bool) -> (out: Result<(), String>)
    ensures
        match out {
            Ok(_) => is_dir,
            Err(message) => !is_dir && message@ == missing_message(output_path@),
        },
{
    if is_dir {
        Ok(())
    } else {
        Err(
            text::wrap(
                "preview output directory `",
                output_path,
                "` is missing; run `build-eips build` for this profile first",
            ),
        )
    }
}

proof fn descending_appends(dir: Seq<char>, rel: Seq<char>, n: int)
    requires
        0 <= n <= path::components_of(rel).len(),
    ensures
        path::components_of(descended(dir, names_in(path::components_of(rel).take(n))))
            == path::components_of(dir) + names_in(path::components_of(rel).take(n)),
    decreases n,
{
    let parts = path::components_of(rel);
    if n == 0 {
        assert(parts.take(0) =~= Seq::empty());
        assert(path::components_of(dir) + Seq::<Seq<char>>::empty() =~= path::components_of(dir));
    } else {
        descending_appends(dir, rel, n - 1);
        let before = names_in(parts.take(n - 1));
        assert(parts.take(n).drop_last() =~= parts.take(n - 1));
        if path::is_name(parts[n - 1]) {
            let name = parts[n - 1];
            assert(before.push(name).drop_last() =~= before);
            path::name_is_one_component(rel, n - 1);
            path::join_appends_components(descended(dir, before), name);
            assert(path::components_of(dir) + before + seq![name] =~= path::components_of(dir)
                + before.push(name));
        }
    }
}

/// A request is answered with what stands below the site, whatever it asks for.
pub proof fn requests_stay_in_the_site(
    output: Seq<char>,
    url: Seq<char>,
    is_dir: bool,
    has_index: bool,
)
    ensures
        sent_file(output, url, is_dir, has_index) matches Some(file) ==> path::under(file, output),
{
    let rel = text::without_leading(raw_path(url), '/');
    let parts = path::components_of(rel);
    let named = named_path(output, url);
    assert(parts.take(parts.len() as int) =~= parts);
    descending_appends(output, rel, parts.len() as int);
    reveal_strlit("index.html");
    path::word_is_one_component(INDEX_HTML@);
    path::join_appends_components(named, INDEX_HTML@);
    let first = path::components_of(output);
    let with_index = path::components_of(path::path_joined(named, INDEX_HTML@));
    assert(path::components_of(named).take(first.len() as int) =~= first);
    assert(with_index.take(first.len() as int) =~= first);
}

proof fn names_of_names(parts: Seq<Seq<char>>)
    requires
        forall|i: int| 0 <= i < parts.len() ==> path::is_name(#[trigger] parts[i]),
    ensures
        names_in(parts) == parts,
    decreases parts.len(),
{
    if parts.len() > 0 {
        let before = parts.drop_last();
        assert forall|i: int| 0 <= i < before.len() implies path::is_name(#[trigger] before[i]) by {
            assert(before[i] == parts[i]);
        }
        names_of_names(before);
        assert(path::is_name(parts[parts.len() - 1]));
        assert(names_in(parts) =~= parts);
    } else {
        assert(names_in(parts) =~= parts);
    }
}

/// A request whose path, up to a question mark and without slashes at its start, is made of names is
/// answered with the file of those names below the site; with the `index.html` below it where the
/// path ends with a slash or names nothing, where that is a directory, and where it has no extension
/// and such a file is there. A path that steps up is not answered.
#[verifier::rlimit(60)]
pub proof fn requests_name_their_file(
    output: Seq<char>,
    url: Seq<char>,
    asked: Seq<char>,
    is_dir: bool,
    has_index: bool,
)
    requires
        forall|i: int| 0 <= i < asked.len() ==> asked[i] != '?',
        url == asked || (url.len() > asked.len() && url.take(asked.len() as int) == asked
            && url[asked.len() as int] == '?'),
    ensures
        ({
            let parts = path::components_of(text::without_leading(asked, '/'));
            let out = sent_file(output, url, is_dir, has_index);
            let below = path::components_of(output) + parts;
            &&& (exists|i: int| 0 <= i < parts.len() && #[trigger] parts[i] == ".."@) ==> out is None
            &&& (forall|i: int| 0 <= i < parts.len() ==> path::is_name(#[trigger] parts[i])) ==> (
            out matches Some(file) && path::components_of(file) == (if parts.len() == 0 || (
            asked.len() > 0 && asked.last() == '/') || is_dir || (path::extension_of(
                named_path(output, url),
            ) is None && has_index) {
                below.push("index.html"@)
            } else {
                below
            }))
        }),
{
    assert forall|i: int| 0 <= i < asked.len() implies url[i] != '?' by {
        assert(url.take(asked.len() as int)[i] == url[i]);
        assert(asked[i] != '?');
    }
    text::first_index_unique(url, '?', asked.len() as int);
    assert(raw_path(url) =~= asked);
    let rel = text::without_leading(asked, '/');
    let parts = path::components_of(rel);
    let named = named_path(output, url);
    reveal_strlit("..");
    reveal_strlit("/");
    assert(".."@ =~= seq!['.', '.']);
    if exists|i: int| 0 <= i < parts.len() && #[trigger] parts[i] == ".."@ {
        let i = choose|i: int| 0 <= i < parts.len() && #[trigger] parts[i] == ".."@;
        assert(is_step_up(request_parts(url)[i]));
    }
    if forall|i: int| 0 <= i < parts.len() ==> path::is_name(#[trigger] parts[i]) {
        names_of_names(parts);
        assert(parts.take(parts.len() as int) =~= parts);
        descending_appends(output, rel, parts.len() as int);
        reveal_strlit("index.html");
        path::word_is_one_component(INDEX_HTML@);
        path::join_appends_components(named, INDEX_HTML@);
        let below = path::components_of(output) + parts;
        assert(below + seq![INDEX_HTML@] =~= below.push("index.html"@));
        assert(!steps_up(url)) by {
            if steps_up(url) {
                let i = choose|i: int|
                    0 <= i < request_parts(url).len() && is_step_up(
                        #[trigger] request_parts(url)[i],
                    );
                assert(path::is_name(parts[i]));
            }
        }
        if asked.len() > 0 {
            assert(asked.skip(asked.len() - 1)[0] == asked.last());
            if asked.last() == '/' {
                assert(asked.skip(asked.len() - 1) =~= "/"@);
            }
        }
        assert(text::has_suffix(asked, "/"@) <==> asked.len() > 0 && asked.last() == '/');
    }
}

/// What stands behind a question mark does not matter to the file that is sent.
pub proof fn queries_do_not_matter(
    output: Seq<char>,
    asked: Seq<char>,
    query: Seq<char>,
    is_dir: bool,
    has_index: bool,
)
    requires
        forall|i: int| 0 <= i < asked.len() ==> asked[i] != '?',
    ensures
        sent_file(output, asked.push('?') + query, is_dir, has_index) == sent_file(
            output,
            asked,
            is_dir,
            has_index,
        ),
{
    let url = asked.push('?') + query;
    text::first_index_unique(url, '?', asked.len() as int);
    text::first_index_unique(asked, '?', asked.len() as int);
    assert(url.take(asked.len() as int) =~= asked);
    assert(asked.take(asked.len() as int) =~= asked);
}

/// Pages, styles, scripts, data, texts and images are sent as what their extension says they are.
#[verifier::rlimit(60)]
pub proof fn files_are_sent_with_their_type()
    ensures
        type_by_extension(Some("html"@)) == Some("text/html; charset=utf-8"@),
        type_by_extension(Some("htm"@)) == Some("text/html; charset=utf-8"@),
        type_by_extension(Some("css"@)) == Some("text/css; charset=utf-8"@),
        type_by_extension(Some("js"@)) == Some("application/javascript; charset=utf-8"@),
        type_by_extension(Some("mjs"@)) == Some("application/javascript; charset=utf-8"@),
        type_by_extension(Some("json"@)) == Some("application/json; charset=utf-8"@),
        type_by_extension(Some("xml"@)) == Some("application/xml; charset=utf-8"@),
        type_by_extension(Some("txt"@)) == Some("text/plain; charset=utf-8"@),
        type_by_extension(Some("svg"@)) == Some("image/svg+xml"@),
        type_by_extension(Some("png"@)) == Some("image/png"@),
        type_by_extension(Some("jpg"@)) == Some("image/jpeg"@),
        type_by_extension(Some("jpeg"@)) == Some("image/jpeg"@),
        type_by_extension(Some("gif"@)) == Some("image/gif"@),
        type_by_extension(Some("webp"@)) == Some("image/webp"@),
        type_by_extension(Some("ico"@)) == Some("image/x-icon"@),
        type_by_extension(None) is None,
{
    reveal_strlit("html");
    reveal_strlit("htm");
    reveal_strlit("css");
    reveal_strlit("js");
    reveal_strlit("mjs");
    reveal_strlit("json");
    reveal_strlit("xml");
    reveal_strlit("txt");
    reveal_strlit("svg");
    reveal_strlit("png");
    reveal_strlit("jpg");
    reveal_strlit("jpeg");
    reveal_strlit("gif");
    reveal_strlit("webp");
    reveal_strlit("ico");
    assert("html"@[0] == 'h' && "htm"@[0] == 'h' && "css"@[0] == 'c' && "js"@[0] == 'j');
    assert("mjs"@[0] == 'm' && "json"@[0] == 'j' && "xml"@[0] == 'x' && "txt"@[0] == 't');
    assert("svg"@[0] == 's' && "png"@[0] == 'p' && "jpg"@[0] == 'j' && "jpeg"@[0] == 'j');
    assert("gif"@[0] == 'g' && "webp"@[0] == 'w' && "ico"@[0] == 'i');
    assert("jpeg"@[1] == 'p' && "jpg"@[1] == 'p' && "json"@[1] == 's' && "js"@[1] == 's');
    assert("json"@.len() == 4 && "js"@.len() == 2 && "mjs"@.len() == 3);
    assert("json"@ != "jpeg"@ && "json"@ != "jpg"@ && "json"@ != "js"@ && "json"@ != "mjs"@);
}

/// A file with any other extension is sent without a type.
pub proof fn other_files_are_sent_without_a_type(extension: Seq<char>)
    requires
        extension != "html"@ && extension != "htm"@ && extension != "css"@ && extension != "js"@,
        extension != "mjs"@ && extension != "json"@ && extension != "xml"@ && extension != "txt"@,
        extension != "svg"@ && extension != "png"@ && extension != "jpg"@ && extension != "jpeg"@,
        extension != "gif"@ && extension != "webp"@ && extension != "ico"@,
    ensures
        type_by_extension(Some(extension)) is None,
{
}

} // verus!
