//! The logic of the built-in tools: reading their parameters, deciding what
//! to do, and phrasing the results. Reading and writing files is left to
//! the caller, which hands the library the contents and sizes it found.
use vstd::prelude::*;
use crate::params::{bool_or, str_or_empty, str_param, u64_param, Params};
use crate::paths::{extension_of, path_extension, path_strip_prefix, strip_path_prefix};
use crate::text::{
    texts, char_lines, chars_of, join, join_exec, slice_chars, split_lines, split_lines_exec, count_matches, count_matches_exec, dec_nat, extend_chars, extend_str, fmt_u128,
    fmt_u64, replace_all, replace_all_exec, replace_first, replace_first_exec, starts_with,
    str_eq, str_starts_with, string_of, utf8_len, utf8_len_exec,
};

verus! {

broadcast use vstd::string::group_string_axioms;

// ---------------------------------------------------------------------------
// Results and errors
// ---------------------------------------------------------------------------

/// What a tool reports back.
#[derive(Debug, Clone)]
pub struct ToolResult {
    pub tool_name: String,
    pub tool_id: String,
    pub success: bool,
    pub output: String,
    /// `minis://` URLs of files the tool touched.
    pub minis_urls: Vec<String>,
}

/// `r` reports `output` from the tool `name`, with no call id yet.
pub open spec fn reports(
    r: ToolResult,
    name: Seq<char>,
    success: bool,
    output: Seq<char>,
    urls: Seq<Seq<char>>,
) -> bool {
    &&& r.tool_name@ == name
    &&& r.tool_id@ == Seq::<char>::empty()
    &&& r.success == success
    &&& r.output@ == output
    &&& texts(r.minis_urls@) == urls
}

/// Why a tool call could not run; the message is shown to the model.
#[derive(Debug, Clone)]
pub struct ToolError {
    pub message: String,
}

impl ToolError {
    /// An error with the given message.
    pub fn new(message: &str) -> (e: ToolError)
        ensures
            e.message@ == message@,
    {
        ToolError { message: crate::text::owned(message) }
    }
}

/// `r` is the error whose message is `m`.
pub open spec fn fails_with<T>(r: Result<T, ToolError>, m: Seq<char>) -> bool {
    r matches Err(e) && e.message@ == m
}

impl ToolResult {
    /// A result of the tool `name` with no call id.
    pub fn report(name: &str, success: bool, output: Vec<char>, urls: Vec<String>) -> (r: ToolResult)
        ensures
            reports(r, name@, success, output@, texts(urls@)),
    {
        ToolResult {
            tool_name: crate::text::owned(name),
            tool_id: String::new(),
            success,
            output: string_of(&output),
            minis_urls: urls,
        }
    }
}

/// `a` followed by `b`.
fn joined(a: &str, b: &str) -> (r: Vec<char>)
    ensures
        r@ == a@ + b@,
{
    let mut r = chars_of(a);
    extend_str(&mut r, b);
    r
}

/// Where a path under `/var/minis/` is shown as a `minis://` URL.
pub open spec fn minis_urls_of(path: Seq<char>) -> Seq<Seq<char>> {
    match path_strip_prefix(path, "/var/minis/"@) {
        Some(rel) => seq!["minis://"@ + rel],
        None => Seq::empty(),
    }
}

/// The `minis://` URL of a path relative to `/var/minis/`.
pub fn minis_url_of(relative: &str) -> (u: String)
    ensures
        u@ == "minis://"@ + relative@,
{
    string_of(&joined("minis://", relative))
}

/// The `minis://` URLs of a file the tool touched: one when the path lies
/// under `/var/minis/`, none otherwise.
pub fn minis_urls_for(path: &str) -> (v: Vec<String>)
    ensures
        texts(v@) == minis_urls_of(path@),
{
    let mut v: Vec<String> = Vec::new();
    match strip_path_prefix(path, "/var/minis/") {
        Some(rel) => {
            v.push(minis_url_of(rel.as_str()));
            assert(texts(v@) =~= minis_urls_of(path@));
        },
        None => {
            assert(texts(v@) =~= minis_urls_of(path@));
        },
    }
    v
}

// ---------------------------------------------------------------------------
// file_edit
// ---------------------------------------------------------------------------

/// Replaces text in an existing file.
#[derive(Debug, Clone, Copy)]
pub struct FileEditTool;

/// A `file_edit` call with its parameters read.
#[derive(Debug, Clone)]
pub struct EditRequest {
    pub path: String,
    pub old_string: String,
    pub new_string: String,
    pub replace_all: bool,
}

/// What a `file_edit` call comes to once the file is read: new contents to
/// write and the result to report after writing, or a refusal.
#[derive(Debug, Clone)]
pub enum EditOutcome {
    Write { content: String, result: ToolResult },
    Refused(ToolResult),
}

/// The refusal when `old` does not occur exactly once and not every
/// occurrence is to be replaced.
pub open spec fn edit_refusal(path: Seq<char>, n: nat) -> Seq<char> {
    if n == 0 {
        "old_string not found in "@ + path
    } else {
        "old_string found "@ + dec_nat(n) + " times in "@ + path + " — use replace_all=true"@
    }
}

impl FileEditTool {
    /// The tool's name.
    pub fn name(&self) -> (r: &'static str)
        ensures
            r@ == "file_edit"@,
    {
        "file_edit"
    }

    /// Reads `path`, `old_string`, `new_string` (all required, in that
    /// order) and `replace_all` (false unless given as a boolean).
    pub fn request(&self, params: &Params) -> (r: Result<EditRequest, ToolError>)
        ensures
            ({
                let es = params.entries@;
                if str_param(es, "path"@) is None {
                    fails_with(r, "Missing 'path'"@)
                } else if str_param(es, "old_string"@) is None {
                    fails_with(r, "Missing 'old_string'"@)
                } else if str_param(es, "new_string"@) is None {
                    fails_with(r, "Missing 'new_string'"@)
                } else {
                    r matches Ok(q) && Some(q.path@) == str_param(es, "path"@) && Some(q.old_string@)
                        == str_param(es, "old_string"@) && Some(q.new_string@) == str_param(
                        es,
                        "new_string"@,
                    ) && q.replace_all == bool_or(es, "replace_all"@, false)
                }
            }),
    {
        let path = match params.get_str("path") {
            Some(p) => p,
            None => { return Err(ToolError::new("Missing 'path'")); },
        };
        let old_string = match params.get_str("old_string") {
            Some(p) => p,
            None => { return Err(ToolError::new("Missing 'old_string'")); },
        };
        let new_string = match params.get_str("new_string") {
            Some(p) => p,
            None => { return Err(ToolError::new("Missing 'new_string'")); },
        };
        let replace_all = params.bool_or("replace_all", false);
        Ok(EditRequest { path, old_string, new_string, replace_all })
    }

    /// Edits `content`, the file's text: every occurrence of `old_string`
    /// replaced when `replace_all` is set; otherwise the one occurrence,
    /// refusing when there is none or more than one.
    pub fn apply(&self, req: &EditRequest, content: &str) -> (o: EditOutcome)
        requires
            content@.len() < usize::MAX,
        ensures
            ({
                let n = count_matches(content@, req.old_string@);
                let done = "Edited "@ + req.path@;
                if req.replace_all {
                    o matches EditOutcome::Write { content: c, result } && c@ == replace_all(
                        content@,
                        req.old_string@,
                        req.new_string@,
                    ) && reports(result, "file_edit"@, true, done, Seq::empty())
                } else if n == 1 {
                    o matches EditOutcome::Write { content: c, result } && c@ == replace_first(
                        content@,
                        req.old_string@,
                        req.new_string@,
                    ) && reports(result, "file_edit"@, true, done, Seq::empty())
                } else {
                    o matches EditOutcome::Refused(result) && reports(
                        result,
                        "file_edit"@,
                        false,
                        edit_refusal(req.path@, n),
                        Seq::empty(),
                    )
                }
            }),
    {
        let text = chars_of(content);
        let old = chars_of(req.old_string.as_str());
        let new = chars_of(req.new_string.as_str());
        let no_urls: Vec<String> = Vec::new();
        assert(texts(no_urls@) =~= Seq::<Seq<char>>::empty());
        let new_text = if req.replace_all {
            replace_all_exec(&text, &old, &new)
        } else {
            let n = count_matches_exec(&text, &old);
            if n == 0 {
                let msg = joined("old_string not found in ", req.path.as_str());
                return EditOutcome::Refused(ToolResult::report("file_edit", false, msg, no_urls));
            }
            if n > 1 {
                let mut msg = chars_of("old_string found ");
                extend_chars(&mut msg, &fmt_u64(n as u64));
                extend_str(&mut msg, " times in ");
                extend_str(&mut msg, req.path.as_str());
                extend_str(&mut msg, " — use replace_all=true");
                return EditOutcome::Refused(ToolResult::report("file_edit", false, msg, no_urls));
            }
            replace_first_exec(&text, &old, &new)
        };
        let done = joined("Edited ", req.path.as_str());
        EditOutcome::Write {
            content: string_of(&new_text),
            result: ToolResult::report("file_edit", true, done, no_urls),
        }
    }
}

// ---------------------------------------------------------------------------
// file_read
// ---------------------------------------------------------------------------

/// Reads a file.
#[derive(Debug, Clone, Copy)]
pub struct FileReadTool;

/// Files larger than this many bytes are not read.
pub const MAX_READ_BYTES: u64 = 1_000_000;

/// A `file_read` call with its parameters read.
#[derive(Debug, Clone)]
pub struct ReadRequest {
    pub path: String,
    /// The line to start from, counted from 1 (0 reads as 1).
    pub offset: Option<u64>,
    /// The most lines to show.
    pub lines: Option<u64>,
}

/// Where the shown lines start, counted from 0.
pub open spec fn window_start(offset: Option<u64>) -> nat {
    match offset {
        Some(o) => if o >= 1 { (o - 1) as nat } else { 0 },
        None => 0,
    }
}

/// The part of the text `c` that `file_read` shows: all of it when neither
/// `offset` nor `lines` is given; else at most `lines` of its lines (as
/// `str::lines` splits them), from line `offset` on, joined by line breaks.
pub open spec fn read_window(c: Seq<char>, offset: Option<u64>, lines: Option<u64>) -> Seq<char> {
    if offset is None && lines is None {
        c
    } else {
        let ls = split_lines(c);
        let from = if window_start(offset) <= ls.len() {
            ls.skip(window_start(offset) as int)
        } else {
            Seq::empty()
        };
        let shown = match lines {
            Some(n) => if n < from.len() { from.take(n as int) } else { from },
            None => from,
        };
        join(shown, "\n"@)
    }
}

/// What `file_read` shows of a file of `size` bytes whose text, when it was
/// read and is valid UTF-8, is `content`.
pub open spec fn read_output(size: u64, content: Option<String>, offset: Option<u64>, lines: Option<u64>) -> Seq<char> {
    if size > MAX_READ_BYTES {
        "[File too large: "@ + dec_nat(size as nat) + " bytes]"@
    } else {
        match content {
            Some(c) => read_window(c@, offset, lines),
            None => "[Binary file or invalid UTF-8]"@,
        }
    }
}

/// The lines of `c` that `read_window` shows.
fn window_exec(c: &str, offset: Option<u64>, lines: Option<u64>) -> (r: Vec<char>)
    ensures
        r@ == read_window(c@, offset, lines),
{
    if offset.is_none() && lines.is_none() {
        return chars_of(c);
    }
    let ls = split_lines_exec(&chars_of(c));
    let ghost lv = char_lines(ls@);
    let start: u64 = match offset {
        Some(o) => if o >= 1 { o - 1 } else { 0 },
        None => 0,
    };
    let mut shown: Vec<Vec<char>> = Vec::new();
    if (start as u128) < (ls.len() as u128) {
        let from: usize = start as usize;
        let end: usize = match lines {
            Some(n) => if (n as u128) < ((ls.len() - from) as u128) { from + n as usize } else { ls.len() },
            None => ls.len(),
        };
        let mut i: usize = from;
        assert(char_lines(shown@) =~= lv.subrange(from as int, from as int));
        while i < end
            invariant
                from <= i <= end <= ls@.len(),
                lv == char_lines(ls@),
                char_lines(shown@) == lv.subrange(from as int, i as int),
            decreases end - i,
        {
            let ghost before = char_lines(shown@);
            let line = slice_chars(&ls[i], 0, ls[i].len());
            assert(line@ =~= lv[i as int]);
            shown.push(line);
            assert(char_lines(shown@) =~= before.push(lv[i as int]));
            assert(lv.subrange(from as int, i as int).push(lv[i as int]) =~= lv.subrange(from as int, i + 1));
            i = i + 1;
        }
        proof {
            let f = lv.skip(from as int);
            match lines {
                Some(n) => {
                    if n < f.len() {
                        assert(f.take(n as int) =~= lv.subrange(from as int, end as int));
                    } else {
                        assert(f =~= lv.subrange(from as int, end as int));
                    }
                },
                None => {
                    assert(f =~= lv.subrange(from as int, end as int));
                },
            }
        }
    } else {
        proof {
            if window_start(offset) == lv.len() {
                assert(lv.skip(lv.len() as int) =~= Seq::<Seq<char>>::empty());
            }
        }
        assert(char_lines(shown@) =~= Seq::<Seq<char>>::empty());
    }
    join_exec(&shown, &chars_of("\n"))
}

impl FileReadTool {
    /// The tool's name.
    pub fn name(&self) -> (r: &'static str)
        ensures
            r@ == "file_read"@,
    {
        "file_read"
    }

    /// Reads the required `path` parameter and the optional whole numbers
    /// `offset` and `lines`.
    pub fn request(&self, params: &Params) -> (r: Result<ReadRequest, ToolError>)
        ensures
            match str_param(params.entries@, "path"@) {
                Some(p) => r matches Ok(q) && q.path@ == p && q.offset == u64_param(params.entries@, "offset"@)
                    && q.lines == u64_param(params.entries@, "lines"@),
                None => fails_with(r, "Missing 'path' parameter"@),
            },
    {
        match params.get_str("path") {
            Some(p) => Ok(ReadRequest { path: p, offset: params.get_u64("offset"), lines: params.get_u64("lines") }),
            None => Err(ToolError::new("Missing 'path' parameter")),
        }
    }

    /// Whether a file of `size` bytes is read at all.
    pub fn reads(&self, size: u64) -> (r: bool)
        ensures
            r == (size <= MAX_READ_BYTES),
    {
        size <= MAX_READ_BYTES
    }

    /// The failure for a path that does not exist.
    pub fn not_found(&self, path: &str) -> (r: ToolResult)
        ensures
            reports(r, "file_read"@, false, "File not found: "@ + path@, Seq::empty()),
    {
        let no_urls: Vec<String> = Vec::new();
        assert(texts(no_urls@) =~= Seq::<Seq<char>>::empty());
        ToolResult::report("file_read", false, joined("File not found: ", path), no_urls)
    }

    /// The result for the file of `size` bytes that `req` asks for;
    /// `content` is its text when it was read and is valid UTF-8.
    pub fn result(&self, req: &ReadRequest, size: u64, content: Option<String>) -> (r: ToolResult)
        ensures
            reports(
                r,
                "file_read"@,
                true,
                read_output(size, content, req.offset, req.lines),
                minis_urls_of(req.path@),
            ),
    {
        let output = if size > MAX_READ_BYTES {
            let mut m = chars_of("[File too large: ");
            extend_chars(&mut m, &fmt_u64(size));
            extend_str(&mut m, " bytes]");
            m
        } else {
            match content {
                Some(c) => window_exec(c.as_str(), req.offset, req.lines),
                None => chars_of("[Binary file or invalid UTF-8]"),
            }
        };
        ToolResult::report("file_read", true, output, minis_urls_for(req.path.as_str()))
    }
}

// ---------------------------------------------------------------------------
// file_write
// ---------------------------------------------------------------------------

/// Writes or appends to a file.
#[derive(Debug, Clone, Copy)]
pub struct FileWriteTool;

/// A `file_write` call with its parameters read.
#[derive(Debug, Clone)]
pub struct WriteRequest {
    pub path: String,
    pub content: String,
    /// Append rather than overwrite.
    pub append: bool,
    /// Create missing parent directories first.
    pub create_dirs: bool,
}

impl FileWriteTool {
    /// The tool's name.
    pub fn name(&self) -> (r: &'static str)
        ensures
            r@ == "file_write"@,
    {
        "file_write"
    }

    /// Reads `path` and `content` (required, in that order), `append`
    /// (false unless given) and `create_dirs` (true unless given).
    pub fn request(&self, params: &Params) -> (r: Result<WriteRequest, ToolError>)
        ensures
            ({
                let es = params.entries@;
                if str_param(es, "path"@) is None {
                    fails_with(r, "Missing 'path' parameter"@)
                } else if str_param(es, "content"@) is None {
                    fails_with(r, "Missing 'content' parameter"@)
                } else {
                    r matches Ok(q) && Some(q.path@) == str_param(es, "path"@) && Some(q.content@)
                        == str_param(es, "content"@) && q.append == bool_or(es, "append"@, false)
                        && q.create_dirs == bool_or(es, "create_dirs"@, true)
                }
            }),
    {
        let path = match params.get_str("path") {
            Some(p) => p,
            None => { return Err(ToolError::new("Missing 'path' parameter")); },
        };
        let content = match params.get_str("content") {
            Some(c) => c,
            None => { return Err(ToolError::new("Missing 'content' parameter")); },
        };
        let append = params.bool_or("append", false);
        let create_dirs = params.bool_or("create_dirs", true);
        Ok(WriteRequest { path, content, append, create_dirs })
    }

    /// The result once `req.content` was written: its size in UTF-8 bytes
    /// and the path.
    pub fn result(&self, req: &WriteRequest) -> (r: ToolResult)
        ensures
            reports(
                r,
                "file_write"@,
                true,
                "Wrote "@ + dec_nat(utf8_len(req.content@)) + " bytes to "@ + req.path@,
                minis_urls_of(req.path@),
            ),
    {
        let bytes = utf8_len_exec(&chars_of(req.content.as_str()));
        let mut m = chars_of("Wrote ");
        extend_chars(&mut m, &fmt_u128(bytes));
        extend_str(&mut m, " bytes to ");
        extend_str(&mut m, req.path.as_str());
        ToolResult::report("file_write", true, m, minis_urls_for(req.path.as_str()))
    }
}

// ---------------------------------------------------------------------------
// read_image
// ---------------------------------------------------------------------------

/// Loads an image for visual analysis.
#[derive(Debug, Clone, Copy)]
pub struct ReadImageTool;

/// The file-system path of an image named by a path or a `minis://` URL.
pub open spec fn image_path(p: Seq<char>) -> Seq<char> {
    if starts_with(p, "minis://"@) {
        replace_all(p, "minis://"@, "/var/minis/"@)
    } else {
        p
    }
}

/// The report on a loaded image whose extension is `ext`.
pub open spec fn image_report(path: Seq<char>, size: u64, ext: Option<Seq<char>>) -> Seq<char> {
    let e = match ext {
        Some(e) => e,
        None => Seq::empty(),
    };
    "Image loaded: "@ + path + " ("@ + dec_nat(size as nat) + " bytes, ."@ + e
        + ") — ready for visual analysis"@
}

/// The report on a loaded image.
pub open spec fn image_output(path: Seq<char>, size: u64) -> Seq<char> {
    image_report(path, size, path_extension(path))
}

/// The URL of an image at `path`, which is `relative` under `/var/minis/`
/// when it lies there.
pub open spec fn image_url_from(path: Seq<char>, relative: Option<Seq<char>>) -> Seq<char> {
    match relative {
        Some(rel) => "minis://"@ + rel,
        None => "minis://"@ + path,
    }
}

/// The URL of a loaded image: relative to `/var/minis/` when it lies there,
/// else the whole path, after `minis://`.
pub open spec fn image_url(path: Seq<char>) -> Seq<char> {
    image_url_from(path, path_strip_prefix(path, "/var/minis/"@))
}

impl ReadImageTool {
    /// The tool's name.
    pub fn name(&self) -> (r: &'static str)
        ensures
            r@ == "read_image"@,
    {
        "read_image"
    }

    /// Reads the required `path` parameter and turns a `minis://` URL into
    /// a path under `/var/minis/`.
    pub fn image_path(&self, params: &Params) -> (r: Result<String, ToolError>)
        ensures
            match str_param(params.entries@, "path"@) {
                Some(p) => r matches Ok(q) && q@ == image_path(p),
                None => fails_with(r, "Missing 'path'"@),
            },
    {
        let p = match params.get_str("path") {
            Some(p) => p,
            None => { return Err(ToolError::new("Missing 'path'")); },
        };
        if str_starts_with(p.as_str(), "minis://") {
            let v = replace_all_exec(&chars_of(p.as_str()), &chars_of("minis://"), &chars_of("/var/minis/"));
            Ok(string_of(&v))
        } else {
            Ok(p)
        }
    }

    /// The failure for an image that does not exist.
    pub fn not_found(&self, path: &str) -> (r: ToolResult)
        ensures
            reports(r, "read_image"@, false, "Image not found: "@ + path@, Seq::empty()),
    {
        let no_urls: Vec<String> = Vec::new();
        assert(texts(no_urls@) =~= Seq::<Seq<char>>::empty());
        ToolResult::report("read_image", false, joined("Image not found: ", path), no_urls)
    }

    /// The result for the image at `path` of `size` bytes.
    pub fn result(&self, path: &str, size: u64) -> (r: ToolResult)
        ensures
            reports(r, "read_image"@, true, image_output(path@, size), seq![image_url(path@)]),
    {
        let ext = extension_of(path);
        let relative = strip_path_prefix(path, "/var/minis/");
        self.report(path, size, ext, relative)
    }

    /// The result for the image at `path` of `size` bytes, given its
    /// extension and, when it lies under `/var/minis/`, its path there.
    pub fn report(&self, path: &str, size: u64, ext: Option<String>, relative: Option<String>) -> (r: ToolResult)
        ensures
            reports(
                r,
                "read_image"@,
                true,
                image_report(path@, size, match ext {
                    Some(e) => Some(e@),
                    None => None,
                }),
                seq![
                    image_url_from(path@, match relative {
                        Some(x) => Some(x@),
                        None => None,
                    }),
                ],
            ),
    {
        let mut m = chars_of("Image loaded: ");
        extend_str(&mut m, path);
        extend_str(&mut m, " (");
        extend_chars(&mut m, &fmt_u64(size));
        extend_str(&mut m, " bytes, .");
        match &ext {
            Some(e) => extend_str(&mut m, e.as_str()),
            None => {},
        }
        extend_str(&mut m, ") — ready for visual analysis");
        let url = match &relative {
            Some(rel) => minis_url_of(rel.as_str()),
            None => minis_url_of(path),
        };
        let mut urls: Vec<String> = Vec::new();
        urls.push(url);
        let ghost rv: Option<Seq<char>> = match relative {
            Some(x) => Some(x@),
            None => None,
        };
        assert(texts(urls@) =~= seq![image_url_from(path@, rv)]);
        ToolResult::report("read_image", true, m, urls)
    }
}

// ---------------------------------------------------------------------------
// memory_write, memory_get, shell_execute, browser_use
// ---------------------------------------------------------------------------

/// Saves a note to today's log.
#[derive(Debug, Clone, Copy)]
pub struct MemoryWriteTool;

/// Looks notes up by keyword.
#[derive(Debug, Clone, Copy)]
pub struct MemoryGetTool;

/// Runs a shell command in the sandbox.
#[derive(Debug, Clone, Copy)]
pub struct ShellExecuteTool;

/// Drives the browser.
#[derive(Debug, Clone, Copy)]
pub struct BrowserUseTool;

/// The result of a tool that echoes one required string parameter after a
/// fixed prefix.
fn echo(
    params: &Params,
    tool: &str,
    key: &str,
    missing: &str,
    prefix: &str,
) -> (r: Result<ToolResult, ToolError>)
    ensures
        match str_param(params.entries@, key@) {
            Some(v) => r matches Ok(t) && reports(t, tool@, true, prefix@ + v, Seq::empty()),
            None => fails_with(r, missing@),
        },
{
    match params.get_str(key) {
        Some(v) => {
            let no_urls: Vec<String> = Vec::new();
            assert(texts(no_urls@) =~= Seq::<Seq<char>>::empty());
            Ok(ToolResult::report(tool, true, joined(prefix, v.as_str()), no_urls))
        },
        None => Err(ToolError::new(missing)),
    }
}

impl MemoryWriteTool {
    /// The tool's name.
    pub fn name(&self) -> (r: &'static str)
        ensures
            r@ == "memory_write"@,
    {
        "memory_write"
    }

    /// Acknowledges the required `content` with its size in UTF-8 bytes.
    pub fn execute(&self, params: &Params) -> (r: Result<ToolResult, ToolError>)
        ensures
            match str_param(params.entries@, "content"@) {
                Some(c) => r matches Ok(t) && reports(
                    t,
                    "memory_write"@,
                    true,
                    "Memory saved ("@ + dec_nat(utf8_len(c)) + " bytes)"@,
                    Seq::empty(),
                ),
                None => fails_with(r, "Missing 'content'"@),
            },
    {
        match params.get_str("content") {
            Some(c) => {
                let bytes = utf8_len_exec(&chars_of(c.as_str()));
                let mut m = chars_of("Memory saved (");
                extend_chars(&mut m, &fmt_u128(bytes));
                extend_str(&mut m, " bytes)");
                let no_urls: Vec<String> = Vec::new();
                assert(texts(no_urls@) =~= Seq::<Seq<char>>::empty());
                Ok(ToolResult::report("memory_write", true, m, no_urls))
            },
            None => Err(ToolError::new("Missing 'content'")),
        }
    }
}

impl MemoryGetTool {
    /// The tool's name.
    pub fn name(&self) -> (r: &'static str)
        ensures
            r@ == "memory_get"@,
    {
        "memory_get"
    }

    /// Echoes the `keywords` parameter (empty when absent); never fails.
    pub fn execute(&self, params: &Params) -> (r: Result<ToolResult, ToolError>)
        ensures
            r matches Ok(t) && reports(
                t,
                "memory_get"@,
                true,
                "[memory_get placeholder] keywords: "@ + str_or_empty(params.entries@, "keywords"@),
                Seq::empty(),
            ),
    {
        let kw = match params.get_str("keywords") {
            Some(k) => k,
            None => String::new(),
        };
        let no_urls: Vec<String> = Vec::new();
        assert(texts(no_urls@) =~= Seq::<Seq<char>>::empty());
        Ok(ToolResult::report("memory_get", true, joined("[memory_get placeholder] keywords: ", kw.as_str()), no_urls))
    }
}

impl ShellExecuteTool {
    /// The tool's name.
    pub fn name(&self) -> (r: &'static str)
        ensures
            r@ == "shell_execute"@,
    {
        "shell_execute"
    }

    /// Echoes the required `command`.
    pub fn execute(&self, params: &Params) -> (r: Result<ToolResult, ToolError>)
        ensures
            match str_param(params.entries@, "command"@) {
                Some(c) => r matches Ok(t) && reports(
                    t,
                    "shell_execute"@,
                    true,
                    "[shell_execute placeholder] command: "@ + c,
                    Seq::empty(),
                ),
                None => fails_with(r, "Missing 'command'"@),
            },
    {
        echo(params, "shell_execute", "command", "Missing 'command'", "[shell_execute placeholder] command: ")
    }
}

impl BrowserUseTool {
    /// The tool's name.
    pub fn name(&self) -> (r: &'static str)
        ensures
            r@ == "browser_use"@,
    {
        "browser_use"
    }

    /// Echoes the required `action`.
    pub fn execute(&self, params: &Params) -> (r: Result<ToolResult, ToolError>)
        ensures
            match str_param(params.entries@, "action"@) {
                Some(a) => r matches Ok(t) && reports(
                    t,
                    "browser_use"@,
                    true,
                    "[browser_use placeholder] action: "@ + a,
                    Seq::empty(),
                ),
                None => fails_with(r, "Missing 'action'"@),
            },
    {
        echo(params, "browser_use", "action", "Missing 'action'", "[browser_use placeholder] action: ")
    }
}

// ---------------------------------------------------------------------------
// Dispatch
// ---------------------------------------------------------------------------

/// The registered tool a call names: the first with that name, or the
/// error `Unknown tool: {name}`.
pub fn find_tool(names: &Vec<String>, name: &str) -> (r: Result<usize, ToolError>)
    ensures
        match r {
            Ok(i) => i < names@.len() && names@[i as int]@ == name@ && forall|j: int|
                0 <= j < i ==> names@[j]@ != name@,
            Err(e) => e.message@ == "Unknown tool: "@ + name@ && forall|j: int|
                0 <= j < names@.len() ==> names@[j]@ != name@,
        },
{
    let mut i: usize = 0;
    while i < names.len()
        invariant
            i <= names@.len(),
            forall|j: int| 0 <= j < i ==> names@[j]@ != name@,
        decreases names@.len() - i,
    {
        if str_eq(names[i].as_str(), name) {
            return Ok(i);
        }
        i = i + 1;
    }
    Err(ToolError { message: string_of(&joined("Unknown tool: ", name)) })
}

/// The entry of a batch for the call `id` to the tool `name`: the tool's
/// result with the call id set, or a failure reporting `Error: {message}`.
pub fn batch_result(name: &str, id: &str, outcome: Result<ToolResult, ToolError>) -> (r: ToolResult)
    ensures
        r.tool_id@ == id@,
        match outcome {
            Ok(t) => r.tool_name == t.tool_name && r.success == t.success && r.output == t.output
                && r.minis_urls == t.minis_urls,
            Err(e) => r.tool_name@ == name@ && !r.success && r.output@ == "Error: "@ + e.message@
                && r.minis_urls@.len() == 0,
        },
{
    match outcome {
        Ok(t) => {
            let mut t = t;
            t.tool_id = crate::text::owned(id);
            t
        },
        Err(e) => ToolResult {
            tool_name: crate::text::owned(name),
            tool_id: crate::text::owned(id),
            success: false,
            output: string_of(&joined("Error: ", e.message.as_str())),
            minis_urls: Vec::new(),
        },
    }
}

} // verus!
