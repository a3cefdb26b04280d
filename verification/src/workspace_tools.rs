//! The workspace tools: file operations, the shell, and the example tool.
//! What they decide is here; reading, writing and running stay outside.

use vstd::prelude::*;
use crate::agent::join_range;
use crate::builtin_tools::{fails_with, is_unknown_function, string_arg, tool_shape, FunctionShape, ToolError};
use crate::json::{str_eq, JsonModel, JsonNumber, JsonValue, NumberModel};
use crate::text::{chars_of, contains_seq, contains_str, join, lines, lines_of, trim, trimmed};
use crate::tool_args::{arg, decl_models, decode_args, decode_args_of, function_with_args, int_at, bool_at, str_at, lemma_decoded_kinds, ArgDecl, ArgErrorModel, ArgKind, DeclModel};
use crate::tools::{FunctionSpec, ToolSpec};
use crate::paths::{join_path, path_join, path_starts_with, path_within};

verus! {

/// An integer argument with a non-negative default.
pub open spec fn int_arg(name: Seq<char>, default: u64) -> DeclModel {
    DeclModel { name, kind: ArgKind::Int, default: Some(JsonModel::Number(NumberModel::PosInt(default))) }
}

/// A boolean argument that defaults to `false`.
pub open spec fn flag_arg(name: Seq<char>) -> DeclModel {
    DeclModel { name, kind: ArgKind::Bool, default: Some(JsonModel::Bool(false)) }
}

/// Arguments of `file-read`.
pub open spec fn read_args() -> Seq<DeclModel> {
    seq![string_arg("path"@), int_arg("offset_lines"@, 0), int_arg("limit_lines"@, 200)]
}

/// Arguments of `file-glob`.
pub open spec fn glob_args() -> Seq<DeclModel> {
    seq![string_arg("pattern"@), int_arg("limit"@, 200)]
}

/// Arguments of `file-write`.
pub open spec fn write_args() -> Seq<DeclModel> {
    seq![string_arg("path"@), string_arg("content"@), flag_arg("overwrite"@)]
}

/// Arguments of `file-edit`.
pub open spec fn edit_args() -> Seq<DeclModel> {
    seq![string_arg("path"@), string_arg("old_text"@), string_arg("new_text"@), flag_arg("replace_all"@)]
}

fn int_decl(name: &str, default: u64) -> (r: ArgDecl)
    ensures
        r@ == int_arg(name@, default),
{
    arg(name, ArgKind::Int, Some(JsonValue::Number(JsonNumber::PosInt(default))))
}

fn flag_decl(name: &str) -> (r: ArgDecl)
    ensures
        r@ == flag_arg(name@),
{
    arg(name, ArgKind::Bool, Some(JsonValue::Bool(false)))
}

fn str_decl(name: &str) -> (r: ArgDecl)
    ensures
        r@ == string_arg(name@),
{
    arg(name, ArgKind::Str, None)
}

fn read_decls() -> (r: Vec<ArgDecl>)
    ensures
        decl_models(r@) == read_args(),
{
    let mut v: Vec<ArgDecl> = Vec::new();
    v.push(str_decl("path"));
    v.push(int_decl("offset_lines", 0));
    v.push(int_decl("limit_lines", 200));
    assert(decl_models(v@) =~= read_args());
    v
}

fn glob_decls() -> (r: Vec<ArgDecl>)
    ensures
        decl_models(r@) == glob_args(),
{
    let mut v: Vec<ArgDecl> = Vec::new();
    v.push(str_decl("pattern"));
    v.push(int_decl("limit", 200));
    assert(decl_models(v@) =~= glob_args());
    v
}

fn write_decls() -> (r: Vec<ArgDecl>)
    ensures
        decl_models(r@) == write_args(),
{
    let mut v: Vec<ArgDecl> = Vec::new();
    v.push(str_decl("path"));
    v.push(str_decl("content"));
    v.push(flag_decl("overwrite"));
    assert(decl_models(v@) =~= write_args());
    v
}

fn edit_decls() -> (r: Vec<ArgDecl>)
    ensures
        decl_models(r@) == edit_args(),
{
    let mut v: Vec<ArgDecl> = Vec::new();
    v.push(str_decl("path"));
    v.push(str_decl("old_text"));
    v.push(str_decl("new_text"));
    v.push(flag_decl("replace_all"));
    assert(decl_models(v@) =~= edit_args());
    v
}

/// A call of the file tool, decoded.
#[derive(Debug)]
pub enum FileCall {
    Read { path: String, offset_lines: i64, limit_lines: i64 },
    Glob { pattern: String, limit: i64 },
    Write { path: String, content: String, overwrite: bool },
    Edit { path: String, old_text: String, new_text: String, replace_all: bool },
}

/// Mathematical form of a [`FileCall`].
pub enum FileCallModel {
    Read { path: Seq<char>, offset_lines: i64, limit_lines: i64 },
    Glob { pattern: Seq<char>, limit: i64 },
    Write { path: Seq<char>, content: Seq<char>, overwrite: bool },
    Edit { path: Seq<char>, old_text: Seq<char>, new_text: Seq<char>, replace_all: bool },
}

impl View for FileCall {
    type V = FileCallModel;

    open spec fn view(&self) -> FileCallModel {
        match self {
            FileCall::Read { path, offset_lines, limit_lines } => FileCallModel::Read {
                path: path@,
                offset_lines: *offset_lines,
                limit_lines: *limit_lines,
            },
            FileCall::Glob { pattern, limit } => FileCallModel::Glob { pattern: pattern@, limit: *limit },
            FileCall::Write { path, content, overwrite } => FileCallModel::Write {
                path: path@,
                content: content@,
                overwrite: *overwrite,
            },
            FileCall::Edit { path, old_text, new_text, replace_all } => FileCallModel::Edit {
                path: path@,
                old_text: old_text@,
                new_text: new_text@,
                replace_all: *replace_all,
            },
        }
    }
}

/// What a call of a tool comes to.
pub enum Outcome<C> {
    /// A well-formed call.
    Call(C),
    /// The arguments were refused.
    Refused(ArgErrorModel),
    /// The tool has no such function.
    NoSuchFunction,
}

/// The model of a decoding result.
pub open spec fn file_outcome_view(r: Result<FileCall, ToolError>) -> Outcome<FileCallModel> {
    match r {
        Ok(c) => Outcome::Call(c@),
        Err(ToolError::Args(e)) => Outcome::Refused(e@),
        Err(_) => Outcome::NoSuchFunction,
    }
}

/// What a file-tool call comes to: the function is chosen by name and its
/// arguments are decoded against its declarations.
pub open spec fn file_outcome(name: Seq<char>, args: JsonModel) -> Outcome<FileCallModel> {
    if name == "file-read"@ {
        match decode_args_of(args, read_args()) {
            Ok(vs) => Outcome::Call(FileCallModel::Read {
                path: vs[0]->Str_0,
                offset_lines: vs[1]->Int_0,
                limit_lines: vs[2]->Int_0,
            }),
            Err(e) => Outcome::Refused(e),
        }
    } else if name == "file-glob"@ {
        match decode_args_of(args, glob_args()) {
            Ok(vs) => Outcome::Call(FileCallModel::Glob { pattern: vs[0]->Str_0, limit: vs[1]->Int_0 }),
            Err(e) => Outcome::Refused(e),
        }
    } else if name == "file-write"@ {
        match decode_args_of(args, write_args()) {
            Ok(vs) => Outcome::Call(FileCallModel::Write {
                path: vs[0]->Str_0,
                content: vs[1]->Str_0,
                overwrite: vs[2]->Bool_0,
            }),
            Err(e) => Outcome::Refused(e),
        }
    } else if name == "file-edit"@ {
        match decode_args_of(args, edit_args()) {
            Ok(vs) => Outcome::Call(FileCallModel::Edit {
                path: vs[0]->Str_0,
                old_text: vs[1]->Str_0,
                new_text: vs[2]->Str_0,
                replace_all: vs[3]->Bool_0,
            }),
            Err(e) => Outcome::Refused(e),
        }
    } else {
        Outcome::NoSuchFunction
    }
}

/// The workspace file tool.
#[derive(Debug)]
pub struct FileTool {}

/// The description of `file-glob`.
pub open spec fn glob_description() -> Seq<char> {
    "Find files under workspace by glob pattern. Pattern is relative to workspace. Note: recursive wildcard '**' must be a full path component (use '**/*.rs', not '**.rs'). Examples: '**/*.rs', '.github/workflows/*.yml', 'crates/*/src/**/*.rs'."@
}

/// The description of `file-edit`.
pub open spec fn edit_description() -> Seq<char> {
    "Edit a file by finding and replacing text. Performs exact string matching (not regex). Use this instead of file-read + file-write for surgical edits."@
}

impl FileTool {
    /// The file tool.
    pub fn new() -> (r: Self) {
        FileTool {  }
    }

    /// Its specification: read, glob, write and edit.
    pub fn spec(&self) -> (r: ToolSpec)
        ensures
            tool_shape(r, "file"@, "Workspace file operations"@, seq![
                FunctionShape { name: "file-read"@, description: "Read a UTF-8 text file under workspace"@, args: read_args() },
                FunctionShape { name: "file-glob"@, description: glob_description(), args: glob_args() },
                FunctionShape { name: "file-write"@, description: "Write a UTF-8 text file under workspace"@, args: write_args() },
                FunctionShape { name: "file-edit"@, description: edit_description(), args: edit_args() },
            ]),
    {
        let mut functions: Vec<FunctionSpec> = Vec::new();
        functions.push(function_with_args("file-read", "Read a UTF-8 text file under workspace", read_decls().as_slice()));
        functions.push(function_with_args(
            "file-glob",
            "Find files under workspace by glob pattern. Pattern is relative to workspace. Note: recursive wildcard '**' must be a full path component (use '**/*.rs', not '**.rs'). Examples: '**/*.rs', '.github/workflows/*.yml', 'crates/*/src/**/*.rs'.",
            glob_decls().as_slice(),
        ));
        functions.push(function_with_args("file-write", "Write a UTF-8 text file under workspace", write_decls().as_slice()));
        functions.push(function_with_args(
            "file-edit",
            "Edit a file by finding and replacing text. Performs exact string matching (not regex). Use this instead of file-read + file-write for surgical edits.",
            edit_decls().as_slice(),
        ));
        ToolSpec {
            id: String::from_str("file"),
            description: String::from_str("Workspace file operations"),
            functions,
        }
    }

    /// Decode a call (see [`file_outcome`]).
    pub fn decode_call(&self, function_name: &str, args: &JsonValue) -> (r: Result<FileCall, ToolError>)
        ensures
            file_outcome_view(r) == file_outcome(function_name@, args@),
            file_outcome(function_name@, args@) is NoSuchFunction ==> is_unknown_function(r, function_name@),
    {
        if str_eq(function_name, "file-read") {
            let ds = read_decls();
            match decode_args(args, ds.as_slice()) {
                Ok(vs) => {
                    proof {
                        lemma_decoded_kinds(args@, read_args());
                    }
                    Ok(FileCall::Read { path: str_at(&vs, 0), offset_lines: int_at(&vs, 1), limit_lines: int_at(&vs, 2) })
                },
                Err(e) => Err(ToolError::Args(e)),
            }
        } else if str_eq(function_name, "file-glob") {
            let ds = glob_decls();
            match decode_args(args, ds.as_slice()) {
                Ok(vs) => {
                    proof {
                        lemma_decoded_kinds(args@, glob_args());
                    }
                    Ok(FileCall::Glob { pattern: str_at(&vs, 0), limit: int_at(&vs, 1) })
                },
                Err(e) => Err(ToolError::Args(e)),
            }
        } else if str_eq(function_name, "file-write") {
            let ds = write_decls();
            match decode_args(args, ds.as_slice()) {
                Ok(vs) => {
                    proof {
                        lemma_decoded_kinds(args@, write_args());
                    }
                    Ok(FileCall::Write { path: str_at(&vs, 0), content: str_at(&vs, 1), overwrite: bool_at(&vs, 2) })
                },
                Err(e) => Err(ToolError::Args(e)),
            }
        } else if str_eq(function_name, "file-edit") {
            let ds = edit_decls();
            match decode_args(args, ds.as_slice()) {
                Ok(vs) => {
                    proof {
                        lemma_decoded_kinds(args@, edit_args());
                    }
                    Ok(FileCall::Edit {
                        path: str_at(&vs, 0),
                        old_text: str_at(&vs, 1),
                        new_text: str_at(&vs, 2),
                        replace_all: bool_at(&vs, 3),
                    })
                },
                Err(e) => Err(ToolError::Args(e)),
            }
        } else {
            Err(ToolError::UnknownFunction { name: String::from_str(function_name) })
        }
    }
}

impl Default for FileTool {
    fn default() -> (r: Self) {
        FileTool::new()
    }
}

/// A line count given to `file-read` or `file-glob`: negative counts as 0,
/// and so does a count that does not fit in `usize`.
pub open spec fn count_arg(x: i64) -> nat {
    if x <= 0 || x > usize::MAX { 0 } else { x as nat }
}

fn count_of(x: i64) -> (r: usize)
    ensures
        r == count_arg(x),
{
    if x <= 0 {
        0
    } else if (x as u64) as u128 > usize::MAX as u128 {
        0
    } else {
        x as usize
    }
}

/// What `file-read` returns of a file's text: nothing for offset and limit
/// 0; the whole text when it starts at the top and the limit covers every
/// line; else the lines from `offset` on, at most `limit` of them, joined by
/// line feeds.
pub open spec fn read_window_of(s: Seq<char>, offset: nat, limit: nat) -> Seq<char> {
    let ls = lines(s);
    if offset == 0 && limit == 0 {
        Seq::empty()
    } else if offset == 0 && limit >= ls.len() {
        s
    } else {
        let a = if offset < ls.len() { offset as int } else { ls.len() as int };
        let b = if a + limit < ls.len() { a + limit } else { ls.len() as int };
        join(ls.subrange(a, b), "\n"@)
    }
}

impl FileTool {
    /// The part of a file's text that `file-read` returns (see
    /// [`read_window_of`]).
    pub fn read_window(content: &str, offset_lines: i64, limit_lines: i64) -> (r: String)
        ensures
            r@ == read_window_of(content@, count_arg(offset_lines), count_arg(limit_lines)),
    {
        let offset = count_of(offset_lines);
        let limit = count_of(limit_lines);
        if offset == 0 && limit == 0 {
            return String::new();
        }
        let ls = lines_of(content);
        let n = ls.len();
        if offset == 0 && limit >= n {
            return String::from_str(content);
        }
        let a = if offset < n { offset } else { n };
        let b = if limit < n - a { a + limit } else { n };
        proof {
            reveal_strlit("\n");
        }
        join_range(ls.as_slice(), a, b, "\n")
    }

    /// The glob pattern of a `file-glob` call, trimmed; it may be neither
    /// empty nor absolute.
    pub fn check_glob_pattern(pattern: &str) -> (r: Result<String, ToolError>)
        ensures
            trim(pattern@).len() == 0 ==> fails_with(r, "pattern must not be empty"@),
            trim(pattern@).len() > 0 && trim(pattern@)[0] == '/' ==> fails_with(r, "pattern must be relative"@),
            trim(pattern@).len() > 0 && trim(pattern@)[0] != '/' ==> r is Ok && r->Ok_0@ == trim(pattern@),
    {
        let t = trimmed(pattern);
        if t.unicode_len() == 0 {
            return Err(ToolError::Failed { message: String::from_str("pattern must not be empty") });
        }
        if t.as_str().get_char(0) == '/' {
            return Err(ToolError::Failed { message: String::from_str("pattern must be relative") });
        }
        Ok(t)
    }

    /// The most files `file-glob` lists (0 for no limit).
    pub fn glob_limit(limit: i64) -> (r: usize)
        ensures
            r == if count_arg(limit) < 10000 { count_arg(limit) } else { 10000 },
    {
        let l = count_of(limit);
        if l < 10000 { l } else { 10000 }
    }

    /// Has `file-glob` listed enough files?
    pub fn glob_full(listed: usize, limit: usize) -> (r: bool)
        ensures
            r == (limit != 0 && listed >= limit),
    {
        limit != 0 && listed >= limit
    }

    /// `file-write` refuses to replace a file unless told to.
    pub fn check_overwrite(exists: bool, overwrite: bool) -> (r: Result<(), ToolError>)
        ensures
            exists && !overwrite ==> fails_with(r, "file exists (set overwrite=true)"@),
            !(exists && !overwrite) ==> r is Ok,
    {
        if exists && !overwrite {
            Err(ToolError::Failed { message: String::from_str("file exists (set overwrite=true)") })
        } else {
            Ok(())
        }
    }

    /// A path a file tool accepts: relative, with no `..` component.
    pub fn check_relative_path(rel: &str) -> (r: Result<(), ToolError>)
        ensures
            rel@.len() > 0 && rel@[0] == '/' ==> fails_with(r, "path must be relative"@),
            !(rel@.len() > 0 && rel@[0] == '/') && has_parent_component(rel@) ==> fails_with(
                r,
                "path must not contain '..'"@,
            ),
            !(rel@.len() > 0 && rel@[0] == '/') && !has_parent_component(rel@) ==> r is Ok,
    {
        let cs = chars_of(rel);
        let n = cs.len();
        if n > 0 && cs[0] == '/' {
            return Err(ToolError::Failed { message: String::from_str("path must be relative") });
        }
        let mut i: usize = 0;
        while i < n
            invariant
                cs@ == rel@,
                n == rel@.len(),
                i <= n,
                !(rel@.len() > 0 && rel@[0] == '/'),
                forall|j: int| 0 <= j < i ==> !#[trigger] is_parent_component_at(rel@, j),
            decreases n - i,
        {
            if n - i >= 2 && cs[i] == '.' && cs[i + 1] == '.' && (i == 0 || cs[i - 1] == '/') && (i + 2 == n
                || cs[i + 2] == '/') {
                assert(is_parent_component_at(rel@, i as int));
                return Err(ToolError::Failed { message: String::from_str("path must not contain '..'") });
            }
            i = i + 1;
        }
        Ok(())
    }
}

impl FileTool {
    /// Resolve `rel` against the workspace: it must be relative and free of
    /// `..` components, and the canonical form of the joined path must lie,
    /// component by component, under the canonical form of the workspace;
    /// the result is then the workspace joined with `rel`.
    /// `canon_workspace` and `canon_joined` are what canonicalizing the
    /// workspace and the joined path gave; where that failed (`None`) the
    /// path itself stands for its canonical form.
    pub fn resolve_in_workspace(
        workspace: &str,
        rel: &str,
        canon_workspace: Option<String>,
        canon_joined: Option<String>,
    ) -> (r: Result<String, ToolError>)
        ensures
            ({
                let absolute = rel@.len() > 0 && rel@[0] == '/';
                let joined = path_join(workspace@, rel@);
                let cw = match canon_workspace {
                    Some(c) => c@,
                    None => workspace@,
                };
                let cj = match canon_joined {
                    Some(c) => c@,
                    None => joined,
                };
                &&& absolute ==> fails_with(r, "path must be relative"@)
                &&& !absolute && has_parent_component(rel@) ==> fails_with(r, "path must not contain '..'"@)
                &&& !absolute && !has_parent_component(rel@) && path_starts_with(cj, cw) ==> r is Ok
                    && r->Ok_0@ == joined
                &&& !absolute && !has_parent_component(rel@) && !path_starts_with(cj, cw) ==> fails_with(
                    r,
                    "path escapes workspace"@,
                )
            }),
    {
        match FileTool::check_relative_path(rel) {
            Err(e) => return Err(e),
            Ok(()) => {},
        }
        let joined = join_path(workspace, rel);
        let inside = match (&canon_joined, &canon_workspace) {
            (Some(cj), Some(cw)) => path_within(cj.as_str(), cw.as_str()),
            (Some(cj), None) => path_within(cj.as_str(), workspace),
            (None, Some(cw)) => path_within(joined.as_str(), cw.as_str()),
            (None, None) => path_within(joined.as_str(), workspace),
        };
        if inside {
            Ok(joined)
        } else {
            Err(ToolError::Failed { message: String::from_str("path escapes workspace") })
        }
    }
}

/// A `..` component starts at `i` of the path `s`.
pub open spec fn is_parent_component_at(s: Seq<char>, i: int) -> bool {
    0 <= i && i + 2 <= s.len() && s[i] == '.' && s[i + 1] == '.' && (i == 0 || s[i - 1] == '/') && (i + 2
        == s.len() || s[i + 2] == '/')
}

/// The path has a `..` component, as `Path::components` splits it.
pub open spec fn has_parent_component(s: Seq<char>) -> bool {
    exists|i: int| is_parent_component_at(s, i)
}

/// Occurrences of a non-empty `p` in `s[i..]`, taken left to right without
/// overlap, as `str::matches` finds them.
pub open spec fn count_from(s: Seq<char>, p: Seq<char>, i: int) -> nat
    decreases s.len() - i,
{
    if p.len() == 0 || i < 0 || i + p.len() > s.len() {
        0
    } else if s.subrange(i, i + p.len()) == p {
        1 + count_from(s, p, i + p.len())
    } else {
        count_from(s, p, i + 1)
    }
}

/// How many times `str::matches` finds `p` in `s`; the empty pattern is
/// found before every character and at the end.
pub open spec fn count_matches(s: Seq<char>, p: Seq<char>) -> nat {
    if p.len() == 0 {
        s.len() + 1
    } else {
        count_from(s, p, 0)
    }
}

/// `s[i..]` with the occurrences of a non-empty `p` replaced by `t`, left to
/// right; `left` is how many may still be replaced (`None`: all).
pub open spec fn replace_from(s: Seq<char>, p: Seq<char>, t: Seq<char>, i: int, left: Option<nat>) -> Seq<char>
    decreases s.len() - i,
{
    if i < 0 || i >= s.len() {
        Seq::empty()
    } else if p.len() > 0 && (left is None || left->Some_0 > 0) && i + p.len() <= s.len() && s.subrange(
        i,
        i + p.len(),
    ) == p {
        t + replace_from(
            s,
            p,
            t,
            i + p.len(),
            match left {
                None => None,
                Some(k) => Some((k - 1) as nat),
            },
        )
    } else {
        seq![s[i]] + replace_from(s, p, t, i + 1, left)
    }
}

/// `t` before every character of `s` and at its end.
pub open spec fn interleave(s: Seq<char>, t: Seq<char>) -> Seq<char>
    decreases s.len(),
{
    if s.len() == 0 {
        t
    } else {
        t + seq![s[0]] + interleave(s.drop_first(), t)
    }
}

/// `str::replace(p, t)` (all) or `str::replacen(p, t, 1)` (first only).
pub open spec fn replaced(s: Seq<char>, p: Seq<char>, t: Seq<char>, all: bool) -> Seq<char> {
    if p.len() == 0 {
        if all { interleave(s, t) } else { t + s }
    } else {
        replace_from(s, p, t, 0, if all { None } else { Some(1) })
    }
}

fn count_text(s: &str, p: &str) -> (r: u128)
    ensures
        r == count_matches(s@, p@),
{
    let cs = chars_of(s);
    let n = cs.len();
    let k = p.unicode_len();
    if k == 0 {
        return n as u128 + 1;
    }
    let mut count: u128 = 0;
    let mut i: usize = 0;
    while i < n
        invariant
            cs@ == s@,
            n == s@.len(),
            k == p@.len(),
            k > 0,
            i <= n,
            count <= i,
            count + count_from(s@, p@, i as int) == count_from(s@, p@, 0),
        decreases n - i,
    {
        if k <= n - i && crate::text::starts_with_at_exec(&cs, i, p) {
            count = count + 1;
            i = i + k;
        } else {
            i = i + 1;
        }
    }
    count
}

fn replace_text(s: &str, p: &str, t: &str, all: bool) -> (r: String)
    ensures
        r@ == replaced(s@, p@, t@, all),
{
    let cs = chars_of(s);
    let n = cs.len();
    let k = p.unicode_len();
    if k == 0 {
        if !all {
            return String::from_str(t).concat(s);
        }
        let mut out = String::new();
        let mut i: usize = 0;
        assert(s@.skip(0) =~= s@);
        while i < n
            invariant
                cs@ == s@,
                n == s@.len(),
                i <= n,
                out@ + interleave(s@.skip(i as int), t@) == interleave(s@, t@),
            decreases n - i,
        {
            let ghost rest = s@.skip(i as int);
            assert(rest.drop_first() =~= s@.skip(i as int + 1));
            assert(rest[0] == s@[i as int]);
            let c = s.substring_char(i, i + 1);
            assert(c@ =~= seq![s@[i as int]]);
            let ghost before = out@;
            out = out.concat(t).concat(c);
            assert(out@ + interleave(s@.skip(i as int + 1), t@) =~= before + interleave(rest, t@));
            i = i + 1;
        }
        assert(s@.skip(n as int) =~= Seq::<char>::empty());
        return out.concat(t);
    }
    let ghost left0: Option<nat> = if all { None } else { Some(1) };
    let mut left: usize = if all { 0 } else { 1 };
    let ghost mut lm: Option<nat> = left0;
    let mut out = String::new();
    let mut i: usize = 0;
    while i < n
        invariant
            cs@ == s@,
            n == s@.len(),
            k == p@.len(),
            k > 0,
            i <= n,
            all ==> lm is None,
            !all ==> lm == Some(left as nat),
            out@ + replace_from(s@, p@, t@, i as int, lm) == replace_from(s@, p@, t@, 0, left0),
        decreases n - i,
    {
        let ghost before = out@;
        if (all || left > 0) && k <= n - i && crate::text::starts_with_at_exec(&cs, i, p) {
            out = out.concat(t);
            proof {
                let next: Option<nat> = match lm {
                    None => None,
                    Some(q) => Some((q - 1) as nat),
                };
                assert(out@ + replace_from(s@, p@, t@, i + k, next) =~= before + replace_from(
                    s@,
                    p@,
                    t@,
                    i as int,
                    lm,
                ));
                lm = next;
            }
            if !all {
                left = left - 1;
            }
            i = i + k;
        } else {
            let c = s.substring_char(i, i + 1);
            assert(c@ =~= seq![s@[i as int]]);
            out = out.concat(c);
            assert(out@ + replace_from(s@, p@, t@, i + 1, lm) =~= before + replace_from(
                s@,
                p@,
                t@,
                i as int,
                lm,
            ));
            i = i + 1;
        }
    }
    assert(out@ =~= out@ + replace_from(s@, p@, t@, n as int, lm));
    out
}

/// What `file-edit` does to a file's text: the new text, how often the old
/// text occurs in it, and how many of those occurrences are replaced.
#[derive(Debug)]
pub struct EditPlan {
    pub new_content: String,
    pub old_count: u128,
    pub replaced: u128,
}

impl FileTool {
    /// Plan an edit: the old text must occur; it is replaced everywhere (every
    /// occurrence counts as replaced) or only where it first occurs (one is
    /// replaced).
    pub fn plan_edit(content: &str, old_text: &str, new_text: &str, replace_all: bool) -> (r: Result<EditPlan, ToolError>)
        ensures
            !contains_seq(content@, old_text@) ==> fails_with(r, "old_text not found in file"@),
            contains_seq(content@, old_text@) ==> r is Ok && ({
                let e = r->Ok_0;
                &&& e.new_content@ == replaced(content@, old_text@, new_text@, replace_all)
                &&& e.old_count == count_matches(content@, old_text@)
                &&& e.replaced == if replace_all { count_matches(content@, old_text@) } else { 1 }
            }),
    {
        if !contains_str(content, old_text) {
            return Err(ToolError::Failed { message: String::from_str("old_text not found in file") });
        }
        let new_content = replace_text(content, old_text, new_text, replace_all);
        let old_count = count_text(content, old_text);
        let replaced = if replace_all { old_count } else { 1 };
        Ok(EditPlan { new_content, old_count, replaced })
    }

    /// The report of an edit that replaced `replaced` occurrences in `path`.
    pub fn edit_report(replaced: u128, path: &str) -> (r: String)
        ensures
            r@ == "Replaced "@ + crate::text::decimal(replaced as nat) + " occurrence(s) in "@ + path@,
    {
        String::from_str("Replaced ").concat(crate::text::decimal_string(replaced).as_str()).concat(
            " occurrence(s) in ",
        ).concat(path)
    }
}

/// The shell tool.
#[derive(Debug)]
pub struct ShellTool {}

/// Arguments of `shell-exec`.
pub open spec fn exec_args() -> Seq<DeclModel> {
    seq![string_arg("command"@)]
}

fn exec_decls() -> (r: Vec<ArgDecl>)
    ensures
        decl_models(r@) == exec_args(),
{
    let mut v: Vec<ArgDecl> = Vec::new();
    v.push(str_decl("command"));
    assert(decl_models(v@) =~= exec_args());
    v
}

/// The model of a decoded shell call: the command.
pub open spec fn shell_outcome_view(r: Result<String, ToolError>) -> Outcome<Seq<char>> {
    match r {
        Ok(c) => Outcome::Call(c@),
        Err(ToolError::Args(e)) => Outcome::Refused(e@),
        Err(_) => Outcome::NoSuchFunction,
    }
}

/// What a shell-tool call comes to.
pub open spec fn shell_outcome(name: Seq<char>, args: JsonModel) -> Outcome<Seq<char>> {
    if name == "shell-exec"@ {
        match decode_args_of(args, exec_args()) {
            Ok(vs) => Outcome::Call(vs[0]->Str_0),
            Err(e) => Outcome::Refused(e),
        }
    } else {
        Outcome::NoSuchFunction
    }
}

/// Command fragments the shell tool refuses to run, in the order checked.
pub open spec fn dangerous_patterns() -> Seq<Seq<char>> {
    seq![
        "rm -rf /"@,
        "rm -rf /*"@,
        ":(){ :|:& };:"@,
        "mkfs"@,
        "dd if=/dev/zero"@,
        "chmod -R 777 /"@,
    ]
}

/// The first dangerous pattern the command contains.
pub open spec fn first_dangerous(cmd: Seq<char>) -> Option<Seq<char>> {
    let ps = dangerous_patterns();
    if contains_seq(cmd, ps[0]) {
        Some(ps[0])
    } else if contains_seq(cmd, ps[1]) {
        Some(ps[1])
    } else if contains_seq(cmd, ps[2]) {
        Some(ps[2])
    } else if contains_seq(cmd, ps[3]) {
        Some(ps[3])
    } else if contains_seq(cmd, ps[4]) {
        Some(ps[4])
    } else if contains_seq(cmd, ps[5]) {
        Some(ps[5])
    } else {
        None
    }
}

/// Check a shell command before it runs: once trimmed it must be non-empty
/// and contain none of the dangerous patterns; the error names the first
/// pattern found.
pub fn validate_shell_command(cmd: &str) -> (r: Result<(), ToolError>)
    ensures
        trim(cmd@).len() == 0 ==> fails_with(r, "command must not be empty"@),
        trim(cmd@).len() > 0 ==> match first_dangerous(trim(cmd@)) {
            Some(p) => fails_with(r, "command contains dangerous pattern: "@ + p),
            None => r is Ok,
        },
{
    let t = trimmed(cmd);
    if t.unicode_len() == 0 {
        return Err(ToolError::Failed { message: String::from_str("command must not be empty") });
    }
    let c = t.as_str();
    let p = if contains_str(c, "rm -rf /") {
        "rm -rf /"
    } else if contains_str(c, "rm -rf /*") {
        "rm -rf /*"
    } else if contains_str(c, ":(){ :|:& };:") {
        ":(){ :|:& };:"
    } else if contains_str(c, "mkfs") {
        "mkfs"
    } else if contains_str(c, "dd if=/dev/zero") {
        "dd if=/dev/zero"
    } else if contains_str(c, "chmod -R 777 /") {
        "chmod -R 777 /"
    } else {
        return Ok(());
    };
    Err(ToolError::Failed { message: String::from_str("command contains dangerous pattern: ").concat(p) })
}

impl ShellTool {
    /// The shell tool.
    pub fn new() -> (r: Self) {
        ShellTool {  }
    }

    /// Its specification: `shell-exec`, taking a string `command`.
    pub fn spec(&self) -> (r: ToolSpec)
        ensures
            tool_shape(r, "shell"@, "Execute shell commands in workspace"@, seq![FunctionShape {
                name: "shell-exec"@,
                description: "Execute a shell command (bash -lc) with cwd=workspace"@,
                args: exec_args(),
            }]),
    {
        let mut functions: Vec<FunctionSpec> = Vec::new();
        functions.push(function_with_args(
            "shell-exec",
            "Execute a shell command (bash -lc) with cwd=workspace",
            exec_decls().as_slice(),
        ));
        ToolSpec {
            id: String::from_str("shell"),
            description: String::from_str("Execute shell commands in workspace"),
            functions,
        }
    }

    /// Decode a call: the command to run (see [`shell_outcome`]).
    pub fn decode_call(&self, function_name: &str, args: &JsonValue) -> (r: Result<String, ToolError>)
        ensures
            shell_outcome_view(r) == shell_outcome(function_name@, args@),
            shell_outcome(function_name@, args@) is NoSuchFunction ==> is_unknown_function(r, function_name@),
    {
        if str_eq(function_name, "shell-exec") {
            let ds = exec_decls();
            match decode_args(args, ds.as_slice()) {
                Ok(vs) => {
                    proof {
                        lemma_decoded_kinds(args@, exec_args());
                    }
                    Ok(str_at(&vs, 0))
                },
                Err(e) => Err(ToolError::Args(e)),
            }
        } else {
            Err(ToolError::UnknownFunction { name: String::from_str(function_name) })
        }
    }
}

impl Default for ShellTool {
    fn default() -> (r: Self) {
        ShellTool::new()
    }
}

/// The example tool.
#[derive(Debug)]
pub struct MacroExampleTool {}

/// A call of the example tool.
#[derive(Debug)]
pub enum MacroCall {
    /// Give back the text.
    Echo { text: String },
    /// Give back the workspace directory.
    Pwd,
}

/// Mathematical form of a [`MacroCall`].
pub enum MacroCallModel {
    Echo(Seq<char>),
    Pwd,
}

/// The model of a decoded example-tool call.
pub open spec fn macro_outcome_view(r: Result<MacroCall, ToolError>) -> Outcome<MacroCallModel> {
    match r {
        Ok(MacroCall::Echo { text }) => Outcome::Call(MacroCallModel::Echo(text@)),
        Ok(MacroCall::Pwd) => Outcome::Call(MacroCallModel::Pwd),
        Err(ToolError::Args(e)) => Outcome::Refused(e@),
        Err(_) => Outcome::NoSuchFunction,
    }
}

/// Arguments of `macro.echo`.
pub open spec fn echo_args() -> Seq<DeclModel> {
    seq![string_arg("text"@)]
}

/// What an example-tool call comes to; `macro.pwd` takes no arguments.
pub open spec fn macro_outcome(name: Seq<char>, args: JsonModel) -> Outcome<MacroCallModel> {
    if name == "macro.echo"@ {
        match decode_args_of(args, echo_args()) {
            Ok(vs) => Outcome::Call(MacroCallModel::Echo(vs[0]->Str_0)),
            Err(e) => Outcome::Refused(e),
        }
    } else if name == "macro.pwd"@ {
        match decode_args_of(args, Seq::empty()) {
            Ok(_) => Outcome::Call(MacroCallModel::Pwd),
            Err(e) => Outcome::Refused(e),
        }
    } else {
        Outcome::NoSuchFunction
    }
}

impl MacroExampleTool {
    /// The example tool.
    pub fn new() -> (r: Self) {
        MacroExampleTool {  }
    }

    /// Its specification: `macro.echo` taking a string `text`, and
    /// `macro.pwd` taking nothing.
    pub fn spec(&self) -> (r: ToolSpec)
        ensures
            tool_shape(r, "macro_example"@, "Example tool implemented via proc-macro"@, seq![
                FunctionShape {
                    name: "macro.echo"@,
                    description: "Echo input for testing macro-generated tools."@,
                    args: echo_args(),
                },
                FunctionShape { name: "macro.pwd"@, description: Seq::empty(), args: Seq::empty() },
            ]),
    {
        let mut echo: Vec<ArgDecl> = Vec::new();
        echo.push(str_decl("text"));
        assert(decl_models(echo@) =~= echo_args());
        let none: Vec<ArgDecl> = Vec::new();
        assert(decl_models(none@) =~= Seq::<DeclModel>::empty());
        let mut functions: Vec<FunctionSpec> = Vec::new();
        functions.push(function_with_args(
            "macro.echo",
            "Echo input for testing macro-generated tools.",
            echo.as_slice(),
        ));
        proof {
            reveal_strlit("");
        }
        let pwd = function_with_args("macro.pwd", "", none.as_slice());
        assert(pwd.description@ =~= Seq::<char>::empty());
        functions.push(pwd);
        ToolSpec {
            id: String::from_str("macro_example"),
            description: String::from_str("Example tool implemented via proc-macro"),
            functions,
        }
    }

    /// Decode a call (see [`macro_outcome`]).
    pub fn decode_call(&self, function_name: &str, args: &JsonValue) -> (r: Result<MacroCall, ToolError>)
        ensures
            macro_outcome_view(r) == macro_outcome(function_name@, args@),
            macro_outcome(function_name@, args@) is NoSuchFunction ==> is_unknown_function(r, function_name@),
    {
        if str_eq(function_name, "macro.echo") {
            let mut ds: Vec<ArgDecl> = Vec::new();
            ds.push(str_decl("text"));
            assert(decl_models(ds@) =~= echo_args());
            match decode_args(args, ds.as_slice()) {
                Ok(vs) => {
                    proof {
                        lemma_decoded_kinds(args@, echo_args());
                    }
                    Ok(MacroCall::Echo { text: str_at(&vs, 0) })
                },
                Err(e) => Err(ToolError::Args(e)),
            }
        } else if str_eq(function_name, "macro.pwd") {
            let ds: Vec<ArgDecl> = Vec::new();
            assert(decl_models(ds@) =~= Seq::<DeclModel>::empty());
            match decode_args(args, ds.as_slice()) {
                Ok(_) => Ok(MacroCall::Pwd),
                Err(e) => Err(ToolError::Args(e)),
            }
        } else {
            Err(ToolError::UnknownFunction { name: String::from_str(function_name) })
        }
    }

    /// `macro.echo`: the text itself.
    pub fn echo(&self, text: String) -> (r: String)
        ensures
            r == text,
    {
        text
    }

    /// `macro.pwd`: the workspace directory.
    pub fn pwd(&self, workspace_path: &str) -> (r: String)
        ensures
            r@ == workspace_path@,
    {
        String::from_str(workspace_path)
    }
}

} // verus!
