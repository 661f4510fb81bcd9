//! Lexical path handling: normalization, making a path absolute against a
//! working directory, and the rule that every path stays inside an allowed
//! root. Unix paths use `/` as their separator; Windows paths use `\` or
//! `/`, may start with a drive or a network share, and are compared
//! without regard to ASCII case.
use vstd::prelude::*;

use crate::error::{internal_error, opt_view, validation_error, AppError, AppErrorView};
use crate::json::{json_object, json_str, json_str_array, json_object_text, json_string, json_string_array};
use crate::text::{
    char_vec_views, chars_of, join, push_chars, split, split_chars, string_from_chars, trim,
    trim_chars, views, starts_with, starts_with_chars, owned, lemma_split_nonempty, lemma_split_pieces_lack_sep, lemma_split_without_sep,
};

verus! {

/// A piece of a path that names nothing by itself: empty (from doubled or
/// trailing separators) or `.`.
pub open spec fn is_skipped(piece: Seq<char>) -> bool {
    piece.len() == 0 || piece == seq!['.']
}

/// The piece `..`.
pub open spec fn is_parent(piece: Seq<char>) -> bool {
    piece == seq!['.', '.']
}

/// A piece that names a directory entry.
pub open spec fn is_normal(piece: Seq<char>) -> bool {
    !is_skipped(piece) && !is_parent(piece)
}

/// The entries that remain after walking `pieces` from left to right:
/// skipped pieces do nothing, `..` removes the last entry if there is one,
/// and any other piece is appended.
pub open spec fn resolve(pieces: Seq<Seq<char>>) -> Seq<Seq<char>>
    decreases pieces.len(),
{
    if pieces.len() == 0 {
        Seq::<Seq<char>>::empty()
    } else {
        let pre = resolve(pieces.drop_last());
        let p = pieces.last();
        if is_skipped(p) {
            pre
        } else if is_parent(p) {
            if pre.len() > 0 {
                pre.drop_last()
            } else {
                pre
            }
        } else {
            pre.push(p)
        }
    }
}

/// The path starts at the root directory.
pub open spec fn is_rooted(path: Seq<char>) -> bool {
    path.len() > 0 && path[0] == '/'
}

/// The named entries of a path, after `.` and `..` are resolved.
pub open spec fn components(path: Seq<char>) -> Seq<Seq<char>> {
    resolve(split(path, '/'))
}

/// The text of a path with the given root flag and entries.
pub open spec fn render(rooted: bool, entries: Seq<Seq<char>>) -> Seq<char> {
    if rooted {
        seq!['/'] + join(entries, seq!['/'])
    } else {
        join(entries, seq!['/'])
    }
}

/// The lexical normal form of a path (`normalize_path`).
pub open spec fn normalize(path: Seq<char>) -> Seq<char> {
    render(is_rooted(path), components(path))
}

/// `base` joined with the relative path `rel` (`Path::join`).
pub open spec fn path_join(base: Seq<char>, rel: Seq<char>) -> Seq<char> {
    if base.len() == 0 || base.last() == '/' {
        base + rel
    } else {
        base + seq!['/'] + rel
    }
}

// ---------------------------------------------------------------------------
// Platforms
// ---------------------------------------------------------------------------

/// How paths are written on the platform the agent runs on.
#[derive(Debug, Clone, Copy, PartialEq, Eq, Structural)]
pub enum PathStyle {
    /// `/` separates entries, and an absolute path starts with `/`.
    Unix,
    /// `\` and `/` both separate entries, a path may start with a drive
    /// (`C:`), and paths are compared without regard to ASCII case.
    Windows,
}

/// The path with every separator written as `/`: on Windows each `\`
/// becomes `/`.
pub open spec fn unify(style: PathStyle, s: Seq<char>) -> Seq<char> {
    match style {
        PathStyle::Unix => s,
        PathStyle::Windows => s.map_values(|c: char| if c == '\\' { '/' } else { c }),
    }
}

/// The path written with the platform's separator: on Windows each `/`
/// becomes `\`.
pub open spec fn native(style: PathStyle, s: Seq<char>) -> Seq<char> {
    match style {
        PathStyle::Unix => s,
        PathStyle::Windows => s.map_values(|c: char| if c == '/' { '\\' } else { c }),
    }
}

/// An ASCII letter.
pub open spec fn is_ascii_letter(c: char) -> bool {
    ('a' <= c <= 'z') || ('A' <= c <= 'Z')
}

/// The ASCII lower-case form of `c`.
pub open spec fn ascii_lower(c: char) -> char {
    if 'A' <= c <= 'Z' {
        ((c as u32) + 32) as char
    } else {
        c
    }
}

/// The text in the case in which paths are compared: ASCII lower case on
/// Windows, unchanged on Unix.
pub open spec fn fold_case(style: PathStyle, s: Seq<char>) -> Seq<char> {
    match style {
        PathStyle::Unix => s,
        PathStyle::Windows => s.map_values(|c: char| ascii_lower(c)),
    }
}

/// The index of the first `/` of `u` at or after `k`, or the length of
/// `u` when there is none.
pub open spec fn next_sep(u: Seq<char>, k: int) -> int
    decreases u.len() - k,
{
    if k < 0 || k >= u.len() {
        u.len() as int
    } else if u[k] == '/' {
        k
    } else {
        next_sep(u, k + 1)
    }
}

/// The length of the prefix that a unified path starts with, which `..`
/// never removes: on Windows a drive (`C:`), or a network share
/// (`//server/share`); nothing on Unix.
pub open spec fn drive_len(style: PathStyle, u: Seq<char>) -> int {
    if style == PathStyle::Windows && u.len() >= 2 && is_ascii_letter(u[0]) && u[1] == ':' {
        2
    } else if style == PathStyle::Windows && u.len() >= 2 && u[0] == '/' && u[1] == '/' {
        let end_server = next_sep(u, 2);
        if end_server < u.len() {
            next_sep(u, end_server + 1)
        } else {
            u.len() as int
        }
    } else {
        0
    }
}

/// The lexical normal form of a path, written with `/`: its prefix (a
/// drive or a network share), if any, followed by the normal form of the
/// rest, in which `..` never removes the prefix.
pub open spec fn normal_form(style: PathStyle, path: Seq<char>) -> Seq<char> {
    let u = unify(style, path);
    let k = drive_len(style, u);
    u.subrange(0, k) + normalize(u.subrange(k, u.len() as int))
}

/// What `normalize_path` gives: the normal form written with the
/// platform's separator.
pub open spec fn normalize_styled(style: PathStyle, path: Seq<char>) -> Seq<char> {
    native(style, normal_form(style, path))
}

/// The form in which paths are compared: the normal form, written with
/// `/`, of the path in the compared case.
pub open spec fn comparable(style: PathStyle, path: Seq<char>) -> Seq<char> {
    normal_form(style, fold_case(style, path))
}

/// The path is absolute (`Path::is_absolute`): on Unix it starts with `/`;
/// on Windows it starts with a drive and a separator, or with two
/// separators (a network path).
pub open spec fn is_absolute(style: PathStyle, t: Seq<char>) -> bool {
    let u = unify(style, t);
    match style {
        PathStyle::Unix => is_rooted(u),
        PathStyle::Windows => (drive_len(style, u) == 2 && u.len() > 2 && u[2] == '/') || (u.len() >= 2
            && u[0] == '/' && u[1] == '/'),
    }
}

/// `base` joined with the path `rel`, which is not absolute
/// (`Path::join`). On Windows a path with a drive but no root replaces the
/// base, and a path with a root but no drive keeps only the base's prefix.
pub open spec fn join_styled(style: PathStyle, base: Seq<char>, rel: Seq<char>) -> Seq<char> {
    let b = unify(style, base);
    let r = unify(style, rel);
    if drive_len(style, r) == 2 {
        r
    } else if style == PathStyle::Windows && r.len() > 0 && r[0] == '/' {
        b.subrange(0, drive_len(style, b)) + r
    } else {
        path_join(b, r)
    }
}

/// What `absolutize_path` gives for `input`, where `cwd` is the working
/// directory or the reason it could not be read.
pub open spec fn absolutize_result(
    style: PathStyle,
    input: Seq<char>,
    cwd: Result<Seq<char>, Seq<char>>,
) -> Result<Seq<char>, AppErrorView> {
    let t = trim(input);
    if t.len() == 0 {
        Err(validation_error("Path must not be empty."@, None))
    } else if is_absolute(style, t) {
        Ok(normalize_styled(style, t))
    } else {
        match cwd {
            Ok(dir) => Ok(normalize_styled(style, join_styled(style, dir, t))),
            Err(cause) => Err(
                internal_error(
                    "Failed to read current working directory."@,
                    Some(json_object(seq!["cause"@], seq![json_str(cause)])),
                ),
            ),
        }
    }
}

/// What every path below the comparable root `r` begins with: `r` itself
/// when it already ends in `/` (a root directory), otherwise `r` and a
/// `/`.
pub open spec fn below_prefix(r: Seq<char>) -> Seq<char> {
    if r.len() > 0 && r.last() == '/' {
        r
    } else {
        r + seq!['/']
    }
}

/// The comparable form `candidate` is that of `root` or lies below it,
/// compared as text.
pub open spec fn under_root(style: PathStyle, candidate: Seq<char>, root: Seq<char>) -> bool {
    let r = comparable(style, root);
    candidate == r || starts_with(candidate, below_prefix(r))
}

/// Some root of `roots` admits the path `resolved`.
pub open spec fn admitted(style: PathStyle, resolved: Seq<char>, roots: Seq<Seq<char>>) -> bool {
    exists|i: int| 0 <= i < roots.len() && under_root(style, comparable(style, resolved), #[trigger] roots[i])
}

/// The error for a path outside every root.
pub open spec fn outside_roots_error(
    field: Seq<char>,
    resolved: Seq<char>,
    roots: Seq<Seq<char>>,
) -> AppErrorView {
    validation_error(
        field + " must stay within an allowed root."@,
        Some(
            json_object(
                seq!["field"@, "resolved_path"@, "allowed_roots"@],
                seq![json_str(field), json_str(resolved), json_str_array(roots)],
            ),
        ),
    )
}

/// What `ensure_allowed_path` gives.
pub open spec fn ensure_allowed_result(
    style: PathStyle,
    input: Seq<char>,
    roots: Seq<Seq<char>>,
    field: Seq<char>,
    cwd: Result<Seq<char>, Seq<char>>,
) -> Result<Seq<char>, AppErrorView> {
    match absolutize_result(style, input, cwd) {
        Err(e) => Err(e),
        Ok(resolved) => if admitted(style, resolved, roots) {
            Ok(resolved)
        } else {
            Err(outside_roots_error(field, resolved, roots))
        },
    }
}

/// The view of a working-directory reading.
pub open spec fn cwd_view(cwd: &Result<String, String>) -> Result<Seq<char>, Seq<char>> {
    match cwd {
        Ok(d) => Ok(d@),
        Err(c) => Err(c@),
    }
}

/// The view of a result that carries a path or an error.
pub open spec fn path_result_view(r: &Result<String, AppError>) -> Result<Seq<char>, AppErrorView> {
    match r {
        Ok(p) => Ok(p@),
        Err(e) => Err(e@),
    }
}

// ---------------------------------------------------------------------------
// Executable functions
// ---------------------------------------------------------------------------

fn is_skipped_exec(piece: &Vec<char>) -> (r: bool)
    ensures
        r == is_skipped(piece@),
{
    let r = piece.len() == 0 || (piece.len() == 1 && piece[0] == '.');
    proof {
        if piece.len() == 1 && piece[0] == '.' {
            assert(piece@ =~= seq!['.']);
        }
    }
    r
}

fn is_parent_exec(piece: &Vec<char>) -> (r: bool)
    ensures
        r == is_parent(piece@),
{
    let r = piece.len() == 2 && piece[0] == '.' && piece[1] == '.';
    proof {
        if r {
            assert(piece@ =~= seq!['.', '.']);
        }
    }
    r
}

/// Appends `entries` joined with `/` to `out`.
fn push_joined_entries(out: &mut Vec<char>, entries: &Vec<Vec<char>>)
    ensures
        final(out)@ == old(out)@ + join(char_vec_views(entries@), seq!['/']),
{
    let ghost start = out@;
    let ghost all = char_vec_views(entries@);
    let mut i: usize = 0;
    while i < entries.len()
        invariant
            i <= entries.len(),
            all == char_vec_views(entries@),
            out@ == start + join(all.take(i as int), seq!['/']),
        decreases entries.len() - i,
    {
        if i > 0 {
            out.push('/');
        }
        push_chars(out, entries[i].as_slice());
        let ghost t = all.take(i + 1);
        assert(t.drop_last() =~= all.take(i as int));
        if i == 0 {
            assert(join(t, seq!['/']) == t[0]);
        }
        assert(out@ =~= start + join(t, seq!['/']));
        i = i + 1;
    }
    assert(all.take(entries.len() as int) =~= all);
}

/// The entries of the path held in `v`, after `.` and `..` are resolved.
fn entries_of(v: &[char]) -> (stack: Vec<Vec<char>>)
    ensures
        char_vec_views(stack@) == components(v@),
{
    let pieces = split_chars(v, '/');
    let ghost ps = char_vec_views(pieces@);
    let mut stack: Vec<Vec<char>> = Vec::new();
    let mut i: usize = 0;
    while i < pieces.len()
        invariant
            i <= pieces.len(),
            ps == char_vec_views(pieces@),
            ps == split(v@, '/'),
            char_vec_views(stack@) == resolve(ps.take(i as int)),
        decreases pieces.len() - i,
    {
        let ghost pre = ps.take(i as int);
        assert(ps.take(i + 1).drop_last() =~= pre);
        assert(ps.take(i + 1).last() == pieces@[i as int]@);
        if is_skipped_exec(&pieces[i]) {
        } else if is_parent_exec(&pieces[i]) {
            if stack.len() > 0 {
                stack.pop();
                assert(char_vec_views(stack@) =~= resolve(pre).drop_last());
            }
        } else {
            stack.push(pieces[i].clone());
            assert(char_vec_views(stack@) =~= resolve(pre).push(ps[i as int]));
        }
        i = i + 1;
    }
    assert(ps.take(pieces.len() as int) =~= ps);
    stack
}

/// The lexical normal form of the path held in `v`.
pub fn normalize_chars(v: &[char]) -> (out: Vec<char>)
    ensures
        out@ == normalize(v@),
{
    let stack = entries_of(v);
    let mut out: Vec<char> = Vec::new();
    let rooted = v.len() > 0 && v[0] == '/';
    if rooted {
        out.push('/');
    }
    push_joined_entries(&mut out, &stack);
    assert(out@ =~= normalize(v@));
    out
}

/// The directory that holds `path`, for a path in normal form (what
/// `Path::parent` gives there): the path without its last entry, keeping
/// its prefix, or nothing when it has no entries.
pub open spec fn parent_dir(style: PathStyle, path: Seq<char>) -> Option<Seq<char>> {
    let u = unify(style, path);
    let k = drive_len(style, u);
    let rest = u.subrange(k, u.len() as int);
    let entries = components(rest);
    if entries.len() == 0 {
        None
    } else {
        Some(native(style, u.subrange(0, k) + render(is_rooted(rest), entries.drop_last())))
    }
}

/// The characters of `v` with every separator written as `/`.
fn unify_chars(style: PathStyle, v: &[char]) -> (out: Vec<char>)
    ensures
        out@ == unify(style, v@),
{
    let mut out: Vec<char> = Vec::new();
    let mut i: usize = 0;
    while i < v.len()
        invariant
            i <= v.len(),
            out@ == unify(style, v@.take(i as int)),
        decreases v.len() - i,
    {
        let c = v[i];
        let d = match style {
            PathStyle::Windows => if c == '\\' {
                '/'
            } else {
                c
            },
            PathStyle::Unix => c,
        };
        out.push(d);
        assert(unify(style, v@.take(i + 1)) =~= unify(style, v@.take(i as int)).push(d));
        i = i + 1;
    }
    assert(v@.take(v.len() as int) =~= v@);
    out
}

/// The string of `v` written with the platform's separator.
fn native_string(style: PathStyle, v: &[char]) -> (out: String)
    ensures
        out@ == native(style, v@),
{
    let mut w: Vec<char> = Vec::new();
    let mut i: usize = 0;
    while i < v.len()
        invariant
            i <= v.len(),
            w@ == native(style, v@.take(i as int)),
        decreases v.len() - i,
    {
        let c = v[i];
        let d = match style {
            PathStyle::Windows => if c == '/' {
                '\\'
            } else {
                c
            },
            PathStyle::Unix => c,
        };
        w.push(d);
        assert(native(style, v@.take(i + 1)) =~= native(style, v@.take(i as int)).push(d));
        i = i + 1;
    }
    assert(v@.take(v.len() as int) =~= v@);
    string_from_chars(w.as_slice())
}

fn ascii_lower_exec(c: char) -> (r: char)
    ensures
        r == ascii_lower(c),
{
    if 'A' <= c && c <= 'Z' {
        ((c as u8) + 32) as char
    } else {
        c
    }
}

/// The characters of `v` in the case in which paths are compared.
fn fold_case_chars(style: PathStyle, v: &[char]) -> (out: Vec<char>)
    ensures
        out@ == fold_case(style, v@),
{
    let mut out: Vec<char> = Vec::new();
    let mut i: usize = 0;
    while i < v.len()
        invariant
            i <= v.len(),
            out@ == fold_case(style, v@.take(i as int)),
        decreases v.len() - i,
    {
        let c = v[i];
        let d = match style {
            PathStyle::Windows => ascii_lower_exec(c),
            PathStyle::Unix => c,
        };
        out.push(d);
        assert(fold_case(style, v@.take(i + 1)) =~= fold_case(style, v@.take(i as int)).push(d));
        i = i + 1;
    }
    assert(v@.take(v.len() as int) =~= v@);
    out
}

fn next_sep_exec(u: &[char], k: usize) -> (r: usize)
    ensures
        r as int == next_sep(u@, k as int),
        k <= u.len() ==> k <= r <= u.len(),
{
    let mut j: usize = k;
    if j >= u.len() {
        return u.len();
    }
    while j < u.len() && u[j] != '/'
        invariant
            k <= j <= u.len(),
            next_sep(u@, k as int) == next_sep(u@, j as int),
        decreases u.len() - j,
    {
        j = j + 1;
    }
    j
}

fn drive_len_exec(style: PathStyle, u: &[char]) -> (k: usize)
    ensures
        k as int == drive_len(style, u@),
        k <= u.len(),
{
    match style {
        PathStyle::Windows => {
            if u.len() >= 2 && (('a' <= u[0] && u[0] <= 'z') || ('A' <= u[0] && u[0] <= 'Z')) && u[1] == ':' {
                2
            } else if u.len() >= 2 && u[0] == '/' && u[1] == '/' {
                let end_server = next_sep_exec(u, 2);
                if end_server < u.len() {
                    next_sep_exec(u, end_server + 1)
                } else {
                    u.len()
                }
            } else {
                0
            }
        },
        PathStyle::Unix => 0,
    }
}

/// The characters of `v` from `start` on.
fn slice_from(v: &[char], start: usize) -> (out: Vec<char>)
    requires
        start <= v.len(),
    ensures
        out@ == v@.subrange(start as int, v.len() as int),
{
    let mut out: Vec<char> = Vec::new();
    let mut i: usize = start;
    while i < v.len()
        invariant
            start <= i <= v.len(),
            out@ == v@.subrange(start as int, i as int),
        decreases v.len() - i,
    {
        out.push(v[i]);
        assert(out@ =~= v@.subrange(start as int, i + 1));
        i = i + 1;
    }
    out
}

/// The normal form, written with `/`, of the path held in `v`.
fn normal_form_chars(style: PathStyle, v: &[char]) -> (out: Vec<char>)
    ensures
        out@ == normal_form(style, v@),
{
    let u = unify_chars(style, v);
    let k = drive_len_exec(style, u.as_slice());
    let rest = slice_from(u.as_slice(), k);
    let n = normalize_chars(rest.as_slice());
    let mut out = slice_from(u.as_slice(), 0);
    out.truncate(k);
    assert(out@ =~= u@.subrange(0, k as int));
    push_chars(&mut out, n.as_slice());
    out
}

/// The directory that holds `path`, or nothing for a root or a bare drive.
pub fn parent_path(path: &str, style: PathStyle) -> (r: Option<String>)
    ensures
        opt_view(r) == parent_dir(style, path@),
{
    let v = chars_of(path);
    let u = unify_chars(style, v.as_slice());
    let k = drive_len_exec(style, u.as_slice());
    let rest = slice_from(u.as_slice(), k);
    let mut stack = entries_of(rest.as_slice());
    if stack.len() == 0 {
        return None;
    }
    let ghost all = char_vec_views(stack@);
    stack.pop();
    assert(char_vec_views(stack@) =~= all.drop_last());
    let mut out = slice_from(u.as_slice(), 0);
    out.truncate(k);
    assert(out@ =~= u@.subrange(0, k as int));
    let ghost pre = out@;
    let rooted = rest.len() > 0 && rest[0] == '/';
    if rooted {
        out.push('/');
    }
    push_joined_entries(&mut out, &stack);
    assert(out@ =~= pre + render(is_rooted(rest@), all.drop_last()));
    Some(native_string(style, out.as_slice()))
}

/// The lexical normal form of a path, written with the platform's
/// separator: `.` pieces and empty pieces are dropped, and `..` removes
/// the entry before it (nothing above the start, and never the drive).
pub fn normalize_path(path: &str, style: PathStyle) -> (out: String)
    ensures
        out@ == normalize_styled(style, path@),
{
    let v = chars_of(path);
    let n = normal_form_chars(style, v.as_slice());
    native_string(style, n.as_slice())
}

/// The form in which paths are compared against the allowed roots: the
/// normal form, written with `/`, in ASCII lower case on Windows.
pub fn comparable_path(path: &str, style: PathStyle) -> (out: String)
    ensures
        out@ == comparable(style, path@),
{
    let v = chars_of(path);
    let f = fold_case_chars(style, v.as_slice());
    let n = normal_form_chars(style, f.as_slice());
    string_from_chars(n.as_slice())
}

fn is_absolute_exec(style: PathStyle, t: &[char]) -> (r: bool)
    ensures
        r == is_absolute(style, t@),
{
    let u = unify_chars(style, t);
    match style {
        PathStyle::Unix => u.len() > 0 && u[0] == '/',
        PathStyle::Windows => {
            let k = drive_len_exec(style, u.as_slice());
            (k == 2 && u.len() > 2 && u[2] == '/') || (u.len() >= 2 && u[0] == '/' && u[1] == '/')
        },
    }
}

/// `base` joined with the relative path `rel`.
fn join_chars(style: PathStyle, base: &str, rel: &[char]) -> (out: Vec<char>)
    ensures
        out@ == join_styled(style, base@, rel@),
{
    let bv = chars_of(base);
    let b = unify_chars(style, bv.as_slice());
    let r = unify_chars(style, rel);
    if drive_len_exec(style, r.as_slice()) == 2 {
        return r;
    }
    let windows = match style {
        PathStyle::Windows => true,
        PathStyle::Unix => false,
    };
    if windows && r.len() > 0 && r[0] == '/' {
        let k = drive_len_exec(style, b.as_slice());
        let mut out = slice_from(b.as_slice(), 0);
        out.truncate(k);
        assert(out@ =~= b@.subrange(0, k as int));
        push_chars(&mut out, r.as_slice());
        return out;
    }
    let mut joined = b;
    if !(joined.len() == 0 || joined[joined.len() - 1] == '/') {
        joined.push('/');
    }
    push_chars(&mut joined, r.as_slice());
    assert(joined@ =~= path_join(unify(style, base@), unify(style, rel@)));
    joined
}

/// Makes `input` absolute against `cwd` and normalizes it. A blank input
/// is rejected; a relative one needs the working directory.
pub fn absolutize_path(input: &str, cwd: &Result<String, String>, style: PathStyle) -> (r: Result<
    String,
    AppError,
>)
    ensures
        path_result_view(&r) == absolutize_result(style, input@, cwd_view(cwd)),
{
    let v = chars_of(input);
    let t = trim_chars(v.as_slice());
    if t.len() == 0 {
        return Err(AppError::validation(owned("Path must not be empty.")));
    }
    if is_absolute_exec(style, t.as_slice()) {
        let n = normal_form_chars(style, t.as_slice());
        return Ok(native_string(style, n.as_slice()));
    }
    match cwd {
        Ok(dir) => {
            let joined = join_chars(style, dir.as_str(), t.as_slice());
            let n = normal_form_chars(style, joined.as_slice());
            Ok(native_string(style, n.as_slice()))
        },
        Err(cause) => {
            let keys = vec![owned("cause")];
            let values = vec![json_string(cause.as_str())];
            let details = json_object_text(&keys, &values);
            proof {
                assert(views(keys@) =~= seq!["cause"@]);
                assert(views(values@) =~= seq![json_str(cause@)]);
            }
            Err(
                AppError::internal_with_details(
                    owned("Failed to read current working directory."),
                    details,
                ),
            )
        },
    }
}

/// Whether the comparable form `candidate` is that of `root` or lies
/// below it.
fn under_root_exec(style: PathStyle, candidate: &Vec<char>, root: &str) -> (r: bool)
    ensures
        r == under_root(style, candidate@, root@),
{
    let rv = chars_of(root);
    let f = fold_case_chars(style, rv.as_slice());
    let mut r = normal_form_chars(style, f.as_slice());
    if crate::text::chars_equal(candidate.as_slice(), r.as_slice()) {
        return true;
    }
    if r.len() > 0 && r[r.len() - 1] == '/' {
        return starts_with_chars(candidate.as_slice(), r.as_slice());
    }
    let ghost r0 = r@;
    r.push('/');
    assert(r@ =~= r0 + seq!['/']);
    starts_with_chars(candidate.as_slice(), r.as_slice())
}

/// Resolves `input` and accepts it only if it stays within one of
/// `allowed_roots`; otherwise a validation error names `field_name`.
pub fn ensure_allowed_path(
    input: &str,
    allowed_roots: &Vec<String>,
    field_name: &str,
    cwd: &Result<String, String>,
    style: PathStyle,
) -> (r: Result<String, AppError>)
    ensures
        path_result_view(&r) == ensure_allowed_result(style, input@, views(allowed_roots@), field_name@, cwd_view(cwd)),
{
    let resolved = match absolutize_path(input, cwd, style) {
        Ok(p) => p,
        Err(e) => return Err(e),
    };
    let rc = chars_of(resolved.as_str());
    let f = fold_case_chars(style, rc.as_slice());
    let candidate = normal_form_chars(style, f.as_slice());
    let mut i: usize = 0;
    while i < allowed_roots.len()
        invariant
            i <= allowed_roots.len(),
            candidate@ == comparable(style, resolved@),
            absolutize_result(style, input@, cwd_view(cwd)) == Ok::<Seq<char>, AppErrorView>(resolved@),
            forall|j: int| 0 <= j < i ==> !under_root(style, candidate@, #[trigger] views(allowed_roots@)[j]),
        decreases allowed_roots.len() - i,
    {
        if under_root_exec(style, &candidate, allowed_roots[i].as_str()) {
            assert(under_root(style, comparable(style, resolved@), views(allowed_roots@)[i as int]));
            return Ok(resolved);
        }
        i = i + 1;
    }
    let mut message = field_name.to_owned();
    message.append(" must stay within an allowed root.");
    let keys = vec![owned("field"), owned("resolved_path"), owned("allowed_roots")];
    let values = vec![json_string(field_name), json_string(resolved.as_str()), json_string_array(allowed_roots)];
    let details = json_object_text(&keys, &values);
    proof {
        assert(views(keys@) =~= seq!["field"@, "resolved_path"@, "allowed_roots"@]);
        assert(views(values@) =~= seq![json_str(field_name@), json_str(resolved@), json_str_array(views(allowed_roots@))]);
    }
    Err(AppError::validation_with_details(message, details))
}

// ---------------------------------------------------------------------------
// Laws
// ---------------------------------------------------------------------------

/// `path` lies at or below `root`: the entries of `root` begin the entries
/// of `path`, and an absolute root admits only absolute paths.
pub open spec fn path_within(path: Seq<char>, root: Seq<char>) -> bool {
    &&& is_rooted(root) ==> is_rooted(path)
    &&& components(root).is_prefix_of(components(path))
}

/// Splitting around one separator splits each side.
proof fn lemma_split_concat(x: Seq<char>, y: Seq<char>, sep: char)
    ensures
        split(x + seq![sep] + y, sep) == split(x, sep) + split(y, sep),
    decreases y.len(),
{
    let xs = x + seq![sep];
    if y.len() == 0 {
        assert(x + seq![sep] + y =~= xs);
        assert(xs.drop_last() =~= x);
        assert(split(x, sep).push(Seq::<char>::empty()) =~= split(x, sep) + split(y, sep));
    } else {
        let y0 = y.drop_last();
        let c = y.last();
        lemma_split_concat(x, y0, sep);
        lemma_split_nonempty(y0, sep);
        assert((x + seq![sep] + y).drop_last() =~= x + seq![sep] + y0);
        assert((x + seq![sep] + y).last() == c);
        if c == sep {
            assert(split(x + seq![sep] + y0, sep).push(Seq::<char>::empty())
                =~= split(x, sep) + split(y, sep));
        } else {
            let l = split(x + seq![sep] + y0, sep);
            assert(l.update(l.len() - 1, l.last().push(c)) =~= split(x, sep) + split(y, sep));
        }
    }
}

/// Entries without the separator come back from their join unchanged.
proof fn lemma_split_join(entries: Seq<Seq<char>>, sep: char)
    requires
        entries.len() >= 1,
        forall|i: int| 0 <= i < entries.len() ==> !(#[trigger] entries[i]).contains(sep),
    ensures
        split(join(entries, seq![sep]), sep) == entries,
    decreases entries.len(),
{
    if entries.len() == 1 {
        lemma_split_without_sep(entries[0], sep);
        assert(seq![entries[0]] =~= entries);
    } else {
        let pre = entries.drop_last();
        lemma_split_join(pre, sep);
        lemma_split_without_sep(entries.last(), sep);
        lemma_split_concat(join(pre, seq![sep]), entries.last(), sep);
        assert(pre + seq![entries.last()] =~= entries);
    }
}

/// Every entry that `resolve` keeps names a directory entry.
proof fn lemma_resolve_normal(pieces: Seq<Seq<char>>)
    ensures
        forall|i: int| 0 <= i < resolve(pieces).len() ==> is_normal(#[trigger] resolve(pieces)[i]),
    decreases pieces.len(),
{
    if pieces.len() > 0 {
        lemma_resolve_normal(pieces.drop_last());
        let pre = resolve(pieces.drop_last());
        let p = pieces.last();
        let r = resolve(pieces);
        if is_skipped(p) {
            assert(r == pre);
        } else if is_parent(p) {
            if pre.len() > 0 {
                assert forall|i: int| 0 <= i < r.len() implies is_normal(#[trigger] r[i]) by {
                    assert(r[i] == pre[i]);
                }
            }
        } else {
            assert forall|i: int| 0 <= i < r.len() implies is_normal(#[trigger] r[i]) by {
                if i < pre.len() {
                    assert(r[i] == pre[i]);
                }
            }
        }
    }
}

/// `resolve` keeps no entry that holds `c` when no piece holds it.
proof fn lemma_resolve_lacks(pieces: Seq<Seq<char>>, c: char)
    requires
        forall|i: int| 0 <= i < pieces.len() ==> !(#[trigger] pieces[i]).contains(c),
    ensures
        forall|i: int| 0 <= i < resolve(pieces).len() ==> !(#[trigger] resolve(pieces)[i]).contains(c),
    decreases pieces.len(),
{
    if pieces.len() > 0 {
        let pre = pieces.drop_last();
        assert forall|i: int| 0 <= i < pre.len() implies !(#[trigger] pre[i]).contains(c) by {
            assert(pre[i] == pieces[i]);
        }
        lemma_resolve_lacks(pre, c);
        assert(!pieces.last().contains(c)) by {
            assert(pieces[pieces.len() - 1] == pieces.last());
        }
        let rp = resolve(pre);
        let p = pieces.last();
        let r = resolve(pieces);
        if is_skipped(p) {
            assert(r == rp);
        } else if is_parent(p) {
            if rp.len() > 0 {
                assert forall|i: int| 0 <= i < r.len() implies !(#[trigger] r[i]).contains(c) by {
                    assert(r[i] == rp[i]);
                }
            }
        } else {
            assert forall|i: int| 0 <= i < r.len() implies !(#[trigger] r[i]).contains(c) by {
                if i < rp.len() {
                    assert(r[i] == rp[i]);
                }
            }
        }
    }
}

/// Appending entries that all name directory entries appends them to the
/// resolution.
proof fn lemma_resolve_append_normal(pre: Seq<Seq<char>>, more: Seq<Seq<char>>)
    requires
        forall|i: int| 0 <= i < more.len() ==> is_normal(#[trigger] more[i]),
    ensures
        resolve(pre + more) == resolve(pre) + more,
    decreases more.len(),
{
    if more.len() == 0 {
        assert(pre + more =~= pre);
        assert(resolve(pre) + more =~= resolve(pre));
    } else {
        let m0 = more.drop_last();
        assert forall|i: int| 0 <= i < m0.len() implies is_normal(#[trigger] m0[i]) by {
            assert(m0[i] == more[i]);
        }
        lemma_resolve_append_normal(pre, m0);
        assert((pre + more).drop_last() =~= pre + m0);
        assert((pre + more).last() == more.last());
        assert(is_normal(more[more.len() - 1]));
        assert((resolve(pre) + m0).push(more.last()) =~= resolve(pre) + more);
    }
}

/// The first character of a join is the first character of its first item.
proof fn lemma_join_first(entries: Seq<Seq<char>>, sep: Seq<char>)
    requires
        entries.len() >= 1,
        entries[0].len() >= 1,
    ensures
        join(entries, sep).len() >= entries[0].len(),
        join(entries, sep)[0] == entries[0][0],
    decreases entries.len(),
{
    if entries.len() > 1 {
        let pre = entries.drop_last();
        assert(pre[0] == entries[0]);
        lemma_join_first(pre, sep);
    }
}

/// How a path in normal form splits: entries of a normal form hold no
/// separator and name directory entries, and the pieces are those entries,
/// after one empty piece when the path is absolute.
proof fn lemma_split_rendered(rooted: bool, entries: Seq<Seq<char>>)
    requires
        forall|i: int| 0 <= i < entries.len() ==> is_normal(#[trigger] entries[i]),
        forall|i: int| 0 <= i < entries.len() ==> !(#[trigger] entries[i]).contains('/'),
    ensures
        rooted && entries.len() == 0 ==> split(render(rooted, entries), '/') == seq![
            Seq::<char>::empty(),
            Seq::<char>::empty(),
        ],
        rooted && entries.len() > 0 ==> split(render(rooted, entries), '/') == seq![
            Seq::<char>::empty(),
        ] + entries,
        !rooted && entries.len() == 0 ==> split(render(rooted, entries), '/') == seq![
            Seq::<char>::empty(),
        ],
        !rooted && entries.len() > 0 ==> split(render(rooted, entries), '/') == entries,
        is_rooted(render(rooted, entries)) == rooted,
{
    let e = Seq::<char>::empty();
    if entries.len() > 0 {
        lemma_split_join(entries, '/');
        lemma_join_first(entries, seq!['/']);
        assert(entries[0][0] != '/') by {
            assert(!entries[0].contains('/'));
            assert(entries[0][0] == entries[0][0]);
        }
        if rooted {
            lemma_split_concat(e, join(entries, seq!['/']), '/');
            assert(e + seq!['/'] + join(entries, seq!['/']) =~= render(rooted, entries));
            assert(split(e, '/') == seq![e]);
        }
    } else {
        assert(join(entries, seq!['/']) =~= e);
        if rooted {
            lemma_split_concat(e, e, '/');
            assert(e + seq!['/'] + e =~= render(rooted, entries));
            assert(split(e, '/') == seq![e]);
            assert(seq![e] + seq![e] =~= seq![e, e]);
        }
    }
}

/// The entries of any path name directory entries and hold no separator.
proof fn lemma_components_clean(path: Seq<char>)
    ensures
        forall|i: int| 0 <= i < components(path).len() ==> is_normal(#[trigger] components(path)[i]),
        forall|i: int| 0 <= i < components(path).len() ==> !(#[trigger] components(path)[i]).contains('/'),
{
    lemma_resolve_normal(split(path, '/'));
    lemma_split_pieces_lack_sep(path, '/');
    let ps = split(path, '/');
    assert forall|i: int| 0 <= i < ps.len() implies !(#[trigger] ps[i]).contains('/') by {
        if ps[i].contains('/') {
            let k = choose|k: int| 0 <= k < ps[i].len() && ps[i][k] == '/';
        }
    }
    lemma_resolve_lacks(ps, '/');
}

/// A lone empty piece resolves to nothing.
proof fn lemma_resolve_single_empty()
    ensures
        resolve(seq![Seq::<char>::empty()]) == Seq::<Seq<char>>::empty(),
{
    let e = Seq::<char>::empty();
    assert(seq![e].drop_last() =~= Seq::<Seq<char>>::empty());
    assert(resolve(Seq::<Seq<char>>::empty()) == Seq::<Seq<char>>::empty());
    assert(seq![e].last() == e);
    assert(is_skipped(e));
}

/// A path in normal form keeps its root flag and its entries.
proof fn lemma_normalize_parts(path: Seq<char>)
    ensures
        is_rooted(normalize(path)) == is_rooted(path),
        components(normalize(path)) == components(path),
{
    let e = Seq::<char>::empty();
    let c = components(path);
    lemma_components_clean(path);
    lemma_split_rendered(is_rooted(path), c);
    if is_rooted(path) {
        if c.len() == 0 {
            assert(seq![e, e].drop_last() =~= seq![e]);
            assert(resolve(seq![e]) == resolve(seq![e].drop_last()));
            assert(seq![e].drop_last() =~= Seq::<Seq<char>>::empty());
        } else {
            lemma_resolve_append_normal(seq![e], c);
            assert(seq![e].drop_last() =~= Seq::<Seq<char>>::empty());
            lemma_resolve_single_empty();
            assert(Seq::<Seq<char>>::empty() + c =~= c);
        }
    } else {
        if c.len() == 0 {
            assert(seq![e].drop_last() =~= Seq::<Seq<char>>::empty());
            lemma_resolve_single_empty();
        } else {
            lemma_resolve_append_normal(Seq::<Seq<char>>::empty(), c);
            assert(Seq::<Seq<char>>::empty() + c =~= c);
        }
    }
}

/// Normalizing a path twice gives what normalizing it once gives.
pub proof fn law_normalize_idempotent(path: Seq<char>)
    ensures
        normalize(normalize(path)) == normalize(path),
        forall|i: int|
            0 <= i < components(normalize(path)).len() ==> is_normal(
                #[trigger] components(normalize(path))[i],
            ),
{
    lemma_normalize_parts(path);
    lemma_components_clean(path);
}

/// On Unix the styled forms are the plain ones.
proof fn lemma_unix_forms(p: Seq<char>, q: Seq<char>)
    ensures
        unify(PathStyle::Unix, p) == p,
        fold_case(PathStyle::Unix, p) == p,
        drive_len(PathStyle::Unix, p) == 0,
        normal_form(PathStyle::Unix, p) == normalize(p),
        comparable(PathStyle::Unix, p) == normalize(p),
        normalize_styled(PathStyle::Unix, p) == normalize(p),
        is_absolute(PathStyle::Unix, p) == is_rooted(p),
        join_styled(PathStyle::Unix, p, q) == path_join(p, q),
{
    assert(p.subrange(0, 0) + normalize(p.subrange(0, p.len() as int)) =~= normalize(p)) by {
        assert(p.subrange(0, p.len() as int) =~= p);
    }
}

/// On Unix, a path accepted by `ensure_allowed_path` is in normal form,
/// and it lies at or below one of the allowed roots, entry by entry.
pub proof fn law_accepted_path_within_root(
    input: Seq<char>,
    roots: Seq<Seq<char>>,
    field: Seq<char>,
    cwd: Result<Seq<char>, Seq<char>>,
    accepted: Seq<char>,
)
    requires
        ensure_allowed_result(PathStyle::Unix, input, roots, field, cwd) == Ok::<Seq<char>, AppErrorView>(
            accepted,
        ),
    ensures
        normalize(accepted) == accepted,
        exists|i: int| 0 <= i < roots.len() && path_within(accepted, #[trigger] roots[i]),
{
    let t = trim(input);
    let raw = if is_rooted(t) {
        t
    } else {
        path_join(cwd->Ok_0, t)
    };
    lemma_unix_forms(t, t);
    if !is_rooted(t) {
        lemma_unix_forms(cwd->Ok_0, t);
        lemma_unix_forms(raw, raw);
    }
    assert(accepted == normalize(raw));
    lemma_unix_forms(accepted, accepted);
    law_normalize_idempotent(raw);
    let i = choose|i: int| 0 <= i < roots.len() && under_root(PathStyle::Unix, comparable(PathStyle::Unix, accepted), #[trigger] roots[i]);
    lemma_unix_forms(roots[i], roots[i]);
    let r = roots[i];
    let nr = normalize(r);
    lemma_normalize_parts(r);
    lemma_normalize_parts(raw);
    if accepted == nr {
    } else if nr.len() > 0 && nr.last() == '/' {
        let cr = components(r);
        lemma_components_clean(r);
        lemma_split_rendered(is_rooted(r), cr);
        let sr = split(nr, '/');
        assert(sr.last() == Seq::<char>::empty());
        if cr.len() > 0 {
            if is_rooted(r) {
                assert(sr =~= seq![Seq::<char>::empty()] + cr);
            }
            assert(sr.last() == cr.last());
            assert(is_normal(cr[cr.len() - 1]));
            assert(false);
        }
        assert(cr.is_prefix_of(components(raw)));
        assert(accepted[0] == nr[0]);
        assert(is_rooted(r)) by {
            if !is_rooted(r) {
                assert(nr == render(false, cr));
            }
        }
    } else {
        let rest = accepted.subrange(nr.len() as int + 1, accepted.len() as int);
        assert(accepted =~= nr + seq!['/'] + rest);
        lemma_split_concat(nr, rest, '/');
        let cr = components(r);
        let ca = components(raw);
        lemma_components_clean(r);
        lemma_components_clean(raw);
        lemma_split_rendered(is_rooted(r), cr);
        lemma_split_rendered(is_rooted(raw), ca);
        let e = Seq::<char>::empty();
        if cr.len() == 0 {
            assert(cr.is_prefix_of(ca));
            if is_rooted(r) {
                assert(accepted[0] == nr[0]);
            }
        } else {
            assert(nr.len() >= 1);
            assert(accepted[0] == nr[0]);
            let sa = split(accepted, '/');
            let sr = split(nr, '/');
            assert(sa.subrange(0, sr.len() as int) =~= sr);
            if is_rooted(r) {
                assert(is_rooted(raw));
                assert(accepted.len() > 1);
                if ca.len() == 0 {
                    assert(accepted =~= seq!['/']);
                }
                assert(sr =~= seq![e] + cr);
                assert(sa =~= seq![e] + ca);
                assert forall|k: int| 0 <= k < cr.len() implies cr[k] == ca[k] by {
                    assert(sr[k + 1] == sa[k + 1]);
                }
            } else {
                assert(!is_rooted(raw));
                assert(ca.len() > 0) by {
                    if ca.len() == 0 {
                        assert(accepted.len() == 0);
                    }
                }
                assert forall|k: int| 0 <= k < cr.len() implies cr[k] == ca[k] by {
                    assert(sr[k] == sa[k]);
                }
            }
            assert(cr.is_prefix_of(ca));
        }
    }
    assert(path_within(accepted, roots[i]));
}

/// The pieces that are not empty, in order.
pub open spec fn named_pieces(pieces: Seq<Seq<char>>) -> Seq<Seq<char>>
    decreases pieces.len(),
{
    if pieces.len() == 0 {
        Seq::<Seq<char>>::empty()
    } else if pieces.last().len() > 0 {
        named_pieces(pieces.drop_last()).push(pieces.last())
    } else {
        named_pieces(pieces.drop_last())
    }
}

/// The entries written in a `/`-separated text: its pieces that are not
/// empty.
pub open spec fn text_entries(s: Seq<char>) -> Seq<Seq<char>> {
    named_pieces(split(s, '/'))
}

/// The comparable form `c` lies at or below the comparable form `r`: the
/// entries of `r` begin those of `c`, and a rooted `r` admits only rooted
/// forms.
pub open spec fn entries_within(c: Seq<char>, r: Seq<char>) -> bool {
    &&& text_entries(r).is_prefix_of(text_entries(c))
    &&& is_rooted(r) ==> is_rooted(c)
}

proof fn lemma_named_concat(a: Seq<Seq<char>>, b: Seq<Seq<char>>)
    ensures
        named_pieces(a + b) == named_pieces(a) + named_pieces(b),
    decreases b.len(),
{
    if b.len() == 0 {
        assert(a + b =~= a);
        assert(named_pieces(a) + named_pieces(b) =~= named_pieces(a));
    } else {
        lemma_named_concat(a, b.drop_last());
        assert((a + b).drop_last() =~= a + b.drop_last());
        assert((a + b).last() == b.last());
        if b.last().len() > 0 {
            assert(named_pieces(a) + named_pieces(b) =~= (named_pieces(a) + named_pieces(b.drop_last())).push(b.last()));
        }
    }
}

/// A text that is `r` or begins with what lies below `r` has the entries
/// of `r` first.
proof fn lemma_textual_within(c: Seq<char>, r: Seq<char>)
    requires
        c == r || starts_with(c, below_prefix(r)),
    ensures
        entries_within(c, r),
{
    if c != r {
        let b = below_prefix(r);
        let rest = c.subrange(b.len() as int, c.len() as int);
        assert(c =~= b + rest);
        let e = Seq::<char>::empty();
        if r.len() > 0 && r.last() == '/' {
            let r0 = r.drop_last();
            assert(r =~= r0 + seq!['/'] + e);
            assert(c =~= r0 + seq!['/'] + rest);
            lemma_split_concat(r0, e, '/');
            lemma_split_concat(r0, rest, '/');
            assert(split(e, '/') == seq![e]);
            lemma_named_concat(split(r0, '/'), split(e, '/'));
            lemma_named_concat(split(r0, '/'), split(rest, '/'));
            assert(named_pieces(seq![e]) =~= Seq::<Seq<char>>::empty()) by {
                let one = seq![e];
                assert(one.drop_last() =~= Seq::<Seq<char>>::empty());
                assert(one.last() == e);
                assert(one.last().len() == 0);
                assert(named_pieces(one) == named_pieces(one.drop_last()));
                assert(named_pieces(Seq::<Seq<char>>::empty()) == Seq::<Seq<char>>::empty());
            }
            assert(text_entries(r) =~= named_pieces(split(r0, '/')));
            assert(c[0] == r[0]);
        } else {
            assert(c =~= r + seq!['/'] + rest);
            lemma_split_concat(r, rest, '/');
            lemma_named_concat(split(r, '/'), split(rest, '/'));
            if r.len() > 0 {
                assert(c[0] == r[0]);
            }
        }
    }
}

/// On every platform, a path accepted by `ensure_allowed_path` lies at or
/// below one of the allowed roots: compared in the form in which the
/// platform compares paths (separators unified, and on Windows without
/// regard to ASCII case), the entries of the root begin those of the path.
pub proof fn law_accepted_path_in_root(
    style: PathStyle,
    input: Seq<char>,
    roots: Seq<Seq<char>>,
    field: Seq<char>,
    cwd: Result<Seq<char>, Seq<char>>,
    accepted: Seq<char>,
)
    requires
        ensure_allowed_result(style, input, roots, field, cwd) == Ok::<Seq<char>, AppErrorView>(accepted),
    ensures
        exists|i: int|
            0 <= i < roots.len() && entries_within(comparable(style, accepted), comparable(style, #[trigger] roots[i])),
{
    let i = choose|i: int| 0 <= i < roots.len() && under_root(style, comparable(style, accepted), #[trigger] roots[i]);
    lemma_textual_within(comparable(style, accepted), comparable(style, roots[i]));
}

/// Walking one more piece: after `p`, a piece `x` without a separator
/// adds the entry `x`, `.` or an empty piece changes nothing, and `..`
/// removes the last entry (if there is one).
pub proof fn law_path_steps(p: Seq<char>, x: Seq<char>)
    requires
        !x.contains('/'),
    ensures
        is_normal(x) ==> components(p + seq!['/'] + x) == components(p).push(x),
        is_skipped(x) ==> components(p + seq!['/'] + x) == components(p),
        is_parent(x) ==> components(p + seq!['/'] + x) == (if components(p).len() > 0 {
            components(p).drop_last()
        } else {
            components(p)
        }),
        is_rooted(p + seq!['/'] + x) == (is_rooted(p) || p.len() == 0),
{
    lemma_split_concat(p, x, '/');
    lemma_split_without_sep(x, '/');
    let ps = split(p, '/') + seq![x];
    assert(ps.drop_last() =~= split(p, '/'));
    assert(ps.last() == x);
    if p.len() == 0 {
        assert((p + seq!['/'] + x)[0] == '/');
    } else {
        assert((p + seq!['/'] + x)[0] == p[0]);
    }
}

/// On Windows, paths are compared without regard to ASCII case or to
/// which separator they use: two paths that differ only there compare
/// equal.
pub proof fn law_windows_comparison(p: Seq<char>, q: Seq<char>)
    ensures
        fold_case(PathStyle::Windows, p) == fold_case(PathStyle::Windows, q) ==> comparable(
            PathStyle::Windows,
            p,
        ) == comparable(PathStyle::Windows, q),
        comparable(PathStyle::Windows, p) == comparable(PathStyle::Windows, unify(PathStyle::Windows, p)),
{
    let w = PathStyle::Windows;
    assert(unify(w, fold_case(w, p)) =~= unify(w, fold_case(w, unify(w, p))));
}

} // verus!
