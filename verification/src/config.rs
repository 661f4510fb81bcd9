//! The agent's configuration and how it is read from environment values:
//! defaults, number parsing, the WebSocket path, the allowed roots and the
//! programs that `command.run` may start.
use vstd::prelude::*;

use crate::error::{validation_error, AppError, AppErrorView, opt_view};
use crate::path_policy::{absolutize_path, absolutize_result, cwd_view, path_result_view, PathStyle};
use crate::text::{
    chars_of, contains_char, decimal, join, owned, parse_bounded, parse_bounded_str, push_chars,
    push_joined, split, split_chars, string_from_chars, trim, trim_chars, views, char_vec_views,
    chars_equal, is_white_space, lemma_split_without_sep, trim_end, trim_start,
};

verus! {

/// Everything the agent is configured with.
#[derive(Debug, Clone)]
pub struct Config {
    pub host: String,
    pub port: u16,
    pub ws_path: String,
    pub api_token: Option<String>,
    /// Absolute, normalized roots that every local path must stay within.
    pub allowed_roots: Vec<String>,
    pub command_timeout_ms: u64,
    pub retained_task_limit: usize,
    pub git_binary: String,
    /// The programs `command.run` may start; none occurs twice.
    pub command_allowed_programs: Vec<String>,
    /// How paths are written on this platform.
    pub path_style: PathStyle,
}

/// The environment values the configuration is read from. A variable that
/// is unset (or not valid Unicode) is `None`. `allowed_roots` holds the
/// pieces of `AGENT_ALLOWED_ROOTS` split at the platform's path-list
/// separator, and is `None` when the variable is unset or empty.
#[derive(Debug)]
pub struct EnvVars {
    pub host: Option<String>,
    pub port: Option<String>,
    pub ws_path: Option<String>,
    pub api_token: Option<String>,
    pub allowed_roots: Option<Vec<String>>,
    pub home: Option<String>,
    pub command_timeout_ms: Option<String>,
    pub retained_tasks: Option<String>,
    pub git_binary: Option<String>,
    pub allowed_programs: Option<String>,
    /// The working directory, or why it could not be read.
    pub current_dir: Result<String, String>,
    /// How paths are written on this platform.
    pub path_style: PathStyle,
}

// ---------------------------------------------------------------------------
// Specifications
// ---------------------------------------------------------------------------

/// `s` without every trailing `c` (`str::trim_end_matches`).
pub open spec fn trim_end_char(s: Seq<char>, c: char) -> Seq<char>
    decreases s.len(),
{
    if s.len() > 0 && s.last() == c {
        trim_end_char(s.drop_last(), c)
    } else {
        s
    }
}

/// What `normalize_ws_path` gives for `raw`.
pub open spec fn ws_path_result(raw: Seq<char>) -> Result<Seq<char>, AppErrorView> {
    let t = trim(raw);
    let prefixed = if t.len() > 0 && t[0] == '/' {
        t
    } else {
        seq!['/'] + t
    };
    if t.len() == 0 {
        Err(validation_error("AGENT_WS_PATH must not be empty."@, None))
    } else if prefixed.contains('?') || prefixed.contains('#') {
        Err(
            validation_error(
                "AGENT_WS_PATH must be a path only, without query string or fragment."@,
                None,
            ),
        )
    } else if prefixed.len() > 1 && prefixed.last() == '/' {
        if trim_end_char(prefixed, '/').len() == 0 {
            Ok(seq!['/'])
        } else {
            Ok(trim_end_char(prefixed, '/'))
        }
    } else {
        Ok(prefixed)
    }
}

/// What reading an unsigned number from an optional variable gives: the
/// default when unset, the number when it parses and fits below `max`,
/// and otherwise a validation error with `message`.
pub open spec fn number_result(
    value: Option<Seq<char>>,
    default: nat,
    max: nat,
    message: Seq<char>,
) -> Result<nat, AppErrorView> {
    match value {
        None => Ok(default),
        Some(v) => match parse_bounded(v, max) {
            Some(n) => Ok(n),
            None => Err(validation_error(message, None)),
        },
    }
}

/// Absolutizes every piece in order; the first failure is the result.
pub open spec fn absolutize_all(
    style: PathStyle,
    pieces: Seq<Seq<char>>,
    cwd: Result<Seq<char>, Seq<char>>,
) -> Result<
    Seq<Seq<char>>,
    AppErrorView,
>
    decreases pieces.len(),
{
    if pieces.len() == 0 {
        Ok(Seq::<Seq<char>>::empty())
    } else {
        match absolutize_all(style, pieces.drop_last(), cwd) {
            Err(e) => Err(e),
            Ok(done) => match absolutize_result(style, pieces.last(), cwd) {
                Err(e) => Err(e),
                Ok(p) => Ok(done.push(p)),
            },
        }
    }
}

/// What `parse_allowed_roots` gives.
pub open spec fn allowed_roots_result(
    style: PathStyle,
    pieces: Option<Seq<Seq<char>>>,
    home: Option<Seq<char>>,
    cwd: Result<Seq<char>, Seq<char>>,
) -> Result<Seq<Seq<char>>, AppErrorView> {
    let roots = match pieces {
        Some(ps) => absolutize_all(style, ps, cwd),
        None => match absolutize_result(
            style,
            match home {
                Some(h) => h,
                None => seq!['.'],
            },
            cwd,
        ) {
            Ok(p) => Ok(seq![p]),
            Err(e) => Err(e),
        },
    };
    match roots {
        Err(e) => Err(e),
        Ok(rs) => if rs.len() == 0 {
            Err(validation_error("At least one allowed root must be configured."@, None))
        } else {
            Ok(rs)
        },
    }
}

/// The program names listed in `text`: the comma-separated items, trimmed,
/// without empty ones.
pub open spec fn listed_programs(text: Seq<char>) -> Set<Seq<char>> {
    Set::new(
        |p: Seq<char>|
            p.len() > 0 && exists|i: int|
                0 <= i < split(text, ',').len() && trim(#[trigger] split(text, ',')[i]) == p,
    )
}

/// The set of programs `parse_allowed_programs` yields.
pub open spec fn allowed_programs_set(value: Option<Seq<char>>, defaults: Seq<Seq<char>>) -> Set<
    Seq<char>,
> {
    let text = match value {
        Some(v) => v,
        None => join(defaults, seq![',']),
    };
    if listed_programs(text).is_empty() {
        defaults.to_set()
    } else {
        listed_programs(text)
    }
}

// ---------------------------------------------------------------------------
// Executable functions
// ---------------------------------------------------------------------------

fn trim_end_char_exec(v: &Vec<char>, c: char) -> (out: Vec<char>)
    ensures
        out@ == trim_end_char(v@, c),
{
    let mut j: usize = v.len();
    assert(v@.subrange(0, j as int) =~= v@);
    while j > 0 && v[j - 1] == c
        invariant
            j <= v.len(),
            trim_end_char(v@, c) == trim_end_char(v@.subrange(0, j as int), c),
        decreases j,
    {
        assert(v@.subrange(0, j as int).drop_last() =~= v@.subrange(0, j - 1));
        j = j - 1;
    }
    let mut out: Vec<char> = Vec::new();
    let mut k: usize = 0;
    while k < j
        invariant
            k <= j <= v.len(),
            out@ == v@.subrange(0, k as int),
        decreases j - k,
    {
        out.push(v[k]);
        assert(out@ =~= v@.subrange(0, k + 1));
        k = k + 1;
    }
    out
}

/// Checks and normalizes the WebSocket path: it must not be blank, gets a
/// leading `/`, must hold no query string or fragment, and loses trailing
/// slashes; a path of slashes alone becomes `/`.
pub fn normalize_ws_path(raw: &str) -> (r: Result<String, AppError>)
    ensures
        path_result_view(&r) == ws_path_result(raw@),
{
    let v = chars_of(raw);
    let t = trim_chars(v.as_slice());
    if t.len() == 0 {
        return Err(AppError::validation(owned("AGENT_WS_PATH must not be empty.")));
    }
    let prefixed: Vec<char> = if t[0] == '/' {
        t
    } else {
        let mut p = vec!['/'];
        push_chars(&mut p, t.as_slice());
        assert(p@ =~= seq!['/'] + t@);
        p
    };
    if contains_char(prefixed.as_slice(), '?') || contains_char(prefixed.as_slice(), '#') {
        return Err(
            AppError::validation(
                owned("AGENT_WS_PATH must be a path only, without query string or fragment."),
            ),
        );
    }
    if prefixed.len() > 1 && prefixed[prefixed.len() - 1] == '/' {
        let trimmed = trim_end_char_exec(&prefixed, '/');
        if trimmed.len() == 0 {
            let root = vec!['/'];
            assert(root@ =~= seq!['/']);
            return Ok(string_from_chars(root.as_slice()));
        }
        return Ok(string_from_chars(trimmed.as_slice()));
    }
    Ok(string_from_chars(prefixed.as_slice()))
}

/// Reads a port number: the default when unset, otherwise a number that
/// fits in 16 bits.
pub fn parse_u16(key: &str, value: &Option<String>, default: u16) -> (r: Result<u16, AppError>)
    ensures
        match r {
            Ok(n) => number_result(opt_view(*value), default as nat, u16::MAX as nat, key@ + " must be a valid unsigned 16-bit integer."@) == Ok::<nat, AppErrorView>(n as nat),
            Err(e) => number_result(opt_view(*value), default as nat, u16::MAX as nat, key@ + " must be a valid unsigned 16-bit integer."@) == Err::<nat, AppErrorView>(e@),
        },
{
    match value {
        None => Ok(default),
        Some(v) => match parse_bounded_str(v.as_str(), 65535) {
            Some(n) => Ok(n as u16),
            None => {
                let mut message = key.to_owned();
                message.append(" must be a valid unsigned 16-bit integer.");
                Err(AppError::validation(message))
            },
        },
    }
}

/// Reads an unsigned 64-bit number: the default when unset.
pub fn parse_u64(key: &str, value: &Option<String>, default: u64) -> (r: Result<u64, AppError>)
    ensures
        match r {
            Ok(n) => number_result(opt_view(*value), default as nat, u64::MAX as nat, key@ + " must be a valid integer."@) == Ok::<nat, AppErrorView>(n as nat),
            Err(e) => number_result(opt_view(*value), default as nat, u64::MAX as nat, key@ + " must be a valid integer."@) == Err::<nat, AppErrorView>(e@),
        },
{
    match value {
        None => Ok(default),
        Some(v) => match parse_bounded_str(v.as_str(), u64::MAX) {
            Some(n) => Ok(n),
            None => {
                let mut message = key.to_owned();
                message.append(" must be a valid integer.");
                Err(AppError::validation(message))
            },
        },
    }
}

/// Reads a count: the default when unset.
pub fn parse_usize(key: &str, value: &Option<String>, default: usize) -> (r: Result<usize, AppError>)
    ensures
        match r {
            Ok(n) => number_result(opt_view(*value), default as nat, usize::MAX as nat, key@ + " must be a valid integer."@) == Ok::<nat, AppErrorView>(n as nat),
            Err(e) => number_result(opt_view(*value), default as nat, usize::MAX as nat, key@ + " must be a valid integer."@) == Err::<nat, AppErrorView>(e@),
        },
{
    match value {
        None => Ok(default),
        Some(v) => match parse_bounded_str(v.as_str(), usize::MAX as u64) {
            Some(n) => Ok(n as usize),
            None => {
                let mut message = key.to_owned();
                message.append(" must be a valid integer.");
                Err(AppError::validation(message))
            },
        },
    }
}

/// The view of a result that carries paths or an error.
pub open spec fn paths_result_view(r: &Result<Vec<String>, AppError>) -> Result<Seq<Seq<char>>, AppErrorView> {
    match r {
        Ok(v) => Ok(views(v@)),
        Err(e) => Err(e@),
    }
}

/// The view of optional path pieces.
pub open spec fn opt_pieces_view(p: &Option<Vec<String>>) -> Option<Seq<Seq<char>>> {
    match p {
        Some(v) => Some(views(v@)),
        None => None,
    }
}

/// The allowed roots: each configured piece made absolute, or the home
/// directory (`.` when unknown) when none is configured.
pub fn parse_allowed_roots(
    pieces: &Option<Vec<String>>,
    home: &Option<String>,
    cwd: &Result<String, String>,
    style: PathStyle,
) -> (r: Result<Vec<String>, AppError>)
    ensures
        paths_result_view(&r) == allowed_roots_result(style, opt_pieces_view(pieces), opt_view(*home), cwd_view(cwd)),
{
    let roots: Vec<String> = match pieces {
        Some(ps) => {
            let mut out: Vec<String> = Vec::new();
            let mut i: usize = 0;
            assert(views(ps@).take(0) =~= Seq::<Seq<char>>::empty());
            assert(views(out@) =~= Seq::<Seq<char>>::empty());
            while i < ps.len()
                invariant
                    i <= ps.len(),
                    opt_pieces_view(pieces) == Some(views(ps@)),
                    absolutize_all(style, views(ps@).take(i as int), cwd_view(cwd)) == Ok::<Seq<Seq<char>>, AppErrorView>(views(out@)),
                decreases ps.len() - i,
            {
                let ghost pre = views(ps@).take(i as int);
                assert(views(ps@).take(i + 1).drop_last() =~= pre);
                assert(views(ps@).take(i + 1).last() == ps@[i as int]@);
                match absolutize_path(ps[i].as_str(), cwd, style) {
                    Ok(p) => {
                        let ghost before = views(out@);
                        out.push(p);
                        assert(views(out@) =~= before.push(p@));
                    },
                    Err(e) => {
                        proof {
                            lemma_absolutize_all_fails(style, views(ps@), i as int, cwd_view(cwd));
                        }
                        return Err(e);
                    },
                }
                i = i + 1;
            }
            assert(views(ps@).take(ps.len() as int) =~= views(ps@));
            out
        },
        None => {
            let base = match home {
                Some(h) => h.clone(),
                None => owned("."),
            };
            proof {
                reveal_strlit(".");
                assert("."@ =~= seq!['.']);
            }
            assert(base@ == (match opt_view(*home) {
                Some(h) => h,
                None => seq!['.'],
            }));
            match absolutize_path(base.as_str(), cwd, style) {
                Ok(p) => {
                    let v = vec![p];
                    assert(views(v@) =~= seq![v@[0]@]);
                    v
                },
                Err(e) => return Err(e),
            }
        },
    };
    if roots.len() == 0 {
        return Err(AppError::validation(owned("At least one allowed root must be configured.")));
    }
    Ok(roots)
}

/// Once absolutizing a prefix fails, absolutizing every longer prefix
/// fails with the same error.
proof fn lemma_absolutize_all_fails(
    style: PathStyle,
    pieces: Seq<Seq<char>>,
    i: int,
    cwd: Result<Seq<char>, Seq<char>>,
)
    requires
        0 <= i < pieces.len(),
        absolutize_all(style, pieces.take(i), cwd) is Ok,
        absolutize_result(style, pieces[i], cwd) is Err,
    ensures
        absolutize_all(style, pieces, cwd) == Err::<Seq<Seq<char>>, AppErrorView>(absolutize_result(style, pieces[i], cwd)->Err_0),
    decreases pieces.len() - i,
{
    let e = absolutize_result(style, pieces[i], cwd)->Err_0;
    assert(pieces.take(i + 1).drop_last() =~= pieces.take(i));
    assert(pieces.take(i + 1).last() == pieces[i]);
    lemma_absolutize_all_extend_err(style, pieces, i + 1, cwd, e);
}

/// A failed prefix stays failed with the same error.
proof fn lemma_absolutize_all_extend_err(
    style: PathStyle,
    pieces: Seq<Seq<char>>,
    k: int,
    cwd: Result<Seq<char>, Seq<char>>,
    e: AppErrorView,
)
    requires
        0 <= k <= pieces.len(),
        absolutize_all(style, pieces.take(k), cwd) == Err::<Seq<Seq<char>>, AppErrorView>(e),
    ensures
        absolutize_all(style, pieces, cwd) == Err::<Seq<Seq<char>>, AppErrorView>(e),
    decreases pieces.len() - k,
{
    if k < pieces.len() {
        assert(pieces.take(k + 1).drop_last() =~= pieces.take(k));
        lemma_absolutize_all_extend_err(style, pieces, k + 1, cwd, e);
    } else {
        assert(pieces.take(k) =~= pieces);
    }
}

/// Whether `items` holds a string equal to `v`.
fn contains_string(items: &Vec<String>, v: &[char]) -> (r: bool)
    ensures
        r == views(items@).contains(v@),
{
    let mut i: usize = 0;
    while i < items.len()
        invariant
            i <= items.len(),
            forall|j: int| 0 <= j < i ==> items@[j]@ != v@,
        decreases items.len() - i,
    {
        let c = chars_of(items[i].as_str());
        if chars_equal(c.as_slice(), v) {
            assert(views(items@)[i as int] == v@);
            return true;
        }
        i = i + 1;
    }
    proof {
        if views(items@).contains(v@) {
            let j = choose|j: int| 0 <= j < views(items@).len() && views(items@)[j] == v@;
            assert(items@[j]@ == v@);
        }
    }
    false
}

/// The distinct strings of `items`, in order of first occurrence.
fn distinct_strings(items: &Vec<String>) -> (out: Vec<String>)
    ensures
        views(out@).to_set() == views(items@).to_set(),
        views(out@).no_duplicates(),
{
    let mut out: Vec<String> = Vec::new();
    let mut i: usize = 0;
    while i < items.len()
        invariant
            i <= items.len(),
            views(out@).to_set() == views(items@).take(i as int).to_set(),
            views(out@).no_duplicates(),
        decreases items.len() - i,
    {
        let c = chars_of(items[i].as_str());
        assert(views(items@).take(i + 1) =~= views(items@).take(i as int).push(items@[i as int]@));
        if !contains_string(&out, c.as_slice()) {
            let ghost before = views(out@);
            out.push(items[i].clone());
            assert(views(out@) =~= before.push(items@[i as int]@));
            proof {
                before.lemma_push_to_set_commute(items@[i as int]@);
                views(items@).take(i as int).lemma_push_to_set_commute(items@[i as int]@);
                assert forall|a: int, b: int| 0 <= a < b < views(out@).len() implies views(out@)[a] != views(out@)[b] by {
                    if b == before.len() {
                        assert(before[a] == views(out@)[a]);
                    } else {
                        assert(before[a] == views(out@)[a]);
                        assert(before[b] == views(out@)[b]);
                    }
                }
            }
        } else {
            proof {
                views(items@).take(i as int).lemma_push_to_set_commute(items@[i as int]@);
                assert(views(out@).to_set().contains(items@[i as int]@));
                assert(views(items@).take(i as int).to_set().insert(items@[i as int]@) =~= views(items@).take(i as int).to_set());
            }
        }
        i = i + 1;
    }
    assert(views(items@).take(items.len() as int) =~= views(items@));
    out
}

/// The programs allowed for `command.run`: the comma-separated names in
/// `value` (or in `defaults` when unset), trimmed and without empty ones;
/// `defaults` when that leaves none.
pub fn parse_allowed_programs(value: &Option<String>, defaults: &Vec<String>) -> (out: Vec<String>)
    ensures
        views(out@).to_set() == allowed_programs_set(opt_view(*value), views(defaults@)),
        views(out@).no_duplicates(),
{
    let text: Vec<char> = match value {
        Some(v) => chars_of(v.as_str()),
        None => {
            let mut t: Vec<char> = Vec::new();
            let sep = vec![','];
            assert(sep@ =~= seq![',']);
            push_joined(&mut t, defaults, sep.as_slice());
            assert(t@ =~= join(views(defaults@), seq![',']));
            t
        },
    };
    let pieces = split_chars(text.as_slice(), ',');
    let ghost ps = split(text@, ',');
    let mut items: Vec<String> = Vec::new();
    let mut i: usize = 0;
    while i < pieces.len()
        invariant
            i <= pieces.len(),
            char_vec_views(pieces@) == ps,
            forall|k: int| 0 <= k < items@.len() ==> (#[trigger] items@[k])@.len() > 0
                && exists|j: int| 0 <= j < i && trim(ps[j]) == items@[k]@,
            forall|j: int| 0 <= j < i && trim(#[trigger] ps[j]).len() > 0 ==> views(items@).contains(trim(ps[j])),
        decreases pieces.len() - i,
    {
        let t = trim_chars(pieces[i].as_slice());
        assert(ps[i as int] == pieces@[i as int]@);
        if t.len() > 0 {
            let ghost before = items@;
            items.push(string_from_chars(t.as_slice()));
            assert forall|k: int| 0 <= k < items@.len() implies (#[trigger] items@[k])@.len() > 0
                && exists|j: int| 0 <= j < i + 1 && trim(ps[j]) == items@[k]@ by {
                if k < before.len() {
                    assert(items@[k] == before[k]);
                    let j = choose|j: int| 0 <= j < i && trim(ps[j]) == before[k]@;
                } else {
                    assert(trim(ps[i as int]) == items@[k]@);
                }
            }
            assert forall|j: int| 0 <= j < i + 1 && trim(#[trigger] ps[j]).len() > 0 implies views(items@).contains(trim(ps[j])) by {
                if j < i {
                    let k = choose|k: int| 0 <= k < before.len() && views(before)[k] == trim(ps[j]);
                    assert(views(items@)[k] == trim(ps[j]));
                } else {
                    assert(views(items@)[before.len() as int] == trim(ps[j]));
                }
            }
        }
        i = i + 1;
    }
    let ghost listed = listed_programs(text@);
    assert(views(items@).to_set() =~= listed) by {
        assert forall|p: Seq<char>| #[trigger] listed.contains(p) implies views(items@).to_set().contains(p) by {
            let j = choose|j: int| 0 <= j < split(text@, ',').len() && trim(split(text@, ',')[j]) == p;
            assert(views(items@).contains(trim(ps[j])));
        }
        assert forall|p: Seq<char>| #[trigger] views(items@).to_set().contains(p) implies listed.contains(p) by {
            let k = choose|k: int| 0 <= k < views(items@).len() && views(items@)[k] == p;
            assert(items@[k]@ == p);
            let j = choose|j: int| 0 <= j < pieces@.len() && trim(ps[j]) == items@[k]@;
        }
    }
    proof {
        match value {
            Some(v) => {},
            None => {},
        }
    }
    if items.len() == 0 {
        assert(listed =~= Set::<Seq<char>>::empty());
        distinct_strings(defaults)
    } else {
        assert(listed.contains(items@[0]@));
        distinct_strings(&items)
    }
}

impl Config {
    /// The configuration from environment values: defaults for what is
    /// unset, and the first invalid value as an error.
    pub fn from_env(env: &EnvVars) -> (r: Result<Config, AppError>)
        ensures
            r matches Ok(c) ==> config_from(env, c),
            r matches Err(e) ==> config_error(env) == Some(e@),
            r is Ok <==> config_error(env) is None,
    {
        let host = match &env.host {
            Some(h) => h.clone(),
            None => owned("127.0.0.1"),
        };
        let port = match parse_u16("AGENT_PORT", &env.port, 8787) {
            Ok(p) => p,
            Err(e) => return Err(e),
        };
        let raw_ws = match &env.ws_path {
            Some(w) => w.clone(),
            None => owned("/ws"),
        };
        let ws_path = match normalize_ws_path(raw_ws.as_str()) {
            Ok(w) => w,
            Err(e) => return Err(e),
        };
        let api_token = match &env.api_token {
            Some(t) => {
                let trimmed = chars_of(t.as_str());
                let tt = trim_chars(trimmed.as_slice());
                if tt.len() == 0 {
                    None
                } else {
                    Some(t.clone())
                }
            },
            None => None,
        };
        let allowed_roots = match parse_allowed_roots(&env.allowed_roots, &env.home, &env.current_dir, env.path_style) {
            Ok(r) => r,
            Err(e) => return Err(e),
        };
        let command_timeout_ms = match parse_u64("AGENT_COMMAND_TIMEOUT_MS", &env.command_timeout_ms, 300000) {
            Ok(n) => n,
            Err(e) => return Err(e),
        };
        let retained_task_limit = match parse_usize("AGENT_RETAINED_TASKS", &env.retained_tasks, 200) {
            Ok(n) => n,
            Err(e) => return Err(e),
        };
        let git_binary = match &env.git_binary {
            Some(g) => g.clone(),
            None => owned("git"),
        };
        let defaults = vec![owned("git")];
        let command_allowed_programs = parse_allowed_programs(&env.allowed_programs, &defaults);
        assert(views(defaults@) =~= seq!["git"@]);
        Ok(Config {
            host,
            port,
            ws_path,
            api_token,
            allowed_roots,
            command_timeout_ms,
            retained_task_limit,
            git_binary,
            command_allowed_programs,
            path_style: env.path_style,
        })
    }
}

/// The value of an optional variable, or `default`.
pub open spec fn or_default(v: Option<Seq<char>>, default: Seq<char>) -> Seq<char> {
    match v {
        Some(s) => s,
        None => default,
    }
}

/// The messages of the number errors.
pub open spec fn port_message() -> Seq<char> {
    "AGENT_PORT"@ + " must be a valid unsigned 16-bit integer."@
}

/// The message for an invalid timeout.
pub open spec fn timeout_message() -> Seq<char> {
    "AGENT_COMMAND_TIMEOUT_MS"@ + " must be a valid integer."@
}

/// The message for an invalid retained-task count.
pub open spec fn retained_message() -> Seq<char> {
    "AGENT_RETAINED_TASKS"@ + " must be a valid integer."@
}

/// The first error in reading the configuration, if any.
pub open spec fn config_error(env: &EnvVars) -> Option<AppErrorView> {
    if number_result(opt_view(env.port), 8787, u16::MAX as nat, port_message()) is Err {
        Some(number_result(opt_view(env.port), 8787, u16::MAX as nat, port_message())->Err_0)
    } else if ws_path_result(or_default(opt_view(env.ws_path), "/ws"@)) is Err {
        Some(ws_path_result(or_default(opt_view(env.ws_path), "/ws"@))->Err_0)
    } else if allowed_roots_result(env.path_style, opt_pieces_view(&env.allowed_roots), opt_view(env.home), cwd_view(&env.current_dir)) is Err {
        Some(allowed_roots_result(env.path_style, opt_pieces_view(&env.allowed_roots), opt_view(env.home), cwd_view(&env.current_dir))->Err_0)
    } else if number_result(opt_view(env.command_timeout_ms), 300000, u64::MAX as nat, timeout_message()) is Err {
        Some(number_result(opt_view(env.command_timeout_ms), 300000, u64::MAX as nat, timeout_message())->Err_0)
    } else if number_result(opt_view(env.retained_tasks), 200, usize::MAX as nat, retained_message()) is Err {
        Some(number_result(opt_view(env.retained_tasks), 200, usize::MAX as nat, retained_message())->Err_0)
    } else {
        None
    }
}

/// `c` is the configuration read from `env` when no value is invalid.
pub open spec fn config_from(env: &EnvVars, c: Config) -> bool {
    &&& c.host@ == or_default(opt_view(env.host), "127.0.0.1"@)
    &&& number_result(opt_view(env.port), 8787, u16::MAX as nat, port_message()) == Ok::<nat, AppErrorView>(c.port as nat)
    &&& ws_path_result(or_default(opt_view(env.ws_path), "/ws"@)) == Ok::<Seq<char>, AppErrorView>(c.ws_path@)
    &&& opt_view(c.api_token) == match env.api_token {
        Some(t) => if trim(t@).len() == 0 {
            None
        } else {
            Some(t@)
        },
        None => None,
    }
    &&& c.path_style == env.path_style
    &&& allowed_roots_result(env.path_style, opt_pieces_view(&env.allowed_roots), opt_view(env.home), cwd_view(&env.current_dir)) == Ok::<Seq<Seq<char>>, AppErrorView>(views(c.allowed_roots@))
    &&& number_result(opt_view(env.command_timeout_ms), 300000, u64::MAX as nat, timeout_message()) == Ok::<nat, AppErrorView>(c.command_timeout_ms as nat)
    &&& number_result(opt_view(env.retained_tasks), 200, usize::MAX as nat, retained_message()) == Ok::<nat, AppErrorView>(c.retained_task_limit as nat)
    &&& c.git_binary@ == or_default(opt_view(env.git_binary), "git"@)
    &&& views(c.command_allowed_programs@).to_set() == allowed_programs_set(opt_view(env.allowed_programs), seq!["git"@])
    &&& views(c.command_allowed_programs@).no_duplicates()
}

/// `trim_end_char` keeps a prefix, drops only `c`, and ends in another
/// character unless it is empty.
proof fn lemma_trim_end_char(s: Seq<char>, c: char)
    ensures
        trim_end_char(s, c).len() <= s.len(),
        trim_end_char(s, c) == s.subrange(0, trim_end_char(s, c).len() as int),
        trim_end_char(s, c).len() == 0 || trim_end_char(s, c).last() != c,
        forall|k: int| trim_end_char(s, c).len() <= k < s.len() ==> s[k] == c,
    decreases s.len(),
{
    if s.len() > 0 && s.last() == c {
        lemma_trim_end_char(s.drop_last(), c);
        let r = trim_end_char(s, c);
        assert(r == trim_end_char(s.drop_last(), c));
        assert(r =~= s.subrange(0, r.len() as int));
        assert forall|k: int| r.len() <= k < s.len() implies s[k] == c by {
            if k < s.len() - 1 {
                assert(s.drop_last()[k] == s[k]);
            }
        }
    } else {
        assert(s =~= s.subrange(0, s.len() as int));
    }
}

/// A text that begins and ends with other characters than white space is
/// its own trim.
proof fn lemma_trim_unchanged(s: Seq<char>)
    requires
        s.len() > 0,
        !is_white_space(s[0]),
        !is_white_space(s.last()),
    ensures
        trim(s) == s,
{
    assert(trim_start(s) == s);
}

/// A configured WebSocket path starts with `/`, holds no query string or
/// fragment, and ends in `/` only when it is `/` itself. Unless it ends in
/// white space, it is its own normal form.
pub proof fn law_ws_path_form(raw: Seq<char>)
    requires
        ws_path_result(raw) is Ok,
    ensures
        ({
            let p = ws_path_result(raw)->Ok_0;
            &&& p.len() > 0 && p[0] == '/'
            &&& !p.contains('?') && !p.contains('#')
            &&& p.len() > 1 ==> p.last() != '/'
            &&& !is_white_space(p.last()) ==> ws_path_result(p) == Ok::<Seq<char>, AppErrorView>(p)
        }),
{
    let t = trim(raw);
    let prefixed = if t.len() > 0 && t[0] == '/' {
        t
    } else {
        seq!['/'] + t
    };
    let p = ws_path_result(raw)->Ok_0;
    assert(prefixed[0] == '/');
    if prefixed.len() > 1 && prefixed.last() == '/' {
        lemma_trim_end_char(prefixed, '/');
        if trim_end_char(prefixed, '/').len() > 0 {
            assert(p == trim_end_char(prefixed, '/'));
            assert(!p.contains('?')) by {
                if p.contains('?') {
                    let k = choose|k: int| 0 <= k < p.len() && p[k] == '?';
                    assert(prefixed[k] == '?');
                }
            }
            assert(!p.contains('#')) by {
                if p.contains('#') {
                    let k = choose|k: int| 0 <= k < p.len() && p[k] == '#';
                    assert(prefixed[k] == '#');
                }
            }
            assert(p[0] == prefixed[0]);
        } else {
            assert(p == seq!['/']);
        }
    } else {
        assert(p == prefixed);
    }
    if !is_white_space(p.last()) {
        lemma_trim_unchanged(p);
        assert(trim(p) == p);
    }
}

/// Unless `AGENT_ALLOWED_PROGRAMS` is set, `command.run` may start only
/// `git`.
pub proof fn law_default_programs_are_git()
    ensures
        allowed_programs_set(None, seq!["git"@]) == set!["git"@],
{
    reveal_strlit("git");
    let g = "git"@;
    assert(g =~= seq!['g', 'i', 't']);
    let text = join(seq![g], seq![',']);
    assert(text == g);
    assert(!g.contains(',')) by {
        if g.contains(',') {
            let k = choose|k: int| 0 <= k < g.len() && g[k] == ',';
        }
    }
    lemma_split_without_sep(g, ',');
    assert(split(text, ',') == seq![g]);
    assert(!is_white_space(g[0]));
    assert(trim_start(g) == g);
    assert(!is_white_space(g.last()));
    assert(trim_end(g) == g);
    assert(trim(g) == g);
    let listed = listed_programs(text);
    assert(listed.contains(g)) by {
        assert(trim(split(text, ',')[0]) == g);
    }
    assert(listed =~= set![g]) by {
        assert forall|p: Seq<char>| #[trigger] listed.contains(p) implies p == g by {
            let i = choose|i: int| 0 <= i < split(text, ',').len() && trim(#[trigger] split(text, ',')[i]) == p;
            assert(i == 0);
        }
    }
}

/// A number setting is its default when unset; the decimal text of a
/// number up to the type's largest value reads as that number, and one
/// beyond it is rejected with the setting's message.
pub proof fn law_number_setting(default: nat, max: nat, message: Seq<char>, n: nat)
    ensures
        number_result(None, default, max, message) == Ok::<nat, AppErrorView>(default),
        n <= max ==> number_result(Some(decimal(n)), default, max, message) == Ok::<nat, AppErrorView>(n),
        n > max ==> number_result(Some(decimal(n)), default, max, message) == Err::<nat, AppErrorView>(
            validation_error(message, None),
        ),
        forall|v: Seq<char>|
            #[trigger] number_result(Some(v), default, max, message) matches Ok(k) ==> k <= max,
{
    crate::text::law_decimal_reads_back(n);
}

/// The allowed programs are the listed names, each trimmed, not blank
/// and free of commas; when nothing is listed, the defaults apply.
pub proof fn law_allowed_programs(text: Seq<char>, defaults: Seq<Seq<char>>)
    ensures
        listed_programs(text).is_empty() ==> allowed_programs_set(Some(text), defaults) == defaults.to_set(),
        forall|p: Seq<char>|
            #[trigger] listed_programs(text).contains(p) ==> p.len() > 0 && trim(p) == p && !p.contains(','),
        !listed_programs(text).is_empty() ==> allowed_programs_set(Some(text), defaults) == listed_programs(
            text,
        ),
{
    crate::text::lemma_split_pieces_lack_sep(text, ',');
    assert forall|p: Seq<char>| #[trigger] listed_programs(text).contains(p) implies p.len() > 0 && trim(p) == p
        && !p.contains(',') by {
        let i = choose|i: int| 0 <= i < split(text, ',').len() && trim(#[trigger] split(text, ',')[i]) == p;
        let piece = split(text, ',')[i];
        crate::text::law_trim(piece);
        let j = choose|j: int|
            0 <= j && j + trim(piece).len() <= piece.len() && trim(piece) == #[trigger] piece.subrange(
                j,
                j + trim(piece).len(),
            ) && (forall|k: int| 0 <= k < j ==> is_white_space(#[trigger] piece[k])) && (forall|k: int|
                j + trim(piece).len() <= k < piece.len() ==> is_white_space(#[trigger] piece[k]));
        if p.contains(',') {
            let k = choose|k: int| 0 <= k < p.len() && p[k] == ',';
            assert(piece[j + k] == ',');
        }
    }
}

/// What is not set takes its documented default: host `127.0.0.1`, port
/// 8787, WebSocket path `/ws`, timeout 300000 ms, 200 retained tasks and
/// the `git` program; a blank API token means no token.
pub proof fn law_config_defaults(env: &EnvVars, c: Config)
    requires
        config_from(env, c),
    ensures
        env.host is None ==> c.host@ == "127.0.0.1"@,
        env.port is None ==> c.port == 8787,
        env.ws_path is None ==> c.ws_path@ == "/ws"@,
        env.command_timeout_ms is None ==> c.command_timeout_ms == 300000,
        env.retained_tasks is None ==> c.retained_task_limit == 200,
        env.git_binary is None ==> c.git_binary@ == "git"@,
        env.api_token matches Some(t) && trim(t@).len() == 0 ==> c.api_token is None,
        env.api_token is None ==> c.api_token is None,
{
    if env.ws_path is None {
        reveal_strlit("/ws");
        let w = "/ws"@;
        assert(w =~= seq!['/', 'w', 's']);
        lemma_trim_unchanged(w);
        assert(!w.contains('?') && !w.contains('#')) by {
            if w.contains('?') {
                let k = choose|k: int| 0 <= k < w.len() && w[k] == '?';
            }
            if w.contains('#') {
                let k = choose|k: int| 0 <= k < w.len() && w[k] == '#';
            }
        }
        assert(ws_path_result(w) == Ok::<Seq<char>, AppErrorView>(w));
    }
}

} // verus!
