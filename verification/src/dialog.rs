//! The native error dialog shown when a Git action fails: its text, the
//! quoting for each platform's dialog tool, and the commands to try.
use vstd::prelude::*;

use crate::error::AppError;
use crate::text::{chars_of, owned, push_str, string_from_chars};

verus! {

/// A dialog to show: a title and a message.
#[derive(Debug, Clone)]
pub struct DialogRequest {
    pub title: String,
    pub message: String,
}

/// The platform the agent runs on, as far as dialogs are concerned.
#[derive(Debug, Clone, Copy, PartialEq, Eq, Structural)]
pub enum Platform {
    MacOs,
    Windows,
    Other,
}

/// A program to run, with its arguments.
#[derive(Debug, Clone)]
pub struct DialogCommand {
    pub program: &'static str,
    pub args: Vec<String>,
}

/// The escape of one character inside an AppleScript string literal.
pub open spec fn apple_escape_char(c: char) -> Seq<char> {
    if c == '\\' {
        seq!['\\', '\\']
    } else if c == '"' {
        seq!['\\', '"']
    } else {
        seq![c]
    }
}

/// The escape of every character of `s`.
pub open spec fn apple_escape(s: Seq<char>) -> Seq<char>
    decreases s.len(),
{
    if s.len() == 0 {
        Seq::<char>::empty()
    } else {
        apple_escape(s.drop_last()) + apple_escape_char(s.last())
    }
}

/// The AppleScript string literal for `s`.
pub open spec fn apple_quoted(s: Seq<char>) -> Seq<char> {
    seq!['"'] + apple_escape(s) + seq!['"']
}

/// The escape of one character inside a PowerShell single-quoted string.
pub open spec fn ps_escape_char(c: char) -> Seq<char> {
    if c == '\'' {
        seq!['\'', '\'']
    } else {
        seq![c]
    }
}

/// The escape of every character of `s`.
pub open spec fn ps_escape(s: Seq<char>) -> Seq<char>
    decreases s.len(),
{
    if s.len() == 0 {
        Seq::<char>::empty()
    } else {
        ps_escape(s.drop_last()) + ps_escape_char(s.last())
    }
}

/// The PowerShell single-quoted string for `s`.
pub open spec fn ps_quoted(s: Seq<char>) -> Seq<char> {
    seq!['\''] + ps_escape(s) + seq!['\'']
}

/// `value` as an AppleScript string literal: backslashes and double quotes
/// are escaped with a backslash.
pub fn apple_quote(value: &str) -> (out: String)
    ensures
        out@ == apple_quoted(value@),
{
    let v = chars_of(value);
    let mut out: Vec<char> = vec!['"'];
    let mut i: usize = 0;
    while i < v.len()
        invariant
            i <= v.len(),
            out@ == seq!['"'] + apple_escape(v@.take(i as int)),
        decreases v.len() - i,
    {
        let c = v[i];
        let ghost before = out@;
        if c == '\\' {
            out.push('\\');
            out.push('\\');
        } else if c == '"' {
            out.push('\\');
            out.push('"');
        } else {
            out.push(c);
        }
        assert(v@.take(i + 1).drop_last() =~= v@.take(i as int));
        assert(out@ =~= seq!['"'] + apple_escape(v@.take(i + 1)));
        i = i + 1;
    }
    assert(v@.take(v.len() as int) =~= v@);
    out.push('"');
    assert(out@ =~= apple_quoted(value@));
    string_from_chars(out.as_slice())
}

/// `value` as a PowerShell single-quoted string: single quotes are doubled.
pub fn ps_quote(value: &str) -> (out: String)
    ensures
        out@ == ps_quoted(value@),
{
    let v = chars_of(value);
    let mut out: Vec<char> = vec!['\''];
    let mut i: usize = 0;
    while i < v.len()
        invariant
            i <= v.len(),
            out@ == seq!['\''] + ps_escape(v@.take(i as int)),
        decreases v.len() - i,
    {
        let c = v[i];
        if c == '\'' {
            out.push('\'');
            out.push('\'');
        } else {
            out.push(c);
        }
        assert(v@.take(i + 1).drop_last() =~= v@.take(i as int));
        assert(out@ =~= seq!['\''] + ps_escape(v@.take(i + 1)));
        i = i + 1;
    }
    assert(v@.take(v.len() as int) =~= v@);
    out.push('\'');
    assert(out@ =~= ps_quoted(value@));
    string_from_chars(out.as_slice())
}

/// The AppleScript that shows the dialog on macOS.
pub open spec fn apple_script(title: Seq<char>, message: Seq<char>) -> Seq<char> {
    "display dialog "@ + apple_quoted(message) + " with title "@ + apple_quoted(title)
        + " buttons {\"OK\"} default button \"OK\" with icon caution"@
}

/// The PowerShell command that shows the dialog on Windows.
pub open spec fn ps_script(title: Seq<char>, message: Seq<char>) -> Seq<char> {
    "Add-Type -AssemblyName PresentationFramework; [System.Windows.MessageBox]::Show("@
        + ps_quoted(message) + ", "@ + ps_quoted(title) + ", 'OK', 'Error') | Out-Null"@
}

/// The mathematical value of a [`DialogCommand`].
pub open spec fn command_view(c: DialogCommand) -> (Seq<char>, Seq<Seq<char>>) {
    (c.program@, crate::text::views(c.args@))
}

/// The commands to try, in order, to show `title` and `message`.
pub open spec fn dialog_commands(platform: Platform, title: Seq<char>, message: Seq<char>) -> Seq<
    (Seq<char>, Seq<Seq<char>>),
> {
    match platform {
        Platform::MacOs => seq![("osascript"@, seq!["-e"@, apple_script(title, message)])],
        Platform::Windows => seq![
            ("powershell"@, seq!["-NoProfile"@, "-Command"@, ps_script(title, message)]),
        ],
        Platform::Other => seq![
            ("zenity"@, seq!["--error"@, "--title"@, title, "--text"@, message]),
            ("kdialog"@, seq!["--error"@, message, "--title"@, title]),
            ("notify-send"@, seq![title, message, "--urgency=critical"@]),
        ],
    }
}

/// The commands to try, in order, to show `request` on `platform`.
pub fn platform_dialog_commands(request: &DialogRequest, platform: Platform) -> (out: Vec<
    DialogCommand,
>)
    ensures
        out@.map_values(|c: DialogCommand| command_view(c)) == dialog_commands(
            platform,
            request.title@,
            request.message@,
        ),
{
    let title = request.title.as_str();
    let message = request.message.as_str();
    match platform {
        Platform::MacOs => {
            let mut script: Vec<char> = Vec::new();
            push_str(&mut script, "display dialog ");
            let q = apple_quote(message);
            push_str(&mut script, q.as_str());
            push_str(&mut script, " with title ");
            let t = apple_quote(title);
            push_str(&mut script, t.as_str());
            push_str(&mut script, " buttons {\"OK\"} default button \"OK\" with icon caution");
            assert(script@ =~= apple_script(title@, message@));
            let args = vec![owned("-e"), string_from_chars(script.as_slice())];
            assert(crate::text::views(args@) =~= seq!["-e"@, apple_script(title@, message@)]);
            let out = vec![DialogCommand { program: "osascript", args }];
            assert(out@.map_values(|c: DialogCommand| command_view(c)) =~= dialog_commands(
                platform,
                request.title@,
                request.message@,
            ));
            out
        },
        Platform::Windows => {
            let mut script: Vec<char> = Vec::new();
            push_str(
                &mut script,
                "Add-Type -AssemblyName PresentationFramework; [System.Windows.MessageBox]::Show(",
            );
            let q = ps_quote(message);
            push_str(&mut script, q.as_str());
            push_str(&mut script, ", ");
            let t = ps_quote(title);
            push_str(&mut script, t.as_str());
            push_str(&mut script, ", 'OK', 'Error') | Out-Null");
            assert(script@ =~= ps_script(title@, message@));
            let args = vec![owned("-NoProfile"), owned("-Command"), string_from_chars(script.as_slice())];
            assert(crate::text::views(args@) =~= seq!["-NoProfile"@, "-Command"@, ps_script(title@, message@)]);
            let out = vec![DialogCommand { program: "powershell", args }];
            assert(out@.map_values(|c: DialogCommand| command_view(c)) =~= dialog_commands(
                platform,
                request.title@,
                request.message@,
            ));
            out
        },
        Platform::Other => {
            let zenity = DialogCommand {
                program: "zenity",
                args: vec![
                    owned("--error"),
                    owned("--title"),
                    owned(title),
                    owned("--text"),
                    owned(message),
                ],
            };
            let kdialog = DialogCommand {
                program: "kdialog",
                args: vec![owned("--error"), owned(message), owned("--title"), owned(title)],
            };
            let notify = DialogCommand {
                program: "notify-send",
                args: vec![owned(title), owned(message), owned("--urgency=critical")],
            };
            assert(crate::text::views(zenity.args@) =~= seq!["--error"@, "--title"@, title@, "--text"@, message@]);
            assert(crate::text::views(kdialog.args@) =~= seq!["--error"@, message@, "--title"@, title@]);
            assert(crate::text::views(notify.args@) =~= seq![title@, message@, "--urgency=critical"@]);
            let out = vec![zenity, kdialog, notify];
            assert(out@.map_values(|c: DialogCommand| command_view(c)) =~= dialog_commands(
                platform,
                request.title@,
                request.message@,
            ));
            out
        },
    }
}

/// The dialog for a failed Git action.
pub open spec fn git_error_dialog(
    action: Seq<char>,
    repo_path: Seq<char>,
    message: Seq<char>,
    code: Seq<char>,
) -> (Seq<char>, Seq<char>) {
    (
        "Git "@ + action + " failed"@,
        "Repository: "@ + repo_path + "\n\n"@ + message + "\n\nCode: "@ + code,
    )
}

/// The dialog for a failed Git action: the action in the title, and the
/// repository, the error's message and its code in the message.
pub fn build_git_error_dialog(action: &str, repo_path: &str, error: &AppError) -> (d: DialogRequest)
    ensures
        (d.title@, d.message@) == git_error_dialog(
            action@,
            repo_path@,
            error@.payload.message,
            error@.payload.code,
        ),
{
    let mut title: Vec<char> = Vec::new();
    push_str(&mut title, "Git ");
    push_str(&mut title, action);
    push_str(&mut title, " failed");
    let mut message: Vec<char> = Vec::new();
    push_str(&mut message, "Repository: ");
    push_str(&mut message, repo_path);
    push_str(&mut message, "\n\n");
    let text = error.display_text();
    push_str(&mut message, text.as_str());
    push_str(&mut message, "\n\nCode: ");
    let payload = error.payload();
    push_str(&mut message, payload.code.as_str());
    assert(title@ =~= "Git "@ + action@ + " failed"@);
    assert(message@ =~= "Repository: "@ + repo_path@ + "\n\n"@ + error@.payload.message + "\n\nCode: "@
        + error@.payload.code);
    DialogRequest {
        title: string_from_chars(title.as_slice()),
        message: string_from_chars(message.as_slice()),
    }
}

// ---------------------------------------------------------------------------
// Reading quoted strings back
// ---------------------------------------------------------------------------

/// `x` in front of a read-back text, if there is one.
pub open spec fn put_front(x: char, rest: Option<Seq<char>>) -> Option<Seq<char>> {
    match rest {
        Some(r) => Some(seq![x] + r),
        None => None,
    }
}

/// The text that the inside of an AppleScript string literal stands for:
/// a backslash takes the next character as it is; a bare double quote
/// would end the literal, so the inside is not readable.
pub open spec fn apple_unescape(s: Seq<char>) -> Option<Seq<char>>
    decreases s.len(),
{
    if s.len() == 0 {
        Some(Seq::<char>::empty())
    } else if s[0] == '\\' {
        if s.len() < 2 {
            None
        } else {
            put_front(s[1], apple_unescape(s.subrange(2, s.len() as int)))
        }
    } else if s[0] == '"' {
        None
    } else {
        put_front(s[0], apple_unescape(s.subrange(1, s.len() as int)))
    }
}

/// The text that the inside of a PowerShell single-quoted string stands
/// for: two quotes stand for one; a single quote would end the string, so
/// the inside is not readable.
pub open spec fn ps_unescape(s: Seq<char>) -> Option<Seq<char>>
    decreases s.len(),
{
    if s.len() == 0 {
        Some(Seq::<char>::empty())
    } else if s[0] == '\'' {
        if s.len() >= 2 && s[1] == '\'' {
            put_front('\'', ps_unescape(s.subrange(2, s.len() as int)))
        } else {
            None
        }
    } else {
        put_front(s[0], ps_unescape(s.subrange(1, s.len() as int)))
    }
}

proof fn lemma_apple_reads_back(s: Seq<char>, t: Seq<char>)
    ensures
        apple_unescape(apple_escape(s) + t) == match apple_unescape(t) {
            Some(r) => Some(s + r),
            None => None::<Seq<char>>,
        },
    decreases s.len(),
{
    if s.len() == 0 {
        assert(apple_escape(s) + t =~= t);
        if let Some(r) = apple_unescape(t) {
            assert(s + r =~= r);
        }
    } else {
        let c = s.last();
        let s0 = s.drop_last();
        let u = apple_escape_char(c) + t;
        lemma_apple_reads_back(s0, u);
        assert(apple_escape(s) + t =~= apple_escape(s0) + u);
        if c == '\\' || c == '"' {
            assert(u.subrange(2, u.len() as int) =~= t);
        } else {
            assert(u.subrange(1, u.len() as int) =~= t);
        }
        if let Some(r) = apple_unescape(t) {
            assert(s0 + (seq![c] + r) =~= s + r);
        }
    }
}

proof fn lemma_ps_reads_back(s: Seq<char>, t: Seq<char>)
    ensures
        ps_unescape(ps_escape(s) + t) == match ps_unescape(t) {
            Some(r) => Some(s + r),
            None => None::<Seq<char>>,
        },
    decreases s.len(),
{
    if s.len() == 0 {
        assert(ps_escape(s) + t =~= t);
        if let Some(r) = ps_unescape(t) {
            assert(s + r =~= r);
        }
    } else {
        let c = s.last();
        let s0 = s.drop_last();
        let u = ps_escape_char(c) + t;
        lemma_ps_reads_back(s0, u);
        assert(ps_escape(s) + t =~= ps_escape(s0) + u);
        if c == '\'' {
            assert(u.subrange(2, u.len() as int) =~= t);
        } else {
            assert(u.subrange(1, u.len() as int) =~= t);
        }
        if let Some(r) = ps_unescape(t) {
            assert(s0 + (seq![c] + r) =~= s + r);
        }
    }
}

/// A quoted dialog text reads back as the text: the AppleScript literal
/// is enclosed in double quotes and its inside reads back as the text, and
/// likewise the PowerShell string in single quotes.
pub proof fn law_quoting_reads_back(s: Seq<char>)
    ensures
        apple_quoted(s)[0] == '"' && apple_quoted(s).last() == '"',
        apple_unescape(apple_quoted(s).subrange(1, apple_quoted(s).len() - 1)) == Some(s),
        ps_quoted(s)[0] == '\'' && ps_quoted(s).last() == '\'',
        ps_unescape(ps_quoted(s).subrange(1, ps_quoted(s).len() - 1)) == Some(s),
{
    let e = Seq::<char>::empty();
    lemma_apple_reads_back(s, e);
    lemma_ps_reads_back(s, e);
    assert(apple_escape(s) + e =~= apple_escape(s));
    assert(ps_escape(s) + e =~= ps_escape(s));
    assert(apple_quoted(s).subrange(1, apple_quoted(s).len() - 1) =~= apple_escape(s));
    assert(ps_quoted(s).subrange(1, ps_quoted(s).len() - 1) =~= ps_escape(s));
    assert(s + e =~= s);
}

} // verus!
