//! The text of the questions that the app server asks the user to approve.
use vstd::prelude::*;
use vstd::string::StringExecFns;
use crate::text::{chars_of, join, join_strings};

verus! {

/// A request for approval, with what the dialog shows of it.
pub enum ApprovalRequest {
    /// Running a command.
    Command { command: Option<String>, cwd: Option<String>, reason: Option<String> },
    /// Changing files, possibly under a new write root.
    FileChange { reason: Option<String>, grant_root: Option<String> },
    /// More permissions, given as their JSON text when it could be written.
    Permissions { reason: Option<String>, cwd: String, permissions_json: Option<String> },
    /// Input asked for by an MCP server: its message and the details of the form or URL.
    McpElicitation { server_name: String, message: String, details: String },
}

/// The title and body of an approval dialog.
pub struct ApprovalText {
    pub title: String,
    pub body: String,
}

/// The given parts that are present, in order.
pub open spec fn present(parts: Seq<Option<Seq<char>>>) -> Seq<Seq<char>>
    decreases parts.len(),
{
    if parts.len() == 0 {
        Seq::empty()
    } else {
        present(parts.drop_last()) + match parts.last() {
            Some(p) => seq![p],
            None => Seq::empty(),
        }
    }
}

/// A text that may be missing, as characters.
pub open spec fn opt(s: Option<String>) -> Option<Seq<char>> {
    match s {
        Some(v) => Some(v@),
        None => None,
    }
}

/// A text that may be missing, with a prefix when present.
pub open spec fn prefixed(prefix: Seq<char>, s: Option<String>) -> Option<Seq<char>> {
    match s {
        Some(v) => Some(prefix + v@),
        None => None,
    }
}

/// The title of the dialog for a request.
pub open spec fn approval_title(request: ApprovalRequest) -> Seq<char> {
    match request {
        ApprovalRequest::Command { .. } => "Allow command?"@,
        ApprovalRequest::FileChange { .. } => "Allow file changes?"@,
        ApprovalRequest::Permissions { .. } => "Allow additional permissions?"@,
        ApprovalRequest::McpElicitation { server_name, .. } => "Allow input requested by "@
            + server_name@ + "?"@,
    }
}

/// The body of the dialog for a request: its details, one per line.
pub open spec fn approval_body(request: ApprovalRequest) -> Seq<char> {
    match request {
        ApprovalRequest::Command { command, cwd, reason } => join(
            present(seq![opt(command), prefixed("Working directory: "@, cwd), opt(reason)]),
            "\n"@,
        ),
        ApprovalRequest::FileChange { reason, grant_root } => join(
            present(seq![opt(reason), prefixed("Requested write root: "@, grant_root)]),
            "\n"@,
        ),
        ApprovalRequest::Permissions { reason, cwd, permissions_json } => join(
            present(
                seq![
                    opt(reason),
                    Some("Working directory: "@ + cwd@),
                    opt(permissions_json),
                ],
            ),
            "\n"@,
        ),
        ApprovalRequest::McpElicitation { message, details, .. } => message@ + "\n"@ + details@,
    }
}

/// The part, if present, as a sequence of at most one part.
pub open spec fn one(part: Option<Seq<char>>) -> Seq<Seq<char>> {
    match part {
        Some(p) => seq![p],
        None => Seq::empty(),
    }
}

proof fn lemma_present2(a: Option<Seq<char>>, b: Option<Seq<char>>)
    ensures
        present(seq![a, b]) == one(a) + one(b),
{
    let ps = seq![a, b];
    assert(ps.drop_last() =~= seq![a]);
    assert(seq![a].drop_last() =~= Seq::<Option<Seq<char>>>::empty());
    assert(present(Seq::<Option<Seq<char>>>::empty()) == Seq::<Seq<char>>::empty());
    assert(seq![a].last() == a);
    assert(present(seq![a]) == present(seq![a].drop_last()) + one(a));
    assert(present(seq![a]) =~= one(a));
}

proof fn lemma_present3(a: Option<Seq<char>>, b: Option<Seq<char>>, c: Option<Seq<char>>)
    ensures
        present(seq![a, b, c]) == one(a) + one(b) + one(c),
{
    let ps = seq![a, b, c];
    assert(ps.drop_last() =~= seq![a, b]);
    lemma_present2(a, b);
}

fn push_part(parts: &mut Vec<String>, prefix: &str, part: &Option<String>)
    ensures
        final(parts).deep_view() == old(parts).deep_view() + one(prefixed(prefix@, *part)),
{
    match part {
        Some(p) => {
            let ghost before = parts.deep_view();
            let mut s = String::from_str(prefix);
            s.append(p.as_str());
            parts.push(s);
            assert(parts.deep_view() =~= before + seq![prefix@ + p@]);
        },
        None => {
            assert(parts.deep_view() =~= old(parts).deep_view() + Seq::<Seq<char>>::empty());
        },
    }
}

fn push_opt(parts: &mut Vec<String>, part: &Option<String>)
    ensures
        final(parts).deep_view() == old(parts).deep_view() + one(opt(*part)),
{
    match part {
        Some(p) => {
            let ghost before = parts.deep_view();
            parts.push(p.clone());
            assert(parts.deep_view() =~= before + seq![p@]);
        },
        None => {
            assert(parts.deep_view() =~= old(parts).deep_view() + Seq::<Seq<char>>::empty());
        },
    }
}

/// The title and body of the dialog for a request.
pub fn approval_text(request: &ApprovalRequest) -> (r: ApprovalText)
    ensures
        r.title@ == approval_title(*request),
        r.body@ == approval_body(*request),
{
    match request {
        ApprovalRequest::Command { command, cwd, reason } => {
            let mut parts: Vec<String> = Vec::new();
            push_opt(&mut parts, command);
            push_part(&mut parts, "Working directory: ", cwd);
            push_opt(&mut parts, reason);
            proof {
                lemma_present3(opt(*command), prefixed("Working directory: "@, *cwd), opt(*reason));
                assert(parts.deep_view() =~= one(opt(*command)) + one(
                    prefixed("Working directory: "@, *cwd),
                ) + one(opt(*reason)));
            }
            ApprovalText {
                title: String::from_str("Allow command?"),
                body: join_strings(&parts, "\n"),
            }
        },
        ApprovalRequest::FileChange { reason, grant_root } => {
            let mut parts: Vec<String> = Vec::new();
            push_opt(&mut parts, reason);
            push_part(&mut parts, "Requested write root: ", grant_root);
            proof {
                lemma_present2(opt(*reason), prefixed("Requested write root: "@, *grant_root));
                assert(parts.deep_view() =~= one(opt(*reason)) + one(
                    prefixed("Requested write root: "@, *grant_root),
                ));
            }
            ApprovalText {
                title: String::from_str("Allow file changes?"),
                body: join_strings(&parts, "\n"),
            }
        },
        ApprovalRequest::Permissions { reason, cwd, permissions_json } => {
            let mut parts: Vec<String> = Vec::new();
            push_opt(&mut parts, reason);
            let mut line = String::from_str("Working directory: ");
            line.append(cwd.as_str());
            let ghost before = parts.deep_view();
            parts.push(line);
            assert(parts.deep_view() =~= before + one(Some("Working directory: "@ + cwd@)));
            push_opt(&mut parts, permissions_json);
            proof {
                lemma_present3(
                    opt(*reason),
                    Some("Working directory: "@ + cwd@),
                    opt(*permissions_json),
                );
                assert(parts.deep_view() =~= one(opt(*reason)) + one(
                    Some("Working directory: "@ + cwd@),
                ) + one(opt(*permissions_json)));
            }
            ApprovalText {
                title: String::from_str("Allow additional permissions?"),
                body: join_strings(&parts, "\n"),
            }
        },
        ApprovalRequest::McpElicitation { server_name, message, details } => {
            let mut title = String::from_str("Allow input requested by ");
            title.append(server_name.as_str());
            title.append("?");
            let mut body = message.clone();
            body.append("\n");
            body.append(details.as_str());
            ApprovalText { title, body }
        },
    }
}

/// What `char::to_uppercase` gives for `c`, collected into a string.
pub uninterp spec fn uppercase_of(c: char) -> Seq<char>;

/// The uppercase form of `c`, with `char::to_uppercase`. The contract names
/// the result: it depends on the character alone.
#[verifier::external_body]
fn to_uppercase(c: char) -> (r: String)
    ensures
        r@ == uppercase_of(c),
{
    c.to_uppercase().collect()
}

/// `value` with its first character in upper case.
pub open spec fn title_case_spec(value: Seq<char>) -> Seq<char> {
    if value.len() == 0 {
        Seq::empty()
    } else {
        uppercase_of(value[0]) + value.drop_first()
    }
}

/// `value` with its first character in upper case.
pub fn title_case(value: &str) -> (r: String)
    ensures
        r@ == title_case_spec(value@),
{
    let chars = chars_of(value);
    if chars.len() == 0 {
        return String::new();
    }
    let mut r = to_uppercase(chars[0]);
    let mut i: usize = 1;
    while i < chars.len()
        invariant
            1 <= i <= chars@.len(),
            chars@ == value@,
            r@ == uppercase_of(chars@[0]) + chars@.subrange(1, i as int),
        decreases chars@.len() - i,
    {
        crate::text::push_char(&mut r, chars[i]);
        assert(chars@.subrange(1, i as int + 1) =~= chars@.subrange(1, i as int).push(chars@[i as int]));
        i = i + 1;
    }
    assert(chars@.subrange(1, chars@.len() as int) =~= chars@.drop_first());
    r
}

} // verus!
