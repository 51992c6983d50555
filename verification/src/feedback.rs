//! Local preparation of a feedback report for human review: validating the
//! two behavior descriptions, redacting lines that may hold sensitive
//! content, keeping only diagnostics of a safe shape, and choosing the
//! destination. Nothing is sent.
use vstd::prelude::*;

use crate::text::{
    ascii_lower, chars_contain, chars_of, chars_start_with, contains, is_blank, lower, lower_char, push_str,
    starts_with, str_eq, str_is_blank, string_from_chars,
};

verus! {

pub const GUIDE_URL: &'static str = "https://github.com/hacker-no-ice/hubu/blob/main/docs/feedback.md";

pub const GUIDANCE_TOOL: &'static str = "hubu_feedback_guidance";

pub const PREPARE_TOOL: &'static str = "hubu_prepare_feedback";

pub const BUG_URL: &'static str = "https://github.com/hacker-no-ice/hubu/issues/new?template=bug.md";

pub const IDEA_URL: &'static str = "https://github.com/hacker-no-ice/hubu/issues/new?template=idea.md";

/// The message for fields that do not form a feedback input.
pub const INVALID_FIELDS_MESSAGE: &'static str =
    "Invalid feedback fields; consult feedback guidance. No report was prepared.";

pub const DESCRIPTION_LENGTH_MESSAGE: &'static str = "Both behavior descriptions must contain 1–4000 characters.";

pub const KIND_MESSAGE: &'static str = "Feedback kind must be bug, idea or private.";

pub const REVIEW_WARNING: &'static str =
    "Review all prose for sensitive information. Pattern redaction cannot detect every secret or prompt. No attachments are included.";

pub const REDACTION_WARNING: &'static str =
    "Potentially sensitive description lines were redacted; review the resulting text.";

pub const DIAGNOSTICS_WARNING: &'static str = "Unavailable, unknown or unsafe diagnostics were omitted.";

pub const PRIVATE_WARNING: &'static str =
    "Private support destination is not configured. Keep this draft local; never use a public issue as fallback for sensitive details.";

pub const REDACTED_LINE: &'static str = "[redacted: possible sensitive content]";

pub const OPERATION_HANDLE_PREFIX: &'static str = "hubu:public-operation:v1:";

/// What a user reports: what they tried, what happened, the kind of report
/// (`bug` when absent), and diagnostics by name, each a string or, as
/// `None`, a value of another type.
#[derive(Debug)]
pub struct FeedbackInput {
    pub trying: String,
    pub happened: String,
    pub kind: Option<String>,
    pub diagnostics: Vec<(String, Option<String>)>,
}

/// A report prepared for review, not sent.
#[derive(Debug)]
pub struct PreparedFeedback {
    pub destination_url: Option<&'static str>,
    pub visibility: &'static str,
    pub title: &'static str,
    pub body: String,
    /// The reviewed diagnostics: client version, platform, then the safe
    /// diagnostics in the order they were given.
    pub diagnostics: Vec<(String, String)>,
    pub warnings: Vec<&'static str>,
}

/// The kind of report when none is given.
pub fn default_kind() -> (k: String)
    ensures
        k@ == "bug"@,
{
    String::from_str("bug")
}

/// `char::is_control`: the Unicode control characters.
pub open spec fn is_control(c: char) -> bool {
    (c as u32) <= 0x1F || (0x7F <= (c as u32) && (c as u32) <= 0x9F)
}

/// A line keeps a character unless it is a control character other than tab.
pub open spec fn keeps_char(c: char) -> bool {
    !is_control(c) || c == '\t'
}

/// The line without its control characters, tabs kept.
pub open spec fn cleaned(line: Seq<char>) -> Seq<char>
    decreases line.len(),
{
    if line.len() == 0 {
        line
    } else if keeps_char(line.last()) {
        cleaned(line.drop_last()).push(line.last())
    } else {
        cleaned(line.drop_last())
    }
}

/// The line, lowercased, holds a marker of possibly sensitive content.
pub open spec fn line_is_sensitive(line: Seq<char>) -> bool {
    let low = lower(line);
    ||| contains(low, "https://"@)
    ||| contains(low, "http://"@)
    ||| contains(low, "bearer "@)
    ||| contains(low, "authorization"@)
    ||| contains(low, "password"@)
    ||| contains(low, "secret"@)
    ||| contains(low, "token="@)
    ||| contains(low, "token:"@)
    ||| contains(low, "api_key"@)
    ||| contains(low, "api-key"@)
    ||| contains(low, "sk-"@)
    ||| contains(low, "-----begin"@)
    ||| contains(low, "prompt:"@)
    ||| contains(low, "prompt="@)
    ||| contains(low, "raw_logs"@)
}

/// A line as the report shows it.
pub open spec fn redacted_line(line: Seq<char>) -> Seq<char> {
    if line_is_sensitive(line) {
        REDACTED_LINE@
    } else {
        cleaned(line)
    }
}

/// A line ended by a newline loses one trailing carriage return.
pub open spec fn strip_cr(line: Seq<char>) -> Seq<char> {
    if line.len() > 0 && line.last() == '\r' {
        line.drop_last()
    } else {
        line
    }
}

/// `str::lines` of `rest`, when `current` holds the characters read so far
/// of an unfinished line.
pub open spec fn lines_from(rest: Seq<char>, current: Seq<char>) -> Seq<Seq<char>>
    decreases rest.len(),
{
    if rest.len() == 0 {
        if current.len() == 0 {
            Seq::empty()
        } else {
            seq![current]
        }
    } else if rest[0] == '\n' {
        seq![strip_cr(current)] + lines_from(rest.drop_first(), Seq::empty())
    } else {
        lines_from(rest.drop_first(), current.push(rest[0]))
    }
}

/// The lines of a text, as `str::lines` splits it.
pub open spec fn text_lines(text: Seq<char>) -> Seq<Seq<char>> {
    lines_from(text, Seq::empty())
}

/// Lines joined by newlines.
pub open spec fn join_lines(lines: Seq<Seq<char>>) -> Seq<char>
    decreases lines.len(),
{
    if lines.len() == 0 {
        Seq::empty()
    } else if lines.len() == 1 {
        lines[0]
    } else {
        join_lines(lines.drop_last()) + seq!['\n'] + lines.last()
    }
}

pub open spec fn redacted_lines(lines: Seq<Seq<char>>) -> Seq<Seq<char>> {
    lines.map_values(|l: Seq<char>| redacted_line(l))
}

/// The text with each sensitive line replaced and control characters
/// dropped from the others.
pub open spec fn redacted_text(text: Seq<char>) -> Seq<char> {
    join_lines(redacted_lines(text_lines(text)))
}

/// Some line of the text was replaced.
pub open spec fn text_was_redacted(text: Seq<char>) -> bool {
    exists|i: int| 0 <= i < text_lines(text).len() && line_is_sensitive(#[trigger] text_lines(text)[i])
}

fn cleaned_line(line: &Vec<char>) -> (r: Vec<char>)
    ensures
        r@ == cleaned(line@),
{
    let mut out: Vec<char> = Vec::new();
    let mut i: usize = 0;
    while i < line.len()
        invariant
            i <= line.len(),
            out@ == cleaned(line@.take(i as int)),
        decreases line.len() - i,
    {
        let c = line[i];
        proof {
            assert(line@.take(i + 1).drop_last() =~= line@.take(i as int));
            assert(line@.take(i + 1).last() == c);
        }
        let code = c as u32;
        if code > 0x1F && !(0x7F <= code && code <= 0x9F) || c == '\t' {
            out.push(c);
        }
        i = i + 1;
    }
    assert(line@.take(line.len() as int) =~= line@);
    out
}

fn lowered(line: &Vec<char>) -> (r: Vec<char>)
    ensures
        r@ == lower(line@),
{
    let mut out: Vec<char> = Vec::new();
    let mut i: usize = 0;
    while i < line.len()
        invariant
            i <= line.len(),
            out@ == lower(line@.take(i as int)),
        decreases line.len() - i,
    {
        out.push(lower_char(line[i]));
        proof {
            assert(lower(line@.take(i + 1)) =~= lower(line@.take(i as int)).push(ascii_lower(line@[i as int])));
        }
        i = i + 1;
    }
    assert(line@.take(line.len() as int) =~= line@);
    out
}

fn holds(hay: &Vec<char>, needle: &str) -> (r: bool)
    ensures
        r == contains(hay@, needle@),
{
    let n = chars_of(needle);
    chars_contain(hay, &n)
}

fn sensitive(line: &Vec<char>) -> (r: bool)
    ensures
        r == line_is_sensitive(line@),
{
    let low = lowered(line);
    holds(&low, "https://") || holds(&low, "http://") || holds(&low, "bearer ") || holds(&low, "authorization")
        || holds(&low, "password") || holds(&low, "secret") || holds(&low, "token=") || holds(&low, "token:")
        || holds(&low, "api_key") || holds(&low, "api-key") || holds(&low, "sk-") || holds(&low, "-----begin")
        || holds(&low, "prompt:") || holds(&low, "prompt=") || holds(&low, "raw_logs")
}

/// Append one finished line to the redacted output.
fn emit_line(out: &mut Vec<char>, changed: &mut bool, line: &Vec<char>, first: bool, Ghost(done): Ghost<Seq<Seq<char>>>)
    requires
        first == (done.len() == 0),
        old(out)@ == join_lines(redacted_lines(done)),
        *old(changed) == (exists|k: int| 0 <= k < done.len() && line_is_sensitive(#[trigger] done[k])),
    ensures
        final(out)@ == join_lines(redacted_lines(done.push(line@))),
        *final(changed) == (exists|k: int| 0 <= k < done.push(line@).len() && line_is_sensitive(
            #[trigger] done.push(line@)[k],
        )),
{
    let is_sensitive = sensitive(line);
    let shown: Vec<char> = if is_sensitive {
        chars_of(REDACTED_LINE)
    } else {
        cleaned_line(line)
    };
    assert(shown@ == redacted_line(line@));
    let ghost after = done.push(line@);
    assert(redacted_lines(after) =~= redacted_lines(done).push(redacted_line(line@)));
    assert(redacted_lines(after).drop_last() =~= redacted_lines(done));
    if !first {
        out.push('\n');
    }
    let mut i: usize = 0;
    let ghost start = out@;
    while i < shown.len()
        invariant
            i <= shown.len(),
            out@ == start + shown@.take(i as int),
        decreases shown.len() - i,
    {
        out.push(shown[i]);
        proof {
            assert(shown@.take(i + 1) =~= shown@.take(i as int).push(shown@[i as int]));
        }
        i = i + 1;
    }
    assert(shown@.take(shown.len() as int) =~= shown@);
    proof {
        if done.len() == 0 {
            assert(redacted_lines(after).len() == 1);
            assert(out@ =~= join_lines(redacted_lines(after)));
        } else {
            assert(out@ =~= join_lines(redacted_lines(after)));
        }
        assert(after[after.len() - 1] == line@);
        assert forall|k: int| 0 <= k < done.len() implies #[trigger] after[k] == done[k] by {}
        if is_sensitive {
            assert(line_is_sensitive(after[after.len() - 1]));
        }
        if *changed {
            let k = choose|k: int| 0 <= k < done.len() && line_is_sensitive(#[trigger] done[k]);
            assert(after[k] == done[k]);
        }
    }
    *changed = *changed || is_sensitive;
}

/// The text with sensitive lines replaced and control characters dropped,
/// and whether some line was replaced.
pub fn redact(text: &str) -> (r: (String, bool))
    ensures
        r.0@ == redacted_text(text@),
        r.1 == text_was_redacted(text@),
{
    let chars = chars_of(text);
    let mut out: Vec<char> = Vec::new();
    let mut changed = false;
    let mut current: Vec<char> = Vec::new();
    let ghost mut done: Seq<Seq<char>> = Seq::empty();
    let mut any_line = false;
    let mut i: usize = 0;
    assert(text@.skip(0) =~= text@);
    while i < chars.len()
        invariant
            chars@ == text@,
            i <= chars.len(),
            text_lines(text@) == done + lines_from(text@.skip(i as int), current@),
            out@ == join_lines(redacted_lines(done)),
            changed == (exists|k: int| 0 <= k < done.len() && line_is_sensitive(#[trigger] done[k])),
            any_line == (done.len() > 0),
        decreases chars.len() - i,
    {
        let c = chars[i];
        let ghost rest = text@.skip(i as int);
        assert(rest[0] == c);
        assert(rest.drop_first() =~= text@.skip(i + 1));
        if c == '\n' {
            let line: Vec<char> = if current.len() > 0 && current[current.len() - 1] == '\r' {
                let mut trimmed = current.clone();
                trimmed.pop();
                trimmed
            } else {
                current.clone()
            };
            assert(line@ == strip_cr(current@));
            emit_line(&mut out, &mut changed, &line, !any_line, Ghost(done));
            any_line = true;
            proof {
                assert(done + lines_from(rest, current@) =~= done.push(line@) + lines_from(text@.skip(i + 1), Seq::empty()));
                done = done.push(line@);
            }
            current = Vec::new();
        } else {
            proof {
                assert(lines_from(rest, current@) == lines_from(text@.skip(i + 1), current@.push(c)));
            }
            current.push(c);
        }
        i = i + 1;
    }
    proof {
        assert(text@.skip(i as int) =~= Seq::<char>::empty());
        if current@.len() == 0 {
            assert(lines_from(text@.skip(i as int), current@) =~= Seq::<Seq<char>>::empty());
        } else {
            assert(lines_from(text@.skip(i as int), current@) =~= seq![current@]);
        }
    }
    if current.len() > 0 {
        emit_line(&mut out, &mut changed, &current, !any_line, Ghost(done));
        proof {
            assert(text_lines(text@) =~= done.push(current@));
            done = done.push(current@);
        }
    } else {
        assert(text_lines(text@) =~= done);
    }
    proof {
        assert(text_lines(text@) == done);
    }
    (string_from_chars(out.as_slice()), changed)
}

/// A description is refused when blank or longer than 4000 characters.
pub open spec fn description_refused(s: Seq<char>) -> bool {
    is_blank(s) || s.len() > 4000
}

pub open spec fn is_hex_char(c: char) -> bool {
    ('0' <= c && c <= '9') || ('a' <= c && c <= 'f') || ('A' <= c && c <= 'F')
}

/// A public operation handle: the handle prefix and 32 hexadecimal digits.
pub open spec fn is_safe_operation_handle(s: Seq<char>) -> bool {
    let n = OPERATION_HANDLE_PREFIX@.len();
    &&& starts_with(s, OPERATION_HANDLE_PREFIX@)
    &&& s.len() == n + 32
    &&& forall|i: int| n <= i < s.len() ==> is_hex_char(#[trigger] s[i])
}

pub open spec fn is_code_char(c: char) -> bool {
    ('a' <= c && c <= 'z') || ('0' <= c && c <= '9') || c == '_'
}

/// A stable snake_case error code of 3 to 80 characters with an underscore.
pub open spec fn is_safe_error_code(s: Seq<char>) -> bool {
    &&& 3 <= s.len() <= 80
    &&& s.contains('_')
    &&& forall|i: int| 0 <= i < s.len() ==> is_code_char(#[trigger] s[i])
}

/// A diagnostic is kept when it is a string of the safe shape for its name.
pub open spec fn diagnostic_is_safe(name: Seq<char>, value: Option<String>) -> bool {
    match value {
        Some(v) => (name == "operation_handle"@ && is_safe_operation_handle(v@)) || (name == "error_code"@
            && is_safe_error_code(v@)),
        None => false,
    }
}

/// The safe diagnostics, in the order given, by their characters.
pub open spec fn safe_diagnostics(d: Seq<(String, Option<String>)>) -> Seq<(Seq<char>, Seq<char>)>
    decreases d.len(),
{
    if d.len() == 0 {
        Seq::empty()
    } else {
        let rest = safe_diagnostics(d.drop_last());
        let (name, value) = d.last();
        if diagnostic_is_safe(name@, value) {
            rest.push((name@, value.unwrap()@))
        } else {
            rest
        }
    }
}

pub open spec fn pair_views(entries: Seq<(String, String)>) -> Seq<(Seq<char>, Seq<char>)> {
    entries.map_values(|p: (String, String)| (p.0@, p.1@))
}

pub open spec fn str_views(s: Seq<&'static str>) -> Seq<Seq<char>> {
    s.map_values(|w: &'static str| w@)
}

/// The pretty-printed JSON object that `serde_json::to_string_pretty` gives
/// for these string entries.
pub uninterp spec fn pretty_json_object(entries: Seq<(Seq<char>, Seq<char>)>) -> Seq<char>;

/// Render string entries as a pretty-printed JSON object.
///
/// Builds a `serde_json::Map` of the entries, later entries replacing
/// earlier ones under the same name, and calls `serde_json::to_string_pretty`
/// on it. The contract names the text; it states nothing of its layout.
#[verifier::external_body]
fn diagnostics_json(entries: &Vec<(String, String)>) -> (s: String)
    ensures
        s@ == pretty_json_object(pair_views(entries@)),
{
    let map: serde_json::Map<String, serde_json::Value> = entries
        .iter()
        .map(|(name, value)| (name.clone(), serde_json::Value::String(value.clone())))
        .collect();
    match serde_json::to_string_pretty(&serde_json::Value::Object(map)) {
        Ok(text) => text,
        Err(_) => String::new(),
    }
}

/// The body of a report.
pub open spec fn report_body(trying: Seq<char>, happened: Seq<char>, diagnostics_json: Seq<char>) -> Seq<char> {
    "## What were you trying to do?\n\n"@ + trying + "\n\n## What happened?\n\n"@ + happened
        + "\n\n## Reviewed diagnostics\n\n```json\n"@ + diagnostics_json + "\n```\n"@
}

/// The body of a report from its descriptions and its rendered
/// diagnostics.
pub fn report_body_text(trying: &str, happened: &str, diagnostics_json: &str) -> (b: String)
    ensures
        b@ == report_body(trying@, happened@, diagnostics_json@),
{
    let mut body: Vec<char> = Vec::new();
    push_str(&mut body, "## What were you trying to do?\n\n");
    push_str(&mut body, trying);
    push_str(&mut body, "\n\n## What happened?\n\n");
    push_str(&mut body, happened);
    push_str(&mut body, "\n\n## Reviewed diagnostics\n\n```json\n");
    push_str(&mut body, diagnostics_json);
    push_str(&mut body, "\n```\n");
    assert(body@ =~= report_body(trying@, happened@, diagnostics_json@));
    string_from_chars(body.as_slice())
}

/// The reviewed diagnostics of a report: client version and platform, then
/// the safe diagnostics given.
pub open spec fn reviewed_diagnostics(input: FeedbackInput, version: Seq<char>, platform: Seq<char>) -> Seq<
    (Seq<char>, Seq<char>),
> {
    seq![("client_version"@, version), ("platform"@, platform)] + safe_diagnostics(input.diagnostics@)
}

/// Some diagnostic given is not kept.
pub open spec fn some_diagnostic_omitted(d: Seq<(String, Option<String>)>) -> bool {
    exists|i: int| 0 <= i < d.len() && !diagnostic_is_safe((#[trigger] d[i]).0@, d[i].1)
}

/// The kind that was asked for.
pub open spec fn kind_text(input: FeedbackInput) -> Seq<char> {
    match input.kind {
        Some(k) => k@,
        None => "bug"@,
    }
}

pub open spec fn known_kind(kind: Seq<char>) -> bool {
    kind == "bug"@ || kind == "idea"@ || kind == "private"@
}

/// The warnings of a report, in order.
pub open spec fn report_warnings(input: FeedbackInput) -> Seq<Seq<char>> {
    seq![REVIEW_WARNING@] + (if text_was_redacted(input.trying@) || text_was_redacted(input.happened@) {
        seq![REDACTION_WARNING@]
    } else {
        Seq::empty()
    }) + (if some_diagnostic_omitted(input.diagnostics@) {
        seq![DIAGNOSTICS_WARNING@]
    } else {
        Seq::empty()
    }) + (if kind_text(input) == "private"@ {
        seq![PRIVATE_WARNING@]
    } else {
        Seq::empty()
    })
}

/// `p` is the report prepared from `input` for a client `version` on
/// `platform`.
pub open spec fn prepared_from(input: FeedbackInput, version: Seq<char>, platform: Seq<char>, p: PreparedFeedback) -> bool {
    let kind = kind_text(input);
    &&& kind == "bug"@ ==> (p.destination_url matches Some(u) && u@ == BUG_URL@) && p.visibility@ == "public"@
        && p.title@ == "Bug report"@
    &&& kind == "idea"@ ==> (p.destination_url matches Some(u) && u@ == IDEA_URL@) && p.visibility@ == "public"@
        && p.title@ == "Idea for Hubu"@
    &&& kind == "private"@ ==> p.destination_url is None && p.visibility@ == "private"@ && p.title@
        == "Private support report"@
    &&& pair_views(p.diagnostics@) == reviewed_diagnostics(input, version, platform)
    &&& p.body@ == report_body(
        redacted_text(input.trying@),
        redacted_text(input.happened@),
        pretty_json_object(reviewed_diagnostics(input, version, platform)),
    )
    &&& str_views(p.warnings@) == report_warnings(input)
}

fn is_hex_digit(c: char) -> (r: bool)
    ensures
        r == is_hex_char(c),
{
    ('0' <= c && c <= '9') || ('a' <= c && c <= 'f') || ('A' <= c && c <= 'F')
}

fn safe_operation_handle(s: &str) -> (r: bool)
    ensures
        r == is_safe_operation_handle(s@),
{
    let chars = chars_of(s);
    let prefix = chars_of(OPERATION_HANDLE_PREFIX);
    if !chars_start_with(&chars, &prefix) {
        return false;
    }
    if chars.len() - prefix.len() != 32 {
        return false;
    }
    let mut i: usize = prefix.len();
    while i < chars.len()
        invariant
            chars@ == s@,
            prefix@ == OPERATION_HANDLE_PREFIX@,
            prefix.len() <= i <= chars.len(),
            forall|j: int| prefix.len() <= j < i ==> is_hex_char(#[trigger] s@[j]),
        decreases chars.len() - i,
    {
        if !is_hex_digit(chars[i]) {
            return false;
        }
        i = i + 1;
    }
    true
}

fn safe_error_code(s: &str) -> (r: bool)
    ensures
        r == is_safe_error_code(s@),
{
    let chars = chars_of(s);
    if chars.len() < 3 || chars.len() > 80 {
        return false;
    }
    let mut underscore = false;
    let mut i: usize = 0;
    while i < chars.len()
        invariant
            chars@ == s@,
            i <= chars.len(),
            forall|j: int| 0 <= j < i ==> is_code_char(#[trigger] s@[j]),
            underscore == (exists|j: int| 0 <= j < i && s@[j] == '_'),
        decreases chars.len() - i,
    {
        let c = chars[i];
        if !(('a' <= c && c <= 'z') || ('0' <= c && c <= '9') || c == '_') {
            return false;
        }
        if c == '_' {
            underscore = true;
        }
        i = i + 1;
    }
    proof {
        if underscore {
            let j = choose|j: int| 0 <= j < i && s@[j] == '_';
            assert(s@.contains('_'));
        } else {
            assert(!s@.contains('_'));
        }
    }
    underscore
}

fn safe_diagnostic(name: &String, value: &Option<String>) -> (r: bool)
    ensures
        r == diagnostic_is_safe(name@, *value),
{
    proof {
        reveal_strlit("operation_handle");
        reveal_strlit("error_code");
    }
    match value {
        Some(v) => {
            let is_handle = str_eq(name.as_str(), "operation_handle");
            let is_code = str_eq(name.as_str(), "error_code");
            assert("operation_handle"@[0] != "error_code"@[0]);
            if is_handle {
                safe_operation_handle(v.as_str())
            } else if is_code {
                safe_error_code(v.as_str())
            } else {
                false
            }
        },
        None => false,
    }
}

/// Prepare a report for review from `input`, for a client `version` on
/// `platform`.
///
/// Refused when a description is blank or longer than 4000 characters, or
/// the kind is not `bug`, `idea` or `private`.
pub fn prepare(input: FeedbackInput, version: &str, platform: &str) -> (r: Result<PreparedFeedback, &'static str>)
    ensures
        (description_refused(input.trying@) || description_refused(input.happened@)) ==> (r matches Err(m) && m@
            == DESCRIPTION_LENGTH_MESSAGE@),
        !(description_refused(input.trying@) || description_refused(input.happened@)) && !known_kind(
            kind_text(input),
        ) ==> (r matches Err(m) && m@ == KIND_MESSAGE@),
        !(description_refused(input.trying@) || description_refused(input.happened@)) && known_kind(
            kind_text(input),
        ) ==> (r matches Ok(p) && prepared_from(input, version@, platform@, p)),
{
    let trying_refused = str_is_blank(input.trying.as_str()) || chars_of(input.trying.as_str()).len() > 4000;
    let happened_refused = str_is_blank(input.happened.as_str()) || chars_of(input.happened.as_str()).len() > 4000;
    if trying_refused || happened_refused {
        return Err(DESCRIPTION_LENGTH_MESSAGE);
    }
    let kind = match &input.kind {
        Some(k) => k.clone(),
        None => default_kind(),
    };
    assert(kind@ == kind_text(input));
    proof {
        reveal_strlit("bug");
        reveal_strlit("idea");
        reveal_strlit("private");
    }
    let (destination_url, visibility, title): (Option<&'static str>, &'static str, &'static str) = if str_eq(
        kind.as_str(),
        "bug",
    ) {
        (Some(BUG_URL), "public", "Bug report")
    } else if str_eq(kind.as_str(), "idea") {
        (Some(IDEA_URL), "public", "Idea for Hubu")
    } else if str_eq(kind.as_str(), "private") {
        (None, "private", "Private support report")
    } else {
        return Err(KIND_MESSAGE);
    };
    let mut warnings: Vec<&'static str> = Vec::new();
    warnings.push(REVIEW_WARNING);
    let (trying, r1) = redact(input.trying.as_str());
    let (happened, r2) = redact(input.happened.as_str());
    if r1 || r2 {
        warnings.push(REDACTION_WARNING);
    }
    let mut diagnostics: Vec<(String, String)> = Vec::new();
    diagnostics.push((String::from_str("client_version"), String::from_str(version)));
    diagnostics.push((String::from_str("platform"), String::from_str(platform)));
    let ghost head = pair_views(diagnostics@);
    assert(head =~= seq![("client_version"@, version@), ("platform"@, platform@)]);
    let mut omitted = false;
    let mut i: usize = 0;
    while i < input.diagnostics.len()
        invariant
            i <= input.diagnostics.len(),
            head == seq![("client_version"@, version@), ("platform"@, platform@)],
            pair_views(diagnostics@) == head + safe_diagnostics(input.diagnostics@.take(i as int)),
            omitted == (exists|j: int| 0 <= j < i && !diagnostic_is_safe(
                (#[trigger] input.diagnostics@[j]).0@,
                input.diagnostics@[j].1,
            )),
        decreases input.diagnostics.len() - i,
    {
        let entry = &input.diagnostics[i];
        let name = &entry.0;
        let value = &entry.1;
        proof {
            assert(input.diagnostics@.take(i + 1).drop_last() =~= input.diagnostics@.take(i as int));
            assert(input.diagnostics@.take(i + 1).last() == input.diagnostics@[i as int]);
        }
        if safe_diagnostic(name, value) {
            let kept = match value {
                Some(v) => v.clone(),
                None => String::new(),
            };
            let ghost before = diagnostics@;
            diagnostics.push((name.clone(), kept));
            proof {
                assert(pair_views(diagnostics@) =~= pair_views(before).push((name@, kept@)));
            }
        } else {
            omitted = true;
        }
        i = i + 1;
    }
    proof {
        assert(input.diagnostics@.take(input.diagnostics.len() as int) =~= input.diagnostics@);
    }
    if omitted {
        warnings.push(DIAGNOSTICS_WARNING);
    }
    if destination_url.is_none() {
        warnings.push(PRIVATE_WARNING);
    }
    proof {
        assert(str_views(warnings@) =~= report_warnings(input));
    }
    let json = diagnostics_json(&diagnostics);
    Ok(PreparedFeedback {
        destination_url,
        visibility,
        title,
        body: report_body_text(trying.as_str(), happened.as_str(), json.as_str()),
        diagnostics,
        warnings,
    })
}

} // verus!
