//! The scenarios of the text view scroll profile: their options, read from
//! the command line, and the deterministic markdown documents they scroll.
use vstd::prelude::*;
use vstd::string::StringExecFns;
use crate::text::{
    chars_of, decimal, match_at, push_decimal, starts_with_spec, str_eq, trim, trim_spec,
};
use crate::transcript::html_attr_spec;

verus! {

/// Seconds that a profile runs by default.
pub const DEFAULT_SECONDS: u64 = 15;

/// Milliseconds between scroll events by default.
pub const DEFAULT_INTERVAL_MS: u64 = 16;

/// The tag of the blocks of the transcript scenarios.
pub const PROFILE_BLOCK_TAG: &'static str = "CodexProfileBlock";

/// A document to scroll.
#[derive(Clone, Copy, Debug, PartialEq, Eq, Structural)]
pub enum Scenario {
    Short,
    ManyBlocks,
    LongList,
    LongCode,
    Mixed,
    Transcript,
    TranscriptStreaming,
}

/// The name of a scenario on the command line.
pub open spec fn scenario_name(s: Scenario) -> Seq<char> {
    match s {
        Scenario::Short => "short"@,
        Scenario::ManyBlocks => "many-blocks"@,
        Scenario::LongList => "long-list"@,
        Scenario::LongCode => "long-code"@,
        Scenario::Mixed => "mixed"@,
        Scenario::Transcript => "transcript"@,
        Scenario::TranscriptStreaming => "transcript-streaming"@,
    }
}

/// The scenario whose name is `value`.
pub open spec fn scenario_named(value: Seq<char>) -> Option<Scenario> {
    if value == "short"@ {
        Some(Scenario::Short)
    } else if value == "many-blocks"@ {
        Some(Scenario::ManyBlocks)
    } else if value == "long-list"@ {
        Some(Scenario::LongList)
    } else if value == "long-code"@ {
        Some(Scenario::LongCode)
    } else if value == "mixed"@ {
        Some(Scenario::Mixed)
    } else if value == "transcript"@ {
        Some(Scenario::Transcript)
    } else if value == "transcript-streaming"@ {
        Some(Scenario::TranscriptStreaming)
    } else {
        None
    }
}

impl Scenario {
    /// The scenario named `value`, if any.
    pub fn parse(value: &str) -> (r: Option<Scenario>)
        ensures
            r == scenario_named(value@),
    {
        if str_eq(value, "short") {
            Some(Scenario::Short)
        } else if str_eq(value, "many-blocks") {
            Some(Scenario::ManyBlocks)
        } else if str_eq(value, "long-list") {
            Some(Scenario::LongList)
        } else if str_eq(value, "long-code") {
            Some(Scenario::LongCode)
        } else if str_eq(value, "mixed") {
            Some(Scenario::Mixed)
        } else if str_eq(value, "transcript") {
            Some(Scenario::Transcript)
        } else if str_eq(value, "transcript-streaming") {
            Some(Scenario::TranscriptStreaming)
        } else {
            None
        }
    }

    /// The name of the scenario.
    pub fn name(self) -> (r: &'static str)
        ensures
            r@ == scenario_name(self),
    {
        match self {
            Scenario::Short => "short",
            Scenario::ManyBlocks => "many-blocks",
            Scenario::LongList => "long-list",
            Scenario::LongCode => "long-code",
            Scenario::Mixed => "mixed",
            Scenario::Transcript => "transcript",
            Scenario::TranscriptStreaming => "transcript-streaming",
        }
    }
}

/// The usage line of the profile.
pub fn usage() -> (r: &'static str)
    ensures
        r@ == "Usage: text_view_scroll_profile [--scenario short|many-blocks|long-list|long-code|mixed|transcript|transcript-streaming] [--seconds N] [--interval-ms N] [--selectable|--not-selectable]"@,
{
    "Usage: text_view_scroll_profile [--scenario short|many-blocks|long-list|long-code|mixed|transcript|transcript-streaming] [--seconds N] [--interval-ms N] [--selectable|--not-selectable]"
}

/// The value of the decimal digits of `s[..n]`.
pub open spec fn digits_value(s: Seq<char>, n: int) -> int
    decreases n,
{
    if n <= 0 {
        0
    } else {
        digits_value(s, n - 1) * 10 + (s[n - 1] as int - '0' as int)
    }
}

/// Whether every character of `s[from..]` is a decimal digit.
pub open spec fn all_digits(s: Seq<char>, from: int) -> bool {
    forall|i: int| from <= i < s.len() ==> '0' <= #[trigger] s[i] <= '9'
}

/// What `str::parse::<u64>` accepts: an optional `+` and at least one
/// decimal digit, with a value that fits in a `u64`.
pub open spec fn parse_u64_spec(s: Seq<char>) -> Option<u64> {
    let start: int = if s.len() > 0 && s[0] == '+' {
        1
    } else {
        0
    };
    let digits = s.subrange(start, s.len() as int);
    if digits.len() > 0 && all_digits(digits, 0) && digits_value(digits, digits.len() as int)
        <= u64::MAX {
        Some(digits_value(digits, digits.len() as int) as u64)
    } else {
        None
    }
}

/// Reads an unsigned decimal number as `str::parse::<u64>` does.
pub fn parse_u64(s: &str) -> (r: Option<u64>)
    ensures
        r == parse_u64_spec(s@),
{
    let chars = chars_of(s);
    let n = chars.len();
    let start: usize = if n > 0 && chars[0] == '+' {
        1
    } else {
        0
    };
    let ghost digits = chars@.subrange(start as int, n as int);
    if start >= n {
        return None;
    }
    let ghost answer = if digits.len() > 0 && all_digits(digits, 0) && digits_value(
        digits,
        digits.len() as int,
    ) <= u64::MAX {
        Some(digits_value(digits, digits.len() as int) as u64)
    } else {
        None
    };
    assert(parse_u64_spec(s@) == answer);
    let mut value: u64 = 0;
    let mut i = start;
    while i < n
        invariant
            start <= i <= n,
            n == chars@.len(),
            chars@ == s@,
            digits == chars@.subrange(start as int, n as int),
            parse_u64_spec(s@) == answer,
            answer == if digits.len() > 0 && all_digits(digits, 0) && digits_value(
                digits,
                digits.len() as int,
            ) <= u64::MAX {
                Some(digits_value(digits, digits.len() as int) as u64)
            } else {
                None
            },
            all_digits(digits.subrange(0, i - start), 0),
            value == digits_value(digits, i - start),
        decreases n - i,
    {
        let c = chars[i];
        if c < '0' || c > '9' {
            assert(digits[i - start] == c);
            assert(!all_digits(digits, 0));
            return None;
        }
        let d = (c as u32 - '0' as u32) as u64;
        assert(digits[i - start] == c);
        if value > (u64::MAX - d) / 10 {
            proof {
                assert forall|j: int| 0 <= j < i - start + 1 implies '0' <= #[trigger] digits[j]
                    <= '9' by {
                    if j < i - start {
                        assert(digits.subrange(0, i - start)[j] == digits[j]);
                    }
                }
                lemma_digits_value_grows(digits, i - start + 1, n - start);
                assert(digits_value(digits, i - start + 1) > u64::MAX) by (nonlinear_arith)
                    requires
                        value > (u64::MAX - d) / 10,
                        digits_value(digits, i - start + 1) == value * 10 + d,
                        0 <= d <= 9,
                ;
            }
            return None;
        }
        assert(value * 10 + d <= u64::MAX) by (nonlinear_arith)
            requires
                value <= (u64::MAX - d) / 10,
                0 <= d <= 9,
        ;
        value = value * 10 + d;
        assert(digits.subrange(0, i - start + 1) =~= digits.subrange(0, i - start).push(c));
        i = i + 1;
    }
    assert(digits.subrange(0, n - start) =~= digits);
    Some(value)
}

/// More digits never make a smaller value.
proof fn lemma_digits_value_grows(s: Seq<char>, k: int, n: int)
    requires
        0 <= k <= n <= s.len(),
        all_digits(s.subrange(0, k), 0) ==> true,
        forall|i: int| 0 <= i < k ==> '0' <= #[trigger] s[i] <= '9',
    ensures
        all_digits(s, 0) ==> digits_value(s, k) <= digits_value(s, n),
    decreases n - k,
{
    if k < n && all_digits(s, 0) {
        assert('0' <= s[k] <= '9');
        lemma_digits_value_nonneg(s, k);
        lemma_digits_value_grows(s, k + 1, n);
        assert(digits_value(s, k + 1) >= digits_value(s, k)) by (nonlinear_arith)
            requires
                digits_value(s, k + 1) == digits_value(s, k) * 10 + (s[k] as int - '0' as int),
                digits_value(s, k) >= 0,
                s[k] as int - '0' as int >= 0,
        ;
    }
}

proof fn lemma_digits_value_nonneg(s: Seq<char>, k: int)
    requires
        0 <= k <= s.len(),
        forall|i: int| 0 <= i < k ==> '0' <= #[trigger] s[i] <= '9',
    ensures
        digits_value(s, k) >= 0,
    decreases k,
{
    if k > 0 {
        lemma_digits_value_nonneg(s, k - 1);
        assert(digits_value(s, k) >= 0) by (nonlinear_arith)
            requires
                digits_value(s, k) == digits_value(s, k - 1) * 10 + (s[k - 1] as int - '0' as int),
                digits_value(s, k - 1) >= 0,
                s[k - 1] as int - '0' as int >= 0,
        ;
    }
}

/// What `format!("{:?}", s)` writes for a string: the string quoted, with
/// its special characters escaped.
pub uninterp spec fn debug_quoted(s: Seq<char>) -> Seq<char>;

/// Writes `s` as `Debug` does for a string, with `format!`.
#[verifier::external_body]
pub(crate) fn debug_string(s: &str) -> (r: String)
    ensures
        r@ == debug_quoted(s@),
{
    format!("{s:?}")
}

/// The outcome of reading a positive number for `flag` from `value`.
pub open spec fn parse_positive_spec(value: Option<Seq<char>>, flag: Seq<char>) -> Result<u64, Seq<char>> {
    match value {
        None => Err(flag + " requires a positive integer"@),
        Some(v) => match parse_u64_spec(v) {
            None => Err("invalid value for "@ + flag + ": "@ + debug_quoted(v)),
            Some(n) => if n == 0 {
                Err(flag + " must be greater than zero"@)
            } else {
                Ok(n)
            },
        },
    }
}

/// A result with its error as characters.
pub open spec fn result_view<T>(r: Result<T, String>) -> Result<T, Seq<char>> {
    match r {
        Ok(v) => Ok(v),
        Err(e) => Err(e@),
    }
}

/// Reads the positive number given for `flag`.
pub fn parse_positive(value: &Option<String>, flag: &str) -> (r: Result<u64, String>)
    ensures
        result_view(r) == parse_positive_spec(
            match value {
                Some(v) => Some(v@),
                None => None,
            },
            flag@,
        ),
{
    let v = match value {
        Some(v) => v,
        None => {
            let mut e = String::from_str(flag);
            e.append(" requires a positive integer");
            return Err(e);
        },
    };
    match parse_u64(v.as_str()) {
        None => {
            let mut e = String::from_str("invalid value for ");
            e.append(flag);
            e.append(": ");
            e.append(debug_string(v.as_str()).as_str());
            Err(e)
        },
        Some(n) => {
            if n == 0 {
                let mut e = String::from_str(flag);
                e.append(" must be greater than zero");
                Err(e)
            } else {
                Ok(n)
            }
        },
    }
}

/// The options of a profile run.
#[derive(Clone, Copy, Debug, PartialEq, Eq, Structural)]
pub struct Options {
    pub scenario: Scenario,
    pub selectable: bool,
    pub seconds: u64,
    pub interval_ms: u64,
}

/// The options when none are given.
pub open spec fn default_options() -> Options {
    Options {
        scenario: Scenario::Mixed,
        selectable: true,
        seconds: DEFAULT_SECONDS,
        interval_ms: DEFAULT_INTERVAL_MS,
    }
}

impl Default for Options {
    fn default() -> (r: Options)
        ensures
            r == default_options(),
    {
        Options {
            scenario: Scenario::Mixed,
            selectable: true,
            seconds: DEFAULT_SECONDS,
            interval_ms: DEFAULT_INTERVAL_MS,
        }
    }
}

/// The error for an unknown scenario name.
pub open spec fn unknown_scenario(value: Seq<char>) -> Seq<char> {
    "unknown scenario "@ + debug_quoted(value)
        + "; expected short, many-blocks, long-list, long-code, mixed, transcript, or transcript-streaming"@
}

/// The options after reading `args[i..]` onto `options`: each flag sets
/// its option, and the first flag that is unknown, lacks its value or has
/// a bad one gives the error.
pub open spec fn parse_args_from(args: Seq<Seq<char>>, i: int, options: Options) -> Result<Options, Seq<char>>
    decreases args.len() - i,
{
    if i < 0 || i >= args.len() {
        Ok(options)
    } else {
        let arg = args[i];
        let next = if i + 1 < args.len() {
            Some(args[i + 1])
        } else {
            None
        };
        if arg == "--scenario"@ {
            match next {
                None => Err("--scenario requires a value"@),
                Some(v) => match scenario_named(v) {
                    None => Err(unknown_scenario(v)),
                    Some(s) => parse_args_from(args, i + 2, Options { scenario: s, ..options }),
                },
            }
        } else if arg == "--seconds"@ {
            match parse_positive_spec(next, "--seconds"@) {
                Err(e) => Err(e),
                Ok(n) => parse_args_from(args, i + 2, Options { seconds: n, ..options }),
            }
        } else if arg == "--interval-ms"@ {
            match parse_positive_spec(next, "--interval-ms"@) {
                Err(e) => Err(e),
                Ok(n) => parse_args_from(args, i + 2, Options { interval_ms: n, ..options }),
            }
        } else if arg == "--selectable"@ {
            parse_args_from(args, i + 1, Options { selectable: true, ..options })
        } else if arg == "--not-selectable"@ {
            parse_args_from(args, i + 1, Options { selectable: false, ..options })
        } else if arg == "--help"@ || arg == "-h"@ {
            Err(usage_text())
        } else {
            Err("unknown argument "@ + debug_quoted(arg) + "\n\n"@ + usage_text())
        }
    }
}

/// The usage line.
pub open spec fn usage_text() -> Seq<char> {
    "Usage: text_view_scroll_profile [--scenario short|many-blocks|long-list|long-code|mixed|transcript|transcript-streaming] [--seconds N] [--interval-ms N] [--selectable|--not-selectable]"@
}

impl Options {
    /// Reads the options from the command-line arguments after the program name.
    pub fn parse(args: &Vec<String>) -> (r: Result<Options, String>)
        ensures
            result_view(r) == parse_args_from(args.deep_view(), 0, default_options()),
    {
        let ghost all = args.deep_view();
        let mut options = Options::default();
        let mut i: usize = 0;
        while i < args.len()
            invariant
                all == args.deep_view(),
                0 <= i <= args@.len(),
                parse_args_from(all, 0, default_options()) == parse_args_from(all, i as int, options),
            decreases args@.len() - i,
        {
            let arg = args[i].as_str();
            assert(all[i as int] == arg@);
            let next: Option<String> = if i + 1 < args.len() {
                assert(all[i + 1] == args@[i + 1]@);
                Some(args[i + 1].clone())
            } else {
                None
            };
            if str_eq(arg, "--scenario") {
                let value = match next {
                    Some(v) => v,
                    None => return Err(String::from_str("--scenario requires a value")),
                };
                match Scenario::parse(value.as_str()) {
                    Some(s) => {
                        options.scenario = s;
                    },
                    None => {
                        let mut e = String::from_str("unknown scenario ");
                        e.append(debug_string(value.as_str()).as_str());
                        e.append(
                            "; expected short, many-blocks, long-list, long-code, mixed, transcript, or transcript-streaming",
                        );
                        return Err(e);
                    },
                }
                i = i + 2;
            } else if str_eq(arg, "--seconds") {
                match parse_positive(&next, "--seconds") {
                    Ok(n) => {
                        options.seconds = n;
                    },
                    Err(e) => return Err(e),
                }
                i = i + 2;
            } else if str_eq(arg, "--interval-ms") {
                match parse_positive(&next, "--interval-ms") {
                    Ok(n) => {
                        options.interval_ms = n;
                    },
                    Err(e) => return Err(e),
                }
                i = i + 2;
            } else if str_eq(arg, "--selectable") {
                options.selectable = true;
                i = i + 1;
            } else if str_eq(arg, "--not-selectable") {
                options.selectable = false;
                i = i + 1;
            } else if str_eq(arg, "--help") || str_eq(arg, "-h") {
                return Err(String::from_str(usage()));
            } else {
                let mut e = String::from_str("unknown argument ");
                e.append(debug_string(arg).as_str());
                e.append("\n\n");
                e.append(usage());
                return Err(e);
            }
            if i > args.len() {
                i = args.len();
            }
        }
        Ok(options)
    }
}

/// The decimal digits of a count.
pub open spec fn dec(n: int) -> Seq<char> {
    decimal(n as nat)
}

/// One section of the many-blocks document.
pub open spec fn independent_block(i: int) -> Seq<char> {
    "## Independent block "@ + dec(i) + "\n\nThis is paragraph "@ + dec(i)
        + " with **bold text**, `inline code`, and enough words to wrap across the profiling window.\n\n"@
}

/// The first `n` sections of the many-blocks document.
pub open spec fn independent_blocks(n: int) -> Seq<char>
    decreases n,
{
    if n <= 0 {
        Seq::empty()
    } else {
        independent_blocks(n - 1) + independent_block(n - 1)
    }
}

/// Eight hundred headed paragraphs.
pub fn many_blocks_markdown() -> (r: String)
    ensures
        r@ == independent_blocks(800),
{
    let mut markdown = String::new();
    let mut index: u64 = 0;
    while index < 800
        invariant
            0 <= index <= 800,
            markdown@ == independent_blocks(index as int),
        decreases 800 - index,
    {
        markdown.append("## Independent block ");
        push_decimal(&mut markdown, index);
        markdown.append("\n\nThis is paragraph ");
        push_decimal(&mut markdown, index);
        markdown.append(
            " with **bold text**, `inline code`, and enough words to wrap across the profiling window.\n\n",
        );
        index = index + 1;
    }
    markdown
}

/// One item of the long-list document.
pub open spec fn list_item(i: int) -> Seq<char> {
    "- List item "@ + dec(i)
        + " has **bold text**, `inline code`, and enough words to exercise shaping and wrapping.\n"@
}

/// The first `n` items of the long-list document.
pub open spec fn list_items(n: int) -> Seq<char>
    decreases n,
{
    if n <= 0 {
        Seq::empty()
    } else {
        list_items(n - 1) + list_item(n - 1)
    }
}

/// One heading and a single list of six hundred items.
pub fn long_list_markdown() -> (r: String)
    ensures
        r@ == "# One top-level list block\n\n"@ + list_items(600),
{
    let mut markdown = String::from_str("# One top-level list block\n\n");
    let ghost head = markdown@;
    let mut index: u64 = 0;
    while index < 600
        invariant
            0 <= index <= 600,
            head == "# One top-level list block\n\n"@,
            markdown@ == head + list_items(index as int),
        decreases 600 - index,
    {
        markdown.append("- List item ");
        push_decimal(&mut markdown, index);
        markdown.append(
            " has **bold text**, `inline code`, and enough words to exercise shaping and wrapping.\n",
        );
        index = index + 1;
    }
    markdown
}

/// One line of the long-code document.
pub open spec fn code_line(i: int) -> Seq<char> {
    "let profile_line_"@ + dec(i) + " = \"TextView scroll profile line "@ + dec(i) + "\";\n"@
}

/// The first `n` lines of the long-code document.
pub open spec fn code_lines(n: int) -> Seq<char>
    decreases n,
{
    if n <= 0 {
        Seq::empty()
    } else {
        code_lines(n - 1) + code_line(n - 1)
    }
}

/// One heading and a single code block of eight hundred lines.
pub fn long_code_markdown() -> (r: String)
    ensures
        r@ == "# One top-level code block\n\n```rust\n"@ + code_lines(800) + "```\n"@,
{
    let mut markdown = String::from_str("# One top-level code block\n\n```rust\n");
    let ghost head = markdown@;
    let mut index: u64 = 0;
    while index < 800
        invariant
            0 <= index <= 800,
            head == "# One top-level code block\n\n```rust\n"@,
            markdown@ == head + code_lines(index as int),
        decreases 800 - index,
    {
        markdown.append("let profile_line_");
        push_decimal(&mut markdown, index);
        markdown.append(" = \"TextView scroll profile line ");
        push_decimal(&mut markdown, index);
        markdown.append("\";\n");
        index = index + 1;
    }
    markdown.append("```\n");
    markdown
}

/// One list row of turn `t` of the mixed document.
pub open spec fn mixed_item(t: int, item: int) -> Seq<char> {
    "- Turn "@ + dec(t) + ", item "@ + dec(item)
        + ": a moderately long list row that wraps in a normal chat window.\n"@
}

/// The first `n` list rows of turn `t`.
pub open spec fn mixed_items(t: int, n: int) -> Seq<char>
    decreases n,
{
    if n <= 0 {
        Seq::empty()
    } else {
        mixed_items(t, n - 1) + mixed_item(t, n - 1)
    }
}

/// The first `n` code lines of turn `t`.
pub open spec fn mixed_code(t: int, n: int) -> Seq<char>
    decreases n,
{
    if n <= 0 {
        Seq::empty()
    } else {
        mixed_code(t, n - 1) + "    let line_"@ + dec(n - 1) + " = "@ + dec(t) + " + "@ + dec(n - 1)
            + ";\n"@
    }
}

/// Turn `t` of the mixed document: a heading and paragraph, a list, a code
/// block, a quote and a rule.
pub open spec fn mixed_turn(t: int) -> Seq<char> {
    "# Turn "@ + dec(t)
        + "\n\nThis response contains **formatted prose**, `inline code`, and a [link](https://example.com/"@
        + dec(t)
        + "). It is deliberately deterministic so repeated profiles are comparable.\n\n"@
        + mixed_items(t, 8) + "\n```rust\nfn profile_fixture() {\n"@ + mixed_code(t, 6)
        + "}\n```\n\n> A short blockquote closes this synthetic turn.\n\n---\n\n"@
}

/// The first `n` turns of the mixed document.
pub open spec fn mixed_turns(n: int) -> Seq<char>
    decreases n,
{
    if n <= 0 {
        Seq::empty()
    } else {
        mixed_turns(n - 1) + mixed_turn(n - 1)
    }
}

/// Sixty turns that mix prose, lists, code, quotes and rules.
pub fn mixed_markdown() -> (r: String)
    ensures
        r@ == mixed_turns(60),
{
    let mut markdown = String::new();
    let mut turn: u64 = 0;
    while turn < 60
        invariant
            0 <= turn <= 60,
            markdown@ == mixed_turns(turn as int),
        decreases 60 - turn,
    {
        let ghost before = markdown@;
        markdown.append("# Turn ");
        push_decimal(&mut markdown, turn);
        markdown.append(
            "\n\nThis response contains **formatted prose**, `inline code`, and a [link](https://example.com/",
        );
        push_decimal(&mut markdown, turn);
        markdown.append(
            "). It is deliberately deterministic so repeated profiles are comparable.\n\n",
        );
        let ghost intro = markdown@;
        let mut item: u64 = 0;
        while item < 8
            invariant
                0 <= item <= 8,
                0 <= turn < 60,
                markdown@ == intro + mixed_items(turn as int, item as int),
            decreases 8 - item,
        {
            markdown.append("- Turn ");
            push_decimal(&mut markdown, turn);
            markdown.append(", item ");
            push_decimal(&mut markdown, item);
            markdown.append(": a moderately long list row that wraps in a normal chat window.\n");
            item = item + 1;
        }
        markdown.append("\n```rust\nfn profile_fixture() {\n");
        let ghost code_start = markdown@;
        let mut line: u64 = 0;
        while line < 6
            invariant
                0 <= line <= 6,
                0 <= turn < 60,
                markdown@ == code_start + mixed_code(turn as int, line as int),
            decreases 6 - line,
        {
            markdown.append("    let line_");
            push_decimal(&mut markdown, line);
            markdown.append(" = ");
            push_decimal(&mut markdown, turn);
            markdown.append(" + ");
            push_decimal(&mut markdown, line);
            markdown.append(";\n");
            line = line + 1;
        }
        markdown.append("}\n```\n\n> A short blockquote closes this synthetic turn.\n\n---\n\n");
        assert(markdown@ =~= before + mixed_turn(turn as int));
        turn = turn + 1;
    }
    markdown
}

/// Turn `turn` of the transcript document: user and assistant blocks, a
/// reply with a list, a tools block and a closing paragraph.
pub open spec fn transcript_turn_spec(turn: int) -> Seq<char> {
    "<"@ + PROFILE_BLOCK_TAG@ + " kind=\"user\" turn=\""@ + dec(turn) + "\" />\n\n<"@
        + PROFILE_BLOCK_TAG@ + " kind=\"assistant\" turn=\""@ + dec(turn)
        + "\" />\n\nI inspected the rendering path for turn **"@ + dec(turn)
        + "**. This response mixes prose, `inline code`, and enough words to wrap like a normal Codex conversation.\n\n- The first finding describes layout work for turn "@
        + dec(turn)
        + ".\n- The second finding describes paint work and selection state.\n\n<"@
        + PROFILE_BLOCK_TAG@ + " kind=\"tools\" turn=\""@ + dec(turn)
        + "\" />\n\nThe tool output is complete, and this closing paragraph keeps Markdown adjacent to the custom blocks.\n\n"@
}

/// Turn `turn` of the transcript document.
pub fn transcript_turn(turn: usize) -> (r: String)
    ensures
        r@ == transcript_turn_spec(turn as int),
{
    let t = turn as u64;
    let mut s = String::from_str("<");
    s.append(PROFILE_BLOCK_TAG);
    s.append(" kind=\"user\" turn=\"");
    push_decimal(&mut s, t);
    s.append("\" />\n\n<");
    s.append(PROFILE_BLOCK_TAG);
    s.append(" kind=\"assistant\" turn=\"");
    push_decimal(&mut s, t);
    s.append("\" />\n\nI inspected the rendering path for turn **");
    push_decimal(&mut s, t);
    s.append(
        "**. This response mixes prose, `inline code`, and enough words to wrap like a normal Codex conversation.\n\n- The first finding describes layout work for turn ",
    );
    push_decimal(&mut s, t);
    s.append(".\n- The second finding describes paint work and selection state.\n\n<");
    s.append(PROFILE_BLOCK_TAG);
    s.append(" kind=\"tools\" turn=\"");
    push_decimal(&mut s, t);
    s.append(
        "\" />\n\nThe tool output is complete, and this closing paragraph keeps Markdown adjacent to the custom blocks.\n\n",
    );
    s
}

/// The first `n` turns of the transcript document.
pub open spec fn transcript_turns(n: int) -> Seq<char>
    decreases n,
{
    if n <= 0 {
        Seq::empty()
    } else {
        transcript_turns(n - 1) + transcript_turn_spec(n - 1)
    }
}

/// Eighty transcript turns.
pub fn transcript_markdown() -> (r: String)
    ensures
        r@ == transcript_turns(80),
{
    let mut markdown = String::new();
    let mut turn: usize = 0;
    while turn < 80
        invariant
            0 <= turn <= 80,
            markdown@ == transcript_turns(turn as int),
        decreases 80 - turn,
    {
        let t = transcript_turn(turn);
        markdown.append(t.as_str());
        turn = turn + 1;
    }
    markdown
}

/// The short document.
pub open spec fn short_markdown() -> Seq<char> {
    "# Short document\n\nA small **Markdown** paragraph.\n\n- one\n- two\n"@
}

/// The document of a scenario.
pub open spec fn prepared_markdown_spec(scenario: Scenario) -> Seq<char> {
    match scenario {
        Scenario::Short => short_markdown(),
        Scenario::ManyBlocks => independent_blocks(800),
        Scenario::LongList => "# One top-level list block\n\n"@ + list_items(600),
        Scenario::LongCode => "# One top-level code block\n\n```rust\n"@ + code_lines(800)
            + "```\n"@,
        Scenario::Mixed => mixed_turns(60),
        Scenario::Transcript | Scenario::TranscriptStreaming => transcript_turns(80),
    }
}

/// The document of a scenario.
pub fn prepared_markdown(scenario: Scenario) -> (r: String)
    ensures
        r@ == prepared_markdown_spec(scenario),
{
    match scenario {
        Scenario::Short => String::from_str(
            "# Short document\n\nA small **Markdown** paragraph.\n\n- one\n- two\n",
        ),
        Scenario::ManyBlocks => many_blocks_markdown(),
        Scenario::LongList => long_list_markdown(),
        Scenario::LongCode => long_code_markdown(),
        Scenario::Mixed => mixed_markdown(),
        Scenario::Transcript => transcript_markdown(),
        Scenario::TranscriptStreaming => transcript_markdown(),
    }
}

/// The value of the attribute `name` in a block of the profile transcript.
pub fn html_attr(value: &str, name: &str) -> (r: Option<String>)
    ensures
        crate::transcript::opt_view(r) == crate::transcript::html_attr_spec(value@, name@),
{
    crate::transcript::html_attr(value, name)
}

/// A block of the profile transcript: what it shows and for which turn.
pub struct ProfileBlock {
    pub kind: String,
    pub turn: usize,
}

/// What the profile transcript reads of a raw HTML node: after trimming, a
/// `PROFILE_BLOCK_TAG` tag followed by a space, with a `kind` attribute and a
/// `turn` attribute that reads as a `usize`; `None` otherwise.
pub open spec fn profile_block_spec(raw: Seq<char>) -> Option<(Seq<char>, nat)> {
    let source = trim_spec(raw);
    if !starts_with_spec(source, "<"@ + PROFILE_BLOCK_TAG@ + " "@) {
        None
    } else {
        match (html_attr_spec(source, "kind"@), html_attr_spec(source, "turn"@)) {
            (Some(kind), Some(turn)) => match parse_u64_spec(turn) {
                Some(n) => if n <= usize::MAX {
                    Some((kind, n as nat))
                } else {
                    None
                },
                None => None,
            },
            _ => None,
        }
    }
}

/// Reads a block of the profile transcript from a raw HTML node.
pub fn profile_block(raw: &str) -> (r: Option<ProfileBlock>)
    ensures
        match r {
            Some(b) => profile_block_spec(raw@) == Some((b.kind@, b.turn as nat)),
            None => profile_block_spec(raw@) is None,
        },
{
    let source = trim(raw);
    let mut prefix = String::from_str("<");
    prefix.append(PROFILE_BLOCK_TAG);
    prefix.append(" ");
    let chars = chars_of(source.as_str());
    let prefix_chars = chars_of(prefix.as_str());
    if !match_at(&chars, &prefix_chars, 0) {
        return None;
    }
    let kind = match html_attr(source.as_str(), "kind") {
        Some(kind) => kind,
        None => {
            return None;
        },
    };
    let turn_text = match html_attr(source.as_str(), "turn") {
        Some(turn) => turn,
        None => {
            return None;
        },
    };
    let turn = match parse_u64(turn_text.as_str()) {
        Some(n) => n,
        None => {
            return None;
        },
    };
    if turn > usize::MAX as u64 {
        return None;
    }
    Some(ProfileBlock { kind, turn: turn as usize })
}

} // verus!
