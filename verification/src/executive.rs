//! The driver's decisions: whether a source file is accepted, and what
//! running its lines prints.
//!
//! Nothing here reads a file or prints. The caller looks the path up and
//! hands over what it found; what is to be printed is appended to a list
//! that the caller prints.

use crate::error::LoxError;
use crate::lexis::is_space;
use crate::scanner::space;
use crate::text::{chars_of, decimal_text, push_decimal};
use vstd::prelude::*;
use vstd::string::StringExecFns;

verus! {

/// The largest source file that is accepted, in bytes.
pub const MAX_SOURCE_FILE_SIZE: u64 = 65535;

/// What looking up a path found.
#[derive(Debug)]
pub enum PathStatus {
    /// The path could not be looked up; the system's message says why.
    Unavailable(String),
    /// Something is there: whether it is a regular file, and its size in bytes.
    Found { is_file: bool, len: u64 },
}

/// Whether a line can be run: it begins with `print` or with `var`.
pub open spec fn is_runnable(line: Seq<char>) -> bool {
    "print"@.is_prefix_of(line) || "var"@.is_prefix_of(line)
}

/// The message for a line that cannot be run.
pub open spec fn bad_input_message(line: Seq<char>) -> Seq<char> {
    "Bad input: "@ + line
}

/// The message for a path that is no regular file.
pub open spec fn not_a_file_message(filename: Seq<char>) -> Seq<char> {
    "Path "@ + filename + " is not a file."@
}

/// The message for a file that is too large.
pub open spec fn too_large_message(filename: Seq<char>, len: u64) -> Seq<char> {
    "File "@ + filename + " is too large ("@ + decimal_text(len as nat) + " > "@ + decimal_text(
        MAX_SOURCE_FILE_SIZE as nat,
    ) + ")."@
}

/// Whether a path that was looked up is accepted as a source file, and if
/// not, the message that says why.
pub open spec fn admission(filename: Seq<char>, status: PathStatus) -> Result<(), Seq<char>> {
    match status {
        PathStatus::Unavailable(message) => Err(message@),
        PathStatus::Found { is_file, len } => if !is_file {
            Err(not_a_file_message(filename))
        } else if len > MAX_SOURCE_FILE_SIZE {
            Err(too_large_message(filename, len))
        } else {
            Ok(())
        },
    }
}

/// How many of `lines` run before the first one that cannot be run.
pub open spec fn runnable_prefix(lines: Seq<Seq<char>>) -> nat
    decreases lines.len(),
{
    if lines.len() > 0 && is_runnable(lines[0]) {
        1 + runnable_prefix(lines.drop_first())
    } else {
        0
    }
}

/// The lines, each as a sequence of characters.
pub open spec fn line_views(lines: Seq<String>) -> Seq<Seq<char>> {
    lines.map_values(|line: String| line@)
}

/// What the interactive loop is handed: a line that was read, or the end
/// of the input.
#[derive(Debug)]
pub enum ReplEvent {
    EndOfInput,
    Line(String),
}

/// What the interactive loop is to do next.
#[derive(Debug)]
pub enum ReplAction {
    /// Leave the loop.
    Stop,
    /// Nothing to show: ask for the next line.
    Skip,
    /// Print this text, then ask for the next line.
    Print(String),
    /// Show this error, then ask for the next line.
    Report(LoxError),
}

/// What an action is to the contracts.
pub ghost enum ReplActionView {
    Stop,
    Skip,
    Print(Seq<char>),
    Report(Seq<char>),
}

impl View for ReplAction {
    type V = ReplActionView;

    open spec fn view(&self) -> ReplActionView {
        match self {
            ReplAction::Stop => ReplActionView::Stop,
            ReplAction::Skip => ReplActionView::Skip,
            ReplAction::Print(text) => ReplActionView::Print(text@),
            ReplAction::Report(error) => ReplActionView::Report(error@),
        }
    }
}

/// How many white-space characters `line` begins with.
pub open spec fn leading_spaces(line: Seq<char>) -> nat
    decreases line.len(),
{
    if line.len() > 0 && is_space(line[0]) {
        1 + leading_spaces(line.drop_first())
    } else {
        0
    }
}

/// How many white-space characters `line` ends with.
pub open spec fn trailing_spaces(line: Seq<char>) -> nat
    decreases line.len(),
{
    if line.len() > 0 && is_space(line.last()) {
        1 + trailing_spaces(line.drop_last())
    } else {
        0
    }
}

/// `line` without the white space that it begins and ends with.
pub open spec fn trimmed(line: Seq<char>) -> Seq<char> {
    if leading_spaces(line) >= line.len() {
        Seq::empty()
    } else {
        line.subrange(leading_spaces(line) as int, line.len() - trailing_spaces(line))
    }
}

/// What the interactive loop does with an event: it stops at the end of
/// the input, skips a line that holds only white space, and runs any other
/// line without the white space around it. The error of a line is shown;
/// it does not end the loop.
pub open spec fn repl_action(event: ReplEvent) -> ReplActionView {
    match event {
        ReplEvent::EndOfInput => ReplActionView::Stop,
        ReplEvent::Line(line) => {
            let text = trimmed(line@);
            if text.len() == 0 {
                ReplActionView::Skip
            } else if is_runnable(text) {
                ReplActionView::Print(text)
            } else {
                ReplActionView::Report(bad_input_message(text))
            }
        },
    }
}

/// The leading white space of a line ends inside the line, before a
/// character that is none.
proof fn leading_spaces_is(line: Seq<char>, n: nat)
    requires
        n <= line.len(),
        forall|i: int| 0 <= i < n ==> is_space(#[trigger] line[i]),
        n < line.len() ==> !is_space(line[n as int]),
    ensures
        leading_spaces(line) == n,
    decreases n,
{
    if n > 0 {
        assert forall|i: int| 0 <= i < n - 1 implies is_space(#[trigger] line.drop_first()[i]) by {
            assert(line.drop_first()[i] == line[i + 1]);
        }
        leading_spaces_is(line.drop_first(), (n - 1) as nat);
    }
}

/// The trailing white space of a line starts inside the line, after a
/// character that is none.
proof fn trailing_spaces_is(line: Seq<char>, n: nat)
    requires
        n <= line.len(),
        forall|i: int| line.len() - n <= i < line.len() ==> is_space(#[trigger] line[i]),
        n < line.len() ==> !is_space(line[line.len() - n - 1]),
    ensures
        trailing_spaces(line) == n,
    decreases n,
{
    if n > 0 {
        assert forall|i: int|
            line.drop_last().len() - (n - 1) <= i < line.drop_last().len() implies is_space(
            #[trigger] line.drop_last()[i],
        ) by {
            assert(line.drop_last()[i] == line[i]);
        }
        trailing_spaces_is(line.drop_last(), (n - 1) as nat);
    }
}

/// `line` without the white space that it begins and ends with.
pub fn trim(line: &str) -> (text: String)
    ensures
        text@ == trimmed(line@),
{
    let chars = chars_of(line);
    let mut start: usize = 0;
    while start < chars.len() && space(chars[start])
        invariant
            start <= chars.len(),
            forall|i: int| 0 <= i < start ==> is_space(#[trigger] chars@[i]),
        decreases chars.len() - start,
    {
        start = start + 1;
    }
    proof {
        leading_spaces_is(chars@, start as nat);
    }
    let mut text = String::new();
    if start == chars.len() {
        return text;
    }
    let mut end: usize = chars.len();
    while end > start + 1 && space(chars[end - 1])
        invariant
            start < end <= chars.len(),
            !is_space(chars@[start as int]),
            forall|i: int| end <= i < chars.len() ==> is_space(#[trigger] chars@[i]),
        decreases end,
    {
        end = end - 1;
    }
    proof {
        trailing_spaces_is(chars@, (chars.len() - end) as nat);
    }
    let mut i: usize = start;
    while i < end
        invariant
            start <= i <= end <= chars.len(),
            text@ == chars@.subrange(start as int, i as int),
        decreases end - i,
    {
        text.push(chars[i]);
        i = i + 1;
        assert(text@ =~= chars@.subrange(start as int, i as int));
    }
    text
}

/// Whether `text` begins with `prefix`.
pub fn has_prefix(text: &str, prefix: &str) -> (r: bool)
    ensures
        r == prefix@.is_prefix_of(text@),
{
    let n = prefix.unicode_len();
    if text.unicode_len() < n {
        return false;
    }
    let mut i: usize = 0;
    while i < n
        invariant
            i <= n,
            n == prefix@.len(),
            n <= text@.len(),
            forall|j: int| 0 <= j < i ==> prefix@[j] == text@[j],
        decreases n - i,
    {
        if prefix.get_char(i) != text.get_char(i) {
            return false;
        }
        i = i + 1;
    }
    assert(prefix@ =~= text@.subrange(0, n as int));
    true
}

/// The driver.
pub struct Executor;

impl Executor {
    /// A driver.
    pub fn new() -> (executor: Executor) {
        Executor {  }
    }

    /// Runs one line: a line that begins with `print` or with `var` is
    /// echoed, and the result is what is to be printed. Any other line is
    /// an error.
    pub fn run_line(&self, buffer: &str) -> (r: Result<String, LoxError>)
        ensures
            is_runnable(buffer@) ==> r is Ok && r->Ok_0@ == buffer@,
            !is_runnable(buffer@) ==> r is Err && r->Err_0@ == bad_input_message(buffer@),
    {
        if has_prefix(buffer, "print") || has_prefix(buffer, "var") {
            Ok(String::from_str(buffer))
        } else {
            let mut message = String::from_str("Bad input: ");
            message.append(buffer);
            Err(LoxError::new(message.as_str()))
        }
    }

    /// One turn of the interactive loop: what to do with `event`. The
    /// caller reads the lines and shows what is to be shown.
    pub fn run_repl(&self, event: &ReplEvent) -> (action: ReplAction)
        ensures
            action@ == repl_action(*event),
    {
        match event {
            ReplEvent::EndOfInput => ReplAction::Stop,
            ReplEvent::Line(line) => {
                let text = trim(line.as_str());
                if text.as_str().unicode_len() == 0 {
                    ReplAction::Skip
                } else {
                    match self.run_line(text.as_str()) {
                        Ok(shown) => ReplAction::Print(shown),
                        Err(error) => ReplAction::Report(error),
                    }
                }
            },
        }
    }

    /// Decides whether the path `filename`, looked up with the result
    /// `status`, is accepted as a source file: it must be a regular file of
    /// at most `MAX_SOURCE_FILE_SIZE` bytes.
    pub fn check_file(&self, filename: &str, status: &PathStatus) -> (r: Result<(), LoxError>)
        ensures
            match admission(filename@, *status) {
                Ok(_) => r is Ok,
                Err(message) => r is Err && r->Err_0@ == message,
            },
    {
        match status {
            PathStatus::Unavailable(message) => Err(LoxError::new(message.as_str())),
            PathStatus::Found { is_file, len } => {
                if !*is_file {
                    let mut message = String::from_str("Path ");
                    message.append(filename);
                    message.append(" is not a file.");
                    assert(message@ =~= not_a_file_message(filename@));
                    Err(LoxError::new(message.as_str()))
                } else if *len > MAX_SOURCE_FILE_SIZE {
                    let mut message = String::from_str("File ");
                    message.append(filename);
                    message.append(" is too large (");
                    push_u64(&mut message, *len);
                    message.append(" > ");
                    push_u64(&mut message, MAX_SOURCE_FILE_SIZE);
                    message.append(").");
                    assert(message@ =~= too_large_message(filename@, *len));
                    Err(LoxError::new(message.as_str()))
                } else {
                    Ok(())
                }
            },
        }
    }

    /// Runs the file `filename`, whose lookup gave `status` and which holds
    /// `lines`. A file that is not accepted runs no line. The lines run in
    /// order up to the first error, which is the result; what each line
    /// prints is appended to `printed`.
    pub fn run_file(
        &self,
        filename: &str,
        status: &PathStatus,
        lines: &Vec<String>,
        printed: &mut Vec<String>,
    ) -> (r: Result<(), LoxError>)
        ensures
            match admission(filename@, *status) {
                Err(message) => {
                    &&& r is Err
                    &&& r->Err_0@ == message
                    &&& line_views(final(printed)@) == line_views(old(printed)@)
                },
                Ok(_) => {
                    let ran = runnable_prefix(line_views(lines@));
                    &&& ran <= lines@.len()
                    &&& line_views(final(printed)@) == line_views(old(printed)@) + line_views(
                        lines@,
                    ).subrange(0, ran as int)
                    &&& ran == lines@.len() ==> r is Ok
                    &&& ran < lines@.len() ==> r is Err && r->Err_0@ == bad_input_message(
                        lines@[ran as int]@,
                    )
                },
            },
    {
        match self.check_file(filename, status) {
            Err(error) => {
                return Err(error);
            },
            Ok(_) => {},
        }
        let ghost all = line_views(lines@);
        let ghost before = line_views(printed@);
        let mut i: usize = 0;
        assert(all.subrange(0, 0) =~= Seq::<Seq<char>>::empty());
        assert(all.subrange(0, all.len() as int) =~= all);
        while i < lines.len()
            invariant
                i <= lines.len(),
                admission(filename@, *status) is Ok,
                all == line_views(lines@),
                before == line_views(old(printed)@),
                line_views(printed@) == before + all.subrange(0, i as int),
                runnable_prefix(all) == i + runnable_prefix(all.subrange(i as int, all.len() as int)),
            decreases lines.len() - i,
        {
            let ghost rest = all.subrange(i as int, all.len() as int);
            assert(rest[0] == lines@[i as int]@);
            assert(rest.drop_first() =~= all.subrange(i + 1, all.len() as int));
            match self.run_line(lines[i].as_str()) {
                Err(error) => {
                    return Err(error);
                },
                Ok(text) => {
                    let ghost shown = printed@;
                    printed.push(text);
                    assert(line_views(printed@) =~= line_views(shown).push(text@));
                    assert(all.subrange(0, i + 1) =~= all.subrange(0, i as int).push(all[i as int]));
                },
            }
            i = i + 1;
        }
        assert(all.subrange(lines.len() as int, all.len() as int) =~= Seq::<Seq<char>>::empty());
        Ok(())
    }
}

/// Appends the decimal numeral of `n` to `out`.
fn push_u64(out: &mut String, n: u64)
    ensures
        final(out)@ == old(out)@ + decimal_text(n as nat),
    decreases n,
{
    if n < 10 {
        push_decimal(out, n as usize);
    } else {
        push_u64(out, n / 10);
        push_decimal(out, (n % 10) as usize);
        assert(decimal_text((n % 10) as nat) =~= seq![crate::text::digit_char((n % 10) as nat)]);
        assert(final(out)@ =~= old(out)@ + decimal_text(n as nat));
    }
}

} // verus!
