//! What a widget shows for a finished command: its standard output, or its
//! errors, cleaned of carriage returns and trailing white space.
use vstd::prelude::*;

use crate::text::{chars_of, push_char, trim_end, trimmed_end};

verus! {

/// The most bytes of a command's output that a widget keeps.
pub const MAX_WIDGET_OUTPUT_BYTES: usize = 65536;

/// Rust's `String::from_utf8_lossy` of `bytes`: the text, with each invalid
/// sequence replaced by U+FFFD.
pub uninterp spec fn utf8_lossy(bytes: Seq<u8>) -> Seq<char>;

/// Rust's `String::from_utf8_lossy`. Its replacement of invalid sequences
/// is named, not stated; its documentation gives that valid UTF-8 is
/// decoded as it is.
#[verifier::external_body]
fn from_utf8_lossy(bytes: &Vec<u8>) -> (s: String)
    ensures
        s@ == utf8_lossy(bytes@),
        vstd::utf8::valid_utf8(bytes@) ==> s@ == vstd::utf8::decode_utf8(bytes@),
{
    String::from_utf8_lossy(bytes.as_slice()).into_owned()
}

/// `s` without the character `c`.
pub open spec fn without_char(s: Seq<char>, c: char) -> Seq<char>
    decreases s.len(),
{
    if s.len() == 0 {
        s
    } else if s.last() == c {
        without_char(s.drop_last(), c)
    } else {
        without_char(s.drop_last(), c).push(s.last())
    }
}

/// Command output without carriage returns and trailing white space.
pub open spec fn normalized_output(s: Seq<char>) -> Seq<char> {
    trimmed_end(without_char(s, '\r'))
}

/// Takes carriage returns and trailing white space out of command output.
pub fn normalize_output(output: &str) -> (s: String)
    ensures
        s@ == normalized_output(output@),
{
    let cs = chars_of(output);
    let mut kept = String::new();
    let mut i: usize = 0;
    while i < cs.len()
        invariant
            cs@ == output@,
            i <= cs@.len(),
            kept@ == without_char(cs@.take(i as int), '\r'),
        decreases cs@.len() - i,
    {
        assert(cs@.take(i + 1).drop_last() == cs@.take(i as int));
        if cs[i] != '\r' {
            push_char(&mut kept, cs[i]);
        }
        i += 1;
    }
    assert(cs@.take(i as int) == cs@);
    trim_end(kept.as_str())
}

/// What a widget shows for a finished command: on success its output, or
/// `[ok]` when there is none; on failure `[error]` and its errors, or its
/// output when it wrote no errors.
pub open spec fn spec_format_output(success: bool, stdout: Seq<u8>, stderr: Seq<u8>) -> Seq<char> {
    let out = normalized_output(utf8_lossy(stdout));
    let err = normalized_output(utf8_lossy(stderr));
    if success {
        if out.len() == 0 {
            "[ok]"@
        } else {
            out
        }
    } else if err.len() == 0 {
        "[error] "@ + out
    } else {
        "[error] "@ + err
    }
}

/// What a widget shows for a finished command, from whether it succeeded
/// and the bytes it wrote to standard output and standard error.
pub fn format_output(success: bool, stdout: Vec<u8>, stderr: Vec<u8>) -> (s: String)
    ensures
        s@ == spec_format_output(success, stdout@, stderr@),
{
    let out = normalize_output(from_utf8_lossy(&stdout).as_str());
    let err = normalize_output(from_utf8_lossy(&stderr).as_str());
    if success {
        if out.as_str().is_empty() {
            String::from_str("[ok]")
        } else {
            out
        }
    } else if err.as_str().is_empty() {
        let mut m = String::from_str("[error] ");
        m.append(out.as_str());
        m
    } else {
        let mut m = String::from_str("[error] ");
        m.append(err.as_str());
        m
    }
}

/// What a finished command shows depends on its two outputs as follows.
/// A command that fails and wrote errors shows `[error] ` and its errors,
/// whatever it wrote to standard output; one that fails without errors
/// shows `[error] ` and its standard output; one that succeeds shows its
/// standard output, or `[ok]` when there is none, whatever errors it wrote.
pub proof fn errors_win_over_output_when_a_command_fails(
    stdout: Seq<u8>,
    other_stdout: Seq<u8>,
    stderr: Seq<u8>,
    other_stderr: Seq<u8>,
)
    ensures
        ({
            let out = normalized_output(utf8_lossy(stdout));
            let err = normalized_output(utf8_lossy(stderr));
            &&& err.len() > 0 ==> spec_format_output(false, stdout, stderr) == "[error] "@ + err
            &&& err.len() > 0 ==> spec_format_output(false, stdout, stderr) == spec_format_output(
                false,
                other_stdout,
                stderr,
            )
            &&& err.len() == 0 ==> spec_format_output(false, stdout, stderr) == "[error] "@ + out
            &&& spec_format_output(true, stdout, stderr) == spec_format_output(
                true,
                stdout,
                other_stderr,
            )
            &&& out.len() > 0 ==> spec_format_output(true, stdout, stderr) == out
            &&& out.len() == 0 ==> spec_format_output(true, stdout, stderr) == "[ok]"@
        }),
{
}

/// Appends what was read, `chunk[..read]`, to `output`, keeping at most
/// `MAX_WIDGET_OUTPUT_BYTES` bytes; what does not fit is dropped.
pub fn append_capped(output: &mut Vec<u8>, chunk: &[u8], read: usize)
    requires
        read <= chunk@.len(),
    ensures
        ({
            let room = if old(output)@.len() < MAX_WIDGET_OUTPUT_BYTES {
                MAX_WIDGET_OUTPUT_BYTES - old(output)@.len()
            } else {
                0
            };
            let taken = if read < room {
                read as int
            } else {
                room as int
            };
            final(output)@ == old(output)@ + chunk@.subrange(0, taken)
        }),
        old(output)@.len() <= MAX_WIDGET_OUTPUT_BYTES ==> final(output)@.len()
            <= MAX_WIDGET_OUTPUT_BYTES,
{
    let remaining = MAX_WIDGET_OUTPUT_BYTES.saturating_sub(output.len());
    let take = if read < remaining {
        read
    } else {
        remaining
    };
    let ghost start = output@;
    let mut i: usize = 0;
    while i < take
        invariant
            take <= read <= chunk@.len(),
            i <= take,
            output@ == start + chunk@.subrange(0, i as int),
        decreases take - i,
    {
        output.push(chunk[i]);
        assert(chunk@.subrange(0, i + 1) == chunk@.subrange(0, i as int).push(chunk@[i as int]));
        i += 1;
    }
}

} // verus!
