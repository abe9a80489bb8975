//! Where the game's log goes, as the `PLEMESHKO_LOG` variable names it.

use vstd::prelude::*;

use crate::strings::str_equal;

verus! {

/// Where the log is written.
#[derive(Debug, PartialEq, Eq)]
pub enum LogTarget {
    Stdout,
    Stderr,
    /// The file of the name.
    File(String),
}

/// The variable names no place the log can go.
#[derive(Debug, PartialEq, Eq, Clone, Copy, Structural)]
pub enum LogTargetError {
    Unparsable,
}

/// The text takes fewer than two bytes in UTF-8: it is empty, or one ASCII
/// character.
pub open spec fn under_two_bytes(text: Seq<char>) -> bool {
    text.len() == 0 || (text.len() == 1 && text[0] < '\u{80}')
}

/// Where the log goes for the variable's text: `stdout` and `stderr` name
/// the streams; text under two bytes long, or starting with `/`, is
/// refused; any other text names the file called by the text without its
/// first character.
pub open spec fn spec_log_target(text: Seq<char>) -> Result<Seq<char>, LogTargetError> {
    if under_two_bytes(text) || text[0] == '/' {
        Err(LogTargetError::Unparsable)
    } else {
        Ok(text.drop_first())
    }
}

/// Where the log goes for the variable's text.
pub fn log_target(target: &str) -> (chosen: Result<LogTarget, LogTargetError>)
    ensures
        target@ == "stdout"@ ==> chosen == Ok::<LogTarget, LogTargetError>(LogTarget::Stdout),
        target@ == "stderr"@ ==> chosen == Ok::<LogTarget, LogTargetError>(LogTarget::Stderr),
        target@ != "stdout"@ && target@ != "stderr"@ ==> match chosen {
            Ok(LogTarget::File(name)) => spec_log_target(target@) == Ok::<
                Seq<char>,
                LogTargetError,
            >(name@),
            Ok(_) => false,
            Err(e) => spec_log_target(target@) == Err::<Seq<char>, LogTargetError>(e),
        },
        target@ != "stdout"@ && target@ != "stderr"@ && target@.len() >= 2 && target@[0] != '/'
            ==> (chosen matches Ok(LogTarget::File(name)) && name@ == target@.drop_first()),
{
    proof {
        reveal_strlit("stdout");
        reveal_strlit("stderr");
        assert("stdout"@[3] != "stderr"@[3]);
    }
    if str_equal(target, "stdout") {
        return Ok(LogTarget::Stdout);
    }
    if str_equal(target, "stderr") {
        return Ok(LogTarget::Stderr);
    }
    let count = target.unicode_len();
    if count == 0 {
        return Err(LogTargetError::Unparsable);
    }
    let first = target.get_char(0);
    if (count == 1 && first < '\u{80}') || first == '/' {
        return Err(LogTargetError::Unparsable);
    }
    let name = target.substring_char(1, count);
    proof {
        assert(name@ =~= target@.drop_first());
    }
    Ok(LogTarget::File(String::from_str(name)))
}

/// Text other than `stdout` and `stderr` that takes at least two bytes in
/// UTF-8 (two characters, or one outside ASCII) and does not start with
/// `/` names the log file: the text without its first character, whatever
/// characters follow. Empty text, one ASCII character, and text starting
/// with `/` are refused.
pub proof fn law_log_target_names_a_file(text: Seq<char>)
    ensures
        text.len() >= 2 && text[0] != '/' ==> spec_log_target(text) == Ok::<
            Seq<char>,
            LogTargetError,
        >(text.drop_first()),
        text.len() == 1 && text[0] >= '\u{80}' && text[0] != '/' ==> spec_log_target(text) == Ok::<
            Seq<char>,
            LogTargetError,
        >(Seq::<char>::empty()),
        text.len() == 0 ==> spec_log_target(text) == Err::<Seq<char>, LogTargetError>(
            LogTargetError::Unparsable,
        ),
        text.len() == 1 && text[0] < '\u{80}' ==> spec_log_target(text) == Err::<
            Seq<char>,
            LogTargetError,
        >(LogTargetError::Unparsable),
        text.len() > 0 && text[0] == '/' ==> spec_log_target(text) == Err::<
            Seq<char>,
            LogTargetError,
        >(LogTargetError::Unparsable),
{
    if text.len() == 1 {
        assert(text.drop_first() =~= Seq::<char>::empty());
    }
}

} // verus!
