pub mod cli;
pub mod directory_trainer;

use vstd::prelude::*;

verus! {

/// What the outside regex engine reports for capture group `group` of the
/// leftmost-first match of `pattern` in `text`; none when the pattern does
/// not compile, nothing matches, or the group takes no part in the match.
pub uninterp spec fn regex_capture(pattern: Seq<char>, text: Seq<char>, group: nat) -> Option<Seq<char>>;

/// Relies on `regex::Regex::new`, `Regex::captures` and `Captures::get`:
/// compiles `pattern`, finds its first match in `text`, and returns the text
/// of capture group `group`. The result depends on the three arguments alone.
#[verifier::external_body]
pub(crate) fn capture_group(pattern: &str, text: &str, group: usize) -> (r: Option<String>)
    ensures
        match r {
            Some(s) => regex_capture(pattern@, text@, group as nat) == Some(s@),
            None => regex_capture(pattern@, text@, group as nat) is None,
        },
{
    let re = regex::Regex::new(pattern).ok()?;
    let caps = re.captures(text)?;
    caps.get(group).map(|m| m.as_str().to_string())
}

} // verus!
