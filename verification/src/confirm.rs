//! Confirmation answers.
//!
//! Each pull copy is gated by a blocking yes/no prompt. The prompt loop
//! itself lives outside the engine; this module decides what one line of
//! input means: yes, no, the default for an empty line, or nothing
//! recognizable, in which case the caller re-prompts.

use vstd::prelude::*;
use vstd::string::*;
use crate::paths::str_eq;

verus! {

/// ASCII lowering of the letters a confirmation answer is made of.
pub open spec fn lower_char(c: char) -> char {
    if c == 'Y' {
        'y'
    } else if c == 'E' {
        'e'
    } else if c == 'S' {
        's'
    } else if c == 'N' {
        'n'
    } else if c == 'O' {
        'o'
    } else {
        c
    }
}

/// The answer lowered letter by letter.
pub open spec fn lower_answer(s: Seq<char>) -> Seq<char> {
    s.map_values(|c: char| lower_char(c))
}

/// What one line of input means: empty accepts the default, `y`/`yes`
/// and `n`/`no` are matched case-insensitively, anything else is
/// unrecognized.
pub open spec fn confirm_spec(s: Seq<char>, default: bool) -> Option<bool> {
    if s.len() == 0 {
        Some(default)
    } else if lower_answer(s) == "y"@ || lower_answer(s) == "yes"@ {
        Some(true)
    } else if lower_answer(s) == "n"@ || lower_answer(s) == "no"@ {
        Some(false)
    } else {
        None
    }
}

/// Parses one line of a confirmation prompt. `None` asks the caller to
/// re-prompt.
pub fn parse_confirm(answer: &str, default: bool) -> (r: Option<bool>)
    ensures
        r == confirm_spec(answer@, default),
{
    let n = answer.unicode_len();
    if n == 0 {
        return Some(default);
    }
    let mut lowered = String::new();
    let mut i: usize = 0;
    while i < n
        invariant
            n == answer@.len(),
            i <= n,
            lowered@ == lower_answer(answer@.take(i as int)),
        decreases n - i,
    {
        let c = answer.get_char(i);
        if c == 'Y' {
            lowered.append("y");
            proof {
                reveal_strlit("y");
            }
        } else if c == 'E' {
            lowered.append("e");
            proof {
                reveal_strlit("e");
            }
        } else if c == 'S' {
            lowered.append("s");
            proof {
                reveal_strlit("s");
            }
        } else if c == 'N' {
            lowered.append("n");
            proof {
                reveal_strlit("n");
            }
        } else if c == 'O' {
            lowered.append("o");
            proof {
                reveal_strlit("o");
            }
        } else {
            let piece = answer.substring_char(i, i + 1);
            lowered.append(piece);
            proof {
                assert(answer@.subrange(i as int, i + 1) =~= seq![answer@[i as int]]);
            }
        }
        proof {
            assert(answer@.take(i + 1) =~= answer@.take(i as int).push(answer@[i as int]));
            assert(lower_answer(answer@.take(i + 1)) =~= lower_answer(answer@.take(i as int)).push(
                lower_char(answer@[i as int]),
            ));
            assert(lowered@ =~= lower_answer(answer@.take(i + 1)));
        }
        i += 1;
    }
    proof {
        assert(answer@.take(n as int) =~= answer@);
    }
    let low = lowered.as_str();
    if str_eq(low, "y") || str_eq(low, "yes") {
        Some(true)
    } else if str_eq(low, "n") || str_eq(low, "no") {
        Some(false)
    } else {
        None
    }
}

} // verus!
