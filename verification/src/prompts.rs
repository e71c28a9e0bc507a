//! The assistant's system prompt: a fixed template with the host's facts
//! substituted for its placeholders.  Reading those facts off the host is
//! the caller's work; the substitution itself is verified.

use vstd::prelude::*;
use vstd::string::{StrSliceExecFns, StringExecFns};
use crate::text::{contains_at, occurs_at};

verus! {

/// `s` with every occurrence of `pat` replaced by `rep`, scanning left to
/// right without overlap; with an empty pattern, `s` itself.
pub open spec fn spec_replace(s: Seq<char>, pat: Seq<char>, rep: Seq<char>) -> Seq<char>
    decreases s.len(),
{
    if s.len() == 0 || pat.len() == 0 {
        s
    } else if pat.is_prefix_of(s) {
        rep + spec_replace(s.skip(pat.len() as int), pat, rep)
    } else {
        seq![s[0]] + spec_replace(s.drop_first(), pat, rep)
    }
}

/// Replace every occurrence of `pat` in `s` by `rep`.
pub fn str_replace(s: &str, pat: &str, rep: &str) -> (r: String)
    ensures
        r@ == spec_replace(s@, pat@, rep@),
{
    let len = s.unicode_len();
    let pat_len = pat.unicode_len();
    if pat_len == 0 {
        return s.to_owned();
    }
    let mut out = String::new();
    let mut start: usize = 0;
    let mut i: usize = 0;
    proof {
        assert(s@.skip(0) =~= s@);
        assert(out@ + s@.subrange(0, 0) + spec_replace(s@.skip(0), pat@, rep@) =~= spec_replace(
            s@,
            pat@,
            rep@,
        ));
    }
    while i < len
        invariant
            len == s@.len(),
            pat_len == pat@.len(),
            pat_len >= 1,
            start <= i <= len,
            spec_replace(s@, pat@, rep@) == out@ + s@.subrange(start as int, i as int)
                + spec_replace(s@.skip(i as int), pat@, rep@),
        decreases len - i,
    {
        let ghost cur = s@.subrange(start as int, i as int);
        let ghost tail = s@.skip(i as int);
        proof {
            assert(tail.len() > 0);
            assert(tail[0] == s@[i as int]);
            assert(tail.drop_first() =~= s@.skip(i + 1));
        }
        let matched = if pat_len <= len - i {
            contains_at(s, pat, i)
        } else {
            false
        };
        proof {
            if pat@.len() <= len - i {
                assert(pat@.is_prefix_of(tail) == occurs_at(s@, pat@, i as int)) by {
                    assert(tail.subrange(0, pat@.len() as int) =~= s@.subrange(
                        i as int,
                        i + pat@.len(),
                    ));
                    if pat@.is_prefix_of(tail) {
                        assert(occurs_at(s@, pat@, i as int));
                    } else if occurs_at(s@, pat@, i as int) {
                        assert(tail.subrange(0, pat@.len() as int) == pat@);
                    }
                }
            } else {
                assert(pat@.len() > tail.len());
                assert(!pat@.is_prefix_of(tail));
                if occurs_at(s@, pat@, i as int) {
                    assert(i + pat@.len() <= s@.len());
                }
            }
            assert(matched == pat@.is_prefix_of(tail));
        }
        if matched {
            let ghost out0 = out@;
            out.append(s.substring_char(start, i));
            out.append(rep);
            proof {
                let next = spec_replace(s@.skip(i + pat@.len()), pat@, rep@);
                assert(tail.skip(pat@.len() as int) =~= s@.skip(i + pat@.len()));
                assert(spec_replace(tail, pat@, rep@) == rep@ + next);
                assert((out0 + cur) + (rep@ + next) =~= (out@ + s@.subrange(
                    i + pat@.len(),
                    i + pat@.len(),
                )) + next);
            }
            i += pat_len;
            start = i;
        } else {
            proof {
                let next = spec_replace(s@.skip(i + 1), pat@, rep@);
                assert(spec_replace(tail, pat@, rep@) == seq![s@[i as int]] + next);
                assert((out@ + cur) + (seq![s@[i as int]] + next) =~= (out@ + s@.subrange(
                    start as int,
                    i + 1,
                )) + next);
            }
            i += 1;
        }
    }
    out.append(s.substring_char(start, len));
    proof {
        assert(s@.skip(len as int) =~= Seq::<char>::empty());
        assert(spec_replace(s@.skip(len as int), pat@, rep@) == Seq::<char>::empty());
        assert(out@ =~= spec_replace(s@, pat@, rep@));
    }
    out
}

/// The fixed system-prompt template, with placeholders for the host's
/// operating-system type, version, and architecture.
pub fn system_prompt_template() -> (r: &'static str)
    ensures
        r@ == spec_system_prompt_template(),
{
    SYSTEM_PROMPT_TEMPLATE
}

/// The template's characters.
pub open spec fn spec_system_prompt_template() -> Seq<char> {
    SYSTEM_PROMPT_TEMPLATE@
}

pub const SYSTEM_PROMPT_TEMPLATE: &'static str = r#"
You are an intelligent operating system assistant (OS AI) capable of performing tasks on the user's behalf using PowerShell commands. Your primary function is to understand user requests and prepare to execute them using available system resources.

Guidelines:
1. Provide concise and accurate responses for general queries.
2. For actionable requests, generate a single line of PowerShell code to perform all required actions.
3. The execution field must contain only PowerShell code, with all necessary actions combined into a single line.
4. Do not assume default installation paths for applications. Use PowerShell commands to search for applications when necessary.
5. Verify the existence of applications before attempting to launch them.
6. Set user_confirmation_required to true for operations that modify system settings or access sensitive data. This includes, but is not limited to:
   - Creating, modifying, or deleting environment variables
   - Changing system configurations
   - Installing or uninstalling software
   - Modifying user accounts or permissions
   - Accessing or modifying sensitive user data
7. When user_confirmation_required is true:
   - The response should clearly state that the action requires user confirmation before execution.
   - Use language that indicates the action is prepared but not yet executed, such as "I'm ready to..." or "I've prepared the command to...".
   - Ask the user if they want to proceed with the action.
   - Do not imply or state that the action has already been completed.
8. If a task cannot be completed with PowerShell, explain why and suggest alternatives in the response.
9. Do not invent or assume any information not explicitly provided or directly obtainable through the executed command.
10. For web searches, use general search engines like Google or Bing unless a specific, verified website is needed.
11. Always provide a clear and informative response to the user about the actions prepared and their potential results.
12. If the user request is not a task (e.g., general question), leave the execution field as an empty string.

Always structure your response using the specified AIResponse format.

Operating System Information
- Type: {OS_TYPE}
- Version: {OS_VERSION}
- Architecture: {ARCH}

Remember, as OsaiAI, you are the user's primary interface with their operating system. Strive to be helpful, efficient, and security-conscious in all interactions.
"#;

/// Build the system prompt for a host: substitute the operating-system
/// type, version and architecture into the template.  The three facts are
/// the caller's to read off the host.
pub fn format_system_prompt(os_type: &str, os_version: &str, arch: &str) -> (r: String)
    ensures
        r@ == spec_replace(
            spec_replace(
                spec_replace(spec_system_prompt_template(), "{OS_TYPE}"@, os_type@),
                "{OS_VERSION}"@,
                os_version@,
            ),
            "{ARCH}"@,
            arch@,
        ),
{
    let a = str_replace(system_prompt_template(), "{OS_TYPE}", os_type);
    let b = str_replace(a.as_str(), "{OS_VERSION}", os_version);
    str_replace(b.as_str(), "{ARCH}", arch)
}

} // verus!
