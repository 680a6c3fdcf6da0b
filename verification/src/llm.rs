//! The local LLM capability used by the planning front end.
//!
//! Running the actual model is outside work (a subprocess); the library
//! holds the capability interface, the disabled backend, and the exact
//! interpretation of what the CLI run produced — including the connection
//! hint on a recognizable failure.

use vstd::prelude::*;
use crate::chunk::is_space_char;
use crate::strutil::{ascii_lower, contains_seq, contains_sub, lower_chars};

verus! {

/// A text-generation capability.
pub trait Llm {
    /// Produces a completion for the prompt, or a human-readable error.
    fn generate(&self, prompt: String) -> (r: Result<String, String>);
}

/// The disabled backend: always fails with an actionable message.
pub struct NoopLlm;

impl Llm for NoopLlm {
    fn generate(&self, prompt: String) -> (r: Result<String, String>)
        ensures
            r.is_err(),
    {
        let _ = prompt;
        Err(
            "Local LLM is not configured. Set SILO_LLM_BACKEND=ollama and SILO_LLM_MODEL (and optionally SILO_OLLAMA_PATH)".to_owned(),
        )
    }
}

/// A local model run through the `ollama` command-line tool. The library
/// holds its configuration and the interpretation of a finished run; the
/// surrounding process spawns the subprocess.
pub struct OllamaCliLlm {
    /// Path to the `ollama` binary.
    pub ollama_path: String,
    /// Model name handed to `ollama run`.
    pub model: String,
}

/// `s` without its leading whitespace.
pub open spec fn trim_front(s: Seq<char>) -> Seq<char>
    decreases s.len(),
{
    if s.len() > 0 && is_space_char(s[0]) {
        trim_front(s.skip(1))
    } else {
        s
    }
}

/// `s` without its trailing whitespace.
pub open spec fn trim_back(s: Seq<char>) -> Seq<char>
    decreases s.len(),
{
    if s.len() > 0 && is_space_char(s.last()) {
        trim_back(s.drop_last())
    } else {
        s
    }
}

/// `s` without leading and trailing whitespace.
pub open spec fn spec_trim(s: Seq<char>) -> Seq<char> {
    trim_back(trim_front(s))
}

proof fn lemma_trim_front_at(s: Seq<char>, a: int)
    requires
        0 <= a <= s.len(),
        forall |j: int| 0 <= j < a ==> is_space_char(s[j]),
        a < s.len() ==> !is_space_char(s[a]),
    ensures
        trim_front(s) == s.skip(a),
    decreases a,
{
    if a == 0 {
        assert(s.skip(0) =~= s);
    } else {
        assert(is_space_char(s[0]));
        lemma_trim_front_at(s.skip(1), a - 1);
        assert(s.skip(1).skip(a - 1) =~= s.skip(a));
    }
}

proof fn lemma_trim_back_at(s: Seq<char>, b: int)
    requires
        0 <= b <= s.len(),
        forall |j: int| b <= j < s.len() ==> is_space_char(s[j]),
        b > 0 ==> !is_space_char(s[b - 1]),
    ensures
        trim_back(s) == s.take(b),
    decreases s.len(),
{
    if b == s.len() {
        if s.len() > 0 {
            assert(!is_space_char(s.last()));
        }
        assert(s.take(b) =~= s);
    } else {
        assert(is_space_char(s.last()));
        lemma_trim_back_at(s.drop_last(), b);
        assert(s.drop_last().take(b) =~= s.take(b));
    }
}

/// Strips leading and trailing whitespace.
pub fn trim_spaces(s: &str) -> (r: String)
    ensures
        r@ == spec_trim(s@),
{
    let n = s.unicode_len();
    let mut a: usize = 0;
    while a < n && crate::chunk::is_space(s.get_char(a))
        invariant
            n == s@.len(),
            a <= n,
            forall |j: int| 0 <= j < a ==> is_space_char(s@[j]),
        decreases n - a,
    {
        a = a + 1;
    }
    proof {
        lemma_trim_front_at(s@, a as int);
    }
    let mut b: usize = n;
    while b > a && crate::chunk::is_space(s.get_char(b - 1))
        invariant
            n == s@.len(),
            a <= b <= n,
            forall |j: int| 0 <= j < a ==> is_space_char(s@[j]),
            forall |j: int| b <= j < n ==> is_space_char(s@[j]),
        decreases b,
    {
        b = b - 1;
    }
    proof {
        let f = s@.skip(a as int);
        assert(forall |j: int| b - a <= j < f.len() ==> is_space_char(#[trigger] f[j]));
        if b > a {
            assert(f[b - a - 1] == s@[b - 1]);
            assert(!is_space_char(f[(b - a) - 1]));
        }
        lemma_trim_back_at(f, b - a);
        assert(f.take(b - a) =~= s@.subrange(a as int, b as int));
    }
    s.substring_char(a, b).to_owned()
}

/// The exact failure text of an `ollama` run that did not succeed: the
/// trimmed stderr (or the exit status when stderr is empty), plus a hint
/// to start the daemon when the error looks like a connection failure.
pub open spec fn spec_ollama_error(status: Seq<char>, stderr: Seq<char>) -> Seq<char> {
    let st = spec_trim(stderr);
    let hint = if contains_seq(lower_chars(st), "could not connect"@) {
        " (hint: start the Ollama daemon: `ollama serve` or open the Ollama app)"@
    } else {
        ""@
    };
    if st.len() == 0 {
        "ollama exited with status "@ + status + hint
    } else {
        "ollama error: "@ + st + hint
    }
}

impl OllamaCliLlm {
    /// Interprets a finished `ollama run` invocation: on success the
    /// trimmed standard output is the completion; on failure the error
    /// describes the exit, with a hint when the daemon looks unreachable.
    pub fn interpret_output(&self, success: bool, status_text: &str, stdout: &str, stderr: &str)
        -> (r: Result<String, String>)
        ensures
            success ==> (r matches Ok(out) && out@ == spec_trim(stdout@)),
            !success ==> (r matches Err(e) && e@ == spec_ollama_error(status_text@, stderr@)),
    {
        if success {
            return Ok(trim_spaces(stdout));
        }
        let st = trim_spaces(stderr);
        let lowered = ascii_lower(st.as_str());
        let hint = if contains_sub(lowered.as_str(), "could not connect") {
            " (hint: start the Ollama daemon: `ollama serve` or open the Ollama app)"
        } else {
            ""
        };
        if st.as_str().unicode_len() == 0 {
            let mut m = "ollama exited with status ".to_owned();
            m.append(status_text);
            m.append(hint);
            proof {
                reveal_strlit("");
            }
            Err(m)
        } else {
            let mut m = "ollama error: ".to_owned();
            m.append(st.as_str());
            m.append(hint);
            proof {
                reveal_strlit("");
            }
            Err(m)
        }
    }
}

} // verus!
