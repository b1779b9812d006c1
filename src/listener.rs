//! Listener rules: event-name patterns paired with prepared commands, read
//! from the command line as consecutive pattern/command pairs.

use vstd::prelude::*;

use crate::command::{prepare_command, prepared_spec, CommandModel, InvalidCommandSpec, PreparedCommand};

verus! {

#[verifier::external_type_specification]
#[verifier::external_body]
pub struct ExRegex(regex::Regex);

#[verifier::external_type_specification]
#[verifier::external_body]
pub struct ExRegexError(regex::Error);

/// Whether a pattern compiles as a regular expression.
pub uninterp spec fn pattern_valid(pattern: Seq<char>) -> bool;

/// Whether the regular expression `pattern` matches somewhere in `text`.
pub uninterp spec fn pattern_matches(pattern: Seq<char>, text: Seq<char>) -> bool;

/// Relies on `regex::Regex::new`: it compiles the pattern or returns its
/// error, and which of the two depends on the pattern alone.
#[verifier::external_body]
fn compile_regex(pattern: &str) -> (r: Result<regex::Regex, regex::Error>)
    ensures
        r is Ok <==> pattern_valid(pattern@),
{
    regex::Regex::new(pattern)
}

/// A compiled pattern together with the text it was compiled from.
pub struct Matcher {
    source: String,
    compiled: regex::Regex,
}

impl Matcher {
    /// The text of the pattern.
    pub closed spec fn pattern(&self) -> Seq<char> {
        self.source@
    }

    /// Compiles `pattern`, or returns the compiler's error.
    pub fn new(pattern: &str) -> (r: Result<Matcher, regex::Error>)
        ensures
            r is Ok <==> pattern_valid(pattern@),
            r is Ok ==> r->Ok_0.pattern() == pattern@,
    {
        match compile_regex(pattern) {
            Ok(compiled) => Ok(Matcher { source: pattern.to_owned(), compiled }),
            Err(e) => Err(e),
        }
    }

    /// Relies on `regex::Regex::is_match`: whether the pattern matches
    /// anywhere in `text`. A matcher is only ever built from the text it
    /// holds, so the compiled pattern is that text's.
    #[verifier::external_body]
    fn is_match(&self, text: &str) -> (r: bool)
        ensures
            r == pattern_matches(self.pattern(), text@),
    {
        self.compiled.is_match(text)
    }
}

/// A pattern bound to the command that runs when an event name matches it.
pub struct Listener {
    matcher: Matcher,
    command: PreparedCommand,
}

impl Listener {
    /// The text of the listener's pattern.
    pub closed spec fn pattern(&self) -> Seq<char> {
        self.matcher.pattern()
    }

    /// What the listener's command stands for.
    pub closed spec fn command_spec(&self) -> CommandModel {
        self.command@
    }

    pub fn command(&self) -> (r: &PreparedCommand)
        ensures
            r@ == self.command_spec(),
    {
        &self.command
    }

    /// Whether this listener's pattern matches the event name.
    pub fn matches(&self, name: &str) -> (r: bool)
        ensures
            r == pattern_matches(self.pattern(), name@),
    {
        self.matcher.is_match(name)
    }
}

/// Why the command-line arguments do not describe a list of listeners.
pub enum ArgError {
    /// Fewer than two arguments.
    Usage,
    /// An odd number of arguments.
    OddArguments,
    /// A pattern that does not compile.
    RegexCompile { pattern: String, error: regex::Error },
    /// A command string that cannot be prepared.
    InvalidCommand(InvalidCommandSpec),
}

/// The pair at position `k` (pattern `args[2k]`, command `args[2k+1]`) is
/// usable.
pub open spec fn pair_ok(args: Seq<Seq<char>>, k: int) -> bool {
    &&& pattern_valid(args[2 * k])
    &&& prepared_spec(args[2 * k + 1]) is Some
}

/// Every pair before position `k` is usable.
pub open spec fn pairs_ok_before(args: Seq<Seq<char>>, k: int) -> bool {
    forall|j: int| 0 <= j < k ==> #[trigger] pair_ok(args, j)
}

/// The characters of each string, in order.
pub open spec fn strings_view(v: Seq<String>) -> Seq<Seq<char>> {
    v.map_values(|a: String| a@)
}

/// Reads listeners from the command-line arguments (program name left
/// out): consecutive pattern/command pairs, one listener per pair, in the
/// order given. The first pair that cannot be used decides the error.
pub fn parse_args(args: &Vec<String>) -> (r: Result<Vec<Listener>, ArgError>)
    ensures
        ({
            let a = strings_view(args@);
            let n = a.len() as int;
            &&& (r matches Err(ArgError::Usage) <==> n < 2)
            &&& (r matches Err(ArgError::OddArguments) <==> n >= 2 && n % 2 == 1)
            &&& (r is Ok <==> n >= 2 && n % 2 == 0 && pairs_ok_before(a, n / 2))
            &&& (r matches Ok(ls) ==> {
                &&& ls@.len() == n / 2
                &&& forall|k: int|
                    0 <= k < n / 2 ==> {
                        &&& (#[trigger] ls@[k]).pattern() == a[2 * k]
                        &&& prepared_spec(a[2 * k + 1]) == Some(ls@[k].command_spec())
                    }
            })
            &&& (r matches Err(ArgError::RegexCompile { pattern, error }) ==> exists|k: int|
                0 <= k < n / 2 && pairs_ok_before(a, k) && !pattern_valid(#[trigger] a[2 * k])
                    && pattern@ == a[2 * k])
            &&& (r matches Err(ArgError::InvalidCommand(e)) ==> exists|k: int|
                0 <= k < n / 2 && pairs_ok_before(a, k) && pattern_valid(#[trigger] a[2 * k])
                    && prepared_spec(a[2 * k + 1]) is None && e.command@ == a[2 * k + 1])
        }),
{
    let ghost a = strings_view(args@);
    let n = args.len();
    if n < 2 {
        return Err(ArgError::Usage);
    }
    if n % 2 != 0 {
        return Err(ArgError::OddArguments);
    }
    let mut listeners: Vec<Listener> = Vec::new();
    let mut k: usize = 0;
    while k < n / 2
        invariant
            n == args@.len() == a.len(),
            a == strings_view(args@),
            n >= 2,
            n % 2 == 0,
            k <= n / 2,
            listeners@.len() == k,
            pairs_ok_before(a, k as int),
            forall|j: int|
                0 <= j < k ==> {
                    &&& (#[trigger] listeners@[j]).pattern() == a[2 * j]
                    &&& prepared_spec(a[2 * j + 1]) == Some(listeners@[j].command_spec())
                },
        decreases n / 2 - k,
    {
        let pattern = &args[2 * k];
        assert(a[2 * k] == args@[2 * k as int]@);
        assert(a[2 * k + 1] == args@[2 * k + 1]@);
        let matcher = match Matcher::new(pattern.as_str()) {
            Ok(m) => m,
            Err(error) => {
                proof {
                    assert(!pair_ok(a, k as int));
                }
                return Err(ArgError::RegexCompile { pattern: pattern.clone(), error });
            },
        };
        let command = match prepare_command(args[2 * k + 1].as_str()) {
            Ok(c) => c,
            Err(e) => {
                proof {
                    assert(!pair_ok(a, k as int));
                    assert(pattern_valid(a[2 * k]));
                }
                return Err(ArgError::InvalidCommand(e));
            },
        };
        listeners.push(Listener { matcher, command });
        assert(pair_ok(a, k as int));
        assert(pairs_ok_before(a, k + 1)) by {
            assert forall|j: int| 0 <= j < k + 1 implies #[trigger] pair_ok(a, j) by {
                if j < k {
                    assert(pair_ok(a, j));
                }
            }
        }
        k = k + 1;
    }
    Ok(listeners)
}

} // verus!
