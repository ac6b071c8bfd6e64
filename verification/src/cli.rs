//! The console invocation surface: `<command-name> [argument-tokens]`,
//! where each argument token is `key=value` or a bare `flag`, and tokens
//! are separated by `;`. The parser decodes one token string into the
//! Argument Set; a later token for the same key wins.

use vstd::prelude::*;

use crate::args::{opt_view, CommandArgs};

verus! {

/// A parsed process invocation.
pub struct Cli {
    /// Subcommand of the process.
    pub subcommand: Command,
}

/// What the process was asked to do.
pub enum Command {
    /// Start the HTTP server.
    Server,
    /// Start the console interface on one command.
    Console {
        /// Command name to execute.
        console_command: String,
        /// Arguments of the command.
        args: CommandArgs,
    },
}

/// The index of the first occurrence of `c` in `s`, or -1.
pub open spec fn find_char(s: Seq<char>, c: char) -> int
    decreases s.len(),
{
    if s.len() == 0 {
        -1
    } else if s[0] == c {
        0
    } else if find_char(s.skip(1), c) == -1 {
        -1
    } else {
        find_char(s.skip(1), c) + 1
    }
}

pub proof fn lemma_find_char_at(s: Seq<char>, c: char, i: int)
    requires
        0 <= i < s.len(),
        s[i] == c,
        forall|j: int| 0 <= j < i ==> s[j] != c,
    ensures
        find_char(s, c) == i,
    decreases s.len(),
{
    if i > 0 {
        assert(forall|j: int| 0 <= j < s.skip(1).len() ==> s.skip(1)[j] == s[j + 1]);
        lemma_find_char_at(s.skip(1), c, i - 1);
    }
}

pub proof fn lemma_find_char_range(s: Seq<char>, c: char)
    ensures
        -1 <= find_char(s, c) < s.len(),
    decreases s.len(),
{
    if s.len() > 0 && s[0] != c {
        lemma_find_char_range(s.skip(1), c);
    }
}

pub proof fn lemma_find_char_none(s: Seq<char>, c: char)
    requires
        forall|j: int| 0 <= j < s.len() ==> s[j] != c,
    ensures
        find_char(s, c) == -1,
    decreases s.len(),
{
    if s.len() > 0 {
        assert(forall|j: int| 0 <= j < s.skip(1).len() ==> s.skip(1)[j] == s[j + 1]);
        lemma_find_char_none(s.skip(1), c);
    }
}

/// The flag name of one token: everything before the first `=`, or the
/// whole token when it has none.
pub open spec fn token_key(t: Seq<char>) -> Seq<char> {
    if find_char(t, '=') >= 0 {
        t.take(find_char(t, '='))
    } else {
        t
    }
}

/// The value of one token: the characters between the first `=` and the
/// second (anything after a second `=` is dropped), or all of the rest
/// when there is no second `=`; a token without `=` is a bare flag.
pub open spec fn token_value(t: Seq<char>) -> Option<Seq<char>> {
    if find_char(t, '=') >= 0 {
        let rest = t.skip(find_char(t, '=') + 1);
        if find_char(rest, '=') >= 0 {
            Some(rest.take(find_char(rest, '=')))
        } else {
            Some(rest)
        }
    } else {
        None
    }
}

/// The token list of an argument string: the segments between `;`
/// separators, in order, empty segments included.
pub open spec fn split_tokens(s: Seq<char>) -> Seq<Seq<char>>
    decreases s.len(),
    via split_tokens_decreases
{
    if find_char(s, ';') < 0 {
        seq![s]
    } else {
        seq![s.take(find_char(s, ';'))] + split_tokens(s.skip(find_char(s, ';') + 1))
    }
}

#[via_fn]
proof fn split_tokens_decreases(s: Seq<char>) {
    lemma_find_char_range(s, ';');
}

/// The mapping that a token list decodes to; a later token for a key
/// overrides an earlier one.
pub open spec fn args_of_tokens(ts: Seq<Seq<char>>) -> Map<Seq<char>, Option<Seq<char>>>
    decreases ts.len(),
{
    if ts.len() == 0 {
        Map::empty()
    } else {
        args_of_tokens(ts.drop_last()).insert(token_key(ts.last()), token_value(ts.last()))
    }
}

/// The mapping that a whole argument string decodes to.
pub open spec fn parse_args_spec(s: Seq<char>) -> Map<Seq<char>, Option<Seq<char>>> {
    args_of_tokens(split_tokens(s))
}

/// Split the argument string at every `;`.
fn split_on_semis(s: &str) -> (r: Vec<String>)
    ensures
        r@.map_values(|t: String| t@) == split_tokens(s@),
{
    let n = s.unicode_len();
    let mut out: Vec<String> = Vec::new();
    let mut start: usize = 0;
    let mut i: usize = 0;
    proof {
        assert(s@.skip(0) =~= s@);
    }
    while i < n
        invariant
            n == s@.len(),
            start <= i <= n,
            split_tokens(s@) =~= out@.map_values(|t: String| t@) + split_tokens(
                s@.skip(start as int),
            ),
            forall|j: int| start <= j < i ==> s@[j] != ';',
        decreases n - i,
    {
        if s.get_char(i) == ';' {
            let tok = s.substring_char(start, i);
            let tok_string = String::from_str(tok);
            proof {
                let u = s@.skip(start as int);
                assert(forall|j: int| 0 <= j < u.len() ==> u[j] == s@[j + start]);
                lemma_find_char_at(u, ';', i - start);
                assert(u.take(i - start) =~= s@.subrange(start as int, i as int));
                assert(u.skip(i - start + 1) =~= s@.skip(i + 1));
                assert(tok@ == u.take(i - start));
                assert(out@.push(tok_string).map_values(|t: String| t@) =~= out@.map_values(
                    |t: String| t@,
                ).push(tok@));
                assert(out@.map_values(|t: String| t@) + split_tokens(u) =~= out@.map_values(
                    |t: String| t@,
                ).push(u.take(i - start)) + split_tokens(s@.skip(i + 1)));
            }
            out.push(tok_string);
            start = i + 1;
        }
        i += 1;
    }
    let tok = s.substring_char(start, n);
    let tok_string = String::from_str(tok);
    proof {
        let u = s@.skip(start as int);
        assert(forall|j: int| 0 <= j < u.len() ==> u[j] == s@[j + start]);
        lemma_find_char_none(u, ';');
        assert(u =~= s@.subrange(start as int, n as int));
        assert(tok@ == u);
        assert(out@.push(tok_string).map_values(|t: String| t@) =~= out@.map_values(
            |t: String| t@,
        ).push(u));
        assert(out@.map_values(|t: String| t@).push(u) =~= out@.map_values(|t: String| t@) + seq![
            u,
        ]);
    }
    out.push(tok_string);
    out
}

/// The index of the first `c` in `t` at or after `from`, if any.
fn scan_char(t: &str, from: usize, c: char) -> (r: Option<usize>)
    requires
        from <= t@.len(),
    ensures
        match r {
            Some(i) => from <= i < t@.len() && find_char(t@.skip(from as int), c) == i - from,
            None => find_char(t@.skip(from as int), c) == -1,
        },
{
    let n = t.unicode_len();
    let mut i: usize = from;
    while i < n
        invariant
            n == t@.len(),
            from <= i <= n,
            forall|j: int| from <= j < i ==> t@[j] != c,
        decreases n - i,
    {
        if t.get_char(i) == c {
            proof {
                let u = t@.skip(from as int);
                assert(forall|j: int| 0 <= j < u.len() ==> u[j] == t@[j + from]);
                lemma_find_char_at(u, c, i - from);
            }
            return Some(i);
        }
        i += 1;
    }
    proof {
        let u = t@.skip(from as int);
        assert(forall|j: int| 0 <= j < u.len() ==> u[j] == t@[j + from]);
        lemma_find_char_none(u, c);
    }
    None
}

/// Decode one token into its flag name and optional value.
fn parse_token(t: &str) -> (r: (String, Option<String>))
    ensures
        r.0@ == token_key(t@),
        opt_view(r.1) == token_value(t@),
{
    let n = t.unicode_len();
    proof {
        assert(t@.skip(0) =~= t@);
    }
    match scan_char(t, 0, '=') {
        None => (String::from_str(t), None),
        Some(j) => {
            let key = t.substring_char(0, j);
            proof {
                assert(key@ =~= t@.take(j as int));
            }
            let value = match scan_char(t, j + 1, '=') {
                None => {
                    let v = t.substring_char(j + 1, n);
                    proof {
                        assert(v@ =~= t@.skip(j + 1));
                    }
                    v
                },
                Some(k) => {
                    let v = t.substring_char(j + 1, k);
                    proof {
                        let rest = t@.skip(j + 1);
                        assert(rest.take(k - (j + 1)) =~= t@.subrange(j + 1, k as int));
                        assert(v@ =~= rest.take(find_char(rest, '=')));
                    }
                    v
                },
            };
            (String::from_str(key), Some(String::from_str(value)))
        },
    }
}

/// Parse an argument token string into an Argument Set.
///
/// The format is `key=val` for key-value pairs and `flag` for flags
/// only, all separated by `;`. Parsing never fails: a token without `=`
/// is a bare flag, and of a token with several `=` only the part before
/// the first and the part between the first and the second are kept.
pub fn parse_subcommand_args(arg_str: &str) -> (r: CommandArgs)
    ensures
        r.wf(),
        r@ == parse_args_spec(arg_str@),
{
    let tokens = split_on_semis(arg_str);
    let ghost ts = tokens@.map_values(|t: String| t@);
    let mut args = CommandArgs::new();
    let n = tokens.len();
    let mut i: usize = 0;
    proof {
        assert(ts.take(0) =~= Seq::<Seq<char>>::empty());
        assert(args@ =~= args_of_tokens(ts.take(0)));
    }
    while i < n
        invariant
            n == tokens@.len(),
            ts == tokens@.map_values(|t: String| t@),
            i <= n,
            args.wf(),
            args@ == args_of_tokens(ts.take(i as int)),
        decreases n - i,
    {
        let (key, value) = parse_token(tokens[i].as_str());
        args.insert(key, value);
        proof {
            let u = ts.take(i + 1);
            assert(u.drop_last() =~= ts.take(i as int));
            assert(u.last() == ts[i as int]);
        }
        i += 1;
    }
    proof {
        assert(ts.take(n as int) =~= ts);
    }
    args
}

} // verus!
