//! Argument parsing for each directive variant: the bracketed exec form and
//! the shell form of `ENTRYPOINT`/`CMD`, `EXPOSE` ports, `ADD` pairs, and the
//! two `ENV` assignment forms.

use vstd::prelude::*;

use crate::directive::{Delimiter, Directive, DirectiveView, EnvVar, EnvVarView, Mode};
use crate::directive::token_views;
use crate::render::spec_join;
use crate::text::{
    chars_to_string, find_char, is_digit, spec_find, spec_is_digit, spec_split, spec_trim,
    split_chars, trim_chars,
};

verus! {

/// Why decoding a Dockerfile failed.
#[derive(Clone, Copy, Debug, PartialEq, Eq, Structural)]
pub enum DecodeError {
    /// A byte appeared where the grammar does not allow it.
    UnexpectedToken,
    /// The input was not valid text.
    InvalidUtf8,
    /// No `CMD` or `ENTRYPOINT` directive was found.
    NoEntrypoint,
    /// A directive ended before its required arguments were complete.
    IncompleteInstruction,
    /// The argument of `EXPOSE` is not an unsigned 16-bit port number.
    InvalidExposedPort,
}

/// The numeric value of a digit character, zero for anything else.
pub open spec fn spec_digit_val(c: char) -> nat {
    if spec_is_digit(c) {
        ((c as u32) - ('0' as u32)) as nat
    } else {
        0
    }
}

/// The value of a decimal digit string.
pub open spec fn spec_digits_val(s: Seq<char>) -> nat
    decreases s.len(),
{
    if s.len() == 0 {
        0
    } else {
        spec_digits_val(s.drop_last()) * 10 + spec_digit_val(s.last())
    }
}

/// The value of a prefix never exceeds the value of the whole digit string.
proof fn lemma_digits_val_take_le(s: Seq<char>, k: int)
    requires
        0 <= k <= s.len(),
    ensures
        spec_digits_val(s.take(k)) <= spec_digits_val(s),
    decreases s.len() - k,
{
    if k == s.len() {
        assert(s.take(k) =~= s);
    } else {
        assert(s.take(k + 1).drop_last() =~= s.take(k));
        assert(s.take(k + 1).last() == s[k]);
        assert(spec_digits_val(s.take(k + 1)) == spec_digits_val(s.take(k)) * 10 + spec_digit_val(
            s[k],
        ));
        assert(spec_digits_val(s.take(k)) * 10 >= spec_digits_val(s.take(k))) by (nonlinear_arith);
        lemma_digits_val_take_le(s, k + 1);
    }
}

/// An `EXPOSE` argument with one optional leading `+` sign removed.
pub open spec fn spec_port_digits(s: Seq<char>) -> Seq<char> {
    if s.len() > 0 && s[0] == '+' {
        s.drop_first()
    } else {
        s
    }
}

/// Every character is a decimal digit.
pub open spec fn spec_all_digits(s: Seq<char>) -> bool {
    forall|i: int| 0 <= i < s.len() ==> spec_is_digit(s[i])
}

/// The port number written in an `EXPOSE` argument: an optional leading `+`,
/// then one or more decimal digits whose value fits in sixteen bits.
pub open spec fn spec_parse_port(s: Seq<char>) -> Option<u16> {
    if spec_port_digits(s).len() > 0 && spec_all_digits(spec_port_digits(s)) && spec_digits_val(
        spec_port_digits(s),
    ) <= 65535 {
        Some(spec_digits_val(spec_port_digits(s)) as u16)
    } else {
        None
    }
}

/// Parses an `EXPOSE` argument as a port number.
pub fn parse_port(v: &Vec<char>) -> (r: Option<u16>)
    ensures
        r == spec_parse_port(v@),
{
    let start: usize = if v.len() > 0 && v[0] == '+' {
        1
    } else {
        0
    };
    let ghost digits = v@.skip(start as int);
    proof {
        if v@.len() > 0 && v@[0] == '+' {
            assert(digits =~= v@.drop_first());
        } else {
            assert(digits =~= v@);
        }
        assert(digits == spec_port_digits(v@));
    }
    if v.len() == start {
        proof {
            assert(digits.len() == 0);
        }
        return None;
    }
    let mut acc: u32 = 0;
    let mut i: usize = start;
    while i < v.len()
        invariant
            start <= i <= v.len(),
            digits == v@.skip(start as int),
            digits == spec_port_digits(v@),
            digits.len() == v@.len() - start,
            forall|j: int| 0 <= j < i - start ==> spec_is_digit(#[trigger] digits[j]),
            acc == spec_digits_val(digits.take(i - start)),
            acc <= 65535,
        decreases v.len() - i,
    {
        let c = v[i];
        proof {
            assert(digits[i - start] == v@[i as int]);
        }
        if !is_digit(c) {
            proof {
                let sd = (if v@.len() > 0 && v@[0] == '+' {
                    v@.drop_first()
                } else {
                    v@
                });
                assert(sd == digits);
                assert(!spec_is_digit(sd[i - start]));
                assert(!(forall|k: int| 0 <= k < sd.len() ==> spec_is_digit(sd[k])));
                assert(spec_parse_port(v@) is None);
            }
            return None;
        }
        let d: u32 = (c as u32) - ('0' as u32);
        proof {
            assert(digits.take(i - start + 1).drop_last() =~= digits.take(i - start));
            assert(digits.take(i - start + 1).last() == digits[i - start]);
        }
        acc = acc * 10 + d;
        i = i + 1;
        if acc > 65535 {
            proof {
                lemma_digits_val_take_le(digits, i - start);
                assert(spec_digits_val(digits) > 65535);
            }
            return None;
        }
    }
    proof {
        assert(digits.take(v@.len() - start) =~= digits);
    }
    Some(acc as u16)
}

/// One matching pair of outer double quotes removed: a leading `"` is
/// dropped, then a trailing `"` of what remains.
pub open spec fn spec_strip_quotes(t: Seq<char>) -> Seq<char> {
    let t1 = if t.len() > 0 && t[0] == '"' {
        t.drop_first()
    } else {
        t
    };
    if t1.len() > 0 && t1[t1.len() - 1] == '"' {
        t1.drop_last()
    } else {
        t1
    }
}

/// What an exec-form token list parses to: the outer brackets are stripped,
/// the inside is split on commas, and each piece is trimmed and has one
/// outer pair of quotes removed.
pub open spec fn spec_parse_exec_tokens(args: Seq<char>) -> Seq<Seq<char>> {
    let inner = if args.len() >= 2 {
        args.subrange(1, args.len() - 1)
    } else {
        Seq::empty()
    };
    spec_split(inner, ',').map_values(|t: Seq<char>| spec_strip_quotes(spec_trim(t)))
}

/// What a shell-form token list parses to: the argument text split on
/// spaces, empty tokens kept.
pub open spec fn spec_parse_shell_tokens(args: Seq<char>) -> Seq<Seq<char>> {
    spec_split(args, ' ')
}

/// Removes one outer pair of double quotes.
fn strip_quotes(v: Vec<char>) -> (r: Vec<char>)
    ensures
        r@ == spec_strip_quotes(v@),
{
    let start: usize = if v.len() > 0 && v[0] == '"' {
        1
    } else {
        0
    };
    let end: usize = if v.len() > start && v[v.len() - 1] == '"' {
        v.len() - 1
    } else {
        v.len()
    };
    let ghost t1 = if v@.len() > 0 && v@[0] == '"' {
        v@.drop_first()
    } else {
        v@
    };
    proof {
        assert(t1 =~= v@.subrange(start as int, v@.len() as int));
        if t1.len() > 0 && t1[t1.len() - 1] == '"' {
            assert(t1.drop_last() =~= v@.subrange(start as int, end as int));
        } else {
            assert(t1 =~= v@.subrange(start as int, end as int));
        }
    }
    let mut r: Vec<char> = Vec::new();
    let mut i: usize = start;
    while i < end
        invariant
            start <= i <= end <= v@.len(),
            r@ == v@.subrange(start as int, i as int),
        decreases end - i,
    {
        r.push(v[i]);
        proof {
            assert(v@.subrange(start as int, i + 1) =~= v@.subrange(start as int, i as int).push(
                v@[i as int],
            ));
        }
        i = i + 1;
    }
    r
}

/// Parses the bracketed exec-form token list.
fn parse_exec_tokens(args: &Vec<char>) -> (r: Vec<String>)
    ensures
        token_views(r@) == spec_parse_exec_tokens(args@),
{
    let mut inner: Vec<char> = Vec::new();
    if args.len() >= 2 {
        let mut i: usize = 1;
        while i < args.len() - 1
            invariant
                args@.len() >= 2,
                1 <= i <= args@.len() - 1,
                inner@ == args@.subrange(1, i as int),
            decreases args.len() - i,
        {
            inner.push(args[i]);
            proof {
                assert(args@.subrange(1, i + 1) =~= args@.subrange(1, i as int).push(
                    args@[i as int],
                ));
            }
            i = i + 1;
        }
    }
    proof {
        if args@.len() < 2 {
            assert(inner@ =~= Seq::<char>::empty());
        }
    }
    let pieces = split_chars(&inner, ',');
    let ghost spec_pieces = spec_split(inner@, ',');
    let mut r: Vec<String> = Vec::new();
    let mut i: usize = 0;
    while i < pieces.len()
        invariant
            i <= pieces.len(),
            pieces@.map_values(|p: Vec<char>| p@) == spec_pieces,
            pieces@.len() == spec_pieces.len(),
            r@.len() == i,
            forall|j: int| 0 <= j < i ==> r@[j]@ == spec_strip_quotes(spec_trim(spec_pieces[j])),
        decreases pieces.len() - i,
    {
        proof {
            assert(pieces@.map_values(|p: Vec<char>| p@)[i as int] == pieces@[i as int]@);
        }
        let trimmed = trim_chars(&pieces[i]);
        let stripped = strip_quotes(trimmed);
        let token = chars_to_string(&stripped);
        r.push(token);
        i = i + 1;
    }
    proof {
        let mapped = spec_pieces.map_values(|t: Seq<char>| spec_strip_quotes(spec_trim(t)));
        assert forall|j: int| 0 <= j < r@.len() implies token_views(r@)[j] == mapped[j] by {
            assert(token_views(r@)[j] == r@[j]@);
        }
        assert(token_views(r@) =~= mapped);
    }
    r
}

/// Parses the shell-form token list.
fn parse_shell_tokens(args: &Vec<char>) -> (r: Vec<String>)
    ensures
        token_views(r@) == spec_parse_shell_tokens(args@),
{
    let pieces = split_chars(args, ' ');
    let ghost spec_pieces = spec_split(args@, ' ');
    let mut r: Vec<String> = Vec::new();
    let mut i: usize = 0;
    while i < pieces.len()
        invariant
            i <= pieces.len(),
            pieces@.map_values(|p: Vec<char>| p@) == spec_pieces,
            pieces@.len() == spec_pieces.len(),
            r@.len() == i,
            forall|j: int| 0 <= j < i ==> r@[j]@ == spec_pieces[j],
        decreases pieces.len() - i,
    {
        proof {
            assert(pieces@.map_values(|p: Vec<char>| p@)[i as int] == pieces@[i as int]@);
        }
        let token = chars_to_string(&pieces[i]);
        r.push(token);
        i = i + 1;
    }
    proof {
        assert forall|j: int| 0 <= j < r@.len() implies token_views(r@)[j] == spec_pieces[j] by {
            assert(token_views(r@)[j] == r@[j]@);
        }
        assert(token_views(r@) =~= spec_pieces);
    }
    r
}

/// The pieces that are not empty, in order.
pub open spec fn spec_nonempty_pieces(parts: Seq<Seq<char>>) -> Seq<Seq<char>>
    decreases parts.len(),
{
    if parts.len() == 0 {
        Seq::empty()
    } else {
        spec_nonempty_pieces(parts.drop_last()) + if parts.last().len() > 0 {
            seq![parts.last()]
        } else {
            Seq::empty()
        }
    }
}

/// What an `ADD` argument parses to: the first two non-empty space-separated
/// pieces as source and destination, or nothing when fewer than two exist.
pub open spec fn spec_parse_add(args: Seq<char>) -> Option<(Seq<char>, Seq<char>)> {
    let parts = spec_nonempty_pieces(spec_split(args, ' '));
    if parts.len() >= 2 {
        Some((parts[0], parts[1]))
    } else {
        None
    }
}

/// Parses an `ADD` argument into source and destination.
fn parse_add(args: &Vec<char>) -> (r: Option<(String, String)>)
    ensures
        match r {
            Some((src, dst)) => spec_parse_add(args@) == Some((src@, dst@)),
            None => spec_parse_add(args@) is None,
        },
{
    let pieces = split_chars(args, ' ');
    let ghost spec_pieces = spec_split(args@, ' ');
    let mut kept: Vec<Vec<char>> = Vec::new();
    let mut i: usize = 0;
    while i < pieces.len()
        invariant
            i <= pieces.len(),
            pieces@.map_values(|p: Vec<char>| p@) == spec_pieces,
            pieces@.len() == spec_pieces.len(),
            kept@.map_values(|p: Vec<char>| p@) == spec_nonempty_pieces(
                spec_pieces.take(i as int),
            ),
        decreases pieces.len() - i,
    {
        proof {
            assert(pieces@.map_values(|p: Vec<char>| p@)[i as int] == pieces@[i as int]@);
            assert(spec_pieces.take(i + 1).drop_last() =~= spec_pieces.take(i as int));
            assert(spec_pieces.take(i + 1).last() == spec_pieces[i as int]);
        }
        if pieces[i].len() > 0 {
            let ghost old_kept = kept@.map_values(|p: Vec<char>| p@);
            let piece = copy_chars(&pieces[i]);
            kept.push(piece);
            proof {
                assert(kept@.map_values(|p: Vec<char>| p@) =~= old_kept.push(
                    kept@[kept@.len() - 1]@,
                ));
                assert(kept@.map_values(|p: Vec<char>| p@) =~= spec_nonempty_pieces(
                    spec_pieces.take(i + 1),
                ));
            }
        } else {
            proof {
                assert(kept@.map_values(|p: Vec<char>| p@) =~= spec_nonempty_pieces(
                    spec_pieces.take(i + 1),
                ));
            }
        }
        i = i + 1;
    }
    proof {
        assert(spec_pieces.take(spec_pieces.len() as int) =~= spec_pieces);
    }
    if kept.len() >= 2 {
        let src = chars_to_string(&kept[0]);
        let dst = chars_to_string(&kept[1]);
        proof {
            assert(kept@.map_values(|p: Vec<char>| p@)[0] == kept@[0]@);
            assert(kept@.map_values(|p: Vec<char>| p@)[1] == kept@[1]@);
        }
        Some((src, dst))
    } else {
        None
    }
}

/// Copies a piece unchanged.
fn copy_chars(v: &Vec<char>) -> (r: Vec<char>)
    ensures
        r@ == v@,
{
    let mut r: Vec<char> = Vec::new();
    let mut i: usize = 0;
    while i < v.len()
        invariant
            i <= v.len(),
            r@ == v@.subrange(0, i as int),
        decreases v.len() - i,
    {
        r.push(v[i]);
        proof {
            assert(v@.subrange(0, i + 1) =~= v@.subrange(0, i as int).push(v@[i as int]));
        }
        i = i + 1;
    }
    proof {
        assert(v@.subrange(0, v@.len() as int) =~= v@);
    }
    r
}


/// The result of scanning an `ENV` line: its tokens and the delimiter form
/// the line used.
pub struct EnvTok {
    pub toks: Seq<Seq<char>>,
    pub delim: Delimiter,
}

/// One step of the `ENV` tokenizer. Double quotes toggle quoting and spaces
/// split tokens only outside quotes; a backslash escapes the next character;
/// an unescaped `=` outside quotes makes the line an assignment list.
/// Quotes, escapes and the `=` itself are all preserved in the token text,
/// and each finished token is trimmed.
pub open spec fn spec_env_loop(
    s: Seq<char>,
    in_quotes: bool,
    escape: bool,
    cur: Seq<char>,
    toks: Seq<Seq<char>>,
    delim: Delimiter,
) -> EnvTok
    decreases s.len(),
{
    if s.len() == 0 {
        EnvTok {
            toks: if cur.len() > 0 {
                toks.push(spec_trim(cur))
            } else {
                toks
            },
            delim,
        }
    } else {
        let c = s[0];
        let rest = s.drop_first();
        if c == '\\' {
            spec_env_loop(rest, in_quotes, !escape, cur.push(c), toks, delim)
        } else if c == '"' {
            spec_env_loop(rest, !in_quotes, false, cur.push(c), toks, delim)
        } else if c == ' ' && in_quotes {
            spec_env_loop(rest, in_quotes, false, cur.push(c), toks, delim)
        } else if c == ' ' {
            spec_env_loop(
                rest,
                in_quotes,
                false,
                Seq::empty(),
                if cur.len() > 0 {
                    toks.push(spec_trim(cur))
                } else {
                    toks
                },
                delim,
            )
        } else if c == '=' && !in_quotes && !escape {
            spec_env_loop(rest, in_quotes, false, cur.push(c), toks, Delimiter::Eq)
        } else {
            spec_env_loop(rest, in_quotes, false, cur.push(c), toks, delim)
        }
    }
}

/// The tokens of an `ENV` line and the delimiter form it used.
pub open spec fn spec_env_tokenize(s: Seq<char>) -> EnvTok {
    spec_env_loop(s, false, false, Seq::empty(), Seq::empty(), Delimiter::Space)
}

/// Scans an `ENV` line into tokens.
fn env_tokenize(args: &Vec<char>) -> (r: (Vec<Vec<char>>, Delimiter))
    ensures
        spec_env_tokenize(args@) == (EnvTok {
            toks: r.0@.map_values(|p: Vec<char>| p@),
            delim: r.1,
        }),
{
    let ghost full = args@;
    let mut in_quotes = false;
    let mut escape = false;
    let mut cur: Vec<char> = Vec::new();
    let mut toks: Vec<Vec<char>> = Vec::new();
    let mut delim = Delimiter::Space;
    let mut i: usize = 0;
    proof {
        assert(full.skip(0) =~= full);
        assert(toks@.map_values(|p: Vec<char>| p@) =~= Seq::<Seq<char>>::empty());
    }
    while i < args.len()
        invariant
            i <= args.len(),
            full == args@,
            spec_env_tokenize(full) == spec_env_loop(
                full.skip(i as int),
                in_quotes,
                escape,
                cur@,
                toks@.map_values(|p: Vec<char>| p@),
                delim,
            ),
        decreases args.len() - i,
    {
        let ghost rest = full.skip(i as int);
        proof {
            assert(rest.len() > 0);
            assert(rest[0] == full[i as int]);
            assert(rest.drop_first() =~= full.skip(i + 1));
        }
        let c = args[i];
        if c == '\\' {
            escape = !escape;
            cur.push(c);
        } else if c == '"' {
            in_quotes = !in_quotes;
            escape = false;
            cur.push(c);
        } else if c == ' ' && in_quotes {
            escape = false;
            cur.push(c);
        } else if c == ' ' {
            escape = false;
            if cur.len() > 0 {
                let ghost old_toks = toks@.map_values(|p: Vec<char>| p@);
                let finished = trim_chars(&cur);
                toks.push(finished);
                cur = Vec::new();
                proof {
                    assert(toks@.map_values(|p: Vec<char>| p@) =~= old_toks.push(
                        toks@[toks@.len() - 1]@,
                    ));
                }
            } else {
                cur = Vec::new();
                proof {
                    assert(cur@ =~= Seq::<char>::empty());
                }
            }
        } else if c == '=' && !in_quotes && !escape {
            delim = Delimiter::Eq;
            cur.push(c);
        } else {
            escape = false;
            cur.push(c);
        }
        i = i + 1;
    }
    proof {
        assert(full.skip(full.len() as int) =~= Seq::<char>::empty());
    }
    if cur.len() > 0 {
        let ghost old_toks = toks@.map_values(|p: Vec<char>| p@);
        let finished = trim_chars(&cur);
        toks.push(finished);
        proof {
            assert(toks@.map_values(|p: Vec<char>| p@) =~= old_toks.push(
                toks@[toks@.len() - 1]@,
            ));
        }
    }
    (toks, delim)
}

/// A token of an assignment list split at its first `=`.
pub open spec fn spec_env_pair(t: Seq<char>) -> EnvVarView {
    EnvVarView {
        key: t.take(spec_find(t, '=')),
        val: t.skip(spec_find(t, '=') + 1),
        delim: Delimiter::Eq,
    }
}

/// Every token holds an `=`.
pub open spec fn spec_all_have_eq(toks: Seq<Seq<char>>) -> bool {
    forall|i: int| 0 <= i < toks.len() ==> spec_find(#[trigger] toks[i], '=') >= 0
}

/// What an `ENV` argument parses to. With no `=` on the line the first token
/// is the key and the remaining tokens, joined by single spaces, the value;
/// at least two tokens are then required. Otherwise every token must be a
/// `KEY=VALUE` assignment, split at its first `=`.
pub open spec fn spec_parse_env(args: Seq<char>) -> Result<Seq<EnvVarView>, DecodeError> {
    if spec_env_tokenize(args).delim is Space {
        if spec_env_tokenize(args).toks.len() < 2 {
            Err(DecodeError::IncompleteInstruction)
        } else {
            Ok(
                seq![
                    EnvVarView {
                        key: spec_env_tokenize(args).toks[0],
                        val: spec_join(spec_env_tokenize(args).toks.skip(1), " "@),
                        delim: Delimiter::Space,
                    },
                ],
            )
        }
    } else {
        if spec_all_have_eq(spec_env_tokenize(args).toks) {
            Ok(spec_env_tokenize(args).toks.map_values(|t: Seq<char>| spec_env_pair(t)))
        } else {
            Err(DecodeError::IncompleteInstruction)
        }
    }
}

/// The characters of `v` before index `k`.
fn take_chars(v: &Vec<char>, k: usize) -> (r: Vec<char>)
    requires
        k <= v@.len(),
    ensures
        r@ == v@.take(k as int),
{
    let mut r: Vec<char> = Vec::new();
    let mut i: usize = 0;
    while i < k
        invariant
            i <= k <= v@.len(),
            r@ == v@.subrange(0, i as int),
        decreases k - i,
    {
        r.push(v[i]);
        proof {
            assert(v@.subrange(0, i + 1) =~= v@.subrange(0, i as int).push(v@[i as int]));
        }
        i = i + 1;
    }
    proof {
        assert(v@.subrange(0, k as int) =~= v@.take(k as int));
    }
    r
}

/// The characters of `v` from index `k` on.
fn skip_chars(v: &Vec<char>, k: usize) -> (r: Vec<char>)
    requires
        k <= v@.len(),
    ensures
        r@ == v@.skip(k as int),
{
    let mut r: Vec<char> = Vec::new();
    let mut i: usize = k;
    while i < v.len()
        invariant
            k <= i <= v@.len(),
            r@ == v@.subrange(k as int, i as int),
        decreases v.len() - i,
    {
        r.push(v[i]);
        proof {
            assert(v@.subrange(k as int, i + 1) =~= v@.subrange(k as int, i as int).push(
                v@[i as int],
            ));
        }
        i = i + 1;
    }
    proof {
        assert(v@.subrange(k as int, v@.len() as int) =~= v@.skip(k as int));
    }
    r
}

/// Parses an `ENV` argument into its assignments.
pub fn parse_env(args: &Vec<char>) -> (r: Result<Vec<EnvVar>, DecodeError>)
    ensures
        match r {
            Ok(vars) => spec_parse_env(args@) == Ok::<_, DecodeError>(
                crate::directive::env_var_views(vars@),
            ),
            Err(e) => spec_parse_env(args@) == Err::<Seq<EnvVarView>, _>(e),
        },
{
    let (toks, delim) = env_tokenize(args);
    let ghost spec_toks = spec_env_tokenize(args@).toks;
    proof {
        assert(spec_toks == toks@.map_values(|p: Vec<char>| p@));
    }
    match delim {
        Delimiter::Space => {
            if toks.len() < 2 {
                return Err(DecodeError::IncompleteInstruction);
            }
            proof {
                assert(spec_toks[0] == toks@[0]@);
            }
            let key = chars_to_string(&toks[0]);
            let mut val = String::new();
            let mut i: usize = 1;
            proof {
                assert(spec_toks.skip(1).subrange(0, 0) =~= Seq::<Seq<char>>::empty());
            }
            while i < toks.len()
                invariant
                    1 <= i <= toks@.len(),
                    spec_toks == toks@.map_values(|p: Vec<char>| p@),
                    spec_toks.len() == toks@.len(),
                    val@ == spec_join(spec_toks.skip(1).subrange(0, i - 1), " "@),
                decreases toks.len() - i,
            {
                proof {
                    let parts = spec_toks.skip(1);
                    assert(parts.subrange(0, i as int) =~= parts.subrange(0, i - 1).push(
                        parts[i - 1],
                    ));
                    crate::render::lemma_spec_join_push(
                        parts.subrange(0, i - 1),
                        " "@,
                        parts[i - 1],
                    );
                    assert(parts[i - 1] == spec_toks[i as int]);
                    assert(spec_toks[i as int] == toks@[i as int]@);
                }
                if i > 1 {
                    val.append(" ");
                }
                let piece = chars_to_string(&toks[i]);
                val.append(piece.as_str());
                i = i + 1;
            }
            proof {
                assert(spec_toks.skip(1).subrange(0, spec_toks.len() - 1) =~= spec_toks.skip(1));
            }
            let var = EnvVar { key, val, delim: Delimiter::Space };
            let mut vars: Vec<EnvVar> = Vec::new();
            vars.push(var);
            proof {
                assert(crate::directive::env_var_views(vars@) =~= seq![
                    EnvVarView {
                        key: spec_toks[0],
                        val: spec_join(spec_toks.skip(1), " "@),
                        delim: Delimiter::Space,
                    },
                ]);
            }
            Ok(vars)
        }
        Delimiter::Eq => {
            let mut vars: Vec<EnvVar> = Vec::new();
            let mut i: usize = 0;
            while i < toks.len()
                invariant
                    i <= toks@.len(),
                    spec_toks == toks@.map_values(|p: Vec<char>| p@),
                    spec_toks.len() == toks@.len(),
                    spec_env_tokenize(args@) == (EnvTok { toks: spec_toks, delim: Delimiter::Eq }),
                    forall|j: int| 0 <= j < i ==> spec_find(#[trigger] spec_toks[j], '=') >= 0,
                    vars@.len() == i,
                    forall|j: int| 0 <= j < i ==> vars@[j]@ == spec_env_pair(spec_toks[j]),
                decreases toks.len() - i,
            {
                proof {
                    assert(spec_toks[i as int] == toks@[i as int]@);
                }
                let eq_at = match find_char(&toks[i], '=') {
                    Some(p) => p,
                    None => {
                        proof {
                            assert(spec_find(spec_toks[i as int], '=') < 0);
                            assert(!spec_all_have_eq(spec_toks));
                        }
                        return Err(DecodeError::IncompleteInstruction);
                    }
                };
                proof {
                    crate::text::lemma_find_props(spec_toks[i as int], '=');
                    assert(spec_find(spec_toks[i as int], '=') == eq_at as int);
                    assert(eq_at < toks@[i as int]@.len());
                }
                let key_chars = take_chars(&toks[i], eq_at);
                let val_chars = skip_chars(&toks[i], eq_at + 1);
                let key = chars_to_string(&key_chars);
                let val = chars_to_string(&val_chars);
                vars.push(EnvVar { key, val, delim: Delimiter::Eq });
                i = i + 1;
            }
            proof {
                let mapped = spec_toks.map_values(|t: Seq<char>| spec_env_pair(t));
                assert forall|j: int| 0 <= j < vars@.len() implies crate::directive::env_var_views(
                    vars@,
                )[j] == mapped[j] by {
                    assert(crate::directive::env_var_views(vars@)[j] == vars@[j]@);
                }
                assert(crate::directive::env_var_views(vars@) =~= mapped);
            }
            Ok(vars)
        }
    }
}



/// What `set_arguments` makes of a directive and its raw argument text.
pub open spec fn spec_set_arguments(d: DirectiveView, args: Seq<char>) -> Result<
    DirectiveView,
    DecodeError,
> {
    match d {
        DirectiveView::Entrypoint { mode, .. } => Ok(
            DirectiveView::Entrypoint {
                mode,
                tokens: if mode == Some(Mode::Exec) {
                    spec_parse_exec_tokens(args)
                } else {
                    spec_parse_shell_tokens(args)
                },
            },
        ),
        DirectiveView::Cmd { mode, .. } => Ok(
            DirectiveView::Cmd {
                mode,
                tokens: if mode == Some(Mode::Exec) {
                    spec_parse_exec_tokens(args)
                } else {
                    spec_parse_shell_tokens(args)
                },
            },
        ),
        DirectiveView::Add { .. } => match spec_parse_add(args) {
            Some(pair) => Ok(
                DirectiveView::Add { source_url: pair.0, destination_path: pair.1 },
            ),
            None => Err(DecodeError::IncompleteInstruction),
        },
        DirectiveView::Expose { .. } => match spec_parse_port(args) {
            Some(p) => Ok(DirectiveView::Expose { port: Some(p) }),
            None => Err(DecodeError::InvalidExposedPort),
        },
        DirectiveView::Env { .. } => match spec_parse_env(args) {
            Ok(vars) => Ok(DirectiveView::Env { vars }),
            Err(e) => Err(e),
        },
        DirectiveView::Comment(_) => Ok(DirectiveView::Comment(args)),
        DirectiveView::Run(_) => Ok(DirectiveView::Run(args)),
        DirectiveView::User(_) => Ok(DirectiveView::User(args)),
        DirectiveView::From { .. } => Ok(DirectiveView::From { arguments: args }),
        DirectiveView::Other { directive, .. } => Ok(
            DirectiveView::Other { directive, arguments: args },
        ),
    }
}

impl Directive {
    /// Parses the accumulated argument text into the directive, by the
    /// variant's own argument grammar. An `ENTRYPOINT` or `CMD` must have had
    /// its mode set from the first argument character.
    pub fn set_arguments(&mut self, given_arguments: Vec<char>) -> (r: Result<(), DecodeError>)
        requires
            old(self)@ is Entrypoint ==> crate::directive::spec_directive_mode(old(self)@)
                is Some,
            old(self)@ is Cmd ==> crate::directive::spec_directive_mode(old(self)@) is Some,
        ensures
            match r {
                Ok(_) => spec_set_arguments(old(self)@, given_arguments@) == Ok::<
                    _,
                    DecodeError,
                >(final(self)@),
                Err(e) => spec_set_arguments(old(self)@, given_arguments@) == Err::<
                    DirectiveView,
                    _,
                >(e) && final(self)@ == old(self)@,
            },
    {
        match self {
            Self::Entrypoint { mode, tokens } => {
                let exec_mode = match mode {
                    Some(Mode::Exec) => true,
                    _ => false,
                };
                let parsed = if exec_mode {
                    parse_exec_tokens(&given_arguments)
                } else {
                    parse_shell_tokens(&given_arguments)
                };
                *tokens = parsed;
                Ok(())
            }
            Self::Cmd { mode, tokens } => {
                let exec_mode = match mode {
                    Some(Mode::Exec) => true,
                    _ => false,
                };
                let parsed = if exec_mode {
                    parse_exec_tokens(&given_arguments)
                } else {
                    parse_shell_tokens(&given_arguments)
                };
                *tokens = parsed;
                Ok(())
            }
            Self::Add { source_url, destination_path } => match parse_add(&given_arguments) {
                Some((src, dst)) => {
                    *source_url = src;
                    *destination_path = dst;
                    Ok(())
                }
                None => Err(DecodeError::IncompleteInstruction),
            },
            Self::Expose { port } => match parse_port(&given_arguments) {
                Some(p) => {
                    *port = Some(p);
                    Ok(())
                }
                None => Err(DecodeError::InvalidExposedPort),
            },
            Self::Env { vars } => match parse_env(&given_arguments) {
                Ok(parsed) => {
                    *vars = parsed;
                    Ok(())
                }
                Err(e) => Err(e),
            },
            Self::Comment(text) => {
                *text = chars_to_string(&given_arguments);
                Ok(())
            }
            Self::Run(text) => {
                *text = chars_to_string(&given_arguments);
                Ok(())
            }
            Self::User(text) => {
                *text = chars_to_string(&given_arguments);
                Ok(())
            }
            Self::From { arguments } => {
                *arguments = chars_to_string(&given_arguments);
                Ok(())
            }
            Self::Other { arguments, .. } => {
                *arguments = chars_to_string(&given_arguments);
                Ok(())
            }
        }
    }
}

/// A character matches an upper-case letter, ignoring ASCII case.
pub open spec fn spec_ci(c: char, k: char) -> bool {
    (c as u32) == (k as u32) || ((c as u32) == (k as u32) + 32 && ('A' as u32) <= (k as u32)
        <= ('Z' as u32))
}

fn ci(c: char, k: char) -> (r: bool)
    ensures
        r == spec_ci(c, k),
{
    let cu = c as u32;
    let ku = k as u32;
    cu == ku || (ku <= u32::MAX - 32 && cu == ku + 32 && ('A' as u32) <= ku && ku <= ('Z' as u32))
}

/// The text equals the keyword up to ASCII case.
pub open spec fn spec_kw_eq(s: Seq<char>, k: Seq<char>) -> bool {
    s.len() == k.len() && forall|i: int| 0 <= i < s.len() ==> spec_ci(s[i], #[trigger] k[i])
}

/// Compares accumulated keyword text against a keyword, ignoring ASCII case.
fn kw_eq(v: &Vec<char>, k: &str) -> (r: bool)
    ensures
        r == spec_kw_eq(v@, k@),
{
    let n = k.unicode_len();
    if v.len() != n {
        return false;
    }
    let mut i: usize = 0;
    while i < n
        invariant
            i <= n,
            n == k@.len(),
            v@.len() == n,
            forall|j: int| 0 <= j < i ==> spec_ci(v@[j], #[trigger] k@[j]),
        decreases n - i,
    {
        if !ci(v[i], k.get_char(i)) {
            return false;
        }
        i = i + 1;
    }
    true
}

/// The empty directive a keyword begins: one of the recognized instruction
/// keywords, matched case-insensitively, or `Other` carrying the keyword
/// text itself.
pub open spec fn spec_directive_of_keyword(kw: Seq<char>) -> DirectiveView {
    if spec_kw_eq(kw, "ENTRYPOINT"@) {
        DirectiveView::Entrypoint { mode: Option::None, tokens: Seq::empty() }
    } else if spec_kw_eq(kw, "CMD"@) {
        DirectiveView::Cmd { mode: Option::None, tokens: Seq::empty() }
    } else if spec_kw_eq(kw, "EXPOSE"@) {
        DirectiveView::Expose { port: Option::None }
    } else if spec_kw_eq(kw, "RUN"@) {
        DirectiveView::Run(Seq::empty())
    } else if spec_kw_eq(kw, "USER"@) {
        DirectiveView::User(Seq::empty())
    } else if spec_kw_eq(kw, "ENV"@) {
        DirectiveView::Env { vars: Seq::empty() }
    } else if spec_kw_eq(kw, "FROM"@) {
        DirectiveView::From { arguments: Seq::empty() }
    } else {
        DirectiveView::Other { directive: kw, arguments: Seq::empty() }
    }
}

/// Builds the empty directive that a keyword begins.
pub fn directive_of_keyword(v: &Vec<char>) -> (r: Directive)
    ensures
        r@ == spec_directive_of_keyword(v@),
{
    if kw_eq(v, "ENTRYPOINT") {
        let r = Directive::Entrypoint { mode: None, tokens: Vec::new() };
        proof {
            assert(token_views(Seq::<String>::empty()) =~= Seq::<Seq<char>>::empty());
        }
        r
    } else if kw_eq(v, "CMD") {
        let r = Directive::Cmd { mode: None, tokens: Vec::new() };
        proof {
            assert(token_views(Seq::<String>::empty()) =~= Seq::<Seq<char>>::empty());
        }
        r
    } else if kw_eq(v, "EXPOSE") {
        Directive::Expose { port: None }
    } else if kw_eq(v, "RUN") {
        Directive::Run(String::new())
    } else if kw_eq(v, "USER") {
        Directive::User(String::new())
    } else if kw_eq(v, "ENV") {
        let r = Directive::Env { vars: Vec::new() };
        proof {
            assert(crate::directive::env_var_views(Seq::<EnvVar>::empty())
                =~= Seq::<EnvVarView>::empty());
        }
        r
    } else if kw_eq(v, "FROM") {
        Directive::From { arguments: String::new() }
    } else {
        Directive::Other { directive: chars_to_string(v), arguments: String::new() }
    }
}


} // verus!
