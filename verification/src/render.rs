//! Rendering directives back to Dockerfile text. Each directive renders to a
//! single logical line `KEYWORD ARGS`; a rendered file is the lines joined
//! with a newline after each.

use vstd::prelude::*;

use crate::directive::{Directive, DirectiveView, EnvVar, EnvVarView, Delimiter, Mode};
use crate::directive::{directive_views, env_var_views, token_views};

verus! {

/// The parts joined with the separator between consecutive parts.
pub open spec fn spec_join(parts: Seq<Seq<char>>, sep: Seq<char>) -> Seq<char>
    decreases parts.len(),
{
    if parts.len() == 0 {
        Seq::empty()
    } else if parts.len() == 1 {
        parts[0]
    } else {
        parts[0] + sep + spec_join(parts.drop_first(), sep)
    }
}

/// Joining one more part appends a separator and the part (or is the part
/// itself when nothing was joined yet).
pub proof fn lemma_spec_join_push(parts: Seq<Seq<char>>, sep: Seq<char>, last: Seq<char>)
    ensures
        spec_join(parts.push(last), sep) == if parts.len() == 0 {
            last
        } else {
            spec_join(parts, sep) + sep + last
        },
    decreases parts.len(),
{
    if parts.len() == 0 {
        assert(parts.push(last)[0] == last);
    } else if parts.len() == 1 {
        assert(parts.push(last).drop_first() =~= seq![last]);
        assert(spec_join(seq![last], sep) == seq![last][0]);
        assert(seq![last][0] == last);
        assert(spec_join(parts.push(last), sep) == parts.push(last)[0] + sep + spec_join(
            parts.push(last).drop_first(),
            sep,
        ));
        assert(parts.push(last)[0] == parts[0]);
    } else {
        assert(parts.push(last).drop_first() =~= parts.drop_first().push(last));
        lemma_spec_join_push(parts.drop_first(), sep, last);
    }
}

/// The decimal digit as a one-character string.
pub open spec fn spec_digit(d: nat) -> Seq<char> {
    if d == 0 {
        "0"@
    } else if d == 1 {
        "1"@
    } else if d == 2 {
        "2"@
    } else if d == 3 {
        "3"@
    } else if d == 4 {
        "4"@
    } else if d == 5 {
        "5"@
    } else if d == 6 {
        "6"@
    } else if d == 7 {
        "7"@
    } else if d == 8 {
        "8"@
    } else {
        "9"@
    }
}

/// The decimal form of a number, without leading zeros.
pub open spec fn spec_dec(n: nat) -> Seq<char>
    decreases n,
{
    if n < 10 {
        spec_digit(n)
    } else {
        spec_dec(n / 10) + spec_digit(n % 10)
    }
}

/// Appends the decimal form of `n` to `s`.
pub fn push_dec(s: &mut String, n: u16)
    ensures
        final(s)@ == old(s)@ + spec_dec(n as nat),
    decreases n,
{
    if n >= 10 {
        push_dec(s, n / 10);
    }
    let d: u16 = n % 10;
    match d {
        0 => s.append("0"),
        1 => s.append("1"),
        2 => s.append("2"),
        3 => s.append("3"),
        4 => s.append("4"),
        5 => s.append("5"),
        6 => s.append("6"),
        7 => s.append("7"),
        8 => s.append("8"),
        _ => s.append("9"),
    }
    proof {
        if n < 10 {
            assert(s@ == old(s)@ + spec_dec(n as nat));
        } else {
            assert(s@ == old(s)@ + (spec_dec((n / 10) as nat) + spec_digit((n % 10) as nat)));
            assert(s@ == old(s)@ + spec_dec(n as nat));
        }
    }
}

/// One `ENV` assignment as text: `KEY=VALUE`, or `KEY VALUE` in the legacy
/// space-separated form.
pub open spec fn spec_render_env_var(v: EnvVarView) -> Seq<char> {
    match v.delim {
        Delimiter::Eq => v.key + "="@ + v.val,
        Delimiter::Space => v.key + " "@ + v.val,
    }
}

/// A token of an exec-form list as it is rendered: wrapped in double quotes.
pub open spec fn spec_quote(t: Seq<char>) -> Seq<char> {
    "\""@ + t + "\""@
}

/// The argument text of a directive, reconstructing the original form:
/// a bracketed quoted list for an exec-form `ENTRYPOINT`/`CMD`, tokens
/// joined by single spaces for the shell form, `KEY=VALUE` pairs for `ENV`,
/// and the stored text verbatim everywhere else.
pub open spec fn spec_render_arguments(d: DirectiveView) -> Seq<char> {
    match d {
        DirectiveView::Add { source_url, destination_path } => source_url + " "@
            + destination_path,
        DirectiveView::Comment(text) => text,
        DirectiveView::Entrypoint { mode, tokens } => spec_render_command(mode, tokens),
        DirectiveView::Cmd { mode, tokens } => spec_render_command(mode, tokens),
        DirectiveView::Expose { port } => match port {
            Some(p) => spec_dec(p as nat),
            None => Seq::empty(),
        },
        DirectiveView::Run(text) => text,
        DirectiveView::User(text) => text,
        DirectiveView::Env { vars } => spec_join(
            vars.map_values(|v: EnvVarView| spec_render_env_var(v)),
            " "@,
        ),
        DirectiveView::From { arguments } => arguments,
        DirectiveView::Other { arguments, .. } => arguments,
    }
}

/// The argument text of an `ENTRYPOINT` or `CMD`.
pub open spec fn spec_render_command(mode: Option<Mode>, tokens: Seq<Seq<char>>) -> Seq<char> {
    if mode == Some(Mode::Exec) {
        "["@ + spec_join(tokens.map_values(|t: Seq<char>| spec_quote(t)), ", "@) + "]"@
    } else {
        spec_join(tokens, " "@)
    }
}

/// The keyword under which a directive renders.
pub open spec fn spec_keyword(d: DirectiveView) -> Seq<char> {
    match d {
        DirectiveView::Add { .. } => "ADD"@,
        DirectiveView::Comment(_) => "#"@,
        DirectiveView::Entrypoint { .. } => "ENTRYPOINT"@,
        DirectiveView::Cmd { .. } => "CMD"@,
        DirectiveView::Expose { .. } => "EXPOSE"@,
        DirectiveView::Run(_) => "RUN"@,
        DirectiveView::User(_) => "USER"@,
        DirectiveView::Env { .. } => "ENV"@,
        DirectiveView::From { .. } => "FROM"@,
        DirectiveView::Other { directive, .. } => directive,
    }
}

/// A directive as one Dockerfile line (without the terminating newline).
pub open spec fn spec_render_line(d: DirectiveView) -> Seq<char> {
    spec_keyword(d) + " "@ + spec_render_arguments(d)
}

/// A directive sequence as Dockerfile text: each line followed by a newline.
pub open spec fn spec_render_file(ds: Seq<DirectiveView>) -> Seq<char>
    decreases ds.len(),
{
    if ds.len() == 0 {
        Seq::empty()
    } else {
        spec_render_line(ds[0]) + "\n"@ + spec_render_file(ds.drop_first())
    }
}

/// Rendering one more directive appends its line and a newline.
pub proof fn lemma_spec_render_file_push(ds: Seq<DirectiveView>, d: DirectiveView)
    ensures
        spec_render_file(ds.push(d)) == spec_render_file(ds) + spec_render_line(d) + "\n"@,
    decreases ds.len(),
{
    if ds.len() == 0 {
        assert(ds.push(d).drop_first() =~= Seq::<DirectiveView>::empty());
        assert(spec_render_file(Seq::<DirectiveView>::empty()) == Seq::<char>::empty());
        assert(ds.push(d)[0] == d);
        assert(spec_render_file(ds.push(d)) == spec_render_line(d) + "\n"@ + Seq::<
            char,
        >::empty());
        assert(spec_render_file(ds.push(d)) =~= spec_render_line(d) + "\n"@);
        assert(spec_render_file(ds) + spec_render_line(d) + "\n"@ =~= spec_render_line(d)
            + "\n"@);
    } else {
        assert(ds.push(d).drop_first() =~= ds.drop_first().push(d));
        lemma_spec_render_file_push(ds.drop_first(), d);
        assert(spec_render_file(ds.push(d)) =~= spec_render_file(ds) + spec_render_line(d)
            + "\n"@);
    }
}

/// Appends `text` to `s`.
fn push_str(s: &mut String, text: &String)
    ensures
        final(s)@ == old(s)@ + text@,
{
    s.append(text.as_str());
}

/// Builds the joined text of `ENV` assignments.
fn render_env_vars(vars: &Vec<EnvVar>) -> (r: String)
    ensures
        r@ == spec_join(
            env_var_views(vars@).map_values(|v: EnvVarView| spec_render_env_var(v)),
            " "@,
        ),
{
    let ghost parts = env_var_views(vars@).map_values(|v: EnvVarView| spec_render_env_var(v));
    let mut r = String::new();
    let mut i: usize = 0;
    while i < vars.len()
        invariant
            i <= vars.len(),
            parts == env_var_views(vars@).map_values(|v: EnvVarView| spec_render_env_var(v)),
            parts.len() == vars@.len(),
            r@ == spec_join(parts.subrange(0, i as int), " "@),
        decreases vars.len() - i,
    {
        proof {
            assert(parts.subrange(0, i + 1) =~= parts.subrange(0, i as int).push(parts[i as int]));
            lemma_spec_join_push(parts.subrange(0, i as int), " "@, parts[i as int]);
            assert(env_var_views(vars@)[i as int] == vars@[i as int]@);
            assert(parts[i as int] == spec_render_env_var(vars@[i as int]@));
        }
        if i > 0 {
            r.append(" ");
        }
        push_str(&mut r, &vars[i].key);
        match vars[i].delim {
            Delimiter::Eq => r.append("="),
            Delimiter::Space => r.append(" "),
        }
        push_str(&mut r, &vars[i].val);
        i = i + 1;
    }
    proof {
        assert(parts.subrange(0, vars@.len() as int) =~= parts);
    }
    r
}

/// Builds the argument text of an `ENTRYPOINT` or `CMD`.
fn render_command(mode: &Option<Mode>, tokens: &Vec<String>) -> (r: String)
    ensures
        r@ == spec_render_command(*mode, token_views(tokens@)),
{
    let ghost tvs = token_views(tokens@);
    let exec_mode = match mode {
        Some(Mode::Exec) => true,
        _ => false,
    };
    let mut r = String::new();
    if exec_mode {
        let ghost parts = tvs.map_values(|t: Seq<char>| spec_quote(t));
        r.append("[");
        let mut i: usize = 0;
        while i < tokens.len()
            invariant
                i <= tokens.len(),
                parts == tvs.map_values(|t: Seq<char>| spec_quote(t)),
                tvs == token_views(tokens@),
                parts.len() == tokens@.len(),
                r@ == "["@ + spec_join(parts.subrange(0, i as int), ", "@),
            decreases tokens.len() - i,
        {
            proof {
                assert(parts.subrange(0, i + 1) =~= parts.subrange(0, i as int).push(
                    parts[i as int],
                ));
                lemma_spec_join_push(parts.subrange(0, i as int), ", "@, parts[i as int]);
                assert(tvs[i as int] == tokens@[i as int]@);
                assert(parts[i as int] == spec_quote(tokens@[i as int]@));
            }
            if i > 0 {
                r.append(", ");
            }
            r.append("\"");
            push_str(&mut r, &tokens[i]);
            r.append("\"");
            i = i + 1;
        }
        r.append("]");
        proof {
            assert(parts.subrange(0, tokens@.len() as int) =~= parts);
        }
    } else {
        let mut i: usize = 0;
        while i < tokens.len()
            invariant
                i <= tokens.len(),
                tvs == token_views(tokens@),
                tvs.len() == tokens@.len(),
                r@ == spec_join(tvs.subrange(0, i as int), " "@),
            decreases tokens.len() - i,
        {
            proof {
                assert(tvs.subrange(0, i + 1) =~= tvs.subrange(0, i as int).push(tvs[i as int]));
                lemma_spec_join_push(tvs.subrange(0, i as int), " "@, tvs[i as int]);
                assert(tvs[i as int] == tokens@[i as int]@);
            }
            if i > 0 {
                r.append(" ");
            }
            push_str(&mut r, &tokens[i]);
            i = i + 1;
        }
        proof {
            assert(tvs.subrange(0, tokens@.len() as int) =~= tvs);
        }
    }
    r
}

impl Directive {
    /// The directive as one Dockerfile line, `KEYWORD ARGS`, reconstructing
    /// the original textual form.
    pub fn render(&self) -> (r: String)
        ensures
            r@ == spec_render_line(self@),
    {
        let mut r = String::new();
        match self {
            Self::Add { .. } => r.append("ADD"),
            Self::Comment(_) => r.append("#"),
            Self::Entrypoint { .. } => r.append("ENTRYPOINT"),
            Self::Cmd { .. } => r.append("CMD"),
            Self::Expose { .. } => r.append("EXPOSE"),
            Self::Run(_) => r.append("RUN"),
            Self::User(_) => r.append("USER"),
            Self::Env { .. } => r.append("ENV"),
            Self::From { .. } => r.append("FROM"),
            Self::Other { directive, .. } => push_str(&mut r, directive),
        }
        r.append(" ");
        match self {
            Self::Add { source_url, destination_path } => {
                push_str(&mut r, source_url);
                r.append(" ");
                push_str(&mut r, destination_path);
            }
            Self::Comment(text) => push_str(&mut r, text),
            Self::Entrypoint { mode, tokens } => {
                let args = render_command(mode, tokens);
                push_str(&mut r, &args);
            }
            Self::Cmd { mode, tokens } => {
                let args = render_command(mode, tokens);
                push_str(&mut r, &args);
            }
            Self::Expose { port } => {
                match port {
                    Some(p) => push_dec(&mut r, *p),
                    None => {}
                }
            }
            Self::Run(text) => push_str(&mut r, text),
            Self::User(text) => push_str(&mut r, text),
            Self::Env { vars } => {
                let args = render_env_vars(vars);
                push_str(&mut r, &args);
            }
            Self::From { arguments } => push_str(&mut r, arguments),
            Self::Other { arguments, .. } => push_str(&mut r, arguments),
        }
        proof {
            if self@ is Expose && self@->Expose_port is None {
                assert(r@ =~= spec_render_line(self@));
            }
        }
        r
    }
}

/// The whole processed Dockerfile as text, one directive per line, each line
/// terminated by a newline.
pub fn render_dockerfile(directives: &Vec<Directive>) -> (r: String)
    ensures
        r@ == spec_render_file(directive_views(directives@)),
{
    let ghost dvs = directive_views(directives@);
    let mut r = String::new();
    let mut i: usize = 0;
    while i < directives.len()
        invariant
            i <= directives.len(),
            dvs == directive_views(directives@),
            dvs.len() == directives@.len(),
            r@ == spec_render_file(dvs.subrange(0, i as int)),
        decreases directives.len() - i,
    {
        proof {
            assert(dvs.subrange(0, i + 1) =~= dvs.subrange(0, i as int).push(dvs[i as int]));
            lemma_spec_render_file_push(dvs.subrange(0, i as int), dvs[i as int]);
            assert(dvs[i as int] == directives@[i as int]@);
        }
        let line = directives[i].render();
        push_str(&mut r, &line);
        r.append("\n");
        i = i + 1;
    }
    proof {
        assert(dvs.subrange(0, directives@.len() as int) =~= dvs);
    }
    r
}

} // verus!
