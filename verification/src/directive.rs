//! The directive model: the tagged variants of the Dockerfile instructions the
//! build pipeline understands, together with their mathematical views.

use vstd::prelude::*;

verus! {

/// How an `ENV` assignment was written: `KEY=VALUE` (`Eq`) or the legacy
/// space-separated `KEY VALUE` form (`None`).
#[derive(Clone, Copy, Debug, PartialEq, Eq, Structural)]
pub enum Delimiter {
    Eq,
    Space,
}

/// The argument form of an `ENTRYPOINT` or `CMD` directive: `Exec` for the
/// bracketed list form, `Shell` for free text.
#[derive(Clone, Copy, Debug, PartialEq, Eq, Structural)]
pub enum Mode {
    Exec,
    Shell,
}

impl Mode {
    pub fn is_shell(&self) -> (r: bool)
        ensures
            r == (*self is Shell),
    {
        matches!(self, Self::Shell)
    }

    pub fn is_exec(&self) -> (r: bool)
        ensures
            r == (*self is Exec),
    {
        matches!(self, Self::Exec)
    }

    /// The first argument character decides the mode: `[` begins the exec
    /// (bracketed list) form, anything else the shell form.
    pub fn from_char(c: char) -> (r: Self)
        ensures
            r == spec_mode_of_char(c),
    {
        if c == '[' {
            Self::Exec
        } else {
            Self::Shell
        }
    }
}

pub open spec fn spec_mode_of_char(c: char) -> Mode {
    if c == '[' {
        Mode::Exec
    } else {
        Mode::Shell
    }
}

/// One `ENV` assignment.
#[derive(Debug)]
pub struct EnvVar {
    pub key: String,
    pub val: String,
    pub delim: Delimiter,
}

/// Mathematical value of an `EnvVar`: the key and value as character
/// sequences, with the delimiter that was used.
pub struct EnvVarView {
    pub key: Seq<char>,
    pub val: Seq<char>,
    pub delim: Delimiter,
}

impl View for EnvVar {
    type V = EnvVarView;

    open spec fn view(&self) -> EnvVarView {
        EnvVarView { key: self.key@, val: self.val@, delim: self.delim }
    }
}

impl Clone for EnvVar {
    fn clone(&self) -> (r: Self)
        ensures
            r@ == self@,
    {
        EnvVar { key: self.key.clone(), val: self.val.clone(), delim: self.delim }
    }
}

/// One logical Dockerfile line, after parsing.
#[derive(Debug)]
pub enum Directive {
    Add { source_url: String, destination_path: String },
    Comment(String),
    Entrypoint { mode: Option<Mode>, tokens: Vec<String> },
    Cmd { mode: Option<Mode>, tokens: Vec<String> },
    Expose { port: Option<u16> },
    Run(String),
    User(String),
    Env { vars: Vec<EnvVar> },
    From { arguments: String },
    Other { directive: String, arguments: String },
}

/// Mathematical value of a `Directive`, with every piece of text as a
/// character sequence.
pub enum DirectiveView {
    Add { source_url: Seq<char>, destination_path: Seq<char> },
    Comment(Seq<char>),
    Entrypoint { mode: Option<Mode>, tokens: Seq<Seq<char>> },
    Cmd { mode: Option<Mode>, tokens: Seq<Seq<char>> },
    Expose { port: Option<u16> },
    Run(Seq<char>),
    User(Seq<char>),
    Env { vars: Seq<EnvVarView> },
    From { arguments: Seq<char> },
    Other { directive: Seq<char>, arguments: Seq<char> },
}

/// The views of a sequence of string tokens.
pub open spec fn token_views(tokens: Seq<String>) -> Seq<Seq<char>> {
    tokens.map_values(|t: String| t@)
}

/// The views of a sequence of `ENV` assignments.
pub open spec fn env_var_views(vars: Seq<EnvVar>) -> Seq<EnvVarView> {
    vars.map_values(|v: EnvVar| v@)
}

impl View for Directive {
    type V = DirectiveView;

    open spec fn view(&self) -> DirectiveView {
        match self {
            Directive::Add { source_url, destination_path } => DirectiveView::Add {
                source_url: source_url@,
                destination_path: destination_path@,
            },
            Directive::Comment(text) => DirectiveView::Comment(text@),
            Directive::Entrypoint { mode, tokens } => DirectiveView::Entrypoint {
                mode: *mode,
                tokens: token_views(tokens@),
            },
            Directive::Cmd { mode, tokens } => DirectiveView::Cmd {
                mode: *mode,
                tokens: token_views(tokens@),
            },
            Directive::Expose { port } => DirectiveView::Expose { port: *port },
            Directive::Run(text) => DirectiveView::Run(text@),
            Directive::User(text) => DirectiveView::User(text@),
            Directive::Env { vars } => DirectiveView::Env { vars: env_var_views(vars@) },
            Directive::From { arguments } => DirectiveView::From { arguments: arguments@ },
            Directive::Other { directive, arguments } => DirectiveView::Other {
                directive: directive@,
                arguments: arguments@,
            },
        }
    }
}

/// The views of a sequence of directives.
pub open spec fn directive_views(ds: Seq<Directive>) -> Seq<DirectiveView> {
    ds.map_values(|d: Directive| d@)
}

impl Directive {
    pub fn is_cmd(&self) -> (r: bool)
        ensures
            r == (self@ is Cmd),
    {
        matches!(self, Self::Cmd { .. })
    }

    pub fn is_entrypoint(&self) -> (r: bool)
        ensures
            r == (self@ is Entrypoint),
    {
        matches!(self, Self::Entrypoint { .. })
    }

    pub fn is_expose(&self) -> (r: bool)
        ensures
            r == (self@ is Expose),
    {
        matches!(self, Self::Expose { .. })
    }

    pub fn is_run(&self) -> (r: bool)
        ensures
            r == (self@ is Run),
    {
        matches!(self, Self::Run(_))
    }

    pub fn is_user(&self) -> (r: bool)
        ensures
            r == (self@ is User),
    {
        matches!(self, Self::User(_))
    }

    pub fn is_env(&self) -> (r: bool)
        ensures
            r == (self@ is Env),
    {
        matches!(self, Self::Env { .. })
    }

    pub fn is_from(&self) -> (r: bool)
        ensures
            r == (self@ is From),
    {
        matches!(self, Self::From { .. })
    }

    /// Sets the argument form of an `ENTRYPOINT` or `CMD` directive.
    pub fn set_mode(&mut self, new_mode: Mode)
        requires
            old(self)@ is Entrypoint || old(self)@ is Cmd,
        ensures
            old(self)@ is Entrypoint ==> final(self)@ == (DirectiveView::Entrypoint {
                mode: Some(new_mode),
                tokens: old(self)@->Entrypoint_tokens,
            }),
            old(self)@ is Cmd ==> final(self)@ == (DirectiveView::Cmd {
                mode: Some(new_mode),
                tokens: old(self)@->Cmd_tokens,
            }),
    {
        match self {
            Self::Entrypoint { mode, .. } => {
                *mode = Some(new_mode);
            }
            Self::Cmd { mode, .. } => {
                *mode = Some(new_mode);
            }
            _ => {}
        }
    }

    /// The argument form of an `ENTRYPOINT` or `CMD` directive, if one has
    /// been determined; `None` for every other variant.
    pub fn mode(&self) -> (r: Option<&Mode>)
        ensures
            match r {
                Some(m) => spec_directive_mode(self@) == Some(*m),
                None => spec_directive_mode(self@) is None,
            },
    {
        match self {
            Self::Entrypoint { mode, .. } | Self::Cmd { mode, .. } => mode.as_ref(),
            _ => None,
        }
    }

    /// The argument tokens of an `ENTRYPOINT` or `CMD` directive; `None` for
    /// every other variant.
    pub fn tokens(&self) -> (r: Option<&Vec<String>>)
        ensures
            match r {
                Some(ts) => (self@ is Entrypoint && token_views(ts@) == self@->Entrypoint_tokens)
                    || (self@ is Cmd && token_views(ts@) == self@->Cmd_tokens),
                None => !(self@ is Entrypoint) && !(self@ is Cmd),
            },
    {
        match self {
            Self::Entrypoint { tokens, .. } | Self::Cmd { tokens, .. } => Some(tokens),
            _ => None,
        }
    }

    pub fn new_entrypoint(mode: Mode, tokens: Vec<String>) -> (r: Self)
        ensures
            r@ == (DirectiveView::Entrypoint { mode: Some(mode), tokens: token_views(tokens@) }),
    {
        Self::Entrypoint { mode: Some(mode), tokens }
    }

    pub fn new_cmd(mode: Mode, tokens: Vec<String>) -> (r: Self)
        ensures
            r@ == (DirectiveView::Cmd { mode: Some(mode), tokens: token_views(tokens@) }),
    {
        Self::Cmd { mode: Some(mode), tokens }
    }

    pub fn new_run(arguments: String) -> (r: Self)
        ensures
            r@ == DirectiveView::Run(arguments@),
    {
        Self::Run(arguments)
    }

    pub fn new_from(key: String) -> (r: Self)
        ensures
            r@ == (DirectiveView::From { arguments: key@ }),
    {
        Self::From { arguments: key }
    }

    pub fn new_copy(key: String) -> (r: Self)
        ensures
            r@ == (DirectiveView::Other { directive: "COPY"@, arguments: key@ }),
    {
        Self::Other { directive: String::from_str("COPY"), arguments: key }
    }

    pub fn new_add(source_url: String, destination_path: String) -> (r: Self)
        ensures
            r@ == (DirectiveView::Add {
                source_url: source_url@,
                destination_path: destination_path@,
            }),
    {
        Self::Add { source_url, destination_path }
    }

    pub fn new_user(user: String) -> (r: Self)
        ensures
            r@ == DirectiveView::User(user@),
    {
        Self::User(user)
    }

    pub fn new_env(vars: Vec<EnvVar>) -> (r: Self)
        ensures
            r@ == (DirectiveView::Env { vars: env_var_views(vars@) }),
    {
        Self::Env { vars }
    }
}

/// The mode carried by an `ENTRYPOINT` or `CMD` view.
pub open spec fn spec_directive_mode(d: DirectiveView) -> Option<Mode> {
    match d {
        DirectiveView::Entrypoint { mode, .. } => mode,
        DirectiveView::Cmd { mode, .. } => mode,
        _ => Option::None,
    }
}

impl Clone for Directive {
    fn clone(&self) -> (r: Self)
        ensures
            r@ == self@,
    {
        match self {
            Self::Add { source_url, destination_path } => Self::Add {
                source_url: source_url.clone(),
                destination_path: destination_path.clone(),
            },
            Self::Comment(text) => Self::Comment(text.clone()),
            Self::Entrypoint { mode, tokens } => {
                let r = Self::Entrypoint { mode: *mode, tokens: clone_strings(tokens) };
                assert(r@ == self@);
                r
            }
            Self::Cmd { mode, tokens } => {
                let r = Self::Cmd { mode: *mode, tokens: clone_strings(tokens) };
                assert(r@ == self@);
                r
            }
            Self::Expose { port } => Self::Expose { port: *port },
            Self::Run(text) => Self::Run(text.clone()),
            Self::User(text) => Self::User(text.clone()),
            Self::Env { vars } => {
                let r = Self::Env { vars: clone_env_vars(vars) };
                assert(r@ == self@);
                r
            }
            Self::From { arguments } => Self::From { arguments: arguments.clone() },
            Self::Other { directive, arguments } => Self::Other {
                directive: directive.clone(),
                arguments: arguments.clone(),
            },
        }
    }
}

/// Clones a token list, keeping each token's text.
fn clone_strings(tokens: &Vec<String>) -> (r: Vec<String>)
    ensures
        token_views(r@) == token_views(tokens@),
{
    let mut r: Vec<String> = Vec::new();
    let mut i: usize = 0;
    while i < tokens.len()
        invariant
            i <= tokens.len(),
            r@.len() == i,
            forall|j: int| 0 <= j < i ==> r@[j]@ == tokens@[j]@,
        decreases tokens.len() - i,
    {
        r.push(tokens[i].clone());
        i = i + 1;
    }
    proof {
        assert forall|j: int| 0 <= j < r@.len() implies token_views(r@)[j] == token_views(
            tokens@,
        )[j] by {
            assert(token_views(r@)[j] == r@[j]@);
            assert(token_views(tokens@)[j] == tokens@[j]@);
        }
        assert(token_views(r@) =~= token_views(tokens@));
    }
    r
}

/// Clones a list of `ENV` assignments, keeping each one's value.
fn clone_env_vars(vars: &Vec<EnvVar>) -> (r: Vec<EnvVar>)
    ensures
        env_var_views(r@) == env_var_views(vars@),
{
    let mut r: Vec<EnvVar> = Vec::new();
    let mut i: usize = 0;
    while i < vars.len()
        invariant
            i <= vars.len(),
            r@.len() == i,
            forall|j: int| 0 <= j < i ==> r@[j]@ == vars@[j]@,
        decreases vars.len() - i,
    {
        r.push(vars[i].clone());
        i = i + 1;
    }
    proof {
        assert forall|j: int| 0 <= j < r@.len() implies env_var_views(r@)[j] == env_var_views(
            vars@,
        )[j] by {
            assert(env_var_views(r@)[j] == r@[j]@);
            assert(env_var_views(vars@)[j] == vars@[j]@);
        }
        assert(env_var_views(r@) =~= env_var_views(vars@));
    }
    r
}

} // verus!
