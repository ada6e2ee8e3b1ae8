//! The streaming Dockerfile decoder: a character-level state machine that
//! turns Dockerfile text into directives, one per logical line, joining
//! continuations and keeping embedded comments.

use vstd::prelude::*;

use crate::directive::{Directive, DirectiveView, Mode, spec_directive_mode, spec_mode_of_char};
use crate::parse::{
    DecodeError, directive_of_keyword, spec_directive_of_keyword, spec_set_arguments,
};
use crate::text::{is_alpha, is_ascii_char, is_ws, spec_is_alpha, spec_is_ascii, spec_is_ws};

verus! {

/// What an unescaped newline means while arguments accumulate.
#[derive(Clone, Copy, Debug, PartialEq, Eq, Structural)]
pub enum NewLineBehaviour {
    /// The previous character was a backslash: the next newline continues
    /// the line.
    Escaped,
    /// An embedded comment is being read: the next newline ends the comment,
    /// not the directive.
    IgnoreLine,
    /// A newline ends the directive.
    Observe,
}

impl NewLineBehaviour {
    pub fn is_escaped(&self) -> (r: bool)
        ensures
            r == (*self is Escaped),
    {
        matches!(self, Self::Escaped)
    }

    pub fn is_observe(&self) -> (r: bool)
        ensures
            r == (*self is Observe),
    {
        matches!(self, Self::Observe)
    }
}

/// A quote character that can open or close a string.
#[derive(Clone, Copy, Debug, PartialEq, Eq, Structural)]
pub enum StringToken {
    SingleQuote,
    DoubleQuote,
}

/// The quote character as a string token, for `'` and `"` only.
pub open spec fn spec_string_token_of(c: char) -> StringToken {
    if c == '\'' {
        StringToken::SingleQuote
    } else {
        StringToken::DoubleQuote
    }
}

/// A tiny stack tracking whether the decoder is inside a string, so that a
/// `#` inside quotes is not taken for a comment.
#[derive(Debug)]
pub struct StringStack {
    inner: Vec<StringToken>,
}

impl View for StringStack {
    type V = Seq<StringToken>;

    closed spec fn view(&self) -> Seq<StringToken> {
        self.inner@
    }
}

impl StringStack {
    pub fn new() -> (r: Self)
        ensures
            r@ == Seq::<StringToken>::empty(),
    {
        Self { inner: Vec::new() }
    }

    pub fn is_empty(&self) -> (r: bool)
        ensures
            r == (self@.len() == 0),
    {
        self.inner.len() == 0
    }

    pub fn peek_top(&self) -> (r: Option<StringToken>)
        ensures
            match r {
                Some(t) => self@.len() > 0 && t == self@.last(),
                None => self@.len() == 0,
            },
    {
        if self.inner.len() > 0 {
            Some(self.inner[self.inner.len() - 1])
        } else {
            None
        }
    }

    pub fn pop(&mut self) -> (r: Option<StringToken>)
        ensures
            match r {
                Some(t) => old(self)@.len() > 0 && t == old(self)@.last() && final(self)@ == old(
                    self,
                )@.drop_last(),
                None => old(self)@.len() == 0 && final(self)@ == old(self)@,
            },
    {
        self.inner.pop()
    }

    pub fn push(&mut self, token: StringToken)
        ensures
            final(self)@ == old(self)@.push(token),
    {
        self.inner.push(token);
    }
}

/// The decoder's state between characters.
#[derive(Debug)]
pub enum DecoderState {
    /// Accumulating an instruction keyword.
    Directive(Vec<char>),
    /// Accumulating a directive's argument text.
    DirectiveArguments {
        directive: Directive,
        arguments: Option<Vec<char>>,
        new_line_behaviour: NewLineBehaviour,
        string_stack: StringStack,
    },
    /// Accumulating a whole-line comment.
    Comment(Vec<char>),
    /// Skipping whitespace before the next line.
    Whitespace,
}

/// Mathematical value of a decoder state.
pub enum DecoderStateView {
    Directive(Seq<char>),
    DirectiveArguments {
        directive: DirectiveView,
        arguments: Option<Seq<char>>,
        new_line_behaviour: NewLineBehaviour,
        string_stack: Seq<StringToken>,
    },
    Comment(Seq<char>),
    Whitespace,
}

impl View for DecoderState {
    type V = DecoderStateView;

    open spec fn view(&self) -> DecoderStateView {
        match self {
            DecoderState::Directive(buf) => DecoderStateView::Directive(buf@),
            DecoderState::DirectiveArguments {
                directive,
                arguments,
                new_line_behaviour,
                string_stack,
            } => DecoderStateView::DirectiveArguments {
                directive: directive@,
                arguments: match arguments {
                    Some(a) => Some(a@),
                    None => None,
                },
                new_line_behaviour: *new_line_behaviour,
                string_stack: string_stack@,
            },
            DecoderState::Comment(buf) => DecoderStateView::Comment(buf@),
            DecoderState::Whitespace => DecoderStateView::Whitespace,
        }
    }
}

/// The value of an optional state; `None` stands between lines.
pub open spec fn opt_state_view(st: &Option<DecoderState>) -> Option<DecoderStateView> {
    match st {
        Some(s) => Some(s@),
        None => None,
    }
}

/// An `ENTRYPOINT` or `CMD` that already holds argument text also carries
/// its mode; every reachable decoder state satisfies this.
pub open spec fn spec_state_wf(st: Option<DecoderStateView>) -> bool {
    match st {
        Some(DecoderStateView::DirectiveArguments { directive, arguments, .. }) => arguments
            is Some ==> ((directive is Entrypoint ==> spec_directive_mode(directive) is Some)
            && (directive is Cmd ==> spec_directive_mode(directive) is Some)),
        _ => true,
    }
}

/// What one character does to the decoder.
pub enum StepRes {
    /// The machine moves on without finishing a directive.
    Next(Option<DecoderStateView>),
    /// An unescaped newline finished this directive.
    Emit(DirectiveView),
    /// The character is not allowed here.
    Fail(DecodeError),
}

/// The state a new line's first character begins: whitespace is skipped, a
/// letter begins a keyword, `#` begins a comment, and anything else is
/// refused.
pub open spec fn spec_begin_line(c: char) -> StepRes {
    if spec_is_ws(c) {
        StepRes::Next(Some(DecoderStateView::Whitespace))
    } else if spec_is_alpha(c) {
        StepRes::Next(Some(DecoderStateView::Directive(Seq::empty().push(c))))
    } else if c == '#' {
        StepRes::Next(Some(DecoderStateView::Comment(Seq::empty())))
    } else {
        StepRes::Fail(DecodeError::UnexpectedToken)
    }
}

/// The directive with its mode set from the first argument character, for
/// `ENTRYPOINT` and `CMD`; other directives are unchanged.
pub open spec fn spec_with_mode(d: DirectiveView, c: char) -> DirectiveView {
    match d {
        DirectiveView::Entrypoint { tokens, .. } => DirectiveView::Entrypoint {
            mode: Some(spec_mode_of_char(c)),
            tokens,
        },
        DirectiveView::Cmd { tokens, .. } => DirectiveView::Cmd {
            mode: Some(spec_mode_of_char(c)),
            tokens,
        },
        _ => d,
    }
}

/// The argument text ends with a continuation: a backslash followed by the
/// newline it escaped.
pub open spec fn spec_ends_continued(args: Option<Seq<char>>) -> bool {
    match args {
        Some(a) => a.len() >= 2 && a[a.len() - 2] == '\\' && a[a.len() - 1] == '\n',
        None => false,
    }
}

/// The string stack after a quote character: a quote matching the top of
/// the stack closes that string, any other quote opens one.
pub open spec fn spec_stack_after(stack: Seq<StringToken>, t: StringToken) -> Seq<StringToken> {
    if stack.len() > 0 && stack.last() == t {
        stack.drop_last()
    } else {
        stack.push(t)
    }
}

/// One step of the decoder on one character.
pub open spec fn spec_step(st: Option<DecoderStateView>, c: char) -> StepRes {
    match st {
        None => spec_begin_line(c),
        Some(DecoderStateView::Whitespace) => spec_begin_line(c),
        Some(DecoderStateView::Comment(buf)) => if c == '\n' {
            StepRes::Emit(DirectiveView::Comment(buf))
        } else {
            StepRes::Next(Some(DecoderStateView::Comment(buf.push(c))))
        },
        Some(DecoderStateView::Directive(buf)) => if c == ' ' {
            StepRes::Next(
                Some(
                    DecoderStateView::DirectiveArguments {
                        directive: spec_directive_of_keyword(buf),
                        arguments: None,
                        new_line_behaviour: NewLineBehaviour::Observe,
                        string_stack: Seq::empty(),
                    },
                ),
            )
        } else if spec_is_ascii(c) {
            StepRes::Next(Some(DecoderStateView::Directive(buf.push(c))))
        } else {
            StepRes::Fail(DecodeError::UnexpectedToken)
        },
        Some(
            DecoderStateView::DirectiveArguments {
                directive,
                arguments,
                new_line_behaviour,
                string_stack,
            },
        ) => {
            if (c == '\n' || c == '\\') && arguments is None {
                StepRes::Fail(DecodeError::UnexpectedToken)
            } else if c == '\n' && !(new_line_behaviour is Observe) {
                StepRes::Next(
                    Some(
                        DecoderStateView::DirectiveArguments {
                            directive,
                            arguments: Some(arguments.unwrap().push(c)),
                            new_line_behaviour: NewLineBehaviour::Escaped,
                            string_stack,
                        },
                    ),
                )
            } else if c == '\n' {
                match spec_set_arguments(directive, arguments.unwrap()) {
                    Ok(d) => StepRes::Emit(d),
                    Err(e) => StepRes::Fail(e),
                }
            } else if c == '\\' {
                StepRes::Next(
                    Some(
                        DecoderStateView::DirectiveArguments {
                            directive,
                            arguments: Some(arguments.unwrap().push(c)),
                            new_line_behaviour: match new_line_behaviour {
                                NewLineBehaviour::Observe => NewLineBehaviour::Escaped,
                                NewLineBehaviour::Escaped => NewLineBehaviour::Observe,
                                NewLineBehaviour::IgnoreLine => NewLineBehaviour::IgnoreLine,
                            },
                            string_stack,
                        },
                    ),
                )
            } else if c == ' ' && arguments is None {
                StepRes::Next(
                    Some(
                        DecoderStateView::DirectiveArguments {
                            directive,
                            arguments,
                            new_line_behaviour,
                            string_stack,
                        },
                    ),
                )
            } else if c == '#' {
                StepRes::Next(
                    Some(
                        DecoderStateView::DirectiveArguments {
                            directive: if arguments is None {
                                spec_with_mode(directive, c)
                            } else {
                                directive
                            },
                            arguments: Some(
                                match arguments {
                                    Some(a) => a.push(c),
                                    None => Seq::empty().push(c),
                                },
                            ),
                            new_line_behaviour: if string_stack.len() == 0 {
                                if spec_ends_continued(arguments) {
                                    NewLineBehaviour::IgnoreLine
                                } else {
                                    NewLineBehaviour::Observe
                                }
                            } else {
                                new_line_behaviour
                            },
                            string_stack,
                        },
                    ),
                )
            } else {
                StepRes::Next(
                    Some(
                        DecoderStateView::DirectiveArguments {
                            directive: if arguments is None {
                                spec_with_mode(directive, c)
                            } else {
                                directive
                            },
                            arguments: Some(
                                match arguments {
                                    Some(a) => a.push(c),
                                    None => Seq::empty().push(c),
                                },
                            ),
                            new_line_behaviour: if new_line_behaviour is Escaped {
                                NewLineBehaviour::Observe
                            } else {
                                new_line_behaviour
                            },
                            string_stack: if c == '\'' || c == '"' {
                                spec_stack_after(string_stack, spec_string_token_of(c))
                            } else {
                                string_stack
                            },
                        },
                    ),
                )
            }
        },
    }
}

/// The outcome of one executable step agrees with `spec_step`.
pub open spec fn spec_step_agrees(
    st: Option<DecoderStateView>,
    c: char,
    r: &Result<(Option<DecoderState>, Option<Directive>), DecodeError>,
) -> bool {
    match r {
        Ok(next) => match spec_step(st, c) {
            StepRes::Next(sv) => opt_state_view(&next.0) == sv && next.1 is None
                && spec_state_wf(sv),
            StepRes::Emit(d) => next.0 is None && match &next.1 {
                Some(dd) => dd@ == d,
                None => false,
            },
            StepRes::Fail(_) => false,
        },
        Err(e) => spec_step(st, c) == StepRes::Fail(*e),
    }
}

/// Runs one character through the decoder.
fn step_state(state: Option<DecoderState>, Ghost(sv): Ghost<Option<DecoderStateView>>, c: char) -> (r: Result<
    (Option<DecoderState>, Option<Directive>),
    DecodeError,
>)
    requires
        spec_state_wf(sv),
        sv == opt_state_view(&state),
    ensures
        spec_step_agrees(sv, c, &r),
{
    match state {
        None => begin_line(c),
        Some(DecoderState::Whitespace) => begin_line(c),
        Some(DecoderState::Comment(mut buf)) => {
            if c == '\n' {
                let text = crate::text::chars_to_string(&buf);
                Ok((None, Some(Directive::Comment(text))))
            } else {
                buf.push(c);
                Ok((Some(DecoderState::Comment(buf)), None))
            }
        }
        Some(DecoderState::Directive(mut buf)) => {
            if c == ' ' {
                let directive = directive_of_keyword(&buf);
                let next = DecoderState::DirectiveArguments {
                    directive,
                    arguments: None,
                    new_line_behaviour: NewLineBehaviour::Observe,
                    string_stack: StringStack::new(),
                };
                Ok((Some(next), None))
            } else if is_ascii_char(c) {
                buf.push(c);
                Ok((Some(DecoderState::Directive(buf)), None))
            } else {
                Err(DecodeError::UnexpectedToken)
            }
        }
        Some(
            DecoderState::DirectiveArguments {
                mut directive,
                arguments,
                new_line_behaviour,
                mut string_stack,
            },
        ) => {
            match arguments {
                None => {
                    if c == '\n' || c == '\\' {
                        return Err(DecodeError::UnexpectedToken);
                    }
                    if c == ' ' {
                        let next = DecoderState::DirectiveArguments {
                            directive,
                            arguments: None,
                            new_line_behaviour,
                            string_stack,
                        };
                        return Ok((Some(next), None));
                    }
                    // first argument character: it fixes the mode of an
                    // `ENTRYPOINT` or `CMD`
                    if directive.is_cmd() || directive.is_entrypoint() {
                        directive.set_mode(Mode::from_char(c));
                    }
                    let mut args: Vec<char> = Vec::new();
                    args.push(c);
                    let nl = if c == '#' {
                        // no text precedes, so `#` here cannot continue an
                        // embedded comment
                        if string_stack.is_empty() {
                            NewLineBehaviour::Observe
                        } else {
                            new_line_behaviour
                        }
                    } else {
                        let nl0 = if new_line_behaviour.is_escaped() {
                            NewLineBehaviour::Observe
                        } else {
                            new_line_behaviour
                        };
                        if c == '\'' || c == '"' {
                            let token = if c == '\'' {
                                StringToken::SingleQuote
                            } else {
                                StringToken::DoubleQuote
                            };
                            let top_matches = match string_stack.peek_top() {
                                Some(t) => t == token,
                                None => false,
                            };
                            if top_matches {
                                string_stack.pop();
                            } else {
                                string_stack.push(token);
                            }
                        }
                        nl0
                    };
                    let next = DecoderState::DirectiveArguments {
                        directive,
                        arguments: Some(args),
                        new_line_behaviour: nl,
                        string_stack,
                    };
                    Ok((Some(next), None))
                }
                Some(mut args) => {
                    if c == '\n' && !new_line_behaviour.is_observe() {
                        args.push(c);
                        let next = DecoderState::DirectiveArguments {
                            directive,
                            arguments: Some(args),
                            new_line_behaviour: NewLineBehaviour::Escaped,
                            string_stack,
                        };
                        Ok((Some(next), None))
                    } else if c == '\n' {
                        match directive.set_arguments(args) {
                            Ok(_) => Ok((None, Some(directive))),
                            Err(e) => Err(e),
                        }
                    } else if c == '\\' {
                        args.push(c);
                        let nl = match new_line_behaviour {
                            NewLineBehaviour::Observe => NewLineBehaviour::Escaped,
                            NewLineBehaviour::Escaped => NewLineBehaviour::Observe,
                            NewLineBehaviour::IgnoreLine => NewLineBehaviour::IgnoreLine,
                        };
                        let next = DecoderState::DirectiveArguments {
                            directive,
                            arguments: Some(args),
                            new_line_behaviour: nl,
                            string_stack,
                        };
                        Ok((Some(next), None))
                    } else if c == '#' {
                        let nl = if string_stack.is_empty() {
                            let continued = args.len() >= 2 && args[args.len() - 2] == '\\'
                                && args[args.len() - 1] == '\n';
                            if continued {
                                NewLineBehaviour::IgnoreLine
                            } else {
                                NewLineBehaviour::Observe
                            }
                        } else {
                            new_line_behaviour
                        };
                        args.push(c);
                        let next = DecoderState::DirectiveArguments {
                            directive,
                            arguments: Some(args),
                            new_line_behaviour: nl,
                            string_stack,
                        };
                        Ok((Some(next), None))
                    } else {
                        args.push(c);
                        let nl = if new_line_behaviour.is_escaped() {
                            NewLineBehaviour::Observe
                        } else {
                            new_line_behaviour
                        };
                        if c == '\'' || c == '"' {
                            let token = if c == '\'' {
                                StringToken::SingleQuote
                            } else {
                                StringToken::DoubleQuote
                            };
                            let top_matches = match string_stack.peek_top() {
                                Some(t) => t == token,
                                None => false,
                            };
                            if top_matches {
                                string_stack.pop();
                            } else {
                                string_stack.push(token);
                            }
                        }
                        let next = DecoderState::DirectiveArguments {
                            directive,
                            arguments: Some(args),
                            new_line_behaviour: nl,
                            string_stack,
                        };
                        Ok((Some(next), None))
                    }
                }
            }
        }
    }
}

/// Begins a new line from its first character.
fn begin_line(c: char) -> (r: Result<(Option<DecoderState>, Option<Directive>), DecodeError>)
    ensures
        match r {
            Ok(next) => match spec_begin_line(c) {
                StepRes::Next(sv) => opt_state_view(&next.0) == sv && next.1 is None
                    && spec_state_wf(sv),
                StepRes::Emit(_) => false,
                StepRes::Fail(_) => false,
            },
            Err(e) => spec_begin_line(c) == StepRes::Fail(e),
        },
{
    if is_ws(c) {
        Ok((Some(DecoderState::Whitespace), None))
    } else if is_alpha(c) {
        let mut buf: Vec<char> = Vec::new();
        buf.push(c);
        proof {
            assert(buf@ =~= Seq::<char>::empty().push(c));
        }
        Ok((Some(DecoderState::Directive(buf)), None))
    } else if c == '#' {
        let buf: Vec<char> = Vec::new();
        proof {
            assert(buf@ =~= Seq::<char>::empty());
        }
        Ok((Some(DecoderState::Comment(buf)), None))
    } else {
        Err(DecodeError::UnexpectedToken)
    }
}


/// What flushing at end of input yields: a pending comment or directive with
/// arguments is finished, a bare keyword or a directive still without
/// arguments is incomplete, and a clean state yields nothing.
pub open spec fn spec_flush(st: Option<DecoderStateView>) -> Result<
    Option<DirectiveView>,
    DecodeError,
> {
    match st {
        None => Ok(None),
        Some(DecoderStateView::Whitespace) => Ok(None),
        Some(DecoderStateView::Comment(buf)) => Ok(Some(DirectiveView::Comment(buf))),
        Some(DecoderStateView::Directive(_)) => Err(DecodeError::IncompleteInstruction),
        Some(DecoderStateView::DirectiveArguments { directive, arguments, .. }) => match arguments {
            Some(a) => match spec_set_arguments(directive, a) {
                Ok(d) => Ok(Some(d)),
                Err(e) => Err(e),
            },
            None => Err(DecodeError::IncompleteInstruction),
        },
    }
}

/// The outcome of running the decoder over a text: the final state, the
/// directives emitted in source order, and the error that stopped it, if
/// one did.
pub struct DecodeRun {
    pub state: Option<DecoderStateView>,
    pub emitted: Seq<DirectiveView>,
    pub error: Option<DecodeError>,
}

/// Runs the decoder over a text, character by character.
pub open spec fn spec_run(st: Option<DecoderStateView>, s: Seq<char>) -> DecodeRun
    decreases s.len(),
{
    if s.len() == 0 {
        DecodeRun { state: st, emitted: Seq::empty(), error: None }
    } else {
        match spec_step(st, s[0]) {
            StepRes::Fail(e) => DecodeRun { state: st, emitted: Seq::empty(), error: Some(e) },
            StepRes::Next(st2) => spec_run(st2, s.drop_first()),
            StepRes::Emit(d) => {
                let rest = spec_run(None, s.drop_first());
                DecodeRun {
                    state: rest.state,
                    emitted: Seq::empty().push(d) + rest.emitted,
                    error: rest.error,
                }
            },
        }
    }
}

/// What decoding a whole text yields: the directives emitted in source
/// order, with end of input treated as the last directive's terminator, or
/// the first error.
pub open spec fn spec_decode(s: Seq<char>) -> Result<Seq<DirectiveView>, DecodeError> {
    match spec_run(None, s).error {
        Some(e) => Err(e),
        None => match spec_flush(spec_run(None, s).state) {
            Ok(Some(d)) => Ok(spec_run(None, s).emitted.push(d)),
            Ok(None) => Ok(spec_run(None, s).emitted),
            Err(e) => Err(e),
        },
    }
}

/// How one call of `decode` ends: the input ran out with the state saved,
/// one directive was finished with input left over, or the input was
/// refused.
pub enum OneOutcome {
    NeedMore(Option<DecoderStateView>),
    Got(DirectiveView, Seq<char>),
    Bad(DecodeError),
}

/// Runs the decoder until it finishes one directive, runs out of input, or
/// fails.
pub open spec fn spec_decode_one(st: Option<DecoderStateView>, s: Seq<char>) -> OneOutcome
    decreases s.len(),
{
    if s.len() == 0 {
        OneOutcome::NeedMore(st)
    } else {
        match spec_step(st, s[0]) {
            StepRes::Fail(e) => OneOutcome::Bad(e),
            StepRes::Next(st2) => spec_decode_one(st2, s.drop_first()),
            StepRes::Emit(d) => OneOutcome::Got(d, s.drop_first()),
        }
    }
}

/// A full run splits at the first finished directive: the directives of the
/// whole text are that directive followed by the directives of what is left.
pub proof fn lemma_run_decompose(st: Option<DecoderStateView>, s: Seq<char>)
    ensures
        match spec_decode_one(st, s) {
            OneOutcome::NeedMore(st2) => spec_run(st, s) == (DecodeRun {
                state: st2,
                emitted: Seq::empty(),
                error: None,
            }),
            OneOutcome::Got(d, rest) => rest.len() < s.len() && spec_run(st, s).state == spec_run(
                None,
                rest,
            ).state && spec_run(st, s).error == spec_run(None, rest).error && spec_run(
                st,
                s,
            ).emitted == Seq::empty().push(d) + spec_run(None, rest).emitted,
            OneOutcome::Bad(e) => spec_run(st, s).error == Some(e),
        },
    decreases s.len(),
{
    if s.len() == 0 {
    } else {
        match spec_step(st, s[0]) {
            StepRes::Fail(_) => {}
            StepRes::Next(st2) => {
                lemma_run_decompose(st2, s.drop_first());
            }
            StepRes::Emit(_) => {}
        }
    }
}

/// Running the decoder keeps its state well formed.
pub proof fn lemma_decode_one_wf(st: Option<DecoderStateView>, s: Seq<char>)
    requires
        spec_state_wf(st),
    ensures
        match spec_decode_one(st, s) {
            OneOutcome::NeedMore(st2) => spec_state_wf(st2),
            _ => true,
        },
    decreases s.len(),
{
    if s.len() == 0 {
    } else {
        match spec_step(st, s[0]) {
            StepRes::Fail(_) => {}
            StepRes::Next(st2) => {
                lemma_step_wf(st, s[0]);
                lemma_decode_one_wf(st2, s.drop_first());
            }
            StepRes::Emit(_) => {}
        }
    }
}

/// One step from a well-formed state reaches a well-formed state.
proof fn lemma_step_wf(st: Option<DecoderStateView>, c: char)
    requires
        spec_state_wf(st),
        spec_step(st, c) is Next,
    ensures
        spec_state_wf(spec_step(st, c)->Next_0),
{
}

/// A buffer of input text that the decoder consumes from the front.
#[derive(Debug)]
pub struct InputBuffer {
    chars: Vec<char>,
    pos: usize,
}

impl View for InputBuffer {
    type V = Seq<char>;

    closed spec fn view(&self) -> Seq<char> {
        if self.pos <= self.chars@.len() {
            self.chars@.skip(self.pos as int)
        } else {
            Seq::empty()
        }
    }
}

impl InputBuffer {
    /// A buffer holding the characters of the given text.
    pub fn from_str(s: &str) -> (r: Self)
        ensures
            r@ == s@,
    {
        let chars = crate::text::str_to_chars(s);
        let r = InputBuffer { chars, pos: 0 };
        proof {
            assert(r@ =~= s@);
        }
        r
    }

    /// Takes the next character, if any is left.
    fn read(&mut self) -> (r: Option<char>)
        ensures
            match r {
                Some(c) => old(self)@.len() > 0 && c == old(self)@[0] && final(self)@ == old(
                    self,
                )@.drop_first(),
                None => old(self)@.len() == 0 && final(self)@ == old(self)@,
            },
    {
        if self.pos < self.chars.len() {
            let c = self.chars[self.pos];
            self.pos = self.pos + 1;
            proof {
                assert(final(self)@ =~= old(self)@.drop_first());
            }
            Some(c)
        } else {
            None
        }
    }
}

/// The streaming Dockerfile decoder. It consumes characters from a buffer
/// and yields one directive per logical line; state between calls lets the
/// input arrive in chunks.
#[derive(Debug)]
pub struct DockerfileDecoder {
    current_state: Option<DecoderState>,
}

impl View for DockerfileDecoder {
    type V = Option<DecoderStateView>;

    closed spec fn view(&self) -> Option<DecoderStateView> {
        opt_state_view(&self.current_state)
    }
}

impl DockerfileDecoder {
    /// A decoder at the start of its input.
    pub fn new() -> (r: Self)
        ensures
            r@ is None,
            spec_state_wf(r@),
    {
        Self { current_state: None }
    }

    /// Decodes until one directive is finished or the buffer runs out.
    /// `Ok(None)` means more input is needed; the partial state is kept for
    /// the next call.
    pub fn decode(&mut self, src: &mut InputBuffer) -> (r: Result<Option<Directive>, DecodeError>)
        requires
            spec_state_wf(old(self)@),
        ensures
            spec_state_wf(final(self)@),
            match r {
                Ok(Some(d)) => spec_decode_one(old(self)@, old(src)@) == OneOutcome::Got(
                    d@,
                    final(src)@,
                ) && final(self)@ is None,
                Ok(None) => spec_decode_one(old(self)@, old(src)@) == OneOutcome::NeedMore(
                    final(self)@,
                ) && final(src)@.len() == 0,
                Err(e) => spec_decode_one(old(self)@, old(src)@) == OneOutcome::Bad(e)
                    && final(self)@ is None,
            },
    {
        let mut state = self.current_state.take();
        let ghost st0 = opt_state_view(&state);
        let ghost s0 = src@;
        let ghost sv = st0;
        loop
            invariant
                st0 == old(self)@,
                s0 == old(src)@,
                sv == opt_state_view(&state),
                spec_state_wf(sv),
                spec_decode_one(st0, s0) == spec_decode_one(sv, src@),
                opt_state_view(&self.current_state) is None,
            decreases src@.len(),
        {
            let ghost before = src@;
            match src.read() {
                None => {
                    self.current_state = state;
                    return Ok(None);
                }
                Some(c) => {
                    proof {
                        assert(before[0] == c);
                        assert(before.drop_first() == src@);
                    }
                    match step_state(state, Ghost(sv), c) {
                        Ok((st2, emitted)) => {
                            match emitted {
                                Some(d) => {
                                    return Ok(Some(d));
                                }
                                None => {
                                    state = st2;
                                    proof {
                                        sv = opt_state_view(&state);
                                    }
                                }
                            }
                        }
                        Err(e) => {
                            return Err(e);
                        }
                    }
                }
            }
        }
    }

    /// Flushes the decoder at end of input: a pending comment or a directive
    /// that already has argument text is finished; a directive cut short is
    /// an incomplete instruction. Nothing is ever silently dropped.
    pub fn flush(&mut self) -> (r: Result<Option<Directive>, DecodeError>)
        requires
            spec_state_wf(old(self)@),
        ensures
            final(self)@ is None,
            match r {
                Ok(Some(d)) => spec_flush(old(self)@) == Ok::<_, DecodeError>(Some(d@)),
                Ok(None) => spec_flush(old(self)@) == Ok::<Option<DirectiveView>, DecodeError>(
                    None,
                ),
                Err(e) => spec_flush(old(self)@) == Err::<Option<DirectiveView>, _>(e),
            },
    {
        let state = self.current_state.take();
        match state {
            None => Ok(None),
            Some(DecoderState::Whitespace) => Ok(None),
            Some(DecoderState::Comment(buf)) => {
                let text = crate::text::chars_to_string(&buf);
                Ok(Some(Directive::Comment(text)))
            }
            Some(DecoderState::Directive(_)) => Err(DecodeError::IncompleteInstruction),
            Some(DecoderState::DirectiveArguments { mut directive, arguments, .. }) => {
                match arguments {
                    Some(args) => match directive.set_arguments(args) {
                        Ok(_) => Ok(Some(directive)),
                        Err(e) => Err(e),
                    },
                    None => Err(DecodeError::IncompleteInstruction),
                }
            }
        }
    }
}

/// Decodes a whole Dockerfile text into its directives, in source order.
/// End of input finishes a final directive that lacks its trailing newline.
pub fn decode_dockerfile(input: &str) -> (r: Result<Vec<Directive>, DecodeError>)
    ensures
        match r {
            Ok(ds) => spec_decode(input@) == Ok::<_, DecodeError>(
                crate::directive::directive_views(ds@),
            ),
            Err(e) => spec_decode(input@) == Err::<Seq<DirectiveView>, _>(e),
        },
{
    let mut decoder = DockerfileDecoder::new();
    let mut buf = InputBuffer::from_str(input);
    let mut out: Vec<Directive> = Vec::new();
    proof {
        assert(crate::directive::directive_views(out@) =~= Seq::<DirectiveView>::empty());
    }
    loop
        invariant
            spec_state_wf(decoder@),
            spec_run(None, input@).state == spec_run(decoder@, buf@).state,
            spec_run(None, input@).error == spec_run(decoder@, buf@).error,
            spec_run(None, input@).emitted == crate::directive::directive_views(out@) + spec_run(
                decoder@,
                buf@,
            ).emitted,
        decreases buf@.len(),
    {
        let ghost dst = decoder@;
        let ghost dsrc = buf@;
        match decoder.decode(&mut buf) {
            Ok(Some(d)) => {
                proof {
                    lemma_run_decompose(dst, dsrc);
                }
                let ghost old_out = crate::directive::directive_views(out@);
                out.push(d);
                proof {
                    assert(crate::directive::directive_views(out@) =~= old_out.push(
                        out@[out@.len() - 1]@,
                    ));
                    assert(crate::directive::directive_views(out@) + spec_run(
                        decoder@,
                        buf@,
                    ).emitted =~= old_out + (Seq::empty().push(out@[out@.len() - 1]@) + spec_run(
                        decoder@,
                        buf@,
                    ).emitted));
                }
            }
            Ok(None) => {
                proof {
                    lemma_run_decompose(dst, dsrc);
                    assert(spec_run(decoder@, buf@) == (DecodeRun {
                        state: decoder@,
                        emitted: Seq::<DirectiveView>::empty(),
                        error: None,
                    }));
                    assert(spec_run(None, input@).emitted =~= crate::directive::directive_views(
                        out@,
                    ));
                }
                match decoder.flush() {
                    Ok(Some(d)) => {
                        let ghost old_out = crate::directive::directive_views(out@);
                        out.push(d);
                        proof {
                            assert(crate::directive::directive_views(out@) =~= old_out.push(
                                out@[out@.len() - 1]@,
                            ));
                        }
                        return Ok(out);
                    }
                    Ok(None) => {
                        return Ok(out);
                    }
                    Err(e) => {
                        return Err(e);
                    }
                }
            }
            Err(e) => {
                proof {
                    lemma_run_decompose(dst, dsrc);
                }
                return Err(e);
            }
        }
    }
}


} // verus!
