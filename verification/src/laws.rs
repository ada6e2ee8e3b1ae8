//! The library's stated properties, proved once and for all: round trips
//! between parsing and rendering, the order the decoder emits directives in,
//! and the invariants of the build transform.

use vstd::prelude::*;

use crate::decode::{
    DecodeRun, DecoderStateView, StepRes, spec_flush, spec_run, spec_step,
};
use crate::directive::DirectiveView;
use crate::parse::DecodeError;
use crate::render::{spec_join, spec_render_command, spec_render_line};
use crate::text::{spec_split, spec_split_loop};
use crate::transform::{
    DockerError, spec_exposed_port, spec_injected, spec_is_kept, spec_kept, spec_last_cmd,
    spec_last_entrypoint, spec_transform,
};
use crate::config::ValidatedCageBuildConfig;

verus! {

// --- Decoder ordering -------------------------------------------------------

/// Feeding the decoder a text in two chunks emits exactly the directives of
/// the whole text, in source order: the first chunk's directives, then,
/// from the state the first chunk left behind, the second's.
pub proof fn lemma_run_append(st: Option<DecoderStateView>, s1: Seq<char>, s2: Seq<char>)
    requires
        spec_run(st, s1).error is None,
    ensures
        spec_run(st, s1 + s2).emitted == spec_run(st, s1).emitted + spec_run(
            spec_run(st, s1).state,
            s2,
        ).emitted,
        spec_run(st, s1 + s2).state == spec_run(spec_run(st, s1).state, s2).state,
        spec_run(st, s1 + s2).error == spec_run(spec_run(st, s1).state, s2).error,
    decreases s1.len(),
{
    if s1.len() == 0 {
        assert(s1 + s2 =~= s2);
        assert(spec_run(st, s1).emitted + spec_run(st, s2).emitted =~= spec_run(st, s2).emitted);
    } else {
        assert((s1 + s2)[0] == s1[0]);
        assert((s1 + s2).drop_first() =~= s1.drop_first() + s2);
        match spec_step(st, s1[0]) {
            StepRes::Fail(_) => {}
            StepRes::Next(st2) => {
                lemma_run_append(st2, s1.drop_first(), s2);
            }
            StepRes::Emit(d) => {
                lemma_run_append(None, s1.drop_first(), s2);
                assert(spec_run(st, s1 + s2).emitted =~= spec_run(st, s1).emitted + spec_run(
                    spec_run(st, s1).state,
                    s2,
                ).emitted);
            }
        }
    }
}

// --- Decoder flush safety ---------------------------------------------------

/// Flushing never silently drops accumulated input: whenever the decoder
/// holds a pending comment, keyword or directive, the flush yields either a
/// directive or a structured error, never an empty success.
pub proof fn lemma_flush_never_drops(st: Option<DecoderStateView>)
    requires
        match st {
            Some(DecoderStateView::Comment(_)) => true,
            Some(DecoderStateView::Directive(_)) => true,
            Some(DecoderStateView::DirectiveArguments { .. }) => true,
            _ => false,
        },
    ensures
        !(spec_flush(st) == Ok::<Option<DirectiveView>, DecodeError>(None)),
{
}

/// For a directive whose accumulated text is ready to be terminated, end of
/// input behaves exactly like the terminating newline: the flush yields the
/// very directive (or the very error) that a final newline would have.
pub proof fn lemma_flush_like_newline(st: Option<DecoderStateView>)
    requires
        st matches Some(
            DecoderStateView::DirectiveArguments { arguments, new_line_behaviour, .. },
        ) && arguments is Some && new_line_behaviour is Observe,
    ensures
        match spec_step(st, '\n') {
            StepRes::Emit(d) => spec_flush(st) == Ok::<_, DecodeError>(Some(d)),
            StepRes::Fail(e) => spec_flush(st) == Err::<Option<DirectiveView>, _>(e),
            StepRes::Next(_) => false,
        },
{
}

// --- Transform --------------------------------------------------------------

/// Port safety: any input whose (last) exposed port is 443 is refused with
/// exactly `RestrictedPortExposed(443)`, whatever else it holds.
pub proof fn lemma_restricted_port(
    ds: Seq<DirectiveView>,
    cfg: &ValidatedCageBuildConfig,
    data_plane_version: Seq<char>,
    installer_version: Seq<char>,
    domain: Seq<char>,
)
    requires
        spec_exposed_port(ds) == Some(443u16),
    ensures
        spec_transform(ds, cfg, data_plane_version, installer_version, domain) == Err::<
            Seq<DirectiveView>,
            _,
        >(DockerError::RestrictedPortExposed(443)),
{
}

/// Determinism: the transform is a function of its inputs, so equal inputs
/// give byte-for-byte equal outputs, on every run.
pub proof fn lemma_transform_deterministic(
    ds1: Seq<DirectiveView>,
    ds2: Seq<DirectiveView>,
    cfg1: &ValidatedCageBuildConfig,
    cfg2: &ValidatedCageBuildConfig,
    data_plane_version: Seq<char>,
    installer_version: Seq<char>,
    domain: Seq<char>,
)
    requires
        ds1 == ds2,
        cfg1 == cfg2,
    ensures
        spec_transform(ds1, cfg1, data_plane_version, installer_version, domain)
            == spec_transform(ds2, cfg2, data_plane_version, installer_version, domain),
{
}

/// Every directive the filter keeps satisfies the keeping predicate.
proof fn lemma_kept_elements(ds: Seq<DirectiveView>)
    ensures
        forall|i: int|
            0 <= i < spec_kept(ds).len() ==> spec_is_kept(#[trigger] spec_kept(ds)[i]),
        spec_kept(ds).len() <= ds.len(),
    decreases ds.len(),
{
    if ds.len() > 0 {
        lemma_kept_elements(ds.drop_last());
    }
}

/// The kept part of a concatenation is the concatenation of the kept parts.
proof fn lemma_kept_append(a: Seq<DirectiveView>, b: Seq<DirectiveView>)
    ensures
        spec_kept(a + b) == spec_kept(a) + spec_kept(b),
    decreases b.len(),
{
    if b.len() == 0 {
        assert(a + b =~= a);
        assert(spec_kept(a) + spec_kept(b) =~= spec_kept(a));
    } else {
        assert((a + b).drop_last() =~= a + b.drop_last());
        assert((a + b).last() == b.last());
        lemma_kept_append(a, b.drop_last());
        assert(spec_kept(a + b) =~= spec_kept(a) + spec_kept(b));
    }
}

/// Filtering what was already filtered changes nothing.
proof fn lemma_kept_idempotent(ds: Seq<DirectiveView>)
    ensures
        spec_kept(spec_kept(ds)) == spec_kept(ds),
    decreases ds.len(),
{
    if ds.len() == 0 {
    } else {
        lemma_kept_idempotent(ds.drop_last());
        if spec_is_kept(ds.last()) {
            assert(spec_kept(ds) =~= spec_kept(ds.drop_last()) + seq![ds.last()]);
            lemma_kept_append(spec_kept(ds.drop_last()), seq![ds.last()]);
            assert(seq![ds.last()].drop_last() =~= Seq::<DirectiveView>::empty());
            assert(seq![ds.last()].last() == ds.last());
            assert(spec_kept(Seq::<DirectiveView>::empty()) == Seq::<DirectiveView>::empty());
            assert(spec_kept(seq![ds.last()]) =~= seq![ds.last()]);
            assert(spec_kept(spec_kept(ds)) =~= spec_kept(ds));
        } else {
            assert(spec_kept(ds) =~= spec_kept(ds.drop_last()));
        }
    }
}

/// A sequence without any `EXPOSE` tracks no exposed port.
proof fn lemma_no_expose_no_port(ds: Seq<DirectiveView>)
    requires
        forall|i: int| 0 <= i < ds.len() ==> !(#[trigger] ds[i] is Expose),
    ensures
        spec_exposed_port(ds) is None,
    decreases ds.len(),
{
    if ds.len() > 0 {
        assert(!(ds[ds.len() - 1] is Expose));
        lemma_no_expose_no_port(ds.drop_last());
    }
}

/// Expose rewrite, first half: the transform's output never contains an
/// `EXPOSE` or a `CMD`, and it ends with exactly one exec-form
/// `ENTRYPOINT`.
pub proof fn lemma_no_expose_in_output(
    ds: Seq<DirectiveView>,
    cfg: &ValidatedCageBuildConfig,
    data_plane_version: Seq<char>,
    installer_version: Seq<char>,
    domain: Seq<char>,
)
    requires
        spec_transform(ds, cfg, data_plane_version, installer_version, domain) is Ok,
    ensures
        ({
            let out = spec_transform(
                ds,
                cfg,
                data_plane_version,
                installer_version,
                domain,
            ).unwrap();
            &&& forall|i: int| 0 <= i < out.len() ==> !(#[trigger] out[i] is Expose)
            &&& forall|i: int| 0 <= i < out.len() ==> !(#[trigger] out[i] is Cmd)
            &&& out.len() > 0
            &&& out.last() == (DirectiveView::Entrypoint {
                mode: Some(crate::directive::Mode::Exec),
                tokens: seq!["/bootstrap"@, "1>&2"@],
            })
            &&& forall|i: int| 0 <= i < out.len() - 1 ==> !(#[trigger] out[i] is Entrypoint)
        }),
{
    let port = spec_exposed_port(ds);
    let entry = crate::transform::spec_combined_entrypoint(
        spec_last_entrypoint(ds),
        spec_last_cmd(ds),
    );
    let inj = spec_injected(cfg, data_plane_version, installer_version, domain, port, entry);
    let out = spec_kept(ds) + inj;
    lemma_kept_elements(ds);
    assert(inj.len() == 18);
    assert forall|i: int| 0 <= i < out.len() implies !(#[trigger] out[i] is Expose) && !(
    out[i] is Cmd) && (i < out.len() - 1 ==> !(out[i] is Entrypoint)) by {
        if i < spec_kept(ds).len() {
            assert(out[i] == spec_kept(ds)[i]);
            assert(spec_is_kept(spec_kept(ds)[i]));
        } else {
            assert(out[i] == inj[i - spec_kept(ds).len()]);
        }
    }
    assert(out.last() == inj[17]);
}

/// Expose rewrite, second half: the tracked port reaches exactly one
/// injected directive, the data-plane service script; every other injected
/// directive is the same whatever the port was.
pub proof fn lemma_port_used_once(
    cfg: &ValidatedCageBuildConfig,
    data_plane_version: Seq<char>,
    installer_version: Seq<char>,
    domain: Seq<char>,
    port1: Option<u16>,
    port2: Option<u16>,
    entrypoint: Seq<char>,
)
    ensures
        ({
            let inj1 = spec_injected(
                cfg,
                data_plane_version,
                installer_version,
                domain,
                port1,
                entrypoint,
            );
            let inj2 = spec_injected(
                cfg,
                data_plane_version,
                installer_version,
                domain,
                port2,
                entrypoint,
            );
            &&& inj1.len() == inj2.len()
            &&& inj1[8] == DirectiveView::Run(
                crate::transform::spec_write_script(
                    crate::transform::spec_data_plane_script(port1),
                    "/etc/service/data-plane/run"@,
                    ""@,
                ),
            )
            &&& forall|j: int| 0 <= j < inj1.len() && j != 8 ==> #[trigger] inj1[j] == inj2[j]
        }),
{
    let inj1 = spec_injected(
        cfg,
        data_plane_version,
        installer_version,
        domain,
        port1,
        entrypoint,
    );
    let inj2 = spec_injected(
        cfg,
        data_plane_version,
        installer_version,
        domain,
        port2,
        entrypoint,
    );
    assert forall|j: int| 0 <= j < inj1.len() && j != 8 implies #[trigger] inj1[j] == inj2[j] by {
    }
}

/// Idempotence and non-interference: running the transform on its own
/// output succeeds again (the injected entrypoint satisfies it), and the
/// user directives it preserved the first time stand unchanged at the front
/// of the second output.
pub proof fn lemma_transform_idempotent(
    ds: Seq<DirectiveView>,
    cfg: &ValidatedCageBuildConfig,
    data_plane_version: Seq<char>,
    installer_version: Seq<char>,
    domain: Seq<char>,
)
    requires
        spec_transform(ds, cfg, data_plane_version, installer_version, domain) is Ok,
    ensures
        ({
            let out1 = spec_transform(
                ds,
                cfg,
                data_plane_version,
                installer_version,
                domain,
            ).unwrap();
            &&& spec_transform(out1, cfg, data_plane_version, installer_version, domain) is Ok
            &&& spec_transform(
                out1,
                cfg,
                data_plane_version,
                installer_version,
                domain,
            ).unwrap().take(spec_kept(ds).len() as int) == spec_kept(ds)
        }),
{
    let port = spec_exposed_port(ds);
    let entry = crate::transform::spec_combined_entrypoint(
        spec_last_entrypoint(ds),
        spec_last_cmd(ds),
    );
    let inj = spec_injected(cfg, data_plane_version, installer_version, domain, port, entry);
    let out1 = spec_kept(ds) + inj;
    assert(spec_transform(ds, cfg, data_plane_version, installer_version, domain).unwrap()
        == out1);
    // the second pass sees no exposed port
    lemma_kept_elements(ds);
    assert forall|i: int| 0 <= i < out1.len() implies !(#[trigger] out1[i] is Expose) by {
        if i < spec_kept(ds).len() {
            assert(out1[i] == spec_kept(ds)[i]);
            assert(spec_is_kept(spec_kept(ds)[i]));
        } else {
            assert(out1[i] == inj[i - spec_kept(ds).len()]);
        }
    }
    lemma_no_expose_no_port(out1);
    // the second pass finds the injected entrypoint
    assert(out1.last() == inj[17]);
    assert(out1.last() is Entrypoint);
    assert(spec_last_entrypoint(out1) is Some);
    // the kept part of the second pass extends the first pass's kept part
    lemma_kept_append(spec_kept(ds), inj);
    lemma_kept_idempotent(ds);
    let out2 = spec_transform(out1, cfg, data_plane_version, installer_version, domain).unwrap();
    assert(out2.take(spec_kept(ds).len() as int) =~= spec_kept(ds)) by {
        assert(spec_kept(out1) == spec_kept(spec_kept(ds)) + spec_kept(inj));
        assert(forall|i: int|
            0 <= i < spec_kept(ds).len() ==> out2[i] == spec_kept(out1)[i]);
    }
}


// --- Round trips ------------------------------------------------------------

/// Two pieces joined around one more separator merge into one piece.
proof fn lemma_join_merge(acc: Seq<Seq<char>>, a: Seq<char>, b: Seq<char>, sep: Seq<char>)
    ensures
        spec_join(acc.push(a).push(b), sep) == spec_join(acc.push(a + sep + b), sep),
{
    crate::render::lemma_spec_join_push(acc.push(a), sep, b);
    crate::render::lemma_spec_join_push(acc, sep, a);
    crate::render::lemma_spec_join_push(acc, sep, a + sep + b);
    if acc.len() == 0 {
        assert(spec_join(acc.push(a).push(b), sep) =~= a + sep + b);
    } else {
        assert(spec_join(acc.push(a).push(b), sep) =~= spec_join(acc, sep) + sep + (a + sep
            + b));
    }
}

/// Splitting and rejoining with the same delimiter reproduces the text,
/// whatever piece and accumulator the split began with.
proof fn lemma_split_loop_join(s: Seq<char>, d: char, cur: Seq<char>, acc: Seq<Seq<char>>)
    ensures
        spec_join(spec_split_loop(s, d, cur, acc), seq![d]) == spec_join(
            acc.push(cur + s),
            seq![d],
        ),
    decreases s.len(),
{
    if s.len() == 0 {
        assert(cur + s =~= cur);
    } else if s[0] == d {
        lemma_split_loop_join(s.drop_first(), d, Seq::empty(), acc.push(cur));
        assert(Seq::<char>::empty() + s.drop_first() =~= s.drop_first());
        lemma_join_merge(acc, cur, s.drop_first(), seq![d]);
        assert(cur + seq![d] + s.drop_first() =~= cur + s);
    } else {
        lemma_split_loop_join(s.drop_first(), d, cur.push(s[0]), acc);
        assert(cur.push(s[0]) + s.drop_first() =~= cur + s);
    }
}

/// Round trip of the shell argument form: the tokens the parser splits a
/// shell command into render back, joined by single spaces, to exactly the
/// original argument text.
pub proof fn lemma_shell_round_trip(args: Seq<char>)
    ensures
        spec_render_command(
            Some(crate::directive::Mode::Shell),
            crate::parse::spec_parse_shell_tokens(args),
        ) == args,
{
    reveal_strlit(" ");
    assert(" "@ =~= seq![' ']);
    lemma_split_loop_join(args, ' ', Seq::empty(), Seq::empty());
    assert(Seq::<char>::empty() + args =~= args);
    assert(Seq::<Seq<char>>::empty().push(args) =~= seq![args]);
    assert(spec_join(seq![args], seq![' ']) == seq![args][0]);
    assert(spec_join(spec_split(args, ' '), seq![' ']) == args);
}

/// Round trip of the verbatim variants: a `RUN`, `USER`, `FROM`, comment or
/// unrecognized directive stores its argument text unchanged and renders it
/// back unchanged.
pub proof fn lemma_verbatim_round_trip(d: DirectiveView, args: Seq<char>)
    requires
        d is Run || d is User || d is From || d is Comment || d is Other,
    ensures
        match crate::parse::spec_set_arguments(d, args) {
            Ok(d2) => crate::render::spec_render_arguments(d2) == args,
            Err(_) => false,
        },
{
}

/// Every character of a rendered decimal number is a digit, the first is
/// not a sign, and reading the number back gives the value.
proof fn lemma_dec_digits(n: nat)
    ensures
        crate::render::spec_dec(n).len() > 0,
        crate::render::spec_dec(n)[0] != '+',
        forall|i: int|
            0 <= i < crate::render::spec_dec(n).len() ==> crate::text::spec_is_digit(
                #[trigger] crate::render::spec_dec(n)[i],
            ),
        crate::parse::spec_digits_val(crate::render::spec_dec(n)) == n,
    decreases n,
{
    reveal_strlit("0");
    reveal_strlit("1");
    reveal_strlit("2");
    reveal_strlit("3");
    reveal_strlit("4");
    reveal_strlit("5");
    reveal_strlit("6");
    reveal_strlit("7");
    reveal_strlit("8");
    reveal_strlit("9");
    let dec = crate::render::spec_dec(n);
    if n < 10 {
        assert(dec.len() == 1);
        assert(crate::text::spec_is_digit(dec[0]) && crate::parse::spec_digit_val(dec[0]) == n);
        assert(dec.drop_last() =~= Seq::<char>::empty());
        assert(dec.last() == dec[0]);
        assert(crate::parse::spec_digits_val(Seq::<char>::empty()) == 0);
        assert(crate::parse::spec_digits_val(dec) == 0 * 10 + crate::parse::spec_digit_val(
            dec[0],
        ));
    } else {
        lemma_dec_digits(n / 10);
        let hi = crate::render::spec_dec(n / 10);
        let lo = crate::render::spec_digit(n % 10);
        assert(lo.len() == 1 && crate::text::spec_is_digit(lo[0])
            && crate::parse::spec_digit_val(lo[0]) == n % 10);
        assert(dec == hi + lo);
        assert(dec.drop_last() =~= hi);
        assert(dec.last() == lo[0]);
        assert(crate::parse::spec_digits_val(dec) == crate::parse::spec_digits_val(hi) * 10 + (n
            % 10));
        assert(crate::parse::spec_digits_val(hi) * 10 + n % 10 == n) by (nonlinear_arith)
            requires
                crate::parse::spec_digits_val(hi) == n / 10,
                n >= 10,
        ;
        assert forall|i: int| 0 <= i < dec.len() implies crate::text::spec_is_digit(
            #[trigger] dec[i],
        ) by {
            if i < hi.len() {
                assert(dec[i] == hi[i]);
            } else {
                assert(dec[i] == lo[0]);
            }
        }
    }
}

/// Round trip of an `EXPOSE` port: rendering a port as decimal text and
/// parsing it back yields the same port.
pub proof fn lemma_port_round_trip(p: u16)
    ensures
        crate::parse::spec_parse_port(crate::render::spec_dec(p as nat)) == Some(p),
{
    lemma_dec_digits(p as nat);
    let dec = crate::render::spec_dec(p as nat);
    assert(crate::parse::spec_port_digits(dec) == dec);
    assert(crate::parse::spec_all_digits(dec));
}



/// A run of characters free of the delimiter is consumed into the current
/// piece.
proof fn lemma_split_consume(
    p: Seq<char>,
    r: Seq<char>,
    d: char,
    cur: Seq<char>,
    acc: Seq<Seq<char>>,
)
    requires
        forall|i: int| 0 <= i < p.len() ==> p[i] != d,
    ensures
        spec_split_loop(p + r, d, cur, acc) == spec_split_loop(r, d, cur + p, acc),
    decreases p.len(),
{
    if p.len() == 0 {
        assert(p + r =~= r);
        assert(cur + p =~= cur);
    } else {
        assert((p + r)[0] == p[0]);
        assert((p + r).drop_first() =~= p.drop_first() + r);
        lemma_split_consume(p.drop_first(), r, d, cur.push(p[0]), acc);
        assert(cur.push(p[0]) + p.drop_first() =~= cur + p);
    }
}

/// The pieces after the first that splitting a rendered exec list yields:
/// each later quoted token carries the space that followed the comma.
pub open spec fn spec_space_quoted(tokens: Seq<Seq<char>>) -> Seq<Seq<char>> {
    tokens.map_values(|t: Seq<char>| " "@ + crate::render::spec_quote(t))
}

/// No character of a quoted token is a comma, when the token has none.
proof fn lemma_quote_no_comma(t: Seq<char>)
    requires
        forall|i: int| 0 <= i < t.len() ==> t[i] != ',',
    ensures
        forall|i: int|
            0 <= i < crate::render::spec_quote(t).len() ==> #[trigger] crate::render::spec_quote(
                t,
            )[i] != ',',
{
    reveal_strlit("\"");
    let q = crate::render::spec_quote(t);
    assert forall|i: int| 0 <= i < q.len() implies #[trigger] q[i] != ',' by {
        if i == 0 || i == q.len() - 1 {
            assert(q[i] == '"');
        } else {
            assert(q[i] == t[i - 1]);
        }
    }
}

/// Splitting the joined quoted tokens on commas yields the first quoted
/// token and then each further quoted token with its leading space.
proof fn lemma_split_quoted(tokens: Seq<Seq<char>>, cur: Seq<char>, acc: Seq<Seq<char>>)
    requires
        tokens.len() > 0,
        forall|i: int, j: int|
            0 <= i < tokens.len() && 0 <= j < tokens[i].len() ==> #[trigger] tokens[i][j] != ',',
    ensures
        spec_split_loop(
            spec_join(
                tokens.map_values(|t: Seq<char>| crate::render::spec_quote(t)),
                ", "@,
            ),
            ',',
            cur,
            acc,
        ) == acc.push(cur + crate::render::spec_quote(tokens[0])) + spec_space_quoted(
            tokens.drop_first(),
        ),
    decreases tokens.len(),
{
    reveal_strlit(", ");
    reveal_strlit(" ");
    let quoted = tokens.map_values(|t: Seq<char>| crate::render::spec_quote(t));
    let q0 = crate::render::spec_quote(tokens[0]);
    assert(quoted[0] == q0);
    assert(forall|j: int| 0 <= j < tokens[0].len() ==> #[trigger] tokens[0][j] != ',');
    lemma_quote_no_comma(tokens[0]);
    if tokens.len() == 1 {
        assert(spec_join(quoted, ", "@) == q0);
        assert(q0 =~= q0 + Seq::<char>::empty());
        lemma_split_consume(q0, Seq::empty(), ',', cur, acc);
        assert(spec_split_loop(Seq::empty(), ',', cur + q0, acc) == acc.push(cur + q0));
        assert(spec_space_quoted(tokens.drop_first()) =~= Seq::<Seq<char>>::empty());
        assert(acc.push(cur + q0) + Seq::<Seq<char>>::empty() =~= acc.push(cur + q0));
    } else {
        let rest = tokens.drop_first();
        let joined_rest = spec_join(
            rest.map_values(|t: Seq<char>| crate::render::spec_quote(t)),
            ", "@,
        );
        assert(quoted.drop_first() =~= rest.map_values(
            |t: Seq<char>| crate::render::spec_quote(t),
        ));
        assert(spec_join(quoted, ", "@) == quoted[0] + ", "@ + joined_rest);
        assert(", "@ =~= seq![',', ' ']);
        let s = spec_join(quoted, ", "@);
        assert(s =~= q0 + (seq![',', ' '] + joined_rest));
        lemma_split_consume(q0, seq![',', ' '] + joined_rest, ',', cur, acc);
        let s2 = seq![',', ' '] + joined_rest;
        assert(s2[0] == ',');
        assert(s2.drop_first() =~= seq![' '] + joined_rest);
        let acc2 = acc.push(cur + q0);
        assert(spec_split_loop(s2, ',', cur + q0, acc) == spec_split_loop(
            seq![' '] + joined_rest,
            ',',
            Seq::empty(),
            acc2,
        ));
        lemma_split_consume(seq![' '], joined_rest, ',', Seq::empty(), acc2);
        assert(Seq::<char>::empty() + seq![' '] =~= seq![' ']);
        assert forall|i: int, j: int|
            0 <= i < rest.len() && 0 <= j < rest[i].len() implies #[trigger] rest[i][j]
            != ',' by {
            assert(rest[i] == tokens[i + 1]);
        }
        lemma_split_quoted(rest, seq![' '], acc2);
        assert(seq![' '] =~= " "@);
        assert(seq![' '] + crate::render::spec_quote(rest[0]) == " "@ + crate::render::spec_quote(
            rest[0],
        ));
        assert(acc2.push(seq![' '] + crate::render::spec_quote(rest[0])) + spec_space_quoted(
            rest.drop_first(),
        ) =~= acc.push(cur + q0) + spec_space_quoted(rest));
        assert(spec_space_quoted(rest)[0] == " "@ + crate::render::spec_quote(rest[0]));
        assert forall|k: int| 0 <= k < rest.drop_first().len() implies spec_space_quoted(
            rest.drop_first(),
        )[k] == spec_space_quoted(rest)[k + 1] by {
            assert(rest.drop_first()[k] == rest[k + 1]);
        }
    }
}

/// Trimming and unquoting a split piece recovers the token: the quotes are
/// not whitespace, so only the piece's leading space goes.
proof fn lemma_strip_trim_quoted(t: Seq<char>, leading_space: bool)
    ensures
        ({
            let piece = if leading_space {
                " "@ + crate::render::spec_quote(t)
            } else {
                crate::render::spec_quote(t)
            };
            crate::parse::spec_strip_quotes(crate::text::spec_trim(piece)) == t
        }),
{
    reveal_strlit("\"");
    reveal_strlit(" ");
    let q = crate::render::spec_quote(t);
    assert(q.len() == t.len() + 2);
    assert(q[0] == '"');
    assert(q[q.len() - 1] == '"');
    assert(!crate::text::spec_is_ws('"'));
    assert(crate::text::spec_trim_start(q) == q);
    assert(crate::text::spec_trim_end(q) == q);
    if leading_space {
        let piece = " "@ + q;
        assert(piece.len() == q.len() + 1);
        assert(piece[0] == ' ');
        assert(crate::text::spec_is_ws(' '));
        assert(piece.drop_first() =~= q);
        assert(crate::text::spec_trim_start(piece) == crate::text::spec_trim_start(q));
        assert(crate::text::spec_trim(piece) == q);
    } else {
        assert(crate::text::spec_trim(q) == q);
    }
    let t1 = q.drop_first();
    assert(t1 =~= t + "\""@);
    assert(t1.len() == t.len() + 1);
    assert(t1[t1.len() - 1] == '"');
    assert(t1.drop_last() =~= t);
}

/// Round trip of the exec argument form: tokens that contain no comma,
/// rendered as a bracketed quoted list, parse back to exactly the same
/// tokens.
pub proof fn lemma_exec_round_trip(tokens: Seq<Seq<char>>)
    requires
        tokens.len() > 0,
        forall|i: int, j: int|
            0 <= i < tokens.len() && 0 <= j < tokens[i].len() ==> #[trigger] tokens[i][j] != ',',
    ensures
        crate::parse::spec_parse_exec_tokens(
            spec_render_command(Some(crate::directive::Mode::Exec), tokens),
        ) == tokens,
{
    reveal_strlit("[");
    reveal_strlit("]");
    let joined = spec_join(
        tokens.map_values(|t: Seq<char>| crate::render::spec_quote(t)),
        ", "@,
    );
    let rendered = spec_render_command(Some(crate::directive::Mode::Exec), tokens);
    assert(rendered == "["@ + joined + "]"@);
    assert(rendered.len() == joined.len() + 2);
    let inner = rendered.subrange(1, rendered.len() - 1);
    assert(inner =~= joined);
    lemma_split_quoted(tokens, Seq::empty(), Seq::empty());
    let pieces = spec_split(inner, ',');
    assert(pieces == Seq::<Seq<char>>::empty().push(
        Seq::<char>::empty() + crate::render::spec_quote(tokens[0]),
    ) + spec_space_quoted(tokens.drop_first()));
    assert(Seq::<char>::empty() + crate::render::spec_quote(tokens[0])
        =~= crate::render::spec_quote(tokens[0]));
    let parsed = pieces.map_values(
        |t: Seq<char>| crate::parse::spec_strip_quotes(crate::text::spec_trim(t)),
    );
    assert(pieces.len() == tokens.len());
    assert forall|i: int| 0 <= i < parsed.len() implies parsed[i] == tokens[i] by {
        assert(parsed[i] == crate::parse::spec_strip_quotes(
            crate::text::spec_trim(pieces[i]),
        ));
        if i == 0 {
            assert(pieces[0] == Seq::<char>::empty() + crate::render::spec_quote(tokens[0]));
            lemma_strip_trim_quoted(tokens[0], false);
        } else {
            assert(pieces[i] == spec_space_quoted(tokens.drop_first())[i - 1]);
            assert(spec_space_quoted(tokens.drop_first())[i - 1] == " "@
                + crate::render::spec_quote(tokens.drop_first()[i - 1]));
            assert(tokens.drop_first()[i - 1] == tokens[i]);
            lemma_strip_trim_quoted(tokens[i], true);
        }
    }
    assert(parsed =~= tokens);
}



/// A run of plain characters (no backslash, quote or space) is consumed
/// into the current `ENV` token; an `=` among them makes the line an
/// assignment list.
proof fn lemma_env_consume(
    p: Seq<char>,
    r: Seq<char>,
    cur: Seq<char>,
    toks: Seq<Seq<char>>,
    delim: crate::directive::Delimiter,
)
    requires
        forall|i: int|
            0 <= i < p.len() ==> #[trigger] p[i] != '\\' && p[i] != '"' && p[i] != ' ',
    ensures
        crate::parse::spec_env_loop(p + r, false, false, cur, toks, delim)
            == crate::parse::spec_env_loop(
            r,
            false,
            false,
            cur + p,
            toks,
            if crate::text::spec_find(p, '=') >= 0 {
                crate::directive::Delimiter::Eq
            } else {
                delim
            },
        ),
    decreases p.len(),
{
    if p.len() == 0 {
        assert(p + r =~= r);
        assert(cur + p =~= cur);
    } else {
        assert((p + r)[0] == p[0]);
        assert((p + r).drop_first() =~= p.drop_first() + r);
        let delim2 = if p[0] == '=' {
            crate::directive::Delimiter::Eq
        } else {
            delim
        };
        lemma_env_consume(p.drop_first(), r, cur.push(p[0]), toks, delim2);
        assert(cur.push(p[0]) + p.drop_first() =~= cur + p);
        crate::text::lemma_find_props(p, '=');
        crate::text::lemma_find_props(p.drop_first(), '=');
        if p[0] == '=' {
            assert(crate::text::spec_find(p, '=') == 0);
        } else {
            if crate::text::spec_find(p.drop_first(), '=') >= 0 {
                assert(p[crate::text::spec_find(p.drop_first(), '=') + 1] == '=');
                assert(crate::text::spec_find(p, '=') >= 0);
            } else {
                if crate::text::spec_find(p, '=') >= 0 {
                    let k = crate::text::spec_find(p, '=');
                    assert(p[k] == '=');
                    assert(k > 0);
                    assert(p.drop_first()[k - 1] == '=');
                }
            }
        }
    }
}

/// Text with no whitespace at either end trims to itself.
proof fn lemma_trim_plain(s: Seq<char>)
    requires
        s.len() > 0 ==> !crate::text::spec_is_ws(s[0]),
        s.len() > 0 ==> !crate::text::spec_is_ws(s[s.len() - 1]),
    ensures
        crate::text::spec_trim(s) == s,
{
}

/// The first `=` of `key = value` text stands right after the key, when
/// the key holds none.
proof fn lemma_find_eq_at(key: Seq<char>, val: Seq<char>)
    requires
        forall|i: int| 0 <= i < key.len() ==> #[trigger] key[i] != '=',
    ensures
        crate::text::spec_find(key + seq!['='] + val, '=') == key.len(),
{
    let s = key + seq!['='] + val;
    assert(s[key.len() as int] == '=');
    crate::text::lemma_find_props(s, '=');
    let k = crate::text::spec_find(s, '=');
    if k < 0 {
        assert(s[key.len() as int] != '=');
    }
    assert(k >= 0);
    if k < key.len() {
        assert(s[k] == key[k]);
    }
    if k > key.len() {
        assert(s[key.len() as int] != '=');
    }
}

/// Round trip of a single `ENV` assignment written `KEY=VALUE`: with a key
/// free of `=` and both key and value free of spaces, quotes, backslashes
/// and other whitespace, parsing yields exactly that assignment, and the
/// assignment renders back to exactly the original text.
pub proof fn lemma_env_round_trip(key: Seq<char>, val: Seq<char>)
    requires
        key.len() > 0,
        forall|i: int|
            0 <= i < key.len() ==> #[trigger] key[i] != '=' && key[i] != '\\' && key[i] != '"'
                && !crate::text::spec_is_ws(key[i]),
        forall|i: int|
            0 <= i < val.len() ==> #[trigger] val[i] != '\\' && val[i] != '"'
                && !crate::text::spec_is_ws(val[i]),
    ensures
        crate::parse::spec_parse_env(key + "="@ + val) == Ok::<_, DecodeError>(
            seq![
                crate::directive::EnvVarView {
                    key,
                    val,
                    delim: crate::directive::Delimiter::Eq,
                },
            ],
        ),
        crate::render::spec_render_arguments(
            DirectiveView::Env {
                vars: seq![
                    crate::directive::EnvVarView {
                        key,
                        val,
                        delim: crate::directive::Delimiter::Eq,
                    },
                ],
            },
        ) == key + "="@ + val,
{
    reveal_strlit("=");
    let args = key + "="@ + val;
    let cur = key + seq!['='] + val;
    assert(args =~= cur);
    assert(!crate::text::spec_is_ws(' ') == false);
    // the tokenizer consumes the whole line into one token
    assert forall|i: int| 0 <= i < cur.len() implies #[trigger] cur[i] != '\\' && cur[i] != '"'
        && cur[i] != ' ' by {
        if i < key.len() {
            assert(cur[i] == key[i]);
        } else if i == key.len() {
            assert(cur[i] == '=');
        } else {
            assert(cur[i] == val[i - key.len() - 1]);
        }
    }
    assert(cur =~= cur + Seq::<char>::empty());
    lemma_env_consume(cur, Seq::empty(), Seq::empty(), Seq::empty(), crate::directive::Delimiter::Space);
    lemma_find_eq_at(key, val);
    assert(key + seq!['='] + val =~= cur);
    assert(crate::text::spec_find(cur, '=') == key.len());
    assert(Seq::<char>::empty() + cur =~= cur);
    assert(crate::parse::spec_env_loop(
        Seq::empty(),
        false,
        false,
        cur,
        Seq::empty(),
        crate::directive::Delimiter::Eq,
    ).toks == Seq::<Seq<char>>::empty().push(crate::text::spec_trim(cur)));
    assert(!crate::text::spec_is_ws(cur[0]));
    assert(!crate::text::spec_is_ws(cur[cur.len() - 1]));
    lemma_trim_plain(cur);
    let tk = crate::parse::spec_env_tokenize(args);
    assert(tk.toks =~= seq![cur]);
    assert(tk.delim is Eq);
    // every token (the one token) holds an `=`
    assert(crate::parse::spec_all_have_eq(tk.toks)) by {
        assert(tk.toks[0] == cur);
        assert(crate::text::spec_find(tk.toks[0], '=') == key.len());
    }
    // splitting at the first `=` recovers key and value
    let pair = crate::parse::spec_env_pair(cur);
    assert(cur.take(key.len() as int) =~= key);
    assert(cur.skip(key.len() + 1 as int) =~= val);
    assert(pair.key == key);
    assert(pair.val == val);
    let mapped = tk.toks.map_values(|t: Seq<char>| crate::parse::spec_env_pair(t));
    assert(mapped[0] == pair);
    assert(mapped =~= seq![
        crate::directive::EnvVarView { key, val, delim: crate::directive::Delimiter::Eq },
    ]);
    // rendering the assignment reproduces the text
    let v = crate::directive::EnvVarView {
        key,
        val,
        delim: crate::directive::Delimiter::Eq,
    };
    let rendered_parts = seq![v].map_values(
        |x: crate::directive::EnvVarView| crate::render::spec_render_env_var(x),
    );
    assert(rendered_parts.len() == 1);
    assert(rendered_parts[0] == crate::render::spec_render_env_var(v));
    assert(spec_join(rendered_parts, " "@) == rendered_parts[0]);
    assert(crate::render::spec_render_env_var(v) == key + "="@ + val);
}



// --- Decoding one well-formed line ------------------------------------------

/// An ASCII letter is ASCII, is not whitespace, and is none of the
/// decoder's special characters.
proof fn lemma_alpha_char(c: char)
    requires
        crate::text::spec_is_alpha(c),
    ensures
        crate::text::spec_is_ascii(c),
        !crate::text::spec_is_ws(c),
        c != ' ',
        c != '#',
{
    if c == ' ' {
        assert((c as u32) == (' ' as u32));
    }
    if c == '#' {
        assert((c as u32) == ('#' as u32));
    }
    if c == '\t' {
        assert((c as u32) == ('\t' as u32));
    }
    if c == '\n' {
        assert((c as u32) == ('\n' as u32));
    }
    if c == '\r' {
        assert((c as u32) == ('\r' as u32));
    }
    if c == '\x0C' {
        assert((c as u32) == ('\x0C' as u32));
    }
}

/// Keyword characters are consumed one by one into the keyword buffer.
proof fn lemma_keyword_accum(buf: Seq<char>, k: Seq<char>, rest: Seq<char>)
    requires
        forall|i: int|
            0 <= i < k.len() ==> crate::text::spec_is_ascii(#[trigger] k[i]) && k[i] != ' ',
    ensures
        spec_run(Some(DecoderStateView::Directive(buf)), k + rest) == spec_run(
            Some(DecoderStateView::Directive(buf + k)),
            rest,
        ),
    decreases k.len(),
{
    if k.len() == 0 {
        assert(k + rest =~= rest);
        assert(buf + k =~= buf);
    } else {
        assert((k + rest)[0] == k[0]);
        assert((k + rest).drop_first() =~= k.drop_first() + rest);
        lemma_keyword_accum(buf.push(k[0]), k.drop_first(), rest);
        assert(buf.push(k[0]) + k.drop_first() =~= buf + k);
    }
}

/// The string stack after reading a run of argument characters.
pub open spec fn spec_stack_steps(
    stack: Seq<crate::decode::StringToken>,
    r: Seq<char>,
) -> Seq<crate::decode::StringToken>
    decreases r.len(),
{
    if r.len() == 0 {
        stack
    } else {
        spec_stack_steps(
            if r[0] == '\'' || r[0] == '"' {
                crate::decode::spec_stack_after(stack, crate::decode::spec_string_token_of(r[0]))
            } else {
                stack
            },
            r.drop_first(),
        )
    }
}

/// Argument characters that are not newlines or backslashes are appended
/// verbatim, the newline stays significant, and only the string stack
/// changes.
proof fn lemma_args_accum(
    d: DirectiveView,
    a: Seq<char>,
    r: Seq<char>,
    stack: Seq<crate::decode::StringToken>,
    rest: Seq<char>,
)
    requires
        a.len() > 0,
        forall|i: int| 0 <= i < a.len() ==> #[trigger] a[i] != '\n',
        forall|i: int| 0 <= i < r.len() ==> #[trigger] r[i] != '\n' && r[i] != '\\',
    ensures
        spec_run(
            Some(
                DecoderStateView::DirectiveArguments {
                    directive: d,
                    arguments: Some(a),
                    new_line_behaviour: crate::decode::NewLineBehaviour::Observe,
                    string_stack: stack,
                },
            ),
            r + rest,
        ) == spec_run(
            Some(
                DecoderStateView::DirectiveArguments {
                    directive: d,
                    arguments: Some(a + r),
                    new_line_behaviour: crate::decode::NewLineBehaviour::Observe,
                    string_stack: spec_stack_steps(stack, r),
                },
            ),
            rest,
        ),
    decreases r.len(),
{
    if r.len() == 0 {
        assert(r + rest =~= rest);
        assert(a + r =~= a);
    } else {
        let c = r[0];
        assert((r + rest)[0] == c);
        assert((r + rest).drop_first() =~= r.drop_first() + rest);
        assert(a[a.len() - 1] != '\n');
        assert(!crate::decode::spec_ends_continued(Some(a)));
        let stack2 = if c == '\'' || c == '"' {
            crate::decode::spec_stack_after(stack, crate::decode::spec_string_token_of(c))
        } else {
            stack
        };
        assert forall|i: int| 0 <= i < a.push(c).len() implies #[trigger] a.push(c)[i]
            != '\n' by {
            if i < a.len() {
                assert(a.push(c)[i] == a[i]);
            }
        }
        lemma_args_accum(d, a.push(c), r.drop_first(), stack2, rest);
        assert(a.push(c) + r.drop_first() =~= a + r);
    }
}

/// Decoding one well-formed single line: for a line written
/// `KEYWORD ARGS` and terminated by a newline, where the keyword is made
/// of letters and the argument text neither starts with a space nor holds
/// a newline or backslash, the decoder yields exactly the one directive
/// that the keyword's argument parser makes of the argument text (with the
/// mode of an `ENTRYPOINT` or `CMD` fixed by the first argument
/// character), or exactly that parser's error.
pub proof fn lemma_decode_single_line(kw: Seq<char>, args: Seq<char>)
    requires
        kw.len() > 0,
        forall|i: int| 0 <= i < kw.len() ==> crate::text::spec_is_alpha(#[trigger] kw[i]),
        args.len() > 0,
        args[0] != ' ',
        forall|i: int| 0 <= i < args.len() ==> #[trigger] args[i] != '\n' && args[i] != '\\',
    ensures
        ({
            let d0 = crate::decode::spec_with_mode(
                crate::parse::spec_directive_of_keyword(kw),
                args[0],
            );
            match crate::parse::spec_set_arguments(d0, args) {
                Ok(d) => crate::decode::spec_decode(kw + " "@ + args + "\n"@) == Ok::<
                    _,
                    DecodeError,
                >(seq![d]),
                Err(e) => crate::decode::spec_decode(kw + " "@ + args + "\n"@) == Err::<
                    Seq<DirectiveView>,
                    _,
                >(e),
            }
        }),
{
    reveal_strlit(" ");
    reveal_strlit("\n");
    let line = kw + " "@ + args + "\n"@;
    // the first character begins the keyword
    lemma_alpha_char(kw[0]);
    assert(line[0] == kw[0]);
    assert(spec_begin_line_is_keyword(kw[0]));
    let tail1 = kw.drop_first() + (seq![' '] + (args + seq!['\n']));
    assert(line.drop_first() =~= tail1);
    assert(spec_run(None, line) == spec_run(
        Some(DecoderStateView::Directive(Seq::empty().push(kw[0]))),
        tail1,
    ));
    // the remaining keyword characters accumulate
    assert forall|i: int| 0 <= i < kw.drop_first().len() implies crate::text::spec_is_ascii(
        #[trigger] kw.drop_first()[i],
    ) && kw.drop_first()[i] != ' ' by {
        assert(kw.drop_first()[i] == kw[i + 1]);
        lemma_alpha_char(kw[i + 1]);
    }
    lemma_keyword_accum(
        Seq::empty().push(kw[0]),
        kw.drop_first(),
        seq![' '] + (args + seq!['\n']),
    );
    assert(Seq::empty().push(kw[0]) + kw.drop_first() =~= kw);
    // the space finishes the keyword
    let st_args0 = DecoderStateView::DirectiveArguments {
        directive: crate::parse::spec_directive_of_keyword(kw),
        arguments: None,
        new_line_behaviour: crate::decode::NewLineBehaviour::Observe,
        string_stack: Seq::empty(),
    };
    assert((seq![' '] + (args + seq!['\n']))[0] == ' ');
    assert((seq![' '] + (args + seq!['\n'])).drop_first() =~= args + seq!['\n']);
    assert(spec_run(Some(DecoderStateView::Directive(kw)), seq![' '] + (args + seq!['\n']))
        == spec_run(Some(st_args0), args + seq!['\n']));
    // the first argument character fixes the mode and opens the buffer
    let c0 = args[0];
    let d2 = crate::decode::spec_with_mode(crate::parse::spec_directive_of_keyword(kw), c0);
    let stack0 = spec_stack_steps(Seq::empty(), seq![c0]);
    assert((args + seq!['\n'])[0] == c0);
    assert((args + seq!['\n']).drop_first() =~= args.drop_first() + seq!['\n']);
    let st_args1 = DecoderStateView::DirectiveArguments {
        directive: d2,
        arguments: Some(Seq::empty().push(c0)),
        new_line_behaviour: crate::decode::NewLineBehaviour::Observe,
        string_stack: stack0,
    };
    assert(seq![c0].drop_first() =~= Seq::<char>::empty());
    assert(spec_run(Some(st_args0), args + seq!['\n']) == spec_run(
        Some(st_args1),
        args.drop_first() + seq!['\n'],
    )) by {
        let e = Seq::<char>::empty();
        assert(seq![c0].drop_first() =~= e);
        if c0 == '\'' || c0 == '"' {
            let s1 = crate::decode::spec_stack_after(
                Seq::<crate::decode::StringToken>::empty(),
                crate::decode::spec_string_token_of(c0),
            );
            assert(spec_stack_steps(s1, e) == s1);
            assert(stack0 == s1);
        } else {
            assert(spec_stack_steps(Seq::<crate::decode::StringToken>::empty(), e) == Seq::<
                crate::decode::StringToken,
            >::empty());
            assert(stack0 == Seq::<crate::decode::StringToken>::empty());
        }
    }
    // the rest of the argument text accumulates verbatim
    assert forall|i: int| 0 <= i < args.drop_first().len() implies #[trigger] args.drop_first()[i]
        != '\n' && args.drop_first()[i] != '\\' by {
        assert(args.drop_first()[i] == args[i + 1]);
    }
    lemma_args_accum(d2, Seq::empty().push(c0), args.drop_first(), stack0, seq!['\n']);
    assert(Seq::empty().push(c0) + args.drop_first() =~= args);
    let st_full = DecoderStateView::DirectiveArguments {
        directive: d2,
        arguments: Some(args),
        new_line_behaviour: crate::decode::NewLineBehaviour::Observe,
        string_stack: spec_stack_steps(stack0, args.drop_first()),
    };
    // the final newline terminates the directive
    assert(seq!['\n'][0] == '\n');
    assert(seq!['\n'].drop_first() =~= Seq::<char>::empty());
    let empty_chars = Seq::<char>::empty();
    assert(seq!['\n'].drop_first() =~= empty_chars);
    assert(spec_run(None, empty_chars) == (DecodeRun {
        state: None,
        emitted: Seq::<DirectiveView>::empty(),
        error: None,
    }));
    match crate::parse::spec_set_arguments(d2, args) {
        Ok(d) => {
            assert(spec_step(Some(st_full), '\n') == StepRes::Emit(d));
            assert(spec_run(Some(st_full), seq!['\n']) == (DecodeRun {
                state: None,
                emitted: Seq::<DirectiveView>::empty().push(d) + Seq::<DirectiveView>::empty(),
                error: None,
            }));
            assert(Seq::<DirectiveView>::empty().push(d) + Seq::<DirectiveView>::empty()
                =~= seq![d]);
            assert(spec_run(None, line).emitted =~= seq![d]);
            assert(spec_run(None, line).error is None);
            assert(spec_run(None, line).state is None);
            assert(crate::decode::spec_decode(line) == Ok::<_, DecodeError>(seq![d]));
        }
        Err(e) => {
            assert(spec_step(Some(st_full), '\n') == StepRes::Fail(e));
            assert(spec_run(Some(st_full), seq!['\n']).error == Some(e));
            assert(spec_run(None, line).error == Some(e));
            assert(crate::decode::spec_decode(line) == Err::<Seq<DirectiveView>, _>(e));
        }
    }
}

/// An ASCII letter begins a keyword.
spec fn spec_begin_line_is_keyword(c: char) -> bool {
    crate::decode::spec_begin_line(c) == crate::decode::StepRes::Next(
        Some(DecoderStateView::Directive(Seq::empty().push(c))),
    )
}



/// The keyword text `ENTRYPOINT` is recognized as the entrypoint keyword.
proof fn lemma_entrypoint_keyword()
    ensures
        forall|i: int|
            0 <= i < "ENTRYPOINT"@.len() ==> crate::text::spec_is_alpha(
                #[trigger] "ENTRYPOINT"@[i],
            ),
        crate::parse::spec_directive_of_keyword("ENTRYPOINT"@) == (DirectiveView::Entrypoint {
            mode: None,
            tokens: Seq::empty(),
        }),
{
    reveal_strlit("ENTRYPOINT");
    let kw = "ENTRYPOINT"@;
    assert forall|i: int| 0 <= i < kw.len() implies crate::text::spec_is_alpha(
        #[trigger] kw[i],
    ) by {
        if i == 0 {
            assert(kw[i] == 'E');
        } else if i == 1 {
            assert(kw[i] == 'N');
        } else if i == 2 {
            assert(kw[i] == 'T');
        } else if i == 3 {
            assert(kw[i] == 'R');
        } else if i == 4 {
            assert(kw[i] == 'Y');
        } else if i == 5 {
            assert(kw[i] == 'P');
        } else if i == 6 {
            assert(kw[i] == 'O');
        } else if i == 7 {
            assert(kw[i] == 'I');
        } else if i == 8 {
            assert(kw[i] == 'N');
        } else {
            assert(kw[i] == 'T');
        }
    }
    assert(crate::parse::spec_kw_eq(kw, "ENTRYPOINT"@)) by {
        assert forall|i: int| 0 <= i < kw.len() implies crate::parse::spec_ci(
            kw[i],
            #[trigger] "ENTRYPOINT"@[i],
        ) by {}
    }
}

/// Round trip of a whole decoded line: a shell-form `ENTRYPOINT` line that
/// is free of newlines and backslashes decodes to exactly one directive,
/// and rendering that directive reproduces the line up to its trailing
/// newline.
pub proof fn lemma_entrypoint_line_round_trip(args: Seq<char>)
    requires
        args.len() > 0,
        args[0] != ' ',
        args[0] != '[',
        forall|i: int| 0 <= i < args.len() ==> #[trigger] args[i] != '\n' && args[i] != '\\',
    ensures
        ({
            let line = "ENTRYPOINT"@ + " "@ + args + "\n"@;
            match crate::decode::spec_decode(line) {
                Ok(ds) => ds.len() == 1 && spec_render_line(ds[0]) + "\n"@ == line,
                Err(_) => false,
            }
        }),
{
    reveal_strlit("ENTRYPOINT");
    lemma_entrypoint_keyword();
    lemma_decode_single_line("ENTRYPOINT"@, args);
    let empty_entry = DirectiveView::Entrypoint { mode: None, tokens: Seq::empty() };
    let d0 = crate::decode::spec_with_mode(empty_entry, args[0]);
    assert(d0 == (DirectiveView::Entrypoint {
        mode: Some(crate::directive::Mode::Shell),
        tokens: Seq::<Seq<char>>::empty(),
    }));
    let d = DirectiveView::Entrypoint {
        mode: Some(crate::directive::Mode::Shell),
        tokens: crate::parse::spec_parse_shell_tokens(args),
    };
    assert(crate::parse::spec_set_arguments(d0, args) == Ok::<_, DecodeError>(d));
    lemma_shell_round_trip(args);
    assert(spec_render_line(d) == "ENTRYPOINT"@ + " "@ + args);
    let line = "ENTRYPOINT"@ + " "@ + args + "\n"@;
    assert(crate::decode::spec_decode(line) == Ok::<_, DecodeError>(seq![d]));
    assert(seq![d][0] == d);
    assert(spec_render_line(d) + "\n"@ == line);
}



/// A character clean for single-line argument text: not a newline and not
/// a backslash.
pub open spec fn spec_plain_char(c: char) -> bool {
    c != '\n' && c != '\\'
}

/// Joining pieces of clean characters with a clean separator yields clean
/// text.
proof fn lemma_join_plain(parts: Seq<Seq<char>>, sep: Seq<char>)
    requires
        forall|i: int, j: int|
            0 <= i < parts.len() && 0 <= j < parts[i].len() ==> spec_plain_char(
                #[trigger] parts[i][j],
            ),
        forall|j: int| 0 <= j < sep.len() ==> spec_plain_char(#[trigger] sep[j]),
    ensures
        forall|j: int|
            0 <= j < spec_join(parts, sep).len() ==> spec_plain_char(
                #[trigger] spec_join(parts, sep)[j],
            ),
    decreases parts.len(),
{
    if parts.len() == 0 {
    } else if parts.len() == 1 {
        assert(spec_join(parts, sep) == parts[0]);
    } else {
        assert forall|i: int, j: int|
            0 <= i < parts.drop_first().len() && 0 <= j < parts.drop_first()[i].len()
            implies spec_plain_char(#[trigger] parts.drop_first()[i][j]) by {
            assert(parts.drop_first()[i] == parts[i + 1]);
        }
        lemma_join_plain(parts.drop_first(), sep);
        let joined = spec_join(parts, sep);
        let rest = spec_join(parts.drop_first(), sep);
        assert(joined == parts[0] + sep + rest);
        assert forall|j: int| 0 <= j < joined.len() implies spec_plain_char(
            #[trigger] joined[j],
        ) by {
            if j < parts[0].len() {
                assert(joined[j] == parts[0][j]);
            } else if j < parts[0].len() + sep.len() {
                assert(joined[j] == sep[j - parts[0].len()]);
            } else {
                assert(joined[j] == rest[j - parts[0].len() - sep.len()]);
            }
        }
    }
}

/// Round trip of a whole exec-form `ENTRYPOINT` line: tokens free of
/// commas, newlines and backslashes, rendered as a bracketed quoted list
/// and decoded back, yield exactly one exec-form `ENTRYPOINT` carrying the
/// same tokens, and rendering it reproduces the line up to its trailing
/// newline.
pub proof fn lemma_entrypoint_exec_line_round_trip(tokens: Seq<Seq<char>>)
    requires
        tokens.len() > 0,
        forall|i: int, j: int|
            0 <= i < tokens.len() && 0 <= j < tokens[i].len() ==> #[trigger] tokens[i][j] != ','
                && spec_plain_char(tokens[i][j]),
    ensures
        ({
            let rendered = spec_render_command(Some(crate::directive::Mode::Exec), tokens);
            let line = "ENTRYPOINT"@ + " "@ + rendered + "\n"@;
            crate::decode::spec_decode(line) == Ok::<_, DecodeError>(
                seq![
                    DirectiveView::Entrypoint {
                        mode: Some(crate::directive::Mode::Exec),
                        tokens,
                    },
                ],
            ) && spec_render_line(
                DirectiveView::Entrypoint { mode: Some(crate::directive::Mode::Exec), tokens },
            ) + "\n"@ == line
        }),
{
    reveal_strlit("ENTRYPOINT");
    reveal_strlit("[");
    reveal_strlit("]");
    reveal_strlit("\"");
    reveal_strlit(", ");
    lemma_entrypoint_keyword();
    let quoted = tokens.map_values(|t: Seq<char>| crate::render::spec_quote(t));
    let joined = spec_join(quoted, ", "@);
    let rendered = spec_render_command(Some(crate::directive::Mode::Exec), tokens);
    assert(rendered == "["@ + joined + "]"@);
    // every character of the rendered list is clean
    assert forall|i: int, j: int|
        0 <= i < quoted.len() && 0 <= j < quoted[i].len() implies spec_plain_char(
        #[trigger] quoted[i][j],
    ) by {
        assert(quoted[i] == crate::render::spec_quote(tokens[i]));
        if j == 0 || j == quoted[i].len() - 1 {
            assert(quoted[i][j] == '"');
        } else {
            assert(quoted[i][j] == tokens[i][j - 1]);
        }
    }
    assert(", "@ =~= seq![',', ' ']);
    assert forall|j: int| 0 <= j < ", "@.len() implies spec_plain_char(
        #[trigger] ", "@[j],
    ) by {}
    lemma_join_plain(quoted, ", "@);
    assert(rendered.len() > 0);
    assert(rendered[0] == '[');
    assert forall|j: int| 0 <= j < rendered.len() implies #[trigger] rendered[j] != '\n'
        && rendered[j] != '\\' by {
        if j == 0 {
            assert(rendered[j] == '[');
        } else if j < joined.len() + 1 {
            assert(rendered[j] == joined[j - 1]);
            assert(spec_plain_char(joined[j - 1]));
        } else {
            assert(rendered[j] == ']');
        }
    }
    // decode the line and parse the tokens back
    lemma_decode_single_line("ENTRYPOINT"@, rendered);
    let empty_entry = DirectiveView::Entrypoint { mode: None, tokens: Seq::empty() };
    let d0 = crate::decode::spec_with_mode(empty_entry, rendered[0]);
    assert(d0 == (DirectiveView::Entrypoint {
        mode: Some(crate::directive::Mode::Exec),
        tokens: Seq::<Seq<char>>::empty(),
    }));
    lemma_exec_round_trip(tokens);
    let d = DirectiveView::Entrypoint { mode: Some(crate::directive::Mode::Exec), tokens };
    assert(crate::parse::spec_set_arguments(d0, rendered) == Ok::<_, DecodeError>(d));
    assert(spec_render_line(d) == "ENTRYPOINT"@ + " "@ + rendered);
    let line = "ENTRYPOINT"@ + " "@ + rendered + "\n"@;
    assert(crate::decode::spec_decode(line) == Ok::<_, DecodeError>(seq![d]));
}


} // verus!
