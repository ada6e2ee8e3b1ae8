//! The build orchestrator's computable parts: the processed Dockerfile's
//! name, the command line handed to the external container builder, and the
//! record a finished build yields. The orchestration itself (filesystem,
//! subprocesses) lives outside the verified library and hands plain values
//! in and out.

use vstd::prelude::*;

use crate::config::EIFMeasurements;

verus! {

/// The name under which the processed Dockerfile is written into the
/// scratch directory.
pub const EV_USER_DOCKERFILE_PATH: &'static str = "ev-user.Dockerfile";

/// A finished enclave build: its measurements, the image file, and the
/// scratch directory both live in.
#[derive(Debug)]
pub struct BuiltEnclave {
    pub measurements: EIFMeasurements,
    pub eif_path: String,
    pub output_dir: String,
}

impl BuiltEnclave {
    pub fn measurements(&self) -> (r: &EIFMeasurements)
        ensures
            r == &self.measurements,
    {
        &self.measurements
    }

    pub fn eif_path(&self) -> (r: &str)
        ensures
            r@ == self.eif_path@,
    {
        self.eif_path.as_str()
    }

    pub fn output_dir(&self) -> (r: &str)
        ensures
            r@ == self.output_dir@,
    {
        self.output_dir.as_str()
    }
}

/// The `--build-arg` pairs for the user-supplied build arguments: each
/// argument is preceded by its flag.
pub open spec fn spec_build_arg_flags(build_args: Seq<Seq<char>>) -> Seq<Seq<char>>
    decreases build_args.len(),
{
    if build_args.len() == 0 {
        Seq::empty()
    } else {
        spec_build_arg_flags(build_args.drop_last()) + seq![
            "--build-arg"@,
            build_args.last(),
        ]
    }
}

/// The argument list of the external builder invocation:
/// `build -f <dockerfile> -t <tag> [--no-cache] [--build-arg K=V]... <context>`.
pub open spec fn spec_build_command(
    dockerfile_path: Seq<char>,
    tag: Seq<char>,
    no_cache: bool,
    build_args: Seq<Seq<char>>,
    context_path: Seq<char>,
) -> Seq<Seq<char>> {
    seq!["build"@, "-f"@, dockerfile_path, "-t"@, tag] + (if no_cache {
        seq!["--no-cache"@]
    } else {
        Seq::empty()
    }) + spec_build_arg_flags(build_args) + seq![context_path]
}

/// Builds the argument list for the external container builder.
pub fn build_image_command_args(
    dockerfile_path: &str,
    tag: &str,
    no_cache: bool,
    build_args: &Vec<String>,
    context_path: &str,
) -> (r: Vec<String>)
    ensures
        crate::directive::token_views(r@) == spec_build_command(
            dockerfile_path@,
            tag@,
            no_cache,
            crate::directive::token_views(build_args@),
            context_path@,
        ),
{
    let ghost arg_views = crate::directive::token_views(build_args@);
    let mut r: Vec<String> = Vec::new();
    r.push(String::from_str("build"));
    r.push(String::from_str("-f"));
    r.push(String::from_str(dockerfile_path));
    r.push(String::from_str("-t"));
    r.push(String::from_str(tag));
    if no_cache {
        r.push(String::from_str("--no-cache"));
    }
    let ghost head = crate::directive::token_views(r@);
    proof {
        let expected_head = seq!["build"@, "-f"@, dockerfile_path@, "-t"@, tag@] + (if no_cache {
            seq!["--no-cache"@]
        } else {
            Seq::<Seq<char>>::empty()
        });
        assert(head =~= expected_head);
    }
    let mut i: usize = 0;
    while i < build_args.len()
        invariant
            i <= build_args.len(),
            arg_views == crate::directive::token_views(build_args@),
            arg_views.len() == build_args@.len(),
            crate::directive::token_views(r@) == head + spec_build_arg_flags(
                arg_views.take(i as int),
            ),
        decreases build_args.len() - i,
    {
        proof {
            assert(arg_views.take(i + 1).drop_last() =~= arg_views.take(i as int));
            assert(arg_views.take(i + 1).last() == arg_views[i as int]);
            assert(arg_views[i as int] == build_args@[i as int]@);
        }
        let ghost before = crate::directive::token_views(r@);
        r.push(String::from_str("--build-arg"));
        r.push(build_args[i].clone());
        proof {
            assert(crate::directive::token_views(r@) =~= before + seq![
                "--build-arg"@,
                build_args@[i as int]@,
            ]);
            assert(crate::directive::token_views(r@) =~= head + spec_build_arg_flags(
                arg_views.take(i + 1),
            ));
        }
        i = i + 1;
    }
    proof {
        assert(arg_views.take(build_args@.len() as int) =~= arg_views);
    }
    let ghost before_ctx = crate::directive::token_views(r@);
    r.push(String::from_str(context_path));
    proof {
        assert(crate::directive::token_views(r@) =~= before_ctx + seq![context_path@]);
        assert(crate::directive::token_views(r@) =~= spec_build_command(
            dockerfile_path@,
            tag@,
            no_cache,
            arg_views,
            context_path@,
        ));
    }
    r
}

} // verus!
