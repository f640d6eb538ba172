//! Build invocation and artifact discovery.
//!
//! One reload iteration first compiles the package as a dynamic library. The
//! functions here compose the exact build command line for that, parse the
//! build tool's JSON message stream, and pick the artifact that carries the
//! freshly built reload library: the first artifact whose target kinds
//! contain `dylib`.

use vstd::prelude::*;
use vstd::string::StrSliceExecFns;
use vstd::string::StringSliceAdditionalSpecFns;

use crate::bytes::bytes_eq;
use crate::bytes::copy_bytes;
use crate::bytes::views_of;

verus! {

/// One compiler artifact from the build message stream: the kinds of its
/// target and the paths of the files it produced.
pub struct ArtifactRecord {
    pub kinds: Vec<Vec<u8>>,
    pub filenames: Vec<Vec<u8>>,
}

/// The mathematical content of an `ArtifactRecord`.
pub ghost struct ArtifactModel {
    pub kinds: Seq<Seq<u8>>,
    pub filenames: Seq<Seq<u8>>,
}

impl View for ArtifactRecord {
    type V = ArtifactModel;

    open spec fn view(&self) -> ArtifactModel {
        ArtifactModel { kinds: views_of(self.kinds@), filenames: views_of(self.filenames@) }
    }
}

/// The models of a sequence of artifact records.
pub open spec fn artifact_models(s: Seq<ArtifactRecord>) -> Seq<ArtifactModel> {
    s.map_values(|a: ArtifactRecord| a@)
}

/// The compiler artifacts carried by a build-tool JSON message stream, in
/// stream order. The result depends on the stream bytes alone.
pub uninterp spec fn artifact_stream_of(bytes: Seq<u8>) -> Seq<ArtifactModel>;

/// Relies on cargo_metadata::Message::parse_stream: decodes a build tool's
/// JSON message stream; the compiler-artifact messages come back in stream
/// order, each with its target kinds and produced file paths.
#[verifier::external_body]
fn parse_artifact_stream(bytes: &Vec<u8>) -> (r: Vec<ArtifactRecord>)
    ensures
        artifact_models(r@) == artifact_stream_of(bytes@),
{
    cargo_metadata::Message::parse_stream(&bytes[..])
        .filter_map(|m| match m {
            Ok(cargo_metadata::Message::CompilerArtifact(a)) => Some(ArtifactRecord {
                kinds: a.target.kind.iter().map(|k| k.to_string().into_bytes()).collect(),
                filenames: a.filenames.iter().map(|f| f.to_string().into_bytes()).collect(),
            }),
            _ => None,
        })
        .collect()
}

/// Whether an artifact's target kinds include `dylib`.
pub open spec fn has_dylib_kind(a: ArtifactModel) -> bool {
    exists|j: int| 0 <= j < a.kinds.len() && a.kinds[j] == "dylib".spec_bytes()
}

/// Tests whether an artifact's target kinds include `dylib`.
fn is_dylib_artifact(a: &ArtifactRecord) -> (r: bool)
    ensures
        r == has_dylib_kind(a@),
{
    let needle = "dylib".as_bytes_vec();
    let mut j: usize = 0;
    while j < a.kinds.len()
        invariant
            j <= a.kinds.len(),
            needle@ == "dylib".spec_bytes(),
            forall|k: int| 0 <= k < j ==> views_of(a.kinds@)[k] != "dylib".spec_bytes(),
        decreases a.kinds.len() - j,
    {
        proof {
            assert(views_of(a.kinds@)[j as int] == a.kinds@[j as int]@);
        }
        if bytes_eq(&a.kinds[j], &needle) {
            proof {
                assert(a@.kinds[j as int] == "dylib".spec_bytes());
            }
            return true;
        }
        j += 1;
    }
    false
}

/// Picks the reload library's artifact out of a build message stream: the
/// first compiler artifact whose target kinds contain `dylib` — the build
/// step compiles one package as a dynamic library, so one is expected.
///
/// Returns `None` exactly when no artifact of the stream has a `dylib` kind.
pub fn extract_dylib_artifact(stdout: &Vec<u8>) -> (r: Option<ArtifactRecord>)
    ensures
        match r {
            Some(a) => exists|i: int|
                0 <= i < artifact_stream_of(stdout@).len() && a@ == artifact_stream_of(
                    stdout@,
                )[i] && has_dylib_kind(#[trigger] artifact_stream_of(stdout@)[i]) && forall|
                    j: int,
                |
                    0 <= j < i ==> !has_dylib_kind(#[trigger] artifact_stream_of(stdout@)[j]),
            None => forall|i: int|
                0 <= i < artifact_stream_of(stdout@).len() ==> !has_dylib_kind(
                    #[trigger] artifact_stream_of(stdout@)[i],
                ),
        },
{
    let mut arts = parse_artifact_stream(stdout);
    let ghost stream = artifact_stream_of(stdout@);
    let mut i: usize = 0;
    while i < arts.len()
        invariant
            i <= arts.len(),
            stream == artifact_stream_of(stdout@),
            artifact_models(arts@) == stream,
            forall|j: int| 0 <= j < i ==> !has_dylib_kind(#[trigger] stream[j]),
        decreases arts.len() - i,
    {
        proof {
            assert(artifact_models(arts@)[i as int] == arts@[i as int]@);
        }
        if is_dylib_artifact(&arts[i]) {
            let ghost arts_before = arts@;
            let found = arts.remove(i);
            proof {
                assert(found == arts_before[i as int]);
                assert(artifact_models(arts_before)[i as int] == arts_before[i as int]@);
                assert(artifact_models(arts_before).len() == arts_before.len());
                assert(found@ == artifact_stream_of(stdout@)[i as int]);
                assert(has_dylib_kind(artifact_stream_of(stdout@)[i as int]));
            }
            return Some(found);
        }
        i += 1;
    }
    None
}

/// The exact argument list handed to the build tool for one iteration:
/// compile the package as a dynamic library, in release mode when asked,
/// verbosely when asked, and with the JSON message stream switched on when
/// the caller wants the artifact back.
pub open spec fn cargo_args_spec(
    package: Seq<u8>,
    release: bool,
    verbose: bool,
    with_meta: bool,
) -> Seq<Seq<u8>> {
    seq![
        "rustc".spec_bytes(),
        "--crate-type=dylib".spec_bytes(),
        "-p".spec_bytes(),
        package,
    ] + (if release {
        seq!["--release".spec_bytes()]
    } else {
        Seq::empty()
    }) + (if verbose {
        seq!["-vv".spec_bytes()]
    } else {
        Seq::empty()
    }) + (if with_meta {
        seq!["--message-format=json-render-diagnostics".spec_bytes()]
    } else {
        Seq::empty()
    })
}

/// Composes the build tool's argument list for one iteration.
pub fn cargo_build_args(package: &Vec<u8>, release: bool, verbose: bool, with_meta: bool) -> (r:
    Vec<Vec<u8>>)
    ensures
        views_of(r@) == cargo_args_spec(package@, release, verbose, with_meta),
{
    let mut r: Vec<Vec<u8>> = Vec::new();
    r.push("rustc".as_bytes_vec());
    r.push("--crate-type=dylib".as_bytes_vec());
    r.push("-p".as_bytes_vec());
    r.push(copy_bytes(package));
    if release {
        r.push("--release".as_bytes_vec());
    }
    if verbose {
        r.push("-vv".as_bytes_vec());
    }
    if with_meta {
        r.push("--message-format=json-render-diagnostics".as_bytes_vec());
    }
    proof {
        assert(views_of(r@) =~= cargo_args_spec(package@, release, verbose, with_meta));
    }
    r
}

/// The environment entry the build runs under: the compiler is told to
/// prefer dynamic linking, so the reload library links against shared
/// runtime libraries.
pub fn cargo_build_env() -> (r: (Vec<u8>, Vec<u8>))
    ensures
        r.0@ == "RUSTFLAGS".spec_bytes(),
        r.1@ == "-C prefer-dynamic".spec_bytes(),
{
    ("RUSTFLAGS".as_bytes_vec(), "-C prefer-dynamic".as_bytes_vec())
}

} // verus!
