//! One reload iteration's spawn plan.
//!
//! After the build produced the reload library, the host binary was chosen
//! and both decorated symbols were resolved, the driver composes the exact
//! command the platform injector spawns: the host binary, the forwarded
//! arguments in their given order, and the environment that configures the
//! injected agent — the reload library and host binary paths, the old and
//! new decorated symbols, and the platform's loader controls.

use vstd::prelude::*;
use vstd::string::StrSliceExecFns;
use vstd::string::StringSliceAdditionalSpecFns;

use crate::bytes::concat_bytes;
use crate::bytes::copy_bytes;
use crate::bytes::copy_vecs_range;
use crate::bytes::views_of;
use crate::options::Options;

verus! {

/// The operating system an iteration injects on.
#[derive(Clone, Copy, Debug, PartialEq, Eq, Structural)]
pub enum Platform {
    /// Inject by the dynamic linker's preload environment variable.
    Linux,
    /// Inject by the dynamic loader's insert-libraries environment variable.
    MacOs,
    /// Inject by a remote thread in the suspended target.
    Windows,
}

/// One environment entry set on the spawned target.
pub struct EnvPair {
    pub name: Vec<u8>,
    pub value: Vec<u8>,
}

/// The mathematical content of an `EnvPair`.
pub ghost struct EnvPairView {
    pub name: Seq<u8>,
    pub value: Seq<u8>,
}

impl View for EnvPair {
    type V = EnvPairView;

    open spec fn view(&self) -> EnvPairView {
        EnvPairView { name: self.name@, value: self.value@ }
    }
}

/// The models of a sequence of environment entries.
pub open spec fn env_models(s: Seq<EnvPair>) -> Seq<EnvPairView> {
    s.map_values(|e: EnvPair| e@)
}

/// Everything the platform injector needs to spawn one target.
pub struct SpawnPlan {
    /// The host binary to spawn.
    pub program: Vec<u8>,
    /// The arguments handed to it: the forwarded tokens, verbatim.
    pub args: Vec<Vec<u8>>,
    /// The environment entries appended for the agent and the loader.
    pub env: Vec<EnvPair>,
    /// Whether the target must start suspended, for remote-thread injection.
    pub suspended: bool,
}

/// Why no spawn plan could be composed.
#[derive(Debug, PartialEq, Eq, Structural)]
pub enum PlanError {
    /// No `-s` symbol was given, and the platform resolves in the driver.
    NoSymbolGiven,
    /// The old symbol was not found in the host binary.
    OldSymbolMissing,
    /// The new symbol was not found in the reload library.
    NewSymbolMissing,
}

/// A single environment pair.
pub open spec fn pair(name: Seq<u8>, value: Seq<u8>) -> EnvPairView {
    EnvPairView { name: name, value: value }
}

/// The environment an iteration sets on the target, in order: verbosity for
/// the agent when asked; the decorated symbols; the reload library and host
/// binary paths; and the platform's loader controls — the preload (or
/// insert-libraries) variable naming the agent, and a loader search path
/// into the compiler runtime's library directory.
pub open spec fn env_spec(
    platform: Platform,
    verbose: bool,
    symbol: Option<Seq<u8>>,
    old_symbol: Seq<u8>,
    new_symbol: Seq<u8>,
    library_path: Seq<u8>,
    bin_path: Seq<u8>,
    agent_path: Seq<u8>,
    sysroot: Seq<u8>,
) -> Seq<EnvPairView> {
    (if verbose {
        seq![pair("VERBOSE".spec_bytes(), "y".spec_bytes())]
    } else {
        Seq::empty()
    }) + (match platform {
        Platform::Windows => match symbol {
            Some(s) => seq![
                pair("SYMBOL".spec_bytes(), s),
                pair("NEW_SYMBOL".spec_bytes(), s),
            ],
            None => Seq::empty(),
        },
        _ => seq![
            pair("SYMBOL".spec_bytes(), old_symbol),
            pair("NEW_SYMBOL".spec_bytes(), new_symbol),
        ],
    }) + seq![
        pair("PLONK_LIBRARY".spec_bytes(), library_path),
        pair("PLONK_BINARY".spec_bytes(), bin_path),
    ] + (match platform {
        Platform::Linux => seq![
            pair("LD_PRELOAD".spec_bytes(), agent_path),
            pair("LD_LIBRARY_PATH".spec_bytes(), sysroot + "/lib".spec_bytes()),
        ],
        Platform::MacOs => seq![
            pair("DYLD_INSERT_LIBRARIES".spec_bytes(), agent_path),
            pair("DYLD_LIBRARY_PATH".spec_bytes(), sysroot + "/lib".spec_bytes()),
        ],
        Platform::Windows => seq![
            pair(
                "PATH".spec_bytes(),
                sysroot + "/lib/rustlib/x86_64-pc-windows-msvc/lib".spec_bytes(),
            ),
        ],
    })
}

/// Composes the spawn plan of one iteration.
///
/// On Linux and macOS a logical symbol is required and both decorated
/// symbols must have resolved; missing ones are the iteration's error, and
/// nothing is spawned. On Windows the agent resolves lazily, so the logical
/// symbol is passed through as it is and the target starts suspended. The
/// forwarded tokens become the target's arguments, verbatim and in order.
pub fn compose_spawn_plan(
    opts: &Options,
    library_path: &Vec<u8>,
    bin_path: &Vec<u8>,
    old_symbol: Option<&Vec<u8>>,
    new_symbol: Option<&Vec<u8>>,
    agent_path: &Vec<u8>,
    sysroot: &Vec<u8>,
    platform: Platform,
) -> (r: Result<SpawnPlan, PlanError>)
    ensures
        match r {
            Ok(plan) => {
                &&& views_of(plan.args@) == opts@.forward
                &&& plan.program@ == bin_path@
                &&& plan.suspended == (platform is Windows)
                &&& env_models(plan.env@) == env_spec(
                    platform,
                    opts@.verbose,
                    opts@.symbol,
                    match old_symbol {
                        Some(o) => o@,
                        None => Seq::empty(),
                    },
                    match new_symbol {
                        Some(n) => n@,
                        None => Seq::empty(),
                    },
                    library_path@,
                    bin_path@,
                    agent_path@,
                    sysroot@,
                )
                &&& (platform is Windows || (opts@.symbol is Some && old_symbol is Some
                    && new_symbol is Some))
            },
            Err(e) => {
                &&& !(platform is Windows)
                &&& match e {
                    PlanError::NoSymbolGiven => opts@.symbol is None,
                    PlanError::OldSymbolMissing => opts@.symbol is Some && old_symbol is None,
                    PlanError::NewSymbolMissing => opts@.symbol is Some && old_symbol is Some
                        && new_symbol is None,
                }
            },
        },
{
    let is_windows = matches!(platform, Platform::Windows);
    if !is_windows {
        if opts.symbol.is_none() {
            return Err(PlanError::NoSymbolGiven);
        }
        if old_symbol.is_none() {
            return Err(PlanError::OldSymbolMissing);
        }
        if new_symbol.is_none() {
            return Err(PlanError::NewSymbolMissing);
        }
    }
    let mut env: Vec<EnvPair> = Vec::new();
    if opts.verbose {
        env.push(EnvPair { name: "VERBOSE".as_bytes_vec(), value: "y".as_bytes_vec() });
    }
    if is_windows {
        match &opts.symbol {
            Some(s) => {
                env.push(EnvPair { name: "SYMBOL".as_bytes_vec(), value: copy_bytes(s) });
                env.push(EnvPair { name: "NEW_SYMBOL".as_bytes_vec(), value: copy_bytes(s) });
            },
            None => {},
        }
    } else {
        let old = match old_symbol {
            Some(o) => copy_bytes(o),
            None => Vec::new(),
        };
        let new = match new_symbol {
            Some(n) => copy_bytes(n),
            None => Vec::new(),
        };
        env.push(EnvPair { name: "SYMBOL".as_bytes_vec(), value: old });
        env.push(EnvPair { name: "NEW_SYMBOL".as_bytes_vec(), value: new });
    }
    env.push(EnvPair { name: "PLONK_LIBRARY".as_bytes_vec(), value: copy_bytes(library_path) });
    env.push(EnvPair { name: "PLONK_BINARY".as_bytes_vec(), value: copy_bytes(bin_path) });
    match platform {
        Platform::Linux => {
            env.push(
                EnvPair { name: "LD_PRELOAD".as_bytes_vec(), value: copy_bytes(agent_path) },
            );
            env.push(
                EnvPair {
                    name: "LD_LIBRARY_PATH".as_bytes_vec(),
                    value: concat_bytes(sysroot, &"/lib".as_bytes_vec()),
                },
            );
        },
        Platform::MacOs => {
            env.push(
                EnvPair {
                    name: "DYLD_INSERT_LIBRARIES".as_bytes_vec(),
                    value: copy_bytes(agent_path),
                },
            );
            env.push(
                EnvPair {
                    name: "DYLD_LIBRARY_PATH".as_bytes_vec(),
                    value: concat_bytes(sysroot, &"/lib".as_bytes_vec()),
                },
            );
        },
        Platform::Windows => {
            env.push(
                EnvPair {
                    name: "PATH".as_bytes_vec(),
                    value: concat_bytes(
                        sysroot,
                        &"/lib/rustlib/x86_64-pc-windows-msvc/lib".as_bytes_vec(),
                    ),
                },
            );
        },
    }
    let args = copy_vecs_range(&opts.forward, 0, opts.forward.len());
    proof {
        assert(views_of(opts.forward@).subrange(0, opts.forward@.len() as int) =~= views_of(
            opts.forward@,
        ));
        assert(env_models(env@) =~= env_spec(
            platform,
            opts@.verbose,
            opts@.symbol,
            match old_symbol {
                Some(o) => o@,
                None => Seq::empty(),
            },
            match new_symbol {
                Some(n) => n@,
                None => Seq::empty(),
            },
            library_path@,
            bin_path@,
            agent_path@,
            sysroot@,
        ));
    }
    Ok(
        SpawnPlan {
            program: copy_bytes(bin_path),
            args,
            env,
            suspended: is_windows,
        },
    )
}

/// The diagnostic an iteration reports when a symbol cannot be found in an
/// image: the logical name in backquotes, then the image's path.
pub fn symbol_missing_message(symbol: &Vec<u8>, image: &Vec<u8>) -> (r: Vec<u8>)
    ensures
        r@ == "Failed to find function symbol `".spec_bytes() + symbol@ + "` in ".spec_bytes()
            + image@,
{
    let head = concat_bytes(&"Failed to find function symbol `".as_bytes_vec(), symbol);
    let mid = concat_bytes(&head, &"` in ".as_bytes_vec());
    let r = concat_bytes(&mid, image);
    proof {
        assert(r@ =~= "Failed to find function symbol `".spec_bytes() + symbol@
            + "` in ".spec_bytes() + image@);
    }
    r
}

} // verus!
