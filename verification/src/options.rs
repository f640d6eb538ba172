//! Command-line options.
//!
//! The recognized invocation is a subcommand (`build` or `run`) with flags:
//! `-v/--verbose`, `-p/--package <name>` (default `.`), `-b/--bin <name>`,
//! `-r/--release`, `-s/--symbol <name>`, `-w/--watch`. Tokens after a
//! literal `--` are forwarded verbatim to the spawned target. `-h/--help`
//! anywhere asks for the help text; an unknown flag or a stray positional is
//! an error. When the first positional is this program's own name — the
//! outer build tool invoking it as a subcommand — that positional is
//! skipped.

use vstd::prelude::*;
use vstd::string::StrSliceExecFns;
use vstd::string::StringSliceAdditionalSpecFns;

use crate::bytes::bytes_eq;
use crate::bytes::copy_bytes;
use crate::bytes::copy_vecs_range;
use crate::bytes::views_of;

verus! {

/// The configuration of one invocation.
pub struct Options {
    pub verbose: bool,
    pub package: Vec<u8>,
    pub bin: Option<Vec<u8>>,
    pub release: bool,
    pub symbol: Option<Vec<u8>>,
    pub watch: bool,
    pub forward: Vec<Vec<u8>>,
}

/// The mathematical content of `Options`.
pub ghost struct OptionsView {
    pub verbose: bool,
    pub package: Seq<u8>,
    pub bin: Option<Seq<u8>>,
    pub release: bool,
    pub symbol: Option<Seq<u8>>,
    pub watch: bool,
    pub forward: Seq<Seq<u8>>,
}

/// The view of an optional byte vector.
pub open spec fn opt_view(o: Option<Vec<u8>>) -> Option<Seq<u8>> {
    match o {
        Some(v) => Some(v@),
        None => None,
    }
}

impl View for Options {
    type V = OptionsView;

    open spec fn view(&self) -> OptionsView {
        OptionsView {
            verbose: self.verbose,
            package: self.package@,
            bin: opt_view(self.bin),
            release: self.release,
            symbol: opt_view(self.symbol),
            watch: self.watch,
            forward: views_of(self.forward@),
        }
    }
}

/// What one invocation asks for.
pub enum CliOutcome {
    /// `-h`/`--help` was given: print the help text and exit cleanly.
    Help,
    /// An unknown flag or a stray positional: print the help text and fail.
    Unknown,
    /// No recognized subcommand: print the help text.
    NoCommand,
    /// Compile the package once (or per change in watch mode).
    Build(Options),
    /// Compile, inject and run the host binary.
    Run(Options),
}

/// The mathematical content of a `CliOutcome`.
pub ghost enum CliOutcomeView {
    Help,
    Unknown,
    NoCommand,
    Build(OptionsView),
    Run(OptionsView),
}

impl View for CliOutcome {
    type V = CliOutcomeView;

    open spec fn view(&self) -> CliOutcomeView {
        match self {
            CliOutcome::Help => CliOutcomeView::Help,
            CliOutcome::Unknown => CliOutcomeView::Unknown,
            CliOutcome::NoCommand => CliOutcomeView::NoCommand,
            CliOutcome::Build(o) => CliOutcomeView::Build(o@),
            CliOutcome::Run(o) => CliOutcomeView::Run(o@),
        }
    }
}

/// The flag state accumulated while scanning the tokens before `--`.
pub ghost struct ParseState {
    pub verbose: bool,
    pub package: Seq<u8>,
    pub bin: Option<Seq<u8>>,
    pub release: bool,
    pub symbol: Option<Seq<u8>>,
    pub watch: bool,
    pub command: Option<Seq<u8>>,
}

/// The state before any token is read: no flags, package `.`, no command.
pub open spec fn init_state() -> ParseState {
    ParseState {
        verbose: false,
        package: ".".spec_bytes(),
        bin: None,
        release: false,
        symbol: None,
        watch: false,
        command: None,
    }
}

/// Whether a token is written as a flag: it begins with `-`.
pub open spec fn is_flag_token(t: Seq<u8>) -> bool {
    t.len() > 0 && t[0] == 45u8
}

/// One pass over the tokens before `--`, in order. Boolean flags set their
/// field; a value flag takes the next token as its value (a value flag that
/// ends the input is ignored); the first positional is the subcommand, and a
/// positional following the program's own name replaces it. `None` is an
/// unknown flag or a stray positional.
pub open spec fn parse_tokens(tokens: Seq<Seq<u8>>, st: ParseState) -> Option<ParseState>
    decreases tokens.len(),
{
    if tokens.len() == 0 {
        Some(st)
    } else {
        let t = tokens.first();
        let rest = tokens.drop_first();
        if t == "-v".spec_bytes() || t == "--verbose".spec_bytes() {
            parse_tokens(rest, ParseState { verbose: true, ..st })
        } else if t == "-r".spec_bytes() || t == "--release".spec_bytes() {
            parse_tokens(rest, ParseState { release: true, ..st })
        } else if t == "-w".spec_bytes() || t == "--watch".spec_bytes() {
            parse_tokens(rest, ParseState { watch: true, ..st })
        } else if t == "-p".spec_bytes() || t == "--package".spec_bytes() {
            if rest.len() == 0 {
                parse_tokens(rest, st)
            } else {
                parse_tokens(rest.drop_first(), ParseState { package: rest.first(), ..st })
            }
        } else if t == "-b".spec_bytes() || t == "--bin".spec_bytes() {
            if rest.len() == 0 {
                parse_tokens(rest, st)
            } else {
                parse_tokens(rest.drop_first(), ParseState { bin: Some(rest.first()), ..st })
            }
        } else if t == "-s".spec_bytes() || t == "--symbol".spec_bytes() {
            if rest.len() == 0 {
                parse_tokens(rest, st)
            } else {
                parse_tokens(rest.drop_first(), ParseState { symbol: Some(rest.first()), ..st })
            }
        } else if is_flag_token(t) {
            None
        } else if st.command is None {
            parse_tokens(rest, ParseState { command: Some(t), ..st })
        } else if st.command == Some("plonk".spec_bytes()) {
            parse_tokens(rest, ParseState { command: Some(t), ..st })
        } else {
            None
        }
    }
}

/// The tokens before the first `--`, and the tokens after it.
pub open spec fn split_forward(tokens: Seq<Seq<u8>>) -> (Seq<Seq<u8>>, Seq<Seq<u8>>)
    decreases tokens.len(),
{
    if tokens.len() == 0 {
        (Seq::empty(), Seq::empty())
    } else if tokens.first() == "--".spec_bytes() {
        (Seq::empty(), tokens.drop_first())
    } else {
        let r = split_forward(tokens.drop_first());
        (seq![tokens.first()] + r.0, r.1)
    }
}

/// Whether the tokens ask for the help text.
pub open spec fn has_help(tokens: Seq<Seq<u8>>) -> bool {
    exists|i: int|
        0 <= i < tokens.len() && (#[trigger] tokens[i] == "-h".spec_bytes() || tokens[i]
            == "--help".spec_bytes())
}

/// The options a finished scan denotes, together with the forwarded tokens.
pub open spec fn options_of(st: ParseState, forward: Seq<Seq<u8>>) -> OptionsView {
    OptionsView {
        verbose: st.verbose,
        package: st.package,
        bin: st.bin,
        release: st.release,
        symbol: st.symbol,
        watch: st.watch,
        forward: forward,
    }
}

/// What an argument list (the program's own path already removed) asks for:
/// the forwarded tokens are split off at the first `--`; help anywhere in
/// the head wins; then the head is scanned, and the subcommand decides.
pub open spec fn cli_outcome_spec(argv: Seq<Seq<u8>>) -> CliOutcomeView {
    let head = split_forward(argv).0;
    let forward = split_forward(argv).1;
    if has_help(head) {
        CliOutcomeView::Help
    } else {
        match parse_tokens(head, init_state()) {
            None => CliOutcomeView::Unknown,
            Some(st) => {
                if st.command == Some("build".spec_bytes()) {
                    CliOutcomeView::Build(options_of(st, forward))
                } else if st.command == Some("run".spec_bytes()) {
                    CliOutcomeView::Run(options_of(st, forward))
                } else {
                    CliOutcomeView::NoCommand
                }
            },
        }
    }
}

/// If none of the first `i` tokens is `--`, splitting off the forwarded
/// tokens keeps the first `i` tokens in the head.
proof fn lemma_split_forward_no_sep(tokens: Seq<Seq<u8>>, i: int)
    requires
        0 <= i <= tokens.len(),
        forall|j: int| 0 <= j < i ==> #[trigger] tokens[j] != "--".spec_bytes(),
    ensures
        i < tokens.len() && tokens[i] == "--".spec_bytes() ==> split_forward(tokens) == (
            tokens.subrange(0, i),
            tokens.subrange(i + 1, tokens.len() as int),
        ),
        i == tokens.len() ==> split_forward(tokens) == (tokens, Seq::<Seq<u8>>::empty()),
    decreases i,
{
    if i == 0 {
        if 0 < tokens.len() && tokens[0] == "--".spec_bytes() {
            assert(tokens.subrange(0, 0) =~= Seq::<Seq<u8>>::empty());
            assert(tokens.drop_first() =~= tokens.subrange(1, tokens.len() as int));
        } else if tokens.len() == 0 {
        }
    } else {
        let rest = tokens.drop_first();
        assert(tokens[0] != "--".spec_bytes());
        assert(forall|j: int| 0 <= j < i - 1 ==> #[trigger] rest[j] == tokens[j + 1]);
        lemma_split_forward_no_sep(rest, i - 1);
        if i < tokens.len() && tokens[i] == "--".spec_bytes() {
            assert(rest[i - 1] == tokens[i]);
            assert(split_forward(rest) == (
                rest.subrange(0, i - 1),
                rest.subrange(i, rest.len() as int),
            ));
            assert(seq![tokens.first()] + rest.subrange(0, i - 1) =~= tokens.subrange(0, i));
            assert(rest.subrange(i, rest.len() as int) =~= tokens.subrange(
                i + 1,
                tokens.len() as int,
            ));
        } else if i == tokens.len() {
            assert(split_forward(rest) == (rest, Seq::<Seq<u8>>::empty()));
            assert(seq![tokens.first()] + rest =~= tokens);
        }
    }
}

/// Splits an argument list at the first `--`: the head of recognized
/// tokens, and the tokens forwarded verbatim to the target.
fn split_forward_args(argv: &Vec<Vec<u8>>) -> (r: (Vec<Vec<u8>>, Vec<Vec<u8>>))
    ensures
        views_of(r.0@) == split_forward(views_of(argv@)).0,
        views_of(r.1@) == split_forward(views_of(argv@)).1,
{
    let sep = "--".as_bytes_vec();
    let ghost argv_v = views_of(argv@);
    let mut i: usize = 0;
    while i < argv.len()
        invariant
            i <= argv.len(),
            sep@ == "--".spec_bytes(),
            argv_v == views_of(argv@),
            forall|j: int| 0 <= j < i ==> #[trigger] argv_v[j] != "--".spec_bytes(),
        decreases argv.len() - i,
    {
        proof {
            assert(argv_v[i as int] == argv@[i as int]@);
        }
        if bytes_eq(&argv[i], &sep) {
            let head = copy_vecs_range(argv, 0, i);
            let forward = copy_vecs_range(argv, i + 1, argv.len());
            proof {
                lemma_split_forward_no_sep(argv_v, i as int);
            }
            return (head, forward);
        }
        i += 1;
    }
    let head = copy_vecs_range(argv, 0, argv.len());
    proof {
        lemma_split_forward_no_sep(argv_v, argv@.len() as int);
        assert(views_of(head@) =~= argv_v);
        assert(argv_v.subrange(0, argv_v.len() as int) =~= argv_v);
    }
    (head, Vec::new())
}

/// Tests whether the head asks for the help text.
fn scan_help(head: &Vec<Vec<u8>>) -> (r: bool)
    ensures
        r == has_help(views_of(head@)),
{
    let short = "-h".as_bytes_vec();
    let long = "--help".as_bytes_vec();
    let ghost head_v = views_of(head@);
    let mut i: usize = 0;
    while i < head.len()
        invariant
            i <= head.len(),
            short@ == "-h".spec_bytes(),
            long@ == "--help".spec_bytes(),
            head_v == views_of(head@),
            forall|j: int|
                0 <= j < i ==> !(#[trigger] head_v[j] == "-h".spec_bytes() || head_v[j]
                    == "--help".spec_bytes()),
        decreases head.len() - i,
    {
        proof {
            assert(head_v[i as int] == head@[i as int]@);
        }
        if bytes_eq(&head[i], &short) || bytes_eq(&head[i], &long) {
            return true;
        }
        i += 1;
    }
    false
}

/// Parses an argument list, the program's own path already removed, into
/// what the invocation asks for. The result is exactly `cli_outcome_spec`
/// of the argument views.
pub fn parse_args(argv: &Vec<Vec<u8>>) -> (r: CliOutcome)
    ensures
        r@ == cli_outcome_spec(views_of(argv@)),
{
    let (head, forward) = split_forward_args(argv);
    if scan_help(&head) {
        return CliOutcome::Help;
    }
    let flag_v = "-v".as_bytes_vec();
    let flag_verbose = "--verbose".as_bytes_vec();
    let flag_r = "-r".as_bytes_vec();
    let flag_release = "--release".as_bytes_vec();
    let flag_w = "-w".as_bytes_vec();
    let flag_watch = "--watch".as_bytes_vec();
    let flag_p = "-p".as_bytes_vec();
    let flag_package = "--package".as_bytes_vec();
    let flag_b = "-b".as_bytes_vec();
    let flag_bin = "--bin".as_bytes_vec();
    let flag_s = "-s".as_bytes_vec();
    let flag_symbol = "--symbol".as_bytes_vec();
    let plonk_name = "plonk".as_bytes_vec();

    let mut verbose = false;
    let mut package = ".".as_bytes_vec();
    let mut bin: Option<Vec<u8>> = None;
    let mut release = false;
    let mut symbol: Option<Vec<u8>> = None;
    let mut watch = false;
    let mut command: Option<Vec<u8>> = None;

    let ghost head_v = views_of(head@);
    let ghost mut st = init_state();
    let mut i: usize = 0;
    proof {
        assert(head_v.subrange(0, head_v.len() as int) =~= head_v);
    }
    while i < head.len()
        invariant
            i <= head.len(),
            head_v == views_of(head@),
            head_v == split_forward(views_of(argv@)).0,
            !has_help(head_v),
            flag_v@ == "-v".spec_bytes(),
            flag_verbose@ == "--verbose".spec_bytes(),
            flag_r@ == "-r".spec_bytes(),
            flag_release@ == "--release".spec_bytes(),
            flag_w@ == "-w".spec_bytes(),
            flag_watch@ == "--watch".spec_bytes(),
            flag_p@ == "-p".spec_bytes(),
            flag_package@ == "--package".spec_bytes(),
            flag_b@ == "-b".spec_bytes(),
            flag_bin@ == "--bin".spec_bytes(),
            flag_s@ == "-s".spec_bytes(),
            flag_symbol@ == "--symbol".spec_bytes(),
            plonk_name@ == "plonk".spec_bytes(),
            st == (ParseState {
                verbose: verbose,
                package: package@,
                bin: opt_view(bin),
                release: release,
                symbol: opt_view(symbol),
                watch: watch,
                command: opt_view(command),
            }),
            parse_tokens(head_v, init_state()) == parse_tokens(
                head_v.subrange(i as int, head_v.len() as int),
                st,
            ),
        decreases head.len() - i,
    {
        let ghost rest = head_v.subrange(i as int, head_v.len() as int);
        let ghost rest1 = head_v.subrange(i + 1, head_v.len() as int);
        proof {
            assert(rest.first() == head_v[i as int]);
            assert(rest.drop_first() =~= rest1);
            assert(head_v[i as int] == head@[i as int]@);
        }
        let t = &head[i];
        if bytes_eq(t, &flag_v) || bytes_eq(t, &flag_verbose) {
            verbose = true;
            proof {
                st = ParseState { verbose: true, ..st };
            }
            i += 1;
        } else if bytes_eq(t, &flag_r) || bytes_eq(t, &flag_release) {
            release = true;
            proof {
                st = ParseState { release: true, ..st };
            }
            i += 1;
        } else if bytes_eq(t, &flag_w) || bytes_eq(t, &flag_watch) {
            watch = true;
            proof {
                st = ParseState { watch: true, ..st };
            }
            i += 1;
        } else if bytes_eq(t, &flag_p) || bytes_eq(t, &flag_package) {
            if i + 1 < head.len() {
                proof {
                    assert(rest1.first() == head_v[i + 1]);
                    assert(head_v[i + 1] == head@[i + 1]@);
                    assert(rest1.drop_first() =~= head_v.subrange(i + 2, head_v.len() as int));
                }
                package = copy_bytes(&head[i + 1]);
                proof {
                    st = ParseState { package: head_v[i + 1], ..st };
                }
                i += 2;
            } else {
                proof {
                    assert(rest1.len() == 0);
                }
                i += 1;
            }
        } else if bytes_eq(t, &flag_b) || bytes_eq(t, &flag_bin) {
            if i + 1 < head.len() {
                proof {
                    assert(rest1.first() == head_v[i + 1]);
                    assert(head_v[i + 1] == head@[i + 1]@);
                    assert(rest1.drop_first() =~= head_v.subrange(i + 2, head_v.len() as int));
                }
                bin = Some(copy_bytes(&head[i + 1]));
                proof {
                    st = ParseState { bin: Some(head_v[i + 1]), ..st };
                }
                i += 2;
            } else {
                proof {
                    assert(rest1.len() == 0);
                }
                i += 1;
            }
        } else if bytes_eq(t, &flag_s) || bytes_eq(t, &flag_symbol) {
            if i + 1 < head.len() {
                proof {
                    assert(rest1.first() == head_v[i + 1]);
                    assert(head_v[i + 1] == head@[i + 1]@);
                    assert(rest1.drop_first() =~= head_v.subrange(i + 2, head_v.len() as int));
                }
                symbol = Some(copy_bytes(&head[i + 1]));
                proof {
                    st = ParseState { symbol: Some(head_v[i + 1]), ..st };
                }
                i += 2;
            } else {
                proof {
                    assert(rest1.len() == 0);
                }
                i += 1;
            }
        } else if t.len() > 0 && t[0] == 45u8 {
            proof {
                assert(is_flag_token(rest.first()));
            }
            return CliOutcome::Unknown;
        } else {
            proof {
                assert(!is_flag_token(rest.first()));
            }
            let may_take = match &command {
                None => true,
                Some(c) => bytes_eq(c, &plonk_name),
            };
            if may_take {
                command = Some(copy_bytes(t));
                proof {
                    st = ParseState { command: Some(head_v[i as int]), ..st };
                }
                i += 1;
            } else {
                return CliOutcome::Unknown;
            }
        }
    }
    proof {
        assert(head_v.subrange(head_v.len() as int, head_v.len() as int).len() == 0);
        assert(parse_tokens(head_v, init_state()) == Some(st));
    }
    let build_name = "build".as_bytes_vec();
    let run_name = "run".as_bytes_vec();
    let is_build = match &command {
        Some(c) => bytes_eq(c, &build_name),
        None => false,
    };
    let is_run = match &command {
        Some(c) => bytes_eq(c, &run_name),
        None => false,
    };
    proof {
        assert(build_name@ == "build".spec_bytes());
        assert(run_name@ == "run".spec_bytes());
    }
    if is_build {
        let opts = Options { verbose, package, bin, release, symbol, watch, forward };
        proof {
            assert(opts@ == options_of(st, split_forward(views_of(argv@)).1));
        }
        CliOutcome::Build(opts)
    } else if is_run {
        let opts = Options { verbose, package, bin, release, symbol, watch, forward };
        proof {
            assert(opts@ == options_of(st, split_forward(views_of(argv@)).1));
        }
        CliOutcome::Run(opts)
    } else {
        CliOutcome::NoCommand
    }
}

} // verus!
