use plonk::driver::{compose_spawn_plan, symbol_missing_message, PlanError, Platform};
use plonk::options::Options;

fn v(s: &str) -> Vec<u8> {
    s.as_bytes().to_vec()
}

fn opts(symbol: Option<&str>, verbose: bool, forward: &[&str]) -> Options {
    Options {
        verbose,
        package: v("pkg"),
        bin: None,
        release: false,
        symbol: symbol.map(v),
        watch: false,
        forward: forward.iter().map(|t| v(t)).collect(),
    }
}

#[test]
fn linux_plan_sets_agent_environment() {
    // The driver-side half of a basic redirect: resolved symbols become the
    // agent's environment, the preload names the agent, and the target is
    // the chosen host binary.
    let o = opts(Some("greet"), false, &[]);
    let old = v("_ZN3pkg5greet17haaaaaaaaaaaaaaaaE");
    let new = v("_ZN3pkg5greet17hbbbbbbbbbbbbbbbbE");
    let plan = compose_spawn_plan(
        &o,
        &v("/t/debug/libpkg.so"),
        &v("/t/debug/bin"),
        Some(&old),
        Some(&new),
        &v("/agent.so"),
        &v("/sysroot"),
        Platform::Linux,
    )
    .unwrap();
    assert_eq!(plan.program, v("/t/debug/bin"));
    assert!(!plan.suspended);
    let env: Vec<(Vec<u8>, Vec<u8>)> =
        plan.env.iter().map(|e| (e.name.clone(), e.value.clone())).collect();
    assert_eq!(
        env,
        vec![
            (v("SYMBOL"), old.clone()),
            (v("NEW_SYMBOL"), new.clone()),
            (v("PLONK_LIBRARY"), v("/t/debug/libpkg.so")),
            (v("PLONK_BINARY"), v("/t/debug/bin")),
            (v("LD_PRELOAD"), v("/agent.so")),
            (v("LD_LIBRARY_PATH"), v("/sysroot/lib")),
        ]
    );
}

#[test]
fn forwarded_args_appear_verbatim_in_order() {
    let o = opts(Some("greet"), true, &["--port", "80", "x"]);
    let plan = compose_spawn_plan(
        &o,
        &v("/l"),
        &v("/b"),
        Some(&v("s1")),
        Some(&v("s2")),
        &v("/a"),
        &v("/sr"),
        Platform::Linux,
    )
    .unwrap();
    assert_eq!(plan.args, vec![v("--port"), v("80"), v("x")]);
    // Verbose adds the agent's verbosity switch first.
    assert_eq!(plan.env[0].name, v("VERBOSE"));
    assert_eq!(plan.env[0].value, v("y"));
}

#[test]
fn macos_plan_uses_insert_libraries() {
    let o = opts(Some("greet"), false, &[]);
    let plan = compose_spawn_plan(
        &o,
        &v("/l"),
        &v("/b"),
        Some(&v("s1")),
        Some(&v("s2")),
        &v("/a"),
        &v("/sr"),
        Platform::MacOs,
    )
    .unwrap();
    let names: Vec<Vec<u8>> = plan.env.iter().map(|e| e.name.clone()).collect();
    assert!(names.contains(&v("DYLD_INSERT_LIBRARIES")));
    assert!(names.contains(&v("DYLD_LIBRARY_PATH")));
}

#[test]
fn windows_plan_is_suspended_and_passes_logical_symbol() {
    let o = opts(Some("greet"), false, &[]);
    let plan = compose_spawn_plan(
        &o,
        &v("/l"),
        &v("/b"),
        None,
        None,
        &v("/a"),
        &v("/sr"),
        Platform::Windows,
    )
    .unwrap();
    assert!(plan.suspended);
    let env: Vec<(Vec<u8>, Vec<u8>)> =
        plan.env.iter().map(|e| (e.name.clone(), e.value.clone())).collect();
    assert!(env.contains(&(v("SYMBOL"), v("greet"))));
    assert!(env.contains(&(v("NEW_SYMBOL"), v("greet"))));
    assert!(env.iter().any(|(n, val)| n == &v("PATH")
        && val == &v("/sr/lib/rustlib/x86_64-pc-windows-msvc/lib")));
}

#[test]
fn missing_new_symbol_aborts_without_plan() {
    // The reload library no longer exports the symbol: the iteration aborts
    // and nothing is spawned.
    let o = opts(Some("greet"), false, &[]);
    let r = compose_spawn_plan(
        &o,
        &v("/t/debug/libpkg.so"),
        &v("/b"),
        Some(&v("old")),
        None,
        &v("/a"),
        &v("/sr"),
        Platform::Linux,
    );
    assert_eq!(r.err(), Some(PlanError::NewSymbolMissing));
}

#[test]
fn missing_old_symbol_and_missing_selector() {
    let o = opts(Some("greet"), false, &[]);
    let r = compose_spawn_plan(
        &o, &v("/l"), &v("/b"), None, None, &v("/a"), &v("/sr"), Platform::Linux,
    );
    assert_eq!(r.err(), Some(PlanError::OldSymbolMissing));
    let o2 = opts(None, false, &[]);
    let r2 = compose_spawn_plan(
        &o2, &v("/l"), &v("/b"), None, None, &v("/a"), &v("/sr"), Platform::Linux,
    );
    assert_eq!(r2.err(), Some(PlanError::NoSymbolGiven));
}

#[test]
fn symbol_missing_diagnostic_names_symbol_and_image() {
    let m = symbol_missing_message(&v("greet"), &v("/t/debug/libpkg.so"));
    assert_eq!(
        String::from_utf8(m).unwrap(),
        "Failed to find function symbol `greet` in /t/debug/libpkg.so"
    );
}
