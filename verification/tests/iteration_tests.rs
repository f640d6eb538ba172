//! One reload iteration, driver side, end to end: the build stream yields
//! the reload library, the metadata yields the host binary, both decorated
//! symbols resolve in their images, and the composed plan carries the
//! agent's whole configuration.

use plonk::artifacts::extract_dylib_artifact;
use plonk::bins::{bin_entries, select_bin, PackageTargets, TargetModel};
use plonk::driver::{compose_spawn_plan, Platform};
use plonk::options::Options;
use plonk::resolve::find_symbol;

fn v(s: &str) -> Vec<u8> {
    s.as_bytes().to_vec()
}

fn artifact_line(kind: &str, filename: &str) -> String {
    let mut line = String::from("{\"reason\":\"compiler-artifact\",");
    line.push_str("\"package_id\":\"path+file:///w/pkg#0.1.0\",");
    line.push_str(&format!(
        "\"target\":{{\"name\":\"pkg\",\"kind\":[\"{}\"],\"src_path\":\"/w/pkg/src/lib.rs\"}},",
        kind
    ));
    line.push_str("\"profile\":{\"opt_level\":\"0\",\"debug_assertions\":true,");
    line.push_str("\"overflow_checks\":true,\"test\":false},");
    line.push_str(&format!(
        "\"features\":[],\"filenames\":[\"{}\"],\"executable\":null,\"fresh\":false}}",
        filename
    ));
    line
}

#[test]
fn linux_iteration_composes_full_redirect() {
    // Build: the message stream names the freshly built reload library.
    let stream = format!("{}\n", artifact_line("dylib", "/w/target/debug/libpkg.so"));
    let artifact = extract_dylib_artifact(&stream.into_bytes()).unwrap();
    let library_path = artifact.filenames[0].clone();

    // Discovery: one binary target, so no selector is needed.
    let pkgs = vec![PackageTargets {
        name: v("pkg"),
        targets: vec![TargetModel { name: v("bin"), kinds: vec![v("bin")] }],
    }];
    let bins = bin_entries(&pkgs, &v("/w/target"), false);
    let bin = select_bin(&bins, None).unwrap();
    assert_eq!(bin.path, v("/w/target/debug/bin"));

    // Resolution: the host binary and the reload library both export
    // pkg::greet under mangled names.
    let host_listing = v("0000000000001000 T _ZN3pkg5greet17haaaaaaaaaaaaaaaaE\n");
    let lib_listing = v("0000000000002000 T _ZN3pkg5greet17hbbbbbbbbbbbbbbbbE\n");
    let old = find_symbol(&host_listing, &v("pkg"), &v("greet"), false).unwrap();
    let new = find_symbol(&lib_listing, &v("pkg"), &v("greet"), false).unwrap();

    // Composition: the agent's environment names both symbols and both
    // images; the next call of pkg::greet in the target runs the new code.
    let opts = Options {
        verbose: false,
        package: v("pkg"),
        bin: None,
        release: false,
        symbol: Some(v("greet")),
        watch: false,
        forward: vec![],
    };
    let plan = compose_spawn_plan(
        &opts,
        &library_path,
        &bin.path,
        Some(&old),
        Some(&new),
        &v("/opt/agent.so"),
        &v("/sysroot"),
        Platform::Linux,
    )
    .unwrap();
    assert_eq!(plan.program, v("/w/target/debug/bin"));
    let env: Vec<(Vec<u8>, Vec<u8>)> =
        plan.env.iter().map(|e| (e.name.clone(), e.value.clone())).collect();
    assert!(env.contains(&(v("SYMBOL"), v("_ZN3pkg5greet17haaaaaaaaaaaaaaaaE"))));
    assert!(env.contains(&(v("NEW_SYMBOL"), v("_ZN3pkg5greet17hbbbbbbbbbbbbbbbbE"))));
    assert!(env.contains(&(v("PLONK_LIBRARY"), v("/w/target/debug/libpkg.so"))));
    assert!(env.contains(&(v("PLONK_BINARY"), v("/w/target/debug/bin"))));
    assert!(env.contains(&(v("LD_PRELOAD"), v("/opt/agent.so"))));
}
