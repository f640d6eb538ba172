use plonk::artifacts::{cargo_build_args, cargo_build_env, extract_dylib_artifact};

fn v(s: &str) -> Vec<u8> {
    s.as_bytes().to_vec()
}

fn artifact_line(kind: &str, filename: &str) -> String {
    let mut line = String::from("{\"reason\":\"compiler-artifact\",");
    line.push_str("\"package_id\":\"path+file:///w/pkg#0.1.0\",");
    line.push_str(&format!(
        "\"target\":{{\"name\":\"pkg\",\"kind\":[\"{}\"],\"src_path\":\"/w/pkg/src/lib.rs\"}},",
        kind
    ));
    line.push_str("\"profile\":{\"opt_level\":\"0\",\"debug_assertions\":true,");
    line.push_str("\"overflow_checks\":true,\"test\":false},");
    line.push_str(&format!(
        "\"features\":[],\"filenames\":[\"{}\"],\"executable\":null,\"fresh\":false}}",
        filename
    ));
    line
}

#[test]
fn first_dylib_artifact_is_extracted() {
    // A real build stream: an rlib first, then the dylib. The parse must
    // really decode the JSON — an empty or echoed result fails here.
    let stream = format!(
        "{}\n{}\n{{\"reason\":\"build-finished\",\"success\":true}}\n",
        artifact_line("rlib", "/t/debug/libpkg.rlib"),
        artifact_line("dylib", "/t/debug/libpkg.so")
    );
    let bytes = stream.into_bytes();
    let art = extract_dylib_artifact(&bytes).expect("a dylib artifact");
    assert_eq!(art.kinds, vec![v("dylib")]);
    assert_eq!(art.filenames, vec![v("/t/debug/libpkg.so")]);
}

#[test]
fn stream_without_dylib_yields_none() {
    let stream = format!("{}\n", artifact_line("bin", "/t/debug/pkg"));
    let bytes = stream.into_bytes();
    assert!(extract_dylib_artifact(&bytes).is_none());
}

#[test]
fn empty_stream_yields_none() {
    let bytes: Vec<u8> = Vec::new();
    assert!(extract_dylib_artifact(&bytes).is_none());
}

#[test]
fn build_args_for_plain_debug_build() {
    let args = cargo_build_args(&v("pkg"), false, false, false);
    assert_eq!(args, vec![v("rustc"), v("--crate-type=dylib"), v("-p"), v("pkg")]);
}

#[test]
fn build_args_with_release_verbose_and_meta() {
    let args = cargo_build_args(&v("."), true, true, true);
    assert_eq!(
        args,
        vec![
            v("rustc"),
            v("--crate-type=dylib"),
            v("-p"),
            v("."),
            v("--release"),
            v("-vv"),
            v("--message-format=json-render-diagnostics"),
        ]
    );
}

#[test]
fn build_env_prefers_dynamic_linking() {
    let (name, value) = cargo_build_env();
    assert_eq!(name, v("RUSTFLAGS"));
    assert_eq!(value, v("-C prefer-dynamic"));
}
