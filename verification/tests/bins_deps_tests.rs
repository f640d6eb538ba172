use plonk::bins::{bin_entries, select_bin, BinEntry, BinSelectError, PackageTargets, TargetModel};
use plonk::deps::{local_dep_dirs, DepNode};

fn v(s: &str) -> Vec<u8> {
    s.as_bytes().to_vec()
}

fn target(name: &str, kinds: &[&str]) -> TargetModel {
    TargetModel { name: v(name), kinds: kinds.iter().map(|k| v(k)).collect() }
}

fn entry(package: &str, path: &str) -> BinEntry {
    BinEntry { package: v(package), path: v(path) }
}

#[test]
fn bin_entries_join_profile_paths() {
    let pkgs = vec![
        PackageTargets {
            name: v("a"),
            targets: vec![target("a", &["bin"]), target("alib", &["lib"])],
        },
        PackageTargets { name: v("b"), targets: vec![target("btool", &["bin"])] },
    ];
    let debug = bin_entries(&pkgs, &v("/w/target"), false);
    let got: Vec<(Vec<u8>, Vec<u8>)> =
        debug.iter().map(|b| (b.package.clone(), b.path.clone())).collect();
    assert_eq!(
        got,
        vec![
            (v("a"), v("/w/target/debug/a")),
            (v("b"), v("/w/target/debug/btool")),
        ]
    );
    let release = bin_entries(&pkgs, &v("/w/target"), true);
    assert_eq!(release[0].path, v("/w/target/release/a"));
}

#[test]
fn two_bins_without_selector_is_an_error() {
    // Two binary targets and no `--bin`: the driver must refuse and spawn
    // nothing.
    let bins = vec![entry("a", "/t/debug/a"), entry("b", "/t/debug/b")];
    let r = select_bin(&bins, None);
    assert_eq!(r.err(), Some(BinSelectError::Multiple));
}

#[test]
fn single_bin_without_selector_is_chosen() {
    let bins = vec![entry("a", "/t/debug/a")];
    let r = select_bin(&bins, None).unwrap();
    assert_eq!(r.package, v("a"));
    assert_eq!(r.path, v("/t/debug/a"));
}

#[test]
fn selector_picks_named_package() {
    let bins = vec![entry("a", "/t/debug/a"), entry("b", "/t/debug/b")];
    let sel = v("b");
    let r = select_bin(&bins, Some(&sel)).unwrap();
    assert_eq!(r.path, v("/t/debug/b"));
}

#[test]
fn selector_missing_everywhere_is_an_error() {
    let bins = vec![entry("a", "/t/debug/a")];
    let sel = v("zzz");
    let r = select_bin(&bins, Some(&sel));
    assert_eq!(r.err(), Some(BinSelectError::NotFoundNamed));
}

#[test]
fn no_bins_at_all_is_an_error() {
    let bins: Vec<BinEntry> = Vec::new();
    assert_eq!(select_bin(&bins, None).err(), Some(BinSelectError::NoBinaries));
}

fn node(dir: &str, local: bool, deps: &[usize]) -> DepNode {
    DepNode { manifest_dir: v(dir), is_local: local, deps: deps.to_vec() }
}

#[test]
fn remote_packages_block_the_walk() {
    // 0 (local) depends on 1 (remote) and 2 (local); 1 depends on 3 (local),
    // which must stay unreached behind the remote package.
    let nodes = vec![
        node("/w/root", true, &[1, 2]),
        node("/reg/dep", false, &[3]),
        node("/w/leaf", true, &[]),
        node("/w/hidden", true, &[]),
    ];
    let dirs = local_dep_dirs(&nodes, &vec![0]);
    assert_eq!(dirs, vec![v("/w/root"), v("/w/leaf")]);
}

#[test]
fn cycles_and_repeats_are_taken_once() {
    let nodes = vec![node("/w/a", true, &[1]), node("/w/b", true, &[0, 1])];
    let dirs = local_dep_dirs(&nodes, &vec![0, 0]);
    assert_eq!(dirs, vec![v("/w/a"), v("/w/b")]);
}

#[test]
fn out_of_range_roots_are_skipped() {
    let nodes = vec![node("/w/a", true, &[9])];
    let dirs = local_dep_dirs(&nodes, &vec![7, 0]);
    assert_eq!(dirs, vec![v("/w/a")]);
}
