//! Host-binary discovery and selection.
//!
//! The workspace metadata names every package and its targets. The functions
//! here list the binary targets as `(package name, binary path)` pairs —
//! the path joins the build tool's target directory, the active profile and
//! the target's name — and pick the one host binary an iteration runs:
//! the pair the `--bin` selector names, or the only pair when there is
//! exactly one.

use vstd::prelude::*;
use vstd::string::StrSliceExecFns;
use vstd::string::StringSliceAdditionalSpecFns;

use crate::bytes::bytes_eq;
use crate::bytes::concat_bytes;
use crate::bytes::copy_bytes;
use crate::bytes::views_of;

verus! {

/// One target of a package: its name and its kinds.
pub struct TargetModel {
    pub name: Vec<u8>,
    pub kinds: Vec<Vec<u8>>,
}

/// The mathematical content of a `TargetModel`.
pub ghost struct TargetView {
    pub name: Seq<u8>,
    pub kinds: Seq<Seq<u8>>,
}

impl View for TargetModel {
    type V = TargetView;

    open spec fn view(&self) -> TargetView {
        TargetView { name: self.name@, kinds: views_of(self.kinds@) }
    }
}

/// One package of the workspace metadata: its name and its targets.
pub struct PackageTargets {
    pub name: Vec<u8>,
    pub targets: Vec<TargetModel>,
}

/// The mathematical content of a `PackageTargets`.
pub ghost struct PackageView {
    pub name: Seq<u8>,
    pub targets: Seq<TargetView>,
}

impl View for PackageTargets {
    type V = PackageView;

    open spec fn view(&self) -> PackageView {
        PackageView { name: self.name@, targets: self.targets@.map_values(|t: TargetModel| t@) }
    }
}

/// A binary target paired with the filesystem path it is built at.
pub struct BinEntry {
    pub package: Vec<u8>,
    pub path: Vec<u8>,
}

/// The mathematical content of a `BinEntry`.
pub ghost struct BinEntryView {
    pub package: Seq<u8>,
    pub path: Seq<u8>,
}

impl View for BinEntry {
    type V = BinEntryView;

    open spec fn view(&self) -> BinEntryView {
        BinEntryView { package: self.package@, path: self.path@ }
    }
}

/// The models of a sequence of bin entries.
pub open spec fn bin_models(s: Seq<BinEntry>) -> Seq<BinEntryView> {
    s.map_values(|b: BinEntry| b@)
}

/// Whether a target's kinds include `k`.
pub open spec fn has_kind(t: TargetView, k: Seq<u8>) -> bool {
    exists|j: int| 0 <= j < t.kinds.len() && t.kinds[j] == k
}

/// The path a binary target is built at: the target directory, the profile
/// directory (`release` or `debug`), and the target name, joined by `/`.
pub open spec fn bin_path_spec(dir: Seq<u8>, release: bool, name: Seq<u8>) -> Seq<u8> {
    dir + "/".spec_bytes() + (if release {
        "release".spec_bytes()
    } else {
        "debug".spec_bytes()
    }) + "/".spec_bytes() + name
}

/// The `(package name, binary path)` pairs of one package's first `n`
/// targets, in target order, keeping the targets of kind `bin`.
pub open spec fn pkg_bins_spec(
    pkg_name: Seq<u8>,
    targets: Seq<TargetView>,
    dir: Seq<u8>,
    release: bool,
) -> Seq<BinEntryView>
    decreases targets.len(),
{
    if targets.len() == 0 {
        Seq::empty()
    } else {
        let init = pkg_bins_spec(pkg_name, targets.drop_last(), dir, release);
        if has_kind(targets.last(), "bin".spec_bytes()) {
            init.push(
                BinEntryView {
                    package: pkg_name,
                    path: bin_path_spec(dir, release, targets.last().name),
                },
            )
        } else {
            init
        }
    }
}

/// The `(package name, binary path)` pairs of all packages, in package and
/// target order.
pub open spec fn all_bins_spec(
    pkgs: Seq<PackageView>,
    dir: Seq<u8>,
    release: bool,
) -> Seq<BinEntryView>
    decreases pkgs.len(),
{
    if pkgs.len() == 0 {
        Seq::empty()
    } else {
        all_bins_spec(pkgs.drop_last(), dir, release) + pkg_bins_spec(
            pkgs.last().name,
            pkgs.last().targets,
            dir,
            release,
        )
    }
}

/// Tests whether a target's kinds include the bytes of `needle`.
fn kinds_contain(kinds: &Vec<Vec<u8>>, needle: &Vec<u8>) -> (r: bool)
    ensures
        r == exists|j: int| 0 <= j < kinds@.len() && views_of(kinds@)[j] == needle@,
{
    let mut j: usize = 0;
    while j < kinds.len()
        invariant
            j <= kinds.len(),
            forall|k: int| 0 <= k < j ==> views_of(kinds@)[k] != needle@,
        decreases kinds.len() - j,
    {
        proof {
            assert(views_of(kinds@)[j as int] == kinds@[j as int]@);
        }
        if bytes_eq(&kinds[j], needle) {
            return true;
        }
        j += 1;
    }
    false
}

/// Joins the target directory, profile and binary name into a path.
fn bin_path(dir: &Vec<u8>, release: bool, name: &Vec<u8>) -> (r: Vec<u8>)
    ensures
        r@ == bin_path_spec(dir@, release, name@),
{
    let slash = "/".as_bytes_vec();
    let profile = if release {
        "release".as_bytes_vec()
    } else {
        "debug".as_bytes_vec()
    };
    let a = concat_bytes(dir, &slash);
    let b = concat_bytes(&a, &profile);
    let c = concat_bytes(&b, &slash);
    let r = concat_bytes(&c, name);
    proof {
        assert(r@ =~= bin_path_spec(dir@, release, name@));
    }
    r
}

/// Lists the binary targets of the workspace as `(package name, path)`
/// pairs, in package and target order, with each path joined from the
/// target directory, the profile and the target's name.
pub fn bin_entries(pkgs: &Vec<PackageTargets>, dir: &Vec<u8>, release: bool) -> (r: Vec<BinEntry>)
    ensures
        bin_models(r@) == all_bins_spec(pkgs@.map_values(|p: PackageTargets| p@), dir@, release),
{
    let ghost pkgs_v = pkgs@.map_values(|p: PackageTargets| p@);
    let mut r: Vec<BinEntry> = Vec::new();
    let mut i: usize = 0;
    proof {
        assert(pkgs_v.subrange(0, 0) =~= Seq::<PackageView>::empty());
        assert(bin_models(r@) =~= all_bins_spec(pkgs_v.subrange(0, 0), dir@, release));
    }
    while i < pkgs.len()
        invariant
            i <= pkgs.len(),
            pkgs_v == pkgs@.map_values(|p: PackageTargets| p@),
            bin_models(r@) == all_bins_spec(pkgs_v.subrange(0, i as int), dir@, release),
        decreases pkgs.len() - i,
    {
        let ghost prefix = pkgs_v.subrange(0, i as int);
        let ghost next_prefix = pkgs_v.subrange(0, i + 1);
        let ghost pv = pkgs_v[i as int];
        proof {
            assert(next_prefix.drop_last() =~= prefix);
            assert(next_prefix.last() == pv);
            assert(pkgs_v[i as int] == pkgs@[i as int]@);
        }
        let pkg = &pkgs[i];
        let bin_kind = "bin".as_bytes_vec();
        let ghost targets_v = pv.targets;
        let mut t: usize = 0;
        proof {
            assert(targets_v.subrange(0, 0) =~= Seq::<TargetView>::empty());
            assert(bin_models(r@) =~= all_bins_spec(prefix, dir@, release) + pkg_bins_spec(
                pv.name,
                targets_v.subrange(0, 0),
                dir@,
                release,
            ));
        }
        while t < pkg.targets.len()
            invariant
                t <= pkg.targets.len(),
                pv == pkgs@[i as int]@,
                i < pkgs.len(),
                pkg == &pkgs[i as int],
                targets_v == pv.targets,
                bin_kind@ == "bin".spec_bytes(),
                bin_models(r@) == all_bins_spec(prefix, dir@, release) + pkg_bins_spec(
                    pv.name,
                    targets_v.subrange(0, t as int),
                    dir@,
                    release,
                ),
            decreases pkg.targets.len() - t,
        {
            let ghost t_prefix = targets_v.subrange(0, t as int);
            let ghost t_next = targets_v.subrange(0, t + 1);
            proof {
                assert(t_next.drop_last() =~= t_prefix);
                assert(t_next.last() == targets_v[t as int]);
                assert(pkg.targets@.map_values(|x: TargetModel| x@)[t as int]
                    == pkg.targets@[t as int]@);
            }
            let target = &pkg.targets[t];
            proof {
                assert(targets_v[t as int] == pkg.targets@[t as int]@);
                assert(targets_v[t as int].kinds == views_of(target.kinds@));
            }
            if kinds_contain(&target.kinds, &bin_kind) {
                proof {
                    let j = choose|j: int|
                        0 <= j < target.kinds@.len() && views_of(target.kinds@)[j] == bin_kind@;
                    assert(targets_v[t as int].kinds[j] == "bin".spec_bytes());
                    assert(has_kind(targets_v[t as int], "bin".spec_bytes()));
                }
                let path = bin_path(dir, release, &target.name);
                let entry = BinEntry { package: copy_bytes(&pkg.name), path };
                r.push(entry);
                proof {
                    assert(bin_models(r@) =~= (all_bins_spec(prefix, dir@, release)
                        + pkg_bins_spec(pv.name, t_prefix, dir@, release)).push(
                        BinEntryView {
                            package: pv.name,
                            path: bin_path_spec(dir@, release, targets_v[t as int].name),
                        },
                    ));
                    assert((all_bins_spec(prefix, dir@, release) + pkg_bins_spec(
                        pv.name,
                        t_prefix,
                        dir@,
                        release,
                    )).push(
                        BinEntryView {
                            package: pv.name,
                            path: bin_path_spec(dir@, release, targets_v[t as int].name),
                        },
                    ) =~= all_bins_spec(prefix, dir@, release) + pkg_bins_spec(
                        pv.name,
                        t_next,
                        dir@,
                        release,
                    ));
                }
            } else {
                proof {
                    assert(!has_kind(targets_v[t as int], "bin".spec_bytes()));
                }
            }
            t += 1;
        }
        proof {
            assert(targets_v.subrange(0, targets_v.len() as int) =~= targets_v);
            assert(all_bins_spec(next_prefix, dir@, release) == all_bins_spec(
                prefix,
                dir@,
                release,
            ) + pkg_bins_spec(pv.name, pv.targets, dir@, release));
        }
        i += 1;
    }
    proof {
        assert(pkgs_v.subrange(0, pkgs_v.len() as int) =~= pkgs_v);
    }
    r
}

/// Why no host binary could be chosen.
#[derive(Debug, PartialEq, Eq, Structural)]
pub enum BinSelectError {
    /// A selector was given, and no binary target's package bears that name.
    NotFoundNamed,
    /// No selector was given and more than one binary target exists.
    Multiple,
    /// The workspace has no binary target at all.
    NoBinaries,
}

/// Chooses the host binary of an iteration.
///
/// With a selector, the first pair whose package name equals it; the
/// selector missing every pair is an error. Without a selector the single
/// pair is chosen; none or several is an error, and nothing is spawned.
pub fn select_bin(bins: &Vec<BinEntry>, selector: Option<&Vec<u8>>) -> (r: Result<
    BinEntry,
    BinSelectError,
>)
    ensures
        match r {
            Ok(b) => match selector {
                Some(name) => exists|i: int|
                    0 <= i < bins@.len() && b@ == #[trigger] bin_models(bins@)[i] && bin_models(
                        bins@,
                    )[i].package == name@ && forall|j: int|
                        0 <= j < i ==> #[trigger] bin_models(bins@)[j].package != name@,
                None => bins@.len() == 1 && b@ == bin_models(bins@)[0],
            },
            Err(e) => match selector {
                Some(name) => e == BinSelectError::NotFoundNamed && forall|i: int|
                    0 <= i < bins@.len() ==> #[trigger] bin_models(bins@)[i].package != name@,
                None => (bins@.len() == 0 && e == BinSelectError::NoBinaries) || (bins@.len() > 1
                    && e == BinSelectError::Multiple),
            },
        },
{
    match selector {
        Some(name) => {
            let mut i: usize = 0;
            while i < bins.len()
                invariant
                    i <= bins.len(),
                    selector == Some(name),
                    forall|j: int|
                        0 <= j < i ==> #[trigger] bin_models(bins@)[j].package != name@,
                decreases bins.len() - i,
            {
                proof {
                    assert(bin_models(bins@)[i as int] == bins@[i as int]@);
                }
                if bytes_eq(&bins[i].package, name) {
                    let found = BinEntry {
                        package: copy_bytes(&bins[i].package),
                        path: copy_bytes(&bins[i].path),
                    };
                    proof {
                        assert(found@ == bin_models(bins@)[i as int]);
                        assert(bin_models(bins@)[i as int].package == name@);
                    }
                    return Ok(found);
                }
                i += 1;
            }
            Err(BinSelectError::NotFoundNamed)
        },
        None => {
            if bins.len() == 0 {
                Err(BinSelectError::NoBinaries)
            } else if bins.len() > 1 {
                Err(BinSelectError::Multiple)
            } else {
                let found = BinEntry {
                    package: copy_bytes(&bins[0].package),
                    path: copy_bytes(&bins[0].path),
                };
                proof {
                    assert(found@ == bin_models(bins@)[0]);
                }
                Ok(found)
            }
        },
    }
}

} // verus!
