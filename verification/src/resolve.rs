//! Symbol resolution.
//!
//! Given the textual symbol listing of a native image (one symbol per line,
//! `address kind name`), a package hint and a logical function name, the
//! resolver returns the decorated name under which the function appears in
//! the image's symbol table. Exact raw matches are preferred; otherwise the
//! raw name is demangled and matched against `package::logical`. On macOS a
//! leading underscore is a decoration of the symbol table, not part of the
//! loader-visible name, so it is stripped from the returned name.

use vstd::prelude::*;

use crate::bytes::bytes_eq;
use crate::bytes::concat_bytes;
use crate::bytes::contains_sub;
use crate::bytes::contains_subrange;
use crate::bytes::copy_bytes;
use crate::bytes::copy_range;
use crate::bytes::split_bytes;
use crate::bytes::split_spec;
use crate::bytes::trim_spaces;
use crate::bytes::trim_spaces_spec;

verus! {

/// What `rustc_demangle::demangle` returns for a raw symbol name, as bytes.
/// The result depends on the raw name alone.
pub uninterp spec fn demangled_of(raw: Seq<u8>) -> Seq<u8>;

/// Relies on rustc_demangle::demangle: recovers the path-qualified form of a
/// compiler-mangled symbol name; a name that does not look mangled comes back
/// unchanged. The result is a function of the raw name alone.
#[verifier::external_body]
fn demangle_name(raw: &Vec<u8>) -> (r: Vec<u8>)
    ensures
        r@ == demangled_of(raw@),
{
    let text = String::from_utf8_lossy(raw);
    rustc_demangle::demangle(&text).to_string().into_bytes()
}

/// The columns of one symbol-listing line: the line with surrounding spaces
/// removed, split on single spaces.
pub open spec fn line_cols(line: Seq<u8>) -> Seq<Seq<u8>> {
    split_spec(trim_spaces_spec(line), 32u8)
}

/// Whether a symbol-listing line describes a text (code) symbol: it has at
/// least three columns and its kind column is `t` or `T`.
pub open spec fn is_text_line(line: Seq<u8>) -> bool {
    line_cols(line).len() >= 3 && (line_cols(line)[1] == seq![116u8] || line_cols(line)[1]
        == seq![84u8])
}

/// The raw name carried by a text symbol line: its third column.
pub open spec fn line_name(line: Seq<u8>) -> Seq<u8> {
    line_cols(line)[2]
}

/// The raw names of the text symbols among `lines`, in listing order.
pub open spec fn text_names_spec(lines: Seq<Seq<u8>>) -> Seq<Seq<u8>>
    decreases lines.len(),
{
    if lines.len() == 0 {
        Seq::empty()
    } else {
        let init = text_names_spec(lines.drop_last());
        if is_text_line(lines.last()) {
            init.push(line_name(lines.last()))
        } else {
            init
        }
    }
}

/// Extracts the raw names of the text symbols from a symbol listing.
pub fn text_symbol_names(listing: &Vec<u8>) -> (r: Vec<Vec<u8>>)
    ensures
        r@.map_values(|n: Vec<u8>| n@) == text_names_spec(split_spec(listing@, 10u8)),
{
    let lines = split_bytes(listing, 10u8);
    let ghost lines_v = lines@.map_values(|l: Vec<u8>| l@);
    let mut names: Vec<Vec<u8>> = Vec::new();
    let mut i: usize = 0;
    proof {
        assert(lines_v.subrange(0, 0) =~= Seq::<Seq<u8>>::empty());
        assert(names@.map_values(|n: Vec<u8>| n@) =~= text_names_spec(lines_v.subrange(0, 0)));
    }
    while i < lines.len()
        invariant
            i <= lines.len(),
            lines_v == lines@.map_values(|l: Vec<u8>| l@),
            names@.map_values(|n: Vec<u8>| n@) == text_names_spec(lines_v.subrange(0, i as int)),
        decreases lines.len() - i,
    {
        let ghost prefix = lines_v.subrange(0, i as int);
        let ghost next_prefix = lines_v.subrange(0, i + 1);
        proof {
            assert(next_prefix.drop_last() =~= prefix);
            assert(next_prefix.last() == lines_v[i as int]);
            assert(lines_v[i as int] == lines@[i as int]@);
        }
        let trimmed = trim_spaces(&lines[i]);
        let cols = split_bytes(&trimmed, 32u8);
        proof {
            assert(cols@.map_values(|c: Vec<u8>| c@) == line_cols(lines_v[i as int]));
        }
        if cols.len() >= 3 {
            let lower_t: Vec<u8> = vec![116u8];
            let upper_t: Vec<u8> = vec![84u8];
            proof {
                assert(cols@.map_values(|c: Vec<u8>| c@)[1] == cols@[1]@);
                assert(cols@.map_values(|c: Vec<u8>| c@)[2] == cols@[2]@);
                assert(lower_t@ =~= seq![116u8]);
                assert(upper_t@ =~= seq![84u8]);
            }
            let is_text = bytes_eq(&cols[1], &lower_t) || bytes_eq(&cols[1], &upper_t);
            if is_text {
                let name = copy_bytes(&cols[2]);
                names.push(name);
                proof {
                    assert(names@.map_values(|n: Vec<u8>| n@) =~= text_names_spec(prefix).push(
                        line_name(lines_v[i as int]),
                    ));
                }
            }
        }
        i += 1;
    }
    proof {
        assert(lines_v.subrange(0, lines_v.len() as int) =~= lines_v);
    }
    names
}

/// The decorated path `package::logical` that a demangled symbol must
/// contain.
pub open spec fn qualified_name(package: Seq<u8>, logical: Seq<u8>) -> Seq<u8> {
    package + seq![58u8, 58u8] + logical
}

/// `name` with one leading underscore removed, if it has one.
pub open spec fn strip_underscore(name: Seq<u8>) -> Seq<u8> {
    if name.len() > 0 && name[0] == 95u8 {
        name.drop_first()
    } else {
        name
    }
}

/// What resolution returns for a single raw text-symbol name, if anything:
/// the logical name itself on an exact raw match (on macOS also when the raw
/// name is the logical name behind an underscore), else the raw name —
/// underscore-stripped on macOS — when its demangled form contains
/// `package::logical`.
pub open spec fn match_result(
    name: Seq<u8>,
    package: Seq<u8>,
    logical: Seq<u8>,
    macos: bool,
) -> Option<Seq<u8>> {
    if name == logical {
        Some(logical)
    } else if macos && name == seq![95u8] + logical {
        Some(logical)
    } else if contains_sub(demangled_of(name), qualified_name(package, logical)) {
        if macos {
            Some(strip_underscore(name))
        } else {
            Some(name)
        }
    } else {
        None
    }
}

/// The decorated name resolution returns for an ordered table of raw
/// text-symbol names: the result of the first name that matches.
pub open spec fn resolve_spec(
    names: Seq<Seq<u8>>,
    package: Seq<u8>,
    logical: Seq<u8>,
    macos: bool,
) -> Option<Seq<u8>>
    decreases names.len(),
{
    if names.len() == 0 {
        None
    } else if match_result(names.first(), package, logical, macos) is Some {
        match_result(names.first(), package, logical, macos)
    } else {
        resolve_spec(names.drop_first(), package, logical, macos)
    }
}

/// Tests one raw name against the logical name, exactly as `match_result`
/// states.
fn match_name(
    name: &Vec<u8>,
    package: &Vec<u8>,
    logical: &Vec<u8>,
    prefixed: &Vec<u8>,
    qualified: &Vec<u8>,
    macos: bool,
) -> (r: Option<Vec<u8>>)
    requires
        prefixed@ == seq![95u8] + logical@,
        qualified@ == qualified_name(package@, logical@),
    ensures
        match (r, match_result(name@, package@, logical@, macos)) {
            (Some(v), Some(s)) => v@ == s,
            (None, None) => true,
            _ => false,
        },
{
    if bytes_eq(name, logical) {
        return Some(copy_bytes(logical));
    }
    if macos && bytes_eq(name, prefixed) {
        return Some(copy_bytes(logical));
    }
    let demangled = demangle_name(name);
    if contains_subrange(&demangled, qualified) {
        if macos && name.len() > 0 && name[0] == 95u8 {
            let out = copy_range(name, 1, name.len());
            proof {
                assert(out@ =~= name@.drop_first());
            }
            return Some(out);
        }
        return Some(copy_bytes(name));
    }
    None
}

/// Resolves the decorated name of `package::logical` in a symbol listing.
///
/// The listing is the image's symbol table as text, one `address kind name`
/// line per symbol. The result is exactly what `resolve_spec` states over the
/// listing's text-symbol names, first match in listing order.
pub fn find_symbol(
    listing: &Vec<u8>,
    package: &Vec<u8>,
    logical: &Vec<u8>,
    macos: bool,
) -> (r: Option<Vec<u8>>)
    ensures
        match (r, resolve_spec(
            text_names_spec(split_spec(listing@, 10u8)),
            package@,
            logical@,
            macos,
        )) {
            (Some(v), Some(s)) => v@ == s,
            (None, None) => true,
            _ => false,
        },
{
    let names = text_symbol_names(listing);
    let underscore: Vec<u8> = vec![95u8];
    let prefixed = concat_bytes(&underscore, logical);
    proof {
        assert(underscore@ =~= seq![95u8]);
    }
    let sep: Vec<u8> = vec![58u8, 58u8];
    let pkg_sep = concat_bytes(package, &sep);
    let qualified = concat_bytes(&pkg_sep, logical);
    proof {
        assert(sep@ =~= seq![58u8, 58u8]);
        assert(qualified@ =~= qualified_name(package@, logical@));
    }
    let ghost all_names = names@.map_values(|n: Vec<u8>| n@);
    let mut i: usize = 0;
    proof {
        assert(all_names.subrange(0, all_names.len() as int) =~= all_names);
    }
    while i < names.len()
        invariant
            i <= names.len(),
            all_names == names@.map_values(|n: Vec<u8>| n@),
            all_names == text_names_spec(split_spec(listing@, 10u8)),
            prefixed@ == seq![95u8] + logical@,
            qualified@ == qualified_name(package@, logical@),
            resolve_spec(all_names, package@, logical@, macos) == resolve_spec(
                all_names.subrange(i as int, all_names.len() as int),
                package@,
                logical@,
                macos,
            ),
        decreases names.len() - i,
    {
        let ghost rest = all_names.subrange(i as int, all_names.len() as int);
        proof {
            assert(rest.first() == all_names[i as int]);
            assert(rest.drop_first() =~= all_names.subrange(i + 1, all_names.len() as int));
            assert(names@.map_values(|n: Vec<u8>| n@)[i as int] == names@[i as int]@);
        }
        let m = match_name(&names[i], package, logical, &prefixed, &qualified, macos);
        if let Some(found) = m {
            proof {
                assert(match_result(rest.first(), package@, logical@, macos) is Some);
                assert(resolve_spec(rest, package@, logical@, macos) == match_result(
                    rest.first(),
                    package@,
                    logical@,
                    macos,
                ));
            }
            return Some(found);
        }
        i += 1;
    }
    proof {
        assert(all_names.subrange(names@.len() as int, all_names.len() as int).len() == 0);
    }
    None
}

/// The decorated name that resolution returns is, up to the macOS underscore
/// decoration, a raw name present in the image's text-symbol table: a dynamic
/// lookup by the returned name addresses a symbol the image really exports.
pub proof fn lemma_resolve_sound(
    names: Seq<Seq<u8>>,
    package: Seq<u8>,
    logical: Seq<u8>,
    macos: bool,
)
    requires
        resolve_spec(names, package, logical, macos) is Some,
    ensures
        exists|i: int|
            0 <= i < names.len() && (#[trigger] names[i] == resolve_spec(
                names,
                package,
                logical,
                macos,
            ).unwrap() || (macos && names[i] == seq![95u8] + resolve_spec(
                names,
                package,
                logical,
                macos,
            ).unwrap())),
    decreases names.len(),
{
    let r = resolve_spec(names, package, logical, macos).unwrap();
    if match_result(names.first(), package, logical, macos) is Some {
        let name = names.first();
        if name == logical {
            assert(names[0] == r);
        } else if macos && name == seq![95u8] + logical {
            assert(names[0] == seq![95u8] + r);
        } else {
            if macos {
                if name.len() > 0 && name[0] == 95u8 {
                    assert(name =~= seq![95u8] + name.drop_first());
                    assert(names[0] == seq![95u8] + r);
                } else {
                    assert(names[0] == r);
                }
            } else {
                assert(names[0] == r);
            }
        }
    } else {
        lemma_resolve_sound(names.drop_first(), package, logical, macos);
        let j = choose|j: int|
            0 <= j < names.drop_first().len() && (#[trigger] names.drop_first()[j] == r || (macos
                && names.drop_first()[j] == seq![95u8] + r));
        assert(names[j + 1] == names.drop_first()[j]);
    }
}

} // verus!
