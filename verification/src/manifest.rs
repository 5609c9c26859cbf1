//! Project-descriptor synthesis.
//!
//! A manifest fragment drawn from a qualifying element is parsed with the
//! `cargo_toml` crate into a structured descriptor, completed so that a
//! self-contained build of a dynamically loadable module is possible, and
//! rendered back to text with the `toml` crate. The completion is additive:
//! a missing library section is created empty, the `cdylib` output kind is
//! appended if absent, and a missing package identity is filled with the
//! placeholder `generated` at version 0.1.0.

use vstd::prelude::*;

verus! {

#[verifier::external_type_specification]
#[verifier::external_body]
#[verifier::reject_recursive_types(Metadata)]
pub struct ExManifest<Metadata>(cargo_toml::Manifest<Metadata>);

#[verifier::external_type_specification]
#[verifier::external_body]
pub struct ExTomlValue(toml::Value);

/// Whether `cargo_toml::Manifest::from_str` accepts this text.
pub uninterp spec fn manifest_parses(s: Seq<char>) -> bool;

/// The output kinds of the descriptor's library section, in order, or
/// nothing if the descriptor has no library section.
pub uninterp spec fn manifest_lib_types(m: cargo_toml::Manifest<toml::Value>) -> Option<
    Seq<Seq<char>>,
>;

/// The descriptor's package identity: name and version triple, or nothing
/// if the descriptor has no package section.
pub uninterp spec fn manifest_package(m: cargo_toml::Manifest<toml::Value>) -> Option<
    (Seq<char>, (u64, u64, u64)),
>;

/// Whether `toml::to_string_pretty` accepts this descriptor.
pub uninterp spec fn manifest_serializes(m: cargo_toml::Manifest<toml::Value>) -> bool;

/// The text that `toml::to_string_pretty` renders this descriptor to.
pub uninterp spec fn manifest_toml(m: cargo_toml::Manifest<toml::Value>) -> Seq<char>;

/// Relies on `cargo_toml::Manifest::from_str`: it parses manifest text into
/// a structured descriptor, or reports an error, which the caller treats as
/// "not applicable" and discards.
#[verifier::external_body]
fn manifest_from_str(s: &str) -> (r: Option<cargo_toml::Manifest<toml::Value>>)
    ensures
        r is Some <==> manifest_parses(s@),
{
    cargo_toml::Manifest::from_str(s).ok()
}

/// Relies on the public `lib` field of `cargo_toml::Manifest` and the
/// `crate_type` field of `cargo_toml::Product`: the library section's
/// output-kind list, copied out.
#[verifier::external_body]
fn manifest_lib_types_get(m: &cargo_toml::Manifest<toml::Value>) -> (r: Option<Vec<String>>)
    ensures
        r is Some <==> manifest_lib_types(*m) is Some,
        r matches Option::Some(v) ==> manifest_lib_types(*m) == Option::Some(v.deep_view()),
{
    m.lib.as_ref().map(|l| l.crate_type.clone())
}

/// Relies on `cargo_toml::Product::default`: a library section created this
/// way has an empty output-kind list, and setting the `lib` field leaves
/// the `package` field alone.
#[verifier::external_body]
fn manifest_set_empty_lib(m: &mut cargo_toml::Manifest<toml::Value>)
    ensures
        manifest_lib_types(*final(m)) == Option::Some(Seq::<Seq<char>>::empty()),
        manifest_package(*final(m)) == manifest_package(*old(m)),
{
    m.lib = Some(cargo_toml::Product::default());
}

/// Relies on `Vec::push` applied to the `crate_type` field of the
/// descriptor's library section: it appends one output kind and changes
/// nothing else.
#[verifier::external_body]
fn manifest_push_lib_type(m: &mut cargo_toml::Manifest<toml::Value>, t: &str)
    requires
        manifest_lib_types(*old(m)) is Some,
    ensures
        manifest_lib_types(*final(m)) == Option::Some(
            manifest_lib_types(*old(m))->Some_0.push(t@),
        ),
        manifest_package(*final(m)) == manifest_package(*old(m)),
{
    m.lib.as_mut().unwrap().crate_type.push(t.to_owned());
}

/// Relies on the public `package` field of `cargo_toml::Manifest`: whether
/// a package section is present.
#[verifier::external_body]
fn manifest_has_package(m: &cargo_toml::Manifest<toml::Value>) -> (r: bool)
    ensures
        r == (manifest_package(*m) is Some),
{
    m.package.is_some()
}

/// Relies on `cargo_toml::Package::new` and `semver::Version::new`: the
/// package section is replaced by one with the given name and version
/// triple, and the `lib` field is left alone.
#[verifier::external_body]
fn manifest_set_package(
    m: &mut cargo_toml::Manifest<toml::Value>,
    name: &str,
    major: u64,
    minor: u64,
    patch: u64,
)
    ensures
        manifest_package(*final(m)) == Option::Some((name@, (major, minor, patch))),
        manifest_lib_types(*final(m)) == manifest_lib_types(*old(m)),
{
    m.package = Some(cargo_toml::Package::new(name, cargo_toml::SemVer::new(major, minor, patch)));
}

/// Relies on `toml::to_string_pretty`: it renders the descriptor to TOML
/// text, or reports an error, which is handed back to the caller.
#[verifier::external_body]
fn manifest_to_toml(m: &cargo_toml::Manifest<toml::Value>) -> (r: Option<String>)
    ensures
        r is Some <==> manifest_serializes(*m),
        r matches Option::Some(s) ==> s@ == manifest_toml(*m),
{
    toml::to_string_pretty(m).ok()
}

/// The descriptor rendered to TOML text, to be written out as the unit's
/// own manifest file; nothing if the descriptor cannot be rendered, which
/// the caller treats as a fatal condition.
pub fn descriptor_text(m: &cargo_toml::Manifest<toml::Value>) -> (r: Option<String>)
    ensures
        r is Some <==> manifest_serializes(*m),
        r matches Option::Some(s) ==> s@ == manifest_toml(*m),
{
    manifest_to_toml(m)
}

/// Whether `v` contains the characters of `t`.
fn contains_string(v: &Vec<String>, t: &str) -> (r: bool)
    ensures
        r == v.deep_view().contains(t@),
{
    let tw = t.to_owned();
    let mut i: usize = 0;
    while i < v.len()
        invariant
            0 <= i <= v@.len(),
            tw@ == t@,
            forall|j: int| 0 <= j < i ==> v.deep_view()[j] != t@,
        decreases v@.len() - i,
    {
        if v[i] == tw {
            proof {
                assert(v.deep_view()[i as int] == t@);
            }
            return true;
        }
        proof {
            assert(v.deep_view()[i as int] == v@[i as int]@);
        }
        i += 1;
    }
    proof {
        assert(forall|j: int| 0 <= j < v.deep_view().len() ==> v.deep_view()[j] != t@);
    }
    false
}

/// The output kinds of a descriptor's library section, or none of them if
/// the section is absent.
pub open spec fn lib_types_or_empty(m: cargo_toml::Manifest<toml::Value>) -> Seq<Seq<char>> {
    match manifest_lib_types(m) {
        Option::Some(ts) => ts,
        Option::None => Seq::<Seq<char>>::empty(),
    }
}

/// Completes a parsed descriptor for a self-contained build.
///
/// The transform is additive: afterwards a library section exists, its
/// output-kind list is the old one (empty if the section was absent) with
/// `cdylib` appended exactly when it was missing, and the package identity
/// is untouched when present and the placeholder `generated` 0.1.0 when
/// absent.
pub fn synthesize(m: &mut cargo_toml::Manifest<toml::Value>)
    ensures
        manifest_lib_types(*final(m)) is Some,
        manifest_lib_types(*final(m))->Some_0.contains("cdylib"@),
        lib_types_or_empty(*old(m)).contains("cdylib"@) ==> manifest_lib_types(*final(m))
            == Option::Some(lib_types_or_empty(*old(m))),
        !lib_types_or_empty(*old(m)).contains("cdylib"@) ==> manifest_lib_types(*final(m))
            == Option::Some(lib_types_or_empty(*old(m)).push("cdylib"@)),
        forall|t: Seq<char>|
            lib_types_or_empty(*old(m)).contains(t) ==> manifest_lib_types(
                *final(m),
            )->Some_0.contains(t),
        manifest_package(*old(m)) is Some ==> manifest_package(*final(m)) == manifest_package(
            *old(m),
        ),
        manifest_package(*old(m)) is None ==> manifest_package(*final(m)) == Option::Some(
            ("generated"@, (0u64, 1u64, 0u64)),
        ),
{
    let ts = manifest_lib_types_get(m);
    let has_cdylib: bool = match ts {
        Option::Some(v) => contains_string(&v, "cdylib"),
        Option::None => {
            manifest_set_empty_lib(m);
            false
        },
    };
    if !has_cdylib {
        manifest_push_lib_type(m, "cdylib");
    }
    proof {
        if lib_types_or_empty(*old(m)).contains("cdylib"@) {
            assert(manifest_lib_types(*m) == Option::Some(lib_types_or_empty(*old(m))));
        } else {
            assert(manifest_lib_types(*m) == Option::Some(
                lib_types_or_empty(*old(m)).push("cdylib"@),
            ));
        }
        assert(manifest_lib_types(*m)->Some_0.contains("cdylib"@)) by {
            let ts2 = manifest_lib_types(*m)->Some_0;
            if !lib_types_or_empty(*old(m)).contains("cdylib"@) {
                assert(ts2[ts2.len() - 1] == "cdylib"@);
            }
        }
        assert forall|t: Seq<char>|
            lib_types_or_empty(*old(m)).contains(t) implies manifest_lib_types(
            *m,
        )->Some_0.contains(t) by {
            let old_ts = lib_types_or_empty(*old(m));
            let j = choose|j: int| 0 <= j < old_ts.len() && old_ts[j] == t;
            assert(manifest_lib_types(*m)->Some_0[j] == t);
        }
    }
    if !manifest_has_package(m) {
        manifest_set_package(m, "generated", 0, 1, 0);
    }
}

/// Parses a manifest fragment and completes it; nothing if the fragment is
/// not valid manifest text.
pub fn parse_and_synthesize(frag: &Vec<char>) -> (r: Option<cargo_toml::Manifest<toml::Value>>)
    ensures
        r is Some <==> manifest_parses(frag@),
        r matches Option::Some(m) ==> {
            &&& manifest_lib_types(m) is Some
            &&& manifest_lib_types(m)->Some_0.contains("cdylib"@)
            &&& manifest_package(m) is Some
        },
{
    let s = crate::text::chars_to_string(frag);
    match manifest_from_str(s.as_str()) {
        Option::None => None,
        Option::Some(mut m) => {
            synthesize(&mut m);
            Some(m)
        },
    }
}

} // verus!
