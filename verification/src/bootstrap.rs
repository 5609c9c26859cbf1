//! The naming contract shared by the build step and the rewritten document,
//! and the bootstrap loader text.
//!
//! A unit with identifier `n` is built from the ephemeral project directory
//! `temp_<n>` into the artifact directory `rust_modules/<n>`, and the
//! replacement element's loader imports `./rust_modules/<n>/index.js`. The
//! two sides are coupled by construction: the loader text is defined over
//! the same artifact-directory name that the build arguments use.

use vstd::prelude::*;

use crate::text::lit_chars;

verus! {

/// The decimal digit for `d`.
pub open spec fn spec_digit(d: int) -> char {
    ((48 + d) as u8) as char
}

/// The decimal numeral of `n`, most significant digit first.
pub open spec fn spec_dec(n: int) -> Seq<char>
    decreases n,
{
    if n < 10 {
        seq![spec_digit(n % 10)]
    } else {
        spec_dec(n / 10).push(spec_digit(n % 10))
    }
}

/// Writes `n` in decimal.
pub fn dec_chars(n: u64) -> (r: Vec<char>)
    ensures
        r@ == spec_dec(n as int),
    decreases n,
{
    if n < 10 {
        let d = ((48 + n as u8)) as char;
        let mut r: Vec<char> = Vec::new();
        r.push(d);
        proof {
            assert(r@ =~= seq![spec_digit(n as int % 10)]);
        }
        r
    } else {
        let mut r = dec_chars(n / 10);
        let d = ((48 + (n % 10) as u8)) as char;
        r.push(d);
        proof {
            assert(n as int / 10 == (n / 10) as int);
            assert(n as int % 10 == (n % 10) as int);
        }
        r
    }
}

/// The artifact directory for unit `n`: `rust_modules/<n>`.
pub open spec fn spec_artifact_dir(n: int) -> Seq<char> {
    "rust_modules/"@ + spec_dec(n)
}

/// Builds the artifact directory name for unit `n`.
pub fn artifact_dir(n: u64) -> (r: Vec<char>)
    ensures
        r@ == spec_artifact_dir(n as int),
{
    let mut r = lit_chars("rust_modules/");
    let d = dec_chars(n);
    crate::extract::append_chars(&mut r, &d);
    r
}

/// The ephemeral project directory for unit `n`: `temp_<n>`.
pub open spec fn spec_temp_dir(n: int) -> Seq<char> {
    "temp_"@ + spec_dec(n)
}

/// Builds the ephemeral project directory name for unit `n`.
pub fn temp_dir(n: u64) -> (r: Vec<char>)
    ensures
        r@ == spec_temp_dir(n as int),
{
    let mut r = lit_chars("temp_");
    let d = dec_chars(n);
    crate::extract::append_chars(&mut r, &d);
    r
}

/// The loader text for unit `n`. It imports the unit's compiled artifact
/// from `./rust_modules/<n>/index.js`, copies every named export except the
/// default one onto global scope, and awaits the default export.
pub open spec fn spec_hoist(n: int) -> Seq<char> {
    "\nimport init, * as pub from './"@ + spec_artifact_dir(n)
        + "/index.js';\nfor (const key of Object.keys(pub)) \n{\nif (key == 'default') {\ncontinue;\n}\nwindow[key] = pub[key];\n}\nawait init();\n"@
}

/// Builds the loader text for unit `n`.
pub fn hoist_text(n: u64) -> (r: Vec<char>)
    ensures
        r@ == spec_hoist(n as int),
{
    let mut r = lit_chars("\nimport init, * as pub from './");
    let dir = artifact_dir(n);
    crate::extract::append_chars(&mut r, &dir);
    let tail = lit_chars(
        "/index.js';\nfor (const key of Object.keys(pub)) \n{\nif (key == 'default') {\ncontinue;\n}\nwindow[key] = pub[key];\n}\nawait init();\n",
    );
    crate::extract::append_chars(&mut r, &tail);
    r
}

/// The loader of unit `n` imports from inside the same artifact directory
/// that the build step writes to: the artifact directory's name stands in
/// the loader text right after the opening `./` of the import path.
pub proof fn lemma_naming_contract(n: int)
    ensures
        spec_hoist(n).subrange(31, 31 + spec_artifact_dir(n).len() as int) == spec_artifact_dir(n),
{
    reveal_strlit("\nimport init, * as pub from './");
    assert(("\nimport init, * as pub from './"@).len() == 31);
    assert(spec_hoist(n).subrange(31, 31 + spec_artifact_dir(n).len() as int) =~= spec_artifact_dir(
        n,
    ));
}

/// The fixed arguments of one external build: disable type-declaration
/// output, write into the unit's artifact directory below the staging
/// directory, name the primary output `index`, target the embeddable web
/// module format, and build the unit's project directory.
pub fn wasm_pack_args(out_dir: &Vec<char>, project_dir: &Vec<char>) -> (r: Vec<Vec<char>>)
    ensures
        r@.len() == 9,
        r@[0]@ == "build"@,
        r@[1]@ == "--no-typescript"@,
        r@[2]@ == "--out-dir"@,
        r@[3]@ == out_dir@,
        r@[4]@ == "--out-name"@,
        r@[5]@ == "index"@,
        r@[6]@ == "--target"@,
        r@[7]@ == "web"@,
        r@[8]@ == project_dir@,
{
    let mut r: Vec<Vec<char>> = Vec::new();
    r.push(lit_chars("build"));
    r.push(lit_chars("--no-typescript"));
    r.push(lit_chars("--out-dir"));
    r.push(crate::text::sub_chars(out_dir, 0, out_dir.len()));
    r.push(lit_chars("--out-name"));
    r.push(lit_chars("index"));
    r.push(lit_chars("--target"));
    r.push(lit_chars("web"));
    r.push(crate::text::sub_chars(project_dir, 0, project_dir.len()));
    proof {
        assert(out_dir@.subrange(0, out_dir@.len() as int) =~= out_dir@);
        assert(project_dir@.subrange(0, project_dir@.len() as int) =~= project_dir@);
    }
    r
}

/// The document type declaration written ahead of the serialized document.
pub fn doctype_line() -> (r: Vec<char>)
    ensures
        r@ == "<!DOCTYPE html>\n"@,
{
    lit_chars("<!DOCTYPE html>\n")
}

} // verus!
