//! License strings and their canonical SPDX form.

use vstd::prelude::*;

verus! {

/// The error of `spdx`'s parser. It is only handed on.
#[verifier::external_type_specification]
#[verifier::external_body]
pub struct ExParseError(spdx::ParseError);

/// What `spdx::Expression::canonicalize` makes of a license string: the
/// canonical SPDX expression where the string can be read as an expression
/// and is not already in that form, `None` where it cannot be read or needs
/// no change.
pub uninterp spec fn spdx_canonical(license: Seq<char>) -> Option<Seq<char>>;

/// Calls `spdx::Expression::canonicalize`. The contract names the outcome
/// `spdx_canonical`: the rewritten expression for `Ok(Some(..))`, `None` for
/// `Ok(None)` and for a lexer error alike.
#[verifier::external_body]
fn canonicalize(license: &str) -> (r: Result<Option<String>, spdx::ParseError>)
    ensures
        r matches Ok(Some(c)) ==> spdx_canonical(license@) == Some(c@),
        !(r matches Ok(Some(_))) ==> spdx_canonical(license@) is None,
{
    spdx::Expression::canonicalize(license)
}

/// The license string that a wallpaper carries, given the string as declared
/// and its canonical form, if it has one: the canonical form wins.
pub open spec fn resolved_license(declared: Seq<char>, canonical: Option<Seq<char>>) -> Seq<char> {
    match canonical {
        Some(c) => c,
        None => declared,
    }
}

/// Picks the license string from the declared one and the outcome of
/// canonicalizing it: the rewritten expression where there is one, the
/// declared string, unchanged, in every other case.
pub fn license_from(declared: &str, outcome: Result<Option<String>, spdx::ParseError>) -> (r:
    String)
    ensures
        outcome matches Ok(Some(c)) ==> r@ == c@,
        !(outcome matches Ok(Some(_))) ==> r@ == declared@,
{
    match outcome {
        Ok(Some(c)) => c,
        _ => declared.to_owned(),
    }
}

/// Resolves a declared license string: its canonical SPDX form where `spdx`
/// gives one, else the declared string as it stands. It never fails.
pub fn resolve_license(declared: &str) -> (r: String)
    ensures
        r@ == resolved_license(declared@, spdx_canonical(declared@)),
{
    license_from(declared, canonicalize(declared))
}

/// Whether resolving `declared` calls for the warning that the string is not
/// a valid SPDX identifier: whenever no rewritten form came back.
pub fn license_needs_warning(declared: &str) -> (r: bool)
    ensures
        r == (spdx_canonical(declared@) is None),
{
    match canonicalize(declared) {
        Ok(Some(_)) => false,
        _ => true,
    }
}

} // verus!
