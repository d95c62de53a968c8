//! Compile-time definitions handed to the native compiler invocation.

use vstd::prelude::*;
use crate::flags::Flags;

verus! {

/// `cc::Build`, the compiler invocation of the `cc` crate. Its inside is not
/// looked into: a value of it is carried through and handed to `define`.
#[verifier::external_type_specification]
#[verifier::external_body]
pub struct ExBuild(cc::Build);

/// The `-D` definitions that a `cc::Build` holds, in the order in which they
/// were added: a macro name and, where it has one, its value. This is a name
/// for a private field of the invocation; all that is known of it is what
/// `define` is trusted to do to it.
pub uninterp spec fn build_definitions(build: cc::Build) -> Seq<(Seq<char>, Option<Seq<char>>)>;

/// A definition as the compiler invocation records it.
pub open spec fn definition(name: Seq<char>, value: Option<&str>) -> (Seq<char>, Option<Seq<char>>) {
    (
        name,
        match value {
            Some(v) => Some(v@),
            None => None,
        },
    )
}

/// Calls `cc::Build::define`. Trusted, not proved: the call appends the pair
/// of `name` and `value` to the definitions of the invocation and leaves those
/// already there in place and in order.
#[verifier::external_body]
fn define(build: &mut cc::Build, name: &str, value: Option<&str>)
    ensures
        build_definitions(*final(build)) == build_definitions(*old(build)).push(
            definition(name@, value),
        ),
{
    build.define(name, value);
}

/// The text of a boolean as a macro value.
pub open spec fn bool_int_text(p: bool) -> Seq<char> {
    if p {
        "1"@
    } else {
        "0"@
    }
}

/// `"1"` for `true`, `"0"` for `false`.
pub fn bool_int_str(p: bool) -> (s: &'static str)
    ensures
        s@ == bool_int_text(p),
{
    if p {
        "1"
    } else {
        "0"
    }
}

/// The definitions that the shared configuration adds to an invocation.
pub open spec fn kj_definitions(heavy: bool, track: bool, save: bool) -> Seq<
    (Seq<char>, Option<Seq<char>>),
> {
    let lite: Seq<(Seq<char>, Option<Seq<char>>)> = if heavy {
        seq![]
    } else {
        seq![("CAPNP_LITE"@, None)]
    };
    lite.push(("KJ_SAVE_ACQUIRED_LOCK_INFO"@, Some(bool_int_text(save)))).push(
        ("KJ_TRACK_LOCK_BLOCKING"@, Some(bool_int_text(track))),
    )
}

/// Adds the definitions shared by every unit to a compiler invocation:
/// `CAPNP_LITE` without a value unless `heavy`, then the two lock diagnostics
/// switches with `"1"` or `"0"`.
pub fn kj_configure(build: &mut cc::Build, heavy: bool, track: bool, save: bool) -> (out:
    &mut cc::Build)
    ensures
        build_definitions(*out) == build_definitions(*old(build)) + kj_definitions(
            heavy,
            track,
            save,
        ),
        *final(build) == *final(out),
{
    if !heavy {
        define(build, "CAPNP_LITE", None);
    }
    define(build, "KJ_SAVE_ACQUIRED_LOCK_INFO", Some(bool_int_str(save)));
    define(build, "KJ_TRACK_LOCK_BLOCKING", Some(bool_int_str(track)));
    build
}

/// The definitions that a unit's flags add to its compiler invocation:
/// the shared ones, with both lock diagnostics switches following the
/// diagnostics flag, then `KJ_HAS_LIBDL` without a value where dynamic
/// loading is on.
pub open spec fn unit_definitions(flags: Flags) -> Seq<(Seq<char>, Option<Seq<char>>)> {
    let shared = kj_definitions(flags.full, flags.diagnostics, flags.diagnostics);
    if flags.dynamic_loading {
        shared.push(("KJ_HAS_LIBDL"@, None))
    } else {
        shared
    }
}

/// Applies a unit's flags to its compiler invocation.
pub fn configure_unit(build: &mut cc::Build, flags: &Flags)
    ensures
        build_definitions(*final(build)) == build_definitions(*old(build)) + unit_definitions(
            *flags,
        ),
{
    let ghost before = build_definitions(*build);
    let build = kj_configure(build, flags.full, flags.diagnostics, flags.diagnostics);
    if flags.dynamic_loading {
        define(build, "KJ_HAS_LIBDL", None);
    }
    assert(build_definitions(*build) =~= before + unit_definitions(*flags));
}

} // verus!
