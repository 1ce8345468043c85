//! The arguments that a user starts the layer with.

use vstd::prelude::*;

verus! {

/// `memflow::plugins::OsArgs`, the arguments of an operating system layer.
#[verifier::external_type_specification]
#[verifier::external_body]
pub struct ExOsArgs(memflow::plugins::OsArgs);

/// The extra arguments, by their keys.
pub uninterp spec fn extra_args(args: memflow::plugins::OsArgs) -> Map<Seq<char>, Seq<char>>;

/// `memflow::plugins::Args::get` on the extra arguments: the value of a key, or nothing if there
/// is no such key.
#[verifier::external_body]
fn extra_arg<'a>(args: &'a memflow::plugins::OsArgs, key: &str) -> (value: Option<&'a str>)
    ensures
        match value {
            Some(text) => extra_args(*args).contains_key(key@) && text@ == extra_args(*args)[key@],
            None => !extra_args(*args).contains_key(key@),
        },
{
    args.extra_args.get(key)
}

/// The value of the argument that decides whether the debug privilege is to be enabled.
pub open spec fn elevate_token(args: memflow::plugins::OsArgs) -> Option<Seq<char>> {
    if extra_args(args).contains_key("elevate_token"@) {
        Some(extra_args(args)["elevate_token"@])
    } else {
        None
    }
}

/// The values that say no.
pub open spec fn is_off(value: Seq<char>) -> bool {
    value == "off"@ || value == "OFF"@ || value == "Off"@ || value == "n"@ || value == "N"@ || value
        == "0"@
}

/// Whether the debug privilege is to be enabled: unless the argument says no.
pub open spec fn elevation_wanted(value: Option<Seq<char>>) -> bool {
    match value {
        Some(text) => !is_off(text),
        None => true,
    }
}

/// Whether an `elevate_token` argument asks for the debug privilege.
pub fn wants_elevation(value: Option<&str>) -> (wanted: bool)
    ensures
        wanted == elevation_wanted(
            match value {
                Some(text) => Some(text@),
                None => None,
            },
        ),
{
    match value {
        Some(text) => {
            let text: String = text.to_owned();
            !(text == "off".to_owned() || text == "OFF".to_owned() || text == "Off".to_owned()
                || text == "n".to_owned() || text == "N".to_owned() || text == "0".to_owned())
        },
        None => true,
    }
}

/// Whether the debug privilege is to be enabled before the layer is made.
pub fn elevation_requested(args: &memflow::plugins::OsArgs) -> (wanted: bool)
    ensures
        wanted == elevation_wanted(elevate_token(*args)),
{
    wants_elevation(extra_arg(args, "elevate_token"))
}

} // verus!
