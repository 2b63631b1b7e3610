//! The build engine, as far as the bridge relies on it.
//!
//! Everything in this file is taken on trust: the engine's types are declared
//! here, and each function below is a thin call into the engine (or into the
//! standard library, where it reads one of the engine's values) whose
//! contract is believed, not proved. The build itself is not among them: it
//! reads files, so whoever holds the engine and the arguments makes that call.

use configtpl::types::config_builder::BuildArgs;
use configtpl::types::config_param::ConfigParam;
use std::collections::HashMap;
use vstd::float::FloatBitsProperties;
use vstd::prelude::*;

verus! {

/// `configtpl::config_builder::ConfigBuilder`: a native builder instance.
/// Nothing is known of what it holds.
#[verifier::external_type_specification]
#[verifier::external_body]
pub struct ExConfigBuilder<'a>(configtpl::config_builder::ConfigBuilder<'a>);

/// `configtpl::types::config_param::ConfigParam`: the engine's tagged value,
/// with its seven variants open to the library.
#[verifier::external_type_specification]
pub struct ExConfigParam(ConfigParam);

/// `configtpl::types::config_builder::BuildArgs`: the engine's input record,
/// with its public fields open to the library.
#[verifier::external_type_specification]
pub struct ExBuildArgs(BuildArgs);

/// A native builder instance that lives as long as the process.
pub type Engine = configtpl::config_builder::ConfigBuilder<'static>;

/// The bit pattern of a float parameter; zero for every other variant.
pub open spec fn float_bits_of(param: ConfigParam) -> u64 {
    match param {
        ConfigParam::Float(number) => number.to_bits_spec(),
        _ => 0,
    }
}

/// Calls `ConfigBuilder::new`. The engine says nothing of the instance but
/// that it is a fresh one with the default configuration.
#[verifier::external_body]
pub(crate) fn new_engine() -> Engine {
    configtpl::config_builder::ConfigBuilder::new()
}

/// Calls `BuildArgs::default`, which the engine derives: every optional
/// field is `None` and the path list is empty.
#[verifier::external_body]
pub(crate) fn default_args() -> (args: BuildArgs)
    ensures
        args.context is None,
        args.defaults is None,
        args.env_vars_prefix is None,
        args.overrides is None,
        args.paths@.len() == 0,
{
    BuildArgs::default()
}

/// Calls `BuildArgs::with_paths`, which replaces the path list by the given
/// one, in the given order, and leaves the other fields as they are.
#[verifier::external_body]
pub(crate) fn with_paths(args: BuildArgs, paths: Vec<String>) -> (out: BuildArgs)
    ensures
        out.paths@ == paths@,
        out.context == args.context,
        out.defaults == args.defaults,
        out.env_vars_prefix == args.env_vars_prefix,
        out.overrides == args.overrides,
{
    args.with_paths(paths)
}

/// Calls `HashMap::iter` and collects what it yields: every entry of the
/// map, each key once, in an order that the map does not promise.
#[verifier::external_body]
pub(crate) fn entries_of<'a>(map: &'a HashMap<String, ConfigParam>) -> (entries: Vec<
    (&'a String, &'a ConfigParam),
>)
    ensures
        entries@.len() == map@.dom().len(),
        forall|i: int|
            0 <= i < entries@.len() ==> map@.contains_key(*(#[trigger] entries@[i]).0)
                && map@[*entries@[i].0] == *entries@[i].1,
        forall|i: int, j: int|
            0 <= i < j < entries@.len() ==> (#[trigger] entries@[i]).0@ != (
            #[trigger] entries@[j]).0@,
{
    map.iter().collect()
}

/// Calls `to_bits` on the number that a float parameter holds: its IEEE-754
/// binary64 bit pattern. Any other variant gives zero.
#[verifier::external_body]
pub(crate) fn float_bits(param: &ConfigParam) -> (bits: u64)
    ensures
        bits == float_bits_of(*param),
{
    match param {
        ConfigParam::Float(number) => number.to_bits(),
        _ => 0,
    }
}

} // verus!
