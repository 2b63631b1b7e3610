//! One build, in the two steps that stand around the engine's call.
//!
//! `plan` decides whether the engine is asked at all and makes what it is
//! asked with. The caller then asks the engine, which reads the files.
//! `present` takes over what the engine returned and encodes it for the host.

use crate::engine::{default_args, with_paths, Engine};
use crate::error::{BridgeError, ErrorModel};
use crate::host::{HostModel, HostValue};
use crate::intake::{from_param, lemma_reflection_is_fixed_up_to_order, reflects};
use crate::marshal::{
    encode, from_host, lemma_decode_inverts_encode, lemma_encoding_keeps_keys, to_host,
};
use crate::registry::Registry;
use crate::value::{ConfigValue, ValueModel};
use configtpl::types::config_builder::BuildArgs;
use configtpl::types::config_param::ConfigParam;
use vstd::prelude::*;

verus! {

/// The arguments ask for `paths`, as they are and in their order, and for
/// nothing else: no context, no defaults, no environment prefix, no override.
pub open spec fn asks_for(args: BuildArgs, paths: Seq<String>) -> bool {
    &&& args.paths@ == paths
    &&& args.context is None
    &&& args.defaults is None
    &&& args.env_vars_prefix is None
    &&& args.overrides is None
}

/// The plan of a render of `paths` on `handle`.
///
/// A handle that names no live instance gets the invalid-handle error that
/// carries it, and the engine is not asked. On a live handle the engine to
/// ask is the instance behind the handle, and it is asked for exactly the
/// given paths.
pub open spec fn planned(
    registry: Registry,
    handle: usize,
    paths: Seq<String>,
    plan: Result<(&Engine, BuildArgs), BridgeError>,
) -> bool {
    match plan {
        Ok(pair) => {
            &&& registry.is_live(handle)
            &&& registry@[handle as int] == Some(*pair.0)
            &&& asks_for(pair.1, paths)
        },
        Err(error) => {
            &&& !registry.is_live(handle)
            &&& error@ == ErrorModel::InvalidHandle(handle as nat)
        },
    }
}

/// A render has one possible plan: planned again on the same registry,
/// handle and paths, it refuses the same way or asks the same instance for
/// the same paths. The bridge keeps nothing between two renders that could
/// make them differ.
pub proof fn lemma_plan_is_repeatable(
    registry: Registry,
    handle: usize,
    paths: Seq<String>,
    first: Result<(&Engine, BuildArgs), BridgeError>,
    second: Result<(&Engine, BuildArgs), BridgeError>,
)
    requires
        planned(registry, handle, paths, first),
        planned(registry, handle, paths, second),
    ensures
        match first {
            Ok(pair) => second is Ok && *second->Ok_0.0 == *pair.0 && asks_for(
                second->Ok_0.1,
                pair.1.paths@,
            ),
            Err(error) => second is Err && second->Err_0@ == error@,
        },
{
}

/// Plans a render: resolves `handle` and makes the arguments that the engine
/// is to be asked with.
///
/// A handle that names no live instance is refused here, before any call of
/// the engine. The paths go into the arguments as they are: in order, not
/// deduplicated, not checked. The registry is only read.
pub fn plan<'a>(registry: &'a Registry, handle: usize, paths: Vec<String>) -> (ask: Result<
    (&'a Engine, BuildArgs),
    BridgeError,
>)
    ensures
        planned(*registry, handle, paths@, ask),
        handle >= registry@.len() ==> ask is Err && ask->Err_0@ == ErrorModel::InvalidHandle(
            handle as nat,
        ),
{
    match registry.resolve(handle) {
        Ok(engine) => Ok((engine, with_paths(default_args(), paths))),
        Err(error) => Err(error),
    }
}

/// What the host receives for an outcome of the build engine: the encoded
/// tree for a success, a build failure with the engine's words for a failure.
pub open spec fn delivered(outcome: Result<ValueModel, Seq<char>>) -> Result<
    HostModel,
    ErrorModel,
> {
    match outcome {
        Ok(value) => Ok(to_host(value)),
        Err(text) => Err(ErrorModel::BuildFailure(text)),
    }
}

/// The model of an outcome of the build engine.
pub open spec fn outcome_model(outcome: Result<ConfigValue, String>) -> Result<
    ValueModel,
    Seq<char>,
> {
    match outcome {
        Ok(value) => Ok(value@),
        Err(text) => Err(text@),
    }
}

/// The model of what the host receives.
pub open spec fn reply_model(reply: Result<HostValue, BridgeError>) -> Result<
    HostModel,
    ErrorModel,
> {
    match reply {
        Ok(host) => Ok(host@),
        Err(error) => Err(error@),
    }
}

/// Turns an outcome of the build engine into what the host receives. A
/// failure is passed on with the engine's words unchanged; nothing partial is
/// ever returned.
pub fn deliver(outcome: Result<ConfigValue, String>) -> (reply: Result<HostValue, BridgeError>)
    ensures
        reply_model(reply) == delivered(outcome_model(outcome)),
{
    match outcome {
        Ok(value) => Ok(encode(&value)),
        Err(text) => Err(BridgeError::BuildFailure(text)),
    }
}

/// Takes over what the build engine returned and delivers it: on success
/// the host value says what the engine's value says, on failure the error is
/// a build failure with the engine's words.
pub fn present(outcome: Result<ConfigParam, String>) -> (reply: Result<HostValue, BridgeError>)
    ensures
        match outcome {
            Ok(param) => reply matches Ok(host) && reflects(param, from_host(host@))
                && host@.keys_unique(),
            Err(text) => reply matches Err(error) && error@ == ErrorModel::BuildFailure(text@),
        },
{
    match outcome {
        Ok(param) => {
            let value = from_param(&param);
            proof {
                lemma_decode_inverts_encode(value@);
                lemma_encoding_keeps_keys(value@);
            }
            deliver(Ok(value))
        },
        Err(text) => deliver(Err(text)),
    }
}

/// The same outcome of the engine is presented the same way every time, but
/// for the order in which dictionaries hold their entries: the bridge adds
/// nothing of its own that could make two replies drift apart.
pub proof fn lemma_same_outcome_same_reply(param: ConfigParam, first: HostModel, second: HostModel)
    requires
        reflects(param, from_host(first)),
        reflects(param, from_host(second)),
    ensures
        from_host(first).same_up_to_order(from_host(second)),
{
    lemma_reflection_is_fixed_up_to_order(param, from_host(first), from_host(second));
}

} // verus!
