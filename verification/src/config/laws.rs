//! What registering, loading and looking up configs promise together.

use vstd::prelude::*;

use super::repository::spec_get;
use super::repository_builder::{
    load_parses, spec_load, spec_register, BuilderModel, ConfigRegistrationError, LoadFailure,
};
use super::store::ConfigType;

verus! {

/// A config loaded under a name that its type's store does not hold yet is
/// found again under that name, and every other lookup gives what it gave
/// before.
pub proof fn law_load_then_get<P>(
    model: BuilderModel<P>,
    tag: Seq<char>,
    name: Seq<char>,
    config: P,
    other_type: std::any::TypeId,
    other_name: Seq<char>,
)
    requires
        load_parses(model, tag),
        !model.stores[model.loaders[tag].type_id].contains_key(name),
    ensures
        ({
            let (after, outcome) = spec_load(model, tag, name, Ok(config));
            let type_id = model.loaders[tag].type_id;
            &&& outcome == Ok::<(), LoadFailure>(())
            &&& spec_get(after.stores, type_id, name) == Some(config)
            &&& (other_type != type_id || other_name != name) ==> spec_get(
                after.stores,
                other_type,
                other_name,
            ) == spec_get(model.stores, other_type, other_name)
        }),
{
}

/// A second config under a name already loaded for the type is refused,
/// and the first one stays.
pub proof fn law_load_twice_keeps_first<P>(
    model: BuilderModel<P>,
    tag: Seq<char>,
    name: Seq<char>,
    first: P,
    second: P,
)
    requires
        load_parses(model, tag),
        !model.stores[model.loaders[tag].type_id].contains_key(name),
    ensures
        ({
            let (loaded, _) = spec_load(model, tag, name, Ok(first));
            let (again, outcome) = spec_load(loaded, tag, name, Ok(second));
            &&& outcome == Err::<(), LoadFailure>(LoadFailure::IdAlreadyOccupied(name))
            &&& again == loaded
            &&& spec_get(again.stores, model.loaders[tag].type_id, name) == Some(first)
        }),
{
}

/// A load that fails changes nothing.
pub proof fn law_failed_load_changes_nothing<P>(
    model: BuilderModel<P>,
    tag: Seq<char>,
    name: Seq<char>,
    parsed: Result<P, serde_json::Error>,
)
    ensures
        ({
            let (after, outcome) = spec_load(model, tag, name, parsed);
            outcome is Err ==> after == model
        }),
{
}

/// Registering a config type twice: the type has a store after the first
/// registration, and the second is refused and changes nothing.
pub proof fn law_register_twice_refused<P>(model: BuilderModel<P>, config_type: ConfigType)
    ensures
        ({
            let (registered, _) = spec_register(model, config_type);
            let (again, outcome) = spec_register(registered, config_type);
            &&& registered.stores.contains_key(config_type.type_id)
            &&& outcome == Err::<(), ConfigRegistrationError>(
                ConfigRegistrationError::TypeAlreadyRegistered {
                    type_label: config_type.type_label,
                },
            )
            &&& again == registered
        }),
{
}

/// Registering a new type under a new tag succeeds; the type's store is
/// empty, and a load of the tag gets as far as parsing.
pub proof fn law_register_then_load<P>(model: BuilderModel<P>, config_type: ConfigType)
    requires
        !model.stores.contains_key(config_type.type_id),
        !model.loaders.contains_key(config_type.tag@),
    ensures
        ({
            let (registered, outcome) = spec_register(model, config_type);
            &&& outcome == Ok::<(), ConfigRegistrationError>(())
            &&& registered.stores[config_type.type_id] == Map::<Seq<char>, P>::empty()
            &&& load_parses(registered, config_type.tag@)
            &&& registered.loaders[config_type.tag@] == config_type
        }),
{
}

} // verus!
