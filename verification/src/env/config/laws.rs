//! What registering, loading, building and looking up configs promise
//! together.

use std::any::TypeId;

use vstd::prelude::*;

use super::indexer::IndexerView;
use super::repository_builder::{
    built_from, load_parses, prepared_from, spec_load, spec_register, type_registered,
    BuilderView, ConfigPrepare,
};
use crate::config::repository_builder::{ConfigRegistrationError, LoadFailure};
use crate::config::store::ConfigType;

verus! {

/// A raw config loaded under a new label is, once the repository is built,
/// stored with its tag's type under the id the label got, as the config
/// prepared from that raw config and label; and the label is known to the
/// indexer for that type.
pub proof fn law_load_then_build_then_get<P, R, Prep: ConfigPrepare<R, P>>(
    view: BuilderView<R>,
    tag: Seq<char>,
    label: Seq<char>,
    raw: R,
    configs: Map<TypeId, Map<u64, P>>,
    indexer: IndexerView,
    preparer: Prep,
)
    requires
        load_parses(view, tag),
        !view.raws[tag].contains_key(label),
        built_from(configs, indexer, spec_load(view, tag, label, Ok(raw)).0),
        prepared_from(configs, indexer, spec_load(view, tag, label, Ok(raw)).0, preparer),
    ensures
        ({
            let type_id = view.loaders[tag].type_id;
            &&& spec_load(view, tag, label, Ok(raw)).1 == Ok::<(), LoadFailure>(())
            &&& indexer.ids.contains_key(label)
            &&& indexer.types[label].contains(type_id)
            &&& configs.contains_key(type_id)
            &&& configs[type_id].contains_key(indexer.ids[label])
            &&& exists|at: IndexerView, name: String|
                #![trigger preparer.spec_prepared(view.loaders[tag], raw, name, at)]
                {
                    &&& name@ == label
                    &&& at.ids.contains_key(label)
                    &&& at.ids[label] == indexer.ids[label]
                    &&& indexer.extends(at)
                    &&& configs[type_id][indexer.ids[label]] == preparer.spec_prepared(
                        view.loaders[tag],
                        raw,
                        name,
                        at,
                    )
                }
        }),
{
    let after = spec_load(view, tag, label, Ok(raw)).0;
    assert(after.raws.contains_key(tag));
    assert(after.raws[tag].contains_key(label));
    assert(after.raws[tag][label] == raw);
    assert(after.loaders[tag] == view.loaders[tag]);
}

/// A second raw config under a label already loaded for the tag is refused,
/// and the first one stays.
pub proof fn law_load_twice_keeps_first<R>(
    view: BuilderView<R>,
    tag: Seq<char>,
    label: Seq<char>,
    first: R,
    second: R,
)
    requires
        load_parses(view, tag),
        !view.raws[tag].contains_key(label),
    ensures
        ({
            let (loaded, _) = spec_load(view, tag, label, Ok(first));
            let (again, outcome) = spec_load(loaded, tag, label, Ok(second));
            &&& outcome == Err::<(), LoadFailure>(LoadFailure::IdAlreadyOccupied(label))
            &&& again == loaded
            &&& again.raws[tag][label] == first
        }),
{
}

/// A load that fails changes nothing.
pub proof fn law_failed_load_changes_nothing<R>(
    view: BuilderView<R>,
    tag: Seq<char>,
    label: Seq<char>,
    parsed: Result<R, serde_json::Error>,
)
    ensures
        ({
            let (after, outcome) = spec_load(view, tag, label, parsed);
            outcome is Err ==> after == view
        }),
{
}

/// Registering a config type twice: the second registration is refused
/// and changes nothing.
pub proof fn law_register_twice_refused<R>(view: BuilderView<R>, config_type: ConfigType)
    ensures
        ({
            let (registered, _) = spec_register(view, config_type);
            let (again, outcome) = spec_register(registered, config_type);
            &&& outcome == Err::<(), ConfigRegistrationError>(
                ConfigRegistrationError::TypeAlreadyRegistered {
                    type_label: config_type.type_label,
                },
            )
            &&& again == registered
        }),
{
    let (registered, _) = spec_register(view, config_type);
    if !view.raws.contains_key(config_type.tag@) && !type_registered(
        view.loaders,
        config_type.type_id,
    ) {
        assert(registered.raws.contains_key(config_type.tag@));
    }
}

/// Registering a config type under a new tag, whose type has no tag yet,
/// succeeds with an empty store, and a load of the tag gets as far as
/// parsing.
pub proof fn law_register_then_load<R>(view: BuilderView<R>, config_type: ConfigType)
    requires
        !view.raws.contains_key(config_type.tag@),
        !type_registered(view.loaders, config_type.type_id),
    ensures
        ({
            let (registered, outcome) = spec_register(view, config_type);
            &&& outcome == Ok::<(), ConfigRegistrationError>(())
            &&& registered.raws[config_type.tag@] == Map::<Seq<char>, R>::empty()
            &&& load_parses(registered, config_type.tag@)
            &&& registered.loaders[config_type.tag@] == config_type
        }),
{
}

} // verus!
