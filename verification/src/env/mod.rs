//! The game's environment: its configs, each known by a label in data files
//! and by a numeric id once loaded.

use vstd::prelude::*;

pub mod config;

use config::id::ConfigId;
use config::indexer::IndexerError;
use config::repository::ConfigRepository;
use config::repository_builder::{
    built_from, prepared_from, ConfigBuildError, ConfigPrepare, ConfigRepositoryBuilder,
};
use crate::config::store::ConfigType;

verus! {

/// The label of the resource that counts the population.
pub const RESOURCE_LABEL_HUMAN: &'static str = "human";

/// What the simulation and the screens share: the configs, and the id of
/// the resource that counts the population.
pub struct SharedEnv<P> {
    pub configs: ConfigRepository<P>,
    pub human_id: ConfigId<P>,
}

/// Why the environment could not be set up.
#[derive(Debug)]
pub enum EnvError<P> {
    /// The configs could not be built.
    Build(ConfigBuildError),
    /// The population's resource has no id for the resource type in the
    /// configs built.
    Indexer { error: IndexerError, configs: ConfigRepository<P> },
}

impl<P> SharedEnv<P> {
    /// The environment of the loaded configs: builds the repository and
    /// finds the id of `human` among the resources.
    pub fn new<R, Prep: ConfigPrepare<R, P>>(
        builder: ConfigRepositoryBuilder<R>,
        preparer: &Prep,
        resource_type: &ConfigType,
    ) -> (env: Result<Self, EnvError<P>>)
        ensures
            match env {
                Ok(env) => {
                    let indexer = env.configs.indexer_view();
                    &&& env.configs.wf()
                    &&& indexer.wf()
                    &&& built_from(env.configs.configs(), indexer, builder.view())
                    &&& prepared_from(env.configs.configs(), indexer, builder.view(), *preparer)
                    &&& indexer.ids.contains_key("human"@)
                    &&& indexer.types["human"@].contains(resource_type.type_id)
                    &&& env.human_id@ == indexer.ids["human"@]
                },
                Err(EnvError::Build(ConfigBuildError::IdsExhausted { indexer })) => indexer@.labels.len()
                    == u64::MAX,
                Err(EnvError::Indexer { error, configs }) => {
                    let indexer = configs.indexer_view();
                    &&& configs.wf()
                    &&& indexer.wf()
                    &&& built_from(configs.configs(), indexer, builder.view())
                    &&& prepared_from(configs.configs(), indexer, builder.view(), *preparer)
                    &&& match error {
                        IndexerError::LabelNotRegistered { label } => {
                            &&& label@ == "human"@
                            &&& !indexer.ids.contains_key("human"@)
                        },
                        IndexerError::LabelNotRegisteredForType { label, tag } => {
                            &&& label@ == "human"@
                            &&& tag == resource_type.tag
                            &&& indexer.ids.contains_key("human"@)
                            &&& !indexer.types["human"@].contains(resource_type.type_id)
                        },
                        IndexerError::LabelNotFound { .. } => false,
                    }
                },
            },
    {
        let configs = match builder.build(preparer) {
            Ok(configs) => configs,
            Err(e) => {
                return Err(EnvError::Build(e));
            },
        };
        let human_id = match configs.indexer().get_id(
            resource_type,
            String::from_str(RESOURCE_LABEL_HUMAN),
        ) {
            Ok(id) => id,
            Err(error) => {
                return Err(EnvError::Indexer { error, configs });
            },
        };
        Ok(SharedEnv { configs, human_id })
    }
}

/// What the screens hold: the shared environment, and the texts of the
/// game in the chosen language (`T`).
pub struct AppEnv<P: 'static, T> {
    pub shared: &'static SharedEnv<P>,
    pub texts: T,
}

impl<P, T> AppEnv<P, T> {
    /// The screens' environment over the shared one, with the texts.
    pub fn new(shared: &'static SharedEnv<P>, texts: T) -> (env: Self)
        ensures
            env.shared == shared,
            env.texts == texts,
    {
        AppEnv { shared, texts }
    }

    /// The configs of the shared environment.
    pub fn configs(&self) -> (configs: &'static ConfigRepository<P>)
        ensures
            *configs == self.shared.configs,
    {
        &self.shared.configs
    }
}

/// Why the texts gave no text for an identifier: they have none under it,
/// or they failed otherwise (`E`).
pub enum TextRetrievalError<E> {
    NotFound(String),
    Other(E),
}

/// The text shown for an identifier, from what the texts gave for it: a
/// missing text shows as its identifier; any other failure stays a failure.
pub fn text_or_identifier<E>(looked_up: Result<String, TextRetrievalError<E>>) -> (text: Result<
    String,
    E,
>)
    ensures
        match looked_up {
            Ok(found) => text == Ok::<String, E>(found),
            Err(TextRetrievalError::NotFound(id)) => text == Ok::<String, E>(id),
            Err(TextRetrievalError::Other(e)) => text == Err::<String, E>(e),
        },
{
    match looked_up {
        Ok(found) => Ok(found),
        Err(TextRetrievalError::NotFound(id)) => Ok(id),
        Err(TextRetrievalError::Other(e)) => Err(e),
    }
}

} // verus!
