//! The list of models on offer, as the JSON text that callers are handed.
use vstd::prelude::*;
use crate::error::AiError;

verus! {

/// The error type of `serde_json`, carried through and never looked into.
#[verifier::external_type_specification]
#[verifier::external_body]
pub struct ExJsonError(serde_json::Error);

/// The text that `serde_json::to_string` gives for the JSON object with the
/// one member `key`, whose value is the array of the strings `values`;
/// `None` where it gives an error.
pub uninterp spec fn json_object_text(key: Seq<char>, values: Seq<Seq<char>>) -> Option<Seq<char>>;

/// The characters of each string.
pub open spec fn texts(values: Seq<String>) -> Seq<Seq<char>> {
    values.map_values(|s: String| s@)
}

/// A model that chat can be had with.
#[derive(Debug)]
pub struct AvailableModel {
    pub name: String,
    pub is_default: bool,
}

/// What a caller is handed: the names of the models, as JSON.
#[derive(Debug)]
pub struct ModelConfig {
    pub models: String,
}

/// Calls `serde_json::to_string` on the object `{key: values}`, built with
/// `serde_json::Map::insert` and `serde_json::Value::from`. Not proved: that
/// the outcome depends on `key` and `values` alone, which is all that the
/// contract claims by naming it.
#[verifier::external_body]
fn to_json_object(key: &str, values: Vec<String>) -> (r: Result<String, serde_json::Error>)
    ensures
        r is Ok <==> json_object_text(key@, texts(values@)) is Some,
        r matches Ok(text) ==> json_object_text(key@, texts(values@)) == Some(text@),
{
    let mut object = serde_json::Map::new();
    object.insert(key.to_string(), serde_json::Value::from(values));
    serde_json::to_string(&serde_json::Value::Object(object))
}

/// Wraps the outcome of serialising into what the caller is handed.
pub fn config_from_json(outcome: Result<String, serde_json::Error>) -> (r: Result<
    ModelConfig,
    AiError,
>)
    ensures
        match outcome {
            Ok(text) => r == Ok::<ModelConfig, AiError>(ModelConfig { models: text }),
            Err(_) => r == Err::<ModelConfig, AiError>(AiError::Serialization),
        },
{
    match outcome {
        Ok(text) => Ok(ModelConfig { models: text }),
        Err(_) => Err(AiError::Serialization),
    }
}

/// The names of the models, in the order given.
pub open spec fn names_of(models: Seq<AvailableModel>) -> Seq<String> {
    models.map_values(|m: AvailableModel| m.name)
}

/// The names of the models, in the order given.
pub fn model_names(models: Vec<AvailableModel>) -> (names: Vec<String>)
    ensures
        names@ == names_of(models@),
{
    let mut names: Vec<String> = Vec::new();
    let mut i: usize = 0;
    while i < models.len()
        invariant
            i <= models.len(),
            names@ == names_of(models@.take(i as int)),
        decreases models.len() - i,
    {
        names.push(models[i].name.clone());
        assert(names@ =~= names_of(models@.take(i as int + 1)));
        i += 1;
    }
    assert(models@.take(i as int) == models@);
    names
}

/// The JSON object `{"models": [..names..]}` for the models on offer.
pub fn get_available_model_list(models: Vec<AvailableModel>) -> (r: Result<ModelConfig, AiError>)
    ensures
        match json_object_text("models"@, texts(names_of(models@))) {
            Some(text) => r matches Ok(config) && config.models@ == text,
            None => r == Err::<ModelConfig, AiError>(AiError::Serialization),
        },
{
    let names = model_names(models);
    config_from_json(to_json_object("models", names))
}

} // verus!
