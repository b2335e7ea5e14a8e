//! How a template is kept between its deployment and the spawning of its
//! apps: as the bytes of its deploy-template transaction.

use crate::codec::template::{
    deploy_template_bytes, deploy_template_encodable, deploy_template_from_bytes,
    deploy_template_to_bytes, deploy_template_valid, lemma_deploy_template_round_trip,
    parse_deploy_template,
};
use crate::types::{AppTemplate, AppTemplateView, AuthorAddr};
use vstd::prelude::*;

verus! {

/// Turns a template and the address of its author into bytes.
pub trait AppTemplateSerializer {
    /// Whether the template can be serialized.
    spec fn serializable(template: AppTemplateView, author: Seq<u8>) -> bool;

    /// The bytes of a template.
    spec fn serialized(template: AppTemplateView, author: Seq<u8>) -> Seq<u8>;

    fn serialize(template: &AppTemplate, author: &AuthorAddr) -> (bytes: Vec<u8>)
        requires
            Self::serializable(template@, author@),
        ensures
            bytes@ == Self::serialized(template@, author@),
    ;
}

/// Turns bytes back into a template and the address of its author.
pub trait AppTemplateDeserializer {
    /// The template that the bytes hold, if they hold one.
    spec fn deserialized(bytes: Seq<u8>) -> Option<(AppTemplateView, Seq<u8>)>;

    fn deserialize(bytes: &[u8]) -> (res: Option<(AppTemplate, AuthorAddr)>)
        ensures
            match res {
                Some((template, author)) => Self::deserialized(bytes@) == Some(
                    (template@, author@),
                ),
                None => Self::deserialized(bytes@) is None,
            },
    ;
}

/// The default serializer of templates.
pub struct DefaultAppTemplateSerializer;

/// The default deserializer of templates.
pub struct DefaultAppTemplateDeserializer;

impl AppTemplateSerializer for DefaultAppTemplateSerializer {
    open spec fn serializable(template: AppTemplateView, author: Seq<u8>) -> bool {
        deploy_template_encodable(template, author)
    }

    open spec fn serialized(template: AppTemplateView, author: Seq<u8>) -> Seq<u8> {
        deploy_template_bytes(template, author)
    }

    fn serialize(template: &AppTemplate, author: &AuthorAddr) -> (bytes: Vec<u8>) {
        deploy_template_to_bytes(template, author)
    }
}

impl AppTemplateDeserializer for DefaultAppTemplateDeserializer {
    open spec fn deserialized(bytes: Seq<u8>) -> Option<(AppTemplateView, Seq<u8>)> {
        match parse_deploy_template(bytes) {
            Ok(x) => Some(x),
            Err(_) => None,
        }
    }

    fn deserialize(bytes: &[u8]) -> (res: Option<(AppTemplate, AuthorAddr)>) {
        match deploy_template_from_bytes(bytes) {
            Ok(decoded) => Some(decoded),
            Err(_) => None,
        }
    }
}

/// What the default serializer writes for a template that a decoder
/// accepts, the default deserializer reads back unchanged.
pub proof fn lemma_default_serializer_round_trip(template: AppTemplateView, author: Seq<u8>)
    requires
        deploy_template_valid(template, author),
    ensures
        DefaultAppTemplateDeserializer::deserialized(
            DefaultAppTemplateSerializer::serialized(template, author),
        ) == Some((template, author)),
{
    lemma_deploy_template_round_trip(template, author);
}

} // verus!
