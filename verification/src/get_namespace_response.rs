//! The answer of a REST catalog to a request for one namespace.
use std::collections::HashMap;
use vstd::prelude::*;

verus! {

/// A namespace and what the server stores about it.
#[derive(Debug, PartialEq)]
pub struct GetNamespaceResponse {
    /// Reference to one or more levels of a namespace
    pub namespace: Vec<String>,
    /// Properties stored on the namespace, if supported by the server. If
    /// the server does not support namespace properties, this is `None`. If
    /// namespace properties are supported, but none are set, it is an empty
    /// map.
    pub properties: Option<HashMap<String, String>>,
}

impl Clone for GetNamespaceResponse {
    fn clone(&self) -> (copy: Self)
        ensures
            copy.namespace@ == self.namespace@,
            copy.properties is None <==> self.properties is None,
            copy.properties is Some ==> copy.properties->Some_0@ == self.properties->Some_0@,
    {
        GetNamespaceResponse {
            namespace: self.namespace.clone(),
            properties: match &self.properties {
                Some(properties) => Some(properties.clone()),
                None => None,
            },
        }
    }
}

impl Default for GetNamespaceResponse {
    fn default() -> (made: Self)
        ensures
            made.namespace@.len() == 0,
            made.properties is None,
    {
        GetNamespaceResponse { namespace: Vec::new(), properties: None }
    }
}

impl GetNamespaceResponse {
    /// The answer for a namespace without stored properties.
    pub fn new(namespace: Vec<String>) -> (made: GetNamespaceResponse)
        ensures
            made.namespace == namespace,
            made.properties is None,
    {
        GetNamespaceResponse { namespace, properties: None }
    }
}

} // verus!
