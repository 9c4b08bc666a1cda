//! Connection settings for a remote SurrealDB decision store.

use crate::text::{opt_view, owned};
use vstd::prelude::*;

verus! {

broadcast use vstd::string::group_string_axioms;

/// Settings for connecting a decision store to a remote SurrealDB.
#[derive(Clone, Debug)]
pub struct SurrealDecisionStoreBuilder {
    url: String,
    username: Option<String>,
    password: Option<String>,
    namespace: String,
    database: String,
}

/// What the connection settings hold.
pub struct BuilderView {
    pub url: Seq<char>,
    pub username: Option<Seq<char>>,
    pub password: Option<Seq<char>>,
    pub namespace: Seq<char>,
    pub database: Seq<char>,
}

impl View for SurrealDecisionStoreBuilder {
    type V = BuilderView;

    closed spec fn view(&self) -> BuilderView {
        BuilderView {
            url: self.url@,
            username: opt_view(self.username),
            password: opt_view(self.password),
            namespace: self.namespace@,
            database: self.database@,
        }
    }
}

impl SurrealDecisionStoreBuilder {
    /// Settings for the server at `url`: no credentials, namespace
    /// `oxidizedgraph`, database `decisions`.
    pub fn connect_remote(url: &str) -> (r: Self)
        ensures
            r@ == (BuilderView {
                url: url@,
                username: None,
                password: None,
                namespace: "oxidizedgraph"@,
                database: "decisions"@,
            }),
    {
        SurrealDecisionStoreBuilder {
            url: owned(url),
            username: None,
            password: None,
            namespace: owned("oxidizedgraph"),
            database: owned("decisions"),
        }
    }

    /// The settings with credentials.
    pub fn credentials(self, username: &str, password: &str) -> (r: Self)
        ensures
            r@ == (BuilderView { username: Some(username@), password: Some(password@), ..self@ }),
    {
        SurrealDecisionStoreBuilder { username: Some(owned(username)), password: Some(owned(password)), ..self }
    }

    /// The settings with the namespace replaced.
    pub fn namespace(self, ns: &str) -> (r: Self)
        ensures
            r@ == (BuilderView { namespace: ns@, ..self@ }),
    {
        SurrealDecisionStoreBuilder { namespace: owned(ns), ..self }
    }

    /// The settings with the database replaced.
    pub fn database(self, db: &str) -> (r: Self)
        ensures
            r@ == (BuilderView { database: db@, ..self@ }),
    {
        SurrealDecisionStoreBuilder { database: owned(db), ..self }
    }

    /// The server URL.
    pub fn url(&self) -> (r: &str)
        ensures
            r@ == self@.url,
    {
        self.url.as_str()
    }

    /// The namespace to select.
    pub fn namespace_name(&self) -> (r: &str)
        ensures
            r@ == self@.namespace,
    {
        self.namespace.as_str()
    }

    /// The database to select.
    pub fn database_name(&self) -> (r: &str)
        ensures
            r@ == self@.database,
    {
        self.database.as_str()
    }

    /// The user name and password to sign in with: only when both are set.
    pub fn sign_in(&self) -> (r: Option<(&str, &str)>)
        ensures
            match r {
                Some((u, p)) => self@.username == Some(u@) && self@.password == Some(p@),
                None => self@.username is None || self@.password is None,
            },
    {
        match (&self.username, &self.password) {
            (Some(u), Some(p)) => Some((u.as_str(), p.as_str())),
            _ => None,
        }
    }
}

} // verus!
