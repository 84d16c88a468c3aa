//! The requests that carry the operations of the remote workspace.
//!
//! A request is planned here and sent elsewhere: planning needs no network.

use vstd::prelude::*;

verus! {

/// What a request asks the remote workspace to do with a resource.
#[derive(Clone, Copy, Debug, PartialEq, Eq, Structural)]
pub enum HttpMethod {
    Get,
    Post,
    Patch,
    Delete,
}

/// A request to the remote workspace: what to do, and with which resource. The path
/// is relative to the address of the service.
#[derive(Debug, PartialEq)]
pub struct ApiRequest {
    pub method: HttpMethod,
    pub path: String,
}

/// Mathematical counterpart of [`ApiRequest`].
pub struct RequestModel {
    pub method: HttpMethod,
    pub path: Seq<char>,
}

impl View for ApiRequest {
    type V = RequestModel;

    open spec fn view(&self) -> RequestModel {
        RequestModel { method: self.method, path: self.path@ }
    }
}

/// The path of a collection of a workspace.
pub open spec fn guild_path(guild_id: Seq<char>, collection: Seq<char>) -> Seq<char> {
    "/guilds/"@ + guild_id + collection
}

/// The path of one item of a collection of a workspace.
pub open spec fn guild_item_path(
    guild_id: Seq<char>,
    collection: Seq<char>,
    id: Seq<char>,
) -> Seq<char> {
    "/guilds/"@ + guild_id + collection + "/"@ + id
}

/// Plans the requests to the remote workspace.
#[derive(Debug, PartialEq)]
pub struct DiscordApi {}

impl DiscordApi {
    fn collection(method: HttpMethod, guild_id: &str, collection: &str) -> (request: ApiRequest)
        ensures
            request@ == (RequestModel { method, path: guild_path(guild_id@, collection@) }),
    {
        ApiRequest { method, path: "/guilds/".to_owned().concat(guild_id).concat(collection) }
    }

    fn item(method: HttpMethod, guild_id: &str, collection: &str, id: &str) -> (request: ApiRequest)
        ensures
            request@ == (RequestModel {
                method,
                path: guild_item_path(guild_id@, collection@, id@),
            }),
    {
        ApiRequest {
            method,
            path: "/guilds/".to_owned().concat(guild_id).concat(collection).concat("/").concat(id),
        }
    }

    /// The request that lists the roles of a workspace.
    pub fn list_roles(&self, guild_id: &str) -> (request: ApiRequest)
        ensures
            request@ == (RequestModel {
                method: HttpMethod::Get,
                path: guild_path(guild_id@, "/roles"@),
            }),
    {
        Self::collection(HttpMethod::Get, guild_id, "/roles")
    }

    /// The request that adds a role to a workspace.
    pub fn add_role(&self, guild_id: &str) -> (request: ApiRequest)
        ensures
            request@ == (RequestModel {
                method: HttpMethod::Post,
                path: guild_path(guild_id@, "/roles"@),
            }),
    {
        Self::collection(HttpMethod::Post, guild_id, "/roles")
    }

    /// The request that replaces a role of a workspace.
    pub fn update_role(&self, guild_id: &str, role_id: &str) -> (request: ApiRequest)
        ensures
            request@ == (RequestModel {
                method: HttpMethod::Patch,
                path: guild_item_path(guild_id@, "/roles"@, role_id@),
            }),
    {
        Self::item(HttpMethod::Patch, guild_id, "/roles", role_id)
    }

    /// The request that deletes a role of a workspace.
    pub fn delete_role(&self, guild_id: &str, role_id: &str) -> (request: ApiRequest)
        ensures
            request@ == (RequestModel {
                method: HttpMethod::Delete,
                path: guild_item_path(guild_id@, "/roles"@, role_id@),
            }),
    {
        Self::item(HttpMethod::Delete, guild_id, "/roles", role_id)
    }

    /// The request that lists the workspaces that the caller is a member of.
    pub fn list_guilds(&self) -> (request: ApiRequest)
        ensures
            request@ == (RequestModel { method: HttpMethod::Get, path: "/users/@me/guilds"@ }),
    {
        ApiRequest { method: HttpMethod::Get, path: "/users/@me/guilds".to_owned() }
    }

    /// The request that lists the channels of a workspace, categories among them.
    pub fn list_channels(&self, guild_id: &str) -> (request: ApiRequest)
        ensures
            request@ == (RequestModel {
                method: HttpMethod::Get,
                path: guild_path(guild_id@, "/channels"@),
            }),
    {
        Self::collection(HttpMethod::Get, guild_id, "/channels")
    }

    /// The request that adds a channel or a category to a workspace.
    pub fn _add_channel(&self, guild_id: &str) -> (request: ApiRequest)
        ensures
            request@ == (RequestModel {
                method: HttpMethod::Post,
                path: guild_path(guild_id@, "/channels"@),
            }),
    {
        Self::collection(HttpMethod::Post, guild_id, "/channels")
    }

    /// The request that replaces a channel or a category of a workspace.
    pub fn _update_channel(&self, guild_id: &str, id: &str) -> (request: ApiRequest)
        ensures
            request@ == (RequestModel {
                method: HttpMethod::Patch,
                path: guild_item_path(guild_id@, "/channels"@, id@),
            }),
    {
        Self::item(HttpMethod::Patch, guild_id, "/channels", id)
    }

    /// The request that deletes a channel or a category of a workspace.
    pub fn _delete_channel(&self, guild_id: &str, id: &str) -> (request: ApiRequest)
        ensures
            request@ == (RequestModel {
                method: HttpMethod::Delete,
                path: guild_item_path(guild_id@, "/channels"@, id@),
            }),
    {
        Self::item(HttpMethod::Delete, guild_id, "/channels", id)
    }
}

} // verus!
