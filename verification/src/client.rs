//! The requests that a client of the collab API sends: for each
//! operation, the method, the address and the form of the body.  Sending
//! them is left to the caller.

use vstd::prelude::*;

verus! {

/// The method of a request.
#[derive(Debug, Clone, Copy, PartialEq, Eq, Structural)]
pub enum Method {
    Get,
    Post,
    Put,
    Delete,
}

/// The form in which the parameters of an operation travel.
#[derive(Debug, Clone, Copy, PartialEq, Eq, Structural)]
pub enum Body {
    /// No body.
    Empty,
    /// The parameters as JSON.
    Json,
    /// The parameters as bytes, compressed.
    Compressed,
}

/// A request, ready to be sent.
#[derive(Debug, PartialEq, Eq)]
pub struct Request {
    pub method: Method,
    pub url: String,
    pub body: Body,
    /// The seconds after which the request is given up, if it has a limit
    /// of its own.
    pub timeout_secs: Option<u64>,
}

/// A client of the collab API at `base_url`.
#[derive(Debug, PartialEq, Eq)]
pub struct Client {
    pub base_url: String,
}

/// The seconds that the creation of a collab may take.
pub const CREATE_COLLAB_TIMEOUT_SECS: u64 = 60;

/// The address of a collab.
pub open spec fn collab_url(base_url: Seq<char>, workspace_id: Seq<char>, object_id: Seq<char>) -> Seq<
    char,
> {
    base_url + "/api/workspace/"@ + workspace_id + "/collab/"@ + object_id
}

/// The address under which a collab takes an update from the web.
pub open spec fn web_update_url(
    base_url: Seq<char>,
    workspace_id: Seq<char>,
    object_id: Seq<char>,
) -> Seq<char> {
    base_url + "/api/workspace/v1/"@ + workspace_id + "/collab/"@ + object_id + "/web-update"@
}

/// The address of the list of a workspace's collabs.
pub open spec fn collab_list_url(base_url: Seq<char>, workspace_id: Seq<char>) -> Seq<char> {
    base_url + "/api/workspace/"@ + workspace_id + "/collab_list"@
}

/// The address of the list of a workspace's databases.
pub open spec fn database_list_url(base_url: Seq<char>, workspace_id: Seq<char>) -> Seq<char> {
    base_url + "/api/workspace/"@ + workspace_id + "/database"@
}

impl Client {
    /// The address of the collab `object_id` of the workspace
    /// `workspace_id`.
    fn collab_address(&self, workspace_id: &String, object_id: &String) -> (url: String)
        ensures
            url@ == collab_url(self.base_url@, workspace_id@, object_id@),
    {
        self.base_url.clone().concat("/api/workspace/").concat(workspace_id.as_str()).concat(
            "/collab/",
        ).concat(object_id.as_str())
    }

    /// The request that creates a collab: its parameters travel
    /// compressed, and it is given up after a minute.
    pub fn create_collab(&self, workspace_id: &String, object_id: &String) -> (r: Request)
        ensures
            r.method == Method::Post,
            r.url@ == collab_url(self.base_url@, workspace_id@, object_id@),
            r.body == Body::Compressed,
            r.timeout_secs == Some(CREATE_COLLAB_TIMEOUT_SECS),
    {
        Request {
            method: Method::Post,
            url: self.collab_address(workspace_id, object_id),
            body: Body::Compressed,
            timeout_secs: Some(CREATE_COLLAB_TIMEOUT_SECS),
        }
    }

    /// The request that updates a collab.
    pub fn update_collab(&self, workspace_id: &String, object_id: &String) -> (r: Request)
        ensures
            r.method == Method::Put,
            r.url@ == collab_url(self.base_url@, workspace_id@, object_id@),
            r.body == Body::Json,
            r.timeout_secs is None,
    {
        Request {
            method: Method::Put,
            url: self.collab_address(workspace_id, object_id),
            body: Body::Json,
            timeout_secs: None,
        }
    }

    /// The request that hands a collab an update from the web.
    pub fn update_web_collab(&self, workspace_id: &String, object_id: &String) -> (r: Request)
        ensures
            r.method == Method::Post,
            r.url@ == web_update_url(self.base_url@, workspace_id@, object_id@),
            r.body == Body::Json,
            r.timeout_secs is None,
    {
        let url = self.base_url.clone().concat("/api/workspace/v1/").concat(
            workspace_id.as_str(),
        ).concat("/collab/").concat(object_id.as_str()).concat("/web-update");
        Request { method: Method::Post, url, body: Body::Json, timeout_secs: None }
    }

    /// The request that asks for several collabs at once, by `POST`:
    /// a browser can send no body with `GET`.
    pub fn batch_post_collab(&self, workspace_id: &String) -> (r: Request)
        ensures
            r.method == Method::Post,
            r.url@ == collab_list_url(self.base_url@, workspace_id@),
            r.body == Body::Json,
            r.timeout_secs is None,
    {
        self.send_batch_collab_request(Method::Post, workspace_id)
    }

    /// The request that asks for several collabs at once, by `GET`.
    pub fn batch_get_collab(&self, workspace_id: &String) -> (r: Request)
        ensures
            r.method == Method::Get,
            r.url@ == collab_list_url(self.base_url@, workspace_id@),
            r.body == Body::Json,
            r.timeout_secs is None,
    {
        self.send_batch_collab_request(Method::Get, workspace_id)
    }

    /// The request that asks for several collabs at once, by `method`.
    pub fn send_batch_collab_request(&self, method: Method, workspace_id: &String) -> (r: Request)
        ensures
            r.method == method,
            r.url@ == collab_list_url(self.base_url@, workspace_id@),
            r.body == Body::Json,
            r.timeout_secs is None,
    {
        let url = self.base_url.clone().concat("/api/workspace/").concat(
            workspace_id.as_str(),
        ).concat("/collab_list");
        Request { method, url, body: Body::Json, timeout_secs: None }
    }

    /// The request that deletes a collab.
    pub fn delete_collab(&self, workspace_id: &String, object_id: &String) -> (r: Request)
        ensures
            r.method == Method::Delete,
            r.url@ == collab_url(self.base_url@, workspace_id@, object_id@),
            r.body == Body::Json,
            r.timeout_secs is None,
    {
        Request {
            method: Method::Delete,
            url: self.collab_address(workspace_id, object_id),
            body: Body::Json,
            timeout_secs: None,
        }
    }

    /// The request that lists the databases of a workspace.
    pub fn list_databases(&self, workspace_id: &String) -> (r: Request)
        ensures
            r.method == Method::Get,
            r.url@ == database_list_url(self.base_url@, workspace_id@),
            r.body == Body::Empty,
            r.timeout_secs is None,
    {
        let url = self.base_url.clone().concat("/api/workspace/").concat(
            workspace_id.as_str(),
        ).concat("/database");
        Request { method: Method::Get, url, body: Body::Empty, timeout_secs: None }
    }
}

} // verus!
