//! File Serving
//!
//! A file server answers every request in the request phase, by handing it
//! to a static-files handler. It never selects an upstream.

use crate::config::internal::{FileServerConfig, ListenerConfig};
use crate::proxy::ProxyError;
use vstd::prelude::*;

verus! {

/// The settings of the static-files handler.
#[derive(Debug, Clone, PartialEq, Eq)]
pub struct StaticFilesConf {
    /// The directory that files are served from.
    pub root: Option<String>,
    /// Whether the request path is normalised before a file is looked up.
    pub canonicalize_uri: bool,
    /// The files that stand for a directory.
    pub index_file: Vec<String>,
    /// The page that answers a request for a file that is not there.
    pub page_404: Option<String>,
    /// The compressions that files are kept in beside their plain form.
    pub precompressed: Vec<String>,
}

/// What the static-files handler reports of a request.
#[derive(Debug, Clone, Copy, PartialEq, Eq, Structural)]
pub enum RequestFilterResult {
    /// The handler has sent the response.
    ResponseSent,
    /// The handler has taken the request in, and has not answered it.
    Handled,
    /// The handler has left the request alone.
    Unhandled,
}

/// A small wrapper for delegating requests to a file server
pub struct FileServer {
    /// The name of the service.
    pub name: String,
    /// The listeners that the service is to be bound to.
    pub listeners: Vec<ListenerConfig>,
    /// The settings of the handler that serves the files.
    pub server: StaticFilesConf,
}

/// Create a new file serving service: it serves the files under the base
/// path, at their canonical paths, without index files, without a page for
/// missing files and without precompressed files.
pub fn river_file_server(conf: FileServerConfig) -> (r: FileServer)
    ensures
        r.name == conf.name,
        r.listeners == conf.listeners,
        r.server.root == conf.base_path,
        r.server.canonicalize_uri,
        r.server.index_file@.len() == 0,
        r.server.page_404.is_none(),
        r.server.precompressed@.len() == 0,
{
    let fsconf = StaticFilesConf {
        root: conf.base_path,
        canonicalize_uri: true,
        index_file: Vec::new(),
        page_404: None,
        precompressed: Vec::new(),
    };
    FileServer { name: conf.name, listeners: conf.listeners, server: fsconf }
}

impl FileServer {
    /// The request phase of a file server, given what the handler reports:
    /// the request is complete once the response is sent, and anything else
    /// is an error.
    pub fn request_filter(&self, handled: RequestFilterResult) -> (r: Result<bool, ProxyError>)
        ensures
            r == (match handled {
                RequestFilterResult::ResponseSent => Ok(true),
                _ => Err(ProxyError::RequestFailed),
            }),
    {
        match handled {
            RequestFilterResult::ResponseSent => Ok(true),
            _ => Err(ProxyError::RequestFailed),
        }
    }

    /// The upstream phase of a file server. This should never happen: the
    /// request is fully handled in the request phase.
    pub fn upstream_peer(&self) -> (r: Result<(), ProxyError>)
        ensures
            r == Err::<(), ProxyError>(ProxyError::RequestFailed),
    {
        Err(ProxyError::RequestFailed)
    }
}

} // verus!
