//! A server described by its socket address and the directory it shares,
//! with one variant per mode.

use vstd::prelude::*;

use crate::socket::SocketAddress;

verus! {

/// What every file server tells about itself.
pub trait FileServer {
    /// The address the server listens on.
    fn socket(&self) -> SocketAddress;

    /// The directory the server shares.
    fn path(&self) -> String;
}

/// A server that takes uploads or one that offers downloads.
#[derive(Debug, Clone)]
pub enum Server {
    UploadServer(SocketAddress, String),
    DownloadServer(SocketAddress, String),
}

impl Server {
    /// The address held by either variant.
    pub open spec fn spec_socket(self) -> SocketAddress {
        match self {
            Server::UploadServer(socket, _) => socket,
            Server::DownloadServer(socket, _) => socket,
        }
    }

    /// The directory held by either variant.
    pub open spec fn spec_path(self) -> String {
        match self {
            Server::UploadServer(_, path) => path,
            Server::DownloadServer(_, path) => path,
        }
    }
}

/// Law: a server gives back the address and the directory it was built
/// with, in both variants.
pub proof fn lemma_basic_server_keeps_parts(socket: SocketAddress, path: String)
    ensures
        Server::UploadServer(socket, path).spec_socket() == socket,
        Server::DownloadServer(socket, path).spec_socket() == socket,
        Server::UploadServer(socket, path).spec_path() == path,
        Server::DownloadServer(socket, path).spec_path() == path,
{
}

impl FileServer for Server {
    /// A copy of the server's address.
    fn socket(&self) -> (r: SocketAddress)
        ensures
            r == self.spec_socket(),
    {
        match self {
            Server::UploadServer(socket, _) => *socket,
            Server::DownloadServer(socket, _) => *socket,
        }
    }

    /// A copy of the server's directory.
    fn path(&self) -> (r: String)
        ensures
            r == self.spec_path(),
    {
        match self {
            Server::UploadServer(_, path) => path.clone(),
            Server::DownloadServer(_, path) => path.clone(),
        }
    }
}

} // verus!
