//! A server described by its mode, its socket address and the path it
//! offers, and the page it answers a first visitor with.

use vstd::prelude::*;

use crate::mode::Mode;
use crate::socket::SocketAddress;

verus! {

/// What every file server tells about itself.
pub trait FileServer {
    /// The address the server listens on.
    fn addr(&self) -> &SocketAddress;

    /// The path the server offers.
    fn path(&self) -> &String;
}

/// A server that takes uploads or one that offers downloads.
#[derive(Debug, Clone)]
pub enum Server {
    UploadServer { addr: SocketAddress, path: String },
    DownloadServer { addr: SocketAddress, path: String },
}

impl Server {
    /// The address held by either variant.
    pub open spec fn spec_addr(self) -> SocketAddress {
        match self {
            Server::UploadServer { addr, .. } => addr,
            Server::DownloadServer { addr, .. } => addr,
        }
    }

    /// The path held by either variant.
    pub open spec fn spec_path(self) -> String {
        match self {
            Server::UploadServer { path, .. } => path,
            Server::DownloadServer { path, .. } => path,
        }
    }

    /// The mode that the variant stands for.
    pub open spec fn spec_mode(self) -> Mode {
        match self {
            Server::UploadServer { .. } => Mode::Upload,
            Server::DownloadServer { .. } => Mode::Download,
        }
    }

    /// The server of mode `mode` on `addr` offering `path`.
    pub open spec fn spec_new(mode: Mode, addr: SocketAddress, path: String) -> Server {
        match mode {
            Mode::Download => Server::DownloadServer { addr, path },
            Mode::Upload => Server::UploadServer { addr, path },
        }
    }
}

impl FileServer for Server {
    /// The server's address.
    fn addr(&self) -> (r: &SocketAddress)
        ensures
            *r == self.spec_addr(),
    {
        match self {
            Server::UploadServer { addr, path: _path } => addr,
            Server::DownloadServer { addr, path: _path } => addr,
        }
    }

    /// The server's path.
    fn path(&self) -> (r: &String)
        ensures
            *r == self.spec_path(),
    {
        match self {
            Server::UploadServer { addr: _addr, path } => path,
            Server::DownloadServer { addr: _addr, path } => path,
        }
    }
}

impl From<(&Mode, &SocketAddress, &String)> for Server {
    /// The server of the given mode, on a copy of the address, offering a
    /// copy of the path.
    fn from(value: (&Mode, &SocketAddress, &String)) -> (r: Self) {
        match value.0 {
            Mode::Download => Server::DownloadServer { addr: *value.1, path: value.2.clone() },
            Mode::Upload => Server::UploadServer { addr: *value.1, path: value.2.clone() },
        }
    }
}

impl vstd::std_specs::convert::FromSpecImpl<(&Mode, &SocketAddress, &String)> for Server {
    open spec fn obeys_from_spec() -> bool {
        true
    }

    open spec fn from_spec(v: (&Mode, &SocketAddress, &String)) -> Server {
        Server::spec_new(*v.0, *v.1, *v.2)
    }
}

impl From<(&SocketAddress, &String)> for Server {
    /// Without a mode, a server offers downloads.
    fn from(value: (&SocketAddress, &String)) -> (r: Self) {
        Server::from((&Mode::Download, value.0, value.1))
    }
}

impl vstd::std_specs::convert::FromSpecImpl<(&SocketAddress, &String)> for Server {
    open spec fn obeys_from_spec() -> bool {
        true
    }

    open spec fn from_spec(v: (&SocketAddress, &String)) -> Server {
        Server::spec_new(Mode::Download, *v.0, *v.1)
    }
}

/// Law: a server built from a mode, an address and a path is of that mode
/// and gives back that address and that path.
pub proof fn lemma_server_keeps_parts(mode: Mode, addr: SocketAddress, path: String)
    ensures
        Server::spec_new(mode, addr, path).spec_mode() == mode,
        Server::spec_new(mode, addr, path).spec_addr() == addr,
        Server::spec_new(mode, addr, path).spec_path() == path,
{
}

/// Law: each variant gives back the address and the path it holds, and
/// stands for its own mode.
pub proof fn lemma_server_variants_keep_parts(addr: SocketAddress, path: String)
    ensures
        (Server::UploadServer { addr, path }).spec_addr() == addr,
        (Server::DownloadServer { addr, path }).spec_addr() == addr,
        (Server::UploadServer { addr, path }).spec_path() == path,
        (Server::DownloadServer { addr, path }).spec_path() == path,
        (Server::UploadServer { addr, path }).spec_mode() == Mode::Upload,
        (Server::DownloadServer { addr, path }).spec_mode() == Mode::Download,
{
}

/// Law: a server built from an address and a path alone is the download
/// server on that address and path.
pub proof fn lemma_default_mode_is_download(addr: SocketAddress, path: String)
    ensures
        <Server as vstd::std_specs::convert::FromSpec<(&SocketAddress, &String)>>::from_spec(
            (&addr, &path),
        ) == <Server as vstd::std_specs::convert::FromSpec<
            (&Mode, &SocketAddress, &String),
        >>::from_spec((&Mode::Download, &addr, &path)),
{
}

/// What `Path::file_name` gives for the path `path`, taken as text: the
/// final component of the path, or `None` when the path ends in `..` or has
/// no normal final component (as with `/` or `.`). Paths are split with the
/// separators of the platform the library is built for.
pub uninterp spec fn spec_file_name(path: Seq<char>) -> Option<Seq<char>>;

/// Calls `std::path::Path::file_name` on `path`. Claimed: the result is
/// `spec_file_name` of the argument; how a path splits into components is
/// not restated. The name of a path given as text is text too.
#[verifier::external_body]
fn file_name(path: &str) -> (r: Option<String>)
    ensures
        match r {
            Some(n) => spec_file_name(path@) == Some(n@),
            None => spec_file_name(path@) is None,
        },
{
    match std::path::Path::new(path).file_name() {
        Some(n) => match n.to_str() {
            Some(t) => Some(t.to_string()),
            None => None,
        },
        None => None,
    }
}

/// The page text before the offered file's name.
pub const PAGE_HEAD: &'static str = "<!DOCTYPE html>
<html lang=\"en\">
<head>
    <meta charset=\"UTF-8\">
    <title>upload</title>
</head>
<body>

    <table>
<tr>
<td><a href=\"./file\">";

/// The page text after the offered file's name.
pub const PAGE_TAIL: &'static str = "</a></td>
</tr>
</table>

</body>
</html>";

/// The page that offers the file named `name`.
pub fn file_page(name: &str) -> (r: String)
    ensures
        r@ == PAGE_HEAD@ + name@ + PAGE_TAIL@,
{
    crate::text::concat3(PAGE_HEAD, name, PAGE_TAIL)
}

/// The page a server offering `path` answers with: the page for the final
/// component of the path, or `None` when the path has no file name.
pub fn serve_page(path: &str) -> (r: Option<String>)
    ensures
        match spec_file_name(path@) {
            Some(n) => r matches Some(p) && p@ == PAGE_HEAD@ + n + PAGE_TAIL@,
            None => r is None,
        },
{
    match file_name(path) {
        Some(n) => Some(file_page(n.as_str())),
        None => None,
    }
}

} // verus!
