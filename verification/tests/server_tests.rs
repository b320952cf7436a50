use file_share::basic;
use file_share::basic::FileServer as BasicFileServer;
use file_share::mode::Mode;
use file_share::server::{file_page, serve_page, FileServer, Server, PAGE_HEAD, PAGE_TAIL};
use file_share::socket::SocketAddress;

fn local_addr() -> SocketAddress {
    SocketAddress::V4 { ip: [0, 0, 0, 0], port: 1337 }
}

#[test]
fn server_from_mode_keeps_parts() {
    let addr = local_addr();
    let path = String::from(".");
    let server: Server = (&Mode::Upload, &addr, &path).into();
    assert!(matches!(server, Server::UploadServer { .. }));
    assert_eq!(*server.addr(), addr);
    assert_eq!(server.path(), ".");
    let server: Server = (&Mode::Download, &addr, &path).into();
    assert!(matches!(server, Server::DownloadServer { .. }));
    assert_eq!(server.addr().port(), 1337);
}

#[test]
fn server_without_mode_offers_downloads() {
    let addr = SocketAddress::V6 { ip: [0, 0, 0, 0, 0, 0, 0, 1], port: 8080, flowinfo: 0, scope_id: 0 };
    let path = String::from("/srv/files");
    let server: Server = (&addr, &path).into();
    assert!(matches!(server, Server::DownloadServer { .. }));
    assert_eq!(*server.addr(), addr);
    assert_eq!(server.path(), "/srv/files");
    assert!(server.addr().is_ipv6());
}

#[test]
fn basic_server_reports_socket_and_path() {
    let server = basic::Server::UploadServer(local_addr(), String::from("./data"));
    assert_eq!(server.socket(), local_addr());
    assert_eq!(server.path(), "./data");
    let server = basic::Server::DownloadServer(local_addr(), String::from("x"));
    assert_eq!(server.path(), "x");
    assert!(!server.socket().is_ipv6());
}

#[test]
fn page_names_the_final_component() {
    let page = serve_page("/tmp/shared/report.pdf").unwrap();
    assert_eq!(page, format!("{}report.pdf{}", PAGE_HEAD, PAGE_TAIL));
    assert!(page.contains("<td><a href=\"./file\">report.pdf</a></td>"));
    assert_eq!(serve_page("notes.txt").unwrap(), file_page("notes.txt"));
}

#[test]
fn page_for_path_without_file_name() {
    assert_eq!(serve_page("."), None);
    assert_eq!(serve_page("a/.."), None);
    assert_eq!(serve_page("/"), None);
}

#[test]
fn page_text_is_the_whole_document() {
    let page = file_page("f");
    assert!(page.starts_with("<!DOCTYPE html>\n<html lang=\"en\">"));
    assert!(page.ends_with("</body>\n</html>"));
}
