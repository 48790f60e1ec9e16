use river::config::internal::{FileServerConfig, ListenerConfig, ListenerKind};
use river::files::{river_file_server, RequestFilterResult, StaticFilesConf};
use river::proxy::ProxyError;

#[test]
fn file_server_delegates_the_request_phase() {
    let listeners = vec![ListenerConfig {
        source: ListenerKind::Tcp { addr: "0.0.0.0:9000".to_string(), tls: None, offer_h2: false },
    }];
    let server = river_file_server(FileServerConfig {
        name: "Example3".to_string(),
        listeners: listeners.clone(),
        base_path: Some(".".to_string()),
    });
    assert_eq!(server.name, "Example3");
    assert_eq!(server.listeners, listeners);
    assert_eq!(
        server.server,
        StaticFilesConf {
            root: Some(".".to_string()),
            canonicalize_uri: true,
            index_file: vec![],
            page_404: None,
            precompressed: vec![],
        }
    );
    assert_eq!(server.request_filter(RequestFilterResult::ResponseSent), Ok(true));
    assert_eq!(
        server.request_filter(RequestFilterResult::Handled),
        Err(ProxyError::RequestFailed)
    );
    assert_eq!(
        server.request_filter(RequestFilterResult::Unhandled),
        Err(ProxyError::RequestFailed)
    );
    assert_eq!(server.upstream_peer(), Err(ProxyError::RequestFailed));
}
