use process_inventory::error::ApiError;
use process_inventory::http_server::{
    check_not_running, relay_notify, relay_text, serv_info_reply, HttpCmd, HttpNotify, ServInfo,
};

fn server() -> ServInfo {
    ServInfo {
        name: "relay".to_string(),
        ip: "127.0.0.1".to_string(),
        port: 3000,
        path: "resources".to_string(),
    }
}

#[test]
fn default_server_is_blank() {
    assert_eq!(
        ServInfo::default(),
        ServInfo { name: String::new(), ip: String::new(), port: 0, path: String::new() }
    );
}

#[test]
fn with_path_changes_the_path_only() {
    assert_eq!(
        server().with_path("/opt/app/resources".to_string()),
        ServInfo {
            name: "relay".to_string(),
            ip: "127.0.0.1".to_string(),
            port: 3000,
            path: "/opt/app/resources".to_string(),
        }
    );
}

#[test]
fn bound_to_keeps_the_name_only() {
    assert_eq!(
        server().bound_to("0.0.0.0".to_string(), 41000, "/srv".to_string()),
        ServInfo {
            name: "relay".to_string(),
            ip: "0.0.0.0".to_string(),
            port: 41000,
            path: "/srv".to_string(),
        }
    );
    assert_eq!(server().clone(), server());
}

#[test]
fn second_server_is_refused() {
    assert_eq!(check_not_running(&None), Ok(()));
    assert_eq!(
        check_not_running(&Some(server())),
        Err(ApiError::Error("The server is already running.".to_string()))
    );
}

#[test]
fn server_on_record_is_reported() {
    assert_eq!(serv_info_reply(Some(server())), Ok(server()));
    assert_eq!(serv_info_reply(None), Err("No server info".to_string()));
}

#[test]
fn text_is_relayed_when_it_is_text_and_a_window_is_there() {
    assert_eq!(relay_text(Some("{\"a\":1}".to_string()), true), Ok("{\"a\":1}".to_string()));
    assert_eq!(relay_text(Some(String::new()), true), Ok(String::new()));
    assert_eq!(relay_text(Some("x".to_string()), false), Err("No window".to_string()));
    assert_eq!(relay_text(None, true), Err("Invalid UTF-8".to_string()));
    assert_eq!(relay_text(None, false), Err("Invalid UTF-8".to_string()));
}

#[test]
fn request_is_relayed_when_a_window_is_there() {
    let request = HttpNotify { cmd: HttpCmd::Refresh, param: Some("all".to_string()) };
    assert_eq!(relay_notify(request.clone(), true), Ok(request.clone()));
    assert_eq!(relay_notify(request, false), Err("No window".to_string()));
    let bare = HttpNotify { cmd: HttpCmd::Refresh, param: None };
    assert_eq!(relay_notify(bare.clone(), true), Ok(bare));
}
