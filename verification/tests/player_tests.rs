use runboard::error::Error;
use runboard::player::{resolve, PlayerIdentity, PlayerRef};

fn user_ref(id: &str) -> PlayerRef {
    PlayerRef {
        rel: "user".to_string(),
        id: Some(id.to_string()),
        name: None,
        uri: format!("https://speedrun.com/api/v1/users/{}", id),
    }
}

fn guest_ref(name: &str) -> PlayerRef {
    PlayerRef {
        rel: "guest".to_string(),
        id: None,
        name: Some(name.to_string()),
        uri: String::new(),
    }
}

#[test]
fn resolve_user_reference() {
    let refs = vec![user_ref("0jm34we8")];
    assert_eq!(
        resolve(&refs),
        Ok(PlayerIdentity::RegisteredUser { id: "0jm34we8".to_string() })
    );
}

#[test]
fn resolve_guest_reference() {
    let refs = vec![guest_ref("ann")];
    assert_eq!(resolve(&refs), Ok(PlayerIdentity::GuestName { name: "ann".to_string() }));
}

#[test]
fn resolve_user_without_id_fails() {
    let refs = vec![PlayerRef {
        rel: "user".to_string(),
        id: None,
        name: Some("ann".to_string()),
        uri: String::new(),
    }];
    assert_eq!(resolve(&refs), Err(Error::MalformedPlayerReference));
}

#[test]
fn resolve_guest_without_name_fails() {
    let refs = vec![PlayerRef {
        rel: "guest".to_string(),
        id: Some("0jm34we8".to_string()),
        name: None,
        uri: String::new(),
    }];
    assert_eq!(resolve(&refs), Err(Error::MalformedPlayerReference));
}

#[test]
fn resolve_empty_list_fails() {
    let refs: Vec<PlayerRef> = Vec::new();
    assert_eq!(resolve(&refs), Err(Error::MalformedPlayerReference));
}

#[test]
fn resolve_takes_first_reference() {
    let refs = vec![guest_ref("first"), user_ref("second")];
    assert_eq!(resolve(&refs), Ok(PlayerIdentity::GuestName { name: "first".to_string() }));
}
