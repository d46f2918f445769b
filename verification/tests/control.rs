use renet2::control::{ConnectionControl, ConnectionPermission};

#[test]
fn everybody_is_permitted_but_the_denied() {
    let mut control = ConnectionControl::new(ConnectionPermission::All);
    assert!(control.is_client_permitted(&1));
    control.deny_client(&1);
    assert!(!control.is_client_permitted(&1));
    assert!(control.is_client_permitted(&2));
    control.allow_client(&1);
    assert!(control.is_client_permitted(&1));
    assert!(control.denied_clients().is_empty());
    assert_eq!(control.allowed_clients(), vec![1]);
}

#[test]
fn only_the_allowed_are_permitted() {
    let mut control = ConnectionControl::new(ConnectionPermission::OnlyAllowed);
    assert!(!control.is_client_permitted(&1));
    control.allow_client(&1);
    assert!(control.is_client_permitted(&1));
    assert!(!control.is_client_permitted(&2));
    control.deny_client(&1);
    assert!(!control.is_client_permitted(&1));
    assert!(control.allowed_clients().is_empty());
    assert_eq!(control.denied_clients(), vec![1]);
}

#[test]
fn nobody_is_permitted() {
    let mut control = ConnectionControl::new(ConnectionPermission::All);
    control.allow_client(&1);
    control.set_connection_permission(ConnectionPermission::Nobody);
    assert_eq!(*control.connection_permission(), ConnectionPermission::Nobody);
    assert!(!control.is_client_permitted(&1));
    assert!(!control.is_client_permitted(&2));
    control.set_connection_permission(ConnectionPermission::OnlyAllowed);
    assert!(control.is_client_permitted(&1));
}

#[test]
fn denied_clients_stay_out_under_every_rule() {
    for permission in [
        ConnectionPermission::All,
        ConnectionPermission::OnlyAllowed,
        ConnectionPermission::Nobody,
    ] {
        let mut control = ConnectionControl::new(permission);
        control.allow_client(&4);
        control.deny_client(&4);
        assert!(!control.is_client_permitted(&4));
    }
}
