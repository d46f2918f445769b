//! Which clients may connect.

use std::collections::HashSet;

use vstd::prelude::*;

use crate::collections::set_members;
use crate::ClientId;

verus! {

broadcast use vstd::std_specs::hash::group_hash_axioms;

/// The general rule for new connections.
#[derive(Debug, Clone, PartialEq, Eq, Structural)]
pub enum ConnectionPermission {
    /// All connections are allowed, except clients that are denied.
    All,
    /// Only clients in the allow list can connect.
    OnlyAllowed,
    /// No connection can be established.
    Nobody,
}

impl Default for ConnectionPermission {
    fn default() -> (r: Self)
        ensures
            r == ConnectionPermission::All,
    {
        ConnectionPermission::All
    }
}

/// What a [`ConnectionControl`] stands for.
#[verifier::ext_equal]
pub struct ControlView {
    pub allowed: Set<ClientId>,
    pub denied: Set<ClientId>,
    pub permission: ConnectionPermission,
}

impl ControlView {
    /// The allow list with one more client, who leaves the deny list.
    pub open spec fn allow(self, client_id: ClientId) -> ControlView {
        ControlView {
            allowed: self.allowed.insert(client_id),
            denied: self.denied.remove(client_id),
            permission: self.permission,
        }
    }

    /// The deny list with one more client, who leaves the allow list.
    pub open spec fn deny(self, client_id: ClientId) -> ControlView {
        ControlView {
            allowed: self.allowed.remove(client_id),
            denied: self.denied.insert(client_id),
            permission: self.permission,
        }
    }

    /// Whether a client may connect.
    pub open spec fn permits(self, client_id: ClientId) -> bool {
        &&& !self.denied.contains(client_id)
        &&& match self.permission {
            ConnectionPermission::All => true,
            ConnectionPermission::OnlyAllowed => self.allowed.contains(client_id),
            ConnectionPermission::Nobody => false,
        }
    }
}

/// The allow list, the deny list and the general rule.
pub struct ConnectionControl {
    allow_clients: HashSet<ClientId>,
    deny_clients: HashSet<ClientId>,
    connection_permission: ConnectionPermission,
}

impl View for ConnectionControl {
    type V = ControlView;

    closed spec fn view(&self) -> ControlView {
        ControlView {
            allowed: self.allow_clients@,
            denied: self.deny_clients@,
            permission: self.connection_permission,
        }
    }
}

impl ConnectionControl {
    /// Starts with both lists empty.
    pub fn new(connection_permission: ConnectionPermission) -> (r: Self)
        ensures
            r@ == (ControlView {
                allowed: Set::empty(),
                denied: Set::empty(),
                permission: connection_permission,
            }),
    {
        ConnectionControl {
            allow_clients: HashSet::new(),
            deny_clients: HashSet::new(),
            connection_permission,
        }
    }

    /// Puts a client on the allow list, and takes it off the deny list.
    pub fn allow_client(&mut self, client_id: &ClientId)
        ensures
            final(self)@ == old(self)@.allow(*client_id),
    {
        self.allow_clients.insert(*client_id);
        self.deny_clients.remove(client_id);
    }

    /// Puts a client on the deny list, and takes it off the allow list.
    pub fn deny_client(&mut self, client_id: &ClientId)
        ensures
            final(self)@ == old(self)@.deny(*client_id),
    {
        self.deny_clients.insert(*client_id);
        self.allow_clients.remove(client_id);
    }

    /// Changes the general rule; the lists stay.
    pub fn set_connection_permission(&mut self, connection_permission: ConnectionPermission)
        ensures
            final(self)@ == (ControlView { permission: connection_permission, ..old(self)@ }),
    {
        self.connection_permission = connection_permission;
    }

    /// The general rule.
    pub fn connection_permission(&self) -> (r: &ConnectionPermission)
        ensures
            *r == self@.permission,
    {
        &self.connection_permission
    }

    /// The clients on the allow list, in no particular order.
    pub fn allowed_clients(&self) -> (r: Vec<ClientId>)
        ensures
            r@.no_duplicates(),
            r@.to_set() == self@.allowed,
    {
        set_members(&self.allow_clients)
    }

    /// The clients on the deny list, in no particular order.
    pub fn denied_clients(&self) -> (r: Vec<ClientId>)
        ensures
            r@.no_duplicates(),
            r@.to_set() == self@.denied,
    {
        set_members(&self.deny_clients)
    }

    /// Whether a client may connect.
    pub fn is_client_permitted(&self, client_id: &ClientId) -> (r: bool)
        ensures
            r == self@.permits(*client_id),
    {
        if self.deny_clients.contains(client_id) {
            return false;
        }
        match self.connection_permission {
            ConnectionPermission::All => true,
            ConnectionPermission::OnlyAllowed => self.allow_clients.contains(client_id),
            ConnectionPermission::Nobody => false,
        }
    }
}

/// A client that was denied may not connect, whatever the general rule.
pub proof fn denied_clients_stay_out(
    control: ControlView,
    client_id: ClientId,
    permission: ConnectionPermission,
)
    ensures
        !(ControlView { permission, ..control.deny(client_id) }).permits(client_id),
{
}

/// A client that was allowed may connect, unless nobody may.
pub proof fn allowed_clients_may_connect(control: ControlView, client_id: ClientId)
    ensures
        control.allow(client_id).permits(client_id) <==> control.permission
            != ConnectionPermission::Nobody,
{
}

/// Allowing and denying undo each other, and neither concerns other clients.
pub proof fn the_last_word_counts(control: ControlView, client_id: ClientId, other: ClientId)
    ensures
        control.deny(client_id).allow(client_id) == control.allow(client_id),
        control.allow(client_id).deny(client_id) == control.deny(client_id),
        other != client_id ==> control.allow(client_id).permits(other) == control.permits(other)
            && control.deny(client_id).permits(other) == control.permits(other),
{
    assert(control.deny(client_id).allow(client_id) =~= control.allow(client_id));
    assert(control.allow(client_id).deny(client_id) =~= control.deny(client_id));
}

/// A client may connect unless it was denied or nobody may, if it was allowed or all may.
pub proof fn permission_follows_the_rule(
    control: ConnectionControl,
    client_id: ClientId,
    permitted: bool,
)
    requires
        call_ensures(ConnectionControl::is_client_permitted, (&control, &client_id), permitted),
    ensures
        control@.denied.contains(client_id) ==> !permitted,
        control@.permission is Nobody ==> !permitted,
        control@.permission is All ==> permitted == !control@.denied.contains(client_id),
        control@.permission is OnlyAllowed ==> permitted == (control@.allowed.contains(client_id)
            && !control@.denied.contains(client_id)),
{
}

/// Allowing a client puts it on the allow list and off the deny list. Nothing else changes.
pub proof fn allowing_moves_one_client(
    before: ConnectionControl,
    after: ConnectionControl,
    client_id: ClientId,
    other: ClientId,
)
    requires
        exists|control: &mut ConnectionControl|
            *control == before && *final(control) == after && #[trigger] call_ensures(
                ConnectionControl::allow_client,
                (control, &client_id),
                (),
            ),
        other != client_id,
    ensures
        after@.allowed.contains(client_id),
        !after@.denied.contains(client_id),
        after@.allowed.contains(other) == before@.allowed.contains(other),
        after@.denied.contains(other) == before@.denied.contains(other),
        after@.permission == before@.permission,
{
}

/// Denying a client puts it on the deny list and off the allow list. Nothing else changes.
pub proof fn denying_moves_one_client(
    before: ConnectionControl,
    after: ConnectionControl,
    client_id: ClientId,
    other: ClientId,
)
    requires
        exists|control: &mut ConnectionControl|
            *control == before && *final(control) == after && #[trigger] call_ensures(
                ConnectionControl::deny_client,
                (control, &client_id),
                (),
            ),
        other != client_id,
    ensures
        after@.denied.contains(client_id),
        !after@.allowed.contains(client_id),
        after@.allowed.contains(other) == before@.allowed.contains(other),
        after@.denied.contains(other) == before@.denied.contains(other),
        after@.permission == before@.permission,
{
}

} // verus!
