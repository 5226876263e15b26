use vstd::prelude::*;

verus! {

/// A point in time: seconds since the Unix epoch, together with the local
/// offset from UTC (in seconds) that was in effect when it was taken.
#[derive(Clone, Copy, PartialEq, Eq, Structural, Debug)]
pub struct Timestamp {
    pub unix_seconds: i64,
    pub offset_seconds: i32,
}

/// One registered service record, the sole entity this library manages.
pub struct Service {
    pub id: i32,
    pub token: String,
    pub user: i64,
    pub status: String,
    pub created_time: Timestamp,
    pub cache: String,
    pub username: String,
}

/// The mathematical content of a [`Service`]: plain integers and character
/// sequences, as contracts speak of them.
#[verifier::ext_equal]
pub struct ServiceView {
    pub id: int,
    pub token: Seq<char>,
    pub user: int,
    pub status: Seq<char>,
    pub created_time: Timestamp,
    pub cache: Seq<char>,
    pub username: Seq<char>,
}

impl View for Service {
    type V = ServiceView;

    open spec fn view(&self) -> ServiceView {
        ServiceView {
            id: self.id as int,
            token: self.token@,
            user: self.user as int,
            status: self.status@,
            created_time: self.created_time,
            cache: self.cache@,
            username: self.username@,
        }
    }
}

impl DeepView for Service {
    type V = ServiceView;

    open spec fn deep_view(&self) -> ServiceView {
        self.view()
    }
}

impl Service {
    /// An owned copy, equal to `self` in every field.
    pub fn duplicate(&self) -> (r: Service)
        ensures
            r@ == self@,
    {
        Service {
            id: self.id,
            token: self.token.clone(),
            user: self.user,
            status: self.status.clone(),
            created_time: self.created_time,
            cache: self.cache.clone(),
            username: self.username.clone(),
        }
    }
}

/// The caller-supplied fields of a creation request; the store itself
/// assigns `id` and `created_time`.
pub struct CreateServiceData {
    pub token: String,
    pub user: i64,
    pub status: String,
    pub cache: String,
    pub username: String,
}

/// The mathematical content of a [`CreateServiceData`].
#[verifier::ext_equal]
pub struct CreateView {
    pub token: Seq<char>,
    pub user: int,
    pub status: Seq<char>,
    pub cache: Seq<char>,
    pub username: Seq<char>,
}

impl View for CreateServiceData {
    type V = CreateView;

    open spec fn view(&self) -> CreateView {
        CreateView {
            token: self.token@,
            user: self.user as int,
            status: self.status@,
            cache: self.cache@,
            username: self.username@,
        }
    }
}

impl DeepView for CreateServiceData {
    type V = CreateView;

    open spec fn deep_view(&self) -> CreateView {
        self.view()
    }
}

} // verus!
