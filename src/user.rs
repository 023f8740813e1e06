use vstd::prelude::*;

verus! {

/// One connected session of a user.
#[derive(Debug, Clone)]
pub struct RealtimeUser {
    pub uid: i64,
    pub device_id: String,
    pub connect_at: i64,
    pub session_id: String,
    pub app_version: String,
}

/// The identity of a session: two sessions are the same when every field is.
pub type UserView = (i64, Seq<char>, i64, Seq<char>, Seq<char>);

impl View for RealtimeUser {
    type V = UserView;

    open spec fn view(&self) -> UserView {
        (self.uid, self.device_id@, self.connect_at, self.session_id@, self.app_version@)
    }
}

impl RealtimeUser {
    pub fn new(uid: i64, device_id: String, connect_at: i64, session_id: String, app_version: String) -> (r: Self)
        ensures
            r@ == (uid, device_id@, connect_at, session_id@, app_version@),
    {
        RealtimeUser { uid, device_id, connect_at, session_id, app_version }
    }

    /// Whether both values denote the same session.
    pub fn same_as(&self, other: &RealtimeUser) -> (r: bool)
        ensures
            r == (self@ == other@),
    {
        self.uid == other.uid && self.device_id == other.device_id && self.connect_at
            == other.connect_at && self.session_id == other.session_id && self.app_version
            == other.app_version
    }

    pub fn duplicate(&self) -> (r: RealtimeUser)
        ensures
            r@ == self@,
    {
        RealtimeUser {
            uid: self.uid,
            device_id: self.device_id.clone(),
            connect_at: self.connect_at,
            session_id: self.session_id.clone(),
            app_version: self.app_version.clone(),
        }
    }
}

} // verus!
