use vstd::prelude::*;

verus! {

/// One answer to the check-in question, as the answers endpoint lists it.
/// `kind` holds the record's `type` field.
#[derive(Clone, Debug)]
pub struct Answer {
    pub id: u64,
    pub status: String,
    pub visible_to_clients: bool,
    pub created_at: String,
    pub updated_at: String,
    pub title: String,
    pub inherits_status: bool,
    pub kind: String,
    pub url: String,
    pub app_url: String,
    pub bookmark_url: String,
    pub subscription_url: String,
    pub comments_count: u64,
    pub comments_url: String,
    pub parent: Parent,
    pub bucket: Bucket,
    pub creator: Creator,
    pub content: String,
    pub group_on: String,
}

/// The question an answer belongs to.
#[derive(Clone, Debug)]
pub struct Parent {
    pub id: u64,
    pub title: String,
    pub kind: String,
    pub url: String,
    pub app_url: String,
}

/// The project an answer belongs to.
#[derive(Clone, Debug)]
pub struct Bucket {
    pub id: u64,
    pub name: String,
    pub kind: String,
}

/// The person who gave an answer.
#[derive(Clone, Debug)]
pub struct Creator {
    pub id: u64,
    pub attachable_sgid: String,
    pub name: String,
    pub email_address: String,
    pub personable_type: String,
    pub title: Option<String>,
    pub bio: Option<String>,
    pub created_at: String,
    pub updated_at: String,
    pub admin: bool,
    pub owner: bool,
    pub client: bool,
    pub time_zone: String,
    pub avatar_url: String,
    pub company: Company,
}

/// The company of the person who gave an answer.
#[derive(Clone, Debug)]
pub struct Company {
    pub id: u64,
    pub name: String,
}

/// What the authorization endpoint tells about the signed-in user.
#[derive(Debug)]
pub struct AuthEndpoint {
    pub expires_at: String,
    pub identity: Identity,
    pub accounts: Vec<Account>,
}

/// The signed-in user.
#[derive(Debug)]
pub struct Identity {
    pub id: u64,
    pub first_name: String,
    pub last_name: String,
    pub email_address: String,
}

/// An account the signed-in user may reach; `href` is the base address of
/// its API.
#[derive(Debug)]
pub struct Account {
    pub product: String,
    pub id: u64,
    pub name: String,
    pub href: String,
    pub app_href: String,
}

} // verus!
