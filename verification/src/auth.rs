use vstd::prelude::*;
use crate::strmap::StrMap;
use std::collections::BTreeMap;

verus! {

/// One user record of the credential file.
pub struct UserEntry {
    pub username: String,
    pub password: String,
}

/// The credential file once decoded: a list of user records.
pub struct UserToml {
    pub users: Vec<UserEntry>,
}

/// The credential table that a record list denotes: a later record for the
/// same user name overrides an earlier one.
pub open spec fn creds_of(entries: Seq<UserEntry>) -> Map<Seq<char>, String>
    decreases entries.len(),
{
    if entries.len() == 0 {
        Map::empty()
    } else {
        creds_of(entries.drop_last()).insert(entries.last().username@, entries.last().password)
    }
}

/// Whether the table verifies the given user name and password.
pub open spec fn user_verified(m: Map<Seq<char>, String>, username: Seq<char>, password: Seq<char>) -> bool {
    m.contains_key(username) && m[username]@ == password
}

/// The user directory: user name to password, each name held once.
pub struct UserDB {
    users: StrMap<String>,
}

impl View for UserDB {
    type V = Map<Seq<char>, String>;

    closed spec fn view(&self) -> Map<Seq<char>, String> {
        self.users@
    }
}

impl UserDB {
    pub closed spec fn inv(&self) -> bool {
        self.users.inv()
    }

    /// Builds the directory from a decoded credential file.
    pub fn from_toml(doc: &UserToml) -> (db: UserDB)
        ensures
            db.inv(),
            db@ == creds_of(doc.users@),
    {
        let mut users: StrMap<String> = StrMap::new();
        let mut i: usize = 0;
        while i < doc.users.len()
            invariant
                i <= doc.users@.len(),
                users.inv(),
                users@ == creds_of(doc.users@.take(i as int)),
            decreases doc.users@.len() - i,
        {
            let e = &doc.users[i];
            users.insert(e.username.clone(), e.password.clone());
            proof {
                let t = doc.users@.take(i + 1 as int);
                assert(t.drop_last() =~= doc.users@.take(i as int));
                assert(t.last() == doc.users@[i as int]);
            }
            i = i + 1;
        }
        proof {
            assert(doc.users@.take(doc.users@.len() as int) =~= doc.users@);
        }
        UserDB { users }
    }

    /// Whether the directory holds this user name with exactly this password.
    pub fn verify(&self, username: &str, password: &str) -> (r: bool)
        requires
            self.inv(),
        ensures
            r == user_verified(self@, username@, password@),
    {
        match self.users.get(&username.to_owned()) {
            Some(p) => *p == password.to_owned(),
            None => false,
        }
    }
}

/// Whether the directory verifies the pair; the one credential check every
/// entry path uses.
pub fn verify_user(db: &UserDB, username: &str, password: &str) -> (r: bool)
    requires
        db.inv(),
    ensures
        r == user_verified(db@, username@, password@),
{
    db.verify(username, password)
}

/// The claim set a token carries: the subject and its expiry.
pub struct Claims {
    pub sub: String,
    pub exp: usize,
}

/// The token that signing a subject and expiry with a secret produces. The
/// signature is an HMAC, so the token is a function of these inputs alone.
pub uninterp spec fn jwt_of(sub: Seq<char>, exp: usize, secret: Seq<char>) -> Seq<char>;

/// Relies on jsonwebtoken::encode with the default header (HS256): signing a
/// two-field claim set with an HMAC secret never fails, and the token depends
/// only on the claims and the secret.
#[verifier::external_body]
pub fn create_jwt(user_id: &str, exp: usize, secret: &str) -> (token: String)
    ensures
        token@ == jwt_of(user_id@, exp, secret@),
{
    let mut claims: BTreeMap<&str, serde_json::Value> = BTreeMap::new();
    claims.insert("sub", serde_json::Value::from(user_id));
    claims.insert("exp", serde_json::Value::from(exp as u64));
    jsonwebtoken::encode(
        &jsonwebtoken::Header::default(),
        &claims,
        &jsonwebtoken::EncodingKey::from_secret(secret.as_ref()),
    ).unwrap()
}

} // verus!
