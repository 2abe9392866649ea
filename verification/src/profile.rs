//! VPN connection profiles and the store that holds them.

use vstd::prelude::*;
use crate::paths::{app_dir_in, data_dir, join_path, path_join, APP_DIR_NAME};
use crate::text::{str_eq, all_space, is_blank};

verus! {

/// A lower-case hexadecimal digit or nothing else.
pub open spec fn is_lower_hex(c: char) -> bool {
    ('0' <= c && c <= '9') || ('a' <= c && c <= 'f')
}

/// The shape of a hyphenated UUID string: 36 characters, hyphens at 8, 13,
/// 18 and 23, lower-case hexadecimal digits elsewhere.
pub open spec fn is_hyphenated_uuid(s: Seq<char>) -> bool {
    &&& s.len() == 36
    &&& forall|i: int|
        0 <= i < 36 ==> (if i == 8 || i == 13 || i == 18 || i == 23 {
            #[trigger] s[i] == '-'
        } else {
            is_lower_hex(s[i])
        })
}

/// `uuid::Uuid::new_v4().to_string()`: a random version-4 UUID in its
/// hyphenated lower-case form. The value is random; only its shape, which
/// `Uuid`'s `Display` (lower-hex, hyphenated) fixes, is stated.
#[verifier::external_body]
pub(crate) fn new_v4_string() -> (s: String)
    ensures
        is_hyphenated_uuid(s@),
{
    uuid::Uuid::new_v4().to_string()
}

/// A VPN profile: where to connect, who signs in, and with which browser.
pub struct Profile {
    pub id: String,
    pub name: String,
    pub vpn_host: String,
    pub vpn_port: String,
    pub email: String,
    pub cert_digest: String,
    pub use_chrome: bool,
}

/// The SAML sign-in URL of a host and port.
pub open spec fn saml_url_of(host: Seq<char>, port: Seq<char>) -> Seq<char> {
    "https://"@ + host + ":"@ + port + "/remote/saml/start?realm="@
}

impl Profile {
    /// A profile with a fresh random id, every text field empty, and the
    /// built-in browser chosen for sign-in.
    pub fn new_empty() -> (p: Self)
        ensures
            is_hyphenated_uuid(p.id@),
            p.name@.len() == 0,
            p.vpn_host@.len() == 0,
            p.vpn_port@.len() == 0,
            p.email@.len() == 0,
            p.cert_digest@.len() == 0,
            !p.use_chrome,
    {
        Profile {
            id: new_v4_string(),
            name: String::new(),
            vpn_host: String::new(),
            vpn_port: String::new(),
            email: String::new(),
            cert_digest: String::new(),
            use_chrome: false,
        }
    }

    /// `https://{vpn_host}:{vpn_port}/remote/saml/start?realm=`
    pub fn saml_url(&self) -> (url: String)
        ensures
            url@ == saml_url_of(self.vpn_host@, self.vpn_port@),
    {
        let mut url = String::new();
        url.append("https://");
        url.append(self.vpn_host.as_str());
        url.append(":");
        url.append(self.vpn_port.as_str());
        url.append("/remote/saml/start?realm=");
        url
    }

    /// A field-for-field copy.
    pub fn duplicate(&self) -> (p: Self)
        ensures
            p == *self,
    {
        Profile {
            id: self.id.clone(),
            name: self.name.clone(),
            vpn_host: self.vpn_host.clone(),
            vpn_port: self.vpn_port.clone(),
            email: self.email.clone(),
            cert_digest: self.cert_digest.clone(),
            use_chrome: self.use_chrome,
        }
    }
}

/// `i` is the first position in `s` of a profile whose id is `id`.
pub open spec fn is_first_with_id(s: Seq<Profile>, id: Seq<char>, i: int) -> bool {
    &&& 0 <= i < s.len()
    &&& s[i].id@ == id
    &&& forall|j: int| 0 <= j < i ==> #[trigger] s[j].id@ != id
}

/// Some profile in `s` has id `id`.
pub open spec fn has_id(s: Seq<Profile>, id: Seq<char>) -> bool {
    exists|i: int| 0 <= i < s.len() && #[trigger] s[i].id@ == id
}

/// `s` without the profiles whose id is `id`, the others in their order.
pub open spec fn without_id(s: Seq<Profile>, id: Seq<char>) -> Seq<Profile>
    decreases s.len(),
{
    if s.len() == 0 {
        seq![]
    } else if s.last().id@ == id {
        without_id(s.drop_last(), id)
    } else {
        without_id(s.drop_last(), id).push(s.last())
    }
}

/// A profile's id is not `id`.
pub open spec fn id_differs(id: Seq<char>) -> spec_fn(Profile) -> bool {
    |p: Profile| p.id@ != id
}

/// Deleting keeps exactly the profiles with another id, in the order they
/// had: the result is the store filtered by "the id differs".
pub proof fn lemma_delete_keeps_order(s: Seq<Profile>, id: Seq<char>)
    ensures
        without_id(s, id) == s.filter(id_differs(id)),
    decreases s.len(),
{
    reveal(Seq::filter);
    if s.len() > 0 {
        lemma_delete_keeps_order(s.drop_last(), id);
    }
}

/// The error that `ProfileStore::update` gives for an unknown id.
pub open spec fn not_found_message(id: Seq<char>) -> Seq<char> {
    "Profile with id "@ + id + " not found"@
}

/// The saved profiles, in the order they were added.
pub struct ProfileStore {
    pub profiles: Vec<Profile>,
}

impl ProfileStore {
    /// An empty store.
    pub fn new() -> (s: Self)
        ensures
            s.profiles@.len() == 0,
    {
        ProfileStore { profiles: Vec::new() }
    }

    /// The position of the first profile whose id is `id`.
    pub fn position(&self, id: &str) -> (r: Option<usize>)
        ensures
            r matches Some(i) ==> is_first_with_id(self.profiles@, id@, i as int),
            r is None <==> !has_id(self.profiles@, id@),
    {
        let mut i: usize = 0;
        while i < self.profiles.len()
            invariant
                i <= self.profiles@.len(),
                forall|j: int| 0 <= j < i ==> #[trigger] self.profiles@[j].id@ != id@,
            decreases self.profiles.len() - i,
        {
            if str_eq(self.profiles[i].id.as_str(), id) {
                return Some(i);
            }
            i = i + 1;
        }
        None
    }

    /// Appends `profile`.
    pub fn add(&mut self, profile: Profile)
        ensures
            final(self).profiles@ == old(self).profiles@.push(profile),
    {
        self.profiles.push(profile);
    }

    /// Replaces the first profile with the same id as `profile`; an error
    /// when there is none, and then the store is unchanged.
    pub fn update(&mut self, profile: Profile) -> (r: Result<(), String>)
        ensures
            r is Ok <==> has_id(old(self).profiles@, profile.id@),
            r is Ok ==> exists|i: int|
                is_first_with_id(old(self).profiles@, profile.id@, i) && final(self).profiles@
                    == old(self).profiles@.update(i, profile),
            r matches Err(e) ==> e@ == not_found_message(profile.id@) && final(self).profiles@
                == old(self).profiles@,
    {
        match self.position(profile.id.as_str()) {
            Some(i) => {
                self.profiles.set(i, profile);
                Ok(())
            },
            None => {
                let mut e = String::new();
                e.append("Profile with id ");
                e.append(profile.id.as_str());
                e.append(" not found");
                Err(e)
            },
        }
    }

    /// Removes every profile whose id is `id`, keeping the others in order.
    pub fn delete(&mut self, id: &str)
        ensures
            final(self).profiles@ == without_id(old(self).profiles@, id@),
            final(self).profiles@ == old(self).profiles@.filter(id_differs(id@)),
    {
        proof {
            lemma_delete_keeps_order(self.profiles@, id@);
        }
        let mut kept: Vec<Profile> = Vec::new();
        let mut i: usize = 0;
        while i < self.profiles.len()
            invariant
                i <= self.profiles@.len(),
                self.profiles@ == old(self).profiles@,
                kept@ == without_id(self.profiles@.take(i as int), id@),
            decreases self.profiles.len() - i,
        {
            assert(self.profiles@.take(i + 1).drop_last() =~= self.profiles@.take(i as int));
            if !str_eq(self.profiles[i].id.as_str(), id) {
                kept.push(self.profiles[i].duplicate());
            }
            i = i + 1;
        }
        assert(self.profiles@.take(self.profiles@.len() as int) =~= self.profiles@);
        self.profiles = kept;
    }

    /// The first profile whose id is `id`, if any.
    pub fn find(&self, id: &str) -> (r: Option<&Profile>)
        ensures
            r is Some <==> has_id(self.profiles@, id@),
            r matches Some(p) ==> exists|i: int|
                is_first_with_id(self.profiles@, id@, i) && *p == self.profiles@[i],
    {
        match self.position(id) {
            Some(i) => Some(&self.profiles[i]),
            None => None,
        }
    }
}

/// The profile form: the profile itself and the secrets typed beside it.
pub struct EditForm {
    pub profile: Profile,
    pub password: String,
    pub totp_secret: String,
    pub is_new: bool,
}

/// A profile lacks one of the fields the form requires: name, host, port
/// and email must each hold more than whitespace.
pub open spec fn lacks_required_field(p: Profile) -> bool {
    all_space(p.name@) || all_space(p.vpn_host@) || all_space(p.vpn_port@) || all_space(
        p.email@,
    )
}

impl EditForm {
    /// The form for a new profile: an empty profile, empty secrets.
    pub fn new_profile() -> (f: Self)
        ensures
            f.is_new,
            is_hyphenated_uuid(f.profile.id@),
            !f.profile.use_chrome,
            f.profile.name@.len() == 0 && f.profile.vpn_host@.len() == 0
                && f.profile.vpn_port@.len() == 0 && f.profile.email@.len() == 0
                && f.profile.cert_digest@.len() == 0,
            f.password@.len() == 0,
            f.totp_secret@.len() == 0,
    {
        EditForm {
            profile: Profile::new_empty(),
            password: String::new(),
            totp_secret: String::new(),
            is_new: true,
        }
    }

    /// The form for editing a saved profile with its stored secrets.
    pub fn from_existing(profile: Profile, password: String, totp_secret: String) -> (f: Self)
        ensures
            f.profile == profile,
            f.password == password,
            f.totp_secret == totp_secret,
            !f.is_new,
    {
        EditForm { profile, password, totp_secret, is_new: false }
    }

    /// Whether saving must be refused because a required field is blank.
    pub fn lacks_required_field(&self) -> (r: bool)
        ensures
            r == lacks_required_field(self.profile),
    {
        is_blank(self.profile.name.as_str()) || is_blank(self.profile.vpn_host.as_str())
            || is_blank(self.profile.vpn_port.as_str()) || is_blank(self.profile.email.as_str())
    }
}


/// Among the profiles with one id, only one comes first: `find` names a
/// single profile.
pub proof fn lemma_first_with_id_unique(s: Seq<Profile>, id: Seq<char>, i: int, j: int)
    requires
        is_first_with_id(s, id, i),
        is_first_with_id(s, id, j),
    ensures
        i == j,
{
    if i < j {
        assert(s[i].id@ != id);
    } else if j < i {
        assert(s[j].id@ != id);
    }
}

/// A profile added under an id that no saved profile has is the one found
/// for that id afterwards.
pub proof fn lemma_add_then_find(s: Seq<Profile>, p: Profile)
    requires
        !has_id(s, p.id@),
    ensures
        has_id(s.push(p), p.id@),
        is_first_with_id(s.push(p), p.id@, s.len() as int),
        s.push(p)[s.len() as int] == p,
{
    assert(s.push(p)[s.len() as int].id@ == p.id@);
    assert forall|j: int| 0 <= j < s.len() implies #[trigger] s.push(p)[j].id@ != p.id@ by {
        assert(s.push(p)[j] == s[j]);
    }
}

/// Adding a profile leaves what is found for every other id as it was.
pub proof fn lemma_add_keeps_other_ids(s: Seq<Profile>, p: Profile, id: Seq<char>, i: int)
    requires
        id != p.id@,
    ensures
        is_first_with_id(s.push(p), id, i) <==> is_first_with_id(s, id, i),
        has_id(s.push(p), id) <==> has_id(s, id),
{
    if has_id(s.push(p), id) {
        let k = choose|k: int| 0 <= k < s.push(p).len() && #[trigger] s.push(p)[k].id@ == id;
        assert(k < s.len());
        assert(s[k].id@ == id);
    }
    if has_id(s, id) {
        let k = choose|k: int| 0 <= k < s.len() && #[trigger] s[k].id@ == id;
        assert(s.push(p)[k].id@ == id);
    }
    if is_first_with_id(s, id, i) {
        assert forall|j: int| 0 <= j < i implies #[trigger] s.push(p)[j].id@ != id by {
            assert(s[j].id@ != id);
        }
    }
    if is_first_with_id(s.push(p), id, i) {
        assert(i < s.len());
        assert forall|j: int| 0 <= j < i implies #[trigger] s[j].id@ != id by {
            assert(s.push(p)[j].id@ != id);
        }
    }
}

/// After an update, the profile found for its id is the new one, at the
/// same position, and no position changes id.
pub proof fn lemma_update_then_find(s: Seq<Profile>, p: Profile, i: int)
    requires
        is_first_with_id(s, p.id@, i),
    ensures
        is_first_with_id(s.update(i, p), p.id@, i),
        s.update(i, p)[i] == p,
        s.update(i, p).len() == s.len(),
        forall|j: int| 0 <= j < s.len() ==> #[trigger] s.update(i, p)[j].id@ == s[j].id@,
{
    assert forall|j: int| 0 <= j < i implies #[trigger] s.update(i, p)[j].id@ != p.id@ by {
        assert(s[j].id@ != p.id@);
    }
}

/// After a delete, no profile has the deleted id.
pub proof fn lemma_delete_removes_id(s: Seq<Profile>, id: Seq<char>)
    ensures
        !has_id(without_id(s, id), id),
    decreases s.len(),
{
    if s.len() > 0 {
        lemma_delete_removes_id(s.drop_last(), id);
        let r = without_id(s, id);
        let r0 = without_id(s.drop_last(), id);
        if s.last().id@ != id {
            assert forall|k: int| 0 <= k < r.len() implies #[trigger] r[k].id@ != id by {
                if k < r0.len() {
                    assert(r[k] == r0[k]);
                }
            }
        }
    }
}

/// A delete keeps every profile with another id, and keeps no other.
pub proof fn lemma_delete_keeps_others(s: Seq<Profile>, id: Seq<char>, q: Profile)
    ensures
        without_id(s, id).contains(q) <==> (s.contains(q) && q.id@ != id),
    decreases s.len(),
{
    if s.len() > 0 {
        lemma_delete_keeps_others(s.drop_last(), id, q);
        let r0 = without_id(s.drop_last(), id);
        let d = s.drop_last();
        assert(s =~= d.push(s.last()));
        if s.contains(q) && q.id@ != id {
            let k = choose|k: int| 0 <= k < s.len() && s[k] == q;
            if k < d.len() {
                assert(d[k] == q);
            }
        }
        if s.last().id@ != id {
            assert(without_id(s, id) == r0.push(s.last()));
            if without_id(s, id).contains(q) {
                let k = choose|k: int| 0 <= k < r0.len() + 1 && r0.push(s.last())[k] == q;
                if k < r0.len() {
                    assert(r0[k] == q);
                }
            }
            if r0.contains(q) {
                let k = choose|k: int| 0 <= k < r0.len() && r0[k] == q;
                assert(r0.push(s.last())[k] == q);
            }
            assert(r0.push(s.last())[r0.len() as int] == s.last());
        }
        if d.contains(q) {
            let k = choose|k: int| 0 <= k < d.len() && d[k] == q;
            assert(s[k] == q);
        }
    }
}

pub const PROFILES_FILE_NAME: &'static str = "profiles.json";
pub const NO_DATA_DIR_MESSAGE: &'static str = "Could not determine the Application Support directory";

/// The profiles file inside a data directory.
pub open spec fn profiles_file_of(data_dir: Seq<char>) -> Seq<char> {
    path_join(app_dir_in(data_dir), PROFILES_FILE_NAME@)
}

/// The profiles file inside the given data directory.
pub fn profiles_file_in(data_dir: &str) -> (p: String)
    ensures
        p@ == profiles_file_of(data_dir@),
{
    let dir = join_path(data_dir, APP_DIR_NAME);
    join_path(dir.as_str(), PROFILES_FILE_NAME)
}

/// Where the profiles are saved: in the application's directory under the
/// user's data directory; an error when the platform names none.
pub fn profiles_file_path() -> (r: Result<String, String>)
    ensures
        r matches Ok(f) ==> exists|d: Seq<char>| f@ == profiles_file_of(d),
        r matches Err(e) ==> e@ == NO_DATA_DIR_MESSAGE@,
{
    match data_dir() {
        Some(d) => Ok(profiles_file_in(d.as_str())),
        None => Err(String::from_str(NO_DATA_DIR_MESSAGE)),
    }
}

} // verus!
