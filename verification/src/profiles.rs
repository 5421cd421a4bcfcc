//! Non-secret connection profiles: validation and the versioned collection.

use vstd::prelude::*;
use crate::paths::{lex_less, text_less};
use crate::text::{clone_opt, is_blank, is_blank_seq, lowercase_text, opt_text, owned, text_equals, to_lowercase};

verus! {

/// Profile format version written by this library.
pub const PROFILE_VERSION: u32 = 2;

/// Saved authentication mode. Secret material is referenced, never embedded.
#[derive(Clone, Copy, Debug, PartialEq, Eq, Structural)]
pub enum SavedAuthentication {
    /// SSH agent.
    Agent,
    /// Password retrieved from the platform secret store.
    Password,
    /// Private key path plus optional secret-store passphrase.
    PrivateKey,
}

impl Default for SavedAuthentication {
    fn default() -> (r: Self)
        ensures
            r == SavedAuthentication::Agent,
    {
        SavedAuthentication::Agent
    }
}

/// A saved, non-secret SFTP connection profile.
#[derive(Debug, PartialEq, Eq)]
pub struct SavedConnection {
    /// Stable profile identifier used for replacement and deletion.
    pub id: String,
    /// User-facing display name.
    pub name: String,
    /// Remote hostname or address.
    pub host: String,
    /// Remote login username.
    pub username: String,
    /// Remote SSH port.
    pub port: u16,
    /// Initial remote path opened after connection.
    pub initial_path: String,
    /// Authentication mode.
    pub authentication: SavedAuthentication,
    /// Platform secret-store key for password or private-key passphrase.
    pub secret_key: Option<String>,
    /// Private-key filesystem path for private-key authentication.
    pub private_key: Option<String>,
}

/// Mathematical value of a profile.
pub struct ProfileView {
    /// Identifier.
    pub id: Seq<char>,
    /// Display name.
    pub name: Seq<char>,
    /// Host.
    pub host: Seq<char>,
    /// Username.
    pub username: Seq<char>,
    /// Port.
    pub port: u16,
    /// Initial path.
    pub initial_path: Seq<char>,
    /// Authentication mode.
    pub authentication: SavedAuthentication,
    /// Secret-store key.
    pub secret_key: Option<Seq<char>>,
    /// Private-key path.
    pub private_key: Option<Seq<char>>,
}

impl View for SavedConnection {
    type V = ProfileView;

    open spec fn view(&self) -> ProfileView {
        ProfileView {
            id: self.id@,
            name: self.name@,
            host: self.host@,
            username: self.username@,
            port: self.port,
            initial_path: self.initial_path@,
            authentication: self.authentication,
            secret_key: opt_text(self.secret_key),
            private_key: opt_text(self.private_key),
        }
    }
}

impl Clone for SavedConnection {
    fn clone(&self) -> (r: Self)
        ensures
            r@ == self@,
    {
        SavedConnection {
            id: self.id.clone(),
            name: self.name.clone(),
            host: self.host.clone(),
            username: self.username.clone(),
            port: self.port,
            initial_path: self.initial_path.clone(),
            authentication: self.authentication,
            secret_key: clone_opt(&self.secret_key),
            private_key: clone_opt(&self.private_key),
        }
    }
}

/// A valid profile names a non-blank id, name, host and user, a non-zero port,
/// a non-empty starting path, and the credential its authentication needs.
pub proof fn lemma_valid_profile_is_complete(p: ProfileView)
    ensures
        validation_error(p) is None ==> {
            &&& !is_blank_seq(p.id)
            &&& !is_blank_seq(p.name)
            &&& !is_blank_seq(p.host)
            &&& !is_blank_seq(p.username)
            &&& p.port != 0
            &&& p.initial_path.len() > 0
            &&& p.authentication == SavedAuthentication::Password ==> p.secret_key is Some
            &&& p.authentication == SavedAuthentication::PrivateKey ==> p.private_key is Some
        },
{
}

/// The first validation failure of a profile, if any.
pub open spec fn validation_error(p: ProfileView) -> Option<Seq<char>> {
    if is_blank_seq(p.id) {
        Some("connection id must not be blank"@)
    } else if is_blank_seq(p.name) {
        Some("connection name must not be blank"@)
    } else if is_blank_seq(p.host) {
        Some("connection host must not be blank"@)
    } else if is_blank_seq(p.username) {
        Some("connection username must not be blank"@)
    } else if p.port == 0 {
        Some("connection port must be non-zero"@)
    } else if p.initial_path.len() == 0 {
        Some("connection path must not be empty"@)
    } else if p.authentication == SavedAuthentication::Password && p.secret_key is None {
        Some("password profile is missing secret-store key"@)
    } else if p.authentication == SavedAuthentication::PrivateKey && p.private_key is None {
        Some("private-key profile is missing key path"@)
    } else {
        None
    }
}

impl SavedConnection {
    /// Creates and validates a saved connection profile using SSH agent auth.
    pub fn new(
        id: &str,
        name: &str,
        host: &str,
        username: &str,
        port: u16,
        initial_path: &str,
    ) -> (r: Result<SavedConnection, String>)
        ensures
            is_blank_seq(id@) || is_blank_seq(name@) || is_blank_seq(host@) || is_blank_seq(username@)
                || port == 0 || initial_path@.len() == 0 ==> r is Err,
            r is Ok <==> validation_error(ProfileView {
                id: id@,
                name: name@,
                host: host@,
                username: username@,
                port,
                initial_path: initial_path@,
                authentication: SavedAuthentication::Agent,
                secret_key: None,
                private_key: None,
            }) is None,
            r matches Ok(p) ==> p@ == (ProfileView {
                id: id@,
                name: name@,
                host: host@,
                username: username@,
                port,
                initial_path: initial_path@,
                authentication: SavedAuthentication::Agent,
                secret_key: None,
                private_key: None,
            }),
            r matches Err(m) ==> validation_error(ProfileView {
                id: id@,
                name: name@,
                host: host@,
                username: username@,
                port,
                initial_path: initial_path@,
                authentication: SavedAuthentication::Agent,
                secret_key: None,
                private_key: None,
            }) == Some(m@),
    {
        let profile = SavedConnection {
            id: owned(id),
            name: owned(name),
            host: owned(host),
            username: owned(username),
            port,
            initial_path: owned(initial_path),
            authentication: SavedAuthentication::Agent,
            secret_key: None,
            private_key: None,
        };
        match profile.validate() {
            Ok(()) => Ok(profile),
            Err(m) => Err(m),
        }
    }

    /// Configures password authentication through a platform secret-store key.
    pub fn with_password_secret(self, key: &str) -> (r: SavedConnection)
        ensures
            r@ == (ProfileView {
                authentication: SavedAuthentication::Password,
                secret_key: Some(key@),
                private_key: None,
                ..self@
            }),
    {
        let mut profile = self;
        profile.authentication = SavedAuthentication::Password;
        profile.secret_key = Some(owned(key));
        profile.private_key = None;
        profile
    }

    /// Configures private-key authentication.
    pub fn with_private_key(self, private_key: &str, passphrase_secret: Option<String>) -> (r: SavedConnection)
        ensures
            r@ == (ProfileView {
                authentication: SavedAuthentication::PrivateKey,
                private_key: Some(private_key@),
                secret_key: opt_text(passphrase_secret),
                ..self@
            }),
    {
        let mut profile = self;
        profile.authentication = SavedAuthentication::PrivateKey;
        profile.private_key = Some(owned(private_key));
        profile.secret_key = passphrase_secret;
        profile
    }

    /// Validates profile fields required for a usable connection.
    pub fn validate(&self) -> (r: Result<(), String>)
        ensures
            r is Ok <==> validation_error(self@) is None,
            r matches Err(m) ==> validation_error(self@) == Some(m@),
            is_blank_seq(self@.id) || is_blank_seq(self@.name) || is_blank_seq(self@.host) || is_blank_seq(
                self@.username,
            ) || self@.port == 0 || self@.initial_path.len() == 0 ==> r is Err,
            self@.authentication == SavedAuthentication::Password && self@.secret_key is None ==> r is Err,
            self@.authentication == SavedAuthentication::PrivateKey && self@.private_key is None ==> r is Err,
    {
        if is_blank(self.id.as_str()) {
            return Err(owned("connection id must not be blank"));
        }
        if is_blank(self.name.as_str()) {
            return Err(owned("connection name must not be blank"));
        }
        if is_blank(self.host.as_str()) {
            return Err(owned("connection host must not be blank"));
        }
        if is_blank(self.username.as_str()) {
            return Err(owned("connection username must not be blank"));
        }
        if self.port == 0 {
            return Err(owned("connection port must be non-zero"));
        }
        if self.initial_path.as_str().unicode_len() == 0 {
            return Err(owned("connection path must not be empty"));
        }
        match self.authentication {
            SavedAuthentication::Password => {
                if self.secret_key.is_none() {
                    return Err(owned("password profile is missing secret-store key"));
                }
            },
            SavedAuthentication::PrivateKey => {
                if self.private_key.is_none() {
                    return Err(owned("private-key profile is missing key path"));
                }
            },
            SavedAuthentication::Agent => {},
        }
        Ok(())
    }
}

/// Whether a profile sorts strictly before another: by lower-cased name.
pub open spec fn name_precedes(a: ProfileView, b: ProfileView) -> bool {
    lex_less(lowercase_text(a.name), lowercase_text(b.name))
}

/// Where a stable sort by lower-cased name places `x`: before the first
/// profile it precedes.
pub open spec fn name_insertion_point(s: Seq<ProfileView>, x: ProfileView) -> int
    decreases s.len(),
{
    if s.len() == 0 {
        0
    } else if name_precedes(x, s[0]) {
        0
    } else {
        1 + name_insertion_point(s.drop_first(), x)
    }
}

/// Stable sort of profiles by lower-cased name.
pub open spec fn sorted_by_name(s: Seq<ProfileView>) -> Seq<ProfileView>
    decreases s.len(),
{
    if s.len() == 0 {
        s
    } else {
        let rest = sorted_by_name(s.drop_last());
        rest.insert(name_insertion_point(rest, s.last()), s.last())
    }
}

/// Values of a sequence of profiles.
pub open spec fn profiles_view(v: Seq<SavedConnection>) -> Seq<ProfileView> {
    v.map_values(|p: SavedConnection| p@)
}

/// Index of the first profile with an id, or -1.
pub open spec fn first_with_id(s: Seq<ProfileView>, id: Seq<char>) -> int
    decreases s.len(),
{
    if s.len() == 0 {
        -1
    } else if s[0].id == id {
        0
    } else {
        let rest = first_with_id(s.drop_first(), id);
        if rest < 0 { -1 } else { rest + 1 }
    }
}

/// Profiles after inserting or replacing by id, then sorting by name.
pub open spec fn upserted(s: Seq<ProfileView>, p: ProfileView) -> Seq<ProfileView> {
    let i = first_with_id(s, p.id);
    sorted_by_name(if i >= 0 { s.update(i, p) } else { s.push(p) })
}

/// Profiles without the ones of an id.
pub open spec fn without_id(s: Seq<ProfileView>, id: Seq<char>) -> Seq<ProfileView> {
    s.filter(|p: ProfileView| p.id != id)
}

/// Versioned collection of saved connection profiles.
#[derive(Debug, PartialEq, Eq)]
pub struct ConnectionProfiles {
    /// On-disk profile-format version.
    pub version: u32,
    /// Saved connection entries.
    pub profiles: Vec<SavedConnection>,
}

impl Default for ConnectionProfiles {
    fn default() -> (r: Self)
        ensures
            r.version == PROFILE_VERSION,
            r.profiles@.len() == 0,
    {
        ConnectionProfiles { version: PROFILE_VERSION, profiles: Vec::new() }
    }
}

fn find_index(profiles: &Vec<SavedConnection>, id: &str) -> (r: Option<usize>)
    ensures
        r is None ==> first_with_id(profiles_view(profiles@), id@) == -1,
        r matches Some(i) ==> i < profiles@.len() && first_with_id(profiles_view(profiles@), id@) == i,
{
    let ghost s = profiles_view(profiles@);
    let mut i: usize = 0;
    assert(s.subrange(0, s.len() as int) =~= s);
    while i < profiles.len()
        invariant
            s == profiles_view(profiles@),
            i <= profiles@.len(),
            first_with_id(s, id@) == (if first_with_id(s.subrange(i as int, s.len() as int), id@) < 0 {
                -1
            } else {
                first_with_id(s.subrange(i as int, s.len() as int), id@) + i
            }),
        decreases profiles@.len() - i,
    {
        proof {
            let rest = s.subrange(i as int, s.len() as int);
            assert(rest.drop_first() =~= s.subrange(i + 1, s.len() as int));
            assert(rest[0] == s[i as int]);
        }
        if text_equals(profiles[i].id.as_str(), id) {
            return Some(i);
        }
        i = i + 1;
    }
    None
}

fn name_insertion(out: &Vec<SavedConnection>, x: &SavedConnection) -> (r: usize)
    ensures
        r <= out@.len(),
        r == name_insertion_point(profiles_view(out@), x@),
{
    let ghost s = profiles_view(out@);
    let key = to_lowercase(x.name.as_str());
    let mut j: usize = 0;
    assert(s.subrange(0, s.len() as int) =~= s);
    while j < out.len()
        invariant
            s == profiles_view(out@),
            j <= out@.len(),
            key@ == lowercase_text(x@.name),
            name_insertion_point(s, x@) == j + name_insertion_point(s.subrange(j as int, s.len() as int), x@),
        decreases out@.len() - j,
    {
        let other = to_lowercase(out[j].name.as_str());
        proof {
            let rest = s.subrange(j as int, s.len() as int);
            assert(rest.drop_first() =~= s.subrange(j + 1, s.len() as int));
            assert(rest[0] == s[j as int]);
        }
        if text_less(key.as_str(), other.as_str()) {
            return j;
        }
        j = j + 1;
    }
    j
}

fn sort_by_name(v: &Vec<SavedConnection>) -> (r: Vec<SavedConnection>)
    ensures
        profiles_view(r@) == sorted_by_name(profiles_view(v@)),
{
    let ghost s = profiles_view(v@);
    let mut out: Vec<SavedConnection> = Vec::new();
    let mut i: usize = 0;
    while i < v.len()
        invariant
            s == profiles_view(v@),
            i <= v@.len(),
            profiles_view(out@) == sorted_by_name(s.subrange(0, i as int)),
        decreases v@.len() - i,
    {
        let ghost before = profiles_view(out@);
        let p = name_insertion(&out, &v[i]);
        let x = v[i].clone();
        out.insert(p, x);
        proof {
            let sub = s.subrange(0, i + 1);
            assert(sub.drop_last() =~= s.subrange(0, i as int));
            assert(sub.last() == s[i as int]);
            assert(profiles_view(out@) =~= before.insert(p as int, s[i as int]));
        }
        i = i + 1;
    }
    assert(s.subrange(0, v@.len() as int) =~= s);
    out
}

impl ConnectionProfiles {
    /// Values of the profiles.
    pub open spec fn spec_profiles(&self) -> Seq<ProfileView> {
        profiles_view(self.profiles@)
    }

    /// Inserts a profile or replaces the one with the same stable id, then
    /// orders profiles by lower-cased name.
    pub fn upsert(&mut self, profile: SavedConnection)
        ensures
            final(self).version == PROFILE_VERSION,
            final(self).spec_profiles() == upserted(old(self).spec_profiles(), profile@),
    {
        let ghost s = self.spec_profiles();
        let ghost p = profile@;
        let mut profiles = Vec::new();
        std::mem::swap(&mut profiles, &mut self.profiles);
        match find_index(&profiles, profile.id.as_str()) {
            Some(i) => {
                profiles.set(i, profile);
                assert(profiles_view(profiles@) =~= s.update(i as int, p));
            },
            None => {
                profiles.push(profile);
                assert(profiles_view(profiles@) =~= s.push(p));
            },
        }
        self.profiles = sort_by_name(&profiles);
        self.version = PROFILE_VERSION;
    }

    /// Removes the profiles with a stable id; whether one existed.
    pub fn remove(&mut self, id: &str) -> (r: bool)
        ensures
            final(self).version == old(self).version,
            final(self).spec_profiles() == without_id(old(self).spec_profiles(), id@),
            r == (final(self).spec_profiles().len() != old(self).spec_profiles().len()),
    {
        let ghost s = self.spec_profiles();
        let before = self.profiles.len();
        let mut kept: Vec<SavedConnection> = Vec::new();
        let mut i: usize = 0;
        while i < self.profiles.len()
            invariant
                s == self.spec_profiles(),
                before == s.len(),
                i <= self.profiles@.len(),
                profiles_view(kept@) == without_id(s.subrange(0, i as int), id@),
            decreases self.profiles@.len() - i,
        {
            let ghost prev = profiles_view(kept@);
            if !text_equals(self.profiles[i].id.as_str(), id) {
                let p = self.profiles[i].clone();
                kept.push(p);
            }
            proof {
                let sub = s.subrange(0, i + 1);
                assert(sub.drop_last() =~= s.subrange(0, i as int));
                assert(sub.last() == s[i as int]);
                reveal(Seq::filter);
                if s[i as int].id != id@ {
                    assert(profiles_view(kept@) =~= prev.push(s[i as int]));
                } else {
                    assert(profiles_view(kept@) =~= prev);
                }
            }
            i = i + 1;
        }
        assert(s.subrange(0, before as int) =~= s);
        self.profiles = kept;
        self.profiles.len() != before
    }

    /// Finds the first saved profile with a stable id.
    pub fn find(&self, id: &str) -> (r: Option<&SavedConnection>)
        ensures
            r is None <==> first_with_id(self.spec_profiles(), id@) < 0,
            r matches Some(p) ==> first_with_id(self.spec_profiles(), id@) >= 0 && p@
                == self.spec_profiles()[first_with_id(self.spec_profiles(), id@)],
    {
        match find_index(&self.profiles, id) {
            Some(i) => Some(&self.profiles[i]),
            None => None,
        }
    }
}

/// What the first-match search finds.
pub proof fn lemma_first_with_id(s: Seq<ProfileView>, id: Seq<char>)
    ensures
        first_with_id(s, id) == -1 <==> (forall|k: int| 0 <= k < s.len() ==> s[k].id != id),
        first_with_id(s, id) >= 0 ==> first_with_id(s, id) < s.len() && s[first_with_id(s, id)].id == id,
        first_with_id(s, id) >= -1,
    decreases s.len(),
{
    if s.len() > 0 && s[0].id != id {
        let rest = s.drop_first();
        lemma_first_with_id(rest, id);
        if first_with_id(rest, id) == -1 {
            assert forall|k: int| 0 <= k < s.len() implies s[k].id != id by {
                if k > 0 {
                    assert(s[k] == rest[k - 1]);
                }
            }
        } else {
            assert(s[first_with_id(s, id)] == rest[first_with_id(rest, id)]);
        }
    }
}

/// Sorting by name only reorders profiles.
pub proof fn lemma_sorted_by_name_permutes(s: Seq<ProfileView>)
    ensures
        sorted_by_name(s).to_multiset() == s.to_multiset(),
    decreases s.len(),
{
    broadcast use vstd::seq_lib::to_multiset_build;
    broadcast use vstd::seq_lib::to_multiset_insert;

    if s.len() > 0 {
        lemma_sorted_by_name_permutes(s.drop_last());
        lemma_name_insertion_in_range(sorted_by_name(s.drop_last()), s.last());
        assert(s.drop_last().push(s.last()) =~= s);
    }
}

proof fn lemma_name_insertion_in_range(s: Seq<ProfileView>, x: ProfileView)
    ensures
        0 <= name_insertion_point(s, x) <= s.len(),
    decreases s.len(),
{
    if s.len() > 0 {
        lemma_name_insertion_in_range(s.drop_first(), x);
    }
}

/// Profile ids are unique.
pub open spec fn unique_ids(s: Seq<ProfileView>) -> bool {
    forall|i: int, j: int| 0 <= i < j < s.len() ==> s[i].id != s[j].id
}

/// Upsert replaces by stable id: in a collection with unique ids, looking up
/// the id after an upsert finds exactly the profile just written.
pub proof fn lemma_upsert_then_find(s: Seq<ProfileView>, p: ProfileView)
    requires
        unique_ids(s),
    ensures
        first_with_id(upserted(s, p), p.id) >= 0,
        upserted(s, p)[first_with_id(upserted(s, p), p.id)] == p,
{
    broadcast use vstd::seq_lib::to_multiset_contains;

    let id = p.id;
    lemma_first_with_id(s, id);
    let i = first_with_id(s, id);
    let t = if i >= 0 { s.update(i, p) } else { s.push(p) };
    assert forall|k: int| 0 <= k < t.len() && t[k].id == id implies t[k] == p by {
        if i >= 0 && k != i {
            assert(t[k] == s[k]);
            if k < i {
                assert(s[k].id != s[i].id);
            } else {
                assert(s[i].id != s[k].id);
            }
        }
        if i < 0 && k < s.len() {
            assert(t[k] == s[k]);
        }
    }
    if i >= 0 {
        assert(t[i] == p);
    } else {
        assert(t[s.len() as int] == p);
    }
    assert(t.contains(p));
    let u = sorted_by_name(t);
    lemma_sorted_by_name_permutes(t);
    assert(u.to_multiset().count(p) > 0);
    assert(u.contains(p));
    lemma_first_with_id(u, id);
    let f = first_with_id(u, id);
    assert(f >= 0) by {
        let w = choose|w: int| 0 <= w < u.len() && u[w] == p;
        assert(u[w].id == id);
    }
    assert(u[f] == p) by {
        assert(u.to_multiset().count(u[f]) > 0) by {
            assert(u.contains(u[f]));
        }
        assert(t.to_multiset().count(u[f]) > 0);
        assert(t.contains(u[f]));
        let w = choose|w: int| 0 <= w < t.len() && t[w] == u[f];
        assert(t[w].id == id);
    }
}

/// After removing an id, looking it up finds nothing.
pub proof fn lemma_remove_then_find(s: Seq<ProfileView>, id: Seq<char>)
    ensures
        first_with_id(without_id(s, id), id) == -1,
{
    let pred = |p: ProfileView| p.id != id;
    let r = without_id(s, id);
    assert forall|k: int| 0 <= k < r.len() implies r[k].id != id by {
        s.lemma_filter_pred(pred, k);
    }
    lemma_first_with_id(r, id);
}

/// Where the application-support directory is rooted.
#[derive(Clone, Copy, Debug, PartialEq, Eq, Structural)]
pub enum SupportBase {
    /// `$HOME/Library/Application Support/Cyber-Pumpkin` (macOS).
    HomeLibrary,
    /// `$XDG_CONFIG_HOME/cyber-pumpkin`.
    XdgConfig,
    /// `$HOME/.config/cyber-pumpkin`.
    HomeConfig,
    /// `.cyber-pumpkin` in the working directory.
    WorkingDirectory,
}

/// Chooses the application-support root from the platform and which of
/// `XDG_CONFIG_HOME` and `HOME` are set: macOS uses the home library, other
/// systems prefer the XDG configuration home, then the home configuration
/// directory; without either the working directory is used.
pub fn support_base(macos: bool, xdg_set: bool, home_set: bool) -> (r: SupportBase)
    ensures
        macos && home_set ==> r == SupportBase::HomeLibrary,
        !macos && xdg_set ==> r == SupportBase::XdgConfig,
        !macos && !xdg_set && home_set ==> r == SupportBase::HomeConfig,
        (macos && !home_set) || (!macos && !xdg_set && !home_set) ==> r == SupportBase::WorkingDirectory,
{
    if macos {
        if home_set {
            return SupportBase::HomeLibrary;
        }
    } else {
        if xdg_set {
            return SupportBase::XdgConfig;
        }
        if home_set {
            return SupportBase::HomeConfig;
        }
    }
    SupportBase::WorkingDirectory
}

} // verus!
