//! Connection settings.
//!
//! The configuration holds a *list* of vCenters: every fetch is an
//! aggregation over connections, so a single server is the one-element case.
//!
//! The settings file holds hosts, user names and the certificate policy. It
//! does not hold passwords: those go to the operating system's credential
//! store under [`super::secrets::account`]. Reading and writing the file and
//! the store is the application's part; what is decided along the way is
//! here.

use vstd::prelude::*;
use crate::text::{
    has_prefix, is_ws, join, joined, strip_prefixes, strip_trailing, strings_view, trim, trim_end_char, trim_end_ws, trim_start_matches,
    trim_start_ws, trim_ws,
};
use crate::vcenter::secrets::{account, account_of};

verus! {

#[derive(Debug)]
pub struct VCenterConnection {
    /// Hostname or IP, no scheme. `https://` is assumed.
    pub host: String,
    pub username: String,
    /// Never written to disk. Filled from the credential store or the
    /// environment when connections are resolved, or from the settings
    /// dialog when the user types a new one.
    pub password: String,
    /// Accept a certificate that does not validate. Defaults to false:
    /// verify.
    pub skip_cert_verify: bool,
    /// Shown to the settings dialog only, so it can say "stored" instead of
    /// showing an empty password box.
    pub has_stored_password: bool,
}

/// The value of a connection.
pub struct ConnView {
    pub host: Seq<char>,
    pub username: Seq<char>,
    pub password: Seq<char>,
    pub skip_cert_verify: bool,
    pub has_stored_password: bool,
}

impl View for VCenterConnection {
    type V = ConnView;

    open spec fn view(&self) -> ConnView {
        ConnView {
            host: self.host@,
            username: self.username@,
            password: self.password@,
            skip_cert_verify: self.skip_cert_verify,
            has_stored_password: self.has_stored_password,
        }
    }
}

impl Clone for VCenterConnection {
    fn clone(&self) -> (r: Self)
        ensures
            r@ == self@,
    {
        VCenterConnection {
            host: self.host.clone(),
            username: self.username.clone(),
            password: self.password.clone(),
            skip_cert_verify: self.skip_cert_verify,
            has_stored_password: self.has_stored_password,
        }
    }
}

/// The host part of the base URL: surrounding whitespace, any pasted
/// `https://` or `http://` scheme and any trailing slashes removed.
pub open spec fn url_host(host: Seq<char>) -> Seq<char> {
    strip_trailing(strip_prefixes(strip_prefixes(trim_ws(host), "https://"@), "http://"@), '/')
}

pub open spec fn base_url_of(host: Seq<char>) -> Seq<char> {
    "https://"@ + url_host(host)
}

/// A host as typed in its simplest form: not empty, no surrounding
/// whitespace, no trailing slash, and no scheme even once slashes follow.
pub open spec fn bare_host(h: Seq<char>) -> bool {
    &&& h.len() > 0
    &&& !is_ws(h[0])
    &&& !is_ws(h.last())
    &&& h.last() != '/'
    &&& !has_prefix(h + "//"@, "https://"@)
    &&& !has_prefix(h + "//"@, "http://"@)
}

proof fn lemma_no_scheme(h: Seq<char>, tail: Seq<char>, p: Seq<char>)
    requires
        tail.len() <= 2,
        p.len() > 0,
        !has_prefix(h + "//"@, p),
        tail == Seq::<char>::empty() || tail == seq!['/'] || tail == seq!['/', '/'],
    ensures
        strip_prefixes(h + tail, p) == h + tail,
{
    reveal_strlit("//");
    if has_prefix(h + tail, p) {
        assert((h + "//"@).take(p.len() as int) =~= (h + tail).take(p.len() as int));
    }
}

proof fn lemma_strip_scheme(h: Seq<char>, tail: Seq<char>, p: Seq<char>)
    requires
        p.len() > 0,
        strip_prefixes(h + tail, p) == h + tail,
    ensures
        strip_prefixes(p + h + tail, p) == h + tail,
{
    let x = p + h + tail;
    assert(x.take(p.len() as int) =~= p);
    assert(x.skip(p.len() as int) =~= h + tail);
}

proof fn lemma_trims(h: Seq<char>, tail: Seq<char>)
    requires
        bare_host(h),
        tail == Seq::<char>::empty() || tail == seq!['/'] || tail == seq!['/', '/'],
    ensures
        trim_ws(h + tail) == h + tail,
        strip_trailing(h + tail, '/') == h,
{
    let x = h + tail;
    assert(x[0] == h[0]);
    assert(trim_start_ws(x) == x);
    assert(!is_ws(x.last()));
    assert(trim_end_ws(x) == x);
    assert(strip_trailing(h, '/') == h);
    if tail.len() == 2 {
        let y = h + seq!['/'];
        assert(x.drop_last() =~= y);
        assert(x.last() == '/');
        assert(y.drop_last() =~= h);
        assert(y.last() == '/');
        assert(strip_trailing(y, '/') == strip_trailing(h, '/'));
        assert(strip_trailing(x, '/') == strip_trailing(y, '/'));
    } else if tail.len() == 1 {
        assert(x.drop_last() =~= h);
        assert(x.last() == '/');
        assert(strip_trailing(x, '/') == strip_trailing(h, '/'));
    } else {
        assert(x =~= h);
    }
}

/// The scheme, trailing slashes and surrounding whitespace are not part of a
/// vCenter's identity: every form of the same host gives the same base URL.
pub proof fn lemma_base_url_forms(h: Seq<char>)
    requires
        bare_host(h),
    ensures
        base_url_of(h) == "https://"@ + h,
        base_url_of("https://"@ + h) == "https://"@ + h,
        base_url_of("http://"@ + h) == "https://"@ + h,
        base_url_of(h + "/"@) == "https://"@ + h,
        base_url_of("https://"@ + h + "//"@) == "https://"@ + h,
        base_url_of("  "@ + h + "  "@) == "https://"@ + h,
{
    reveal_strlit("https://");
    reveal_strlit("http://");
    reveal_strlit("/");
    reveal_strlit("//");
    reveal_strlit("  ");
    let e = Seq::<char>::empty();
    let one = seq!['/'];
    let two = seq!['/', '/'];
    assert(h + e =~= h);
    assert("/"@ =~= one);
    assert("//"@ =~= two);
    lemma_trims(h, e);
    lemma_trims(h, one);
    lemma_trims(h, two);
    lemma_no_scheme(h, e, "https://"@);
    lemma_no_scheme(h, e, "http://"@);
    lemma_no_scheme(h, one, "https://"@);
    lemma_no_scheme(h, one, "http://"@);
    lemma_no_scheme(h, two, "https://"@);
    lemma_no_scheme(h, two, "http://"@);
    // `https://` + h: no whitespace around it, and only the first scheme goes.
    let a = "https://"@ + h;
    assert(a[0] == 'h');
    assert(a.last() == h.last());
    assert(trim_start_ws(a) == a);
    assert(trim_end_ws(a) == a);
    lemma_strip_scheme(h, e, "https://"@);
    assert("https://"@ + h + e =~= a);
    // `http://` + h: `https://` is not its prefix.
    let b = "http://"@ + h;
    assert(b[0] == 'h');
    assert(b.last() == h.last());
    assert(trim_start_ws(b) == b);
    assert(trim_end_ws(b) == b);
    assert(b[4] == ':');
    assert(!has_prefix(b, "https://"@)) by {
        if has_prefix(b, "https://"@) {
            assert(b.take(8)[4] == 's');
        }
    }
    lemma_strip_scheme(h, e, "http://"@);
    assert("http://"@ + h + e =~= b);
    // `https://` + h + `//`.
    let c = "https://"@ + h + two;
    assert(c[0] == 'h');
    assert(c.last() == '/');
    assert(trim_start_ws(c) == c);
    assert(trim_end_ws(c) == c);
    lemma_strip_scheme(h, two, "https://"@);
    // `  ` + h + `  `.
    let d = "  "@ + h + "  "@;
    let d1 = d.drop_first();
    assert(d[0] == ' ' && is_ws(' '));
    assert(trim_start_ws(d) == trim_start_ws(d1));
    assert(d1[0] == ' ');
    assert(d1.drop_first() =~= h + "  "@);
    assert(trim_start_ws(d1) == trim_start_ws(h + "  "@));
    assert((h + "  "@)[0] == h[0]);
    assert(trim_start_ws(h + "  "@) == h + "  "@);
    let h2 = h + "  "@;
    let h1 = h2.drop_last();
    assert(h2.last() == ' ');
    assert(trim_end_ws(h2) == trim_end_ws(h1));
    assert(h1.last() == ' ');
    assert(h1.drop_last() =~= h);
    assert(trim_end_ws(h1) == trim_end_ws(h));
    assert(trim_end_ws(h + "  "@) == trim_end_ws(h));
    assert(trim_end_ws(h) == h);
    assert(trim_ws(d) == h);
}

pub open spec fn label_of(host: Seq<char>) -> Seq<char> {
    strip_prefixes(base_url_of(host), "https://"@)
}

pub open spec fn cache_key_of(host: Seq<char>, username: Seq<char>) -> Seq<char> {
    base_url_of(host) + "|"@ + username
}

impl VCenterConnection {
    /// A connection with no password and the safe certificate policy.
    pub fn new(host: &str, username: &str) -> (r: Self)
        ensures
            r@ == (ConnView {
                host: host@,
                username: username@,
                password: Seq::empty(),
                skip_cert_verify: false,
                has_stored_password: false,
            }),
    {
        VCenterConnection {
            host: String::from_str(host),
            username: String::from_str(username),
            password: String::new(),
            skip_cert_verify: false,
            has_stored_password: false,
        }
    }

    pub fn with_password(self, password: &str) -> (r: Self)
        ensures
            r@ == (ConnView { password: password@, ..self@ }),
    {
        let mut c = self;
        c.password = String::from_str(password);
        c
    }

    pub fn trusting_invalid_certs(self) -> (r: Self)
        ensures
            r@ == (ConnView { skip_cert_verify: true, ..self@ }),
    {
        let mut c = self;
        c.skip_cert_verify = true;
        c
    }

    /// `https://` and the host, however the host was typed.
    pub fn base_url(&self) -> (r: String)
        ensures
            r@ == base_url_of(self.host@),
    {
        proof {
            reveal_strlit("https://");
            reveal_strlit("http://");
        }
        let t = trim(self.host.as_str());
        let a = trim_start_matches(t.as_str(), "https://");
        let b = trim_start_matches(a.as_str(), "http://");
        let c = trim_end_char(b.as_str(), '/');
        String::from_str("https://").concat(c.as_str())
    }

    /// Identity for the session cache: host *and* user, so two accounts on
    /// the same vCenter, or one account on two vCenters, never evict each
    /// other.
    pub fn cache_key(&self) -> (r: String)
        ensures
            r@ == cache_key_of(self.host@, self.username@),
    {
        self.base_url().concat("|").concat(self.username.as_str())
    }

    /// A label safe to show, and the `VI SDK Server` column's value.
    pub fn label(&self) -> (r: String)
        ensures
            r@ == label_of(self.host@),
    {
        proof { reveal_strlit("https://"); }
        let u = self.base_url();
        trim_start_matches(u.as_str(), "https://")
    }
}

/// Two connections share a session-cache entry only when they have the same
/// base URL and the same user.
pub proof fn lemma_cache_key_separates(h1: Seq<char>, u1: Seq<char>, h2: Seq<char>, u2: Seq<char>)
    requires
        base_url_of(h1) == base_url_of(h2) || u1 == u2,
        cache_key_of(h1, u1) == cache_key_of(h2, u2),
    ensures
        base_url_of(h1) == base_url_of(h2) && u1 == u2,
{
    reveal_strlit("|");
    let k = cache_key_of(h1, u1);
    let b1 = base_url_of(h1);
    let b2 = base_url_of(h2);
    if b1 == b2 {
        assert(u1 =~= k.skip(b1.len() + 1int));
        assert(u2 =~= k.skip(b2.len() + 1int));
    } else {
        assert(b1.len() == b2.len());
        assert(b1 =~= k.take(b1.len() as int));
        assert(b2 =~= k.take(b2.len() as int));
    }
}

#[derive(Debug)]
pub struct AppConfig {
    pub connections: Vec<VCenterConnection>,
}

pub open spec fn conns_view(v: Seq<VCenterConnection>) -> Seq<ConnView> {
    v.map_values(|c: VCenterConnection| c@)
}

/// Whether a settings file still holds cleartext passwords from an older
/// version, which reading it moves into the credential store.
pub fn has_legacy_passwords(cfg: &AppConfig) -> (r: bool)
    ensures
        r == exists|i: int| 0 <= i < cfg.connections@.len() && cfg.connections@[i].password@.len() > 0,
{
    let mut i: usize = 0;
    while i < cfg.connections.len()
        invariant
            i <= cfg.connections@.len(),
            forall|j: int| 0 <= j < i ==> cfg.connections@[j].password@.len() == 0,
        decreases cfg.connections.len() - i,
    {
        if !cfg.connections[i].password.as_str().is_empty() {
            return true;
        }
        i += 1;
    }
    false
}

/// A connection as handed to the settings dialog: no password, and whether
/// one is stored.
pub open spec fn shown(c: ConnView, stored: bool) -> ConnView {
    ConnView {
        password: Seq::empty(),
        has_stored_password: c.password.len() > 0 || stored,
        ..c
    }
}

/// The connections of a freshly read settings file as the application shows
/// them: passwords removed, and each marked with whether a password is held
/// for it, in the file or (`stored[i]`) in the credential store.
pub fn without_passwords(cfg: AppConfig, stored: &Vec<bool>) -> (r: AppConfig)
    requires
        stored@.len() == cfg.connections@.len(),
    ensures
        r.connections@.len() == cfg.connections@.len(),
        forall|i: int| 0 <= i < r.connections@.len() ==> #[trigger] r.connections@[i]@ == shown(cfg.connections@[i]@, stored@[i]),
{
    let mut out: Vec<VCenterConnection> = Vec::new();
    let mut i: usize = 0;
    while i < cfg.connections.len()
        invariant
            i <= cfg.connections@.len(),
            stored@.len() == cfg.connections@.len(),
            out@.len() == i,
            forall|j: int| 0 <= j < i ==> #[trigger] out@[j]@ == shown(cfg.connections@[j]@, stored@[j]),
        decreases cfg.connections.len() - i,
    {
        let mut c = cfg.connections[i].clone();
        c.has_stored_password = !c.password.as_str().is_empty() || stored[i];
        c.password = String::new();
        out.push(c);
        i += 1;
    }
    AppConfig { connections: out }
}

/// The password the environment supplies for the connection at `index`:
/// `INVAR_PASSWORD_<index + 1>` (`numbered`), or for the first connection
/// the alias `INVAR_PASSWORD` (`alias`).
pub fn env_password(index: usize, numbered: Option<String>, alias: Option<String>) -> (r: Option<String>)
    ensures
        r == match numbered {
            Some(p) => Some(p),
            None => if index == 0 {
                alias
            } else {
                None
            },
        },
{
    match numbered {
        Some(p) => Some(p),
        None => if index == 0 {
            alias
        } else {
            None
        },
    }
}

pub const MISSING_HEAD: &'static str = "no password stored for ";
pub const MISSING_TAIL: &'static str = ". Open Settings and enter it, or set INVAR_PASSWORD_<n>.";

/// The labels of the connections no password was found for, in order.
pub open spec fn missing_labels(cs: Seq<ConnView>, found: Seq<Option<Seq<char>>>) -> Seq<Seq<char>>
    decreases cs.len(),
{
    if cs.len() == 0 {
        Seq::empty()
    } else if found[cs.len() - 1] is Some {
        missing_labels(cs.drop_last(), found)
    } else {
        missing_labels(cs.drop_last(), found).push(label_of(cs.last().host))
    }
}

/// The connections that have a password, each carrying it.
pub open spec fn resolved(cs: Seq<ConnView>, found: Seq<Option<Seq<char>>>) -> Seq<ConnView>
    decreases cs.len(),
{
    if cs.len() == 0 {
        Seq::empty()
    } else {
        match found[cs.len() - 1] {
            Some(p) => resolved(cs.drop_last(), found).push(
                ConnView { password: p, has_stored_password: false, ..cs.last() },
            ),
            None => resolved(cs.drop_last(), found),
        }
    }
}

pub open spec fn opt_strings_view(v: Seq<Option<String>>) -> Seq<Option<Seq<char>>> {
    v.map_values(|o: Option<String>| match o {
        Some(s) => Some(s@),
        None => None,
    })
}

/// The connections ready to log in with, given the password found for each
/// (`found[i]`, from the environment or the credential store).
///
/// A connection with no password is an error naming its host, not a skipped
/// entry: silently dropping a vCenter is how an inventory tool produces a
/// short list that looks complete.
pub fn finish_resolve(cfg: &AppConfig, found: Vec<Option<String>>) -> (r: Result<Vec<VCenterConnection>, String>)
    requires
        found@.len() == cfg.connections@.len(),
    ensures
        ({
            let missing = missing_labels(conns_view(cfg.connections@), opt_strings_view(found@));
            match r {
                Ok(v) => missing.len() == 0 && conns_view(v@) == resolved(
                    conns_view(cfg.connections@),
                    opt_strings_view(found@),
                ),
                Err(m) => missing.len() > 0 && m@ == MISSING_HEAD@ + joined(missing, ", "@) + MISSING_TAIL@,
            }
        }),
{
    let ghost cv = conns_view(cfg.connections@);
    let ghost fv = opt_strings_view(found@);
    let mut out: Vec<VCenterConnection> = Vec::new();
    let mut missing: Vec<String> = Vec::new();
    let mut i: usize = 0;
    while i < cfg.connections.len()
        invariant
            i <= cfg.connections@.len(),
            found@.len() == cfg.connections@.len(),
            cv == conns_view(cfg.connections@),
            fv == opt_strings_view(found@),
            conns_view(out@) =~= resolved(cv.take(i as int), fv),
            strings_view(missing@) =~= missing_labels(cv.take(i as int), fv),
        decreases cfg.connections.len() - i,
    {
        proof {
            assert(cv.take(i + 1).drop_last() =~= cv.take(i as int));
            assert(cv.take(i + 1).last() == cfg.connections@[i as int]@);
            assert(fv[i as int] == match found@[i as int] {
                Some(s) => Some(s@),
                None => None,
            });
        }
        match &found[i] {
            Some(p) => {
                let mut c = cfg.connections[i].clone();
                c.has_stored_password = false;
                c.password = p.clone();
                let ghost before = out@;
                out.push(c);
                proof { assert(conns_view(out@) =~= conns_view(before).push(c@)); }
            },
            None => {
                let l = cfg.connections[i].label();
                let ghost before = missing@;
                missing.push(l);
                proof { assert(strings_view(missing@) =~= strings_view(before).push(l@)); }
            },
        }
        i += 1;
    }
    proof { assert(cv.take(cv.len() as int) =~= cv); }
    if missing.len() > 0 {
        let names = join(&missing, ", ");
        return Err(String::from_str(MISSING_HEAD).concat(names.as_str()).concat(MISSING_TAIL));
    }
    Ok(out)
}

/// A connection's credential-store account.
pub open spec fn conn_account(c: ConnView) -> Seq<char> {
    account_of(label_of(c.host), c.username)
}

/// The positions of the previously saved connections whose account no
/// longer appears among `current`, in order: their stored passwords are
/// forgotten on save, so removing a vCenter from the list does not leave
/// its password behind.
pub open spec fn forgotten_of(previous: Seq<ConnView>, current: Seq<ConnView>) -> Seq<int>
    decreases previous.len(),
{
    if previous.len() == 0 {
        Seq::empty()
    } else if current.map_values(|c: ConnView| conn_account(c)).contains(conn_account(previous.last())) {
        forgotten_of(previous.drop_last(), current)
    } else {
        forgotten_of(previous.drop_last(), current).push(previous.len() - 1)
    }
}

pub fn forgotten_accounts(previous: &AppConfig, current: &AppConfig) -> (r: Vec<usize>)
    ensures
        r@.map_values(|i: usize| i as int) == forgotten_of(conns_view(previous.connections@), conns_view(current.connections@)),
{
    let ghost pv = conns_view(previous.connections@);
    let ghost cv = conns_view(current.connections@);
    let ghost kept = cv.map_values(|c: ConnView| conn_account(c));
    let mut accounts: Vec<String> = Vec::new();
    let mut j: usize = 0;
    while j < current.connections.len()
        invariant
            j <= current.connections@.len(),
            cv == conns_view(current.connections@),
            kept == cv.map_values(|c: ConnView| conn_account(c)),
            crate::text::strings_view(accounts@) =~= kept.take(j as int),
        decreases current.connections.len() - j,
    {
        let c = &current.connections[j];
        let a = account(c.label().as_str(), c.username.as_str());
        let ghost before = accounts@;
        accounts.push(a);
        proof { assert(crate::text::strings_view(accounts@) =~= crate::text::strings_view(before).push(a@)); }
        j += 1;
    }
    proof { assert(kept.take(kept.len() as int) =~= kept); }
    let mut out: Vec<usize> = Vec::new();
    let mut i: usize = 0;
    while i < previous.connections.len()
        invariant
            i <= previous.connections@.len(),
            pv == conns_view(previous.connections@),
            kept == cv.map_values(|c: ConnView| conn_account(c)),
            crate::text::strings_view(accounts@) == kept,
            out@.map_values(|k: usize| k as int) =~= forgotten_of(pv.take(i as int), cv),
        decreases previous.connections.len() - i,
    {
        let c = &previous.connections[i];
        let a = account(c.label().as_str(), c.username.as_str());
        proof {
            assert(pv.take(i + 1).drop_last() =~= pv.take(i as int));
            assert(pv.take(i + 1).last() == c@);
        }
        let mut found = false;
        let mut k: usize = 0;
        while k < accounts.len()
            invariant
                k <= accounts@.len(),
                crate::text::strings_view(accounts@) == kept,
                found == exists|m: int| 0 <= m < k && #[trigger] kept[m] == a@,
            decreases accounts.len() - k,
        {
            if crate::text::str_eq(accounts[k].as_str(), a.as_str()) {
                proof { assert(kept[k as int] == a@); }
                found = true;
            }
            k += 1;
        }
        if !found {
            let ghost before = out@;
            out.push(i);
            proof { assert(out@.map_values(|k: usize| k as int) =~= before.map_values(|k: usize| k as int).push(i as int)); }
        }
        i += 1;
    }
    proof { assert(pv.take(pv.len() as int) =~= pv); }
    out
}

} // verus!
