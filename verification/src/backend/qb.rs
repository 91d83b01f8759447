//! Session state of the qBittorrent Web API backend: the API root, the
//! credentials and the session cookie, and the text the requests are made of.
use vstd::prelude::*;
use vstd::string::StringExecFns;
use crate::text::{
    chars_of, count_of, first_index_of, lemma_count_absent, lemma_count_take, lemma_first_index_of,
    lemma_first_index_unique, seq_has_prefix, str_has_prefix,
};

verus! {

broadcast use vstd::string::group_string_axioms;

/// The torrent states that count as active transfers when listing torrents.
pub const UPLOADING_STATUS: &'static str = "stalledDL|metaDL|forcedMetaDL|downloading|forcedDL|uploading|forcedUP";

/// Connection to a qBittorrent client through its Web API.
pub struct QBitBackend {
    endpoint: String,
    username: String,
    password: String,
    cookie: Option<String>,
    login: bool,
}

/// `s` without the `/` characters at its end.
pub open spec fn trim_trailing_slashes(s: Seq<char>) -> Seq<char>
    decreases s.len(),
{
    if s.len() > 0 && s.last() == '/' {
        trim_trailing_slashes(s.drop_last())
    } else {
        s
    }
}

/// An endpoint is accepted when it starts with `http` (`http://` or `https://`).
pub open spec fn endpoint_valid(ep: Seq<char>) -> bool {
    seq_has_prefix(ep, "http"@)
}

/// Credentials are accepted when written `username:password` with exactly one `:`.
pub open spec fn auth_valid(auth: Seq<char>) -> bool {
    count_of(auth, ':') == 1
}

/// The session cookie in a `Set-Cookie` header: the text before the first `;`.
pub open spec fn cookie_pair(header: Seq<char>) -> Seq<char> {
    header.take(first_index_of(header, ';'))
}

/// Trailing slashes on the client's address do not change the API root, and
/// trimming twice is trimming once.
pub proof fn lemma_trailing_slashes_ignored(ep: Seq<char>)
    ensures
        trim_trailing_slashes(ep.push('/')) == trim_trailing_slashes(ep),
        trim_trailing_slashes(trim_trailing_slashes(ep)) == trim_trailing_slashes(ep),
        trim_trailing_slashes(ep).len() == 0 || trim_trailing_slashes(ep).last() != '/',
    decreases ep.len(),
{
    assert(ep.push('/').drop_last() =~= ep);
    if ep.len() > 0 && ep.last() == '/' {
        lemma_trailing_slashes_ignored(ep.drop_last());
    }
}

/// The session cookie kept after a login holds no `;`.
pub proof fn lemma_cookie_pair_is_one_pair(header: Seq<char>)
    ensures
        count_of(cookie_pair(header), ';') == 0,
{
    lemma_first_index_of(header, ';');
    let p = cookie_pair(header);
    assert forall|j: int| 0 <= j < p.len() implies p[j] != ';' by {
        assert(p[j] == header[j]);
    }
    lemma_count_absent(p, ';');
}

/// The text before the first `c` in `s` (all of `s` when there is none).
fn text_before(s: &str, c: char) -> (r: (String, usize))
    ensures
        r.0@ == s@.take(first_index_of(s@, c)),
        r.1 == first_index_of(s@, c),
        r.1 <= s@.len(),
{
    let cs = chars_of(s);
    let n = cs.len();
    let ghost sq = cs@;
    let mut i: usize = 0;
    while i < n && cs[i] != c
        invariant
            n == sq.len(),
            cs@ == sq,
            i <= n,
            forall|j: int| 0 <= j < i ==> sq[j] != c,
        decreases n - i,
    {
        i = i + 1;
    }
    proof {
        lemma_first_index_unique(sq, c, i as int);
    }
    (s.substring_char(0, i).to_owned(), i)
}

impl QBitBackend {
    pub closed spec fn endpoint_view(&self) -> Seq<char> {
        self.endpoint@
    }

    pub closed spec fn username_view(&self) -> Seq<char> {
        self.username@
    }

    pub closed spec fn password_view(&self) -> Seq<char> {
        self.password@
    }

    pub closed spec fn cookie_view(&self) -> Option<Seq<char>> {
        match self.cookie {
            Some(c) => Some(c@),
            None => None,
        }
    }

    pub closed spec fn logged_in(&self) -> bool {
        self.login
    }

    /// Whether `new` accepts `ep` as the client's address.
    pub fn check_endpoint(ep: &str) -> (r: bool)
        ensures
            r == endpoint_valid(ep@),
    {
        str_has_prefix(ep, "http")
    }

    /// Whether `new` accepts `auth` as credentials.
    pub fn check_auth(auth: &str) -> (r: bool)
        ensures
            r == auth_valid(auth@),
    {
        let cs = chars_of(auth);
        let n = cs.len();
        let ghost sq = cs@;
        let mut count: usize = 0;
        let mut k: usize = 0;
        while k < n
            invariant
                n == sq.len(),
                cs@ == sq,
                k <= n,
                count <= k,
                count == count_of(sq.take(k as int), ':'),
            decreases n - k,
        {
            proof {
                lemma_count_take(sq, ':', k as int);
            }
            if cs[k] == ':' {
                count = count + 1;
            }
            k = k + 1;
        }
        assert(sq.take(n as int) =~= sq);
        count == 1
    }

    /// A backend for the client at `ep` (its address, trailing `/` allowed)
    /// with credentials `auth` written `username:password`; not logged in yet.
    pub fn new(ep: String, auth: String) -> (r: Self)
        requires
            endpoint_valid(ep@),
            auth_valid(auth@),
        ensures
            r.endpoint_view() == trim_trailing_slashes(ep@) + "/api/v2"@,
            r.username_view() == auth@.take(first_index_of(auth@, ':')),
            r.password_view() == auth@.skip(first_index_of(auth@, ':') + 1),
            r.cookie_view() is None,
            !r.logged_in(),
    {
        // API root: the address without trailing slashes, then `/api/v2`
        let cs = chars_of(ep.as_str());
        let ghost sq = cs@;
        let mut k: usize = cs.len();
        assert(sq.take(k as int) =~= sq);
        while k > 0 && cs[k - 1] == '/'
            invariant
                cs@ == sq,
                k <= sq.len(),
                trim_trailing_slashes(sq) == trim_trailing_slashes(sq.take(k as int)),
            decreases k,
        {
            assert(sq.take(k as int).drop_last() =~= sq.take(k - 1));
            k = k - 1;
        }
        assert(trim_trailing_slashes(sq.take(k as int)) == sq.take(k as int));
        let mut endpoint = ep.as_str().substring_char(0, k).to_owned();
        endpoint.append("/api/v2");
        // credentials: the text on either side of the one ':'
        let (username, at) = text_before(auth.as_str(), ':');
        let n = chars_of(auth.as_str()).len();
        proof {
            lemma_first_index_of(auth@, ':');
            if at == n {
                lemma_count_absent(auth@, ':');
            }
        }
        let password = auth.as_str().substring_char(at + 1, n).to_owned();
        QBitBackend { endpoint, username, password, cookie: None, login: false }
    }

    /// The API root, `<address>/api/v2`.
    pub fn endpoint(&self) -> (r: &str)
        ensures
            r@ == self.endpoint_view(),
    {
        self.endpoint.as_str()
    }

    pub fn username(&self) -> (r: &str)
        ensures
            r@ == self.username_view(),
    {
        self.username.as_str()
    }

    pub fn password(&self) -> (r: &str)
        ensures
            r@ == self.password_view(),
    {
        self.password.as_str()
    }

    /// The session cookie, once logged in.
    pub fn cookie(&self) -> (r: Option<String>)
        ensures
            match r {
                Some(c) => self.cookie_view() == Some(c@),
                None => self.cookie_view() is None,
            },
    {
        match &self.cookie {
            Some(c) => Some(c.clone()),
            None => None,
        }
    }

    /// Whether a login has succeeded.
    pub fn is_logged_in(&self) -> (r: bool)
        ensures
            r == self.logged_in(),
    {
        self.login
    }

    /// The URL of the API method `path` (such as `/auth/login`).
    pub fn api_url(&self, path: &str) -> (r: String)
        ensures
            r@ == self.endpoint_view() + path@,
    {
        let mut r = self.endpoint.clone();
        r.append(path);
        r
    }

    /// Records a successful login whose answer carried the `Set-Cookie`
    /// header `set_cookie`: the session cookie is its first `name=value` pair.
    pub fn record_login(&mut self, set_cookie: &str)
        ensures
            final(self).cookie_view() == Some(cookie_pair(set_cookie@)),
            final(self).logged_in(),
            final(self).endpoint_view() == old(self).endpoint_view(),
            final(self).username_view() == old(self).username_view(),
            final(self).password_view() == old(self).password_view(),
    {
        let (pair, _) = text_before(set_cookie, ';');
        self.cookie = Some(pair);
        self.login = true;
    }

    /// The description of this backend once the client reported `version`.
    pub fn description(&self, version: &str) -> (r: String)
        ensures
            r@ == "QBittorrent: "@ + self.endpoint_view() + " - "@ + version@,
    {
        let mut r = "QBittorrent: ".to_owned();
        r.append(self.endpoint.as_str());
        r.append(" - ");
        r.append(version);
        r
    }
}

} // verus!
