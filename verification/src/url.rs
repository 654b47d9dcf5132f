//! Splitting an `http://` URL into host, port, path and search part.

use vstd::prelude::*;
use crate::text::{chars_of, find, index_of, lemma_index_of_is_first, slice_of, string_of};

verus! {

/// The characters `http://`.
pub open spec fn scheme() -> Seq<char> {
    seq!['h', 't', 't', 'p', ':', '/', '/']
}

/// The characters `80`, the port of a URL that names none.
pub open spec fn default_port() -> Seq<char> {
    seq!['8', '0']
}

/// Whether `url` begins with `http://`.
pub open spec fn has_scheme(url: Seq<char>) -> bool {
    url.len() >= 7 && url.take(7) == scheme()
}

/// `url` without the `http://` it begins with, however often that is
/// repeated.
pub open spec fn without_scheme(url: Seq<char>) -> Seq<char>
    decreases url.len(),
{
    if has_scheme(url) {
        without_scheme(url.skip(7))
    } else {
        url
    }
}

/// What stands between the scheme and the first `/` after it: the host, and
/// the port where one is given.
pub open spec fn authority(url: Seq<char>) -> Seq<char> {
    let rest = without_scheme(url);
    rest.take(index_of(rest, '/') as int)
}

/// What follows the first `/` after the scheme: the path and the search
/// part. Empty where no `/` follows the scheme.
pub open spec fn after_authority(url: Seq<char>) -> Seq<char> {
    let rest = without_scheme(url);
    let slash = index_of(rest, '/') as int;
    if slash < rest.len() {
        rest.skip(slash + 1)
    } else {
        Seq::empty()
    }
}

/// The host of `url`: the authority up to its first `:`.
pub open spec fn host_of(url: Seq<char>) -> Seq<char> {
    let a = authority(url);
    a.take(index_of(a, ':') as int)
}

/// The port of `url`: what follows the first `:` of the authority, or `80`
/// where the authority has no `:`.
pub open spec fn port_of(url: Seq<char>) -> Seq<char> {
    let a = authority(url);
    let colon = index_of(a, ':') as int;
    if colon < a.len() {
        a.skip(colon + 1)
    } else {
        default_port()
    }
}

/// The path of `url`: what stands between the first `/` after the scheme and
/// the first `?` after that.
pub open spec fn path_of(url: Seq<char>) -> Seq<char> {
    let t = after_authority(url);
    t.take(index_of(t, '?') as int)
}

/// The search part of `url`: what follows the first `?` of what comes after
/// the authority. Empty where there is no `?`.
pub open spec fn searchpart_of(url: Seq<char>) -> Seq<char> {
    let t = after_authority(url);
    let mark = index_of(t, '?') as int;
    if mark < t.len() {
        t.skip(mark + 1)
    } else {
        Seq::empty()
    }
}

/// The parts of `url` put together again, each delimiter that was found
/// back in its place.
pub open spec fn recomposed(url: Seq<char>) -> Seq<char> {
    let rest = without_scheme(url);
    let a = authority(url);
    let t = after_authority(url);
    let port = if index_of(a, ':') < a.len() {
        seq![':'] + port_of(url)
    } else {
        Seq::empty()
    };
    let search = if index_of(t, '?') < t.len() {
        seq!['?'] + searchpart_of(url)
    } else {
        Seq::empty()
    };
    let tail = if index_of(rest, '/') < rest.len() {
        seq!['/'] + path_of(url) + search
    } else {
        Seq::empty()
    };
    host_of(url) + port + tail
}

/// Nothing of a URL is lost in taking it apart: its parts, put together
/// again with their delimiters, are the URL without its scheme.
pub proof fn lemma_parts_recompose(url: Seq<char>)
    ensures
        recomposed(url) == without_scheme(url),
{
    let rest = without_scheme(url);
    let a = authority(url);
    let t = after_authority(url);
    lemma_index_of_is_first(rest, '/');
    lemma_index_of_is_first(a, ':');
    lemma_index_of_is_first(t, '?');
    let slash = index_of(rest, '/') as int;
    let colon = index_of(a, ':') as int;
    let mark = index_of(t, '?') as int;
    let port = if colon < a.len() {
        seq![':'] + port_of(url)
    } else {
        Seq::empty()
    };
    let search = if mark < t.len() {
        seq!['?'] + searchpart_of(url)
    } else {
        Seq::empty()
    };
    let tail = if slash < rest.len() {
        seq!['/'] + path_of(url) + search
    } else {
        Seq::empty()
    };
    assert(host_of(url) + port =~= a);
    assert(path_of(url) + search =~= t);
    if slash < rest.len() {
        assert(seq!['/'] + path_of(url) + search =~= seq!['/'] + t);
        assert(a + (seq!['/'] + t) =~= rest);
    } else {
        assert(a + tail =~= rest);
    }
}

/// A URL and the parts that [`Url::parse`] found in it.
#[derive(Debug, Clone, PartialEq)]
pub struct Url {
    pub url: String,
    pub host: String,
    pub port: String,
    pub path: String,
    pub searchpart: String,
}

/// Whether `v` holds `http://` from index `at` on.
fn scheme_at(v: &Vec<char>, at: usize) -> (b: bool)
    requires
        at <= v.len(),
    ensures
        b == has_scheme(v@.skip(at as int)),
{
    let b = v.len() - at >= 7 && v[at] == 'h' && v[at + 1] == 't' && v[at + 2] == 't' && v[at + 3]
        == 'p' && v[at + 4] == ':' && v[at + 5] == '/' && v[at + 6] == '/';
    proof {
        let s = v@.skip(at as int);
        if s.len() >= 7 {
            if b {
                assert(s.take(7) =~= scheme());
            } else {
                assert(s.take(7)[0] == s[0] && s.take(7)[1] == s[1] && s.take(7)[2] == s[2]
                    && s.take(7)[3] == s[3] && s.take(7)[4] == s[4] && s.take(7)[5] == s[5]
                    && s.take(7)[6] == s[6]);
            }
        }
    }
    b
}

/// The characters of `url` after the scheme.
fn rest_of(url: &String) -> (rest: Vec<char>)
    ensures
        rest@ == without_scheme(url@),
{
    let v = chars_of(url.as_str());
    let mut at: usize = 0;
    assert(v@.skip(0) =~= v@);
    while scheme_at(&v, at)
        invariant
            at <= v.len(),
            v@ == url@,
            without_scheme(v@.skip(at as int)) == without_scheme(url@),
        decreases v.len() - at,
    {
        assert(v@.skip(at as int).skip(7) =~= v@.skip(at + 7));
        at += 7;
    }
    slice_of(&v, at, v.len())
}

/// The authority of `url` and what follows the `/` after it.
fn halves_of(url: &String) -> (halves: (Vec<char>, Vec<char>))
    ensures
        halves.0@ == authority(url@),
        halves.1@ == after_authority(url@),
{
    let rest = rest_of(url);
    let slash = find(&rest, '/');
    let first = slice_of(&rest, 0, slash);
    let second = if slash < rest.len() {
        slice_of(&rest, slash + 1, rest.len())
    } else {
        Vec::new()
    };
    (first, second)
}

impl Url {
    /// Whether the parts of `self` are those of the URL `url`.
    pub open spec fn holds_parts_of(&self, url: Seq<char>) -> bool {
        &&& self.url@ == url
        &&& self.host@ == host_of(url)
        &&& self.port@ == port_of(url)
        &&& self.path@ == path_of(url)
        &&& self.searchpart@ == searchpart_of(url)
    }

    /// A URL that has not been taken apart yet: its parts are empty.
    pub fn new(url: String) -> (u: Self)
        ensures
            u.url@ == url@,
            u.host@.len() == 0,
            u.port@.len() == 0,
            u.path@.len() == 0,
            u.searchpart@.len() == 0,
    {
        Self {
            url,
            host: String::new(),
            port: String::new(),
            path: String::new(),
            searchpart: String::new(),
        }
    }

    /// Takes the URL apart. Where it begins with `http://`, fills in host,
    /// port, path and search part and returns a copy of the whole; any other
    /// text is refused and `self` left as it was.
    pub fn parse(&mut self) -> (r: Result<Self, String>)
        ensures
            has_scheme(old(self).url@) ==> r is Ok && r->Ok_0.holds_parts_of(old(self).url@)
                && final(self).holds_parts_of(old(self).url@),
            !has_scheme(old(self).url@) ==> r is Err && r->Err_0@
                == "Only HTTP scheme is supported."@ && *final(self) == *old(self),
    {
        if !self.is_http() {
            return Err(String::from_str("Only HTTP scheme is supported."));
        }
        self.host = self.extract_host();
        self.port = self.extract_port();
        self.path = self.extract_path();
        self.searchpart = self.extract_searchpart();

        Ok(
            Self {
                url: self.url.clone(),
                host: self.host.clone(),
                port: self.port.clone(),
                path: self.path.clone(),
                searchpart: self.searchpart.clone(),
            },
        )
    }

    /// Whether the URL begins with `http://`.
    fn is_http(&self) -> (b: bool)
        ensures
            b == has_scheme(self.url@),
    {
        let v = chars_of(self.url.as_str());
        assert(v@.skip(0) =~= v@);
        scheme_at(&v, 0)
    }

    /// The host that the URL names.
    fn extract_host(&self) -> (host: String)
        ensures
            host@ == host_of(self.url@),
    {
        let (authority, _) = halves_of(&self.url);
        let colon = find(&authority, ':');
        string_of(&authority, 0, colon)
    }

    /// The port that the URL names, `80` where it names none.
    fn extract_port(&self) -> (port: String)
        ensures
            port@ == port_of(self.url@),
    {
        let (authority, _) = halves_of(&self.url);
        let colon = find(&authority, ':');
        if colon < authority.len() {
            string_of(&authority, colon + 1, authority.len())
        } else {
            proof {
                reveal_strlit("80");
                assert("80"@ =~= default_port());
            }
            String::from_str("80")
        }
    }

    /// The path that the URL names, without the `/` before it.
    fn extract_path(&self) -> (path: String)
        ensures
            path@ == path_of(self.url@),
    {
        let (_, tail) = halves_of(&self.url);
        let mark = find(&tail, '?');
        string_of(&tail, 0, mark)
    }

    /// The search part that the URL names, without the `?` before it.
    fn extract_searchpart(&self) -> (searchpart: String)
        ensures
            searchpart@ == searchpart_of(self.url@),
    {
        let (_, tail) = halves_of(&self.url);
        let mark = find(&tail, '?');
        if mark < tail.len() {
            string_of(&tail, mark + 1, tail.len())
        } else {
            String::new()
        }
    }

    /// A copy of the host.
    pub fn host(&self) -> (s: String)
        ensures
            s@ == self.host@,
    {
        self.host.clone()
    }

    /// A copy of the port.
    pub fn port(&self) -> (s: String)
        ensures
            s@ == self.port@,
    {
        self.port.clone()
    }

    /// A copy of the path.
    pub fn path(&self) -> (s: String)
        ensures
            s@ == self.path@,
    {
        self.path.clone()
    }

    /// A copy of the search part.
    pub fn searchpart(&self) -> (s: String)
        ensures
            s@ == self.searchpart@,
    {
        self.searchpart.clone()
    }
}

} // verus!
