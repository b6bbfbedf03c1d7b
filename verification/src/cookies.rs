//! Cookie handling and storage.
//!
//! Cookies are parsed from `Set-Cookie` header values and kept in a
//! jar, one per name.  Expiry is carried as milliseconds since the
//! epoch; the caller hands the current time in where it matters.

use crate::strmap::AssocMap;
use crate::text::{
    seq_ends_with, seq_eq_ignore_ascii_case, spec_trim, split_char, split_on, str_ends_with,
    str_eq_ignore_ascii_case, str_trim,
};
use vstd::prelude::*;

verus! {

/// A simple cookie representation.
#[derive(Debug, Clone)]
pub struct Cookie {
    /// Cookie name
    pub name: String,
    /// Cookie value
    pub value: String,
    /// Domain
    pub domain: Option<String>,
    /// Path
    pub path: Option<String>,
    /// Expiry, in milliseconds since the epoch
    pub expires: Option<i64>,
    /// Is HTTP only?
    pub http_only: bool,
    /// Is secure?
    pub secure: bool,
    /// Same site policy
    pub same_site: Option<String>,
}

pub ghost struct CookieView {
    pub name: Seq<char>,
    pub value: Seq<char>,
    pub domain: Option<Seq<char>>,
    pub path: Option<Seq<char>>,
    pub expires: Option<i64>,
    pub http_only: bool,
    pub secure: bool,
    pub same_site: Option<Seq<char>>,
}

impl DeepView for Cookie {
    type V = CookieView;

    open spec fn deep_view(&self) -> CookieView {
        self.view()
    }
}

impl View for Cookie {
    type V = CookieView;

    open spec fn view(&self) -> CookieView {
        CookieView {
            name: self.name@,
            value: self.value@,
            domain: match self.domain {
                Some(ref d) => Some(d@),
                None => None,
            },
            path: match self.path {
                Some(ref p) => Some(p@),
                None => None,
            },
            expires: self.expires,
            http_only: self.http_only,
            secure: self.secure,
            same_site: match self.same_site {
                Some(ref s) => Some(s@),
                None => None,
            },
        }
    }
}

/// A bare cookie: only name and value set.
pub open spec fn spec_bare_cookie(name: Seq<char>, value: Seq<char>) -> CookieView {
    CookieView {
        name,
        value,
        domain: None,
        path: None,
        expires: None,
        http_only: false,
        secure: false,
        same_site: None,
    }
}

/// How one `;`-separated attribute piece changes a cookie: the part
/// before the first `=` names the attribute (letter case ignored,
/// surrounding whitespace trimmed), the part between the first and
/// second `=` is its value.  Unknown attributes are ignored.
pub open spec fn spec_apply_attr(c: CookieView, piece: Seq<char>) -> CookieView {
    let attr = split_char(piece, '=');
    let aname = spec_trim(attr[0]);
    if seq_eq_ignore_ascii_case(aname, "domain"@) && attr.len() > 1 {
        CookieView { domain: Some(spec_trim(attr[1])), ..c }
    } else if seq_eq_ignore_ascii_case(aname, "path"@) && attr.len() > 1 {
        CookieView { path: Some(spec_trim(attr[1])), ..c }
    } else if seq_eq_ignore_ascii_case(aname, "httponly"@) {
        CookieView { http_only: true, ..c }
    } else if seq_eq_ignore_ascii_case(aname, "secure"@) {
        CookieView { secure: true, ..c }
    } else if seq_eq_ignore_ascii_case(aname, "samesite"@) && attr.len() > 1 {
        CookieView { same_site: Some(spec_trim(attr[1])), ..c }
    } else {
        c
    }
}

/// The attribute pieces applied in order.
pub open spec fn spec_apply_attrs(c: CookieView, parts: Seq<Seq<char>>, i: int) -> CookieView
    decreases parts.len() - i when 0 <= i <= parts.len()
{
    if i >= parts.len() {
        c
    } else {
        spec_apply_attrs(spec_apply_attr(c, parts[i]), parts, i + 1)
    }
}

/// What parsing a `Set-Cookie` value yields: the first `;`-separated
/// piece must be exactly `name=value`; the remaining pieces are
/// attributes.
pub open spec fn spec_cookie_from_header(h: Seq<char>) -> Option<CookieView> {
    let parts = split_char(h, ';');
    let nv = split_char(parts[0], '=');
    if nv.len() != 2 {
        None
    } else {
        Some(spec_apply_attrs(spec_bare_cookie(spec_trim(nv[0]), spec_trim(nv[1])), parts, 1))
    }
}

/// The cookie has an expiry and the given moment has passed it.
pub open spec fn spec_cookie_expired(c: CookieView, now_ms: i64) -> bool {
    match c.expires {
        Some(e) => e < now_ms,
        None => false,
    }
}

/// The `name=value` pair the cookie contributes to a `Cookie` header.
pub open spec fn spec_cookie_pair(c: CookieView) -> Seq<char> {
    c.name + "="@ + c.value
}

impl Cookie {
    /// Create a new cookie with only a name and a value.
    pub fn new(name: String, value: String) -> (r: Self)
        ensures
            r@ == spec_bare_cookie(name@, value@),
    {
        Cookie {
            name,
            value,
            domain: None,
            path: None,
            expires: None,
            http_only: false,
            secure: false,
            same_site: None,
        }
    }

    /// Set the domain.
    pub fn with_domain(self, domain: String) -> (r: Self)
        ensures
            r@ == (CookieView { domain: Some(domain@), ..self@ }),
    {
        let mut c = self;
        c.domain = Some(domain);
        c
    }

    /// Set the path.
    pub fn with_path(self, path: String) -> (r: Self)
        ensures
            r@ == (CookieView { path: Some(path@), ..self@ }),
    {
        let mut c = self;
        c.path = Some(path);
        c
    }

    /// Set the expiry, in milliseconds since the epoch.
    pub fn with_expires(self, expires_ms: i64) -> (r: Self)
        ensures
            r@ == (CookieView { expires: Some(expires_ms), ..self@ }),
    {
        let mut c = self;
        c.expires = Some(expires_ms);
        c
    }

    /// Whether the cookie has expired by the given moment.
    pub fn is_expired(&self, now_ms: i64) -> (r: bool)
        ensures
            r == spec_cookie_expired(self@, now_ms),
    {
        match self.expires {
            Some(e) => e < now_ms,
            None => false,
        }
    }

    /// Parse a `Set-Cookie` header value.
    pub fn from_header(header: &str) -> (r: Option<Self>)
        ensures
            match r {
                Some(c) => spec_cookie_from_header(header@) == Some(c@),
                None => spec_cookie_from_header(header@) is None,
            },
    {
        let parts = split_on(header, ';');
        let ghost pv = split_char(header@, ';');
        proof {
            assert(pv.len() > 0);
            assert(parts.deep_view()[0] == pv[0]);
        }
        let nv = split_on(parts[0].as_str(), '=');
        if nv.len() != 2 {
            proof {
                assert(nv.deep_view().len() == split_char(pv[0], '=').len());
            }
            return None;
        }
        proof {
            assert(nv.deep_view()[0] == split_char(pv[0], '=')[0]);
            assert(nv.deep_view()[1] == split_char(pv[0], '=')[1]);
        }
        let mut cookie = Cookie::new(str_trim(nv[0].as_str()), str_trim(nv[1].as_str()));
        let ghost base = spec_bare_cookie(
            spec_trim(split_char(pv[0], '=')[0]),
            spec_trim(split_char(pv[0], '=')[1]),
        );
        let n = parts.len();
        let mut i: usize = 1;
        while i < n
            invariant
                n == parts@.len(),
                parts.deep_view() == pv,
                pv.len() == n,
                1 <= i <= n,
                spec_apply_attrs(cookie@, pv, i as int) == spec_apply_attrs(base, pv, 1),
            decreases n - i,
        {
            let ghost before = cookie@;
            proof {
                assert(parts.deep_view()[i as int] == pv[i as int]);
            }
            let attr = split_on(parts[i].as_str(), '=');
            let ghost av = split_char(pv[i as int], '=');
            proof {
                assert(attr.deep_view() == av);
                assert(attr.deep_view()[0] == av[0]);
                assert(attr.deep_view().len() == av.len());
            }
            let aname = str_trim(attr[0].as_str());
            if str_eq_ignore_ascii_case(aname.as_str(), "domain") && attr.len() > 1 {
                proof {
                    assert(attr.deep_view()[1] == av[1]);
                }
                cookie.domain = Some(str_trim(attr[1].as_str()));
            } else if str_eq_ignore_ascii_case(aname.as_str(), "path") && attr.len() > 1 {
                proof {
                    assert(attr.deep_view()[1] == av[1]);
                }
                cookie.path = Some(str_trim(attr[1].as_str()));
            } else if str_eq_ignore_ascii_case(aname.as_str(), "httponly") {
                cookie.http_only = true;
            } else if str_eq_ignore_ascii_case(aname.as_str(), "secure") {
                cookie.secure = true;
            } else if str_eq_ignore_ascii_case(aname.as_str(), "samesite") && attr.len() > 1 {
                proof {
                    assert(attr.deep_view()[1] == av[1]);
                }
                cookie.same_site = Some(str_trim(attr[1].as_str()));
            }
            proof {
                assert(cookie@ == spec_apply_attr(before, pv[i as int]));
                assert(spec_apply_attrs(before, pv, i as int) == spec_apply_attrs(
                    cookie@,
                    pv,
                    i + 1,
                ));
            }
            i += 1;
        }
        proof {
            assert(spec_apply_attrs(cookie@, pv, n as int) == cookie@);
        }
        Some(cookie)
    }

    /// Render the cookie's `name=value` pair.
    pub fn to_header(&self) -> (r: String)
        ensures
            r@ == spec_cookie_pair(self@),
    {
        let mut out = String::new();
        out.append(self.name.as_str());
        out.append("=");
        out.append(self.value.as_str());
        out
    }

    /// An identical copy.
    pub fn duplicate(&self) -> (r: Self)
        ensures
            r@ == self@,
    {
        Cookie {
            name: self.name.clone(),
            value: self.value.clone(),
            domain: match self.domain {
                Some(ref d) => Some(d.clone()),
                None => None,
            },
            path: match self.path {
                Some(ref p) => Some(p.clone()),
                None => None,
            },
            expires: self.expires,
            http_only: self.http_only,
            secure: self.secure,
            same_site: match self.same_site {
                Some(ref s) => Some(s.clone()),
                None => None,
            },
        }
    }
}

/// The cookie views of a jar's entries, in insertion order.
pub open spec fn cookie_views(s: Seq<(String, Cookie)>) -> Seq<CookieView> {
    Seq::new(s.len(), |i: int| s[i].1@)
}

/// A cookie applies to a domain when it names no domain or the domain
/// ends with the one it names.
pub open spec fn spec_domain_matches(c: CookieView, domain: Seq<char>) -> bool {
    match c.domain {
        Some(d) => seq_ends_with(domain, d),
        None => true,
    }
}

/// `name=value` pairs joined by `; `.
pub open spec fn join_pairs(cs: Seq<CookieView>) -> Seq<char>
    decreases cs.len(),
{
    if cs.len() == 0 {
        Seq::empty()
    } else if cs.len() == 1 {
        spec_cookie_pair(cs.first())
    } else {
        spec_cookie_pair(cs.first()) + "; "@ + join_pairs(cs.drop_first())
    }
}

proof fn lemma_join_pairs_push(cs: Seq<CookieView>, c: CookieView)
    ensures
        cs.len() == 0 ==> join_pairs(cs.push(c)) == spec_cookie_pair(c),
        cs.len() > 0 ==> join_pairs(cs.push(c)) == join_pairs(cs) + "; "@ + spec_cookie_pair(c),
    decreases cs.len(),
{
    if cs.len() == 0 {
        assert(cs.push(c).first() == c);
    } else {
        assert(cs.push(c).drop_first() =~= cs.drop_first().push(c));
        lemma_join_pairs_push(cs.drop_first(), c);
        if cs.len() == 1 {
            assert(join_pairs(cs.push(c)) == spec_cookie_pair(cs.first()) + "; "@
                + spec_cookie_pair(c));
        } else {
            assert(spec_cookie_pair(cs.first()) + "; "@ + (join_pairs(cs.drop_first()) + "; "@
                + spec_cookie_pair(c)) =~= (spec_cookie_pair(cs.first()) + "; "@ + join_pairs(
                cs.drop_first(),
            )) + "; "@ + spec_cookie_pair(c));
        }
    }
}

/// The jar a list of response headers leaves behind: each `Set-Cookie`
/// value that parses is stored under its cookie's name, later ones
/// winning.
pub open spec fn jar_prefix(
    m0: Map<Seq<char>, CookieView>,
    hs: Seq<(Seq<char>, Seq<char>)>,
    i: int,
) -> Map<Seq<char>, CookieView>
    decreases i,
{
    if i <= 0 {
        m0
    } else {
        let m = jar_prefix(m0, hs, i - 1);
        if seq_eq_ignore_ascii_case(hs[i - 1].0, "set-cookie"@) && spec_cookie_from_header(
            hs[i - 1].1,
        ) is Some {
            m.insert(
                spec_cookie_from_header(hs[i - 1].1)->0.name,
                spec_cookie_from_header(hs[i - 1].1)->0,
            )
        } else {
            m
        }
    }
}

/// Cookie jar for managing multiple cookies, one per name.
#[derive(Debug)]
pub struct CookieJar {
    cookies: AssocMap<Cookie>,
}

impl CookieJar {
    /// The stored cookies, by name.
    pub closed spec fn jar(&self) -> Map<Seq<char>, CookieView> {
        self.cookies@
    }

    /// The stored entries, in insertion order.
    pub closed spec fn jar_seq(&self) -> Seq<(String, Cookie)> {
        self.cookies.seq()
    }

    pub closed spec fn wf(&self) -> bool {
        self.cookies.wf()
    }

    /// Create an empty jar.
    pub fn new() -> (r: Self)
        ensures
            r.wf(),
            r.jar() =~= Map::<Seq<char>, CookieView>::empty(),
            r.jar_seq() == Seq::<(String, Cookie)>::empty(),
    {
        CookieJar { cookies: AssocMap::new() }
    }

    /// Store a cookie under its name; an earlier one of the same name
    /// is replaced.
    pub fn add(&mut self, cookie: Cookie)
        requires
            old(self).wf(),
        ensures
            final(self).wf(),
            final(self).jar() =~= old(self).jar().insert(cookie@.name, cookie@),
    {
        let name = cookie.name.clone();
        self.cookies.insert(name, cookie);
    }

    /// Look a cookie up by name.
    pub fn get(&self, name: &str) -> (r: Option<&Cookie>)
        requires
            self.wf(),
        ensures
            match r {
                Some(c) => self.jar().contains_key(name@) && c@ == self.jar()[name@],
                None => !self.jar().contains_key(name@),
            },
    {
        self.cookies.get(name)
    }

    /// Remove a cookie by name.
    pub fn remove(&mut self, name: &str) -> (r: Option<Cookie>)
        requires
            old(self).wf(),
        ensures
            final(self).wf(),
            final(self).jar() =~= old(self).jar().remove(name@),
            r is Some <==> old(self).jar().contains_key(name@),
    {
        self.cookies.remove(name)
    }

    /// Drop every cookie that has expired by the given moment.
    pub fn remove_expired(&mut self, now_ms: i64)
        requires
            old(self).wf(),
        ensures
            final(self).wf(),
            forall|k: Seq<char>|
                #[trigger] final(self).jar().contains_key(k) == (old(self).jar().contains_key(k)
                    && !spec_cookie_expired(old(self).jar()[k], now_ms)),
            forall|k: Seq<char>|
                #[trigger] final(self).jar().contains_key(k) ==> final(self).jar()[k] == old(
                    self,
                ).jar()[k],
    {
        let mut kept: AssocMap<Cookie> = AssocMap::new();
        let n = self.cookies.entries().len();
        let mut i: usize = 0;
        while i < n
            invariant
                old(self).wf(),
                self.cookies == old(self).cookies,
                n == self.cookies.seq().len(),
                0 <= i <= n,
                kept.wf(),
                forall|k: Seq<char>|
                    #[trigger] kept@.contains_key(k) ==> (old(self).jar().contains_key(k)
                        && kept@[k] == old(self).jar()[k] && !spec_cookie_expired(
                        old(self).jar()[k],
                        now_ms,
                    )),
                forall|j: int|
                    0 <= j < i && old(self).jar().contains_key(
                        (#[trigger] self.cookies.seq()[j]).0@,
                    ) && !spec_cookie_expired(self.cookies.seq()[j].1@, now_ms)
                        ==> kept@.contains_key(self.cookies.seq()[j].0@),
            decreases n - i,
        {
            proof {
                self.cookies.lemma_entry_in_view(i as int);
            }
            let entry_name = self.cookies.entries()[i].0.clone();
            let entry_cookie = self.cookies.entries()[i].1.duplicate();
            if !entry_cookie.is_expired(now_ms) {
                kept.insert(entry_name, entry_cookie);
            }
            i += 1;
        }
        proof {
            assert forall|k: Seq<char>|
                old(self).jar().contains_key(k) && !spec_cookie_expired(
                    old(self).jar()[k],
                    now_ms,
                ) implies #[trigger] kept@.contains_key(k) by {
                self.cookies.lemma_view_key(k);
                let j = choose|j: int|
                    0 <= j < self.cookies.seq().len() && (#[trigger] self.cookies.seq()[j]).0@
                        == k;
                self.cookies.lemma_entry_in_view(j);
                assert(kept@.contains_key(self.cookies.seq()[j].0@));
            }
        }
        self.cookies = kept;
    }

    /// All cookies, in insertion order.
    pub fn all(&self) -> (r: Vec<Cookie>)
        requires
            self.wf(),
        ensures
            r.deep_view() == cookie_views(self.jar_seq()),
    {
        let entries = self.cookies.entries();
        let n = entries.len();
        let mut out: Vec<Cookie> = Vec::new();
        let mut i: usize = 0;
        while i < n
            invariant
                n == entries@.len(),
                entries@ == self.jar_seq(),
                0 <= i <= n,
                out.deep_view().len() == i,
                forall|j: int|
                    0 <= j < i ==> #[trigger] out.deep_view()[j] == self.jar_seq()[j].1@,
            decreases n - i,
        {
            let ghost before = out.deep_view();
            out.push(entries[i].1.duplicate());
            proof {
                assert(out.deep_view() =~= before.push(self.jar_seq()[i as int].1@));
            }
            i += 1;
        }
        proof {
            assert(out.deep_view() =~= cookie_views(self.jar_seq()));
        }
        out
    }

    /// The cookies that apply to a domain, in insertion order.
    pub fn for_domain(&self, domain: &str) -> (r: Vec<Cookie>)
        requires
            self.wf(),
        ensures
            r.deep_view() == cookie_views(self.jar_seq()).filter(
                |c: CookieView| spec_domain_matches(c, domain@),
            ),
    {
        let entries = self.cookies.entries();
        let n = entries.len();
        let ghost cv = cookie_views(self.jar_seq());
        let mut out: Vec<Cookie> = Vec::new();
        let mut i: usize = 0;
        proof {
            assert(cv.take(0) =~= Seq::<CookieView>::empty());
            assert(cv.take(0).filter(|c: CookieView| spec_domain_matches(c, domain@))
                =~= Seq::<CookieView>::empty());
            assert(out.deep_view() =~= Seq::<CookieView>::empty());
        }
        while i < n
            invariant
                n == entries@.len(),
                entries@ == self.jar_seq(),
                cv == cookie_views(self.jar_seq()),
                cv.len() == n,
                0 <= i <= n,
                out.deep_view() =~= cv.take(i as int).filter(
                    |c: CookieView| spec_domain_matches(c, domain@),
                ),
            decreases n - i,
        {
            let ghost prefix = cv.take(i as int);
            proof {
                assert(cv.take(i + 1).drop_last() =~= prefix);
                assert(cv.take(i + 1).last() == cv[i as int]);
                assert(cv[i as int] == entries@[i as int].1@);
                reveal_with_fuel(Seq::filter, 2);
            }
            let keeps = match &entries[i].1.domain {
                Some(d) => str_ends_with(domain, d.as_str()),
                None => true,
            };
            if keeps {
                let ghost before = out.deep_view();
                out.push(entries[i].1.duplicate());
                proof {
                    assert(out.deep_view() =~= before.push(cv[i as int]));
                }
            }
            proof {
                assert(out.deep_view() =~= cv.take(i + 1).filter(
                    |c: CookieView| spec_domain_matches(c, domain@),
                ));
            }
            i += 1;
        }
        proof {
            assert(cv.take(n as int) =~= cv);
        }
        out
    }

    /// The `Cookie` header value for a request to a domain: the
    /// applicable cookies' pairs joined by `; `, or nothing when none
    /// applies.
    pub fn cookie_header(&self, domain: &str) -> (r: Option<String>)
        requires
            self.wf(),
        ensures
            ({
                let kept = cookie_views(self.jar_seq()).filter(
                    |c: CookieView| spec_domain_matches(c, domain@),
                );
                match r {
                    Some(line) => kept.len() > 0 && line@ == join_pairs(kept),
                    None => kept.len() == 0,
                }
            }),
    {
        let cookies = self.for_domain(domain);
        let n = cookies.len();
        if n == 0 {
            proof {
                assert(cookies.deep_view().len() == 0);
            }
            return None;
        }
        let ghost kept = cookies.deep_view();
        let mut out = String::new();
        let mut i: usize = 0;
        proof {
            assert(kept.take(0) =~= Seq::<CookieView>::empty());
            assert(out@ =~= join_pairs(kept.take(0)));
        }
        while i < n
            invariant
                n == cookies@.len(),
                kept == cookies.deep_view(),
                kept.len() == n,
                0 <= i <= n,
                out@ == join_pairs(kept.take(i as int)),
            decreases n - i,
        {
            let ghost prefix = kept.take(i as int);
            proof {
                assert(kept.take(i + 1) =~= prefix.push(kept[i as int]));
                assert(kept[i as int] == cookies@[i as int]@);
                lemma_join_pairs_push(prefix, kept[i as int]);
            }
            if i > 0 {
                out.append("; ");
            }
            let pair = cookies[i].to_header();
            out.append(pair.as_str());
            proof {
                assert(out@ =~= join_pairs(kept.take(i + 1)));
            }
            i += 1;
        }
        proof {
            assert(kept.take(n as int) =~= kept);
        }
        Some(out)
    }

    /// Store every cookie the given response headers set.
    pub fn add_from_headers(&mut self, headers: &Vec<(String, String)>)
        requires
            old(self).wf(),
        ensures
            final(self).wf(),
            final(self).jar() =~= jar_prefix(
                old(self).jar(),
                header_views(headers@),
                headers@.len() as int,
            ),
    {
        let n = headers.len();
        let ghost hv = header_views(headers@);
        let mut i: usize = 0;
        proof {
            assert(self.jar() =~= jar_prefix(old(self).jar(), hv, 0));
        }
        while i < n
            invariant
                old(self).wf(),
                n == headers@.len(),
                hv == header_views(headers@),
                hv.len() == n,
                0 <= i <= n,
                self.wf(),
                self.jar() =~= jar_prefix(old(self).jar(), hv, i as int),
            decreases n - i,
        {
            proof {
                assert(hv[i as int] == (headers@[i as int].0@, headers@[i as int].1@));
            }
            if str_eq_ignore_ascii_case(headers[i].0.as_str(), "set-cookie") {
                match Cookie::from_header(headers[i].1.as_str()) {
                    Some(cookie) => {
                        self.add(cookie);
                    },
                    None => {},
                }
            }
            proof {
                assert(self.jar() =~= jar_prefix(old(self).jar(), hv, i + 1));
            }
            i += 1;
        }
    }
}

impl Default for CookieJar {
    fn default() -> Self {
        CookieJar::new()
    }
}

/// The viewed header pairs, in order.
pub open spec fn header_views(hs: Seq<(String, String)>) -> Seq<(Seq<char>, Seq<char>)> {
    Seq::new(hs.len(), |i: int| (hs[i].0@, hs[i].1@))
}

} // verus!
