//! Setting the browser's start page in its preferences document.

use crate::json::{items_view, lemma_members_view, members_view, Json, JsonView};
use vstd::prelude::*;

verus! {

/// A part of the preferences document that the mutation needs.
#[derive(Clone, Copy, Debug, PartialEq, Eq, Structural)]
pub enum Section {
    Preferences,
    Session,
}

/// Why the configuration could not be applied.
#[derive(Clone, Copy, Debug, PartialEq, Eq, Structural)]
pub enum Error {
    /// The user's home directory is unknown.
    HomeNotFound,
    /// The section is present but is not a JSON object.
    NotAJsonObject(Section),
    /// The section is missing.
    KeyNotFound(Section),
}

/// The name of a section, as error messages give it.
pub open spec fn section_name(s: Section) -> Seq<char> {
    match s {
        Section::Preferences => "preferences"@,
        Section::Session => "session"@,
    }
}

/// The text that describes an error.
pub open spec fn error_text(e: Error) -> Seq<char> {
    match e {
        Error::HomeNotFound => "home directory not found"@,
        Error::NotAJsonObject(s) => "not a JSON object: "@ + section_name(s),
        Error::KeyNotFound(s) => "JSON key not found: "@ + section_name(s),
    }
}

impl Section {
    /// The name of the section.
    pub fn name(&self) -> (r: &'static str)
        ensures
            r@ == section_name(*self),
    {
        match self {
            Section::Preferences => "preferences",
            Section::Session => "session",
        }
    }
}

impl Error {
    /// Describes the error for the operator.
    pub fn message(&self) -> (r: String)
        ensures
            r@ == error_text(*self),
    {
        match self {
            Error::HomeNotFound => String::from_str("home directory not found"),
            Error::NotAJsonObject(s) => {
                let mut r = String::from_str("not a JSON object: ");
                r.append(s.name());
                r
            },
            Error::KeyNotFound(s) => {
                let mut r = String::from_str("JSON key not found: ");
                r.append(s.name());
                r
            },
        }
    }
}

/// `i` is the first position of a member named `k`.
pub open spec fn is_first_key(s: Seq<(Seq<char>, JsonView)>, k: Seq<char>, i: int) -> bool {
    &&& 0 <= i < s.len()
    &&& s[i].0 == k
    &&& forall|j: int| 0 <= j < i ==> #[trigger] s[j].0 != k
}

/// The object has a member named `k`.
pub open spec fn has_key(s: Seq<(Seq<char>, JsonView)>, k: Seq<char>) -> bool {
    exists|i: int| is_first_key(s, k, i)
}

/// The first position of a member named `k`, where there is one.
pub open spec fn key_index(s: Seq<(Seq<char>, JsonView)>, k: Seq<char>) -> int {
    choose|i: int| is_first_key(s, k, i)
}

/// The value of the member named `k`.
pub open spec fn get_member(s: Seq<(Seq<char>, JsonView)>, k: Seq<char>) -> Option<JsonView> {
    if has_key(s, k) {
        Some(s[key_index(s, k)].1)
    } else {
        None
    }
}

/// The object with member `k` set to `v`: replaced in place where it is
/// present, added at the end where it is not.
pub open spec fn put_member(s: Seq<(Seq<char>, JsonView)>, k: Seq<char>, v: JsonView) -> Seq<
    (Seq<char>, JsonView),
> {
    if has_key(s, k) {
        s.update(key_index(s, k), (k, v))
    } else {
        s.push((k, v))
    }
}

/// The member of the document that holds the browser session settings.
pub open spec fn session_key() -> Seq<char> {
    "session"@
}

/// The member of the session settings that lists the start pages.
pub open spec fn startup_urls_key() -> Seq<char> {
    "startup_urls"@
}

/// The start page list that holds exactly `url`.
pub open spec fn startup_list(url: Seq<char>) -> JsonView {
    JsonView::Array(seq![JsonView::Str(url)])
}

/// The preferences document `doc` with its start page list set to exactly
/// `url`, or the reason why that cannot be done.
pub open spec fn applied(doc: JsonView, url: Seq<char>) -> Result<JsonView, Error> {
    match doc {
        JsonView::Object(top) => match get_member(top, session_key()) {
            None => Err(Error::KeyNotFound(Section::Session)),
            Some(JsonView::Object(session)) => Ok(
                JsonView::Object(
                    put_member(
                        top,
                        session_key(),
                        JsonView::Object(put_member(session, startup_urls_key(), startup_list(url))),
                    ),
                ),
            ),
            Some(_) => Err(Error::NotAJsonObject(Section::Session)),
        },
        _ => Err(Error::NotAJsonObject(Section::Preferences)),
    }
}

/// Only one position is the first of a key.
pub proof fn lemma_first_key_unique(s: Seq<(Seq<char>, JsonView)>, k: Seq<char>, i: int, j: int)
    requires
        is_first_key(s, k, i),
        is_first_key(s, k, j),
    ensures
        i == j,
{
    if i < j {
        assert(s[i].0 != k);
    } else if j < i {
        assert(s[j].0 != k);
    }
}

/// A member named `k` at position `j` means the object has a member `k`.
pub proof fn lemma_has_key(s: Seq<(Seq<char>, JsonView)>, k: Seq<char>, j: int)
    requires
        0 <= j < s.len(),
        s[j].0 == k,
    ensures
        has_key(s, k),
    decreases j,
{
    if exists|i: int| 0 <= i < j && #[trigger] s[i].0 == k {
        let i = choose|i: int| 0 <= i < j && #[trigger] s[i].0 == k;
        lemma_has_key(s, k, i);
    } else {
        assert(is_first_key(s, k, j));
    }
}

/// Whether `j` is the first position of `k` depends on the names up to `j` alone.
pub proof fn lemma_first_key_same_names(
    s: Seq<(Seq<char>, JsonView)>,
    t: Seq<(Seq<char>, JsonView)>,
    k: Seq<char>,
    j: int,
)
    requires
        0 <= j < s.len(),
        j < t.len(),
        forall|i: int| 0 <= i <= j ==> #[trigger] s[i].0 == t[i].0,
    ensures
        is_first_key(s, k, j) == is_first_key(t, k, j),
{
    if is_first_key(s, k, j) {
        assert forall|i: int| 0 <= i < j implies #[trigger] t[i].0 != k by {
            assert(s[i].0 == t[i].0);
        }
    }
    if is_first_key(t, k, j) {
        assert forall|i: int| 0 <= i < j implies #[trigger] s[i].0 != k by {
            assert(s[i].0 == t[i].0);
        }
    }
}

/// Reading a member after setting one: the member set has its new value,
/// every other member keeps its old one.
pub proof fn lemma_get_after_put(
    s: Seq<(Seq<char>, JsonView)>,
    k: Seq<char>,
    v: JsonView,
    k2: Seq<char>,
)
    ensures
        get_member(put_member(s, k, v), k2) == if k2 == k {
            Some(v)
        } else {
            get_member(s, k2)
        },
{
    let s1 = put_member(s, k, v);
    if has_key(s, k) {
        let i = key_index(s, k);
        assert(forall|j: int| 0 <= j < s.len() ==> #[trigger] s1[j].0 == s[j].0);
        assert forall|j: int| is_first_key(s1, k2, j) <==> is_first_key(s, k2, j) by {
            if 0 <= j < s.len() {
                lemma_first_key_same_names(s1, s, k2, j);
            }
        }
        if has_key(s1, k2) {
            lemma_first_key_unique(s, k2, key_index(s1, k2), key_index(s, k2));
            if k2 == k {
                lemma_first_key_unique(s, k, i, key_index(s, k2));
            }
        }
    } else {
        let n = s.len() as int;
        if k2 == k {
            assert forall|j: int| 0 <= j < n implies #[trigger] s1[j].0 != k by {
                if s1[j].0 == k {
                    lemma_has_key(s, k, j);
                }
            }
            assert(is_first_key(s1, k, n));
            lemma_first_key_unique(s1, k, n, key_index(s1, k));
        } else {
            assert(s1 == s.push((k, v)));
            assert forall|j: int| is_first_key(s1, k2, j) <==> is_first_key(s, k2, j) by {
                assert(forall|i: int| 0 <= i < n ==> #[trigger] s1[i] == s[i]);
                assert(s1[n].0 == k);
                if 0 <= j < n {
                    lemma_first_key_same_names(s1, s, k2, j);
                }
            }
            if has_key(s1, k2) {
                lemma_first_key_unique(s, k2, key_index(s1, k2), key_index(s, k2));
            }
        }
    }
}

/// Setting a member to the value it was just set to changes nothing.
pub proof fn lemma_put_twice(s: Seq<(Seq<char>, JsonView)>, k: Seq<char>, v: JsonView)
    ensures
        put_member(put_member(s, k, v), k, v) == put_member(s, k, v),
{
    let s1 = put_member(s, k, v);
    lemma_get_after_put(s, k, v, k);
    let i = key_index(s1, k);
    assert(s1.update(i, (k, v)) =~= s1);
}

/// Finds the first member named `key`.
fn find_key(members: &Vec<(String, Json)>, key: &String) -> (r: Option<usize>)
    ensures
        match r {
            Some(i) => is_first_key(members_view(members@), key@, i as int) && key_index(
                members_view(members@),
                key@,
            ) == i,
            None => !has_key(members_view(members@), key@),
        },
{
    proof {
        lemma_members_view(members@);
    }
    let ghost mv = members_view(members@);
    let mut i: usize = 0;
    while i < members.len()
        invariant
            mv == members_view(members@),
            mv.len() == members@.len(),
            forall|j: int|
                0 <= j < members@.len() ==> #[trigger] mv[j] == (members@[j].0@, members@[j].1@),
            i <= members@.len(),
            forall|j: int| 0 <= j < i ==> #[trigger] mv[j].0 != key@,
        decreases members@.len() - i,
    {
        if members[i].0 == *key {
            proof {
                assert(is_first_key(mv, key@, i as int));
                lemma_first_key_unique(mv, key@, i as int, key_index(mv, key@));
            }
            return Some(i);
        }
        i = i + 1;
    }
    proof {
        if has_key(mv, key@) {
            let j = choose|j: int| is_first_key(mv, key@, j);
            assert(mv[j].0 != key@);
        }
    }
    None
}

/// Sets member `key` of an object to `value`.
fn put(members: &mut Vec<(String, Json)>, key: String, value: Json)
    ensures
        members_view(final(members)@) == put_member(members_view(old(members)@), key@, value@),
{
    proof {
        lemma_members_view(members@);
    }
    let ghost k = key@;
    let ghost v = value@;
    match find_key(members, &key) {
        Some(i) => {
            members.set(i, (key, value));
        },
        None => {
            members.push((key, value));
        },
    }
    proof {
        lemma_members_view(members@);
        assert(members_view(members@) =~= put_member(members_view(old(members)@), k, v));
    }
}

/// Where the preferences document lies below the home directory.
pub open spec fn preferences_suffix() -> Seq<char> {
    "/.config/chromium/Default/Preferences"@
}

/// The path of the preferences document below the user's home directory,
/// or `HomeNotFound` where that directory is unknown.
pub fn preferences_path(home: Option<String>) -> (r: Result<String, Error>)
    ensures
        match home {
            Some(h) => r matches Ok(p) && p@ == h@ + preferences_suffix(),
            None => r == Err::<String, Error>(Error::HomeNotFound),
        },
{
    match home {
        Some(h) => Ok(h.concat("/.config/chromium/Default/Preferences")),
        None => Err(Error::HomeNotFound),
    }
}

/// The file that a new version of the document at `path` is written to
/// before it is renamed over `path`, so that `path` never holds half a
/// document.
pub fn staging_path(path: &str) -> (r: String)
    ensures
        r@ == path@ + ".tmp"@,
{
    path.to_owned().concat(".tmp")
}

/// The start page configuration pushed by the fleet manager.
#[derive(Debug)]
pub struct Config {
    url: String,
}

impl View for Config {
    type V = Seq<char>;

    /// The start page URL.
    closed spec fn view(&self) -> Seq<char> {
        self.url@
    }
}

impl Config {
    pub fn new(url: String) -> (r: Config)
        ensures
            r@ == url@,
    {
        Config { url }
    }

    /// The start page URL.
    pub fn url(&self) -> (r: &str)
        ensures
            r@ == self@,
    {
        self.url.as_str()
    }

    /// Sets the start page list of the `preferences` document to exactly
    /// this URL and leaves everything else as it was. Fails, saying which
    /// part is wrong, where the document is not an object or its "session"
    /// member is missing or not an object.
    pub fn apply(&self, preferences: Json) -> (r: Result<Json, Error>)
        ensures
            match r {
                Ok(d) => applied(preferences@, self@) == Ok::<JsonView, Error>(d@),
                Err(e) => applied(preferences@, self@) == Err::<JsonView, Error>(e),
            },
    {
        let ghost doc = preferences@;
        match preferences {
            Json::Object(mut top) => {
                let name = String::from_str("session");
                match find_key(&top, &name) {
                    None => Err(Error::KeyNotFound(Section::Session)),
                    Some(i) => {
                        proof {
                            lemma_members_view(top@);
                        }
                        let ghost old_top = top@;
                        let (key, value) = top.remove(i);
                        match value {
                            Json::Object(mut session) => {
                                let list = Json::Array(vec![Json::Str(self.url.clone())]);
                                proof {
                                    lemma_startup_list_view(list, self@);
                                }
                                put(&mut session, String::from_str("startup_urls"), list);
                                let ghost new_session = session@;
                                top.insert(i, (key, Json::Object(session)));
                                proof {
                                    assert(top@ =~= old_top.update(i as int, top@[i as int]));
                                    lemma_members_view(top@);
                                    assert(members_view(top@) =~= put_member(
                                        members_view(old_top),
                                        session_key(),
                                        JsonView::Object(members_view(new_session)),
                                    ));
                                }
                                Ok(Json::Object(top))
                            },
                            _ => Err(Error::NotAJsonObject(Section::Session)),
                        }
                    },
                }
            },
            _ => Err(Error::NotAJsonObject(Section::Preferences)),
        }
    }
}

/// The members of a document that is an object.
pub open spec fn members_of(doc: JsonView) -> Seq<(Seq<char>, JsonView)> {
    match doc {
        JsonView::Object(top) => top,
        _ => Seq::empty(),
    }
}

/// The members of the "session" object of a document.
pub open spec fn session_of(doc: JsonView) -> Seq<(Seq<char>, JsonView)> {
    match get_member(members_of(doc), session_key()) {
        Some(JsonView::Object(session)) => session,
        _ => Seq::empty(),
    }
}

/// Applying a start page to a document with a "session" object succeeds;
/// applying it a second time gives the same document as applying it once; and
/// the result differs from the document only in the start page list.
pub proof fn lemma_apply_idempotent(doc: JsonView, url: Seq<char>)
    requires
        doc matches JsonView::Object(top) && get_member(top, session_key()) matches Some(
            JsonView::Object(_),
        ),
    ensures
        applied(doc, url) is Ok,
        applied(applied(doc, url)->Ok_0, url) == applied(doc, url),
        forall|k: Seq<char>|
            k != session_key() ==> #[trigger] get_member(members_of(applied(doc, url)->Ok_0), k)
                == get_member(members_of(doc), k),
        forall|k: Seq<char>|
            k != startup_urls_key() ==> #[trigger] get_member(
                session_of(applied(doc, url)->Ok_0),
                k,
            ) == get_member(session_of(doc), k),
        get_member(session_of(applied(doc, url)->Ok_0), startup_urls_key()) == Some(
            startup_list(url),
        ),
{
    let top = members_of(doc);
    let session = session_of(doc);
    let new_session = put_member(session, startup_urls_key(), startup_list(url));
    let new_top = put_member(top, session_key(), JsonView::Object(new_session));
    assert(applied(doc, url) == Ok::<JsonView, Error>(JsonView::Object(new_top)));
    lemma_get_after_put(top, session_key(), JsonView::Object(new_session), session_key());
    lemma_put_twice(session, startup_urls_key(), startup_list(url));
    lemma_put_twice(top, session_key(), JsonView::Object(new_session));
    lemma_get_after_put(session, startup_urls_key(), startup_list(url), startup_urls_key());
    assert forall|k: Seq<char>| k != session_key() implies #[trigger] get_member(new_top, k)
        == get_member(top, k) by {
        lemma_get_after_put(top, session_key(), JsonView::Object(new_session), k);
    }
    assert forall|k: Seq<char>| k != startup_urls_key() implies #[trigger] get_member(
        new_session,
        k,
    ) == get_member(session, k) by {
        lemma_get_after_put(session, startup_urls_key(), startup_list(url), k);
    }
}

/// A document without a "session" member is refused with an error that
/// names that member.
pub proof fn lemma_missing_session(doc: JsonView, url: Seq<char>)
    requires
        doc matches JsonView::Object(top) && !has_key(top, session_key()),
    ensures
        applied(doc, url) == Err::<JsonView, Error>(Error::KeyNotFound(Section::Session)),
{
}

proof fn lemma_startup_list_view(list: Json, url: Seq<char>)
    requires
        list matches Json::Array(v) && (v@.len() == 1 && (v@[0] matches Json::Str(s) && s@ == url)),
    ensures
        list@ == startup_list(url),
{
    if let Json::Array(v) = list {
        reveal_with_fuel(items_view, 2);
        assert(items_view(v@, 1) =~= seq![JsonView::Str(url)]);
    }
}

} // verus!
