//! A JSON value held as plain data, and its mathematical view.

use vstd::prelude::*;

verus! {

broadcast use vstd::std_specs::vec::group_vec_axioms, vstd::seq::group_seq_axioms;

/// A JSON value. A number is kept as the text of its literal.
#[derive(Debug)]
pub enum Json {
    Null,
    Bool(bool),
    Number(String),
    Str(String),
    Array(Vec<Json>),
    Object(Vec<(String, Json)>),
}

/// The mathematical counterpart of a `Json` value.
pub enum JsonView {
    Null,
    Bool(bool),
    Number(Seq<char>),
    Str(Seq<char>),
    Array(Seq<JsonView>),
    Object(Seq<(Seq<char>, JsonView)>),
}

impl View for Json {
    type V = JsonView;

    open spec fn view(&self) -> JsonView {
        view_of(*self)
    }
}

/// Views a `Json` value, element by element.
pub open spec fn view_of(j: Json) -> JsonView
    decreases j, 0nat,
{
    match j {
        Json::Null => JsonView::Null,
        Json::Bool(b) => JsonView::Bool(b),
        Json::Number(n) => JsonView::Number(n@),
        Json::Str(s) => JsonView::Str(s@),
        Json::Array(v) => JsonView::Array(items_view(v@, v@.len())),
        Json::Object(v) => JsonView::Object(entries_view(v@, v@.len())),
    }
}

/// Views the first `n` items of an array.
pub open spec fn items_view(s: Seq<Json>, n: nat) -> Seq<JsonView>
    decreases s, n,
{
    if n == 0 || n > s.len() {
        Seq::empty()
    } else {
        items_view(s, (n - 1) as nat).push(view_of(s[n - 1]))
    }
}

/// Views the first `n` members of an object.
pub open spec fn entries_view(s: Seq<(String, Json)>, n: nat) -> Seq<(Seq<char>, JsonView)>
    decreases s, n,
{
    if n == 0 || n > s.len() {
        Seq::empty()
    } else {
        entries_view(s, (n - 1) as nat).push((s[n - 1].0@, view_of(s[n - 1].1)))
    }
}

/// Views all members of an object.
pub open spec fn members_view(s: Seq<(String, Json)>) -> Seq<(Seq<char>, JsonView)> {
    entries_view(s, s.len())
}

/// Each member is viewed in its place.
pub proof fn lemma_entries_view(s: Seq<(String, Json)>, n: nat)
    requires
        n <= s.len(),
    ensures
        entries_view(s, n).len() == n,
        forall|i: int|
            0 <= i < n ==> #[trigger] entries_view(s, n)[i] == (s[i].0@, view_of(s[i].1)),
    decreases n,
{
    if n > 0 {
        lemma_entries_view(s, (n - 1) as nat);
    }
}

/// Each member is viewed in its place, over the whole object.
pub proof fn lemma_members_view(s: Seq<(String, Json)>)
    ensures
        members_view(s).len() == s.len(),
        forall|i: int|
            0 <= i < s.len() ==> #[trigger] members_view(s)[i] == (s[i].0@, view_of(s[i].1)),
{
    lemma_entries_view(s, s.len());
}

/// Each item of an array is viewed in its place.
pub proof fn lemma_items_view(s: Seq<Json>, n: nat)
    requires
        n <= s.len(),
    ensures
        items_view(s, n).len() == n,
        forall|i: int| 0 <= i < n ==> #[trigger] items_view(s, n)[i] == view_of(s[i]),
    decreases n,
{
    if n > 0 {
        lemma_items_view(s, (n - 1) as nat);
    }
}

} // verus!
