//! JSON values.
use vstd::prelude::*;

use crate::duplicate::lemma_push;
use crate::text::same;

verus! {

/// A JSON value. Objects keep their members in order; a floating-point number is kept as its bits.
#[derive(Debug, PartialEq, Eq)]
pub enum Json {
    Null,
    Bool(bool),
    UInt(u64),
    Int(i64),
    Float(u64),
    Str(String),
    Arr(Vec<Json>),
    Obj(Vec<(String, Json)>),
}

#[verifier::ext_equal]
pub enum JsonView {
    Null,
    Bool(bool),
    UInt(u64),
    Int(i64),
    Float(u64),
    Str(Seq<char>),
    Arr(Seq<JsonView>),
    Obj(Seq<(Seq<char>, JsonView)>),
}

impl DeepView for Json {
    type V = JsonView;

    open spec fn deep_view(&self) -> JsonView
        decreases self,
    {
        match self {
            Json::Null => JsonView::Null,
            Json::Bool(b) => JsonView::Bool(*b),
            Json::UInt(n) => JsonView::UInt(*n),
            Json::Int(n) => JsonView::Int(*n),
            Json::Float(n) => JsonView::Float(*n),
            Json::Str(s) => JsonView::Str(s@),
            Json::Arr(v) => JsonView::Arr(
                Seq::new(
                    v@.len(),
                    |i: int|
                        if 0 <= i < v@.len() {
                            v@[i].deep_view()
                        } else {
                            JsonView::Null
                        },
                ),
            ),
            Json::Obj(v) => JsonView::Obj(
                Seq::new(
                    v@.len(),
                    |i: int|
                        if 0 <= i < v@.len() {
                            (v@[i].0@, v@[i].1.deep_view())
                        } else {
                            (Seq::empty(), JsonView::Null)
                        },
                ),
            ),
        }
    }
}

/// The members of an object.
pub open spec fn members(o: Seq<(String, Json)>) -> Seq<(Seq<char>, JsonView)> {
    Seq::new(
        o.len(),
        |i: int|
            if 0 <= i < o.len() {
                (o[i].0@, o[i].1.deep_view())
            } else {
                (Seq::empty(), JsonView::Null)
            },
    )
}

pub open spec fn member_from(
    o: Seq<(Seq<char>, JsonView)>,
    key: Seq<char>,
    i: int,
) -> Option<JsonView>
    decreases o.len() - i,
{
    if i < 0 || i >= o.len() {
        None
    } else if o[i].0 == key {
        Some(o[i].1)
    } else {
        member_from(o, key, i + 1)
    }
}

/// The value of the first member with a key.
pub open spec fn member(o: Seq<(Seq<char>, JsonView)>, key: Seq<char>) -> Option<JsonView> {
    member_from(o, key, 0)
}

pub fn find_member<'a>(o: &'a Vec<(String, Json)>, key: &str) -> (r: Option<&'a Json>)
    ensures
        r.deep_view() == member(members(o@), key@),
{
    let ghost all = members(o@);
    let mut i: usize = 0;
    while i < o.len()
        invariant
            i <= o.len(),
            all == members(o@),
            member_from(all, key@, 0) == member_from(all, key@, i as int),
        decreases o.len() - i,
    {
        if same(o[i].0.as_str(), key) {
            return Some(&o[i].1);
        }
        i += 1;
    }
    None
}

impl Json {
    /// The value of a member; none where this is no object or has no such member.
    pub fn get(&self, key: &str) -> (r: Option<&Json>)
        ensures
            r.deep_view() == (match self.deep_view() {
                JsonView::Obj(o) => member(o, key@),
                _ => None,
            }),
    {
        match self {
            Json::Obj(o) => {
                proof {
                    reveal_with_fuel(<Json as DeepView>::deep_view, 2);
                    assert(self.deep_view()->Obj_0 =~= members(o@));
                }
                find_member(o, key)
            },
            _ => None,
        }
    }
}

// ── Building ────────────────────────────────────────────────────────────────

pub open spec fn no_members() -> Seq<(Seq<char>, JsonView)> {
    Seq::empty()
}

pub open spec fn no_elements() -> Seq<JsonView> {
    Seq::empty()
}

/// The members of an object that is being built.
#[derive(Debug, PartialEq, Eq)]
pub struct Members {
    pub items: Vec<(String, Json)>,
}

impl View for Members {
    type V = Seq<(Seq<char>, JsonView)>;

    open spec fn view(&self) -> Seq<(Seq<char>, JsonView)> {
        members(self.items@)
    }
}

impl Members {
    pub fn new() -> (r: Members)
        ensures
            r@ == no_members(),
    {
        let r: Members = Members { items: Vec::new() };
        assert(r@ =~= Seq::<(Seq<char>, JsonView)>::empty());
        r
    }

    /// The object with one more member.
    pub fn with(self, key: &str, value: Json) -> (r: Members)
        ensures
            r@ == self@.push((key@, value.deep_view())),
    {
        let ghost before = self@;
        let mut items: Vec<(String, Json)> = self.items;
        items.push((key.to_owned(), value));
        let r: Members = Members { items };
        assert(r@ =~= before.push((key@, value.deep_view())));
        r
    }

    pub fn with_text(self, key: &str, value: &str) -> (r: Members)
        ensures
            r@ == self@.push((key@, JsonView::Str(value@))),
    {
        self.with(key, Json::Str(value.to_owned()))
    }

    pub fn with_opt(self, key: &str, value: &Option<String>) -> (r: Members)
        ensures
            r@ == self@.push((key@, text_or_null(value.deep_view()))),
    {
        self.with(key, opt_text(value))
    }

    /// The object with a member set: in place where the key is there, else at the end.
    pub fn set(self, key: &str, value: Json) -> (r: Members)
        ensures
            r@ == set_member(self@, key@, value.deep_view()),
    {
        let ghost all = self@;
        let mut items: Vec<(String, Json)> = self.items;
        let n: usize = items.len();
        let mut i: usize = 0;
        assert(all.skip(0) =~= all);
        assert(all.take(0) + set_member(all, key@, value.deep_view()) =~= set_member(
            all,
            key@,
            value.deep_view(),
        ));
        while i < n && !same(items[i].0.as_str(), key)
            invariant
                i <= n,
                n == items.len(),
                members(items@) == all,
                set_member(all, key@, value.deep_view()) == all.take(i as int) + set_member(
                    all.skip(i as int),
                    key@,
                    value.deep_view(),
                ),
            decreases n - i,
        {
            proof {
                let rest = all.skip(i as int);
                assert(rest[0] == all[i as int]);
                assert(rest.drop_first() =~= all.skip(i + 1));
                assert(all.take(i as int) + (seq![rest[0]] + set_member(
                    rest.drop_first(),
                    key@,
                    value.deep_view(),
                )) =~= all.take(i + 1) + set_member(all.skip(i + 1), key@, value.deep_view()));
            }
            i += 1;
        }
        if i < n {
            items.set(i, (key.to_owned(), value));
            proof {
                let rest = all.skip(i as int);
                assert(rest[0] == all[i as int]);
                assert(members(items@) =~= all.take(i as int) + (seq![(key@, value.deep_view())]
                    + rest.drop_first()));
            }
        } else {
            items.push((key.to_owned(), value));
            assert(members(items@) =~= all.take(i as int) + seq![(key@, value.deep_view())]);
        }
        Members { items }
    }

    pub fn object(self) -> (r: Json)
        ensures
            r.deep_view() == JsonView::Obj(self@),
    {
        let ghost all = self@;
        let r: Json = Json::Obj(self.items);
        proof {
            reveal_with_fuel(<Json as DeepView>::deep_view, 2);
            assert(r.deep_view()->Obj_0 =~= all);
        }
        r
    }
}

/// The elements of an array that is being built.
#[derive(Debug, PartialEq, Eq)]
pub struct Elements {
    pub items: Vec<Json>,
}

impl View for Elements {
    type V = Seq<JsonView>;

    open spec fn view(&self) -> Seq<JsonView> {
        self.items.deep_view()
    }
}

impl Elements {
    pub fn new() -> (r: Elements)
        ensures
            r@ == no_elements(),
    {
        let r: Elements = Elements { items: Vec::new() };
        assert(r@ =~= Seq::<JsonView>::empty());
        r
    }

    /// The array with one more element.
    pub fn with(self, value: Json) -> (r: Elements)
        ensures
            r@ == self@.push(value.deep_view()),
    {
        let ghost before = self.items;
        let mut items: Vec<Json> = self.items;
        items.push(value);
        proof {
            lemma_push(before, items);
        }
        Elements { items }
    }

    pub fn with_text(self, value: &str) -> (r: Elements)
        ensures
            r@ == self@.push(JsonView::Str(value@)),
    {
        self.with(Json::Str(value.to_owned()))
    }

    pub fn array(self) -> (r: Json)
        ensures
            r.deep_view() == JsonView::Arr(self@),
    {
        array(self.items)
    }
}

pub open spec fn text_or_null(o: Option<Seq<char>>) -> JsonView {
    match o {
        Some(s) => JsonView::Str(s),
        None => JsonView::Null,
    }
}

pub fn opt_text(o: &Option<String>) -> (r: Json)
    ensures
        r.deep_view() == text_or_null(o.deep_view()),
{
    match o {
        Some(s) => Json::Str(s.clone()),
        None => Json::Null,
    }
}

pub fn text(s: &str) -> (r: Json)
    ensures
        r.deep_view() == JsonView::Str(s@),
{
    Json::Str(s.to_owned())
}

pub fn flag(b: bool) -> (r: Json)
    ensures
        r.deep_view() == JsonView::Bool(b),
{
    Json::Bool(b)
}

pub fn number(n: u64) -> (r: Json)
    ensures
        r.deep_view() == JsonView::UInt(n),
{
    Json::UInt(n)
}

pub fn array(v: Vec<Json>) -> (r: Json)
    ensures
        r.deep_view() == JsonView::Arr(v.deep_view()),
{
    let ghost all = v.deep_view();
    let r: Json = Json::Arr(v);
    proof {
        reveal_with_fuel(<Json as DeepView>::deep_view, 2);
        assert(r.deep_view()->Arr_0 =~= all);
    }
    r
}

/// An array of strings.
pub open spec fn text_array(v: Seq<Seq<char>>) -> JsonView {
    JsonView::Arr(v.map_values(|s: Seq<char>| JsonView::Str(s)))
}

pub fn texts(v: &Vec<String>) -> (r: Json)
    ensures
        r.deep_view() == text_array(v.deep_view()),
{
    let ghost all = v.deep_view().map_values(|s: Seq<char>| JsonView::Str(s));
    let mut out: Vec<Json> = Vec::new();
    let mut i: usize = 0;
    assert(out.deep_view() =~= all.take(0));
    while i < v.len()
        invariant
            i <= v.len(),
            all == v.deep_view().map_values(|s: Seq<char>| JsonView::Str(s)),
            out.deep_view() == all.take(i as int),
        decreases v.len() - i,
    {
        let ghost before = out;
        out.push(text(v[i].as_str()));
        proof {
            lemma_push(before, out);
            assert(v.deep_view()[i as int] == v@[i as int].deep_view());
            assert(all.take(i + 1) =~= all.take(i as int).push(all[i as int]));
        }
        i += 1;
    }
    assert(all.take(v.len() as int) =~= all);
    array(out)
}

/// The object with a member set: in place where the key is there, else at the end.
pub open spec fn set_member(o: Seq<(Seq<char>, JsonView)>, key: Seq<char>, value: JsonView) -> Seq<
    (Seq<char>, JsonView),
>
    decreases o.len(),
{
    if o.len() == 0 {
        seq![(key, value)]
    } else if o[0].0 == key {
        seq![(key, value)] + o.drop_first()
    } else {
        seq![o[0]] + set_member(o.drop_first(), key, value)
    }
}

/// A set member is there, and every other member is as it was.
pub proof fn law_set_member(o: Seq<(Seq<char>, JsonView)>, key: Seq<char>, value: JsonView)
    ensures
        member(set_member(o, key, value), key) == Some(value),
        forall|k: Seq<char>|
            k != key ==> #[trigger] member(set_member(o, key, value), k) == member(o, k),
    decreases o.len(),
{
    let out = set_member(o, key, value);
    if o.len() == 0 {
        assert forall|k: Seq<char>| k != key implies #[trigger] member(out, k) == member(o, k) by {
            lemma_member_first(out, k);
        }
    } else {
        if o[0].0 == key {
            assert forall|k: Seq<char>| k != key implies #[trigger] member(out, k) == member(
                o,
                k,
            ) by {
                lemma_member_first(out, k);
                lemma_member_first(o, k);
                assert(out.drop_first() =~= o.drop_first());
            }
        } else {
            law_set_member(o.drop_first(), key, value);
            let rest = set_member(o.drop_first(), key, value);
            assert(out.drop_first() =~= rest);
            lemma_member_first(out, key);
            assert forall|k: Seq<char>| k != key implies #[trigger] member(out, k) == member(
                o,
                k,
            ) by {
                lemma_member_first(out, k);
                lemma_member_first(o, k);
                assert(member(rest, k) == member(o.drop_first(), k));
            }
        }
    }
}

proof fn lemma_member_first(o: Seq<(Seq<char>, JsonView)>, k: Seq<char>)
    requires
        o.len() > 0,
    ensures
        member(o, k) == (if o[0].0 == k {
            Some(o[0].1)
        } else {
            member(o.drop_first(), k)
        }),
{
    if o[0].0 != k {
        lemma_member_shift(o, k, 0);
    }
}

proof fn lemma_member_shift(o: Seq<(Seq<char>, JsonView)>, k: Seq<char>, i: int)
    requires
        o.len() > 0,
        0 <= i <= o.len() - 1,
    ensures
        member_from(o, k, i + 1) == member_from(o.drop_first(), k, i),
    decreases o.len() - i,
{
    if i < o.len() - 1 {
        assert(o.drop_first()[i] == o[i + 1]);
        lemma_member_shift(o, k, i + 1);
    }
}

// ── Reading ─────────────────────────────────────────────────────────────────

/// The members of the JSON object that a text writes, each with its value where that is a string;
/// none where the text is no JSON object.
pub uninterp spec fn object_members(s: Seq<char>) -> Option<Seq<(Seq<char>, Option<Seq<char>>)>>;

/// `serde_json::from_str` into a generic value, of which an object's members are handed out:
/// whether a text is a JSON object, and what its members are, depends on the text alone.
#[verifier::external_body]
pub(crate) fn read_object(s: &str) -> (r: Option<Vec<(String, Option<String>)>>)
    ensures
        r.deep_view() == object_members(s@),
{
    match serde_json::from_str::<serde_json::Value>(s) {
        Ok(serde_json::Value::Object(o)) => {
            Some(o.into_iter().map(|(k, v)| (k, v.as_str().map(str::to_owned))).collect())
        }
        _ => None,
    }
}

/// The string that the first member with a key has, from position `i` on.
pub open spec fn text_member_from(
    o: Seq<(Seq<char>, Option<Seq<char>>)>,
    key: Seq<char>,
    i: int,
) -> Option<Seq<char>>
    decreases o.len() - i,
{
    if i < 0 || i >= o.len() {
        None
    } else if o[i].0 == key {
        o[i].1
    } else {
        text_member_from(o, key, i + 1)
    }
}

pub open spec fn text_member(o: Seq<(Seq<char>, Option<Seq<char>>)>, key: Seq<char>) -> Option<
    Seq<char>,
> {
    text_member_from(o, key, 0)
}

pub fn find_text_member(o: &Vec<(String, Option<String>)>, key: &str) -> (r: Option<String>)
    ensures
        r.deep_view() == text_member(o.deep_view(), key@),
{
    let ghost all = o.deep_view();
    let mut i: usize = 0;
    while i < o.len()
        invariant
            i <= o.len(),
            all == o.deep_view(),
            text_member_from(all, key@, 0) == text_member_from(all, key@, i as int),
        decreases o.len() - i,
    {
        assert(all[i as int] == o@[i as int].deep_view());
        if same(o[i].0.as_str(), key) {
            return crate::duplicate::duplicate_opt(&o[i].1);
        }
        i += 1;
    }
    None
}

} // verus!
