//! A JSON document model: the values that the Slack Web API answers with and
//! that the local config and cache files hold, with the lookups that the rest
//! of the library reads them by.
//!
//! Lookups follow `serde_json::Value` indexing: reading a key of something
//! that is not an object, or a key that is absent, gives `null`; `as_*`
//! accessors give a value only for the matching variant.

use vstd::prelude::*;

verus! {

/// A JSON number as the parser classifies it: a non-negative integer, a
/// negative integer, or anything else (kept as its decimal text).
#[derive(Debug, Clone, PartialEq)]
pub enum JsonNumber {
    PosInt(u64),
    NegInt(i64),
    Float(String),
}

/// A JSON value. Object members keep the order in which they were read.
#[derive(Debug, PartialEq)]
pub enum Json {
    Null,
    Bool(bool),
    Number(JsonNumber),
    Str(String),
    Array(Vec<Json>),
    Object(Vec<(String, Json)>),
}

/// The mathematical value of a `Json`: strings as character sequences.
pub enum JsonV {
    Null,
    Bool(bool),
    PosInt(u64),
    NegInt(i64),
    Float(Seq<char>),
    Str(Seq<char>),
    Array(Seq<JsonV>),
    Object(Seq<(Seq<char>, JsonV)>),
}

pub open spec fn elems_view(v: Seq<Json>) -> Seq<JsonV>
    decreases v, 0int,
{
    if v.len() == 0 {
        seq![]
    } else {
        elems_view(v.drop_last()).push(json_view(v.last()))
    }
}

pub open spec fn members_view(v: Seq<(String, Json)>) -> Seq<(Seq<char>, JsonV)>
    decreases v, 0int,
{
    if v.len() == 0 {
        seq![]
    } else {
        members_view(v.drop_last()).push((v.last().0@, json_view(v.last().1)))
    }
}

pub open spec fn json_view(j: Json) -> JsonV
    decreases j, 1int,
{
    match j {
        Json::Null => JsonV::Null,
        Json::Bool(b) => JsonV::Bool(b),
        Json::Number(JsonNumber::PosInt(n)) => JsonV::PosInt(n),
        Json::Number(JsonNumber::NegInt(n)) => JsonV::NegInt(n),
        Json::Number(JsonNumber::Float(s)) => JsonV::Float(s@),
        Json::Str(s) => JsonV::Str(s@),
        Json::Array(v) => JsonV::Array(elems_view(v@)),
        Json::Object(m) => JsonV::Object(members_view(m@)),
    }
}

impl View for Json {
    type V = JsonV;

    open spec fn view(&self) -> JsonV {
        json_view(*self)
    }
}

pub proof fn lemma_elems_view(v: Seq<Json>)
    ensures
        elems_view(v).len() == v.len(),
        forall|i: int| 0 <= i < v.len() ==> #[trigger] elems_view(v)[i] == json_view(v[i]),
    decreases v.len(),
{
    if v.len() > 0 {
        lemma_elems_view(v.drop_last());
    }
}

pub proof fn lemma_members_view(v: Seq<(String, Json)>)
    ensures
        members_view(v).len() == v.len(),
        forall|i: int|
            0 <= i < v.len() ==> #[trigger] members_view(v)[i] == (v[i].0@, json_view(v[i].1)),
    decreases v.len(),
{
    if v.len() > 0 {
        lemma_members_view(v.drop_last());
    }
}

/// The value of the first member named `k`.
pub open spec fn member(m: Seq<(Seq<char>, JsonV)>, k: Seq<char>) -> Option<JsonV>
    decreases m.len(),
{
    if m.len() == 0 {
        None
    } else if m[0].0 == k {
        Some(m[0].1)
    } else {
        member(m.drop_first(), k)
    }
}

/// Index of the first member named `k`, or -1.
pub open spec fn member_index(m: Seq<(Seq<char>, JsonV)>, k: Seq<char>) -> int
    decreases m.len(),
{
    if m.len() == 0 {
        -1
    } else if m[0].0 == k {
        0
    } else {
        let r = member_index(m.drop_first(), k);
        if r < 0 {
            -1
        } else {
            r + 1
        }
    }
}

/// The members with `k` set to `v`: the first member named `k` takes the new
/// value in place, or a new member is appended.
pub open spec fn member_set(m: Seq<(Seq<char>, JsonV)>, k: Seq<char>, v: JsonV) -> Seq<
    (Seq<char>, JsonV),
> {
    let i = member_index(m, k);
    if i < 0 {
        m.push((k, v))
    } else {
        m.update(i, (k, v))
    }
}

pub proof fn lemma_member_index(m: Seq<(Seq<char>, JsonV)>, k: Seq<char>)
    ensures
        -1 <= member_index(m, k) < m.len(),
        member_index(m, k) >= 0 ==> m[member_index(m, k)].0 == k && member(m, k) == Some(
            m[member_index(m, k)].1,
        ),
        member_index(m, k) >= 0 ==> forall|j: int| 0 <= j < member_index(m, k) ==> m[j].0 != k,
        member_index(m, k) < 0 ==> member(m, k) is None && forall|j: int|
            0 <= j < m.len() ==> m[j].0 != k,
    decreases m.len(),
{
    if m.len() > 0 && m[0].0 != k {
        lemma_member_index(m.drop_first(), k);
        let r = member_index(m.drop_first(), k);
        if r >= 0 {
            assert forall|j: int| 0 <= j < r + 1 implies m[j].0 != k by {
                if j > 0 {
                    assert(m[j] == m.drop_first()[j - 1]);
                }
            }
        } else {
            assert forall|j: int| 0 <= j < m.len() implies m[j].0 != k by {
                if j > 0 {
                    assert(m[j] == m.drop_first()[j - 1]);
                }
            }
        }
    }
}

pub proof fn lemma_member_via_index(m: Seq<(Seq<char>, JsonV)>, q: Seq<char>)
    ensures
        member(m, q) == if member_index(m, q) >= 0 {
            Some(m[member_index(m, q)].1)
        } else {
            None::<JsonV>
        },
{
    lemma_member_index(m, q);
}

pub proof fn lemma_index_same_keys(m1: Seq<(Seq<char>, JsonV)>, m2: Seq<(Seq<char>, JsonV)>, q: Seq<char>)
    requires
        m1.len() == m2.len(),
        forall|i: int| 0 <= i < m1.len() ==> #[trigger] m1[i].0 == m2[i].0,
    ensures
        member_index(m1, q) == member_index(m2, q),
    decreases m1.len(),
{
    if m1.len() > 0 {
        assert forall|i: int| 0 <= i < m1.len() - 1 implies #[trigger] m1.drop_first()[i].0
            == m2.drop_first()[i].0 by {
            assert(m1[i + 1].0 == m2[i + 1].0);
        }
        lemma_index_same_keys(m1.drop_first(), m2.drop_first(), q);
    }
}

pub proof fn lemma_index_push(m: Seq<(Seq<char>, JsonV)>, k: Seq<char>, v: JsonV, q: Seq<char>)
    ensures
        member_index(m.push((k, v)), q) == if member_index(m, q) >= 0 {
            member_index(m, q)
        } else if q == k {
            m.len() as int
        } else {
            -1
        },
    decreases m.len(),
{
    let p = m.push((k, v));
    if m.len() > 0 {
        assert(p.drop_first() =~= m.drop_first().push((k, v)));
        assert(p[0] == m[0]);
        lemma_index_push(m.drop_first(), k, v, q);
    } else {
        assert(p.drop_first() =~= Seq::<(Seq<char>, JsonV)>::empty());
        assert(member_index(p.drop_first(), q) == -1);
    }
}

/// Setting a member and reading members back: the member set reads as the
/// new value, every other member as before.
pub proof fn law_set_then_get(j: JsonV, k: Seq<char>, v: JsonV, q: Seq<char>)
    requires
        j.settable(),
    ensures
        j.set(k, v) is Object,
        q == k ==> j.set(k, v).get(q) == Some(v),
        q != k ==> j.set(k, v).get(q) == j.get(q),
{
    if j is Null {
        let m = seq![(k, v)];
        assert(m.drop_first() =~= Seq::<(Seq<char>, JsonV)>::empty());
        assert(member(m.drop_first(), q) is None);
        assert(j.set(k, v) == JsonV::Object(m));
        assert(m[0] == (k, v));
        assert(j.get(q) is None);
    } else {
        let m = j->Object_0;
        let i = member_index(m, k);
        lemma_member_index(m, k);
        lemma_member_via_index(m, q);
        let n = member_set(m, k, v);
        lemma_member_via_index(n, q);
        if i < 0 {
            lemma_index_push(m, k, v, q);
            lemma_member_index(m, q);
            if member_index(m, q) >= 0 {
                assert(n[member_index(m, q)] == m[member_index(m, q)]);
            }
        } else {
            assert forall|x: int| 0 <= x < m.len() implies #[trigger] m[x].0 == n[x].0 by {}
            lemma_index_same_keys(m, n, q);
            lemma_member_index(m, q);
            if q != k {
                if member_index(m, q) >= 0 {
                    assert(member_index(m, q) != i);
                    assert(n[member_index(m, q)] == m[member_index(m, q)]);
                }
            }
        }
    }
}

impl JsonV {
    /// `Value::get(k)`: the member named `k` of an object.
    pub open spec fn get(self, k: Seq<char>) -> Option<JsonV> {
        match self {
            JsonV::Object(m) => member(m, k),
            _ => None,
        }
    }

    /// `value[k]`: the member named `k`, or `null`.
    pub open spec fn at(self, k: Seq<char>) -> JsonV {
        match self.get(k) {
            Some(v) => v,
            None => JsonV::Null,
        }
    }

    pub open spec fn as_str(self) -> Option<Seq<char>> {
        match self {
            JsonV::Str(s) => Some(s),
            _ => None,
        }
    }

    pub open spec fn as_bool(self) -> Option<bool> {
        match self {
            JsonV::Bool(b) => Some(b),
            _ => None,
        }
    }

    pub open spec fn as_u64(self) -> Option<u64> {
        match self {
            JsonV::PosInt(n) => Some(n),
            _ => None,
        }
    }

    pub open spec fn as_i64(self) -> Option<i64> {
        match self {
            JsonV::PosInt(n) => if n <= i64::MAX {
                Some(n as i64)
            } else {
                None
            },
            JsonV::NegInt(n) => Some(n),
            _ => None,
        }
    }

    pub open spec fn as_array(self) -> Option<Seq<JsonV>> {
        match self {
            JsonV::Array(a) => Some(a),
            _ => None,
        }
    }

    pub open spec fn as_object(self) -> Option<Seq<(Seq<char>, JsonV)>> {
        match self {
            JsonV::Object(m) => Some(m),
            _ => None,
        }
    }

    /// `value[k] = v`: on an object, sets the member; `null` first becomes an
    /// empty object. (Any other value is left as it is; the library never
    /// asks for that.)
    pub open spec fn set(self, k: Seq<char>, v: JsonV) -> JsonV {
        match self {
            JsonV::Null => JsonV::Object(seq![(k, v)]),
            JsonV::Object(m) => JsonV::Object(member_set(m, k, v)),
            _ => self,
        }
    }

    /// Whether `value[k] = ..` is allowed on this value.
    pub open spec fn settable(self) -> bool {
        self is Null || self is Object
    }
}

/// The value that an optional reference stands for: a missing value reads as
/// `null`.
pub open spec fn view_opt(o: Option<&Json>) -> JsonV {
    match o {
        Some(j) => j@,
        None => JsonV::Null,
    }
}

impl Json {
    /// `Value::get(k)`: the member named `k`, when this is an object that has
    /// one.
    #[verifier::loop_isolation(false)]
    pub fn get<'a>(&'a self, k: &str) -> (r: Option<&'a Json>)
        ensures
            r matches Some(j) ==> self@.get(k@) == Some(j@),
            r is None <==> self@.get(k@) is None,
    {
        match self {
            Json::Object(m) => {
                let ghost mv = members_view(m@);
                proof {
                    lemma_members_view(m@);
                    assert(mv.skip(0) =~= mv);
                    assert(self@ == JsonV::Object(mv));
                }
                let mut i: usize = 0;
                while i < m.len()
                    invariant
                        i <= m@.len(),
                        mv == members_view(m@),
                        mv.len() == m@.len(),
                        forall|j: int|
                            0 <= j < m@.len() ==> #[trigger] mv[j] == (m@[j].0@, json_view(
                                m@[j].1,
                            )),
                        member(mv, k@) == member(mv.skip(i as int), k@),
                    decreases m.len() - i,
                {
                    let ghost rest = mv.skip(i as int);
                    assert(rest[0] == mv[i as int]);
                    if crate::text::same_text(m[i].0.as_str(), k) {
                        assert(member(rest, k@) == Some(rest[0].1));
                        return Some(&m[i].1);
                    }
                    assert(rest.drop_first() =~= mv.skip(i + 1));
                    i = i + 1;
                }
                None
            },
            _ => None,
        }
    }

    /// A deep copy.
    #[verifier::loop_isolation(false)]
    pub fn copy(&self) -> (r: Json)
        ensures
            r@ == self@,
        decreases self,
    {
        match self {
            Json::Null => Json::Null,
            Json::Bool(b) => Json::Bool(*b),
            Json::Number(JsonNumber::PosInt(n)) => Json::Number(JsonNumber::PosInt(*n)),
            Json::Number(JsonNumber::NegInt(n)) => Json::Number(JsonNumber::NegInt(*n)),
            Json::Number(JsonNumber::Float(s)) => Json::Number(JsonNumber::Float(s.clone())),
            Json::Str(s) => Json::Str(s.clone()),
            Json::Array(v) => {
                let mut out: Vec<Json> = Vec::new();
                let mut i: usize = 0;
                proof {
                    lemma_elems_view(v@);
                }
                while i < v.len()
                    invariant
                        i <= v@.len(),
                        elems_view(v@).len() == v@.len(),
                        forall|j: int|
                            0 <= j < v@.len() ==> #[trigger] elems_view(v@)[j] == json_view(v@[j]),
                        elems_view(out@) == elems_view(v@).take(i as int),
                    decreases v.len() - i,
                {
                    proof {
                        assert(decreases_to!(*self => *v));
                        assert(decreases_to!(*v => v@));
                        assert(decreases_to!(v@ => v@[i as int]));
                    }
                    let e = v[i].copy();
                    let ghost before = out@;
                    out.push(e);
                    proof {
                        assert(out@.drop_last() =~= before);
                        assert(elems_view(v@).take(i + 1) =~= elems_view(v@).take(i as int).push(
                            elems_view(v@)[i as int],
                        ));
                    }
                    i = i + 1;
                }
                proof {
                    assert(elems_view(v@).take(v@.len() as int) =~= elems_view(v@));
                }
                Json::Array(out)
            },
            Json::Object(m) => {
                let mut out: Vec<(String, Json)> = Vec::new();
                let mut i: usize = 0;
                proof {
                    lemma_members_view(m@);
                }
                while i < m.len()
                    invariant
                        i <= m@.len(),
                        members_view(m@).len() == m@.len(),
                        forall|j: int|
                            0 <= j < m@.len() ==> #[trigger] members_view(m@)[j] == (
                                m@[j].0@,
                                json_view(m@[j].1),
                            ),
                        members_view(out@) == members_view(m@).take(i as int),
                    decreases m.len() - i,
                {
                    proof {
                        assert(decreases_to!(*self => *m));
                        assert(decreases_to!(*m => m@));
                        assert(decreases_to!(m@ => m@[i as int]));
                        assert(decreases_to!(m@[i as int] => m@[i as int].1));
                    }
                    let e = m[i].1.copy();
                    let k = m[i].0.clone();
                    let ghost before = out@;
                    out.push((k, e));
                    proof {
                        assert(out@.drop_last() =~= before);
                        assert(members_view(m@).take(i + 1) =~= members_view(m@).take(
                            i as int,
                        ).push(members_view(m@)[i as int]));
                    }
                    i = i + 1;
                }
                proof {
                    assert(members_view(m@).take(m@.len() as int) =~= members_view(m@));
                }
                Json::Object(out)
            },
        }
    }
}

/// `o[k]`, reading a missing value as `null`.
pub fn at<'a>(o: Option<&'a Json>, k: &str) -> (r: Option<&'a Json>)
    ensures
        view_opt(r) == view_opt(o).at(k@),
{
    match o {
        Some(j) => j.get(k),
        None => None,
    }
}

/// `o.as_str()`.
pub fn as_str<'a>(o: Option<&'a Json>) -> (r: Option<&'a String>)
    ensures
        r matches Some(s) ==> view_opt(o).as_str() == Some(s@),
        r is None <==> view_opt(o).as_str() is None,
{
    match o {
        Some(Json::Str(s)) => Some(s),
        _ => None,
    }
}

/// `o.as_bool()`.
pub fn as_bool(o: Option<&Json>) -> (r: Option<bool>)
    ensures
        r == view_opt(o).as_bool(),
{
    match o {
        Some(Json::Bool(b)) => Some(*b),
        _ => None,
    }
}

/// `o.as_u64()`.
pub fn as_u64(o: Option<&Json>) -> (r: Option<u64>)
    ensures
        r == view_opt(o).as_u64(),
{
    match o {
        Some(Json::Number(JsonNumber::PosInt(n))) => Some(*n),
        _ => None,
    }
}

/// `o.as_i64()`.
pub fn as_i64(o: Option<&Json>) -> (r: Option<i64>)
    ensures
        r == view_opt(o).as_i64(),
{
    match o {
        Some(Json::Number(JsonNumber::PosInt(n))) => {
            if *n <= 9223372036854775807u64 {
                Some(*n as i64)
            } else {
                None
            }
        },
        Some(Json::Number(JsonNumber::NegInt(n))) => Some(*n),
        _ => None,
    }
}

/// `o.as_array()`.
pub fn as_array<'a>(o: Option<&'a Json>) -> (r: Option<&'a Vec<Json>>)
    ensures
        r matches Some(a) ==> view_opt(o).as_array() == Some(elems_view(a@)),
        r is None <==> view_opt(o).as_array() is None,
{
    match o {
        Some(Json::Array(a)) => Some(a),
        _ => None,
    }
}

/// `o.as_object()`.
pub fn as_object<'a>(o: Option<&'a Json>) -> (r: Option<&'a Vec<(String, Json)>>)
    ensures
        r matches Some(m) ==> view_opt(o).as_object() == Some(members_view(m@)),
        r is None <==> view_opt(o).as_object() is None,
{
    match o {
        Some(Json::Object(m)) => Some(m),
        _ => None,
    }
}

fn find_member(m: &Vec<(String, Json)>, k: &str) -> (r: Option<usize>)
    ensures
        r matches Some(i) ==> i == member_index(members_view(m@), k@) && i < m@.len(),
        r is None ==> member_index(members_view(m@), k@) < 0,
{
    let ghost mv = members_view(m@);
    proof {
        lemma_members_view(m@);
        lemma_member_index(mv, k@);
    }
    let mut i: usize = 0;
    while i < m.len()
        invariant
            i <= m@.len(),
            mv == members_view(m@),
            mv.len() == m@.len(),
            forall|j: int|
                0 <= j < m@.len() ==> #[trigger] mv[j] == (m@[j].0@, json_view(m@[j].1)),
            forall|j: int| 0 <= j < i ==> mv[j].0 != k@,
            -1 <= member_index(mv, k@) < mv.len(),
            member_index(mv, k@) >= 0 ==> mv[member_index(mv, k@)].0 == k@,
            member_index(mv, k@) >= 0 ==> forall|j: int|
                0 <= j < member_index(mv, k@) ==> mv[j].0 != k@,
            member_index(mv, k@) < 0 ==> forall|j: int| 0 <= j < mv.len() ==> mv[j].0 != k@,
        decreases m.len() - i,
    {
        if crate::text::same_text(m[i].0.as_str(), k) {
            assert(mv[i as int].0 == k@);
            return Some(i);
        }
        i = i + 1;
    }
    None
}

/// `j[k] = v` on a value that allows it (an object, or `null`).
pub fn obj_set(j: Json, k: String, v: Json) -> (r: Json)
    requires
        j@.settable(),
    ensures
        r@ == j@.set(k@, v@),
{
    match j {
        Json::Object(m) => {
            let mut m = m;
            let ghost before = m@;
            proof {
                lemma_members_view(before);
            }
            match find_member(&m, k.as_str()) {
                Some(i) => {
                    m.set(i, (k, v));
                    proof {
                        lemma_members_view(m@);
                        assert(members_view(m@) =~= members_view(before).update(
                            i as int,
                            (k@, v@),
                        ));
                    }
                },
                None => {
                    m.push((k, v));
                    proof {
                        lemma_members_view(m@);
                        assert(members_view(m@) =~= members_view(before).push((k@, v@)));
                    }
                },
            }
            Json::Object(m)
        },
        _ => {
            let mut m: Vec<(String, Json)> = Vec::new();
            m.push((k, v));
            proof {
                lemma_members_view(m@);
                assert(members_view(m@) =~= seq![(k@, v@)]);
            }
            Json::Object(m)
        },
    }
}

/// A JSON string holding `s`.
pub fn json_str(s: &str) -> (r: Json)
    ensures
        r@ == JsonV::Str(s@),
{
    Json::Str(crate::text::owned(s))
}

/// An empty JSON object.
pub fn empty_object() -> (r: Json)
    ensures
        r@ == JsonV::Object(seq![]),
{
    let m: Vec<(String, Json)> = Vec::new();
    proof {
        assert(members_view(m@) =~= seq![]);
    }
    Json::Object(m)
}

} // verus!
