//! JSON values carried through the host: event payloads, checkpoints,
//! receipts and diagnostic details.
//!
//! `JsonValue` holds a JSON document as plain data; its view `JsonView` is the
//! mathematical value that contracts speak of. Numbers keep the three shapes a
//! JSON number can take: a non-negative integer, a negative integer, or any
//! other number kept as its decimal text.

use vstd::prelude::*;

verus! {

/// A JSON number.
#[derive(Debug, Clone, PartialEq)]
pub enum JsonNumber {
    PosInt(u64),
    NegInt(i64),
    Float(String),
}

/// A JSON value. Object members keep their order; lookups take the first
/// member with a given key. Two values are equal (`==`) when they denote the
/// same JSON document, as `json_equiv` says: an object is the map from each of
/// its keys to that key's first value, so member order does not matter.
#[derive(Debug)]
pub enum JsonValue {
    Null,
    Bool(bool),
    Number(JsonNumber),
    String(String),
    Array(Vec<JsonValue>),
    Object(Vec<(String, JsonValue)>),
}

/// Mathematical model of a JSON number.
pub enum NumberView {
    PosInt(u64),
    NegInt(i64),
    Float(Seq<char>),
}

/// Mathematical model of a JSON value.
pub enum JsonView {
    Null,
    Bool(bool),
    Number(NumberView),
    Str(Seq<char>),
    Array(Seq<JsonView>),
    Object(Seq<(Seq<char>, JsonView)>),
}

impl JsonNumber {
    pub open spec fn view(&self) -> NumberView {
        match self {
            JsonNumber::PosInt(n) => NumberView::PosInt(*n),
            JsonNumber::NegInt(n) => NumberView::NegInt(*n),
            JsonNumber::Float(text) => NumberView::Float(text@),
        }
    }

    /// A copy of this number.
    pub fn duplicate(&self) -> (r: JsonNumber)
        ensures
            r.view() == self.view(),
    {
        match self {
            JsonNumber::PosInt(n) => JsonNumber::PosInt(*n),
            JsonNumber::NegInt(n) => JsonNumber::NegInt(*n),
            JsonNumber::Float(text) => JsonNumber::Float(text.clone()),
        }
    }
}

/// The view of a sequence of values, element by element.
pub open spec fn items_view(items: Seq<JsonValue>) -> Seq<JsonView> {
    Seq::new(items.len(), |i: int| items[i].view())
}

/// The view of a sequence of object members, member by member.
pub open spec fn members_view(members: Seq<(String, JsonValue)>) -> Seq<(Seq<char>, JsonView)> {
    Seq::new(members.len(), |i: int| (members[i].0@, members[i].1.view()))
}

impl JsonValue {
    pub open spec fn view(&self) -> JsonView
        decreases self,
    {
        match self {
            JsonValue::Null => JsonView::Null,
            JsonValue::Bool(b) => JsonView::Bool(*b),
            JsonValue::Number(n) => JsonView::Number(n.view()),
            JsonValue::String(s) => JsonView::Str(s@),
            JsonValue::Array(items) => JsonView::Array(
                Seq::new(
                    items@.len(),
                    |i: int|
                        if 0 <= i < items@.len() {
                            items@[i].view()
                        } else {
                            JsonView::Null
                        },
                ),
            ),
            JsonValue::Object(members) => JsonView::Object(
                Seq::new(
                    members@.len(),
                    |i: int|
                        if 0 <= i < members@.len() {
                            (members@[i].0@, members@[i].1.view())
                        } else {
                            (Seq::empty(), JsonView::Null)
                        },
                ),
            ),
        }
    }

    /// A JSON string.
    pub fn string(text: &str) -> (r: JsonValue)
        ensures
            r.view() == JsonView::Str(text@),
    {
        JsonValue::String(String::from_str(text))
    }

    /// A JSON object from its members, in order.
    pub fn object(members: Vec<(String, JsonValue)>) -> (r: JsonValue)
        ensures
            r.view() == JsonView::Object(members_view(members@)),
    {
        let r = JsonValue::Object(members);
        proof {
            lemma_object_view(members);
        }
        r
    }

    /// A JSON array from its items, in order.
    pub fn array(items: Vec<JsonValue>) -> (r: JsonValue)
        ensures
            r.view() == JsonView::Array(items_view(items@)),
    {
        let r = JsonValue::Array(items);
        proof {
            lemma_array_view(items);
        }
        r
    }

    /// A JSON integer.
    pub fn integer(value: i64) -> (r: JsonValue)
        ensures
            r.view() == json_integer(value as int),
    {
        if value >= 0 {
            JsonValue::Number(JsonNumber::PosInt(value as u64))
        } else {
            JsonValue::Number(JsonNumber::NegInt(value))
        }
    }

    /// A deep copy of this value.
    #[verifier::loop_isolation(false)]
    pub fn duplicate(&self) -> (r: JsonValue)
        ensures
            r.view() == self.view(),
        decreases self,
    {
        match self {
            JsonValue::Null => JsonValue::Null,
            JsonValue::Bool(b) => JsonValue::Bool(*b),
            JsonValue::Number(n) => JsonValue::Number(n.duplicate()),
            JsonValue::String(s) => JsonValue::String(s.clone()),
            JsonValue::Array(items) => {
                let mut out: Vec<JsonValue> = Vec::new();
                let mut i: usize = 0;
                while i < items.len()
                    invariant
                        i <= items@.len(),
                        out@.len() == i,
                        forall|j: int| 0 <= j < i ==> #[trigger] out@[j].view() == items@[j].view(),
                    decreases items@.len() - i,
                {
                    proof {
                        assert(decreases_to!(*items => items[i as int]));
                    }
                    let c = items[i].duplicate();
                    out.push(c);
                    i = i + 1;
                }
                proof {
                    lemma_array_view(out);
                    lemma_array_view(*items);
                    assert(items_view(out@) =~= items_view(items@));
                }
                JsonValue::Array(out)
            },
            JsonValue::Object(members) => {
                let mut out: Vec<(String, JsonValue)> = Vec::new();
                let mut i: usize = 0;
                while i < members.len()
                    invariant
                        i <= members@.len(),
                        out@.len() == i,
                        forall|j: int|
                            0 <= j < i ==> #[trigger] out@[j].0@ == members@[j].0@ && out@[j].1.view()
                                == members@[j].1.view(),
                    decreases members@.len() - i,
                {
                    proof {
                        assert(decreases_to!(*members => members[i as int]));
                    }
                    let k = members[i].0.clone();
                    let v = members[i].1.duplicate();
                    out.push((k, v));
                    i = i + 1;
                }
                proof {
                    lemma_object_view(out);
                    lemma_object_view(*members);
                    assert(members_view(out@) =~= members_view(members@));
                }
                JsonValue::Object(out)
            },
        }
    }

    /// The value of the first member named `key`, when this is an object.
    pub fn get(&self, key: &str) -> (r: Option<&JsonValue>)
        ensures
            match r {
                Some(v) => json_get(self.view(), key@) == Some(v.view()),
                None => json_get(self.view(), key@) is None,
            },
    {
        match self {
            JsonValue::Object(members) => {
                proof {
                    lemma_object_view(*members);
                }
                let wanted = String::from_str(key);
                let mut i: usize = 0;
                while i < members.len()
                    invariant
                        i <= members@.len(),
                        wanted@ == key@,
                        self.view() == JsonView::Object(members_view(members@)),
                        forall|j: int| 0 <= j < i ==> #[trigger] members@[j].0@ != key@,
                    decreases members@.len() - i,
                {
                    if members[i].0 == wanted {
                        proof {
                            lemma_first_member(members_view(members@), key@, i as int);
                        }
                        return Some(&members[i].1);
                    }
                    i = i + 1;
                }
                proof {
                    lemma_no_member(members_view(members@), key@);
                }
                None
            },
            _ => None,
        }
    }

    /// The value as an unsigned integer, when it is a non-negative integer.
    pub fn as_u64(&self) -> (r: Option<u64>)
        ensures
            r == json_as_u64(self.view()),
    {
        match self {
            JsonValue::Number(JsonNumber::PosInt(n)) => Some(*n),
            _ => None,
        }
    }
}

impl Clone for JsonValue {
    fn clone(&self) -> (r: JsonValue)
        ensures
            r.view() == self.view(),
    {
        self.duplicate()
    }
}

/// Appends the member `key: value` to an object's member list.
pub fn push_member(members: &mut Vec<(String, JsonValue)>, key: &str, value: JsonValue)
    ensures
        members_view(final(members)@) == members_view(old(members)@).push((key@, value.view())),
{
    let ghost before = members@;
    members.push((String::from_str(key), value));
    proof {
        assert(members_view(members@) =~= members_view(before).push((key@, value.view())));
    }
}

/// A member list extended by `key: v` when `v` is present.
pub open spec fn push_optional(
    members: Seq<(Seq<char>, JsonView)>,
    key: Seq<char>,
    v: Option<JsonView>,
) -> Seq<(Seq<char>, JsonView)> {
    match v {
        Some(x) => members.push((key, x)),
        None => members,
    }
}

/// The JSON number for an unsigned integer.
pub open spec fn json_unsigned(value: u64) -> JsonView {
    JsonView::Number(NumberView::PosInt(value))
}

/// The JSON number for an integer: non-negative integers are unsigned.
pub open spec fn json_integer(value: int) -> JsonView {
    if value >= 0 {
        JsonView::Number(NumberView::PosInt(value as u64))
    } else {
        JsonView::Number(NumberView::NegInt(value as i64))
    }
}

/// The unsigned integer held by a JSON value, if any.
pub open spec fn json_as_u64(v: JsonView) -> Option<u64> {
    match v {
        JsonView::Number(NumberView::PosInt(n)) => Some(n),
        _ => None,
    }
}

/// Index of the first member named `key`, if any, at or after `from`.
pub open spec fn first_member_index(members: Seq<(Seq<char>, JsonView)>, key: Seq<char>, from: int) -> Option<int>
    decreases members.len() - from,
{
    if from < 0 || from >= members.len() {
        None
    } else if members[from].0 == key {
        Some(from)
    } else {
        first_member_index(members, key, from + 1)
    }
}

/// The value of the first member named `key` of an object.
pub open spec fn json_get(v: JsonView, key: Seq<char>) -> Option<JsonView> {
    match v {
        JsonView::Object(members) => match first_member_index(members, key, 0) {
            Some(i) => Some(members[i].1),
            None => None,
        },
        _ => None,
    }
}

proof fn lemma_first_member_push_from(
    ms: Seq<(Seq<char>, JsonView)>,
    x: (Seq<char>, JsonView),
    key: Seq<char>,
    from: int,
)
    requires
        0 <= from <= ms.len(),
    ensures
        first_member_index(ms.push(x), key, from) == match first_member_index(ms, key, from) {
            Some(i) => Some(i),
            None => if x.0 == key {
                Some(ms.len() as int)
            } else {
                None
            },
        },
    decreases ms.len() - from,
{
    if from < ms.len() {
        assert(ms.push(x)[from] == ms[from]);
        lemma_first_member_push_from(ms, x, key, from + 1);
    } else {
        assert(ms.push(x)[from] == x);
        assert(first_member_index(ms.push(x), key, from + 1) is None);
    }
}

/// Looking a key up in an object with one more member at the end.
pub broadcast proof fn lemma_get_push(ms: Seq<(Seq<char>, JsonView)>, x: (Seq<char>, JsonView), key: Seq<char>)
    ensures
        #[trigger] json_get(JsonView::Object(ms.push(x)), key) == match json_get(JsonView::Object(ms), key) {
            Some(v) => Some(v),
            None => if x.0 == key {
                Some(x.1)
            } else {
                None
            },
        },
{
    lemma_first_member_push_from(ms, x, key, 0);
    match first_member_index(ms, key, 0) {
        Some(i) => {
            lemma_first_member_index_bounds(ms, key, 0);
            assert(ms.push(x)[i] == ms[i]);
        },
        None => {
            assert(ms.push(x)[ms.len() as int] == x);
        },
    }
}

/// Looking a key up in an object extended by an optional member.
pub broadcast proof fn lemma_get_push_optional(
    ms: Seq<(Seq<char>, JsonView)>,
    k: Seq<char>,
    v: Option<JsonView>,
    key: Seq<char>,
)
    ensures
        #[trigger] json_get(JsonView::Object(push_optional(ms, k, v)), key) == match json_get(
            JsonView::Object(ms),
            key,
        ) {
            Some(found) => Some(found),
            None => if k == key {
                v
            } else {
                None
            },
        },
{
    match v {
        Some(x) => {
            lemma_get_push(ms, (k, x), key);
        },
        None => {},
    }
}

/// Nothing is found in an object without members.
pub broadcast proof fn lemma_get_empty(key: Seq<char>)
    ensures
        #[trigger] json_get(JsonView::Object(Seq::<(Seq<char>, JsonView)>::empty()), key) is None,
{
}

proof fn lemma_first_member_index_bounds(members: Seq<(Seq<char>, JsonView)>, key: Seq<char>, from: int)
    requires
        0 <= from,
    ensures
        first_member_index(members, key, from) matches Some(i) ==> from <= i < members.len()
            && members[i].0 == key,
    decreases members.len() - from,
{
    if from < members.len() {
        lemma_first_member_index_bounds(members, key, from + 1);
    }
}

proof fn lemma_first_member_from(members: Seq<(Seq<char>, JsonView)>, key: Seq<char>, from: int, i: int)
    requires
        0 <= from <= i < members.len(),
        members[i].0 == key,
        forall|j: int| from <= j < i ==> #[trigger] members[j].0 != key,
    ensures
        first_member_index(members, key, from) == Some(i),
    decreases i - from,
{
    if from < i {
        lemma_first_member_from(members, key, from + 1, i);
    }
}

proof fn lemma_first_member(members: Seq<(Seq<char>, JsonView)>, key: Seq<char>, i: int)
    requires
        0 <= i < members.len(),
        members[i].0 == key,
        forall|j: int| 0 <= j < i ==> #[trigger] members[j].0 != key,
    ensures
        first_member_index(members, key, 0) == Some(i),
{
    lemma_first_member_from(members, key, 0, i);
}

proof fn lemma_no_member_from(members: Seq<(Seq<char>, JsonView)>, key: Seq<char>, from: int)
    requires
        0 <= from,
        forall|j: int| from <= j < members.len() ==> #[trigger] members[j].0 != key,
    ensures
        first_member_index(members, key, from) is None,
    decreases members.len() - from,
{
    if from < members.len() {
        lemma_no_member_from(members, key, from + 1);
    }
}

proof fn lemma_no_member(members: Seq<(Seq<char>, JsonView)>, key: Seq<char>)
    requires
        forall|j: int| 0 <= j < members.len() ==> #[trigger] members[j].0 != key,
    ensures
        first_member_index(members, key, 0) is None,
{
    lemma_no_member_from(members, key, 0);
}

/// The view of an array is the view of its items.
pub proof fn lemma_array_view(items: Vec<JsonValue>)
    ensures
        JsonValue::Array(items).view() == JsonView::Array(items_view(items@)),
{
    let v = JsonValue::Array(items).view();
    assert(v->Array_0 =~= items_view(items@)) by {
        assert forall|k: int| 0 <= k < items@.len() implies v->Array_0[k] == #[trigger] items_view(
            items@,
        )[k] by {
            assert(v->Array_0[k] == items@[k].view());
        }
    }
}

/// The view of an object is the view of its members.
pub proof fn lemma_object_view(members: Vec<(String, JsonValue)>)
    ensures
        JsonValue::Object(members).view() == JsonView::Object(members_view(members@)),
{
    let v = JsonValue::Object(members).view();
    assert(v->Object_0 =~= members_view(members@)) by {
        assert forall|k: int| 0 <= k < members@.len() implies v->Object_0[k]
            == #[trigger] members_view(members@)[k] by {
            assert(v->Object_0[k] == (members@[k].0@, members@[k].1.view()));
        }
    }
}

} // verus!

verus! {

/// The value of an integer number, whatever its shape.
pub open spec fn integer_value(n: NumberView) -> int {
    match n {
        NumberView::PosInt(u) => u as int,
        NumberView::NegInt(i) => i as int,
        NumberView::Float(_) => 0,
    }
}

/// Whether two numbers are the same number: integers by value, whatever
/// their shape; other numbers by their decimal text.
pub open spec fn number_equiv(a: NumberView, b: NumberView) -> bool {
    match a {
        NumberView::Float(s) => b matches NumberView::Float(t) && s == t,
        _ => !(b is Float) && integer_value(a) == integer_value(b),
    }
}

/// Whether two values denote the same JSON document: scalars by value,
/// arrays item by item, and objects as maps from each key to that key's
/// first value: the same keys, with equal values.
pub open spec fn json_equiv(a: JsonView, b: JsonView) -> bool
    decreases a,
{
    match a {
        JsonView::Null => b is Null,
        JsonView::Bool(x) => b matches JsonView::Bool(y) && x == y,
        JsonView::Number(x) => b matches JsonView::Number(y) && number_equiv(x, y),
        JsonView::Str(x) => b matches JsonView::Str(y) && x == y,
        JsonView::Array(xs) => match b {
            JsonView::Array(ys) => xs.len() == ys.len() && forall|i: int|
                #![trigger xs[i]]
                0 <= i < xs.len() ==> json_equiv(xs[i], ys[i]),
            _ => false,
        },
        JsonView::Object(ms) => match b {
            JsonView::Object(ns) => {
                &&& forall|i: int|
                    #![trigger ms[i]]
                    0 <= i < ms.len() && first_member_index(ms, ms[i].0, 0) == Some(i) ==> match first_member_index(
                        ns,
                        ms[i].0,
                        0,
                    ) {
                        Some(j) => json_equiv(ms[i].1, ns[j].1),
                        None => false,
                    }
                &&& forall|j: int| 0 <= j < ns.len() ==> first_member_index(ms, #[trigger] ns[j].0, 0) is Some
            },
            _ => false,
        },
    }
}

proof fn lemma_first_member_before(members: Seq<(Seq<char>, JsonView)>, key: Seq<char>, from: int)
    requires
        0 <= from,
    ensures
        first_member_index(members, key, from) matches Some(f) ==> forall|j: int|
            from <= j < f ==> #[trigger] members[j].0 != key,
    decreases members.len() - from,
{
    if from < members.len() {
        lemma_first_member_before(members, key, from + 1);
    }
}

fn number_eq(a: &JsonNumber, b: &JsonNumber) -> (r: bool)
    ensures
        r == number_equiv(a.view(), b.view()),
{
    match (a, b) {
        (JsonNumber::Float(s), JsonNumber::Float(t)) => *s == *t,
        (JsonNumber::Float(_), _) => false,
        (_, JsonNumber::Float(_)) => false,
        (JsonNumber::PosInt(x), JsonNumber::PosInt(y)) => *x == *y,
        (JsonNumber::NegInt(x), JsonNumber::NegInt(y)) => *x == *y,
        (JsonNumber::PosInt(x), JsonNumber::NegInt(y)) => *y >= 0 && *x == (*y as u64),
        (JsonNumber::NegInt(x), JsonNumber::PosInt(y)) => *x >= 0 && (*x as u64) == *y,
    }
}

/// Whether two values denote the same JSON document; see `json_equiv`.
#[verifier::loop_isolation(false)]
pub fn json_eq(a: &JsonValue, b: &JsonValue) -> (r: bool)
    ensures
        r == json_equiv(a.view(), b.view()),
    decreases a,
{
    match a {
        JsonValue::Null => match b {
            JsonValue::Null => true,
            _ => false,
        },
        JsonValue::Bool(x) => match b {
            JsonValue::Bool(y) => *x == *y,
            _ => false,
        },
        JsonValue::Number(x) => match b {
            JsonValue::Number(y) => number_eq(x, y),
            _ => false,
        },
        JsonValue::String(x) => match b {
            JsonValue::String(y) => *x == *y,
            _ => false,
        },
        JsonValue::Array(xs) => match b {
            JsonValue::Array(ys) => {
                proof {
                    lemma_array_view(*xs);
                    lemma_array_view(*ys);
                }
                if xs.len() != ys.len() {
                    return false;
                }
                let mut i: usize = 0;
                while i < xs.len()
                    invariant
                        i <= xs@.len(),
                        xs@.len() == ys@.len(),
                        forall|j: int| 0 <= j < i ==> json_equiv(#[trigger] items_view(xs@)[j], items_view(ys@)[j]),
                    decreases xs@.len() - i,
                {
                    proof {
                        assert(decreases_to!(*xs => xs[i as int]));
                    }
                    if !json_eq(&xs[i], &ys[i]) {
                        proof {
                            assert(!json_equiv(items_view(xs@)[i as int], items_view(ys@)[i as int]));
                        }
                        return false;
                    }
                    i = i + 1;
                }
                true
            },
            _ => false,
        },
        JsonValue::Object(ms) => match b {
            JsonValue::Object(ns) => {
                proof {
                    lemma_object_view(*ms);
                    lemma_object_view(*ns);
                }
                let ghost mv = members_view(ms@);
                let ghost nv = members_view(ns@);
                let mut i: usize = 0;
                while i < ms.len()
                    invariant
                        i <= ms@.len(),
                        mv == members_view(ms@),
                        nv == members_view(ns@),
                        b.view() == JsonView::Object(nv),
                        forall|k: int|
                            #![trigger mv[k]]
                            0 <= k < i && first_member_index(mv, mv[k].0, 0) == Some(k) ==> match first_member_index(
                                nv,
                                mv[k].0,
                                0,
                            ) {
                                Some(j) => json_equiv(mv[k].1, nv[j].1),
                                None => false,
                            },
                    decreases ms@.len() - i,
                {
                    let ghost key = mv[i as int].0;
                    let mut earlier = false;
                    let mut k: usize = 0;
                    while k < i
                        invariant
                            k <= i < ms@.len(),
                            mv == members_view(ms@),
                            key == mv[i as int].0,
                            !earlier ==> forall|j: int| 0 <= j < k ==> #[trigger] mv[j].0 != key,
                            earlier ==> exists|j: int| 0 <= j < i && #[trigger] mv[j].0 == key,
                        decreases i - k,
                    {
                        if ms[k].0 == ms[i].0 {
                            proof {
                                assert(mv[k as int].0 == key);
                            }
                            earlier = true;
                        }
                        k = k + 1;
                    }
                    if earlier {
                        proof {
                            lemma_first_member_before(mv, key, 0);
                            lemma_first_member_index_bounds(mv, key, 0);
                            let j = choose|j: int| 0 <= j < i && #[trigger] mv[j].0 == key;
                            assert(first_member_index(mv, key, 0) != Some(i as int));
                        }
                    } else {
                        proof {
                            lemma_first_member(mv, key, i as int);
                        }
                        match b.get(ms[i].0.as_str()) {
                            Some(v) => {
                                proof {
                                    assert(decreases_to!(*ms => ms[i as int]));
                                    assert(decreases_to!(ms[i as int] => ms[i as int].1));
                                }
                                if !json_eq(&ms[i].1, v) {
                                    return false;
                                }
                            },
                            None => {
                                return false;
                            },
                        }
                    }
                    i = i + 1;
                }
                let mut j: usize = 0;
                while j < ns.len()
                    invariant
                        j <= ns@.len(),
                        mv == members_view(ms@),
                        nv == members_view(ns@),
                        a.view() == JsonView::Object(mv),
                        forall|t: int| 0 <= t < j ==> first_member_index(mv, #[trigger] nv[t].0, 0) is Some,
                    decreases ns@.len() - j,
                {
                    if a.get(ns[j].0.as_str()).is_none() {
                        proof {
                            assert(nv[j as int].0 == ns@[j as int].0@);
                        }
                        return false;
                    }
                    j = j + 1;
                }
                true
            },
            _ => false,
        },
    }
}

impl PartialEq for JsonValue {
    fn eq(&self, other: &Self) -> (r: bool) {
        json_eq(self, other)
    }
}

impl vstd::std_specs::cmp::PartialEqSpecImpl for JsonValue {
    open spec fn obeys_eq_spec() -> bool {
        true
    }

    open spec fn eq_spec(&self, other: &JsonValue) -> bool {
        json_equiv(self.view(), other.view())
    }
}

} // verus!
