//! The JSON value model on which flows, contexts and helpers operate.
//!
//! An object keeps its entries in order and a key is found at its first
//! occurrence; the operations of this module never add a second entry for a
//! key that is present.
use vstd::prelude::*;

use crate::text::{decimal, i64_to_string, int_decimal, u64_to_string};

verus! {

/// A JSON number: a non-negative integer, a negative integer, or a
/// floating-point number kept as its decimal text.
#[derive(Debug, PartialEq)]
pub enum Number {
    PosInt(u64),
    NegInt(i64),
    Float(String),
}

/// A JSON value.
#[derive(Debug, PartialEq)]
pub enum Value {
    Null,
    Bool(bool),
    Number(Number),
    String(String),
    Array(Vec<Value>),
    Object(JsonMap),
}

/// A JSON object: its entries, in order.
#[derive(Debug, PartialEq)]
pub struct JsonMap {
    pub entries: Vec<(String, Value)>,
}

/// The mathematical form of a number.
pub enum JNum {
    PosInt(u64),
    NegInt(i64),
    Float(Seq<char>),
}

/// The mathematical form of a value.
pub enum JVal {
    Null,
    Bool(bool),
    Num(JNum),
    Str(Seq<char>),
    Arr(Seq<JVal>),
    Obj(Seq<(Seq<char>, JVal)>),
}

pub open spec fn view_number(n: Number) -> JNum {
    match n {
        Number::PosInt(x) => JNum::PosInt(x),
        Number::NegInt(x) => JNum::NegInt(x),
        Number::Float(s) => JNum::Float(s@),
    }
}

pub open spec fn view_value(v: Value) -> JVal
    decreases v,
{
    match v {
        Value::Null => JVal::Null,
        Value::Bool(b) => JVal::Bool(b),
        Value::Number(n) => JVal::Num(view_number(n)),
        Value::String(s) => JVal::Str(s@),
        Value::Array(a) => JVal::Arr(view_values(a@)),
        Value::Object(m) => JVal::Obj(view_entries(m.entries@)),
    }
}

pub open spec fn view_values(s: Seq<Value>) -> Seq<JVal>
    decreases s,
{
    if s.len() == 0 {
        Seq::empty()
    } else {
        view_values(s.drop_last()).push(view_value(s.last()))
    }
}

pub open spec fn view_entries(s: Seq<(String, Value)>) -> Seq<(Seq<char>, JVal)>
    decreases s,
{
    if s.len() == 0 {
        Seq::empty()
    } else {
        let e = s.last();
        view_entries(s.drop_last()).push((e.0@, view_value(e.1)))
    }
}

impl View for Number {
    type V = JNum;

    open spec fn view(&self) -> JNum {
        view_number(*self)
    }
}

/// The JSON text of a number: the decimal of an integer, the text that a
/// floating-point number keeps.
pub open spec fn number_text_of(n: JNum) -> Seq<char> {
    match n {
        JNum::PosInt(u) => decimal(u as nat),
        JNum::NegInt(i) => int_decimal(i as int),
        JNum::Float(t) => t,
    }
}

impl Number {
    /// The JSON text of the number; see `number_text_of`.
    pub fn to_text(&self) -> (r: String)
        ensures
            r@ == number_text_of(self@),
    {
        match self {
            Number::PosInt(u) => u64_to_string(*u),
            Number::NegInt(i) => i64_to_string(*i),
            Number::Float(t) => t.clone(),
        }
    }
}

impl View for Value {
    type V = JVal;

    open spec fn view(&self) -> JVal {
        view_value(*self)
    }
}

impl View for JsonMap {
    type V = Seq<(Seq<char>, JVal)>;

    open spec fn view(&self) -> Seq<(Seq<char>, JVal)> {
        view_entries(self.entries@)
    }
}

pub proof fn lemma_view_values(s: Seq<Value>)
    ensures
        view_values(s).len() == s.len(),
        forall|i: int| 0 <= i < s.len() ==> #[trigger] view_values(s)[i] == view_value(s[i]),
    decreases s.len(),
{
    if s.len() > 0 {
        lemma_view_values(s.drop_last());
    }
}

pub proof fn lemma_view_entries(s: Seq<(String, Value)>)
    ensures
        view_entries(s).len() == s.len(),
        forall|i: int|
            0 <= i < s.len() ==> #[trigger] view_entries(s)[i] == (s[i].0@, view_value(s[i].1)),
    decreases s.len(),
{
    if s.len() > 0 {
        lemma_view_entries(s.drop_last());
    }
}

/// The keys of a list of entries, in order.
pub open spec fn keys_of(entries: Seq<(Seq<char>, JVal)>) -> Seq<Seq<char>> {
    entries.map_values(|e: (Seq<char>, JVal)| e.0)
}

/// Position of the first entry with key `k`, or -1 when there is none.
pub open spec fn key_pos(entries: Seq<(Seq<char>, JVal)>, k: Seq<char>) -> int
    decreases entries.len(),
{
    if entries.len() == 0 {
        -1
    } else if entries[0].0 == k {
        0
    } else {
        let r = key_pos(entries.skip(1), k);
        if r < 0 {
            -1
        } else {
            r + 1
        }
    }
}

/// The value stored under key `k`, if any.
pub open spec fn lookup(entries: Seq<(Seq<char>, JVal)>, k: Seq<char>) -> Option<JVal> {
    let p = key_pos(entries, k);
    if p < 0 {
        None
    } else {
        Some(entries[p].1)
    }
}

/// The entries after storing `v` under `k`: an existing entry's value is
/// replaced in place, a new key is appended at the end.
pub open spec fn map_insert(m: Seq<(Seq<char>, JVal)>, k: Seq<char>, v: JVal) -> Seq<(Seq<char>, JVal)> {
    let p = key_pos(m, k);
    if p >= 0 {
        m.update(p, (k, v))
    } else {
        m.push((k, v))
    }
}

/// The entries after removing key `k`, keeping the order of the others.
pub open spec fn map_remove(m: Seq<(Seq<char>, JVal)>, k: Seq<char>) -> Seq<(Seq<char>, JVal)> {
    let p = key_pos(m, k);
    if p >= 0 {
        m.remove(p)
    } else {
        m
    }
}

/// What indexing a value by a key gives: the entry's value for an object
/// holding the key, `Null` otherwise.
pub open spec fn index_key(v: JVal, k: Seq<char>) -> JVal {
    match v {
        JVal::Obj(m) => match lookup(m, k) {
            Some(x) => x,
            None => JVal::Null,
        },
        _ => JVal::Null,
    }
}

/// Indexing by a path of keys, one after the other.
pub open spec fn index_path(v: JVal, path: Seq<Seq<char>>) -> JVal
    decreases path.len(),
{
    if path.len() == 0 {
        v
    } else {
        index_path(index_key(v, path[0]), path.skip(1))
    }
}

/// The keys of a value that is an object.
pub open spec fn object_keys(v: JVal) -> Option<Seq<Seq<char>>> {
    match v {
        JVal::Obj(m) => Some(keys_of(m)),
        _ => None,
    }
}

/// The text of a value that is a string.
pub open spec fn string_of(v: JVal) -> Option<Seq<char>> {
    match v {
        JVal::Str(s) => Some(s),
        _ => None,
    }
}

/// The value as an unsigned integer, where it is one.
pub open spec fn u64_of(v: JVal) -> Option<u64> {
    match v {
        JVal::Num(JNum::PosInt(n)) => Some(n),
        _ => None,
    }
}

pub proof fn lemma_key_pos_bounds(entries: Seq<(Seq<char>, JVal)>, k: Seq<char>)
    ensures
        -1 <= key_pos(entries, k) < entries.len(),
        key_pos(entries, k) >= 0 ==> entries[key_pos(entries, k)].0 == k,
        key_pos(entries, k) >= 0 ==> forall|j: int|
            0 <= j < key_pos(entries, k) ==> entries[j].0 != k,
        key_pos(entries, k) < 0 ==> forall|j: int| 0 <= j < entries.len() ==> entries[j].0 != k,
    decreases entries.len(),
{
    if entries.len() > 0 && entries[0].0 != k {
        lemma_key_pos_bounds(entries.skip(1), k);
        assert forall|j: int| 1 <= j < entries.len() implies entries[j] == entries.skip(1)[j
            - 1] by {}
    }
}

/// The first position with key `k` is `i` when key `i` is `k` and no earlier one is.
pub proof fn lemma_key_pos_is(entries: Seq<(Seq<char>, JVal)>, k: Seq<char>, i: int)
    requires
        0 <= i < entries.len(),
        entries[i].0 == k,
        forall|j: int| 0 <= j < i ==> entries[j].0 != k,
    ensures
        key_pos(entries, k) == i,
{
    lemma_key_pos_bounds(entries, k);
}

/// Key `k` is absent when no key equals it.
pub proof fn lemma_key_pos_absent(entries: Seq<(Seq<char>, JVal)>, k: Seq<char>)
    requires
        forall|j: int| 0 <= j < entries.len() ==> entries[j].0 != k,
    ensures
        key_pos(entries, k) == -1,
{
    lemma_key_pos_bounds(entries, k);
}

/// Reading back a key after storing a value under it gives that value,
/// and every other key keeps its value.
pub proof fn law_insert_lookup(m: Seq<(Seq<char>, JVal)>, k: Seq<char>, v: JVal, other: Seq<char>)
    ensures
        lookup(map_insert(m, k, v), k) == Some(v),
        other != k ==> lookup(map_insert(m, k, v), other) == lookup(m, other),
{
    lemma_key_pos_bounds(m, k);
    lemma_key_pos_bounds(m, other);
    let r = map_insert(m, k, v);
    let p = key_pos(m, k);
    if p >= 0 {
        lemma_key_pos_is(r, k, p);
        if other != k {
            let q = key_pos(m, other);
            if q >= 0 {
                lemma_key_pos_is(r, other, q);
            } else {
                lemma_key_pos_absent(r, other);
            }
        }
    } else {
        lemma_key_pos_is(r, k, m.len() as int);
        if other != k {
            let q = key_pos(m, other);
            if q >= 0 {
                lemma_key_pos_is(r, other, q);
            } else {
                lemma_key_pos_absent(r, other);
            }
        }
    }
}

/// After removing a key it is absent, and every other key keeps its value.
pub proof fn law_remove_lookup(m: Seq<(Seq<char>, JVal)>, k: Seq<char>, other: Seq<char>)
    requires
        keys_of(m).no_duplicates(),
    ensures
        lookup(map_remove(m, k), k) is None,
        other != k ==> lookup(map_remove(m, k), other) == lookup(m, other),
{
    lemma_key_pos_bounds(m, k);
    lemma_key_pos_bounds(m, other);
    let r = map_remove(m, k);
    let p = key_pos(m, k);
    if p >= 0 {
        assert forall|j: int| 0 <= j < r.len() implies r[j].0 != k by {
            if j < p {
            } else {
                assert(r[j] == m[j + 1]);
                assert(keys_of(m)[j + 1] == m[j + 1].0 && keys_of(m)[p] == m[p].0);
            }
        }
        lemma_key_pos_absent(r, k);
        if other != k {
            let q = key_pos(m, other);
            if q >= 0 {
                if q < p {
                    lemma_key_pos_is(r, other, q);
                } else {
                    assert(q != p);
                    assert(r[q - 1] == m[q]);
                    assert forall|j: int| 0 <= j < q - 1 implies r[j].0 != other by {
                        if j >= p {
                            assert(r[j] == m[j + 1]);
                        }
                    }
                    lemma_key_pos_is(r, other, q - 1);
                }
            } else {
                assert forall|j: int| 0 <= j < r.len() implies r[j].0 != other by {
                    if j >= p {
                        assert(r[j] == m[j + 1]);
                    }
                }
                lemma_key_pos_absent(r, other);
            }
        }
    }
}

/// Storing a value under a key never gives a key two entries.
pub proof fn law_insert_keys_distinct(m: Seq<(Seq<char>, JVal)>, k: Seq<char>, v: JVal)
    requires
        keys_of(m).no_duplicates(),
    ensures
        keys_of(map_insert(m, k, v)).no_duplicates(),
{
    lemma_key_pos_bounds(m, k);
    let r = map_insert(m, k, v);
    let p = key_pos(m, k);
    assert forall|i: int, j: int| 0 <= i < j < r.len() implies keys_of(r)[i] != keys_of(r)[j] by {
        assert(keys_of(r)[i] == r[i].0 && keys_of(r)[j] == r[j].0);
        if p >= 0 {
            assert(keys_of(m)[i] == m[i].0 && keys_of(m)[j] == m[j].0);
        } else if j < m.len() {
            assert(keys_of(m)[i] == m[i].0 && keys_of(m)[j] == m[j].0);
        }
    }
}

/// Whether two strings hold the same text.
pub fn str_eq(a: &str, b: &str) -> (r: bool)
    ensures
        r == (a@ == b@),
{
    let x = a.to_owned();
    let y = b.to_owned();
    x == y
}

impl JsonMap {
    pub fn new() -> (m: JsonMap)
        ensures
            m@ == Seq::<(Seq<char>, JVal)>::empty(),
    {
        JsonMap { entries: Vec::new() }
    }

    pub fn len(&self) -> (n: usize)
        ensures
            n == self@.len(),
    {
        proof {
            lemma_view_entries(self.entries@);
        }
        self.entries.len()
    }

    pub fn is_empty(&self) -> (b: bool)
        ensures
            b == (self@.len() == 0),
    {
        proof {
            lemma_view_entries(self.entries@);
        }
        self.entries.len() == 0
    }

    /// The entry at position `i`.
    pub fn entry(&self, i: usize) -> (e: (&String, &Value))
        requires
            i < self@.len(),
        ensures
            (e.0@, e.1@) == self@[i as int],
    {
        proof {
            lemma_view_entries(self.entries@);
        }
        (&self.entries[i].0, &self.entries[i].1)
    }

    /// The position of key `k`, if present.
    pub fn position(&self, k: &str) -> (r: Option<usize>)
        ensures
            match r {
                Some(i) => key_pos(self@, k@) == i,
                None => key_pos(self@, k@) == -1,
            },
    {
        proof {
            lemma_view_entries(self.entries@);
        }
        let n = self.entries.len();
        let mut i: usize = 0;
        while i < n
            invariant
                n == self.entries@.len(),
                n == self@.len(),
                i <= n,
                forall|j: int| 0 <= j < i ==> self@[j].0 != k@,
                forall|j: int|
                    0 <= j < n ==> #[trigger] self@[j] == (
                        self.entries@[j].0@,
                        view_value(self.entries@[j].1),
                    ),
            decreases n - i,
        {
            if str_eq(self.entries[i].0.as_str(), k) {
                proof {
                    lemma_key_pos_is(self@, k@, i as int);
                }
                return Some(i);
            }
            i = i + 1;
        }
        proof {
            lemma_key_pos_absent(self@, k@);
        }
        None
    }

    /// The value stored under `k`.
    pub fn get(&self, k: &str) -> (r: Option<&Value>)
        ensures
            match r {
                Some(v) => lookup(self@, k@) == Some(v@),
                None => lookup(self@, k@) is None,
            },
    {
        proof {
            lemma_view_entries(self.entries@);
            lemma_key_pos_bounds(self@, k@);
        }
        match self.position(k) {
            Some(i) => Some(&self.entries[i].1),
            None => None,
        }
    }

    pub fn contains_key(&self, k: &str) -> (b: bool)
        ensures
            b == (lookup(self@, k@) is Some),
    {
        self.position(k).is_some()
    }

    /// Stores `v` under `k`: the value of an existing entry is replaced in
    /// place, a new key is appended at the end.
    pub fn insert(&mut self, k: String, v: Value)
        ensures
            final(self)@ == map_insert(old(self)@, k@, v@),
    {
        proof {
            lemma_view_entries(self.entries@);
            lemma_key_pos_bounds(self@, k@);
        }
        match self.position(k.as_str()) {
            Some(i) => {
                self.entries.set(i, (k, v));
                proof {
                    lemma_view_entries(self.entries@);
                    assert(self@ == old(self)@.update(i as int, (k@, v@)));
                }
            },
            None => {
                self.entries.push((k, v));
                proof {
                    lemma_view_entries(self.entries@);
                    assert(self@ == old(self)@.push((k@, v@)));
                }
            },
        }
    }

    /// Removes the entry of key `k`, keeping the order of the others.
    pub fn remove(&mut self, k: &str)
        ensures
            final(self)@ == map_remove(old(self)@, k@),
    {
        proof {
            lemma_view_entries(self.entries@);
            lemma_key_pos_bounds(self@, k@);
        }
        match self.position(k) {
            Some(p) => {
                let _ = self.entries.remove(p);
                proof {
                    lemma_view_entries(self.entries@);
                    assert(self@ =~= old(self)@.remove(p as int));
                }
            },
            None => {},
        }
    }

    /// Stores `v` under `inner` in the object stored under `outer`.
    pub fn insert_nested(&mut self, outer: &str, inner: String, v: Value)
        requires
            lookup(old(self)@, outer@) matches Some(JVal::Obj(_)),
        ensures
            ({
                let p = key_pos(old(self)@, outer@);
                let m = old(self)@[p].1->Obj_0;
                final(self)@ == old(self)@.update(p, (outer@, JVal::Obj(map_insert(m, inner@, v@))))
            }),
    {
        proof {
            lemma_view_entries(self.entries@);
            lemma_key_pos_bounds(self@, outer@);
        }
        let p = match self.position(outer) {
            Some(p) => p,
            None => {
                return;
            },
        };
        let (k, mut val) = self.entries.remove(p);
        match &mut val {
            Value::Object(m) => m.insert(inner, v),
            _ => {},
        }
        self.entries.insert(p, (k, val));
        proof {
            lemma_view_entries(self.entries@);
            assert(self@ =~= old(self)@.update(p as int, (outer@, JVal::Obj(map_insert(old(self)@[p as int].1->Obj_0, inner@, v@)))));
        }
    }

    /// The keys, in order.
    pub fn keys(&self) -> (ks: Vec<&str>)
        ensures
            ks@.len() == self@.len(),
            forall|i: int| 0 <= i < ks@.len() ==> ks@[i]@ == #[trigger] keys_of(self@)[i],
    {
        proof {
            lemma_view_entries(self.entries@);
        }
        let mut ks: Vec<&str> = Vec::new();
        let n = self.entries.len();
        for i in 0..n
            invariant
                n == self.entries@.len(),
                n == self@.len(),
                ks@.len() == i,
                forall|j: int| 0 <= j < i ==> ks@[j]@ == self.entries@[j].0@,
                forall|j: int|
                    0 <= j < n ==> #[trigger] self@[j] == (
                        self.entries@[j].0@,
                        view_value(self.entries@[j].1),
                    ),
        {
            ks.push(self.entries[i].0.as_str());
        }
        ks
    }

    /// A copy of the object.
    pub fn deep_clone(&self) -> (r: JsonMap)
        ensures
            r@ == self@,
        decreases self,
    {
        let mut out: Vec<(String, Value)> = Vec::new();
        let n = self.entries.len();
        for i in 0..n
            invariant
                n == self.entries@.len(),
                out@.len() == i,
                view_entries(out@) == view_entries(self.entries@.take(i as int)),
        {
            let k = self.entries[i].0.clone();
            let v = self.entries[i].1.deep_clone();
            let ghost before = out@;
            out.push((k, v));
            proof {
                assert(out@.drop_last() == before);
                let t = self.entries@.take(i + 1);
                assert(t.drop_last() == self.entries@.take(i as int));
            }
        }
        proof {
            assert(self.entries@.take(n as int) == self.entries@);
        }
        JsonMap { entries: out }
    }
}

impl Number {
    /// The number as a `u64`, where it is a non-negative integer.
    pub open spec fn spec_as_u64(self) -> Option<u64> {
        match self {
            Number::PosInt(n) => Some(n),
            _ => None,
        }
    }

    /// The number as an `i64`, where it is an integer in range.
    pub open spec fn spec_as_i64(self) -> Option<i64> {
        match self {
            Number::PosInt(n) => if n <= i64::MAX as u64 {
                Some(n as i64)
            } else {
                None
            },
            Number::NegInt(n) => Some(n),
            _ => None,
        }
    }

    pub fn as_u64(&self) -> (r: Option<u64>)
        ensures
            r == self.spec_as_u64(),
    {
        match self {
            Number::PosInt(n) => Some(*n),
            _ => None,
        }
    }

    pub fn as_i64(&self) -> (r: Option<i64>)
        ensures
            r == self.spec_as_i64(),
    {
        match self {
            Number::PosInt(n) => if *n <= 9223372036854775807u64 {
                Some(*n as i64)
            } else {
                None
            },
            Number::NegInt(n) => Some(*n),
            _ => None,
        }
    }

    /// Whether the number is a floating-point one.
    pub fn is_f64(&self) -> (b: bool)
        ensures
            b == (*self is Float),
    {
        match self {
            Number::Float(_) => true,
            _ => false,
        }
    }

    /// The number holding `n`: a negative one as such, any other as a
    /// non-negative integer.
    pub fn from_i64(n: i64) -> (r: Number)
        ensures
            r.spec_as_i64() == Some(n),
            n < 0 ==> r == Number::NegInt(n),
            n >= 0 ==> r == Number::PosInt(n as u64),
    {
        if n < 0 {
            Number::NegInt(n)
        } else {
            Number::PosInt(n as u64)
        }
    }

    /// A copy of the number.
    pub fn copy(&self) -> (r: Number)
        ensures
            r@ == self@,
    {
        match self {
            Number::PosInt(n) => Number::PosInt(*n),
            Number::NegInt(n) => Number::NegInt(*n),
            Number::Float(s) => Number::Float(s.clone()),
        }
    }
}

impl Value {
    pub fn is_null(&self) -> (b: bool)
        ensures
            b == (self@ is Null),
    {
        match self {
            Value::Null => true,
            _ => false,
        }
    }

    pub fn is_string(&self) -> (b: bool)
        ensures
            b == (self@ is Str),
    {
        match self {
            Value::String(_) => true,
            _ => false,
        }
    }

    pub fn as_object(&self) -> (r: Option<&JsonMap>)
        ensures
            match r {
                Some(m) => self@ == JVal::Obj(m@),
                None => !(self@ is Obj),
            },
    {
        match self {
            Value::Object(m) => Some(m),
            _ => None,
        }
    }

    pub fn as_array(&self) -> (r: Option<&Vec<Value>>)
        ensures
            match r {
                Some(a) => self@ == JVal::Arr(view_values(a@)),
                None => !(self@ is Arr),
            },
    {
        match self {
            Value::Array(a) => Some(a),
            _ => None,
        }
    }

    pub fn as_str(&self) -> (r: Option<&str>)
        ensures
            match r {
                Some(s) => string_of(self@) == Some(s@),
                None => string_of(self@) is None,
            },
    {
        match self {
            Value::String(s) => Some(s.as_str()),
            _ => None,
        }
    }

    pub fn as_bool(&self) -> (r: Option<bool>)
        ensures
            match self@ {
                JVal::Bool(b) => r == Some(b),
                _ => r is None,
            },
    {
        match self {
            Value::Bool(b) => Some(*b),
            _ => None,
        }
    }

    pub fn as_u64(&self) -> (r: Option<u64>)
        ensures
            r == u64_of(self@),
    {
        match self {
            Value::Number(n) => n.as_u64(),
            _ => None,
        }
    }

    /// The value under key `k`, where this is an object holding `k`.
    pub fn get(&self, k: &str) -> (r: Option<&Value>)
        ensures
            match r {
                Some(v) => index_key(self@, k@) == v@ && self@ is Obj && lookup(
                    self@->Obj_0,
                    k@,
                ) == Some(v@),
                None => index_key(self@, k@) == JVal::Null && (self@ is Obj ==> lookup(
                    self@->Obj_0,
                    k@,
                ) is None),
            },
    {
        match self {
            Value::Object(m) => m.get(k),
            _ => None,
        }
    }

    /// A copy of the value.
    pub fn deep_clone(&self) -> (r: Value)
        ensures
            r@ == self@,
        decreases self,
    {
        match self {
            Value::Null => Value::Null,
            Value::Bool(b) => Value::Bool(*b),
            Value::Number(n) => Value::Number(n.copy()),
            Value::String(s) => Value::String(s.clone()),
            Value::Array(a) => {
                let mut out: Vec<Value> = Vec::new();
                let n = a.len();
                for i in 0..n
                    invariant
                        n == a@.len(),
                        *self == Value::Array(*a),
                        out@.len() == i,
                        view_values(out@) == view_values(a@.take(i as int)),
                {
                    proof {
                        vstd::std_specs::vec::axiom_vec_index_decreases(*a, i as int);
                        assert(decreases_to!(*self => self->Array_0));
                    }
                    let x = a[i].deep_clone();
                    let ghost before = out@;
                    out.push(x);
                    proof {
                        assert(out@.drop_last() == before);
                        let t = a@.take(i + 1);
                        assert(t.drop_last() == a@.take(i as int));
                    }
                }
                proof {
                    assert(a@.take(n as int) == a@);
                }
                Value::Array(out)
            },
            Value::Object(m) => Value::Object(m.deep_clone()),
        }
    }
}

/// Whether two values are equal as JSON values: arrays element by element,
/// objects holding the same keys with equal values whatever their order,
/// anything else alike. Floating-point numbers are compared by their text.
pub open spec fn json_eq(a: JVal, b: JVal) -> bool
    decreases a,
{
    match a {
        JVal::Arr(x) => match b {
            JVal::Arr(y) => x.len() == y.len() && forall|i: int|
                0 <= i < x.len() ==> json_eq(#[trigger] x[i], y[i]),
            _ => false,
        },
        JVal::Obj(m) => match b {
            JVal::Obj(n) => m.len() == n.len() && forall|i: int|
                0 <= i < m.len() ==> (#[trigger] lookup(n, m[i].0) matches Some(w) && json_eq(m[i].1, w)),
            _ => false,
        },
        _ => a == b,
    }
}

/// Whether two values are equal as JSON values; see `json_eq`.
pub fn values_equal(a: &Value, b: &Value) -> (r: bool)
    ensures
        r == json_eq(a@, b@),
    decreases a,
{
    match (a, b) {
        (Value::Array(x), Value::Array(y)) => {
            proof {
                lemma_view_values(x@);
                lemma_view_values(y@);
            }
            if x.len() != y.len() {
                return false;
            }
            let n = x.len();
            let mut i: usize = 0;
            while i < n
                invariant
                    *a == Value::Array(*x),
                    *b == Value::Array(*y),
                    a@ == JVal::Arr(view_values(x@)),
                    b@ == JVal::Arr(view_values(y@)),
                    n == x@.len(),
                    n == y@.len(),
                    i <= n,
                    view_values(x@).len() == n,
                    view_values(y@).len() == n,
                    forall|j: int| 0 <= j < n ==> #[trigger] view_values(x@)[j] == x@[j]@,
                    forall|j: int| 0 <= j < n ==> #[trigger] view_values(y@)[j] == y@[j]@,
                    forall|j: int| 0 <= j < i ==> json_eq(#[trigger] view_values(x@)[j], view_values(y@)[j]),
                decreases n - i,
            {
                proof {
                    vstd::std_specs::vec::axiom_vec_index_decreases(*x, i as int);
                    assert(decreases_to!(*a => a->Array_0));
                }
                if !values_equal(&x[i], &y[i]) {
                    assert(!json_eq(view_values(x@)[i as int], view_values(y@)[i as int]));
                    return false;
                }
                i = i + 1;
            }
            true
        },
        (Value::Object(m), Value::Object(o)) => {
            proof {
                lemma_view_entries(m.entries@);
            }
            if m.len() != o.len() {
                return false;
            }
            let n = m.entries.len();
            let mut i: usize = 0;
            while i < n
                invariant
                    *a == Value::Object(*m),
                    *b == Value::Object(*o),
                    n == m.entries@.len(),
                    n == m@.len(),
                    m@.len() == o@.len(),
                    i <= n,
                    forall|j: int| 0 <= j < n ==> #[trigger] m@[j] == (m.entries@[j].0@, m.entries@[j].1@),
                    forall|j: int|
                        0 <= j < i ==> (#[trigger] lookup(o@, m@[j].0) matches Some(w) && json_eq(m@[j].1, w)),
                decreases n - i,
            {
                proof {
                    vstd::std_specs::vec::axiom_vec_index_decreases(m.entries, i as int);
                    assert(decreases_to!(*a => a->Object_0));
                    assert(decreases_to!(a->Object_0 => a->Object_0.entries));
                    assert(decreases_to!(*a => m.entries@[i as int]));
                    assert(decreases_to!(*a => m.entries@[i as int].1));
                }
                match o.get(m.entries[i].0.as_str()) {
                    Some(w) => {
                        if !values_equal(&m.entries[i].1, w) {
                            assert(!(lookup(o@, m@[i as int].0) matches Some(w) && json_eq(m@[i as int].1, w)));
                            return false;
                        }
                    },
                    None => {
                        assert(!(lookup(o@, m@[i as int].0) matches Some(w) && json_eq(m@[i as int].1, w)));
                        return false;
                    },
                }
                i = i + 1;
            }
            true
        },
        (Value::Null, Value::Null) => true,
        (Value::Bool(x), Value::Bool(y)) => *x == *y,
        (Value::Number(x), Value::Number(y)) => match (x, y) {
            (Number::PosInt(p), Number::PosInt(q)) => *p == *q,
            (Number::NegInt(p), Number::NegInt(q)) => *p == *q,
            (Number::Float(p), Number::Float(q)) => str_eq(p.as_str(), q.as_str()),
            _ => false,
        },
        (Value::String(x), Value::String(y)) => str_eq(x.as_str(), y.as_str()),
        _ => false,
    }
}

/// The mathematical form of a value that may be absent: absent is `Null`.
pub open spec fn opt_val(v: Option<&Value>) -> JVal {
    match v {
        Some(x) => x@,
        None => JVal::Null,
    }
}

/// Indexing a value that may be absent by a key.
pub fn get_in<'a>(v: Option<&'a Value>, k: &str) -> (r: Option<&'a Value>)
    ensures
        opt_val(r) == index_key(opt_val(v), k@),
{
    match v {
        Some(x) => x.get(k),
        None => None,
    }
}

} // verus!
