use vstd::prelude::*;

verus! {

/// A node of the tree that a theme file parses into.
pub enum Value {
    String(String),
    Integer(i64),
    /// A float, held as the bit pattern of its IEEE 754 double.
    Float(u64),
    Boolean(bool),
    /// A timestamp, held as its canonical text.
    Datetime(String),
    Array(Vec<Value>),
    /// Entries in insertion order.
    Table(Vec<(String, Value)>),
}

/// The mathematical form of a `Value`.
pub enum Tree {
    Str(Seq<char>),
    Int(i64),
    Float(u64),
    Bool(bool),
    Time(Seq<char>),
    Arr(Seq<Tree>),
    Table(Seq<(Seq<char>, Tree)>),
}

impl View for Value {
    type V = Tree;

    open spec fn view(&self) -> Tree {
        tree_of(*self)
    }
}

/// The mathematical form of a `Value`, node by node.
pub open spec fn tree_of(v: Value) -> Tree
    decreases v,
{
    match v {
            Value::String(s) => Tree::Str(s@),
            Value::Integer(i) => Tree::Int(i),
            Value::Float(b) => Tree::Float(b),
            Value::Boolean(b) => Tree::Bool(b),
            Value::Datetime(s) => Tree::Time(s@),
            Value::Array(a) => Tree::Arr(
                Seq::new(a@.len(), |i: int| if 0 <= i < a@.len() { tree_of(a@[i]) } else { Tree::Bool(false) }),
            ),
            Value::Table(t) => Tree::Table(
                Seq::new(
                    t@.len(),
                    |i: int|
                        if 0 <= i < t@.len() {
                            (t@[i].0@, tree_of(t@[i].1))
                        } else {
                            (Seq::empty(), Tree::Bool(false))
                        },
                ),
            ),
    }
}

/// A node of the tree that JSON output is written from.
pub enum Json {
    Null,
    Bool(bool),
    Int(i64),
    /// A finite float, held as the bit pattern of its IEEE 754 double.
    Float(u64),
    String(String),
    Array(Vec<Json>),
    /// Members in insertion order.
    Object(Vec<(String, Json)>),
}

/// The mathematical form of a `Json`.
pub enum JsonTree {
    Null,
    Bool(bool),
    Int(i64),
    Float(u64),
    Str(Seq<char>),
    Arr(Seq<JsonTree>),
    Obj(Seq<(Seq<char>, JsonTree)>),
}

impl View for Json {
    type V = JsonTree;

    open spec fn view(&self) -> JsonTree {
        json_tree_of(*self)
    }
}

/// The mathematical form of a `Json`, node by node.
pub open spec fn json_tree_of(v: Json) -> JsonTree
    decreases v,
{
    match v {
            Json::Null => JsonTree::Null,
            Json::Bool(b) => JsonTree::Bool(b),
            Json::Int(i) => JsonTree::Int(i),
            Json::Float(b) => JsonTree::Float(b),
            Json::String(s) => JsonTree::Str(s@),
            Json::Array(a) => JsonTree::Arr(
                Seq::new(a@.len(), |i: int| if 0 <= i < a@.len() { json_tree_of(a@[i]) } else { JsonTree::Null }),
            ),
            Json::Object(t) => JsonTree::Obj(
                Seq::new(
                    t@.len(),
                    |i: int|
                        if 0 <= i < t@.len() {
                            (t@[i].0@, json_tree_of(t@[i].1))
                        } else {
                            (Seq::empty(), JsonTree::Null)
                        },
                ),
            ),
    }
}

/// A double is finite when its exponent bits are not all ones.
pub open spec fn finite_bits(bits: u64) -> bool {
    (bits >> 52u64) & 0x7ffu64 != 0x7ffu64
}

/// Every float in the tree is finite.
pub open spec fn finite(t: Tree) -> bool
    decreases t,
{
    match t {
        Tree::Float(b) => finite_bits(b),
        Tree::Arr(s) => forall|i: int| 0 <= i < s.len() ==> finite(#[trigger] s[i]),
        Tree::Table(e) => forall|i: int| 0 <= i < e.len() ==> finite(#[trigger] e[i].1),
        _ => true,
    }
}

/// The JSON form of a tree: one node for each node, in the same order;
/// a timestamp becomes its text.
pub open spec fn to_json(t: Tree) -> JsonTree
    decreases t,
{
    match t {
        Tree::Str(s) => JsonTree::Str(s),
        Tree::Int(i) => JsonTree::Int(i),
        Tree::Float(b) => JsonTree::Float(b),
        Tree::Bool(b) => JsonTree::Bool(b),
        Tree::Time(s) => JsonTree::Str(s),
        Tree::Arr(s) => JsonTree::Arr(
            Seq::new(s.len(), |i: int| if 0 <= i < s.len() { to_json(s[i]) } else { JsonTree::Null }),
        ),
        Tree::Table(e) => JsonTree::Obj(
            Seq::new(
                e.len(),
                |i: int|
                    if 0 <= i < e.len() {
                        (e[i].0, to_json(e[i].1))
                    } else {
                        (Seq::empty(), JsonTree::Null)
                    },
            ),
        ),
    }
}

/// The tree with every timestamp replaced by its text.
pub open spec fn without_time(t: Tree) -> Tree
    decreases t,
{
    match t {
        Tree::Time(s) => Tree::Str(s),
        Tree::Arr(s) => Tree::Arr(
            Seq::new(s.len(), |i: int| if 0 <= i < s.len() { without_time(s[i]) } else { Tree::Bool(false) }),
        ),
        Tree::Table(e) => Tree::Table(
            Seq::new(
                e.len(),
                |i: int|
                    if 0 <= i < e.len() {
                        (e[i].0, without_time(e[i].1))
                    } else {
                        (Seq::empty(), Tree::Bool(false))
                    },
            ),
        ),
        _ => t,
    }
}

/// The tree holds a JSON null somewhere.
pub open spec fn has_null(j: JsonTree) -> bool
    decreases j,
{
    match j {
        JsonTree::Null => true,
        JsonTree::Arr(s) => exists|i: int| 0 <= i < s.len() && has_null(#[trigger] s[i]),
        JsonTree::Obj(e) => exists|i: int| 0 <= i < e.len() && has_null(#[trigger] e[i].1),
        _ => false,
    }
}

/// Every float in the JSON tree is finite.
pub open spec fn json_finite(j: JsonTree) -> bool
    decreases j,
{
    match j {
        JsonTree::Float(b) => finite_bits(b),
        JsonTree::Arr(s) => forall|i: int| 0 <= i < s.len() ==> json_finite(#[trigger] s[i]),
        JsonTree::Obj(e) => forall|i: int| 0 <= i < e.len() ==> json_finite(#[trigger] e[i].1),
        _ => true,
    }
}

/// The tree that a JSON tree reads back into; meaningful where it holds no null.
pub open spec fn from_json(j: JsonTree) -> Tree
    decreases j,
{
    match j {
        JsonTree::Null => Tree::Str(Seq::empty()),
        JsonTree::Bool(b) => Tree::Bool(b),
        JsonTree::Int(i) => Tree::Int(i),
        JsonTree::Float(b) => Tree::Float(b),
        JsonTree::Str(s) => Tree::Str(s),
        JsonTree::Arr(s) => Tree::Arr(
            Seq::new(s.len(), |i: int| if 0 <= i < s.len() { from_json(s[i]) } else { Tree::Bool(false) }),
        ),
        JsonTree::Obj(e) => Tree::Table(
            Seq::new(
                e.len(),
                |i: int|
                    if 0 <= i < e.len() {
                        (e[i].0, from_json(e[i].1))
                    } else {
                        (Seq::empty(), Tree::Bool(false))
                    },
            ),
        ),
    }
}

fn is_finite_bits(bits: u64) -> (r: bool)
    ensures
        r == finite_bits(bits),
{
    (bits >> 52u64) & 0x7ffu64 != 0x7ffu64
}

/// Converts a value tree into its JSON form, node for node and in order.
/// Fails exactly when the tree holds a NaN or an infinite float.
#[verifier::loop_isolation(false)]
pub fn convert(value: &Value) -> (r: Option<Json>)
    ensures
        r is Some <==> finite(value@),
        r matches Some(j) ==> j@ == to_json(value@),
    decreases value,
{
    match value {
        Value::String(s) => Some(Json::String(s.clone())),
        Value::Integer(i) => Some(Json::Int(*i)),
        Value::Float(b) => {
            if is_finite_bits(*b) {
                Some(Json::Float(*b))
            } else {
                None
            }
        },
        Value::Boolean(b) => Some(Json::Bool(*b)),
        Value::Datetime(s) => Some(Json::String(s.clone())),
        Value::Array(a) => {
            let mut out: Vec<Json> = Vec::new();
            let mut i: usize = 0;
            while i < a.len()
                invariant
                    i <= a.len(),
                    out@.len() == i,
                    forall|k: int| 0 <= k < i ==> finite(#[trigger] a@[k]@) && out@[k]@ == to_json(a@[k]@),
                decreases a.len() - i,
            {
                match convert(&a[i]) {
                    Some(j) => out.push(j),
                    None => {
                        assert(value@->Arr_0[i as int] == a@[i as int]@);
                        return None;
                    },
                }
                i += 1;
            }
            let r = Json::Array(out);
            assert forall|k: int| 0 <= k < a@.len() implies r@->Arr_0[k] == to_json(value@)->Arr_0[k] by {
                assert(value@->Arr_0[k] == a@[k]@);
            }
            assert forall|k: int| 0 <= k < a@.len() implies finite(#[trigger] value@->Arr_0[k]) by {
                assert(value@->Arr_0[k] == a@[k]@);
            }
            assert(r@->Arr_0 =~= to_json(value@)->Arr_0);
            Some(r)
        },
        Value::Table(t) => {
            let mut out: Vec<(String, Json)> = Vec::new();
            let mut i: usize = 0;
            while i < t.len()
                invariant
                    i <= t.len(),
                    out@.len() == i,
                    forall|k: int|
                        0 <= k < i ==> finite(#[trigger] t@[k].1@) && out@[k].1@ == to_json(t@[k].1@)
                            && out@[k].0@ == t@[k].0@,
                decreases t.len() - i,
            {
                match convert(&t[i].1) {
                    Some(j) => out.push((t[i].0.clone(), j)),
                    None => {
                        assert(value@->Table_0[i as int].1 == t@[i as int].1@);
                        return None;
                    },
                }
                i += 1;
            }
            let r = Json::Object(out);
            assert forall|k: int| 0 <= k < t@.len() implies r@->Obj_0[k] == to_json(value@)->Obj_0[k] by {
                assert(value@->Table_0[k] == (t@[k].0@, t@[k].1@));
            }
            assert forall|k: int| 0 <= k < t@.len() implies finite(#[trigger] value@->Table_0[k].1) by {
                assert(value@->Table_0[k] == (t@[k].0@, t@[k].1@));
            }
            assert(r@->Obj_0 =~= to_json(value@)->Obj_0);
            Some(r)
        },
    }
}

/// Reads a JSON tree back into a value tree, node for node and in order.
/// Fails exactly when the JSON tree holds a null, which no value can stand for.
#[verifier::loop_isolation(false)]
pub fn convert_back(json: &Json) -> (r: Option<Value>)
    ensures
        r is Some <==> !has_null(json@),
        r matches Some(v) ==> v@ == from_json(json@),
    decreases json,
{
    match json {
        Json::Null => None,
        Json::Bool(b) => Some(Value::Boolean(*b)),
        Json::Int(i) => Some(Value::Integer(*i)),
        Json::Float(b) => Some(Value::Float(*b)),
        Json::String(s) => Some(Value::String(s.clone())),
        Json::Array(a) => {
            let mut out: Vec<Value> = Vec::new();
            let mut i: usize = 0;
            while i < a.len()
                invariant
                    i <= a.len(),
                    out@.len() == i,
                    forall|k: int|
                        0 <= k < i ==> !has_null(#[trigger] a@[k]@) && out@[k]@ == from_json(a@[k]@),
                decreases a.len() - i,
            {
                match convert_back(&a[i]) {
                    Some(v) => out.push(v),
                    None => {
                        assert(json@->Arr_0[i as int] == a@[i as int]@);
                        return None;
                    },
                }
                i += 1;
            }
            let r = Value::Array(out);
            assert forall|k: int| 0 <= k < a@.len() implies r@->Arr_0[k] == from_json(json@)->Arr_0[k]
                && !has_null(#[trigger] json@->Arr_0[k]) by {
                assert(json@->Arr_0[k] == a@[k]@);
            }
            assert(r@->Arr_0 =~= from_json(json@)->Arr_0);
            Some(r)
        },
        Json::Object(t) => {
            let mut out: Vec<(String, Value)> = Vec::new();
            let mut i: usize = 0;
            while i < t.len()
                invariant
                    i <= t.len(),
                    out@.len() == i,
                    forall|k: int|
                        0 <= k < i ==> !has_null(#[trigger] t@[k].1@) && out@[k].1@ == from_json(t@[k].1@)
                            && out@[k].0@ == t@[k].0@,
                decreases t.len() - i,
            {
                match convert_back(&t[i].1) {
                    Some(v) => out.push((t[i].0.clone(), v)),
                    None => {
                        assert(json@->Obj_0[i as int].1 == t@[i as int].1@);
                        return None;
                    },
                }
                i += 1;
            }
            let r = Value::Table(out);
            assert forall|k: int| 0 <= k < t@.len() implies r@->Table_0[k] == from_json(json@)->Table_0[k]
                && !has_null(#[trigger] json@->Obj_0[k].1) by {
                assert(json@->Obj_0[k] == (t@[k].0@, t@[k].1@));
            }
            assert(r@->Table_0 =~= from_json(json@)->Table_0);
            Some(r)
        },
    }
}

/// Converting a tree whose floats are all finite to JSON and reading it back
/// gives the same tree, except that each timestamp comes back as its text.
pub proof fn lemma_convert_then_read_back(t: Tree)
    requires
        finite(t),
    ensures
        !has_null(to_json(t)),
        json_finite(to_json(t)),
        from_json(to_json(t)) == without_time(t),
    decreases t,
{
    match t {
        Tree::Arr(s) => {
            let j = to_json(t)->Arr_0;
            assert forall|i: int| 0 <= i < s.len() implies {
                &&& !has_null(#[trigger] j[i])
                &&& json_finite(j[i])
                &&& from_json(j[i]) == without_time(s[i])
            } by {
                lemma_convert_then_read_back(s[i]);
            }
            assert(from_json(to_json(t))->Arr_0 =~= without_time(t)->Arr_0);
        },
        Tree::Table(e) => {
            let j = to_json(t)->Obj_0;
            assert forall|i: int| 0 <= i < e.len() implies {
                &&& !has_null(#[trigger] j[i].1)
                &&& json_finite(j[i].1)
                &&& from_json(j[i].1) == without_time(e[i].1)
            } by {
                lemma_convert_then_read_back(e[i].1);
            }
            assert(from_json(to_json(t))->Table_0 =~= without_time(t)->Table_0);
        },
        _ => {},
    }
}

/// Reading a JSON tree without nulls and with finite floats into a value tree
/// and converting it back gives the same JSON tree.
pub proof fn lemma_read_back_then_convert(j: JsonTree)
    requires
        !has_null(j),
        json_finite(j),
    ensures
        finite(from_json(j)),
        to_json(from_json(j)) == j,
    decreases j,
{
    match j {
        JsonTree::Arr(s) => {
            let t = from_json(j)->Arr_0;
            assert forall|i: int| 0 <= i < s.len() implies {
                &&& finite(#[trigger] t[i])
                &&& to_json(t[i]) == s[i]
            } by {
                lemma_read_back_then_convert(s[i]);
            }
            assert(to_json(from_json(j))->Arr_0 =~= s);
        },
        JsonTree::Obj(e) => {
            let t = from_json(j)->Table_0;
            assert forall|i: int| 0 <= i < e.len() implies {
                &&& finite(#[trigger] t[i].1)
                &&& to_json(t[i].1) == e[i].1
            } by {
                lemma_read_back_then_convert(e[i].1);
            }
            assert(to_json(from_json(j))->Obj_0 =~= e);
        },
        _ => {},
    }
}

} // verus!
