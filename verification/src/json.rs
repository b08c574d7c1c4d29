//! The mathematical model of a JSON value and of the subset-match relation.

use vstd::prelude::*;

verus! {

/// A JSON number as a mathematical object.
///
/// A whole number and a floating-point number are different numbers, even
/// where their magnitudes agree: 6 is not 6.0.
pub ghost enum Num {
    /// A whole number.
    Integer(int),
    /// A finite floating-point number, by the bit pattern of its binary64
    /// form; zero has the pattern 0, whatever its sign. Finite floats with
    /// different patterns have different values, but for the two zeros, so
    /// two of these are equal exactly when IEEE 754 has the floats equal.
    Float(u64),
}

/// A JSON value as a mathematical object.
///
/// An array is a sequence, so its order counts; an object is a map from key
/// to value, so it has no order and no key occurs twice.
pub ghost enum Json {
    Null,
    Bool(bool),
    Number(Num),
    String(Seq<char>),
    Array(Seq<Json>),
    Object(Map<Seq<char>, Json>),
}

impl Json {
    /// Whether the value is null, a boolean, a number or a string.
    pub open spec fn is_scalar(self) -> bool {
        !(self is Array) && !(self is Object)
    }

    /// The subset-match relation: `self` is the actual value, `exp` the
    /// expected one, and the shape of `exp` decides how they are compared.
    ///
    /// - An expected array is matched by an array of the same length whose
    ///   elements match position by position.
    /// - An expected object is matched by an object that has every expected
    ///   key, each with a matching value; further keys are allowed.
    /// - Any other expected value is matched only by an equal value.
    pub open spec fn satisfies(self, exp: Json) -> bool
        decreases exp,
    {
        match exp {
            Json::Array(e) => {
                &&& self matches Json::Array(g)
                &&& g.len() == e.len()
                &&& forall|i: int| 0 <= i < e.len() ==> (#[trigger] g[i]).satisfies(e[i])
            },
            Json::Object(e) => {
                &&& self matches Json::Object(g)
                &&& forall|k: Seq<char>|
                    #![trigger e.contains_key(k)]
                    e.contains_key(k) ==> g.contains_key(k) && g[k].satisfies(e[k])
            },
            _ => self == exp,
        }
    }
}

/// An expected scalar is matched by the equal value and by no other: a
/// value of another kind never matches it.
pub proof fn lemma_scalar_exact(got: Json, exp: Json)
    requires
        exp.is_scalar(),
    ensures
        got.satisfies(exp) <==> got == exp,
{
}

/// Arrays of different lengths do not match, whichever of the two is the
/// expected one and whatever they hold.
pub proof fn lemma_array_lengths_differ(a: Seq<Json>, b: Seq<Json>)
    requires
        a.len() != b.len(),
    ensures
        !Json::Array(a).satisfies(Json::Array(b)),
        !Json::Array(b).satisfies(Json::Array(a)),
{
}

/// Arrays of one length match exactly when their elements match place by
/// place.
pub proof fn lemma_array_elementwise(got: Seq<Json>, exp: Seq<Json>)
    requires
        got.len() == exp.len(),
    ensures
        Json::Array(got).satisfies(Json::Array(exp)) <==> forall|i: int|
            0 <= i < exp.len() ==> (#[trigger] got[i]).satisfies(exp[i]),
{
}

/// An object matches an expected object exactly when it has each expected
/// key with a matching value.
pub proof fn lemma_object_keywise(got: Map<Seq<char>, Json>, exp: Map<Seq<char>, Json>)
    ensures
        Json::Object(got).satisfies(Json::Object(exp)) <==> forall|k: Seq<char>|
            #![trigger exp.contains_key(k)]
            exp.contains_key(k) ==> got.contains_key(k) && got[k].satisfies(exp[k]),
{
    if Json::Object(got).satisfies(Json::Object(exp)) {
        assert forall|k: Seq<char>|
            #![trigger exp.contains_key(k)]
            exp.contains_key(k) implies got.contains_key(k) && got[k].satisfies(exp[k]) by {
            assert(Json::Object(exp)->Object_0.contains_key(k));
        }
    }
}

/// Keys that are not expected do no harm: an object that has the expected
/// keys with matching values matches, whatever else it has.
pub proof fn lemma_object_extra_keys(got: Map<Seq<char>, Json>, exp: Map<Seq<char>, Json>)
    requires
        exp.dom().subset_of(got.dom()),
        forall|k: Seq<char>|
            #![trigger exp.contains_key(k)]
            exp.contains_key(k) ==> got[k].satisfies(exp[k]),
    ensures
        Json::Object(got).satisfies(Json::Object(exp)),
{
}

/// An object that lacks an expected key does not match, even if all the
/// other keys do.
pub proof fn lemma_object_missing_key(
    got: Map<Seq<char>, Json>,
    exp: Map<Seq<char>, Json>,
    k: Seq<char>,
)
    requires
        exp.contains_key(k),
        !got.contains_key(k),
    ensures
        !Json::Object(got).satisfies(Json::Object(exp)),
{
    lemma_object_keywise(got, exp);
}

/// An object that holds, under an expected key, a value that does not match
/// the expected one does not match.
pub proof fn lemma_object_value_mismatch(
    got: Map<Seq<char>, Json>,
    exp: Map<Seq<char>, Json>,
    k: Seq<char>,
)
    requires
        exp.contains_key(k),
        !got[k].satisfies(exp[k]),
    ensures
        !Json::Object(got).satisfies(Json::Object(exp)),
{
    lemma_object_keywise(got, exp);
}

/// An array that holds, at some place, a value that does not match the
/// expected one at that place does not match.
pub proof fn lemma_array_element_mismatch(got: Seq<Json>, exp: Seq<Json>, i: int)
    requires
        0 <= i < exp.len(),
        !got[i].satisfies(exp[i]),
    ensures
        !Json::Array(got).satisfies(Json::Array(exp)),
{
}

/// The empty object is matched by every object.
pub proof fn lemma_empty_object(got: Map<Seq<char>, Json>)
    ensures
        Json::Object(got).satisfies(Json::Object(Map::empty())),
{
}

/// The empty array is matched by the empty array only.
pub proof fn lemma_empty_array(got: Seq<Json>)
    ensures
        Json::Array(got).satisfies(Json::Array(Seq::empty())) <==> got.len() == 0,
{
}

/// Every value matches itself: a scalar, and an array or an object all the
/// way down.
pub proof fn lemma_reflexive(v: Json)
    ensures
        v.satisfies(v),
    decreases v,
{
    match v {
        Json::Array(s) => {
            assert forall|i: int| 0 <= i < s.len() implies (#[trigger] s[i]).satisfies(s[i]) by {
                lemma_reflexive(s[i]);
            }
        },
        Json::Object(m) => {
            assert forall|k: Seq<char>|
                #![trigger m.contains_key(k)]
                m.contains_key(k) implies m[k].satisfies(m[k]) by {
                lemma_reflexive(m[k]);
            }
            lemma_object_keywise(m, m);
        },
        _ => {},
    }
}

/// What matches a value also matches everything that the value matches.
pub proof fn lemma_transitive(a: Json, b: Json, c: Json)
    requires
        a.satisfies(b),
        b.satisfies(c),
    ensures
        a.satisfies(c),
    decreases c,
{
    match c {
        Json::Array(cs) => {
            let bs = b->Array_0;
            let as_ = a->Array_0;
            assert forall|i: int| 0 <= i < cs.len() implies (#[trigger] as_[i]).satisfies(cs[i]) by {
                assert(bs[i].satisfies(cs[i]));
                lemma_transitive(as_[i], bs[i], cs[i]);
            }
        },
        Json::Object(cm) => {
            let bm = b->Object_0;
            lemma_object_keywise(bm, cm);
            let am = a->Object_0;
            lemma_object_keywise(am, bm);
            assert forall|k: Seq<char>|
                #![trigger cm.contains_key(k)]
                cm.contains_key(k) implies am.contains_key(k) && am[k].satisfies(cm[k]) by {
                assert(bm.contains_key(k));
                lemma_transitive(am[k], bm[k], cm[k]);
            }
            lemma_object_keywise(am, cm);
        },
        _ => {},
    }
}

/// Two values that match each other are equal. So the relation is an order
/// on values, and it is not symmetric: of two different values at most one
/// matches the other.
pub proof fn lemma_antisymmetric(a: Json, b: Json)
    requires
        a.satisfies(b),
        b.satisfies(a),
    ensures
        a == b,
    decreases b,
{
    match b {
        Json::Array(bs) => {
            let as_ = a->Array_0;
            assert forall|i: int| 0 <= i < bs.len() implies as_[i] == bs[i] by {
                assert(as_[i].satisfies(bs[i]));
                assert(bs[i].satisfies(as_[i]));
                lemma_antisymmetric(as_[i], bs[i]);
            }
            assert(as_ =~= bs);
        },
        Json::Object(bm) => {
            let am = a->Object_0;
            lemma_object_keywise(am, bm);
            lemma_object_keywise(bm, am);
            assert forall|k: Seq<char>| bm.contains_key(k) implies am.contains_key(k) && am[k]
                == bm[k] by {
                lemma_antisymmetric(am[k], bm[k]);
            }
            assert(am =~= bm);
        },
        _ => {},
    }
}

/// A value of another shape than the expected array or object does not
/// match it.
pub proof fn lemma_shape_mismatch(got: Json, exp: Json)
    requires
        (exp is Array && !(got is Array)) || (exp is Object && !(got is Object)),
    ensures
        !got.satisfies(exp),
{
}

} // verus!
